//! Scenarios: the events that befall players during a round.
//!
//! A scenario is a tagged event definition with a dynamic eligibility
//! condition, a round-validity window, a narration and an effect.  The
//! catalog groups scenarios by arity: bucket `k` holds the scenarios
//! that involve exactly `k + 1` players, and index 0 of the index list
//! handed to a scenario is always the acting player.

pub mod arity_two;

use vstd::prelude::*;
use vstd::string::StringExecFns;

use crate::item::Item;
use crate::player::{
    add_kill_spec, heal_spec, hurt_spec, kill_spec, Player, PlayerModel,
};
use crate::status::{AliveStatus, Status};

verus! {

/// The mechanical identity of a scenario: what it requires of the
/// players it touches, what it narrates and what it does to them.
#[derive(Clone, Copy, Debug, PartialEq, Eq, Structural)]
pub enum ScenarioKind {
    /// Arity 1: the acting player does nothing of consequence.
    Idle,
    /// Arity 1: the acting player, if injured, tends to their own wounds.
    HealSelf,
    /// Arity 2: the actor surprises and kills the co-participant.
    CaughtOffGuard,
    /// Arity 2: actor and co-participant hurt each other in a brawl.
    Fistfight,
    /// Arity 2: the actor heals an injured co-participant.
    TendWounds,
    /// Arity 2: actor and co-participant poison each other; both die.
    MutualPoison,
    /// Arity 2: the actor spends a knife to kill the co-participant.
    KnifeThrow,
}

/// One registered scenario: its kind and the rounds in which it may
/// fire (eligible while `possible_after <= round < impossible_after`).
#[derive(Clone, Copy, Debug, PartialEq, Eq, Structural)]
pub struct Scenario {
    pub kind: ScenarioKind,
    pub possible_after: usize,
    pub impossible_after: usize,
}

/// The catalog bucket a kind belongs in: its arity minus one.
pub open spec fn bucket_spec(k: ScenarioKind) -> int {
    match k {
        ScenarioKind::Idle => 0,
        ScenarioKind::HealSelf => 0,
        ScenarioKind::CaughtOffGuard => 1,
        ScenarioKind::Fistfight => 1,
        ScenarioKind::TendWounds => 1,
        ScenarioKind::MutualPoison => 1,
        ScenarioKind::KnifeThrow => 1,
    }
}

/// The index list handed to a scenario is long enough for the bucket,
/// points into the population, and does not repeat a player among the
/// entries the scenario touches.
pub open spec fn indices_wf(pop: Seq<PlayerModel>, indices: Seq<usize>, bucket: int) -> bool {
    &&& bucket < indices.len()
    &&& forall|j: int| 0 <= j <= bucket ==> (#[trigger] indices[j]) < pop.len()
    &&& forall|j: int, k: int| 0 <= j < k <= bucket ==> indices[j] != indices[k]
}

/// The current round lies inside the scenario's validity window.
pub open spec fn window_ok(s: Scenario, round: usize) -> bool {
    round >= s.possible_after && round < s.impossible_after
}

/// The scenario's dynamic eligibility condition.
pub open spec fn condition_spec(s: Scenario, pop: Seq<PlayerModel>, indices: Seq<usize>) -> bool {
    match s.kind {
        ScenarioKind::Idle => true,
        ScenarioKind::HealSelf => pop[indices[0] as int].status == Status::Alive(
            AliveStatus::Injured,
        ),
        ScenarioKind::CaughtOffGuard => true,
        ScenarioKind::Fistfight => true,
        ScenarioKind::TendWounds => pop[indices[1] as int].status == Status::Alive(
            AliveStatus::Injured,
        ),
        ScenarioKind::MutualPoison => true,
        ScenarioKind::KnifeThrow => pop[indices[0] as int].inventory.contains(Item::Knife),
    }
}

/// A scenario may fire now: the round lies inside its window and its
/// condition holds of the population and the index list.
pub open spec fn scenario_eligible(
    s: Scenario,
    pop: Seq<PlayerModel>,
    indices: Seq<usize>,
    round: usize,
) -> bool {
    window_ok(s, round) && condition_spec(s, pop, indices)
}

/// The line of narration the scenario contributes.
pub open spec fn message_spec(s: Scenario, pop: Seq<PlayerModel>, indices: Seq<usize>) -> Seq<
    char,
> {
    let n0 = pop[indices[0] as int].name;
    match s.kind {
        ScenarioKind::Idle => n0 + " wandered around aimlessly."@,
        ScenarioKind::HealSelf => n0 + " tended to their own wounds."@,
        ScenarioKind::CaughtOffGuard => n0 + " caught "@ + pop[indices[1] as int].name
            + " off guard and killed "@ + pop[indices[1] as int].pronouns.object_spec() + "."@,
        ScenarioKind::Fistfight => n0 + " got into a fistfight with "@
            + pop[indices[1] as int].name + "."@,
        ScenarioKind::TendWounds => n0 + " tended to "@ + pop[indices[1] as int].name
            + "'s wounds."@,
        ScenarioKind::MutualPoison => n0 + " and "@ + pop[indices[1] as int].name
            + " poisoned eachother."@,
        ScenarioKind::KnifeThrow => n0 + " hit "@ + pop[indices[1] as int].name
            + " with a long distance knife throw."@,
    }
}

/// The population after the scenario's effect.
pub open spec fn actions_spec(s: Scenario, pop: Seq<PlayerModel>, indices: Seq<usize>) -> Seq<
    PlayerModel,
> {
    let i0 = indices[0] as int;
    match s.kind {
        ScenarioKind::Idle => pop,
        ScenarioKind::HealSelf => pop.update(i0, heal_spec(pop[i0])),
        ScenarioKind::CaughtOffGuard => {
            let i1 = indices[1] as int;
            pop.update(i0, add_kill_spec(pop[i0])).update(i1, kill_spec(pop[i1]))
        },
        ScenarioKind::Fistfight => {
            let i1 = indices[1] as int;
            pop.update(i0, hurt_spec(pop[i0])).update(i1, hurt_spec(pop[i1]))
        },
        ScenarioKind::TendWounds => {
            let i1 = indices[1] as int;
            pop.update(i1, heal_spec(pop[i1]))
        },
        ScenarioKind::MutualPoison => {
            let i1 = indices[1] as int;
            pop.update(i0, add_kill_spec(kill_spec(pop[i0]))).update(
                i1,
                add_kill_spec(kill_spec(pop[i1])),
            )
        },
        ScenarioKind::KnifeThrow => {
            let i1 = indices[1] as int;
            match pop[i0].inventory.index_of_first(Item::Knife) {
                Some(j) => pop.update(
                    i0,
                    PlayerModel { inventory: pop[i0].inventory.remove(j), ..add_kill_spec(
                        pop[i0],
                    ) },
                ).update(i1, kill_spec(pop[i1])),
                None => pop,
            }
        },
    }
}

impl Scenario {
    /// The catalog bucket this scenario belongs in.
    pub fn bucket(&self) -> (r: usize)
        ensures
            r as int == bucket_spec(self.kind),
    {
        match self.kind {
            ScenarioKind::Idle => 0,
            ScenarioKind::HealSelf => 0,
            _ => 1,
        }
    }

    /// Evaluates the dynamic eligibility condition.
    pub fn condition(&self, players: &Vec<Player>, indices: &Vec<usize>) -> (r: bool)
        requires
            indices_wf(players.deep_view(), indices@, bucket_spec(self.kind)),
        ensures
            r == condition_spec(*self, players.deep_view(), indices@),
    {
        match self.kind {
            ScenarioKind::Idle => true,
            ScenarioKind::HealSelf => matches!(
                players[indices[0]].status,
                Status::Alive(AliveStatus::Injured)
            ),
            ScenarioKind::CaughtOffGuard => true,
            ScenarioKind::Fistfight => true,
            ScenarioKind::TendWounds => matches!(
                players[indices[1]].status,
                Status::Alive(AliveStatus::Injured)
            ),
            ScenarioKind::MutualPoison => true,
            ScenarioKind::KnifeThrow => {
                let r = players[indices[0]].get_item(&Item::Knife);
                proof {
                    let inv = players.deep_view()[indices@[0] as int].inventory;
                    if r is Some {
                        assert(inv.contains(Item::Knife));
                    } else {
                        assert(forall|m: int| 0 <= m < inv.len() ==> inv[m] != Item::Knife);
                        assert(!inv.contains(Item::Knife));
                    }
                }
                r.is_some()
            },
        }
    }

    /// Builds the line of narration for this scenario.
    pub fn message(&self, players: &Vec<Player>, indices: &Vec<usize>) -> (r: String)
        requires
            indices_wf(players.deep_view(), indices@, bucket_spec(self.kind)),
        ensures
            r@ == message_spec(*self, players.deep_view(), indices@),
    {
        let mut m = players[indices[0]].name.clone();
        match self.kind {
            ScenarioKind::Idle => {
                m.append(" wandered around aimlessly.");
            },
            ScenarioKind::HealSelf => {
                m.append(" tended to their own wounds.");
            },
            ScenarioKind::CaughtOffGuard => {
                m.append(" caught ");
                m.append(players[indices[1]].name.as_str());
                m.append(" off guard and killed ");
                m.append(players[indices[1]].pronouns.object());
                m.append(".");
            },
            ScenarioKind::Fistfight => {
                m.append(" got into a fistfight with ");
                m.append(players[indices[1]].name.as_str());
                m.append(".");
            },
            ScenarioKind::TendWounds => {
                m.append(" tended to ");
                m.append(players[indices[1]].name.as_str());
                m.append("'s wounds.");
            },
            ScenarioKind::MutualPoison => {
                m.append(" and ");
                m.append(players[indices[1]].name.as_str());
                m.append(" poisoned eachother.");
            },
            ScenarioKind::KnifeThrow => {
                m.append(" hit ");
                m.append(players[indices[1]].name.as_str());
                m.append(" with a long distance knife throw.");
            },
        }
        m
    }

    /// Applies the scenario's effect to the players it touches.
    pub fn actions(&self, players: &mut Vec<Player>, indices: &Vec<usize>)
        requires
            indices_wf(old(players).deep_view(), indices@, bucket_spec(self.kind)),
            condition_spec(*self, old(players).deep_view(), indices@),
        ensures
            final(players).deep_view() == actions_spec(
                *self,
                old(players).deep_view(),
                indices@,
            ),
    {
        let ghost pop0 = players.deep_view();
        match self.kind {
            ScenarioKind::Idle => {
                proof {
                    assert(players.deep_view() =~= actions_spec(*self, pop0, indices@));
                }
            },
            ScenarioKind::HealSelf => {
                let i0 = indices[0];
                players[i0].heal();
                proof {
                    assert(players.deep_view() =~= actions_spec(*self, pop0, indices@));
                }
            },
            ScenarioKind::CaughtOffGuard => {
                let i0 = indices[0];
                let i1 = indices[1];
                players[i0].add_kill();
                players[i1].kill();
                proof {
                    assert(players.deep_view() =~= actions_spec(*self, pop0, indices@));
                }
            },
            ScenarioKind::Fistfight => {
                let i0 = indices[0];
                let i1 = indices[1];
                players[i0].hurt();
                players[i1].hurt();
                proof {
                    assert(players.deep_view() =~= actions_spec(*self, pop0, indices@));
                }
            },
            ScenarioKind::TendWounds => {
                let i1 = indices[1];
                players[i1].heal();
                proof {
                    assert(players.deep_view() =~= actions_spec(*self, pop0, indices@));
                }
            },
            ScenarioKind::MutualPoison => {
                let i0 = indices[0];
                let i1 = indices[1];
                players[i0].kill();
                players[i1].kill();
                players[i0].add_kill();
                players[i1].add_kill();
                proof {
                    assert(players.deep_view() =~= actions_spec(*self, pop0, indices@));
                }
            },
            ScenarioKind::KnifeThrow => {
                let i0 = indices[0];
                let i1 = indices[1];
                let j_opt = players[i0].get_item(&Item::Knife);
                proof {
                    assert(pop0[i0 as int].inventory.contains(Item::Knife));
                    if j_opt is None {
                        let w = choose|w: int|
                            0 <= w < pop0[i0 as int].inventory.len()
                                && pop0[i0 as int].inventory[w] == Item::Knife;
                        assert(pop0[i0 as int].inventory[w] == Item::Knife);
                        assert(false);
                    }
                }
                let j = j_opt.unwrap();
                players[i0].inventory.remove(j);
                players[i0].add_kill();
                players[i1].kill();
                proof {
                    pop0[i0 as int].inventory.index_of_first_ensures(Item::Knife);
                    assert(players.deep_view() =~= actions_spec(*self, pop0, indices@));
                }
            },
        }
    }

    /// Fires the scenario: applies its effect and returns its line of
    /// narration, phrased about the population as it stood before.
    pub fn run(&self, players: &mut Vec<Player>, indices: &Vec<usize>, arity: usize) -> (r:
        String)
        requires
            arity as int == bucket_spec(self.kind),
            indices_wf(old(players).deep_view(), indices@, bucket_spec(self.kind)),
            condition_spec(*self, old(players).deep_view(), indices@),
        ensures
            r@ == message_spec(*self, old(players).deep_view(), indices@),
            final(players).deep_view() == actions_spec(
                *self,
                old(players).deep_view(),
                indices@,
            ),
    {
        let m = self.message(players, indices);
        self.actions(players, indices);
        m
    }
}

} // verus!
