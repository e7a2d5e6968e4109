//! The round engine: availability query, scenario selection, one full
//! round, and the game driver.

use vstd::prelude::*;
use vstd::string::StringExecFns;

use crate::player::{can_move, reset_spec, Player, PlayerModel};
use crate::rng::{random_below, shuffle_players};
use crate::scenario::{
    actions_spec, bucket_spec, indices_wf, scenario_eligible, window_ok, Scenario, ScenarioKind,
};
use crate::status::Status;

verus! {

/// Indices at least `start` of the players still able to act (alive
/// and not yet moved this round), in ascending order.
pub open spec fn available_spec(pop: Seq<PlayerModel>, start: int) -> Seq<usize>
    decreases pop.len() - start,
{
    if start < 0 || start >= pop.len() {
        Seq::empty()
    } else if can_move(pop[start]) {
        seq![start as usize] + available_spec(pop, start + 1)
    } else {
        available_spec(pop, start + 1)
    }
}

/// An index stands in the availability query from `start` exactly when
/// it is at least `start`, within the population, and its player can
/// still act.
pub proof fn lemma_available_contains(pop: Seq<PlayerModel>, start: int, j: usize)
    requires
        0 <= start,
        pop.len() <= usize::MAX,
    ensures
        available_spec(pop, start).contains(j) <==> (start <= j < pop.len() && can_move(
            pop[j as int],
        )),
    decreases pop.len() - start,
{
    if start < pop.len() {
        lemma_available_contains(pop, start + 1, j);
        if can_move(pop[start]) {
            let s = seq![start as usize] + available_spec(pop, start + 1);
            assert(s[0] == start as usize);
            assert(forall|m: int| 1 <= m < s.len() ==> s[m] == available_spec(
                pop,
                start + 1,
            )[m - 1]);
            if start <= j < pop.len() && can_move(pop[j as int]) {
                if j == start {
                    assert(s.contains(j));
                } else {
                    let m = choose|m: int|
                        0 <= m < available_spec(pop, start + 1).len() && (#[trigger] available_spec(
                            pop,
                            start + 1,
                        )[m]) == j;
                    assert(s[m + 1] == j);
                }
            }
        }
    }
}

/// Every entry of the availability query points at a player that can
/// still act, entries ascend strictly, and the query from the index of
/// a player that can act starts with that index.
pub proof fn lemma_available_sorted(pop: Seq<PlayerModel>, start: int)
    requires
        0 <= start,
        pop.len() <= usize::MAX,
    ensures
        forall|m: int| 0 <= m < available_spec(pop, start).len() ==> start <= (
        #[trigger] available_spec(pop, start)[m]) < pop.len() && can_move(
            pop[available_spec(pop, start)[m] as int],
        ),
        forall|m: int, n: int|
            0 <= m < n < available_spec(pop, start).len() ==> available_spec(pop, start)[m]
                < available_spec(pop, start)[n],
    decreases pop.len() - start,
{
    if start < pop.len() {
        lemma_available_sorted(pop, start + 1);
        if can_move(pop[start]) {
            let s = seq![start as usize] + available_spec(pop, start + 1);
            assert(s[0] == start as usize);
            assert(forall|m: int| 1 <= m < s.len() ==> s[m] == available_spec(
                pop,
                start + 1,
            )[m - 1]);
        }
    }
}

/// Law: the availability query is monotonic in its starting index.  An
/// index stands in the query from `k` exactly when it stands in the
/// full query and is at least `k`.
pub proof fn lemma_available_monotonic(pop: Seq<PlayerModel>, k: int, j: usize)
    requires
        0 <= k,
        pop.len() <= usize::MAX,
    ensures
        available_spec(pop, k).contains(j) <==> (available_spec(pop, 0).contains(j) && j >= k),
{
    lemma_available_contains(pop, k, j);
    lemma_available_contains(pop, 0, j);
}

/// Returns the indices of all players capable of moving, starting at
/// `index`.
pub fn get_available_players(players: &Vec<Player>, index: usize) -> (r: Vec<usize>)
    ensures
        r@ == available_spec(players.deep_view(), index as int),
{
    let ghost pop = players.deep_view();
    let mut indices: Vec<usize> = Vec::new();
    let mut n: usize = index;
    while n < players.len()
        invariant
            pop == players.deep_view(),
            index <= n,
            indices@ + available_spec(pop, n as int) == available_spec(pop, index as int),
        decreases players@.len() - n,
    {
        if matches!(players[n].status, Status::Dead) {
            proof {
                assert(indices@ + available_spec(pop, n + 1) =~= indices@ + available_spec(
                    pop,
                    n as int,
                ));
            }
            n = n + 1;
            continue;
        }
        if players[n].moved {
            proof {
                assert(indices@ + available_spec(pop, n + 1) =~= indices@ + available_spec(
                    pop,
                    n as int,
                ));
            }
            n = n + 1;
            continue;
        }
        proof {
            assert(available_spec(pop, n as int) == seq![n] + available_spec(pop, n + 1));
            assert(indices@.push(n) + available_spec(pop, n + 1) =~= indices@ + available_spec(
                pop,
                n as int,
            ));
        }
        indices.push(n);
        n = n + 1;
    }
    proof {
        assert(indices@ + available_spec(pop, n as int) =~= indices@);
    }
    indices
}

/// How many fresh draws the selector makes before it reports the
/// catalog as a configuration error instead of spinning forever.
pub const SELECTION_RETRY_CAP: usize = 1000;

/// Every bucket the selector may draw from (bucket `i` with enough
/// available co-participants, `i < n_indices`) holds a scenario.
pub open spec fn buckets_nonempty(catalog: Seq<Vec<Scenario>>, n_indices: int) -> bool {
    forall|i: int| 0 <= i < catalog.len() && i < n_indices ==> (#[trigger] catalog[i])@.len() > 0
}

/// Every scenario sits in the bucket of its own arity.
pub open spec fn catalog_wf(catalog: Seq<Vec<Scenario>>) -> bool {
    forall|i: int, j: int|
        0 <= i < catalog.len() && 0 <= j < catalog[i]@.len() ==> bucket_spec(
            (#[trigger] catalog[i]@[j]).kind,
        ) == i
}

/// What the selector returns: a scenario drawn from bucket `a` of the
/// catalog, with enough available co-participants for its arity, whose
/// window and condition admit it now.
pub open spec fn eligible_pick(
    catalog: Seq<Vec<Scenario>>,
    pop: Seq<PlayerModel>,
    indices: Seq<usize>,
    round: usize,
    s: Scenario,
    a: usize,
) -> bool {
    &&& (a as int) < catalog.len()
    &&& (a as int) < indices.len()
    &&& catalog[a as int]@.contains(s)
    &&& scenario_eligible(s, pop, indices, round)
}

/// Bucket `b` is in range, has enough available co-participants, and
/// every scenario of it is eligible now: whatever the selector draws
/// from it survives, so selection cannot fail this pass.
pub open spec fn bucket_all_eligible(
    catalog: Seq<Vec<Scenario>>,
    pop: Seq<PlayerModel>,
    indices: Seq<usize>,
    round: usize,
    b: int,
) -> bool {
    &&& 0 <= b < catalog.len()
    &&& b < indices.len()
    &&& catalog[b]@.len() > 0
    &&& forall|k: int|
        0 <= k < catalog[b]@.len() ==> scenario_eligible(
            #[trigger] catalog[b]@[k],
            pop,
            indices,
            round,
        )
}

/// Some bucket guarantees selection.
pub open spec fn some_bucket_all_eligible(
    catalog: Seq<Vec<Scenario>>,
    pop: Seq<PlayerModel>,
    indices: Seq<usize>,
    round: usize,
) -> bool {
    exists|b: int| #[trigger] bucket_all_eligible(catalog, pop, indices, round, b)
}

/// Picks a scenario at random: one candidate is drawn from each bucket
/// with enough available co-participants, candidates outside their
/// round window or failing their condition are discarded, and one
/// survivor is drawn uniformly.  An empty pool is retried with fresh
/// draws; past the retry cap the catalog is reported as a
/// configuration error by returning `None`.
pub fn get_scenario(
    scenarios: &Vec<Vec<Scenario>>,
    rng: &mut rand::rngs::ThreadRng,
    players: &Vec<Player>,
    indices: &Vec<usize>,
    round: usize,
) -> (r: Option<(Scenario, usize)>)
    requires
        catalog_wf(scenarios@),
        buckets_nonempty(scenarios@, indices@.len() as int),
        forall|j: int| 0 <= j < indices@.len() ==> (#[trigger] indices@[j]) < players@.len(),
        forall|j: int, k: int| 0 <= j < k < indices@.len() ==> indices@[j] != indices@[k],
    ensures
        r matches Some(p) ==> eligible_pick(
            scenarios@,
            players.deep_view(),
            indices@,
            round,
            p.0,
            p.1,
        ),
        some_bucket_all_eligible(scenarios@, players.deep_view(), indices@, round) ==> r is Some,
{
    let ghost pop = players.deep_view();
    let mut tries: usize = 0;
    while tries < SELECTION_RETRY_CAP
        invariant
            pop == players.deep_view(),
            catalog_wf(scenarios@),
            buckets_nonempty(scenarios@, indices@.len() as int),
            forall|j: int| 0 <= j < indices@.len() ==> (#[trigger] indices@[j]) < players@.len(),
            forall|j: int, k: int| 0 <= j < k < indices@.len() ==> indices@[j] != indices@[k],
            tries == 0 || !some_bucket_all_eligible(scenarios@, pop, indices@, round),
        decreases SELECTION_RETRY_CAP - tries,
    {
        let mut random_scenes: Vec<(Scenario, usize)> = Vec::new();
        let mut i: usize = 0;
        while i < scenarios.len()
            invariant
                pop == players.deep_view(),
                catalog_wf(scenarios@),
                buckets_nonempty(scenarios@, indices@.len() as int),
                forall|j: int| 0 <= j < indices@.len() ==> (#[trigger] indices@[j])
                    < players@.len(),
                forall|j: int, k: int| 0 <= j < k < indices@.len() ==> indices@[j] != indices@[k],
                i <= scenarios@.len(),
                forall|m: int| 0 <= m < random_scenes@.len() ==> eligible_pick(
                    scenarios@,
                    pop,
                    indices@,
                    round,
                    (#[trigger] random_scenes@[m]).0,
                    random_scenes@[m].1,
                ),
                forall|b: int|
                    (#[trigger] bucket_all_eligible(scenarios@, pop, indices@, round, b) && b < i)
                        ==> random_scenes@.len() > 0,
            decreases scenarios@.len() - i,
        {
            if i >= indices.len() {
                i = i + 1;
                continue;
            }
            let k = random_below(rng, scenarios[i].len());
            let possible = scenarios[i][k];
            proof {
                assert(scenarios@[i as int]@.contains(possible));
            }
            if round < possible.possible_after || round >= possible.impossible_after {
                i = i + 1;
                continue;
            }
            if possible.condition(players, indices) {
                random_scenes.push((possible, i));
            }
            i = i + 1;
        }
        if random_scenes.len() > 0 {
            let k = random_below(rng, random_scenes.len());
            let pick = random_scenes[k];
            return Some(pick);
        }
        tries = tries + 1;
    }
    None
}

/// The availability query from `start` returns at most one index per
/// remaining player.
pub proof fn lemma_available_len(pop: Seq<PlayerModel>, start: int)
    requires
        0 <= start,
    ensures
        start <= pop.len() ==> available_spec(pop, start).len() <= pop.len() - start,
        start > pop.len() ==> available_spec(pop, start).len() == 0,
    decreases pop.len() - start,
{
    if start < pop.len() {
        lemma_available_len(pop, start + 1);
    }
}

/// A scenario's condition holds of every population and index list:
/// true of the kinds that impose no dynamic precondition.
pub open spec fn condition_always(k: ScenarioKind) -> bool {
    ||| k == ScenarioKind::Idle
    ||| k == ScenarioKind::CaughtOffGuard
    ||| k == ScenarioKind::Fistfight
    ||| k == ScenarioKind::MutualPoison
}

/// The first bucket exists and every scenario of it has an open window
/// this round and a condition free of preconditions.  Such a catalog
/// guarantees that selection succeeds for every actor of the round.
pub open spec fn bucket0_always_eligible(catalog: Seq<Vec<Scenario>>, round: usize) -> bool {
    &&& catalog.len() > 0
    &&& catalog[0]@.len() > 0
    &&& forall|k: int|
        0 <= k < catalog[0]@.len() ==> window_ok(#[trigger] catalog[0]@[k], round)
            && condition_always(catalog[0]@[k].kind)
}

/// A scenario whose touched players can all still act (hence are all
/// alive) keeps every dead player dead, keeps every name, pronoun set
/// and district, and keeps the population's size.
pub proof fn lemma_actions_preserve(s: Scenario, pop: Seq<PlayerModel>, indices: Seq<usize>)
    requires
        indices_wf(pop, indices, bucket_spec(s.kind)),
        forall|j: int| 0 <= j <= bucket_spec(s.kind) ==> can_move(
            pop[(#[trigger] indices[j]) as int],
        ),
    ensures
        actions_spec(s, pop, indices).len() == pop.len(),
        forall|i: int|
            0 <= i < pop.len() && pop[i].status is Dead ==> (#[trigger] actions_spec(
                s,
                pop,
                indices,
            )[i]).status is Dead,
        forall|i: int|
            0 <= i < pop.len() ==> (#[trigger] actions_spec(s, pop, indices)[i]).name
                == pop[i].name,
        forall|i: int|
            0 <= i < pop.len() ==> (#[trigger] actions_spec(s, pop, indices)[i]).pronouns
                == pop[i].pronouns,
        forall|i: int|
            0 <= i < pop.len() ==> (#[trigger] actions_spec(s, pop, indices)[i]).district
                == pop[i].district,
{
}

/// The population with every moved flag cleared.
pub open spec fn clear_all_moved(pop: Seq<PlayerModel>) -> Seq<PlayerModel> {
    pop.map_values(|p: PlayerModel| (PlayerModel { moved: false, ..p }))
}

/// The population after the round's scan has processed the first `k`
/// cursors: a `Some` pick fires its effect over the availability list
/// from that cursor, a `None` leaves the population alone.
pub open spec fn scan_pop(
    pop: Seq<PlayerModel>,
    picks: Seq<Option<(Scenario, usize)>>,
    k: int,
) -> Seq<PlayerModel>
    decreases k,
{
    if k <= 0 {
        pop
    } else {
        let prev = scan_pop(pop, picks, k - 1);
        match picks[k - 1] {
            Option::Some(p) => actions_spec(p.0, prev, available_spec(prev, k - 1)),
            Option::None => prev,
        }
    }
}

/// The narration lines of the first `k` cursors, in cursor order: one
/// message per fired pick, phrased about the population as it stood.
pub open spec fn scan_lines(
    pop: Seq<PlayerModel>,
    picks: Seq<Option<(Scenario, usize)>>,
    k: int,
) -> Seq<Seq<char>>
    decreases k,
{
    if k <= 0 {
        Seq::empty()
    } else {
        let prev_pop = scan_pop(pop, picks, k - 1);
        let prev = scan_lines(pop, picks, k - 1);
        match picks[k - 1] {
            Option::Some(p) => prev.push(
                crate::scenario::message_spec(p.0, prev_pop, available_spec(prev_pop, k - 1)),
            ),
            Option::None => prev,
        }
    }
}

/// The first `picks.len()` cursors of a round behaved as the engine
/// demands: a participant able to act when the cursor reached it fired
/// exactly one eligible pick, selected over the availability list from
/// its own index (itself first by construction), and the population
/// stepped by that pick's effect; a dead or already-moved participant
/// fired nothing.
pub open spec fn trace_prefix_wf(
    pop: Seq<PlayerModel>,
    picks: Seq<Option<(Scenario, usize)>>,
    catalog: Seq<Vec<Scenario>>,
    round: usize,
) -> bool {
    &&& picks.len() <= pop.len()
    &&& forall|i: int|
        0 <= i < picks.len() ==> match #[trigger] picks[i] {
            Option::Some(p) => can_move(scan_pop(pop, picks, i)[i]) && eligible_pick(
                catalog,
                scan_pop(pop, picks, i),
                available_spec(scan_pop(pop, picks, i), i),
                round,
                p.0,
                p.1,
            ),
            Option::None => !can_move(scan_pop(pop, picks, i)[i]),
        }
}

/// A complete round trace: one cursor per participant.
pub open spec fn round_trace_wf(
    pop: Seq<PlayerModel>,
    picks: Seq<Option<(Scenario, usize)>>,
    catalog: Seq<Vec<Scenario>>,
    round: usize,
) -> bool {
    picks.len() == pop.len() && trace_prefix_wf(pop, picks, catalog, round)
}

/// The newline-join of narration lines, with no trailing separator.
pub open spec fn join_lines(lines: Seq<Seq<char>>) -> Seq<char>
    decreases lines.len(),
{
    if lines.len() == 0 {
        Seq::empty()
    } else if lines.len() == 1 {
        lines[0]
    } else {
        join_lines(lines.drop_last()) + "\n"@ + lines.last()
    }
}

/// The full narration of a round whose scan produced `lines` and left
/// the population (moved flags cleared) at `pop_end`: the joined event
/// lines, plus exactly one terminal line when at most one player can
/// still act, and nothing else.
pub open spec fn round_narration(lines: Seq<Seq<char>>, pop_end: Seq<PlayerModel>) -> Seq<char> {
    let living = available_spec(pop_end, 0);
    let events = join_lines(lines);
    if living.len() == 0 {
        if lines.len() == 0 {
            "Nobody won."@
        } else {
            events + "\n"@ + "Nobody won."@
        }
    } else if living.len() == 1 {
        let nm = pop_end[living[0] as int].name;
        if lines.len() == 0 {
            nm + " won."@
        } else {
            events + "\n"@ + nm + " won."@
        }
    } else {
        events
    }
}

/// A round from `pop0` under `catalog` legitimately produced the final
/// population `pop1`, the narration and the game-over flag: some
/// complete trace of picks explains all three.
pub open spec fn round_result_wf(
    pop0: Seq<PlayerModel>,
    catalog: Seq<Vec<Scenario>>,
    round: usize,
    pop1: Seq<PlayerModel>,
    narration: Seq<char>,
    over: bool,
) -> bool {
    exists|picks: Seq<Option<(Scenario, usize)>>|
        {
            &&& #[trigger] round_trace_wf(pop0, picks, catalog, round)
            &&& pop1 == clear_all_moved(scan_pop(pop0, picks, pop0.len() as int))
            &&& narration == round_narration(scan_lines(pop0, picks, pop0.len() as int), pop1)
            &&& (over <==> available_spec(pop1, 0).len() <= 1)
        }
}

/// Extending the pick sequence does not change what earlier cursors
/// did.
pub proof fn lemma_scan_push(
    pop: Seq<PlayerModel>,
    picks: Seq<Option<(Scenario, usize)>>,
    x: Option<(Scenario, usize)>,
    k: int,
)
    requires
        0 <= k <= picks.len(),
    ensures
        scan_pop(pop, picks.push(x), k) == scan_pop(pop, picks, k),
        scan_lines(pop, picks.push(x), k) == scan_lines(pop, picks, k),
    decreases k,
{
    if k > 0 {
        lemma_scan_push(pop, picks, x, k - 1);
        assert(picks.push(x)[k - 1] == picks[k - 1]);
    }
}

/// Clears the moved flag of every player, leaving everything else.
fn clear_moved(players: &mut Vec<Player>)
    ensures
        final(players)@.len() == old(players)@.len(),
        forall|i: int|
            0 <= i < old(players)@.len() ==> (#[trigger] final(players).deep_view()[i])
                == (PlayerModel { moved: false, ..old(players).deep_view()[i] }),
{
    let ghost pop0 = players.deep_view();
    let mut n: usize = 0;
    while n < players.len()
        invariant
            n <= players@.len(),
            players@.len() == pop0.len(),
            forall|i: int| 0 <= i < n ==> players.deep_view()[i] == (PlayerModel {
                moved: false,
                ..pop0[i]
            }),
            forall|i: int| n <= i < pop0.len() ==> players.deep_view()[i] == pop0[i],
        decreases players@.len() - n,
    {
        let ghost before = players.deep_view();
        players[n].moved = false;
        proof {
            assert(players.deep_view() =~= before.update(
                n as int,
                (PlayerModel { moved: false, ..before[n as int] }),
            ));
        }
        n = n + 1;
    }
    proof {
        assert(players.deep_view() =~= pop0.map_values(
            |p: PlayerModel| (PlayerModel { moved: false, ..p }),
        ));
    }
}

/// Simulates a single round: scans the players in order, lets each one
/// still able to act fire one selected scenario, then clears every
/// moved flag and judges the end of the game.  Returns the round's
/// narration and whether the game is over, or `None` when scenario
/// selection exhausts its retries (a configuration error).
///
/// The contract ties a returned round to a complete trace of picks:
/// which eligible scenario each acting participant fired, how the
/// population stepped at each cursor, and the narration — one line per
/// fired pick plus the terminal line exactly when the game is over.  A
/// `None` is possible only if, at some reachable selection state, no
/// bucket was fully eligible.
pub fn simulate_round(
    players: &mut Vec<Player>,
    scenarios: &Vec<Vec<Scenario>>,
    rng: &mut rand::rngs::ThreadRng,
    round: usize,
) -> (r: Option<(String, bool)>)
    requires
        catalog_wf(scenarios@),
        buckets_nonempty(scenarios@, old(players)@.len() as int),
    ensures
        final(players)@.len() == old(players)@.len(),
        forall|i: int|
            0 <= i < final(players).deep_view().len() ==> !(#[trigger] final(players).deep_view()[i]).moved,
        forall|i: int|
            0 <= i < old(players)@.len() && old(players).deep_view()[i].status is Dead ==> (
            #[trigger] final(players).deep_view()[i]).status is Dead,
        forall|i: int|
            0 <= i < old(players)@.len() ==> (#[trigger] final(players).deep_view()[i]).name == old(players).deep_view()[i].name,
        forall|i: int|
            0 <= i < old(players)@.len() ==> (#[trigger] final(players).deep_view()[i]).pronouns
                == old(players).deep_view()[i].pronouns,
        forall|i: int|
            0 <= i < old(players)@.len() ==> (#[trigger] final(players).deep_view()[i]).district
                == old(players).deep_view()[i].district,
        r matches Some(p) ==> (p.1 <==> available_spec(final(players).deep_view(), 0).len() <= 1),
        r matches Some(p) ==> round_result_wf(
            old(players).deep_view(),
            scenarios@,
            round,
            final(players).deep_view(),
            p.0@,
            p.1,
        ),
        r is None ==> exists|picks: Seq<Option<(Scenario, usize)>>, i: int|
            {
                &&& trace_prefix_wf(old(players).deep_view(), picks, scenarios@, round)
                &&& picks.len() == i
                &&& 0 <= i < old(players)@.len()
                &&& can_move((#[trigger] scan_pop(old(players).deep_view(), picks, i))[i])
                &&& !some_bucket_all_eligible(
                    scenarios@,
                    scan_pop(old(players).deep_view(), picks, i),
                    available_spec(scan_pop(old(players).deep_view(), picks, i), i),
                    round,
                )
            },
        bucket0_always_eligible(scenarios@, round) ==> r is Some,
{
    let ghost pop_init = players.deep_view();
    let mut string = String::new();
    let mut first = true;
    let mut index: usize = 0;
    let ghost mut picks: Seq<Option<(Scenario, usize)>> = Seq::empty();
    while index < players.len()
        invariant
            catalog_wf(scenarios@),
            buckets_nonempty(scenarios@, pop_init.len() as int),
            pop_init == old(players).deep_view(),
            pop_init.len() == old(players)@.len(),
            players@.len() == pop_init.len(),
            index <= pop_init.len(),
            picks.len() == index,
            trace_prefix_wf(pop_init, picks, scenarios@, round),
            players.deep_view() == scan_pop(pop_init, picks, index as int),
            string@ == join_lines(scan_lines(pop_init, picks, index as int)),
            first <==> scan_lines(pop_init, picks, index as int).len() == 0,
            forall|i: int|
                0 <= i < pop_init.len() && pop_init[i].status is Dead ==> (#[trigger] players.deep_view()[i]).status is Dead,
            forall|i: int|
                0 <= i < pop_init.len() ==> (#[trigger] players.deep_view()[i]).name
                    == pop_init[i].name,
            forall|i: int|
                0 <= i < pop_init.len() ==> (#[trigger] players.deep_view()[i]).pronouns
                    == pop_init[i].pronouns,
            forall|i: int|
                0 <= i < pop_init.len() ==> (#[trigger] players.deep_view()[i]).district
                    == pop_init[i].district,
        decreases players@.len() - index,
    {
        let skip_dead = matches!(players[index].status, Status::Dead);
        if skip_dead || players[index].moved {
            proof {
                let picks2 = picks.push(Option::None);
                assert forall|k2: int| 0 <= k2 <= picks.len() implies scan_pop(
                    pop_init,
                    picks2,
                    k2,
                ) == scan_pop(pop_init, picks, k2) && scan_lines(pop_init, picks2, k2)
                    == scan_lines(pop_init, picks, k2) by {
                    lemma_scan_push(pop_init, picks, Option::None, k2);
                }
                assert(forall|i: int| 0 <= i < picks.len() ==> picks2[i] == #[trigger] picks[i]);
                assert(picks2[index as int] is None);
                assert(!can_move(scan_pop(pop_init, picks2, index as int)[index as int]));
                picks = picks2;
                assert(trace_prefix_wf(pop_init, picks, scenarios@, round));
                assert(scan_pop(pop_init, picks, index + 1) == scan_pop(
                    pop_init,
                    picks,
                    index as int,
                ));
                assert(scan_lines(pop_init, picks, index + 1) == scan_lines(
                    pop_init,
                    picks,
                    index as int,
                ));
            }
            index = index + 1;
            continue;
        }
        let ghost pop_now = players.deep_view();
        let indices = get_available_players(players, index);
        proof {
            lemma_available_sorted(pop_now, index as int);
            lemma_available_contains(pop_now, index as int, index);
            assert(available_spec(pop_now, index as int).contains(index));
            assert(indices@.len() > 0);
            lemma_available_len(pop_now, index as int);
        }
        match get_scenario(scenarios, rng, players, &indices, round) {
            None => {
                proof {
                    if bucket0_always_eligible(scenarios@, round) {
                        assert forall|k: int| 0 <= k < scenarios@[0]@.len() implies scenario_eligible(
                            #[trigger] scenarios@[0]@[k],
                            pop_now,
                            indices@,
                            round,
                        ) by {
                            assert(condition_always(scenarios@[0]@[k].kind));
                        }
                        assert(bucket_all_eligible(scenarios@, pop_now, indices@, round, 0));
                        assert(some_bucket_all_eligible(scenarios@, pop_now, indices@, round));
                        assert(false);
                    }
                    assert(!some_bucket_all_eligible(scenarios@, pop_now, indices@, round));
                    assert(can_move(scan_pop(pop_init, picks, index as int)[index as int]));
                }
                clear_moved(players);
                return None;
            },
            Some((scenario, arity)) => {
                proof {
                    let j = choose|j: int|
                        0 <= j < scenarios@[arity as int]@.len() && scenarios@[arity as int]@[j]
                            == scenario;
                    assert(bucket_spec(scenario.kind) == arity as int);
                    lemma_actions_preserve(scenario, pop_now, indices@);
                }
                let line = scenario.run(players, &indices, arity);
                let ghost lines_prev = scan_lines(pop_init, picks, index as int);
                if !first {
                    string.append("\n");
                }
                string.append(line.as_str());
                proof {
                    let picks2 = picks.push(Option::Some((scenario, arity)));
                    assert forall|k2: int| 0 <= k2 <= picks.len() implies scan_pop(
                        pop_init,
                        picks2,
                        k2,
                    ) == scan_pop(pop_init, picks, k2) && scan_lines(pop_init, picks2, k2)
                        == scan_lines(pop_init, picks, k2) by {
                        lemma_scan_push(pop_init, picks, Option::Some((scenario, arity)), k2);
                    }
                    assert(forall|i: int|
                        0 <= i < picks.len() ==> picks2[i] == #[trigger] picks[i]);
                    assert(scan_pop(pop_init, picks2, index as int) == pop_now);
                    assert(eligible_pick(
                        scenarios@,
                        pop_now,
                        available_spec(pop_now, index as int),
                        round,
                        scenario,
                        arity,
                    ));
                    picks = picks2;
                    assert(trace_prefix_wf(pop_init, picks, scenarios@, round));
                    assert(scan_pop(pop_init, picks, index + 1) == actions_spec(
                        scenario,
                        pop_now,
                        available_spec(pop_now, index as int),
                    ));
                    let msg = crate::scenario::message_spec(
                        scenario,
                        pop_now,
                        available_spec(pop_now, index as int),
                    );
                    assert(scan_lines(pop_init, picks, index + 1) == lines_prev.push(msg));
                    if lines_prev.len() == 0 {
                        assert(string@ == Seq::<char>::empty() + msg);
                        assert(string@ =~= msg);
                        assert(join_lines(lines_prev.push(msg)) == lines_prev.push(msg)[0]);
                    } else {
                        assert(lines_prev.push(msg).drop_last() =~= lines_prev);
                        assert(lines_prev.push(msg).last() == msg);
                        assert(join_lines(lines_prev.push(msg)) == join_lines(lines_prev) + "\n"@
                            + msg);
                    }
                }
                first = false;
                index = index + 1;
            },
        }
    }
    let ghost pop_scan = players.deep_view();
    let ghost lines = scan_lines(pop_init, picks, pop_init.len() as int);
    clear_moved(players);
    proof {
        assert(players.deep_view() =~= clear_all_moved(pop_scan));
        assert(round_trace_wf(pop_init, picks, scenarios@, round));
    }
    let ghost pop_final = players.deep_view();
    let living = get_available_players(players, 0);
    proof {
        lemma_available_sorted(pop_final, 0);
    }
    if living.len() == 0 {
        if !first {
            string.append("\n");
        }
        let ghost pre = string@;
        string.append("Nobody won.");
        proof {
            assert(string@ == pre + "Nobody won."@);
            if lines.len() == 0 {
                assert(string@ =~= "Nobody won."@);
            }
            assert(string@ == round_narration(lines, pop_final));
            assert(round_result_wf(pop_init, scenarios@, round, pop_final, string@, true));
        }
        Some((string, true))
    } else if living.len() == 1 {
        if !first {
            string.append("\n");
        }
        let ghost pre = string@;
        string.append(players[living[0]].name.as_str());
        string.append(" won.");
        proof {
            assert(string@ == pre + pop_final[living@[0] as int].name + " won."@);
            if lines.len() == 0 {
                assert(string@ =~= pop_final[living@[0] as int].name + " won."@);
            }
            assert(string@ == round_narration(lines, pop_final));
            assert(round_result_wf(pop_init, scenarios@, round, pop_final, string@, true));
        }
        Some((string, true))
    } else {
        proof {
            assert(string@ == round_narration(lines, pop_final));
            assert(round_result_wf(pop_init, scenarios@, round, pop_final, string@, false));
        }
        Some((string, false))
    }
}

/// How many rounds a game may run before the catalog is reported as a
/// configuration error: a catalog able to eliminate players ends the
/// game far earlier.
pub const ROUND_CAP: usize = 100000;

/// The catalog a given round draws from: the start catalog for the
/// opening round, the main catalog thereafter.
pub open spec fn catalog_for_round(
    main: Seq<Vec<Scenario>>,
    start: Seq<Vec<Scenario>>,
    k: int,
) -> Seq<Vec<Scenario>> {
    if k == 0 {
        start
    } else {
        main
    }
}

/// The game history from `pop0` to `pop1`: `ts` are the narrations of
/// the rounds played, in order, starting at round `k`.  Each round is
/// preceded by a shuffle — a permutation, so the multiset of players
/// is kept — and drawn from the start catalog for round 0 and the
/// main catalog thereafter; its result is explained by a complete
/// round trace.
pub open spec fn game_trace_wf(
    pop0: Seq<PlayerModel>,
    ts: Seq<Seq<char>>,
    main: Seq<Vec<Scenario>>,
    start: Seq<Vec<Scenario>>,
    pop1: Seq<PlayerModel>,
    k: int,
) -> bool
    decreases ts.len(),
{
    if ts.len() == 0 {
        pop1 == pop0
    } else {
        exists|shuffled: Seq<PlayerModel>, mid: Seq<PlayerModel>, over: bool|
            {
                &&& shuffled.to_multiset() == pop0.to_multiset()
                &&& shuffled.len() == pop0.len()
                &&& #[trigger] round_result_wf(
                    shuffled,
                    catalog_for_round(main, start, k),
                    k as usize,
                    mid,
                    ts[0],
                    over,
                )
                &&& game_trace_wf(mid, ts.drop_first(), main, start, pop1, k + 1)
            }
    }
}

/// Appending one round to a game history.
pub proof fn lemma_game_trace_snoc(
    pop0: Seq<PlayerModel>,
    ts: Seq<Seq<char>>,
    main: Seq<Vec<Scenario>>,
    start: Seq<Vec<Scenario>>,
    p1: Seq<PlayerModel>,
    k: int,
    shuffled: Seq<PlayerModel>,
    mid: Seq<PlayerModel>,
    t: Seq<char>,
    over: bool,
)
    requires
        0 <= k,
        game_trace_wf(pop0, ts, main, start, p1, k),
        shuffled.to_multiset() == p1.to_multiset(),
        shuffled.len() == p1.len(),
        round_result_wf(
            shuffled,
            catalog_for_round(main, start, k + ts.len()),
            (k + ts.len()) as usize,
            mid,
            t,
            over,
        ),
    ensures
        game_trace_wf(pop0, ts.push(t), main, start, mid, k),
    decreases ts.len(),
{
    if ts.len() == 0 {
        assert(ts.push(t)[0] == t);
        assert(ts.push(t).drop_first() =~= Seq::<Seq<char>>::empty());
        assert(game_trace_wf(mid, ts.push(t).drop_first(), main, start, mid, k + 1));
        assert(round_result_wf(
            shuffled,
            catalog_for_round(main, start, k),
            k as usize,
            mid,
            ts.push(t)[0],
            over,
        ));
    } else {
        let (s0, m0, o0) = choose|s0: Seq<PlayerModel>, m0: Seq<PlayerModel>, o0: bool|
            {
                &&& s0.to_multiset() == pop0.to_multiset()
                &&& s0.len() == pop0.len()
                &&& #[trigger] round_result_wf(
                    s0,
                    catalog_for_round(main, start, k),
                    k as usize,
                    m0,
                    ts[0],
                    o0,
                )
                &&& game_trace_wf(m0, ts.drop_first(), main, start, p1, k + 1)
            };
        lemma_game_trace_snoc(
            m0,
            ts.drop_first(),
            main,
            start,
            p1,
            k + 1,
            shuffled,
            mid,
            t,
            over,
        );
        assert(ts.push(t)[0] == ts[0]);
        assert(ts.push(t).drop_first() =~= ts.drop_first().push(t));
        assert(game_trace_wf(m0, ts.push(t).drop_first(), main, start, mid, k + 1));
        assert(round_result_wf(
            s0,
            catalog_for_round(main, start, k),
            k as usize,
            m0,
            ts.push(t)[0],
            o0,
        ));
    }
}

/// How a finished game ended.
#[derive(Debug, PartialEq, Eq)]
pub enum GameOutcome {
    /// Exactly one player survived; their name.
    Winner(String),
    /// Nobody survived: a mutual elimination in the final round.
    Draw,
    /// The catalog cannot finish a game: scenario selection failed for
    /// some reachable combination of available players and round, or
    /// no round ever eliminated enough players.
    ConfigurationError,
}

/// Simulates an entire game: shuffles the players and runs one round
/// after another — the start catalog for the opening round, the main
/// catalog thereafter — until at most one player is left standing.
/// Returns the narration of each round and the outcome.
///
/// Unless the catalog fails, the contract ties the transcript to a
/// game history: round by round, a shuffle that keeps the multiset of
/// players, then a round — drawn from the catalog that round owns —
/// whose trace explains its narration and the next population.
pub fn simulate_game(
    players: &mut Vec<Player>,
    scenarios: &Vec<Vec<Scenario>>,
    start_scenarios: &Vec<Vec<Scenario>>,
    rng: &mut rand::rngs::ThreadRng,
) -> (r: (Vec<String>, GameOutcome))
    requires
        catalog_wf(scenarios@),
        catalog_wf(start_scenarios@),
        buckets_nonempty(scenarios@, old(players)@.len() as int),
        buckets_nonempty(start_scenarios@, old(players)@.len() as int),
    ensures
        final(players)@.len() == old(players)@.len(),
        r.1 matches GameOutcome::Winner(n) ==> available_spec(final(players).deep_view(), 0).len()
            == 1 && n@ == final(players).deep_view()[available_spec(
            final(players).deep_view(),
            0,
        )[0] as int].name,
        r.1 is Draw ==> available_spec(final(players).deep_view(), 0).len() == 0,
        !(r.1 is ConfigurationError) ==> available_spec(final(players).deep_view(), 0).len() <= 1,
        available_spec(old(players).deep_view(), 0).len() <= 1 ==> final(players).deep_view()
            == old(players).deep_view() && r.0@.len() == 0 && !(r.1 is ConfigurationError),
        available_spec(old(players).deep_view(), 0).len() == 0 ==> r.1 is Draw,
        available_spec(old(players).deep_view(), 0).len() == 1 ==> r.1 is Winner,
        !(r.1 is ConfigurationError) ==> game_trace_wf(
            old(players).deep_view(),
            r.0.deep_view(),
            scenarios@,
            start_scenarios@,
            final(players).deep_view(),
            0,
        ),
{
    let ghost pop_init = players.deep_view();
    let mut transcript: Vec<String> = Vec::new();
    let mut round: usize = 0;
    proof {
        assert(transcript.deep_view() =~= Seq::<Seq<char>>::empty());
    }
    while round < ROUND_CAP
        invariant_except_break
            round == transcript@.len(),
        invariant
            catalog_wf(scenarios@),
            catalog_wf(start_scenarios@),
            buckets_nonempty(scenarios@, pop_init.len() as int),
            buckets_nonempty(start_scenarios@, pop_init.len() as int),
            pop_init == old(players).deep_view(),
            pop_init.len() == old(players)@.len(),
            players@.len() == pop_init.len(),
            round <= ROUND_CAP,
            game_trace_wf(
                pop_init,
                transcript.deep_view(),
                scenarios@,
                start_scenarios@,
                players.deep_view(),
                0,
            ),
            available_spec(pop_init, 0).len() <= 1 ==> players.deep_view() == pop_init
                && transcript@.len() == 0,
        ensures
            players@.len() == pop_init.len(),
            round == ROUND_CAP || available_spec(players.deep_view(), 0).len() <= 1,
            game_trace_wf(
                pop_init,
                transcript.deep_view(),
                scenarios@,
                start_scenarios@,
                players.deep_view(),
                0,
            ),
            available_spec(pop_init, 0).len() <= 1 ==> players.deep_view() == pop_init
                && transcript@.len() == 0,
        decreases ROUND_CAP - round,
    {
        let avail = get_available_players(players, 0);
        if avail.len() <= 1 {
            break;
        }
        let ghost before_shuffle = players.deep_view();
        shuffle_players(players, rng);
        let ghost shuffled_view = players.deep_view();
        let result = if round == 0 {
            simulate_round(players, start_scenarios, rng, round)
        } else {
            simulate_round(players, scenarios, rng, round)
        };
        match result {
            None => {
                return (transcript, GameOutcome::ConfigurationError);
            },
            Some((narration, over)) => {
                let ghost ts_old = transcript.deep_view();
                let ghost nview = narration@;
                transcript.push(narration);
                proof {
                    assert(transcript.deep_view() =~= ts_old.push(nview));
                    lemma_game_trace_snoc(
                        pop_init,
                        ts_old,
                        scenarios@,
                        start_scenarios@,
                        before_shuffle,
                        0,
                        shuffled_view,
                        players.deep_view(),
                        nview,
                        over,
                    );
                }
                if over {
                    break;
                }
            },
        }
        round = round + 1;
    }
    let living = get_available_players(players, 0);
    if living.len() == 0 {
        (transcript, GameOutcome::Draw)
    } else if living.len() == 1 {
        proof {
            vstd::std_specs::vec::axiom_spec_len(players);
            lemma_available_sorted(players.deep_view(), 0);
        }
        let name = players[living[0]].name.clone();
        (transcript, GameOutcome::Winner(name))
    } else {
        (transcript, GameOutcome::ConfigurationError)
    }
}

/// Heals every player and clears the moved flag: the new-game reset.
/// Names, pronouns, districts, kill counts and inventories are kept.
pub fn reset_players(players: &mut Vec<Player>)
    ensures
        final(players)@.len() == old(players)@.len(),
        final(players).deep_view() == old(players).deep_view().map_values(
            |p: PlayerModel| reset_spec(p),
        ),
{
    let ghost pop0 = players.deep_view();
    let mut n: usize = 0;
    while n < players.len()
        invariant
            n <= players@.len(),
            players@.len() == pop0.len(),
            forall|i: int| 0 <= i < n ==> players.deep_view()[i] == reset_spec(pop0[i]),
            forall|i: int| n <= i < pop0.len() ==> players.deep_view()[i] == pop0[i],
        decreases players@.len() - n,
    {
        let ghost before = players.deep_view();
        players[n].heal();
        let ghost mid = players.deep_view();
        players[n].moved = false;
        proof {
            assert(mid =~= before.update(n as int, crate::player::heal_spec(before[n as int])));
            assert(players.deep_view() =~= mid.update(
                n as int,
                (PlayerModel { moved: false, ..mid[n as int] }),
            ));
            assert(players.deep_view()[n as int] == reset_spec(pop0[n as int]));
        }
        n = n + 1;
    }
    proof {
        assert(players.deep_view() =~= pop0.map_values(|p: PlayerModel| reset_spec(p)));
    }
}

/// Law: the new-game reset is idempotent.  Resetting a population
/// twice yields the same population as resetting it once.
pub proof fn lemma_reset_idempotent(pop: Seq<PlayerModel>)
    ensures
        pop.map_values(|p: PlayerModel| reset_spec(p)).map_values(|p: PlayerModel| reset_spec(p))
            == pop.map_values(|p: PlayerModel| reset_spec(p)),
{
    assert(pop.map_values(|p: PlayerModel| reset_spec(p)).map_values(
        |p: PlayerModel| reset_spec(p),
    ) =~= pop.map_values(|p: PlayerModel| reset_spec(p)));
}

} // verus!
