//! Players, their mathematical model, and the transformations
//! scenarios apply to them.

use vstd::prelude::*;
use vstd::string::StringExecFns;

use crate::item::Item;
use crate::pronouns::Pronouns;
use crate::status::{AliveStatus, Status};

verus! {

/// One player of the simulation.  Never removed from the population;
/// elimination only marks the player `Dead`.
#[derive(Debug, Clone)]
pub struct Player {
    pub name: String,
    pub status: Status,
    pub pronouns: Pronouns,
    pub moved: bool,
    pub district: u8,
    pub kills: u64,
    pub inventory: Vec<Item>,
}

/// The mathematical model of a player: every contract of the engine
/// speaks of players through this view.
#[verifier::ext_equal]
pub ghost struct PlayerModel {
    pub name: Seq<char>,
    pub status: Status,
    pub pronouns: Pronouns,
    pub moved: bool,
    pub district: u8,
    pub kills: u64,
    pub inventory: Seq<Item>,
}

impl View for Player {
    type V = PlayerModel;

    open spec fn view(&self) -> PlayerModel {
        PlayerModel {
            name: self.name@,
            status: self.status,
            pronouns: self.pronouns,
            moved: self.moved,
            district: self.district,
            kills: self.kills,
            inventory: self.inventory@,
        }
    }
}

impl DeepView for Player {
    type V = PlayerModel;

    open spec fn deep_view(&self) -> PlayerModel {
        self.view()
    }
}

/// A player as read from a roster file; conversion into [`Player`]
/// interprets the free-form `gender` field as a pronoun set.
#[derive(Clone, Debug)]
pub struct JsonPlayer {
    pub name: String,
    pub gender: String,
    pub district: u8,
}

/// A player that is neither dead nor has acted this round.
pub open spec fn can_move(p: PlayerModel) -> bool {
    p.status.is_alive() && !p.moved
}

/// The player after being killed.
pub open spec fn kill_spec(p: PlayerModel) -> PlayerModel {
    PlayerModel { status: Status::Dead, ..p }
}

/// The player after being hurt: a healthy player becomes injured,
/// anyone else dies.
pub open spec fn hurt_spec(p: PlayerModel) -> PlayerModel {
    if p.status == Status::Alive(AliveStatus::Healthy) {
        PlayerModel { status: Status::Alive(AliveStatus::Injured), ..p }
    } else {
        PlayerModel { status: Status::Dead, ..p }
    }
}

/// The player after being healed.
pub open spec fn heal_spec(p: PlayerModel) -> PlayerModel {
    PlayerModel { status: Status::Alive(AliveStatus::Healthy), ..p }
}

/// The player after being credited one kill.  The count saturates at
/// the largest representable value instead of wrapping.
pub open spec fn add_kill_spec(p: PlayerModel) -> PlayerModel {
    PlayerModel { kills: if p.kills < u64::MAX { (p.kills + 1) as u64 } else { u64::MAX }, ..p }
}

/// The player after a new-game reset: healthy and not yet acted;
/// name, pronouns, district, kill count and inventory are kept.
pub open spec fn reset_spec(p: PlayerModel) -> PlayerModel {
    PlayerModel { status: Status::Alive(AliveStatus::Healthy), moved: false, ..p }
}

/// The model of a freshly constructed player.
pub open spec fn new_player_spec(name: Seq<char>, pronouns: Pronouns, district: u8) -> PlayerModel {
    PlayerModel {
        name,
        status: Status::Alive(AliveStatus::Healthy),
        pronouns,
        moved: false,
        district,
        kills: 0,
        inventory: Seq::empty(),
    }
}

/// What folding a roster `gender` entry to lower case yields as a
/// pronoun set: "male" and "female" select their sets, anything else
/// falls back to `Enby`.
pub open spec fn pronouns_of_gender_folded(g: Seq<char>) -> Pronouns {
    if lower_of(g) == "male"@ {
        Pronouns::Male
    } else if lower_of(g) == "female"@ {
        Pronouns::Female
    } else {
        Pronouns::Enby
    }
}

/// The pronoun set selected by an exact-case roster `gender` entry.
pub open spec fn pronouns_of_gender(g: Seq<char>) -> Pronouns {
    if g == "Male"@ || g == "male"@ || g == "MALE"@ {
        Pronouns::Male
    } else if g == "Female"@ || g == "female"@ || g == "FEMALE"@ {
        Pronouns::Female
    } else {
        Pronouns::Enby
    }
}

/// What `str::to_lowercase` returns for a given character sequence.
pub uninterp spec fn lower_of(s: Seq<char>) -> Seq<char>;

/// Relies on `str::to_lowercase`: the result depends on the characters
/// of the input alone.
#[verifier::external_body]
fn lowercase(s: &str) -> (r: String)
    ensures
        r@ == lower_of(s@),
{
    s.to_lowercase()
}

impl Player {
    /// Constructs a player at the start of a simulation: healthy, not
    /// yet acted, no kills, empty inventory.
    pub fn new(name: String, pronouns: Pronouns, district: u8) -> (r: Player)
        ensures
            r@ == new_player_spec(name@, pronouns, district),
    {
        Player {
            name,
            status: Status::Alive(AliveStatus::Healthy),
            pronouns,
            moved: false,
            district,
            kills: 0,
            inventory: Vec::new(),
        }
    }

    /// Converts a roster entry, folding the `gender` field to lower
    /// case before interpreting it.
    pub fn from(value: &JsonPlayer) -> (r: Player)
        ensures
            r@ == new_player_spec(value.name@, pronouns_of_gender_folded(value.gender@), value.district),
    {
        let lowered = lowercase(value.gender.as_str());
        let pronouns = if lowered == String::from_str("male") {
            Pronouns::Male
        } else if lowered == String::from_str("female") {
            Pronouns::Female
        } else {
            Pronouns::Enby
        };
        Self::new(value.name.clone(), pronouns, value.district)
    }

    /// Converts an owned roster entry, matching the `gender` field
    /// exactly against the spellings it accepts.
    pub fn from_owned(value: JsonPlayer) -> (r: Player)
        ensures
            r@ == new_player_spec(value.name@, pronouns_of_gender(value.gender@), value.district),
    {
        let pronouns = if value.gender == String::from_str("Male")
            || value.gender == String::from_str("male")
            || value.gender == String::from_str("MALE") {
            Pronouns::Male
        } else if value.gender == String::from_str("Female")
            || value.gender == String::from_str("female")
            || value.gender == String::from_str("FEMALE") {
            Pronouns::Female
        } else {
            Pronouns::Enby
        };
        Self::new(value.name, pronouns, value.district)
    }

    /// Changes the player's status to `Dead`.
    pub fn kill(&mut self)
        ensures
            final(self)@ == kill_spec(old(self)@),
    {
        self.status = Status::Dead;
    }

    /// Changes the player's status to `Alive(Injured)` if it is
    /// `Alive(Healthy)`, otherwise to `Dead`.
    pub fn hurt(&mut self)
        ensures
            final(self)@ == hurt_spec(old(self)@),
    {
        match self.status {
            Status::Alive(AliveStatus::Healthy) => {
                self.status = Status::Alive(AliveStatus::Injured);
            }
            _ => {
                self.kill();
            }
        }
    }

    /// Changes the player's status to `Alive(Healthy)`.
    pub fn heal(&mut self)
        ensures
            final(self)@ == heal_spec(old(self)@),
    {
        self.status = Status::Alive(AliveStatus::Healthy);
    }

    /// Credits the player with one kill, saturating at the largest
    /// representable count.
    pub fn add_kill(&mut self)
        ensures
            final(self)@ == add_kill_spec(old(self)@),
    {
        if self.kills < u64::MAX {
            self.kills = self.kills + 1;
        }
    }

    /// The position of the first copy of `item` in the inventory, if
    /// the player carries one.
    pub fn get_item(&self, item: &Item) -> (r: Option<usize>)
        ensures
            match r {
                Some(j) => j < self@.inventory.len() && self@.inventory[j as int] == *item
                    && (forall|m: int| 0 <= m < j ==> self@.inventory[m] != *item),
                None => forall|m: int| 0 <= m < self@.inventory.len() ==> self@.inventory[m] != *item,
            },
    {
        let mut n: usize = 0;
        while n < self.inventory.len()
            invariant
                n <= self@.inventory.len(),
                forall|m: int| 0 <= m < n ==> self@.inventory[m] != *item,
            decreases self@.inventory.len() - n,
        {
            if self.inventory[n] == *item {
                return Some(n);
            }
            n = n + 1;
        }
        None
    }
}

} // verus!
