//! Life status of a player.

use vstd::prelude::*;

verus! {

/// Sub-state of a living player.
#[derive(Clone, Copy, Debug, PartialEq, Eq, Structural)]
pub enum AliveStatus {
    Healthy,
    Injured,
}

/// Life status of a player: alive with a sub-state, or dead.
/// A dead player never becomes alive again; only an explicit
/// new-game reset revives the whole population.
#[derive(Clone, Copy, Debug, PartialEq, Eq, Structural)]
pub enum Status {
    Alive(AliveStatus),
    Dead,
}

impl Status {
    /// True of every status except `Dead`.
    pub open spec fn is_alive(self) -> bool {
        !(self is Dead)
    }
}

} // verus!
