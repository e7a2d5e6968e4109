//! Items a player can carry.

use vstd::prelude::*;

verus! {

/// An item in a player's inventory.  Scenarios may require one (a knife
/// for a throw) and consume it when they fire.
#[derive(Clone, Copy, Debug, PartialEq, Eq, Structural)]
pub enum Item {
    Knife,
}

} // verus!
