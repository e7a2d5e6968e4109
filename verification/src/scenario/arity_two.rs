//! The stock bucket of two-player scenarios.

use vstd::prelude::*;

use crate::scenario::{Scenario, ScenarioKind};

verus! {

/// The stock two-player scenarios, each valid in every round.
pub fn get() -> (r: Vec<Scenario>)
    ensures
        r@.len() == 5,
        forall|i: int| 0 <= i < r@.len() ==> (#[trigger] r@[i]).possible_after == 0,
        forall|i: int| 0 <= i < r@.len() ==> (#[trigger] r@[i]).impossible_after == usize::MAX,
        r@[0].kind == ScenarioKind::CaughtOffGuard,
        r@[1].kind == ScenarioKind::Fistfight,
        r@[2].kind == ScenarioKind::TendWounds,
        r@[3].kind == ScenarioKind::MutualPoison,
        r@[4].kind == ScenarioKind::KnifeThrow,
{
    let mut r: Vec<Scenario> = Vec::new();
    r.push(Scenario { kind: ScenarioKind::CaughtOffGuard, possible_after: 0, impossible_after: usize::MAX });
    r.push(Scenario { kind: ScenarioKind::Fistfight, possible_after: 0, impossible_after: usize::MAX });
    r.push(Scenario { kind: ScenarioKind::TendWounds, possible_after: 0, impossible_after: usize::MAX });
    r.push(Scenario { kind: ScenarioKind::MutualPoison, possible_after: 0, impossible_after: usize::MAX });
    r.push(Scenario { kind: ScenarioKind::KnifeThrow, possible_after: 0, impossible_after: usize::MAX });
    r
}

} // verus!
