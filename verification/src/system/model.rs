//! What a group edit reports.
use super::ids::BehaviorGroupId;
use vstd::prelude::*;

verus! {

/// What a group edit did.  Deliberately no invalidations: nothing semantic
/// can change.
#[derive(Clone, Debug, PartialEq, Eq)]
pub struct GroupEditOutcome {
    pub created_group: Option<BehaviorGroupId>,
    /// Groups whose membership, name or description changed, or that were
    /// removed, in id order, each once.
    pub groups: Vec<BehaviorGroupId>,
}

} // verus!
