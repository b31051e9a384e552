//! The states of runs and items, and the names under which they are stored.

use vstd::prelude::*;

verus! {

/// The state of a run.
#[derive(Clone, Copy, Debug, PartialEq, Eq, Structural)]
pub enum RunStatus {
    /// Created; some item may still be unregistered or pending.
    Running,
    /// Every item has been attempted.
    Completed,
}

/// The state of an item.
#[derive(Clone, Copy, Debug, PartialEq, Eq, Structural)]
pub enum ItemStatus {
    /// Registered, capture not yet recorded.
    Pending,
    /// Capture succeeded and the storage key is recorded.
    Completed,
    /// The capture attempt failed.
    Failed,
}

impl RunStatus {
    /// The name under which the state is stored and reported.
    pub open spec fn name(self) -> Seq<char> {
        match self {
            RunStatus::Running => "running"@,
            RunStatus::Completed => "completed"@,
        }
    }

    pub fn as_str(&self) -> (r: &'static str)
        ensures
            r@ == self.name(),
    {
        match self {
            RunStatus::Running => "running",
            RunStatus::Completed => "completed",
        }
    }
}

impl ItemStatus {
    /// The name under which the state is stored and reported.
    pub open spec fn name(self) -> Seq<char> {
        match self {
            ItemStatus::Pending => "pending"@,
            ItemStatus::Completed => "completed"@,
            ItemStatus::Failed => "failed"@,
        }
    }

    /// An item is terminal once its one capture attempt has been recorded.
    pub open spec fn terminal(self) -> bool {
        self != ItemStatus::Pending
    }

    pub fn as_str(&self) -> (r: &'static str)
        ensures
            r@ == self.name(),
    {
        match self {
            ItemStatus::Pending => "pending",
            ItemStatus::Completed => "completed",
            ItemStatus::Failed => "failed",
        }
    }

    pub fn is_terminal(&self) -> (r: bool)
        ensures
            r == self.terminal(),
    {
        match self {
            ItemStatus::Pending => false,
            _ => true,
        }
    }
}

/// Distinct run states have distinct names.
pub proof fn lemma_run_names_differ(a: RunStatus, b: RunStatus)
    ensures
        a.name() == b.name() <==> a == b,
{
    reveal_strlit("running");
    reveal_strlit("completed");
    if a != b {
        assert(a.name().len() != b.name().len());
    }
}

/// Distinct item states have distinct names.
pub proof fn lemma_item_names_differ(a: ItemStatus, b: ItemStatus)
    ensures
        a.name() == b.name() <==> a == b,
{
    reveal_strlit("pending");
    reveal_strlit("completed");
    reveal_strlit("failed");
    if a != b {
        assert(a.name().len() != b.name().len());
    }
}

} // verus!
