//! The lifecycle of a task: four states, advanced in a fixed cycle.
use vstd::prelude::*;

verus! {

/// The status of a task. It moves only forward, in the cycle
/// New -> Progress -> Stop -> Done -> New.
#[derive(Debug, Clone, Copy, PartialEq, Eq, Structural)]
pub enum TaskStatus {
    New,
    Progress,
    Stop,
    Done,
}

impl TaskStatus {
    /// The display label of each status.
    pub open spec fn label(self) -> Seq<char> {
        match self {
            TaskStatus::New => "新規"@,
            TaskStatus::Progress => "実行中"@,
            TaskStatus::Stop => "停止"@,
            TaskStatus::Done => "完了"@,
        }
    }

    /// The status that follows this one in the cycle.
    pub open spec fn successor(self) -> TaskStatus {
        match self {
            TaskStatus::New => TaskStatus::Progress,
            TaskStatus::Progress => TaskStatus::Stop,
            TaskStatus::Stop => TaskStatus::Done,
            TaskStatus::Done => TaskStatus::New,
        }
    }

    /// Returns the display label of the status.
    pub fn to_string(&self) -> (r: &'static str)
        ensures
            r@ == self.label(),
    {
        match self {
            TaskStatus::New => "新規",
            TaskStatus::Progress => "実行中",
            TaskStatus::Stop => "停止",
            TaskStatus::Done => "完了",
        }
    }

    /// Returns the next status in the cycle.
    pub fn next_status(&self) -> (r: TaskStatus)
        ensures
            r == self.successor(),
    {
        match self {
            TaskStatus::New => TaskStatus::Progress,
            TaskStatus::Progress => TaskStatus::Stop,
            TaskStatus::Stop => TaskStatus::Done,
            TaskStatus::Done => TaskStatus::New,
        }
    }
}

/// Advancing a status four times brings it back to where it started, and no
/// fewer advances do.
pub proof fn lemma_successor_cycle(s: TaskStatus)
    ensures
        s.successor().successor().successor().successor() == s,
        s.successor() != s,
        s.successor().successor() != s,
        s.successor().successor().successor() != s,
{
}

} // verus!
