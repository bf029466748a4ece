//! The visual kinds the interface gives its buttons. What each kind looks
//! like is up to the renderer; the library fixes which kind goes where.
use vstd::prelude::*;
use crate::status::TaskStatus;

verus! {

/// The kinds of the plain buttons: add, clear, delete.
#[derive(Debug, Clone, Copy, PartialEq, Eq, Structural)]
pub enum Button {
    Primary,
    Secondary,
    Warning,
}

/// The kind of the button that shows a task's status: one per status.
#[derive(Debug, Clone, Copy, PartialEq, Eq, Structural)]
pub enum StatusButton {
    New,
    Progress,
    Stop,
    Done,
}

/// The status button kind that stands for a status.
pub open spec fn status_button_of(status: TaskStatus) -> StatusButton {
    match status {
        TaskStatus::New => StatusButton::New,
        TaskStatus::Progress => StatusButton::Progress,
        TaskStatus::Stop => StatusButton::Stop,
        TaskStatus::Done => StatusButton::Done,
    }
}

impl StatusButton {
    /// Picks the button kind for a status.
    pub fn to_status_button(status: &TaskStatus) -> (r: StatusButton)
        ensures
            r == status_button_of(*status),
    {
        match status {
            TaskStatus::New => StatusButton::New,
            TaskStatus::Progress => StatusButton::Progress,
            TaskStatus::Stop => StatusButton::Stop,
            TaskStatus::Done => StatusButton::Done,
        }
    }
}

} // verus!
