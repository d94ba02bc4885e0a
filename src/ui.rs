//! The notifications the coordinator sends to the foreground for rendering.
use vstd::prelude::*;
use crate::model::{ProjectAssignment, TaskAssignment, TimeEntry};

verus! {

/// One notification to the foreground. Once sent it is never changed.
pub enum Signal {
    /// Show this text as the window title.
    SetTitle(String),
    /// Show these entries; the controls of the entry with the given id, if
    /// any, are disabled while a request about it is under way.
    SetTimeEntries(Vec<TimeEntry>, Option<u32>),
    /// Open the entry editor with these assignments and no entry filled in.
    OpenPopup(Vec<ProjectAssignment>),
    /// Open the entry editor on this entry.
    OpenPopupWithTimeEntry(Vec<ProjectAssignment>, TimeEntry),
    /// Offer these tasks for the project chosen in the editor.
    TaskAssignments(Vec<TaskAssignment>),
    /// Show this notice to the user.
    ShowNotice(String),
    /// A request to the service failed; the command was abandoned.
    ShowError(String),
}

/// Whether `e` sets the title to `t`.
pub open spec fn is_title(e: Signal, t: Seq<char>) -> bool {
    e matches Signal::SetTitle(s) && s@ == t
}

/// Whether `e` shows the entries `v` with the controls of `disabled` off.
pub open spec fn is_entries(e: Signal, v: Seq<TimeEntry>, disabled: Option<u32>) -> bool {
    e matches Signal::SetTimeEntries(x, d) && x@ == v && d == disabled
}

} // verus!
