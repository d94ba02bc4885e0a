//! Request bodies and response pages exchanged with the remote service,
//! and the rules for building and walking them.
use vstd::prelude::*;
use crate::model::{ProjectAssignment, Project, TaskAssignment, TimeEntry};

verus! {

/// A time entry to create or update, naming its project and task by id.
/// The duration is in whole minutes.
pub struct Timer {
    pub id: Option<u32>,
    pub project_id: u32,
    pub task_id: u32,
    pub spent_date: Option<String>,
    pub notes: Option<String>,
    pub minutes: Option<u32>,
    pub is_running: bool,
}

/// A time entry update that leaves the duration alone, for running timers.
pub struct TimerWithoutHours {
    pub id: Option<u32>,
    pub project_id: u32,
    pub task_id: u32,
    pub spent_date: Option<String>,
    pub notes: Option<String>,
    pub is_running: bool,
}

/// The body of an update: running entries are sent without a duration.
pub enum TimerUpdate {
    WithoutHours(TimerWithoutHours),
    WithHours(Timer),
}

pub struct ProjectPage {
    pub projects: Vec<Project>,
    pub per_page: u32,
    pub total_pages: u32,
    pub total_entries: u32,
    pub page: u32,
}

pub struct ProjectAssignmentPage {
    pub project_assignments: Vec<ProjectAssignment>,
    pub per_page: u32,
    pub total_pages: u32,
    pub total_entries: u32,
    pub page: u32,
}

pub struct TimeEntryPage {
    pub time_entries: Vec<TimeEntry>,
    pub per_page: u32,
    pub total_pages: u32,
    pub total_entries: u32,
    pub page: u32,
}

pub struct TaskAssignmentPage {
    pub task_assignments: Vec<TaskAssignment>,
    pub per_page: u32,
    pub total_pages: u32,
    pub total_entries: u32,
    pub page: u32,
}

/// Whether `b` is the body that starts a timer on `date`: notes are sent only
/// when non-empty and a duration only when positive.
pub open spec fn is_start_body(
    b: Timer,
    project_id: u32,
    task_id: u32,
    notes: Seq<char>,
    minutes: u32,
    date: Seq<char>,
) -> bool {
    &&& b.id is None
    &&& b.project_id == project_id
    &&& b.task_id == task_id
    &&& b.spent_date matches Some(d) && d@ == date
    &&& match b.notes {
        Some(n) => notes.len() > 0 && n@ == notes,
        None => notes.len() == 0,
    }
    &&& b.minutes == (if minutes > 0 { Some(minutes) } else { None::<u32> })
    &&& b.is_running
}

/// Whether `b` is the body that updates entry `id`. A running entry is sent
/// without its duration, so that the service keeps counting; a stopped one
/// with it.
pub open spec fn is_update_body(
    b: TimerUpdate,
    id: u32,
    project_id: u32,
    task_id: u32,
    notes: Seq<char>,
    minutes: u32,
    is_running: bool,
    date: Seq<char>,
) -> bool {
    if is_running {
        match b {
            TimerUpdate::WithoutHours(w) => {
                &&& w.id == Some(id)
                &&& w.project_id == project_id
                &&& w.task_id == task_id
                &&& w.spent_date matches Some(d) && d@ == date
                &&& w.notes matches Some(n) && n@ == notes
                &&& w.is_running
            },
            TimerUpdate::WithHours(_) => false,
        }
    } else {
        match b {
            TimerUpdate::WithHours(w) => {
                &&& w.id == Some(id)
                &&& w.project_id == project_id
                &&& w.task_id == task_id
                &&& w.spent_date matches Some(d) && d@ == date
                &&& w.notes matches Some(n) && n@ == notes
                &&& w.minutes == Some(minutes)
                &&& !w.is_running
            },
            TimerUpdate::WithoutHours(_) => false,
        }
    }
}

/// The body that starts a timer on `spent_date`.
pub fn start_timer_body(project_id: u32, task_id: u32, notes: &str, minutes: u32, spent_date: String) -> (r: Timer)
    ensures
        is_start_body(r, project_id, task_id, notes@, minutes, spent_date@),
{
    let note_text = if notes.unicode_len() > 0 { Some(String::from_str(notes)) } else { None };
    Timer {
        id: None,
        project_id,
        task_id,
        spent_date: Some(spent_date),
        notes: note_text,
        minutes: if minutes > 0 { Some(minutes) } else { None },
        is_running: true,
    }
}

/// The body that updates entry `id`.
pub fn update_timer_body(
    id: u32,
    project_id: u32,
    task_id: u32,
    notes: String,
    minutes: u32,
    is_running: bool,
    spent_date: String,
) -> (r: TimerUpdate)
    ensures
        is_update_body(r, id, project_id, task_id, notes@, minutes, is_running, spent_date@),
{
    if is_running {
        TimerUpdate::WithoutHours(
            TimerWithoutHours {
                id: Some(id),
                project_id,
                task_id,
                spent_date: Some(spent_date),
                notes: Some(notes),
                is_running,
            },
        )
    } else {
        TimerUpdate::WithHours(
            Timer {
                id: Some(id),
                project_id,
                task_id,
                spent_date: Some(spent_date),
                notes: Some(notes),
                minutes: Some(minutes),
                is_running,
            },
        )
    }
}

/// Appends the assignments of one response page to `collected` and returns
/// the number of the page to fetch next, or `None` once the last page
/// (`page >= total_pages`) has been read.
pub fn collect_assignment_page(
    collected: &mut Vec<ProjectAssignment>,
    page: ProjectAssignmentPage,
) -> (r: Option<u32>)
    ensures
        final(collected)@ == old(collected)@ + page.project_assignments@,
        r == (if page.page < page.total_pages { Some((page.page + 1) as u32) } else { None::<u32> }),
{
    let mut items = page.project_assignments;
    collected.append(&mut items);
    if page.page < page.total_pages {
        Some(page.page + 1)
    } else {
        None
    }
}

/// Appends the entries of one response page to `collected` and returns the
/// number of the page to fetch next, or `None` once the last page
/// (`page >= total_pages`) has been read.
pub fn collect_entry_page(collected: &mut Vec<TimeEntry>, page: TimeEntryPage) -> (r: Option<u32>)
    ensures
        final(collected)@ == old(collected)@ + page.time_entries@,
        r == (if page.page < page.total_pages { Some((page.page + 1) as u32) } else { None::<u32> }),
{
    let mut items = page.time_entries;
    collected.append(&mut items);
    if page.page < page.total_pages {
        Some(page.page + 1)
    } else {
        None
    }
}

} // verus!
