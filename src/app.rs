//! The coordinator: it owns the cached state and turns each command into
//! notifications and requests to the remote service, one command at a time.
//!
//! The coordinator never talks to the network itself. `handle_signal` takes
//! a command and returns a `Step`: the notifications to send now and, when
//! the command needs the service, the request to perform. The caller
//! performs it and hands the outcome to `handle_reply`, which returns the
//! next `Step`. A step without a request ends the command; only then may the
//! next command be handed over.
use vstd::prelude::*;
use std::collections::VecDeque;
use crate::api::{is_start_body, is_update_body, start_timer_body, update_timer_body, Timer, TimerUpdate};
use crate::calendar::{iso_date_text, local_today_days, title_date_text, Date, FIRST_DAY, LAST_DAY};
use crate::model::{ProjectAssignment, TimeEntry, User};
use crate::order::{sort_by_project_name, sorted_by_name, sorted_by_name_of};
use crate::ui;
use crate::ui::{is_entries, is_title};
use crate::version::{first_newer, notice_text, texts, upgrade_notice, VERSION};

verus! {

/// A command from the user or from the minute timer.
pub enum Signal {
    RetrieveTimeEntries,
    NewTimeEntry,
    EditTimeEntry(u32),
    RestartTimeEntry(u32),
    StopTimeEntry(u32),
    DeleteTimeEntry(u32),
    PrevDate,
    NextDate,
    TodayDate,
    LoadTasksForProject(u32),
    /// Project id, task id, notes and minutes already spent.
    StartTimer(u32, u32, String, u32),
    MinutePassed,
    /// Entry id, project id, task id, notes and minutes.
    UpdateTimer(u32, u32, u32, String, u32),
    CheckVersion,
}

/// A request to the remote service (or, for the version, to the DNS).
pub enum Request {
    /// The entries of the user with this id on the `YYYY-MM-DD` day.
    TimeEntriesFor(u32, String),
    StartTimer(Timer),
    RestartTimer(u32),
    StopTimer(u32),
    DeleteTimer(u32),
    UpdateTimer(u32, TimerUpdate),
    /// The versions published for the client.
    PublishedVersions,
}

/// The outcome of a `Request`.
pub enum Reply {
    TimeEntries(Vec<TimeEntry>),
    /// A change to an entry was accepted.
    Done,
    PublishedVersions(Vec<String>),
    /// The request failed (network error or unexpected answer).
    Failed,
}

/// What the coordinator is waiting for.
#[derive(Clone, Copy, Debug, PartialEq, Eq, Structural)]
pub enum Waiting {
    Nothing,
    /// The outcome of a change to an entry.
    Mutation,
    /// The entries of the shown day.
    Entries,
    /// The published versions.
    Versions,
}

/// What to do after a command or a reply: send `events`, in order, then
/// perform `request` if there is one.
pub struct Step {
    pub events: Vec<ui::Signal>,
    pub request: Option<Request>,
}

/// The coordinator's state. Only the coordinator changes it.
pub struct App {
    pub shown_date: Date,
    pub user: User,
    pub project_assignments: Vec<ProjectAssignment>,
    pub time_entries: Vec<TimeEntry>,
    pub waiting: Waiting,
}

/// The title shown while a request is under way.
pub open spec fn loading_text() -> Seq<char> {
    "Loading..."@
}

/// The text of the notification sent when a request fails.
pub open spec fn failure_text() -> Seq<char> {
    "The request to Harvest failed"@
}

/// An entry after one more minute: running entries gain a minute (up to the
/// largest count), the others are left as they are.
pub open spec fn ticked(e: TimeEntry) -> TimeEntry {
    if e.is_running && e.minutes < u32::MAX {
        TimeEntry { minutes: (e.minutes + 1) as u32, ..e }
    } else {
        e
    }
}

/// Index of the first entry with id `id`.
pub open spec fn entry_index(v: Seq<TimeEntry>, id: u32) -> Option<int>
    decreases v.len(),
{
    if v.len() == 0 {
        None
    } else {
        match entry_index(v.drop_last(), id) {
            Some(i) => Some(i),
            None => if v.last().id == id {
                Some(v.len() - 1)
            } else {
                None
            },
        }
    }
}

/// Index of the first assignment of the project with id `project_id`.
pub open spec fn assignment_index(v: Seq<ProjectAssignment>, project_id: u32) -> Option<int>
    decreases v.len(),
{
    if v.len() == 0 {
        None
    } else {
        match assignment_index(v.drop_last(), project_id) {
            Some(i) => Some(i),
            None => if v.last().project.id == project_id {
                Some(v.len() - 1)
            } else {
                None
            },
        }
    }
}

proof fn lemma_entry_index_bounds(v: Seq<TimeEntry>, id: u32)
    ensures
        entry_index(v, id) matches Some(i) ==> 0 <= i < v.len() && v[i].id == id,
    decreases v.len(),
{
    if v.len() > 0 {
        lemma_entry_index_bounds(v.drop_last(), id);
    }
}

proof fn lemma_assignment_index_bounds(v: Seq<ProjectAssignment>, project_id: u32)
    ensures
        assignment_index(v, project_id) matches Some(i) ==> 0 <= i < v.len()
            && v[i].project.id == project_id,
    decreases v.len(),
{
    if v.len() > 0 {
        lemma_assignment_index_bounds(v.drop_last(), project_id);
    }
}

/// Position of the first entry with id `id`.
fn find_entry(v: &Vec<TimeEntry>, id: u32) -> (r: Option<usize>)
    ensures
        match r {
            Some(i) => entry_index(v@, id) == Some(i as int),
            None => entry_index(v@, id) is None,
        },
        r matches Some(i) ==> i < v@.len() && v@[i as int].id == id,
{
    proof {
        lemma_entry_index_bounds(v@, id);
    }
    let mut i: usize = 0;
    while i < v.len()
        invariant
            i <= v@.len(),
            entry_index(v@.subrange(0, i as int), id) is None,
        decreases v@.len() - i,
    {
        assert(v@.subrange(0, i + 1).drop_last() == v@.subrange(0, i as int));
        if v[i].id == id {
            proof {
                lemma_entry_index_prefix(v@, id, i + 1);
            }
            return Some(i);
        }
        i = i + 1;
    }
    assert(v@.subrange(0, i as int) == v@);
    None
}

/// Once a prefix holds the id, the first match is the prefix's.
proof fn lemma_entry_index_prefix(v: Seq<TimeEntry>, id: u32, k: int)
    requires
        0 <= k <= v.len(),
        entry_index(v.subrange(0, k), id) is Some,
    ensures
        entry_index(v, id) == entry_index(v.subrange(0, k), id),
    decreases v.len() - k,
{
    if k < v.len() {
        assert(v.subrange(0, k + 1).drop_last() == v.subrange(0, k));
        lemma_entry_index_prefix(v, id, k + 1);
    } else {
        assert(v.subrange(0, k) == v);
    }
}

/// Once a prefix holds the project, the first match is the prefix's.
proof fn lemma_assignment_index_prefix(v: Seq<ProjectAssignment>, project_id: u32, k: int)
    requires
        0 <= k <= v.len(),
        assignment_index(v.subrange(0, k), project_id) is Some,
    ensures
        assignment_index(v, project_id) == assignment_index(v.subrange(0, k), project_id),
    decreases v.len() - k,
{
    if k < v.len() {
        assert(v.subrange(0, k + 1).drop_last() == v.subrange(0, k));
        lemma_assignment_index_prefix(v, project_id, k + 1);
    } else {
        assert(v.subrange(0, k) == v);
    }
}

/// Position of the first assignment of project `project_id`.
fn find_assignment(v: &Vec<ProjectAssignment>, project_id: u32) -> (r: Option<usize>)
    ensures
        match r {
            Some(i) => assignment_index(v@, project_id) == Some(i as int),
            None => assignment_index(v@, project_id) is None,
        },
        r matches Some(i) ==> i < v@.len() && v@[i as int].project.id == project_id,
{
    proof {
        lemma_assignment_index_bounds(v@, project_id);
    }
    let mut i: usize = 0;
    while i < v.len()
        invariant
            i <= v@.len(),
            assignment_index(v@.subrange(0, i as int), project_id) is None,
        decreases v@.len() - i,
    {
        assert(v@.subrange(0, i + 1).drop_last() == v@.subrange(0, i as int));
        if v[i].project.id == project_id {
            proof {
                lemma_assignment_index_prefix(v@, project_id, i + 1);
            }
            return Some(i);
        }
        i = i + 1;
    }
    assert(v@.subrange(0, i as int) == v@);
    None
}

/// A copy of a list of entries.
fn copy_entries(v: &Vec<TimeEntry>) -> (r: Vec<TimeEntry>)
    ensures
        r@ == v@,
{
    let r = v.clone();
    assert(r@ =~= v@);
    r
}

/// A copy of a list of project assignments.
fn copy_assignments(v: &Vec<ProjectAssignment>) -> (r: Vec<ProjectAssignment>)
    ensures
        r@.len() == v@.len(),
        forall|i: int|
            0 <= i < v@.len() ==> (#[trigger] r@[i]).id == v@[i].id && r@[i].project
                == v@[i].project && r@[i].task_assignments@ == v@[i].task_assignments@,
{
    v.clone()
}

/// Whether two lists of assignments hold the same assignments.
pub open spec fn same_assignments(a: Seq<ProjectAssignment>, b: Seq<ProjectAssignment>) -> bool {
    &&& a.len() == b.len()
    &&& forall|i: int|
        0 <= i < a.len() ==> (#[trigger] a[i]).id == b[i].id && a[i].project == b[i].project
            && a[i].task_assignments@ == b[i].task_assignments@
}

impl App {
    pub open spec fn wf(&self) -> bool {
        self.shown_date.wf()
    }

    /// No request is outstanding: the next command may be handed over.
    pub open spec fn idle(&self) -> bool {
        self.waiting == Waiting::Nothing
    }

    /// The title for the shown day.
    pub open spec fn title_text(&self) -> Seq<char> {
        "Harvest - "@ + title_date_text(self.shown_date.days as int)
    }

    /// Whether `r` asks for the user's entries of the shown day.
    pub open spec fn is_fetch(&self, r: Option<Request>) -> bool {
        match r {
            Some(Request::TimeEntriesFor(u, d)) => u == self.user.id && d@ == iso_date_text(
                self.shown_date.days as int,
            ),
            _ => false,
        }
    }

    /// Whether `self` shows the same day and entries as `other`.
    pub open spec fn same_view(&self, other: &App) -> bool {
        self.shown_date == other.shown_date && self.time_entries@ == other.time_entries@
    }

    /// Whether `r` starts reloading the entries of the shown day: the title
    /// says the client is loading and the entries are requested.
    pub open spec fn fetch_begun(&self, r: &Step) -> bool {
        &&& self.waiting == Waiting::Entries
        &&& r.events@.len() == 1
        &&& is_title(r.events@[0], loading_text())
        &&& self.is_fetch(r.request)
    }

    /// Whether `r` starts a change to entry `id`: the title says the client
    /// is loading and the entry's controls are disabled.
    pub open spec fn mutation_begun(&self, r: &Step, id: u32) -> bool {
        &&& self.waiting == Waiting::Mutation
        &&& r.events@.len() == 2
        &&& is_title(r.events@[0], loading_text())
        &&& is_entries(r.events@[1], self.time_entries@, Some(id))
    }

    /// Whether `r` ends the command by showing the entries and the title.
    pub open spec fn shown(&self, r: &Step) -> bool {
        &&& self.waiting == Waiting::Nothing
        &&& r.request is None
        &&& r.events@.len() == 2
        &&& is_entries(r.events@[0], self.time_entries@, None)
        &&& is_title(r.events@[1], self.title_text())
    }

    /// A coordinator showing `shown_date`, with the given user, the project
    /// assignments ordered by project name (ignoring case), no entries loaded
    /// and nothing under way.
    pub fn new(shown_date: Date, user: User, project_assignments: Vec<ProjectAssignment>) -> (r: App)
        requires
            shown_date.wf(),
        ensures
            r.wf(),
            r.idle(),
            r.shown_date == shown_date,
            r.user == user,
            r.project_assignments@ == sorted_by_name_of(project_assignments@),
            sorted_by_name(r.project_assignments@),
            r.project_assignments@.to_multiset() == project_assignments@.to_multiset(),
            r.time_entries@.len() == 0,
    {
        App {
            shown_date,
            user,
            project_assignments: sort_by_project_name(project_assignments),
            time_entries: Vec::new(),
            waiting: Waiting::Nothing,
        }
    }

    fn loading_title() -> (r: ui::Signal)
        ensures
            is_title(r, loading_text()),
    {
        ui::Signal::SetTitle(String::from_str("Loading..."))
    }

    /// Starts reloading the entries of the shown day.
    fn begin_fetch(&mut self) -> (r: Step)
        requires
            old(self).wf(),
        ensures
            final(self).wf(),
            final(self).same_view(old(self)),
            final(self).user == old(self).user,
            final(self).project_assignments@ == old(self).project_assignments@,
            final(self).fetch_begun(&r),
    {
        let mut events: Vec<ui::Signal> = Vec::new();
        events.push(App::loading_title());
        self.waiting = Waiting::Entries;
        let day = self.shown_date.to_iso_string();
        Step { events, request: Some(Request::TimeEntriesFor(self.user.id, day)) }
    }

    /// Starts the change `request` to entry `id`.
    fn begin_mutation(&mut self, id: u32, request: Request) -> (r: Step)
        requires
            old(self).wf(),
        ensures
            final(self).wf(),
            final(self).same_view(old(self)),
            final(self).user == old(self).user,
            final(self).project_assignments@ == old(self).project_assignments@,
            final(self).mutation_begun(&r, id),
            r.request == Some(request),
    {
        let mut events: Vec<ui::Signal> = Vec::new();
        events.push(App::loading_title());
        events.push(ui::Signal::SetTimeEntries(copy_entries(&self.time_entries), Some(id)));
        self.waiting = Waiting::Mutation;
        Step { events, request: Some(request) }
    }

    /// Shows the cached entries and the title, and ends the command.
    fn show(&mut self) -> (r: Step)
        requires
            old(self).wf(),
        ensures
            final(self).wf(),
            final(self).same_view(old(self)),
            final(self).user == old(self).user,
            final(self).project_assignments@ == old(self).project_assignments@,
            final(self).shown(&r),
    {
        let mut events: Vec<ui::Signal> = Vec::new();
        events.push(ui::Signal::SetTimeEntries(copy_entries(&self.time_entries), None));
        events.push(ui::Signal::SetTitle(self.shown_date.title()));
        self.waiting = Waiting::Nothing;
        Step { events, request: None }
    }

    /// Adds a minute to every running entry.
    fn tick_running(&mut self)
        requires
            old(self).wf(),
        ensures
            final(self).wf(),
            final(self).shown_date == old(self).shown_date,
            final(self).waiting == old(self).waiting,
            final(self).user == old(self).user,
            final(self).project_assignments@ == old(self).project_assignments@,
            final(self).time_entries@ == old(self).time_entries@.map_values(|e: TimeEntry| ticked(e)),
    {
        let ghost before = self.time_entries@;
        let mut i: usize = 0;
        while i < self.time_entries.len()
            invariant
                self.wf(),
                self.shown_date == old(self).shown_date,
                self.waiting == old(self).waiting,
                self.user == old(self).user,
                self.project_assignments@ == old(self).project_assignments@,
                before == old(self).time_entries@,
                i <= self.time_entries@.len(),
                self.time_entries@.len() == before.len(),
                forall|j: int| 0 <= j < i ==> self.time_entries@[j] == ticked(#[trigger] before[j]),
                forall|j: int| i <= j < before.len() ==> self.time_entries@[j] == #[trigger] before[j],
            decreases before.len() - i,
        {
            if self.time_entries[i].is_running && self.time_entries[i].minutes < u32::MAX {
                let mut e = self.time_entries[i].clone();
                e.minutes = e.minutes + 1;
                self.time_entries.set(i, e);
            }
            i = i + 1;
        }
        assert(self.time_entries@ =~= before.map_values(|e: TimeEntry| ticked(e)));
    }

    /// What handling `signal` in state `before` leads to: the state `after`
    /// and the step `r`.
    pub open spec fn signal_handled(before: App, signal: Signal, after: App, r: Step) -> bool {
        &&& after.wf()
        &&& after.user == before.user
        &&& after.project_assignments@ == before.project_assignments@
        &&& r.request is None <==> after.idle()
        &&& match signal {
            Signal::RetrieveTimeEntries => after.same_view(&before) && after.fetch_begun(&r),
            Signal::NewTimeEntry => {
                &&& after.same_view(&before)
                &&& r.request is None
                &&& r.events@.len() == 1
                &&& r.events@[0] matches ui::Signal::OpenPopup(pa) && same_assignments(
                    pa@,
                    before.project_assignments@,
                )
            },
            Signal::EditTimeEntry(id) => {
                &&& after.same_view(&before)
                &&& r.request is None
                &&& match entry_index(before.time_entries@, id) {
                    Some(i) => r.events@.len() == 1 && (r.events@[0] matches
                        ui::Signal::OpenPopupWithTimeEntry(pa, e) && same_assignments(
                        pa@,
                        before.project_assignments@,
                    ) && e == before.time_entries@[i]),
                    None => r.events@.len() == 0,
                }
            },
            Signal::RestartTimeEntry(id) => after.same_view(&before) && after.mutation_begun(&r, id) && r.request == Some(Request::RestartTimer(id)),
            Signal::StopTimeEntry(id) => after.same_view(&before) && after.mutation_begun(&r, id) && r.request == Some(Request::StopTimer(id)),
            Signal::DeleteTimeEntry(id) => after.same_view(&before) && after.mutation_begun(&r, id) && r.request == Some(Request::DeleteTimer(id)),
            Signal::PrevDate => {
                &&& after.shown_date.days == if before.shown_date.days > FIRST_DAY {
                    before.shown_date.days - 1
                } else {
                    before.shown_date.days as int
                }
                &&& after.time_entries@ == before.time_entries@
                &&& after.fetch_begun(&r)
            },
            Signal::NextDate => {
                &&& after.shown_date.days == if before.shown_date.days < LAST_DAY {
                    before.shown_date.days + 1
                } else {
                    before.shown_date.days as int
                }
                &&& after.time_entries@ == before.time_entries@
                &&& after.fetch_begun(&r)
            },
            Signal::TodayDate => exists|d: i32| after.day_begun(&before, d, &r),
            Signal::LoadTasksForProject(project_id) => {
                &&& after.same_view(&before)
                &&& r.request is None
                &&& match assignment_index(before.project_assignments@, project_id) {
                    Some(i) => r.events@.len() == 1 && (r.events@[0] matches
                        ui::Signal::TaskAssignments(t) && t@ == before.project_assignments@[i].task_assignments@),
                    None => r.events@.len() == 0,
                }
            },
            Signal::StartTimer(project_id, task_id, notes, minutes) => {
                &&& after.same_view(&before)
                &&& if project_id == 0 || task_id == 0 {
                    r.events@.len() == 0 && r.request is None
                } else {
                    &&& after.waiting == Waiting::Mutation
                    &&& r.events@.len() == 1
                    &&& is_title(r.events@[0], loading_text())
                    &&& r.request matches Some(Request::StartTimer(b)) && is_start_body(
                        b,
                        project_id,
                        task_id,
                        notes@,
                        minutes,
                        iso_date_text(before.shown_date.days as int),
                    )
                }
            },
            Signal::MinutePassed => {
                &&& after.shown_date == before.shown_date
                &&& after.time_entries@ == before.time_entries@.map_values(
                    |e: TimeEntry| ticked(e),
                )
                &&& after.shown(&r)
            },
            Signal::UpdateTimer(id, project_id, task_id, notes, minutes) => {
                &&& after.same_view(&before)
                &&& if project_id == 0 || task_id == 0 {
                    r.events@.len() == 0 && r.request is None
                } else {
                    match entry_index(before.time_entries@, id) {
                        Some(i) => after.mutation_begun(&r, id) && (r.request matches Some(
                            Request::UpdateTimer(x, b),
                        ) && x == id && is_update_body(
                            b,
                            id,
                            project_id,
                            task_id,
                            notes@,
                            minutes,
                            before.time_entries@[i].is_running,
                            before.time_entries@[i].spent_date@,
                        )),
                        None => after.fetch_begun(&r),
                    }
                }
            },
            Signal::CheckVersion => {
                &&& after.same_view(&before)
                &&& after.waiting == Waiting::Versions
                &&& r.events@.len() == 0
                &&& r.request matches Some(Request::PublishedVersions)
            }
        }
    }

    /// What handling the outcome `reply` in state `before` leads to: the
    /// state `after` and the step `r`. A request that failed ends its
    /// command: the failure is reported and the title restored, and nothing
    /// more is asked or shown for that command.
    pub open spec fn reply_handled(before: App, reply: Reply, after: App, r: Step) -> bool {
        &&& after.wf()
        &&& after.user == before.user
        &&& after.project_assignments@ == before.project_assignments@
        &&& r.request is None <==> after.idle()
        &&& match (before.waiting, reply) {
            (Waiting::Mutation, Reply::Done) => after.same_view(&before) && after.fetch_begun(&r),
            (Waiting::Entries, Reply::TimeEntries(v)) => {
                &&& after.shown_date == before.shown_date
                &&& after.time_entries@ == v@
                &&& after.shown(&r)
            },
            (Waiting::Versions, Reply::PublishedVersions(v)) => {
                &&& after.same_view(&before)
                &&& after.idle()
                &&& match first_newer(VERSION@, texts(v@)) {
                    Some(t) => r.events@.len() == 1 && (r.events@[0] matches
                        ui::Signal::ShowNotice(n) && n@ == notice_text(t)),
                    None => r.events@.len() == 0,
                }
            },
            (Waiting::Versions, _) => after.same_view(&before) && after.idle()
                && r.events@.len() == 0,
            _ => {
                &&& after.same_view(&before)
                &&& after.idle()
                &&& r.events@.len() == 2
                &&& r.events@[0] matches ui::Signal::ShowError(m) && m@ == failure_text()
                &&& is_title(r.events@[1], before.title_text())
            }
        }
    }

    /// Whether `r` starts showing the day with day number `d` (the shown day
    /// stays when `d` lies outside the supported range).
    pub open spec fn day_begun(&self, before: &App, d: i32, r: &Step) -> bool {
        &&& self.shown_date == (if FIRST_DAY <= d <= LAST_DAY {
            Date { days: d }
        } else {
            before.shown_date
        })
        &&& self.time_entries@ == before.time_entries@
        &&& self.fetch_begun(r)
    }

    /// Shows the day with day number `days`, when it lies in the supported
    /// range, and starts loading its entries.
    pub fn go_to_day(&mut self, days: i32) -> (r: Step)
        requires
            old(self).wf(),
        ensures
            final(self).wf(),
            final(self).user == old(self).user,
            final(self).project_assignments@ == old(self).project_assignments@,
            final(self).day_begun(old(self), days, &r),
    {
        match Date::from_days(days) {
            Some(d) => {
                self.shown_date = d;
            },
            None => {},
        }
        self.begin_fetch()
    }

    /// Takes the next command. Commands are handed over one at a time: the
    /// previous one must have ended (`idle`).
    pub fn handle_signal(&mut self, signal: Signal) -> (r: Step)
        requires
            old(self).wf(),
            old(self).idle(),
        ensures
            App::signal_handled(*old(self), signal, *final(self), r),
    {
        match signal {
            Signal::RetrieveTimeEntries => self.begin_fetch(),
            Signal::NewTimeEntry => {
                let mut events: Vec<ui::Signal> = Vec::new();
                events.push(ui::Signal::OpenPopup(copy_assignments(&self.project_assignments)));
                Step { events, request: None }
            },
            Signal::EditTimeEntry(id) => {
                let mut events: Vec<ui::Signal> = Vec::new();
                match find_entry(&self.time_entries, id) {
                    Some(i) => {
                        let entry = self.time_entries[i].clone();
                        events.push(
                            ui::Signal::OpenPopupWithTimeEntry(
                                copy_assignments(&self.project_assignments),
                                entry,
                            ),
                        );
                    },
                    None => {},
                }
                Step { events, request: None }
            },
            Signal::RestartTimeEntry(id) => self.begin_mutation(id, Request::RestartTimer(id)),
            Signal::StopTimeEntry(id) => self.begin_mutation(id, Request::StopTimer(id)),
            Signal::DeleteTimeEntry(id) => self.begin_mutation(id, Request::DeleteTimer(id)),
            Signal::PrevDate => {
                self.shown_date = self.shown_date.pred();
                self.begin_fetch()
            },
            Signal::NextDate => {
                self.shown_date = self.shown_date.succ();
                self.begin_fetch()
            },
            Signal::TodayDate => self.go_to_day(local_today_days()),
            Signal::LoadTasksForProject(project_id) => {
                let mut events: Vec<ui::Signal> = Vec::new();
                match find_assignment(&self.project_assignments, project_id) {
                    Some(i) => {
                        let tasks = self.project_assignments[i].task_assignments.clone();
                        assert(tasks@ =~= self.project_assignments@[i as int].task_assignments@);
                        events.push(ui::Signal::TaskAssignments(tasks));
                    },
                    None => {},
                }
                Step { events, request: None }
            },
            Signal::StartTimer(project_id, task_id, notes, minutes) => {
                if project_id == 0 || task_id == 0 {
                    return Step { events: Vec::new(), request: None };
                }
                let day = self.shown_date.to_iso_string();
                let body = start_timer_body(project_id, task_id, notes.as_str(), minutes, day);
                let mut events: Vec<ui::Signal> = Vec::new();
                events.push(App::loading_title());
                self.waiting = Waiting::Mutation;
                Step { events, request: Some(Request::StartTimer(body)) }
            },
            Signal::MinutePassed => {
                self.tick_running();
                self.show()
            },
            Signal::UpdateTimer(id, project_id, task_id, notes, minutes) => {
                if project_id == 0 || task_id == 0 {
                    return Step { events: Vec::new(), request: None };
                }
                match find_entry(&self.time_entries, id) {
                    Some(i) => {
                        let is_running = self.time_entries[i].is_running;
                        let day = self.time_entries[i].spent_date.clone();
                        let body = update_timer_body(
                            id,
                            project_id,
                            task_id,
                            notes,
                            minutes,
                            is_running,
                            day,
                        );
                        self.begin_mutation(id, Request::UpdateTimer(id, body))
                    },
                    None => self.begin_fetch(),
                }
            },
            Signal::CheckVersion => {
                self.waiting = Waiting::Versions;
                Step { events: Vec::new(), request: Some(Request::PublishedVersions) }
            },
        }
    }

    /// Takes the outcome of the outstanding request.
    pub fn handle_reply(&mut self, reply: Reply) -> (r: Step)
        requires
            old(self).wf(),
            !old(self).idle(),
        ensures
            App::reply_handled(*old(self), reply, *final(self), r),
    {
        let waiting = self.waiting;
        match reply {
            Reply::Done => {
                if waiting == Waiting::Mutation {
                    return self.begin_fetch();
                }
            },
            Reply::TimeEntries(v) => {
                if waiting == Waiting::Entries {
                    self.time_entries = v;
                    return self.show();
                }
            },
            Reply::PublishedVersions(v) => {
                if waiting == Waiting::Versions {
                    self.waiting = Waiting::Nothing;
                    let mut events: Vec<ui::Signal> = Vec::new();
                    match upgrade_notice(VERSION, &v) {
                        Some(t) => {
                            events.push(ui::Signal::ShowNotice(t));
                        },
                        None => {},
                    }
                    return Step { events, request: None };
                }
            },
            Reply::Failed => {},
        }
        if waiting == Waiting::Versions {
            self.waiting = Waiting::Nothing;
            return Step { events: Vec::new(), request: None };
        }
        let mut events: Vec<ui::Signal> = Vec::new();
        events.push(ui::Signal::ShowError(String::from_str("The request to Harvest failed")));
        events.push(ui::Signal::SetTitle(self.shown_date.title()));
        self.waiting = Waiting::Nothing;
        Step { events, request: None }
    }
}

/// One step of a session, and the number of the command it belongs to.
pub struct Turn {
    pub command: u64,
    pub step: Step,
}

/// The commands waiting their turn, and the coordinator that runs them one
/// at a time in the order they were submitted.
pub struct Session {
    pub app: App,
    pub queue: VecDeque<Signal>,
    /// How many commands have been begun; the steps handed out belong to the
    /// command with this number.
    pub begun: u64,
}

impl Session {
    pub open spec fn wf(&self) -> bool {
        self.app.wf()
    }

    /// A session around `app` with no command submitted yet.
    pub fn new(app: App) -> (r: Session)
        requires
            app.wf(),
            app.idle(),
        ensures
            r.wf(),
            r.app == app,
            r.queue@.len() == 0,
            r.begun == 0,
    {
        Session { app, queue: VecDeque::new(), begun: 0 }
    }

    /// Puts `signal` at the back of the queue.
    pub fn submit(&mut self, signal: Signal)
        ensures
            final(self).queue@ == old(self).queue@.push(signal),
            final(self).app == old(self).app,
            final(self).begun == old(self).begun,
    {
        self.queue.push_back(signal);
    }

    /// Whether `after` and `r` can follow `before` through `advance` with
    /// the outcome `reply`. A step taken while a request is outstanding is
    /// the handling of its outcome; otherwise it is the handling of the
    /// command at the front of the queue.
    pub open spec fn advanced(before: Session, reply: Option<Reply>, after: Session, r: Option<Turn>) -> bool {
        &&& after.wf()
        &&& (r matches Some(t) ==> t.command == after.begun && (t.step.request is None
            <==> after.app.idle()))
        &&& !before.app.idle() ==> {
            &&& after.queue@ == before.queue@
            &&& after.begun == before.begun
            &&& match reply {
                Some(x) => r matches Some(t) && App::reply_handled(before.app, x, after.app, t.step),
                None => r is None && after.app == before.app,
            }
        }
        &&& before.app.idle() && before.queue@.len() > 0 ==> {
            &&& after.queue@ == before.queue@.subrange(1, before.queue@.len() as int)
            &&& after.begun == before.begun + 1
            &&& r matches Some(t) && App::signal_handled(before.app, before.queue@[0], after.app, t.step)
        }
        &&& before.app.idle() && before.queue@.len() == 0 ==> {
            &&& after.queue@ == before.queue@
            &&& after.begun == before.begun
            &&& after.app == before.app
            &&& r is None
        }
    }

    /// The next step. While a request is outstanding, that is the handling
    /// of its outcome `reply` (`None` while the outcome is not known yet),
    /// and the step belongs to the current command. Otherwise the command at
    /// the front of the queue is begun, and the step belongs to it. `None`
    /// when there is nothing to do.
    pub fn advance(&mut self, reply: Option<Reply>) -> (r: Option<Turn>)
        requires
            old(self).wf(),
            old(self).begun < u64::MAX,
        ensures
            Session::advanced(*old(self), reply, *final(self), r),
    {
        if self.app.waiting != Waiting::Nothing {
            match reply {
                Some(x) => {
                    let step = self.app.handle_reply(x);
                    Some(Turn { command: self.begun, step })
                },
                None => None,
            }
        } else {
            match self.queue.pop_front() {
                Some(signal) => {
                    self.begun = self.begun + 1;
                    let step = self.app.handle_signal(signal);
                    Some(Turn { command: self.begun, step })
                },
                None => None,
            }
        }
    }
}

/// Commands never interleave. Of two steps handed out one after the other,
/// the second belongs to the same command as the first or to a later one,
/// and to a later one only when the first ended its command (it asked for
/// nothing more). A later command is the one that was at the front of the
/// queue, so commands run in the order they were submitted.
pub proof fn lemma_commands_do_not_interleave(
    s0: Session,
    reply1: Option<Reply>,
    s1: Session,
    t1: Turn,
    reply2: Option<Reply>,
    s2: Session,
    t2: Turn,
)
    requires
        Session::advanced(s0, reply1, s1, Some(t1)),
        Session::advanced(s1, reply2, s2, Some(t2)),
    ensures
        t1.command <= t2.command,
        t1.command != t2.command ==> {
            &&& t1.step.request is None
            &&& t2.command == t1.command + 1
            &&& s2.queue@ == s1.queue@.subrange(1, s1.queue@.len() as int)
            &&& App::signal_handled(s1.app, s1.queue@[0], s2.app, t2.step)
        },
{
}

/// The entries after a minute passed (as `handle_signal` leaves them on
/// `MinutePassed`): a running entry gains exactly one minute (while below
/// the largest count) and keeps every other field; an entry that is not
/// running is left exactly as it was.
pub proof fn lemma_minute_changes_only_running(before: Seq<TimeEntry>, after: Seq<TimeEntry>)
    requires
        after == before.map_values(|e: TimeEntry| ticked(e)),
    ensures
        after.len() == before.len(),
        forall|i: int| 0 <= i < before.len() && !before[i].is_running ==> #[trigger] after[i] == before[i],
        forall|i: int|
            0 <= i < before.len() && before[i].is_running && before[i].minutes < u32::MAX
                ==> #[trigger] after[i] == (TimeEntry {
                minutes: (before[i].minutes + 1) as u32,
                ..before[i]
            }),
{
}

} // verus!
