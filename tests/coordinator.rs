use chrono::Datelike;
use timer_for_harvest::app::{App, Reply, Request, Session, Signal, Waiting};
use timer_for_harvest::calendar::Date;
use timer_for_harvest::model::{total_minutes, Client, Project, ProjectAssignment, Task, TaskAssignment, TimeEntry, User};
use timer_for_harvest::ui;

fn day(y: i32, m: u32, d: u32) -> Date {
    let days = chrono::NaiveDate::from_ymd_opt(y, m, d).unwrap().num_days_from_ce();
    Date::from_days(days).unwrap()
}

fn project(id: u32) -> Project {
    Project { id, name: format!("project {}", id), code: None, client: None }
}

fn entry(id: u32, minutes: u32, is_running: bool) -> TimeEntry {
    TimeEntry {
        id,
        project: project(5),
        client: Client { id: 2, name: "client".to_string() },
        minutes,
        user: User { id: 7 },
        spent_date: "2024-02-05".to_string(),
        task: Task { id: 9, name: "task".to_string() },
        notes: None,
        is_running,
    }
}

fn assignment(project_id: u32, task_ids: &[u32]) -> ProjectAssignment {
    ProjectAssignment {
        id: project_id + 100,
        project: project(project_id),
        task_assignments: task_ids
            .iter()
            .map(|t| TaskAssignment { id: *t + 1000, task: Task { id: *t, name: format!("task {}", t) } })
            .collect(),
    }
}

fn app() -> App {
    App::new(day(2024, 2, 5), User { id: 7 }, vec![assignment(5, &[9, 10]), assignment(6, &[11])])
}

fn title(e: &ui::Signal) -> String {
    match e {
        ui::Signal::SetTitle(t) => t.clone(),
        _ => panic!("expected a title"),
    }
}

fn entries(e: &ui::Signal) -> (Vec<(u32, u32, bool)>, Option<u32>) {
    match e {
        ui::Signal::SetTimeEntries(v, d) => (v.iter().map(|x| (x.id, x.minutes, x.is_running)).collect(), *d),
        _ => panic!("expected entries"),
    }
}

fn with_entries(list: Vec<TimeEntry>) -> App {
    let mut a = app();
    let s = a.handle_signal(Signal::RetrieveTimeEntries);
    assert!(s.request.is_some());
    let s = a.handle_reply(Reply::TimeEntries(list));
    assert!(s.request.is_none());
    a
}

#[test]
fn retrieve_shows_loading_then_entries_and_title() {
    let mut a = app();
    let s = a.handle_signal(Signal::RetrieveTimeEntries);
    assert_eq!(1, s.events.len());
    assert_eq!("Loading...", title(&s.events[0]));
    match s.request {
        Some(Request::TimeEntriesFor(user, d)) => assert_eq!((7, "2024-02-05".to_string()), (user, d)),
        _ => panic!("expected a fetch"),
    }
    let s = a.handle_reply(Reply::TimeEntries(vec![entry(1, 30, false)]));
    assert!(s.request.is_none());
    assert_eq!((vec![(1, 30, false)], None), entries(&s.events[0]));
    assert_eq!("Harvest - Mon 5 Feb", title(&s.events[1]));
    assert_eq!(Waiting::Nothing, a.waiting);
}

#[test]
fn date_commands_move_the_shown_day() {
    let mut a = app();
    let s = a.handle_signal(Signal::PrevDate);
    match s.request {
        Some(Request::TimeEntriesFor(_, d)) => assert_eq!("2024-02-04", d),
        _ => panic!("expected a fetch"),
    }
    let s = a.handle_reply(Reply::TimeEntries(vec![]));
    assert_eq!("Harvest - Sun 4 Feb", title(&s.events[1]));
    a.handle_signal(Signal::NextDate);
    a.handle_reply(Reply::TimeEntries(vec![]));
    a.handle_signal(Signal::NextDate);
    a.handle_reply(Reply::TimeEntries(vec![]));
    assert_eq!(day(2024, 2, 6), a.shown_date);
    let s = a.handle_signal(Signal::TodayDate);
    assert!(matches!(s.request, Some(Request::TimeEntriesFor(7, _))));
    let today = chrono::Local::now().date_naive().num_days_from_ce();
    assert_eq!(today, a.shown_date.days);
}

#[test]
fn minute_passed_advances_only_running_entries() {
    let mut a = with_entries(vec![entry(1, 30, false), entry(2, 59, true), entry(3, u32::MAX, true)]);
    let s = a.handle_signal(Signal::MinutePassed);
    assert!(s.request.is_none());
    assert_eq!((vec![(1, 30, false), (2, 60, true), (3, u32::MAX, true)], None), entries(&s.events[0]));
    assert_eq!("Harvest - Mon 5 Feb", title(&s.events[1]));
    assert_eq!(30, a.time_entries[0].minutes);
    assert_eq!("client", a.time_entries[0].client.name);
}

#[test]
fn edit_of_an_absent_entry_does_nothing() {
    let mut a = with_entries(vec![entry(1, 30, false)]);
    let s = a.handle_signal(Signal::EditTimeEntry(99));
    assert!(s.events.is_empty());
    assert!(s.request.is_none());
    assert_eq!(1, a.time_entries.len());
    assert_eq!(30, a.time_entries[0].minutes);
    assert_eq!(day(2024, 2, 5), a.shown_date);
    assert_eq!(Waiting::Nothing, a.waiting);
}

#[test]
fn edit_of_a_cached_entry_opens_the_editor() {
    let mut a = with_entries(vec![entry(1, 30, false), entry(2, 15, true)]);
    let s = a.handle_signal(Signal::EditTimeEntry(2));
    assert_eq!(1, s.events.len());
    match &s.events[0] {
        ui::Signal::OpenPopupWithTimeEntry(pa, e) => {
            assert_eq!(2, pa.len());
            assert_eq!((2, 15, true), (e.id, e.minutes, e.is_running));
        }
        _ => panic!("expected the editor"),
    }
}

#[test]
fn new_entry_opens_an_empty_editor() {
    let mut a = app();
    let s = a.handle_signal(Signal::NewTimeEntry);
    match &s.events[0] {
        ui::Signal::OpenPopup(pa) => assert_eq!(vec![105, 106], pa.iter().map(|p| p.id).collect::<Vec<u32>>()),
        _ => panic!("expected the editor"),
    }
}

#[test]
fn tasks_of_a_project() {
    let mut a = app();
    let s = a.handle_signal(Signal::LoadTasksForProject(5));
    match &s.events[0] {
        ui::Signal::TaskAssignments(t) => assert_eq!(vec![9, 10], t.iter().map(|x| x.task.id).collect::<Vec<u32>>()),
        _ => panic!("expected tasks"),
    }
    let s = a.handle_signal(Signal::LoadTasksForProject(77));
    assert!(s.events.is_empty());
}

#[test]
fn zero_ids_make_timer_commands_no_ops() {
    let mut a = app();
    let s = a.handle_signal(Signal::StartTimer(0, 9, String::new(), 0));
    assert!(s.events.is_empty() && s.request.is_none());
    let s = a.handle_signal(Signal::UpdateTimer(1, 5, 0, String::new(), 0));
    assert!(s.events.is_empty() && s.request.is_none());
}

#[test]
fn stop_disables_the_entry_then_reloads() {
    let mut a = with_entries(vec![entry(4, 10, true)]);
    let s = a.handle_signal(Signal::StopTimeEntry(4));
    assert_eq!("Loading...", title(&s.events[0]));
    assert_eq!((vec![(4, 10, true)], Some(4)), entries(&s.events[1]));
    assert!(matches!(s.request, Some(Request::StopTimer(4))));
    let s = a.handle_reply(Reply::Done);
    assert_eq!("Loading...", title(&s.events[0]));
    assert!(matches!(s.request, Some(Request::TimeEntriesFor(7, _))));
}

#[test]
fn update_uses_the_cached_entry() {
    let mut a = with_entries(vec![entry(4, 10, false)]);
    let s = a.handle_signal(Signal::UpdateTimer(4, 5, 10, "notes".to_string(), 25));
    match s.request {
        Some(Request::UpdateTimer(4, timer_for_harvest::api::TimerUpdate::WithHours(t))) => {
            assert_eq!((5, 10, Some(25)), (t.project_id, t.task_id, t.minutes));
            assert_eq!(Some("2024-02-05".to_string()), t.spent_date);
        }
        _ => panic!("expected an update with a duration"),
    }
    let mut b = with_entries(vec![]);
    let s = b.handle_signal(Signal::UpdateTimer(4, 5, 10, "notes".to_string(), 25));
    assert!(matches!(s.request, Some(Request::TimeEntriesFor(7, _))));
}

#[test]
fn failure_is_reported_and_ends_the_command() {
    let mut a = with_entries(vec![entry(4, 10, true)]);
    a.handle_signal(Signal::DeleteTimeEntry(4));
    let s = a.handle_reply(Reply::Failed);
    assert!(s.request.is_none());
    assert_eq!(2, s.events.len());
    assert!(matches!(&s.events[0], ui::Signal::ShowError(_)));
    assert_eq!("Harvest - Mon 5 Feb", title(&s.events[1]));
    assert_eq!(Waiting::Nothing, a.waiting);
}

#[test]
fn version_check_shows_a_notice_or_nothing() {
    let mut a = app();
    let s = a.handle_signal(Signal::CheckVersion);
    assert!(s.events.is_empty());
    assert!(matches!(s.request, Some(Request::PublishedVersions)));
    let s = a.handle_reply(Reply::PublishedVersions(vec!["9.0.0".to_string()]));
    assert!(matches!(&s.events[0], ui::Signal::ShowNotice(n) if n.contains("9.0.0")));
    a.handle_signal(Signal::CheckVersion);
    let s = a.handle_reply(Reply::Failed);
    assert!(s.events.is_empty() && s.request.is_none());
}

#[test]
fn start_then_stop_runs_strictly_in_order() {
    let mut session = Session::new(app());
    session.submit(Signal::StartTimer(5, 9, String::new(), 0));
    session.submit(Signal::StopTimeEntry(41));
    let mut log: Vec<(u64, String)> = vec![];
    let mut reply: Option<Reply> = None;
    while let Some(turn) = session.advance(reply.take()) {
        for e in turn.step.events.iter() {
            let name = match e {
                ui::Signal::SetTitle(t) => t.clone(),
                ui::Signal::SetTimeEntries(v, d) => format!("entries {} {:?}", v.len(), d),
                _ => "other".to_string(),
            };
            log.push((turn.command, name));
        }
        reply = match turn.step.request {
            Some(Request::StartTimer(t)) => {
                assert_eq!((5, 9, None, None), (t.project_id, t.task_id, t.notes, t.minutes));
                Some(Reply::Done)
            }
            Some(Request::StopTimer(41)) => Some(Reply::Done),
            Some(Request::TimeEntriesFor(_, _)) => {
                let running = turn.command == 1;
                Some(Reply::TimeEntries(vec![entry(41, 0, running)]))
            }
            Some(_) => panic!("unexpected request"),
            None => None,
        };
    }
    assert_eq!(2, session.begun);
    let commands: Vec<u64> = log.iter().map(|(c, _)| *c).collect();
    let mut sorted = commands.clone();
    sorted.sort();
    assert_eq!(sorted, commands);
    assert_eq!(Waiting::Nothing, session.app.waiting);
    assert_eq!(1, session.app.time_entries.len());
    assert!(!session.app.time_entries[0].is_running);
    let last = &log[log.len() - 1];
    assert_eq!((2, "Harvest - Mon 5 Feb".to_string()), (last.0, last.1.clone()));
    assert_eq!((2, "entries 1 None".to_string()), log[log.len() - 2].clone());
}

#[test]
fn assignments_are_ordered_by_name_ignoring_case() {
    let named = |id: u32, name: &str| ProjectAssignment {
        id,
        project: Project { id, name: name.to_string(), code: None, client: None },
        task_assignments: vec![],
    };
    let a = App::new(day(2024, 2, 5), User { id: 7 }, vec![named(1, "beta"), named(2, "Alpha"), named(3, "gamma"), named(4, "ALPHA b")]);
    let names: Vec<&str> = a.project_assignments.iter().map(|p| p.project.name.as_str()).collect();
    assert_eq!(vec!["Alpha", "ALPHA b", "beta", "gamma"], names);
}

#[test]
fn total_of_the_shown_entries() {
    assert_eq!(0, total_minutes(&vec![]));
    assert_eq!(100, total_minutes(&vec![entry(1, 30, false), entry(2, 70, true)]));
    assert_eq!(2 * u32::MAX as u64, total_minutes(&vec![entry(1, u32::MAX, false), entry(2, u32::MAX, true)]));
}

#[test]
fn going_to_a_day_shows_it_when_supported() {
    let mut a = app();
    let target = day(2023, 12, 31);
    let s = a.go_to_day(target.days);
    assert_eq!(target, a.shown_date);
    match s.request {
        Some(Request::TimeEntriesFor(_, d)) => assert_eq!("2023-12-31", d),
        _ => panic!("expected a fetch"),
    }
    a.handle_reply(Reply::TimeEntries(vec![]));
    a.go_to_day(0);
    assert_eq!(target, a.shown_date);
}

#[test]
fn failed_fetch_after_a_change_shows_no_entries() {
    let mut session = Session::new(with_entries(vec![entry(4, 10, true)]));
    session.submit(Signal::StopTimeEntry(4));
    let first = session.advance(None).unwrap();
    assert!(matches!(first.step.request, Some(Request::StopTimer(4))));
    let second = session.advance(Some(Reply::Failed)).unwrap();
    assert_eq!(1, second.command);
    assert!(second.step.request.is_none());
    assert!(second.step.events.iter().all(|e| !matches!(e, ui::Signal::SetTimeEntries(_, _))));
    assert!(session.advance(None).is_none());
}

#[test]
fn assignments_with_equal_names_keep_their_order() {
    let named = |id: u32, name: &str| ProjectAssignment {
        id,
        project: Project { id, name: name.to_string(), code: None, client: None },
        task_assignments: vec![],
    };
    let a = App::new(day(2024, 2, 5), User { id: 7 }, vec![named(1, "b"), named(2, "A"), named(3, "B"), named(4, "a")]);
    let ids: Vec<u32> = a.project_assignments.iter().map(|p| p.id).collect();
    assert_eq!(vec![2, 4, 1, 3], ids);
}
