use chrono::Datelike;
use timer_for_harvest::api::{
    collect_assignment_page, start_timer_body, update_timer_body, ProjectAssignmentPage, TimerUpdate,
};
use timer_for_harvest::calendar::{Date, FIRST_DAY, LAST_DAY};
use timer_for_harvest::model::{Client, Project, ProjectAssignment};
use timer_for_harvest::order::fuzzy_matching;
use timer_for_harvest::version::upgrade_notice;

fn project(id: u32, name: &str, code: Option<&str>) -> Project {
    Project { id, name: name.to_string(), code: code.map(|c| c.to_string()), client: Some(Client { id: 1, name: "c".to_string() }) }
}

fn day(y: i32, m: u32, d: u32) -> Date {
    let days = chrono::NaiveDate::from_ymd_opt(y, m, d).unwrap().num_days_from_ce();
    Date::from_days(days).unwrap()
}

#[test]
fn project_label_with_and_without_code() {
    assert_eq!("[AB-1] Website", project(1, "Website", Some("AB-1")).name_and_code());
    assert_eq!("Website", project(1, "Website", Some("")).name_and_code());
    assert_eq!("Website", project(1, "Website", None).name_and_code());
}

#[test]
fn start_body_omits_empty_notes_and_zero_minutes() {
    let t = start_timer_body(5, 9, "", 0, "2024-02-05".to_string());
    assert_eq!((None, 5, 9, true), (t.id, t.project_id, t.task_id, t.is_running));
    assert!(t.notes.is_none());
    assert!(t.minutes.is_none());
    assert_eq!(Some("2024-02-05".to_string()), t.spent_date);
    let t = start_timer_body(5, 9, "call", 30, "2024-02-05".to_string());
    assert_eq!(Some("call".to_string()), t.notes);
    assert_eq!(Some(30), t.minutes);
}

#[test]
fn update_body_leaves_duration_of_running_entries() {
    match update_timer_body(3, 5, 9, "n".to_string(), 45, true, "2024-02-05".to_string()) {
        TimerUpdate::WithoutHours(w) => {
            assert_eq!((Some(3), 5, 9, true), (w.id, w.project_id, w.task_id, w.is_running));
            assert_eq!(Some("n".to_string()), w.notes);
        }
        TimerUpdate::WithHours(_) => panic!("running entry sent with a duration"),
    }
    match update_timer_body(3, 5, 9, "n".to_string(), 45, false, "2024-02-05".to_string()) {
        TimerUpdate::WithHours(t) => {
            assert_eq!(Some(45), t.minutes);
            assert!(!t.is_running);
            assert_eq!(Some("2024-02-05".to_string()), t.spent_date);
        }
        TimerUpdate::WithoutHours(_) => panic!("stopped entry sent without a duration"),
    }
}

fn page(ids: &[u32], page: u32, total_pages: u32) -> ProjectAssignmentPage {
    ProjectAssignmentPage {
        project_assignments: ids
            .iter()
            .map(|i| ProjectAssignment { id: *i, project: project(*i, "p", None), task_assignments: vec![] })
            .collect(),
        per_page: 2,
        total_pages,
        total_entries: 3,
        page,
    }
}

#[test]
fn pages_are_walked_to_the_last() {
    let mut all = vec![];
    assert_eq!(Some(2), collect_assignment_page(&mut all, page(&[1, 2], 1, 2)));
    assert_eq!(None, collect_assignment_page(&mut all, page(&[3], 2, 2)));
    assert_eq!(vec![1, 2, 3], all.iter().map(|a| a.id).collect::<Vec<u32>>());
    let mut none = vec![];
    assert_eq!(None, collect_assignment_page(&mut none, page(&[], 1, 0)));
}

#[test]
fn dates_step_and_format() {
    let d = day(2024, 2, 5);
    assert_eq!("Harvest - Mon 5 Feb", d.title());
    assert_eq!("2024-02-05", d.to_iso_string());
    assert_eq!("2024-02-04", d.pred().to_iso_string());
    assert_eq!("2024-02-06", d.succ().to_iso_string());
    assert_eq!("2024-03-01", day(2024, 2, 29).succ().to_iso_string());
    assert_eq!("0001-01-01", day(1, 1, 1).to_iso_string());
    assert_eq!(day(1, 1, 1).days, FIRST_DAY);
    assert_eq!(day(9999, 12, 31).days, LAST_DAY);
    assert_eq!(FIRST_DAY, Date::from_days(FIRST_DAY).unwrap().pred().days);
    assert_eq!(LAST_DAY, Date::from_days(LAST_DAY).unwrap().succ().days);
    assert!(Date::from_days(0).is_none());
    assert!(Date::from_days(LAST_DAY + 1).is_none());
}

#[test]
fn notice_for_first_newer_version() {
    let published = vec!["0.0.9".to_string(), "0.2.0".to_string(), "0.3.0".to_string()];
    assert_eq!(
        Some("New version available (0.2.0), download it from https://github.com/frenkel/timer-for-harvest".to_string()),
        upgrade_notice("0.1.0", &published)
    );
    assert_eq!(None, upgrade_notice("0.1.0", &vec!["0.1.0".to_string(), "0.0.1".to_string()]));
    assert_eq!(None, upgrade_notice("0.1.0", &vec![]));
}

#[test]
fn typed_text_matches_rows_ignoring_case() {
    assert!(fuzzy_matching("[AB-1] Website Redesign", "web"));
    assert!(fuzzy_matching("Website", ""));
    assert!(!fuzzy_matching("Website", "mobile"));
    assert!(!fuzzy_matching("Web", "website"));
}
