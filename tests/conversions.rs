use timer_for_harvest::duration::{duration_str_to_minutes, minutes_to_duration_str};
use timer_for_harvest::redirect::parse_account_details;

fn hours_to_minutes(hours: f32) -> u64 {
    (hours * 60.0).round() as u64
}

#[test]
fn should_convert_duration_correctly() {
    assert_eq!("1:00", minutes_to_duration_str(hours_to_minutes(1.0)));
    assert_eq!("0:01", minutes_to_duration_str(hours_to_minutes(1.0 / 60.0)));
    assert_eq!("0:05", minutes_to_duration_str(hours_to_minutes(5.0 / 60.0)));
    assert_eq!("0:10", minutes_to_duration_str(hours_to_minutes(10.0 / 60.0)));
}

#[test]
fn should_not_crash_duration_str_to_f32() {
    assert_eq!(0.0, duration_str_to_minutes("0:00") as f32 / 60.0);
    assert_eq!(1.5, duration_str_to_minutes("1:30") as f32 / 60.0);
    assert_eq!(1.0, duration_str_to_minutes("1") as f32 / 60.0);
}

#[test]
fn should_parse_account_id() {
    assert_eq!("123", parse_account_details("GET /?access_token=abc&scope=harvest%3A123").unwrap().1);
    assert_eq!("123", parse_account_details("GET /?scope=harvest%3A123&access_token=abc").unwrap().1);
}

#[test]
fn should_parse_access_token() {
    assert_eq!("abc", parse_account_details("GET /?access_token=abc&scope=harvest%3A123").unwrap().0);
    assert_eq!("abc", parse_account_details("GET /?scope=harvest%3A123&access_token=abc").unwrap().0);
}

#[test]
fn should_parse_expires_in() {
    assert_eq!("123", parse_account_details("GET /?expires_in=123&scope=harvest%3A456").unwrap().2);
    assert_eq!("123", parse_account_details("GET /?scope=harvest%3A456&expires_in=123").unwrap().2);
}

#[test]
fn duration_text_examples() {
    assert_eq!("1:30", minutes_to_duration_str(hours_to_minutes(1.5)));
    assert_eq!("0:00", minutes_to_duration_str(0));
    assert_eq!("12:07", minutes_to_duration_str(727));
    assert_eq!("100:59", minutes_to_duration_str(6059));
}

#[test]
fn duration_text_carries_a_full_hour() {
    // 1 h 59.9 min rounds to 120 minutes, which reads 2:00, never 1:60.
    assert_eq!("2:00", minutes_to_duration_str(hours_to_minutes(1.0 + 59.9 / 60.0)));
    assert_eq!("2:00", minutes_to_duration_str(120));
    assert_eq!("1:59", minutes_to_duration_str(119));
}

#[test]
fn duration_parse_edge_cases() {
    assert_eq!(0, duration_str_to_minutes(""));
    assert_eq!(90, duration_str_to_minutes("1:30"));
    assert_eq!(5, duration_str_to_minutes("x:05"));
    assert_eq!(120, duration_str_to_minutes("2:y"));
    assert_eq!(125, duration_str_to_minutes("2:05:17"));
    assert_eq!(0, duration_str_to_minutes("99999999999:00"));
}

#[test]
fn redirect_parameters_in_every_order() {
    let t = "access_token=tok";
    let s = "scope=harvest%3A42";
    let e = "expires_in=3600";
    let orders = [[t, s, e], [t, e, s], [s, t, e], [s, e, t], [e, t, s], [e, s, t]];
    for o in orders.iter() {
        let line = format!("GET /?{}&{}&{} HTTP/1.1", o[0], o[1], o[2]);
        let g = parse_account_details(&line).unwrap();
        assert_eq!(("tok", "42", "3600"), (g.0.as_str(), g.1.as_str(), g.2.as_str()));
    }
}

#[test]
fn redirect_malformed_lines() {
    assert!(parse_account_details("GET").is_none());
    assert!(parse_account_details("GET /no-query HTTP/1.1").is_none());
    assert!(parse_account_details("GET /?access_token HTTP/1.1").is_none());
    assert!(parse_account_details("GET /?scope=harvest HTTP/1.1").is_none());
    let g = parse_account_details("GET /?other=1&access_token=a HTTP/1.1").unwrap();
    assert_eq!(("a", "", ""), (g.0.as_str(), g.1.as_str(), g.2.as_str()));
}

#[test]
fn duration_text_round_trips() {
    for text in ["0:00", "0:01", "1:00", "1:30", "12:59", "999:09"] {
        assert_eq!(text, minutes_to_duration_str(duration_str_to_minutes(text)));
    }
    for minutes in [0u64, 1, 59, 60, 61, 6059, 59940] {
        assert_eq!(minutes, duration_str_to_minutes(&minutes_to_duration_str(minutes)));
    }
}
