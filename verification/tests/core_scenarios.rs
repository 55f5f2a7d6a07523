use chrono::{NaiveDateTime, Utc};
use tarea::civil::{civil_to_day, weekday_of, Civil};
use tarea::error::TaskError;
use tarea::parse::{parse_due_date, parse_due_date_from, resolve_local_outcome};
use tarea::render::{is_due_soon, pretty_time, pretty_time_parts};
use tarea::status::Status;
use tarea::task::Task;
use tarea::zone::LocalOutcome;

fn civil(year: i32, month: u8, day: u8, hour: u8, minute: u8, second: u8) -> Civil {
    Civil {
        year,
        month,
        day,
        hour,
        minute,
        second,
    }
}

#[test]
fn relative_forms_add_to_now_exactly() {
    let now = 1_000_000;
    assert_eq!(parse_due_date_from("2h30m", now).unwrap(), now + 9000);
    assert_eq!(parse_due_date_from("4h", now).unwrap(), now + 4 * 3600);
    assert_eq!(parse_due_date_from("45m", now).unwrap(), now + 45 * 60);
    assert_eq!(parse_due_date_from("  1h 30m  ", now).unwrap(), now + 5400);
    assert_eq!(parse_due_date_from("-1h", now).unwrap(), now - 3600);
    assert_eq!(parse_due_date_from("0h", now).unwrap(), now);
    assert_eq!(parse_due_date_from("2h-30m", now).unwrap(), now + 7200 - 1800);
    assert_eq!(parse_due_date_from("2H30M", now).unwrap(), now + 9000);
}

#[test]
fn hour_suffix_errors_name_the_pattern() {
    let now = 1_000_000;
    for bad in ["2h30", "2h30x", "2hxm", "2hm"] {
        match parse_due_date_from(bad, now) {
            Err(TaskError::InvalidDate(msg)) => {
                assert_eq!(
                    msg,
                    format!(
                        "Unable to parse '{}'. Expected minutes after hours, e.g. '4h30m'",
                        bad
                    )
                );
            }
            other => panic!("expected InvalidDate for {:?}, got {:?}", bad, other),
        }
    }
}

#[test]
fn unrecognized_input_names_the_accepted_forms() {
    match parse_due_date_from("next friday", 1_000_000) {
        Err(TaskError::InvalidDate(msg)) => {
            assert!(msg.contains("Unable to parse 'next friday'"));
            assert!(msg.contains("YYYY-MM-DD"));
        }
        other => panic!("expected InvalidDate, got {:?}", other),
    }
}

#[test]
fn relative_overflow_is_an_error() {
    match parse_due_date_from("9223372036854775807h", 0) {
        Err(TaskError::InvalidDate(msg)) => {
            assert!(msg.contains("out of the supported range"));
        }
        other => panic!("expected InvalidDate, got {:?}", other),
    }
}

#[test]
fn relative_target_beyond_supported_instants_is_an_error() {
    // The target fits an i64 but lies beyond the supported instant range.
    match parse_due_date_from("3000000000000h", 0) {
        Err(TaskError::InvalidDate(msg)) => {
            assert!(msg.contains("out of the supported range"));
        }
        other => panic!("expected InvalidDate, got {:?}", other),
    }
    // The range boundary itself is still reachable.
    assert_eq!(
        parse_due_date_from("1h", tarea::civil::MAX_INSTANT - 3600).unwrap(),
        tarea::civil::MAX_INSTANT
    );
}

#[test]
fn date_only_round_trip_renders_bare_date() {
    // A date-only due date entered as a calendar day renders back as that
    // day, with no clock time in the phrase.
    let instant = parse_due_date("2025-08-15").unwrap();
    let shown = pretty_time(instant);
    assert!(shown.contains("2025-08-15"), "got {:?}", shown);
    assert!(!shown.contains(":"));

    // A date-time due date keeps its local wall-clock time in the phrase.
    let instant2 = parse_due_date("2030-05-20 15:30").unwrap();
    let shown2 = pretty_time(instant2);
    assert!(shown2.contains("15:30"), "got {:?}", shown2);
}

#[test]
fn ninety_seconds_out_renders_in_two_minutes() {
    let now = 1_700_000_000;
    let dt = now + 90;
    let shown = pretty_time_parts(
        dt,
        now,
        civil(2023, 11, 14, 22, 15, 0),
        civil(2023, 11, 14, 22, 13, 30),
    );
    assert_eq!(shown, "in 2m");
}

#[test]
fn duration_rendering_splits_hours_and_minutes() {
    let now = 1_700_000_000;
    let at = |offset: i64| {
        pretty_time_parts(
            now + offset,
            now,
            civil(2023, 11, 14, 22, 15, 0),
            civil(2023, 11, 14, 22, 13, 30),
        )
    };
    assert_eq!(at(3600), "in 1h");
    assert_eq!(at(5400), "in 1h 30m");
    assert_eq!(at(-90), "2m ago");
    assert_eq!(at(0), "in 0m");
    assert_eq!(at(86399), "in 24h");
}

#[test]
fn date_only_three_days_out_is_a_weekday_name() {
    // 2024-01-01 was a Monday, so 2024-01-04 is a Thursday.
    let shown = pretty_time_parts(
        1_700_000_000,
        1_700_000_000,
        civil(2024, 1, 4, 0, 0, 0),
        civil(2024, 1, 1, 10, 30, 0),
    );
    assert_eq!(shown, "Thursday");
}

#[test]
fn date_only_ten_days_out_is_the_full_date() {
    let shown = pretty_time_parts(
        1_700_000_000,
        1_700_000_000,
        civil(2024, 1, 11, 0, 0, 0),
        civil(2024, 1, 1, 10, 30, 0),
    );
    assert_eq!(shown, "2024-01-11");
}

#[test]
fn date_only_neighbors_render_as_words() {
    let base = civil(2024, 1, 10, 9, 0, 0);
    let at = |d: u8| {
        pretty_time_parts(
            1_700_000_000,
            1_700_000_000,
            civil(2024, 1, d, 0, 0, 0),
            base,
        )
    };
    assert_eq!(at(10), "today");
    assert_eq!(at(9), "yesterday");
    assert_eq!(at(11), "tomorrow");
}

#[test]
fn date_time_a_day_out_renders_with_local_time() {
    // Both instants on consecutive UTC days, a full day apart.
    let now = 19_676 * 86_400;
    let dt = now + 86_400;
    let shown = pretty_time_parts(dt, now, civil(2023, 11, 16, 15, 30, 0), civil(2023, 11, 15, 15, 30, 0));
    assert_eq!(shown, "tomorrow at 15:30");
}

#[test]
fn due_soon_window_is_one_day() {
    let now = 1_000_000;
    assert!(is_due_soon(now, now));
    assert!(is_due_soon(now + 60, now));
    assert!(is_due_soon(now + 86_400, now));
    assert!(!is_due_soon(now + 86_401, now));
    assert!(!is_due_soon(now - 1, now));
}

#[test]
fn rename_twice_reports_no_op_second_time() {
    let mut t = Task::new("Old name".to_string(), None, None).unwrap();
    assert_eq!(t.rename("New name".to_string()).unwrap(), true);
    assert_eq!(t.rename("New name".to_string()).unwrap(), false);
    assert_eq!(t.name, "New name");
    // An invalid rename changes nothing.
    assert!(t.rename("   ".to_string()).is_err());
    assert_eq!(t.name, "New name");
}

#[test]
fn edits_report_whether_anything_changed() {
    let mut t = Task::new("Task".to_string(), Some("d".to_string()), Some(5)).unwrap();
    assert!(!t.set_description("d".to_string()));
    assert!(t.set_description("e".to_string()));
    assert!(!t.set_due(Some(5)));
    assert!(t.set_due(None));
    assert!(!t.set_due(None));
    assert!(!t.set_status(Status::Pending));
    assert!(t.set_status(Status::Done));
}

#[test]
fn new_task_is_pending_with_fresh_id_and_stamp() {
    let before = Utc::now().timestamp();
    let t = Task::new("Hello".to_string(), Some("notes".to_string()), Some(7)).unwrap();
    assert_eq!(t.name, "Hello");
    assert_eq!(t.description, "notes");
    assert_eq!(t.status, Status::Pending);
    assert_eq!(t.due_date, Some(7));
    assert_eq!(t.id.len(), 36);
    let bytes: Vec<char> = t.id.chars().collect();
    assert_eq!(bytes[8], '-');
    assert_eq!(bytes[13], '-');
    assert_eq!(bytes[18], '-');
    assert_eq!(bytes[23], '-');
    // The creation stamp is the present UTC time.
    let stamp = NaiveDateTime::parse_from_str(&t.date, "%Y-%m-%d %H:%M:%S")
        .unwrap()
        .and_utc()
        .timestamp();
    let after = Utc::now().timestamp();
    assert!(before <= stamp && stamp <= after);

    assert!(Task::new("  ".to_string(), None, None).is_err());
}

#[test]
fn calendar_day_numbers_and_weekdays() {
    assert_eq!(civil_to_day(1970, 1, 1), 0);
    assert_eq!(civil_to_day(1970, 1, 2), 1);
    assert_eq!(civil_to_day(1969, 12, 31), -1);
    assert_eq!(civil_to_day(2024, 1, 4), 19_726);
    assert_eq!(civil_to_day(2000, 3, 1), 11_017);
    // 1970-01-01 was a Thursday; Monday is 0.
    assert_eq!(weekday_of(0), 3);
    assert_eq!(weekday_of(civil_to_day(2024, 1, 1)), 0);
}

#[test]
fn leap_years_shape_the_calendar() {
    assert!(parse_due_date("2024-02-29").is_ok());
    assert!(parse_due_date("2023-02-29").is_err());
    assert!(parse_due_date("2000-02-29").is_ok());
    assert!(parse_due_date("2100-02-29").is_err());
}

#[test]
fn ambiguous_local_time_resolves_to_the_later_instant() {
    // The later instant wins in whichever order the pair arrives.
    assert_eq!(resolve_local_outcome(LocalOutcome::Ambiguous(3, 7), "x").unwrap(), 7);
    assert_eq!(resolve_local_outcome(LocalOutcome::Ambiguous(7, 3), "x").unwrap(), 7);
    assert_eq!(resolve_local_outcome(LocalOutcome::Single(5), "x").unwrap(), 5);
    assert!(resolve_local_outcome(LocalOutcome::Missing, "x").is_err());
}
