use rota_gen::config::{Config, Dates, ErrorKind, Nurse, People, Supporter, NursesJob};
use rota_gen::header::build_header;
use rota_gen::table::generate_table;
use rota_gen::validate::{do_validate_dates, do_validate_rooms, do_validates, maybe_write_excel_sep};

fn cfg_with_dates(month: &str, start_day: &str, start: usize, end: usize) -> Config {
    Config {
        people: People {
            nurses: vec![Nurse {
                name: "n1".to_string(),
                days: None,
                trainee: None,
                rooms: None,
            }],
            supporters: vec![Supporter { name: "s1".to_string(), days: None }],
        },
        nurses_jobs: vec![NursesJob { name: "x".to_string(), for_trainees: None }],
        rooms: vec!["a".to_string()],
        dates: Dates {
            month: month.to_string(),
            start_day: start_day.to_string(),
            start,
            end,
            year: 2024,
        },
        excel: None,
        job_room_sep: None,
    }
}

#[test]
fn end_must_stay_below_33() {
    // The date sanity check is `end < 33`: 33 is the first rejected value.
    let cfg = cfg_with_dates("january", "monday", 1, 33);
    match do_validates(&cfg) {
        Err(ErrorKind::InvalidDate(d)) => assert_eq!(d, 33),
        _ => panic!("end == 33 must be rejected as InvalidDate"),
    }
    let cfg = cfg_with_dates("january", "monday", 1, 32);
    assert!(do_validates(&cfg).is_ok());
    let cfg = cfg_with_dates("january", "monday", 1, 31);
    assert!(do_validates(&cfg).is_ok());
    assert!(generate_table(&cfg).is_ok());
}

#[test]
fn unknown_month_is_rejected() {
    let cfg = cfg_with_dates("janvier", "monday", 1, 5);
    match do_validate_dates(&cfg) {
        Err(ErrorKind::InvalidMonth(m)) => assert_eq!(m, "janvier"),
        _ => panic!("unknown month must be rejected"),
    }
}

#[test]
fn unknown_start_day_is_rejected() {
    let cfg = cfg_with_dates("january", "funday", 1, 5);
    match do_validate_dates(&cfg) {
        Err(ErrorKind::InvalidWeekday(d)) => assert_eq!(d, "funday"),
        _ => panic!("unknown starting weekday must be rejected"),
    }
}

#[test]
fn unknown_restriction_day_is_rejected() {
    let mut cfg = cfg_with_dates("january", "monday", 1, 5);
    cfg.people.nurses[0].days = Some(vec!["monday".to_string(), "moonday".to_string()]);
    match do_validate_dates(&cfg) {
        Err(ErrorKind::InvalidWeekday(d)) => assert_eq!(d, "moonday"),
        _ => panic!("unknown restriction weekday must be rejected"),
    }
}

#[test]
fn unknown_supporter_day_is_rejected() {
    let mut cfg = cfg_with_dates("january", "monday", 1, 5);
    cfg.people.supporters[0].days = Some(vec!["caturday".to_string()]);
    match do_validate_dates(&cfg) {
        Err(ErrorKind::InvalidWeekday(d)) => assert_eq!(d, "caturday"),
        _ => panic!("unknown supporter weekday must be rejected"),
    }
}

#[test]
fn unknown_room_restriction_is_rejected() {
    let mut cfg = cfg_with_dates("january", "monday", 1, 5);
    cfg.people.nurses[0].rooms = Some(vec!["z".to_string()]);
    match do_validate_rooms(&cfg) {
        Err(ErrorKind::InvalidRoom(r)) => assert_eq!(r, "z"),
        _ => panic!("unknown room restriction must be rejected"),
    }
    assert!(matches!(generate_table(&cfg), Err(ErrorKind::InvalidRoom(_))));
}

#[test]
fn known_room_restriction_is_accepted() {
    let mut cfg = cfg_with_dates("january", "monday", 1, 5);
    cfg.people.nurses[0].rooms = Some(vec!["a".to_string()]);
    assert!(do_validate_rooms(&cfg).is_ok());
}

#[test]
fn excel_separator_only_when_asked() {
    let mut cfg = cfg_with_dates("january", "monday", 1, 5);
    assert!(maybe_write_excel_sep(&cfg).is_none());
    cfg.excel = Some(false);
    assert!(maybe_write_excel_sep(&cfg).is_none());
    cfg.excel = Some(true);
    assert_eq!(maybe_write_excel_sep(&cfg).unwrap(), "sep=,");
}

#[test]
fn header_labels_name_month_day_and_year() {
    let cfg = cfg_with_dates("january", "tuesday", 30, 31);
    let header = build_header(&cfg.dates);
    assert_eq!(header, vec!["january 30, 2024", "january 31, 2024"]);
}

#[test]
fn header_skips_weekends() {
    let cfg = cfg_with_dates("march", "saturday", 1, 4);
    let header = build_header(&cfg.dates);
    // day 1 saturday, day 2 sunday: only monday 3 and tuesday 4 remain
    assert_eq!(header, vec!["march 3, 2024", "march 4, 2024"]);
}

#[test]
fn error_descriptions_name_the_offender() {
    let cfg = cfg_with_dates("smarch", "monday", 1, 5);
    let e = do_validates(&cfg).unwrap_err();
    assert_eq!(e.describe(), "invalid month name: smarch");
}
