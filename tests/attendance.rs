use conditional::committee::{get_committee, get_committees_by_user, put_committee, submit_committee_attendance};
use conditional::date::{CalendarDate, DateTime};
use conditional::engine::{delete_event_cascade, edit_attendance, query_by_attendee, submit_attendance};
use conditional::error::{AttendanceError, StoreError};
use conditional::house::{
    delete_hm, edit_hm_attendance, get_hm_absences_by_user, get_hm_attendance_by_user_evals,
    submit_hm_attendance,
};
use conditional::ident::{classify, parse_int, split_attendees, Attendee};
use conditional::query::StatusFilter;
use conditional::schema::{
    AttendanceStatus, CommitteeType, Directorship, FroshHouseAttendance, HouseAttendance,
    MemberHouseAttendance, Seminar,
};
use conditional::seminar::{
    delete_seminar, edit_seminar_attendance, get_seminars, get_seminars_by_user, put_seminar,
    submit_seminar_attendance,
};
use conditional::store::{EventLabel, EventTables, FroshRow};

fn day(y: i32, m: u32, d: u32) -> DateTime {
    CalendarDate::new(y, m, d).at_midnight()
}

fn frosh(id: i32, s: AttendanceStatus) -> FroshHouseAttendance {
    FroshHouseAttendance { name: id, att_status: s }
}

fn member(h: &str, s: AttendanceStatus) -> MemberHouseAttendance {
    MemberHouseAttendance { name: h.to_string(), att_status: s }
}

fn house(y: i32, m: u32, d: u32, fr: Vec<FroshHouseAttendance>, mem: Vec<MemberHouseAttendance>) -> HouseAttendance {
    HouseAttendance { date: CalendarDate::new(y, m, d), members: mem, frosh: fr }
}

fn member_rows(t: &EventTables) -> Vec<(i32, String, AttendanceStatus)> {
    t.member_rows().iter().map(|r| (r.event_id, r.uid.clone(), r.status)).collect()
}

#[test]
fn classify_routes_by_first_character() {
    assert!(matches!(classify("101"), Ok(Attendee::Frosh(101))));
    assert!(matches!(classify("0"), Ok(Attendee::Frosh(0))));
    assert!(matches!(classify("2147483647"), Ok(Attendee::Frosh(2147483647))));
    match classify("jdoe") {
        Ok(Attendee::Member(h)) => assert_eq!(h, "jdoe"),
        _ => panic!("expected a member"),
    }
    match classify("a1") {
        Ok(Attendee::Member(h)) => assert_eq!(h, "a1"),
        _ => panic!("expected a member"),
    }
    match classify("-5") {
        Ok(Attendee::Member(h)) => assert_eq!(h, "-5"),
        _ => panic!("expected a member"),
    }
    match classify("+5") {
        Ok(Attendee::Member(h)) => assert_eq!(h, "+5"),
        _ => panic!("expected a member"),
    }
}

#[test]
fn classify_treats_any_numeric_first_character_as_frosh() {
    // U+0663 is an Arabic-Indic digit: numeric, but not a number that i32 reads.
    assert_eq!(classify("\u{663}").unwrap_err(), AttendanceError::InvalidIdentifier);
    assert_eq!(classify("\u{663}abc").unwrap_err(), AttendanceError::InvalidIdentifier);
    assert_eq!(classify("\u{bd}").unwrap_err(), AttendanceError::InvalidIdentifier);
    let t = EventTables::new();
    assert_eq!(get_hm_absences_by_user(&t, "\u{663}", &day(2024, 8, 1)).unwrap_err(), AttendanceError::InvalidIdentifier);
}

#[test]
fn classify_refuses_invalid_identifiers() {
    assert_eq!(classify("").unwrap_err(), AttendanceError::InvalidIdentifier);
    assert_eq!(classify("12ab").unwrap_err(), AttendanceError::InvalidIdentifier);
    assert_eq!(classify("2147483648").unwrap_err(), AttendanceError::InvalidIdentifier);
    assert_eq!(classify("99999999999").unwrap_err(), AttendanceError::InvalidIdentifier);
}

#[test]
fn classify_is_deterministic() {
    for s in ["101", "jdoe", "", "7x", "ünïcode"] {
        let a = format!("{:?}", classify(s));
        let b = format!("{:?}", classify(s));
        assert_eq!(a, b);
    }
}

#[test]
fn parse_int_reads_i32_with_optional_sign() {
    assert_eq!(parse_int("42"), Some(42));
    assert_eq!(parse_int("007"), Some(7));
    assert_eq!(parse_int("+7"), Some(7));
    assert_eq!(parse_int("-3"), Some(-3));
    assert_eq!(parse_int("-0"), Some(0));
    assert_eq!(parse_int("-2147483648"), Some(i32::MIN));
    assert_eq!(parse_int("2147483647"), Some(i32::MAX));
    assert_eq!(parse_int("+2147483648"), None);
    assert_eq!(parse_int("-2147483649"), None);
    assert_eq!(parse_int(""), None);
    assert_eq!(parse_int("+"), None);
    assert_eq!(parse_int("-"), None);
    assert_eq!(parse_int("++5"), None);
    assert_eq!(parse_int("4 2"), None);
    assert_eq!(parse_int("2147483648"), None);
    for s in ["42", "+7", "-3", "-2147483648", "", "+", "x", "99999999999"] {
        assert_eq!(parse_int(s), s.parse::<i32>().ok());
    }
}

#[test]
fn signed_event_ids_name_the_event() {
    let mut t = EventTables::new();
    let id = submit_seminar_attendance(&mut t, &seminar(Some(vec![12]), Some(vec!["alice"]))).unwrap();
    assert_eq!(id, 1);
    edit_seminar_attendance(&mut t, "+1", &seminar(Some(vec![]), Some(vec![]))).unwrap();
    assert!(t.frosh_rows().is_empty());
    delete_seminar(&mut t, "+1").unwrap();
    assert!(t.event_rows().is_empty());
    assert_eq!(delete_seminar(&mut t, "-3"), Ok(()));
}

#[test]
fn split_attendees_routes_each_name() {
    let names = vec!["42".to_string(), "alice".to_string(), "7".to_string(), "bob".to_string()];
    let (fr, mem) = split_attendees(&names).unwrap();
    assert_eq!(fr, vec![42, 7]);
    assert_eq!(mem, vec!["alice".to_string(), "bob".to_string()]);
    let bad = vec!["alice".to_string(), "4x".to_string()];
    assert_eq!(split_attendees(&bad).unwrap_err(), AttendanceError::InvalidIdentifier);
}

#[test]
fn house_meeting_scenario_submit_then_query() {
    let mut t = EventTables::new();
    let body = house(2024, 9, 3, vec![frosh(101, AttendanceStatus::Absent)], vec![member("jdoe", AttendanceStatus::Attended)]);
    let id = submit_hm_attendance(&mut t, &body).unwrap();
    assert_eq!(id, 1);
    assert!(matches!(t.event_rows()[0].label, EventLabel::Untitled));
    let cutoff = day(2024, 8, 1);
    assert_eq!(get_hm_absences_by_user(&t, "101", &cutoff).unwrap(), vec![day(2024, 9, 3)]);
    assert_eq!(get_hm_absences_by_user(&t, "jdoe", &cutoff).unwrap(), vec![]);
    assert_eq!(member_rows(&t), vec![(1, "jdoe".to_string(), AttendanceStatus::Attended)]);
}

#[test]
fn house_meeting_scenario_edit_clears_absence() {
    let mut t = EventTables::new();
    let body = house(2024, 9, 3, vec![frosh(101, AttendanceStatus::Absent)], vec![member("jdoe", AttendanceStatus::Attended)]);
    let id = submit_hm_attendance(&mut t, &body).unwrap();
    let edited = house(2024, 9, 3, vec![frosh(101, AttendanceStatus::Attended)], vec![]);
    edit_hm_attendance(&mut t, &id.to_string(), &edited).unwrap();
    let cutoff = day(2024, 8, 1);
    assert_eq!(get_hm_absences_by_user(&t, "101", &cutoff).unwrap(), vec![]);
    assert_eq!(t.frosh_rows().clone(), vec![FroshRow { event_id: id, fid: 101, status: AttendanceStatus::Attended }]);
    assert!(t.member_rows().is_empty());
}

#[test]
fn house_meeting_scenario_delete_removes_everything() {
    let mut t = EventTables::new();
    let body = house(2024, 9, 3, vec![frosh(101, AttendanceStatus::Absent)], vec![member("jdoe", AttendanceStatus::Absent)]);
    let id = submit_hm_attendance(&mut t, &body).unwrap();
    delete_hm(&mut t, &id.to_string()).unwrap();
    let cutoff = day(2024, 8, 1);
    assert_eq!(get_hm_absences_by_user(&t, "101", &cutoff).unwrap(), vec![]);
    assert_eq!(get_hm_absences_by_user(&t, "jdoe", &cutoff).unwrap(), vec![]);
    assert_eq!(get_hm_attendance_by_user_evals(&t, "101", &cutoff).unwrap(), vec![]);
    assert!(t.event_rows().is_empty());
    assert!(t.frosh_rows().is_empty());
    assert!(t.member_rows().is_empty());
}

#[test]
fn failed_statement_leaves_no_trace() {
    let mut t = EventTables::new();
    let dup = house(2024, 9, 3, vec![frosh(5, AttendanceStatus::Absent), frosh(5, AttendanceStatus::Excused)], vec![]);
    assert_eq!(submit_hm_attendance(&mut t, &dup).unwrap_err(), AttendanceError::Store(StoreError::UniqueViolation));
    assert!(t.event_rows().is_empty());
    assert!(t.frosh_rows().is_empty());
    assert_eq!(t.next_id(), 1);

    let dup_members = house(2024, 9, 3, vec![frosh(5, AttendanceStatus::Absent)], vec![member("a", AttendanceStatus::Absent), member("a", AttendanceStatus::Attended)]);
    assert_eq!(submit_hm_attendance(&mut t, &dup_members).unwrap_err(), AttendanceError::Store(StoreError::UniqueViolation));
    assert!(t.event_rows().is_empty());
    assert!(t.frosh_rows().is_empty());
    assert!(t.member_rows().is_empty());
}

#[test]
fn failed_edit_keeps_previous_attendance() {
    let mut t = EventTables::new();
    let id = submit_attendance(&mut t, day(2024, 9, 3), false, EventLabel::Untitled, &vec![frosh(1, AttendanceStatus::Absent)], &vec![]).unwrap();
    let before = t.frosh_rows().clone();
    let r = edit_attendance(&mut t, id, &vec![frosh(2, AttendanceStatus::Absent)], &vec![member("x", AttendanceStatus::Absent), member("x", AttendanceStatus::Absent)]);
    assert_eq!(r.unwrap_err(), AttendanceError::Store(StoreError::UniqueViolation));
    assert_eq!(t.frosh_rows().clone(), before);
    assert!(t.member_rows().is_empty());
}

#[test]
fn edit_of_missing_event_is_refused() {
    let mut t = EventTables::new();
    let r = edit_attendance(&mut t, 9, &vec![frosh(1, AttendanceStatus::Absent)], &vec![]);
    assert_eq!(r.unwrap_err(), AttendanceError::Store(StoreError::ForeignKeyViolation));
    assert!(t.frosh_rows().is_empty());
}

#[test]
fn edit_twice_equals_edit_once() {
    let mut t = EventTables::new();
    let id = submit_attendance(&mut t, day(2024, 9, 3), false, EventLabel::Untitled, &vec![frosh(1, AttendanceStatus::Absent)], &vec![member("a", AttendanceStatus::Absent)]).unwrap();
    let fr = vec![frosh(1, AttendanceStatus::Attended), frosh(2, AttendanceStatus::Excused)];
    let mem = vec![member("a", AttendanceStatus::Attended), member("b", AttendanceStatus::Absent)];
    edit_attendance(&mut t, id, &fr, &mem).unwrap();
    let once_frosh = t.frosh_rows().clone();
    let once_members = member_rows(&t);
    edit_attendance(&mut t, id, &fr, &mem).unwrap();
    assert_eq!(t.frosh_rows().clone(), once_frosh);
    assert_eq!(member_rows(&t), once_members);
    assert_eq!(once_frosh.len(), 2);
    assert_eq!(once_members.len(), 2);
}

#[test]
fn empty_submission_creates_header_only() {
    let mut t = EventTables::new();
    let id = submit_attendance(&mut t, day(2024, 9, 3), false, EventLabel::Untitled, &vec![], &vec![]).unwrap();
    assert_eq!(id, 1);
    assert_eq!(t.event_rows().len(), 1);
    assert_eq!(t.event_rows()[0].id, 1);
    assert!(t.event_rows()[0].active);
    assert!(t.frosh_rows().is_empty());
    assert!(t.member_rows().is_empty());
    assert_eq!(t.next_id(), 2);
}

#[test]
fn events_at_or_before_cutoff_never_reported() {
    let mut t = EventTables::new();
    for (m, d) in [(8, 1), (7, 15), (8, 2)] {
        submit_hm_attendance(&mut t, &house(2024, m, d, vec![frosh(3, AttendanceStatus::Absent)], vec![])).unwrap();
    }
    let cutoff = DateTime::new(CalendarDate::new(2024, 8, 1), 3600);
    assert_eq!(get_hm_absences_by_user(&t, "3", &cutoff).unwrap(), vec![day(2024, 8, 2)]);
    let r = query_by_attendee(&t, "3", &day(2024, 8, 1), StatusFilter::Absent, false).unwrap();
    assert_eq!(r, vec![day(2024, 8, 2)]);
}

#[test]
fn reports_come_out_in_date_order() {
    let mut t = EventTables::new();
    for (m, d) in [(11, 5), (9, 10), (10, 1), (9, 3)] {
        submit_hm_attendance(&mut t, &house(2024, m, d, vec![], vec![member("z", AttendanceStatus::Absent)])).unwrap();
    }
    let r = get_hm_absences_by_user(&t, "z", &day(2024, 1, 1)).unwrap();
    assert_eq!(r, vec![day(2024, 9, 3), day(2024, 9, 10), day(2024, 10, 1), day(2024, 11, 5)]);
}

#[test]
fn evals_report_counts_excused_but_absences_do_not() {
    let mut t = EventTables::new();
    submit_hm_attendance(&mut t, &house(2024, 9, 3, vec![frosh(8, AttendanceStatus::Excused)], vec![])).unwrap();
    submit_hm_attendance(&mut t, &house(2024, 9, 10, vec![frosh(8, AttendanceStatus::Absent)], vec![])).unwrap();
    submit_hm_attendance(&mut t, &house(2024, 9, 17, vec![frosh(8, AttendanceStatus::Attended)], vec![])).unwrap();
    let cutoff = day(2024, 8, 1);
    assert_eq!(get_hm_absences_by_user(&t, "8", &cutoff).unwrap(), vec![day(2024, 9, 10)]);
    assert_eq!(get_hm_attendance_by_user_evals(&t, "8", &cutoff).unwrap(), vec![day(2024, 9, 3), day(2024, 9, 10)]);
}

#[test]
fn queries_refuse_invalid_identifiers() {
    let t = EventTables::new();
    let cutoff = day(2024, 8, 1);
    assert_eq!(get_hm_absences_by_user(&t, "", &cutoff).unwrap_err(), AttendanceError::InvalidIdentifier);
    assert_eq!(get_hm_attendance_by_user_evals(&t, "1x", &cutoff).unwrap_err(), AttendanceError::InvalidIdentifier);
    assert_eq!(get_seminars_by_user(&t, "", &cutoff).unwrap_err(), AttendanceError::InvalidIdentifier);
}

#[test]
fn delete_with_bad_id_is_refused() {
    let mut t = EventTables::new();
    assert_eq!(delete_hm(&mut t, "abc").unwrap_err(), AttendanceError::InvalidIdentifier);
    assert_eq!(delete_seminar(&mut t, "").unwrap_err(), AttendanceError::InvalidIdentifier);
    assert_eq!(edit_hm_attendance(&mut t, "x", &house(2024, 1, 1, vec![], vec![])).unwrap_err(), AttendanceError::InvalidIdentifier);
}

#[test]
fn header_delete_needs_children_gone() {
    let mut t = EventTables::new();
    let id = submit_attendance(&mut t, day(2024, 9, 3), false, EventLabel::Untitled, &vec![frosh(1, AttendanceStatus::Absent)], &vec![]).unwrap();
    assert_eq!(t.delete_event(id), Err(StoreError::ForeignKeyViolation));
    assert_eq!(t.event_rows().len(), 1);
    delete_event_cascade(&mut t, id).unwrap();
    assert!(t.event_rows().is_empty());
}

fn seminar(frosh: Option<Vec<i32>>, members: Option<Vec<&str>>) -> Seminar {
    Seminar {
        name: "Intro to Verus".to_string(),
        timestamp: DateTime::new(CalendarDate::new(2024, 10, 2), 68400),
        members: members.map(|v| v.into_iter().map(|s| s.to_string()).collect()),
        frosh,
        approved: true,
    }
}

#[test]
fn seminar_needs_both_lists() {
    let mut t = EventTables::new();
    assert_eq!(submit_seminar_attendance(&mut t, &seminar(None, Some(vec!["a"]))).unwrap_err(), AttendanceError::MissingField);
    assert_eq!(submit_seminar_attendance(&mut t, &seminar(Some(vec![1]), None)).unwrap_err(), AttendanceError::MissingField);
    assert!(t.event_rows().is_empty());
    assert_eq!(edit_seminar_attendance(&mut t, "1", &seminar(None, None)).unwrap_err(), AttendanceError::MissingField);
}

#[test]
fn seminar_attendance_counts_once_approved() {
    let mut t = EventTables::new();
    let id = submit_seminar_attendance(&mut t, &seminar(Some(vec![12]), Some(vec!["alice"]))).unwrap();
    assert!(!t.event_rows()[0].approved);
    let ys = day(2024, 8, 1);
    assert_eq!(get_seminars_by_user(&t, "alice", &ys).unwrap(), vec![]);
    t.set_approved(id, true);
    let when = DateTime::new(CalendarDate::new(2024, 10, 2), 68400);
    assert_eq!(get_seminars_by_user(&t, "alice", &ys).unwrap(), vec![when]);
    assert_eq!(get_seminars_by_user(&t, "12", &ys).unwrap(), vec![when]);
    assert_eq!(get_seminars_by_user(&t, "bob", &ys).unwrap(), vec![]);
    let listed = get_seminars(&t, &ys);
    assert_eq!(listed.len(), 1);
    assert_eq!(listed[0].header.id, id);
    assert!(matches!(&listed[0].header.label, EventLabel::Named(n) if n == "Intro to Verus"));
    assert_eq!(listed[0].frosh, vec![12]);
    assert_eq!(listed[0].members, vec!["alice".to_string()]);
    assert_eq!(get_seminars(&t, &day(2024, 11, 1)).len(), 0);
}

#[test]
fn seminar_edit_and_roster_replace() {
    let mut t = EventTables::new();
    let id = submit_seminar_attendance(&mut t, &seminar(Some(vec![12]), Some(vec!["alice"]))).unwrap();
    edit_seminar_attendance(&mut t, &id.to_string(), &seminar(Some(vec![13]), Some(vec![]))).unwrap();
    assert_eq!(t.frosh_rows().clone(), vec![FroshRow { event_id: id, fid: 13, status: AttendanceStatus::Attended }]);
    assert!(t.member_rows().is_empty());
    let names = vec!["bob".to_string(), "14".to_string()];
    put_seminar(&mut t, &id.to_string(), &names).unwrap();
    assert_eq!(t.frosh_rows().clone(), vec![FroshRow { event_id: id, fid: 14, status: AttendanceStatus::Attended }]);
    assert_eq!(member_rows(&t), vec![(id, "bob".to_string(), AttendanceStatus::Attended)]);
    let bad = vec!["carol".to_string(), "1z".to_string()];
    assert_eq!(put_seminar(&mut t, &id.to_string(), &bad).unwrap_err(), AttendanceError::InvalidIdentifier);
    assert_eq!(member_rows(&t), vec![(id, "bob".to_string(), AttendanceStatus::Attended)]);
    delete_seminar(&mut t, &id.to_string()).unwrap();
    assert!(t.event_rows().is_empty());
}

#[test]
fn committee_meeting_round_trip() {
    let mut t = EventTables::new();
    let body = Directorship {
        committee: CommitteeType::Evaluations,
        timestamp: DateTime::new(CalendarDate::new(2024, 9, 20), 72000),
        members: Some(vec!["dana".to_string()]),
        frosh: Some(vec![]),
        approved: false,
    };
    let id = submit_committee_attendance(&mut t, &body).unwrap();
    assert!(matches!(t.event_rows()[0].label, EventLabel::Committee(CommitteeType::Evaluations)));
    t.set_approved(id, true);
    let ys = day(2024, 8, 1);
    assert_eq!(get_committees_by_user(&t, "dana", &ys).unwrap(), vec![body.timestamp]);
    put_committee(&mut t, &id.to_string(), &vec!["erin".to_string()]).unwrap();
    assert_eq!(get_committees_by_user(&t, "dana", &ys).unwrap(), vec![]);
    assert_eq!(get_committees_by_user(&t, "erin", &ys).unwrap(), vec![body.timestamp]);
    let listed = get_committee(&t, &ys);
    assert_eq!(listed.len(), 1);
    assert_eq!(listed[0].members, vec!["erin".to_string()]);
    assert!(listed[0].frosh.is_empty());
}

#[test]
fn exhausted_ids_refuse_new_events() {
    let mut t = EventTables::starting_at(i32::MAX - 1);
    let id = submit_attendance(&mut t, day(2024, 9, 3), false, EventLabel::Untitled, &vec![], &vec![]).unwrap();
    assert_eq!(id, i32::MAX - 1);
    let r = submit_attendance(&mut t, day(2024, 9, 4), false, EventLabel::Untitled, &vec![frosh(1, AttendanceStatus::Absent)], &vec![]);
    assert_eq!(r.unwrap_err(), AttendanceError::Store(StoreError::IdExhausted));
    assert_eq!(t.event_rows().len(), 1);
    assert!(t.frosh_rows().is_empty());
}
