use conditional::coop::{coop_year_floor, current_coop_year, current_coop_year_floor};
use conditional::date::{CalendarDate, DateTime};
use conditional::error::AttendanceError;
use conditional::plan::{delete_plan, edit_plan, next_target, step_action, submit_plan, Statement, StepAction};
use conditional::error::StoreError;
use conditional::presence::{presence_batches, roster_batches};
use conditional::query::{events_after, report_dates, AttendanceHit, StatusFilter};
use conditional::schema::{AttendanceStatus, FroshHouseAttendance, MemberHouseAttendance};
use conditional::store::{EventLabel, EventRow};

fn day(y: i32, m: u32, d: u32) -> DateTime {
    CalendarDate::new(y, m, d).at_midnight()
}

fn kinds(plan: &[Statement]) -> Vec<&'static str> {
    plan.iter()
        .map(|s| match s {
            Statement::InsertEvent { .. } => "event",
            Statement::InsertFrosh(_) => "frosh",
            Statement::InsertMembers(_) => "members",
            Statement::DeleteFrosh => "-frosh",
            Statement::DeleteMembers => "-members",
            Statement::DeleteEvent => "-event",
        })
        .collect()
}

#[test]
fn submit_plan_puts_header_first_and_skips_empty_batches() {
    let fr = vec![FroshHouseAttendance { name: 1, att_status: AttendanceStatus::Absent }];
    let mem = vec![MemberHouseAttendance { name: "a".to_string(), att_status: AttendanceStatus::Excused }];
    assert_eq!(kinds(&submit_plan(day(2024, 9, 3), false, EventLabel::Untitled, &fr, &mem)), vec!["event", "frosh", "members"]);
    assert_eq!(kinds(&submit_plan(day(2024, 9, 3), false, EventLabel::Untitled, &vec![], &mem)), vec!["event", "members"]);
    assert_eq!(kinds(&submit_plan(day(2024, 9, 3), true, EventLabel::Untitled, &fr, &vec![])), vec!["event", "frosh"]);
    assert_eq!(kinds(&submit_plan(day(2024, 9, 3), false, EventLabel::Untitled, &vec![], &vec![])), vec!["event"]);
    match &submit_plan(day(2024, 9, 3), true, EventLabel::Untitled, &fr, &mem)[..] {
        [Statement::InsertEvent { occurred_at, approved, label: EventLabel::Untitled }, Statement::InsertFrosh(f), Statement::InsertMembers(m)] => {
            assert_eq!(*occurred_at, day(2024, 9, 3));
            assert!(*approved);
            assert_eq!(*f, fr);
            assert_eq!(m[0].name, "a");
            assert_eq!(m[0].att_status, AttendanceStatus::Excused);
        }
        _ => panic!("unexpected plan"),
    }
}

#[test]
fn edit_plan_deletes_before_inserting() {
    let fr = vec![FroshHouseAttendance { name: 1, att_status: AttendanceStatus::Attended }];
    assert_eq!(kinds(&edit_plan(&fr, &vec![])), vec!["-frosh", "-members", "frosh"]);
    assert_eq!(kinds(&edit_plan(&vec![], &vec![])), vec!["-frosh", "-members"]);
}

#[test]
fn delete_plan_removes_children_before_parent() {
    assert_eq!(kinds(&delete_plan()), vec!["-frosh", "-members", "-event"]);
}

#[test]
fn presence_batches_mark_everyone_attended() {
    let (fr, mem) = presence_batches(&Some(vec![4, 5]), &Some(vec!["x".to_string()])).unwrap();
    assert_eq!(fr, vec![
        FroshHouseAttendance { name: 4, att_status: AttendanceStatus::Attended },
        FroshHouseAttendance { name: 5, att_status: AttendanceStatus::Attended },
    ]);
    assert_eq!(mem.len(), 1);
    assert_eq!(mem[0].name, "x");
    assert_eq!(mem[0].att_status, AttendanceStatus::Attended);
    assert_eq!(presence_batches(&None, &Some(vec![])).unwrap_err(), AttendanceError::MissingField);
    assert_eq!(presence_batches(&Some(vec![]), &None).unwrap_err(), AttendanceError::MissingField);
}

#[test]
fn roster_batches_route_identifiers() {
    let names = vec!["ann".to_string(), "31".to_string()];
    let (fr, mem) = roster_batches(&names).unwrap();
    assert_eq!(fr, vec![FroshHouseAttendance { name: 31, att_status: AttendanceStatus::Attended }]);
    assert_eq!(mem[0].name, "ann");
    assert_eq!(roster_batches(&vec!["".to_string()]).unwrap_err(), AttendanceError::InvalidIdentifier);
}

#[test]
fn report_over_read_rows_filters_and_sorts() {
    let hit = |d: DateTime, approved: bool, status: AttendanceStatus| AttendanceHit { occurred_at: d, approved, status };
    let hits = vec![
        hit(day(2024, 10, 1), true, AttendanceStatus::Absent),
        hit(day(2024, 7, 1), true, AttendanceStatus::Absent),
        hit(day(2024, 9, 1), false, AttendanceStatus::Absent),
        hit(day(2024, 9, 15), true, AttendanceStatus::Excused),
        hit(day(2024, 8, 1), true, AttendanceStatus::Absent),
    ];
    let cutoff = day(2024, 8, 1);
    assert_eq!(report_dates(&hits, &cutoff, StatusFilter::Absent, false), vec![day(2024, 9, 1), day(2024, 10, 1)]);
    assert_eq!(report_dates(&hits, &cutoff, StatusFilter::Absent, true), vec![day(2024, 10, 1)]);
    assert_eq!(
        report_dates(&hits, &cutoff, StatusFilter::NotAttended, false),
        vec![day(2024, 9, 1), day(2024, 9, 15), day(2024, 10, 1)]
    );
    assert_eq!(report_dates(&hits, &cutoff, StatusFilter::Attended, false), vec![]);
    assert_eq!(report_dates(&vec![], &cutoff, StatusFilter::Absent, false), vec![]);
}

#[test]
fn events_after_keeps_later_headers_in_order() {
    let ev = |id: i32, d: DateTime| EventRow { id, occurred_at: d, active: true, approved: false, label: EventLabel::Named(format!("s{id}")) };
    let rows = vec![ev(1, day(2024, 9, 1)), ev(2, day(2024, 8, 1)), ev(3, DateTime::new(CalendarDate::new(2024, 8, 1), 1))];
    let later = events_after(&rows, &day(2024, 8, 1));
    assert_eq!(later.iter().map(|e| e.id).collect::<Vec<_>>(), vec![1, 3]);
    assert!(matches!(&later[1].label, EventLabel::Named(n) if n == "s3"));
}

#[test]
fn moments_order_by_date_then_second() {
    let a = DateTime::new(CalendarDate::new(2024, 1, 31), 86399);
    let b = DateTime::new(CalendarDate::new(2024, 2, 1), 0);
    assert!(a.is_before(&b));
    assert!(b.is_after(&a));
    assert!(!a.is_before(&a));
    assert!(CalendarDate::new(2023, 12, 31).is_before(&CalendarDate::new(2024, 1, 1)));
    assert_eq!(b.day(), CalendarDate::new(2024, 2, 1));
}

#[test]
fn coop_year_turns_over_after_may() {
    assert_eq!(coop_year_floor(CalendarDate::new(2024, 5, 31)), 2023);
    assert_eq!(coop_year_floor(CalendarDate::new(2024, 6, 1)), 2024);
    assert_eq!(coop_year_floor(CalendarDate::new(2024, 1, 1)), 2023);
    assert_eq!(coop_year_floor(CalendarDate::new(2024, 12, 31)), 2024);
    let year = current_coop_year().unwrap();
    assert!(year >= 2024);
    let floor = current_coop_year_floor().unwrap();
    assert!(floor == year || floor == year - 1);
}

#[test]
fn plan_runner_decisions() {
    let header = Statement::InsertEvent { occurred_at: day(2024, 9, 3), approved: false, label: EventLabel::Untitled };
    let rows = Statement::InsertFrosh(vec![FroshHouseAttendance { name: 1, att_status: AttendanceStatus::Absent }]);
    assert_eq!(step_action(&header, None), StepAction::CreateEvent);
    assert_eq!(step_action(&rows, None), StepAction::Refuse(StoreError::ForeignKeyViolation));
    assert_eq!(step_action(&rows, Some(4)), StepAction::Apply(4));
    assert_eq!(step_action(&Statement::DeleteEvent, None), StepAction::Skip);
    assert_eq!(step_action(&Statement::DeleteFrosh, Some(2)), StepAction::Apply(2));
    assert_eq!(next_target(&header, None, Some(9)), Some(9));
    assert_eq!(next_target(&rows, Some(9), None), Some(9));
}

#[test]
fn submit_plan_carries_the_label() {
    match &submit_plan(day(2024, 9, 3), false, EventLabel::Named("Git".to_string()), &vec![], &vec![])[..] {
        [Statement::InsertEvent { label: EventLabel::Named(n), .. }] => assert_eq!(n, "Git"),
        _ => panic!("unexpected plan"),
    }
}
