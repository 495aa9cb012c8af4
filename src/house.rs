use vstd::prelude::*;

use crate::date::DateTime;
use crate::engine::{
    delete_event_cascade, delete_spec, edit_attendance, edit_spec, query_by_attendee,
    submit_attendance, submit_spec,
};
use crate::error::AttendanceError;
use crate::ident::{classify_spec, int_spec, parse_int};
use crate::query::{StatusFilter, attendance_dates, sorted_times};
use crate::schema::HouseAttendance;
use crate::store::{EventLabel, EventTables};

verus! {

/// The moment a house meeting is recorded at: the first moment of its day.
pub open spec fn meeting_time(body: HouseAttendance) -> DateTime {
    DateTime { date: body.date, second: 0 }
}

/// The cutoff of house meeting reports: house meetings carry a date only, so
/// a meeting counts when its day is after the day of `year_start`.
pub open spec fn house_cutoff(year_start: DateTime) -> DateTime {
    DateTime { date: year_start.date, second: 0 }
}

/// Records a house meeting with the status of every frosh and member, as one
/// transaction, and returns the meeting's id.
pub fn submit_hm_attendance(store: &mut EventTables, body: &HouseAttendance) -> (r: Result<
    i32,
    AttendanceError,
>)
    requires
        old(store).wf(),
    ensures
        final(store).wf(),
        match submit_spec(
            old(store)@,
            meeting_time(*body),
            false,
            EventLabel::Untitled,
            body.frosh@,
            body.members@,
        ) {
            Ok((t, id)) => r == Ok::<i32, AttendanceError>(id) && final(store)@ == t,
            Err(e) => r == Err::<i32, AttendanceError>(AttendanceError::Store(e)),
        },
        r is Err ==> final(store)@ == old(store)@,
{
    submit_attendance(
        store,
        body.date.at_midnight(),
        false,
        EventLabel::Untitled,
        &body.frosh,
        &body.members,
    )
}

/// Replaces the attendance of the house meeting with id `id` by the statuses
/// of `body`.
pub fn edit_hm_attendance(store: &mut EventTables, id: &str, body: &HouseAttendance) -> (r:
    Result<(), AttendanceError>)
    requires
        old(store).wf(),
    ensures
        final(store).wf(),
        match int_spec(id@) {
            None => r == Err::<(), AttendanceError>(AttendanceError::InvalidIdentifier),
            Some(n) => match edit_spec(old(store)@, n, body.frosh@, body.members@) {
                Ok(t) => r is Ok && final(store)@ == t,
                Err(e) => r == Err::<(), AttendanceError>(AttendanceError::Store(e)),
            },
        },
        r is Err ==> final(store)@ == old(store)@,
{
    match parse_int(id) {
        Some(n) => edit_attendance(store, n, &body.frosh, &body.members),
        None => Err(AttendanceError::InvalidIdentifier),
    }
}

/// Deletes the house meeting with id `id` and all of its attendance.
pub fn delete_hm(store: &mut EventTables, id: &str) -> (r: Result<(), AttendanceError>)
    requires
        old(store).wf(),
    ensures
        final(store).wf(),
        match int_spec(id@) {
            None => r == Err::<(), AttendanceError>(AttendanceError::InvalidIdentifier),
            Some(n) => match delete_spec(old(store)@, n) {
                Ok(t) => r is Ok && final(store)@ == t,
                Err(e) => r == Err::<(), AttendanceError>(AttendanceError::Store(e)),
            },
        },
        r is Err ==> final(store)@ == old(store)@,
{
    match parse_int(id) {
        Some(n) => delete_event_cascade(store, n),
        None => Err(AttendanceError::InvalidIdentifier),
    }
}

/// The house meetings after the day of `year_start` at which `user` was
/// absent, earliest first.
pub fn get_hm_absences_by_user(store: &EventTables, user: &str, year_start: &DateTime) -> (r:
    Result<Vec<DateTime>, AttendanceError>)
    requires
        store.wf(),
    ensures
        match classify_spec(user@) {
            None => r == Err::<Vec<DateTime>, AttendanceError>(
                AttendanceError::InvalidIdentifier,
            ),
            Some(who) => r is Ok && sorted_times(r->Ok_0@) && r->Ok_0@.to_multiset()
                == attendance_dates(
                store@,
                who,
                house_cutoff(*year_start),
                StatusFilter::Absent,
                false,
            ).to_multiset(),
        },
{
    let cutoff = year_start.day().at_midnight();
    query_by_attendee(store, user, &cutoff, StatusFilter::Absent, false)
}

/// The house meetings after the day of `year_start` that `user` did not
/// attend (absent or excused), earliest first.
pub fn get_hm_attendance_by_user_evals(
    store: &EventTables,
    user: &str,
    year_start: &DateTime,
) -> (r: Result<Vec<DateTime>, AttendanceError>)
    requires
        store.wf(),
    ensures
        match classify_spec(user@) {
            None => r == Err::<Vec<DateTime>, AttendanceError>(
                AttendanceError::InvalidIdentifier,
            ),
            Some(who) => r is Ok && sorted_times(r->Ok_0@) && r->Ok_0@.to_multiset()
                == attendance_dates(
                store@,
                who,
                house_cutoff(*year_start),
                StatusFilter::NotAttended,
                false,
            ).to_multiset(),
        },
{
    let cutoff = year_start.day().at_midnight();
    query_by_attendee(store, user, &cutoff, StatusFilter::NotAttended, false)
}

} // verus!
