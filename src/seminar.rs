use vstd::prelude::*;

use crate::date::DateTime;
use crate::engine::query_by_attendee;
use crate::error::AttendanceError;
use crate::ident::classify_spec;
use crate::presence::{
    delete_by_id, delete_by_id_spec, edit_roster, opt_seq, presence_submit_spec, roster_edit_spec,
    submit_presence,
};
use crate::query::{
    EventListing, StatusFilter, attendance_dates, later_events, list_events, listing_of, sorted_times,
};
use crate::schema::Seminar;
use crate::store::{EventLabel, EventTables};

verus! {

/// Records a technical seminar with the frosh and members who attended it, as one
/// transaction, and returns its id. The meeting starts unapproved; both
/// attendee lists must be given.
pub fn submit_seminar_attendance(store: &mut EventTables, body: &Seminar) -> (r: Result<
    i32,
    AttendanceError,
>)
    requires
        old(store).wf(),
    ensures
        final(store).wf(),
        match presence_submit_spec(
            old(store)@,
            body.timestamp,
            EventLabel::Named(body.name),
            opt_seq(body.frosh),
            opt_seq(body.members),
        ) {
            Ok((t, id)) => r == Ok::<i32, AttendanceError>(id) && final(store)@ == t,
            Err(e) => r == Err::<i32, AttendanceError>(e) && final(store)@ == old(store)@,
        },
{
    submit_presence(store, body.timestamp, EventLabel::Named(body.name.clone()), &body.frosh, &body.members)
}

/// Replaces the attendance of the technical seminar with id `id` by the
/// lists of `body`, which must both be given.
pub fn edit_seminar_attendance(store: &mut EventTables, id: &str, body: &Seminar) -> (r: Result<
    (),
    AttendanceError,
>)
    requires
        old(store).wf(),
    ensures
        final(store).wf(),
        match crate::presence::presence_edit_spec(
            old(store)@,
            id@,
            opt_seq(body.frosh),
            opt_seq(body.members),
        ) {
            Ok(t) => r is Ok && final(store)@ == t,
            Err(e) => r == Err::<(), AttendanceError>(e) && final(store)@ == old(store)@,
        },
{
    crate::presence::edit_presence(store, id, &body.frosh, &body.members)
}

/// Replaces the attendance of the technical seminar with id `id` by a list of
/// usernames and frosh ids, each routed to its population.
pub fn put_seminar(store: &mut EventTables, id: &str, usernames: &Vec<String>) -> (r: Result<
    (),
    AttendanceError,
>)
    requires
        old(store).wf(),
    ensures
        final(store).wf(),
        match roster_edit_spec(old(store)@, id@, usernames@) {
            Ok(t) => r is Ok && final(store)@ == t,
            Err(e) => r == Err::<(), AttendanceError>(e) && final(store)@ == old(store)@,
        },
{
    edit_roster(store, id, usernames)
}

/// Deletes the technical seminar with id `id` and all of its attendance.
pub fn delete_seminar(store: &mut EventTables, id: &str) -> (r: Result<(), AttendanceError>)
    requires
        old(store).wf(),
    ensures
        final(store).wf(),
        match delete_by_id_spec(old(store)@, id@) {
            Ok(t) => r is Ok && final(store)@ == t,
            Err(e) => r == Err::<(), AttendanceError>(e) && final(store)@ == old(store)@,
        },
{
    delete_by_id(store, id)
}

/// The approved technical seminars after `year_start` that `user` attended, earliest
/// first.
pub fn get_seminars_by_user(store: &EventTables, user: &str, year_start: &DateTime) -> (r: Result<
    Vec<DateTime>,
    AttendanceError,
>)
    requires
        store.wf(),
    ensures
        match classify_spec(user@) {
            None => r == Err::<Vec<DateTime>, AttendanceError>(
                AttendanceError::InvalidIdentifier,
            ),
            Some(who) => r is Ok && sorted_times(r->Ok_0@) && r->Ok_0@.to_multiset()
                == attendance_dates(store@, who, *year_start, StatusFilter::Attended, true).to_multiset(),
        },
{
    query_by_attendee(store, user, year_start, StatusFilter::Attended, true)
}

/// Every technical seminar after `year_start`, in table order, with the frosh and members recorded for each.
pub fn get_seminars(store: &EventTables, year_start: &DateTime) -> (r: Vec<EventListing>)
    ensures
        r@.len() == later_events(store@.events, *year_start).len(),
        forall|i: int|
            0 <= i < r@.len() ==> listing_of(
                #[trigger] r@[i],
                later_events(store@.events, *year_start)[i],
                store@,
            ),
{
    list_events(store, year_start)
}

} // verus!
