use vstd::prelude::*;

use crate::date::DateTime;
use crate::engine::{
    delete_event_cascade, delete_spec, edit_attendance, edit_spec, submit_attendance,
    submit_spec,
};
use crate::error::AttendanceError;
use crate::ident::{
    classify_spec, int_spec, frosh_ids, member_names, parse_int, split_attendees,
    string_views,
};
use crate::schema::{AttendanceStatus, FroshHouseAttendance, MemberHouseAttendance};
use crate::store::{EventLabel, EventTables, TableState};

verus! {

// Seminars and committee meetings record who was present: every row they
// write has the status `Attended`.

pub open spec fn attended_frosh(ids: Seq<i32>) -> Seq<FroshHouseAttendance> {
    ids.map_values(|n: i32| FroshHouseAttendance { name: n, att_status: AttendanceStatus::Attended })
}

pub open spec fn attended_members(handles: Seq<String>) -> Seq<MemberHouseAttendance> {
    handles.map_values(
        |h: String| MemberHouseAttendance { name: h, att_status: AttendanceStatus::Attended },
    )
}

pub open spec fn opt_seq<A>(o: Option<Vec<A>>) -> Option<Seq<A>> {
    match o {
        Some(v) => Some(v@),
        None => None,
    }
}

/// A frosh batch of the given ids, all present.
pub fn frosh_present(ids: &Vec<i32>) -> (r: Vec<FroshHouseAttendance>)
    ensures
        r@ == attended_frosh(ids@),
{
    let mut out: Vec<FroshHouseAttendance> = Vec::new();
    let mut i: usize = 0;
    while i < ids.len()
        invariant
            0 <= i <= ids@.len(),
            out@ == attended_frosh(ids@.subrange(0, i as int)),
        decreases ids.len() - i,
    {
        out.push(FroshHouseAttendance { name: ids[i], att_status: AttendanceStatus::Attended });
        i = i + 1;
        assert(out@ =~= attended_frosh(ids@.subrange(0, i as int)));
    }
    assert(ids@.subrange(0, i as int) =~= ids@);
    out
}

/// A member batch of the given handles, all present.
pub fn members_present(handles: &Vec<String>) -> (r: Vec<MemberHouseAttendance>)
    ensures
        r@ == attended_members(handles@),
{
    let mut out: Vec<MemberHouseAttendance> = Vec::new();
    let mut i: usize = 0;
    while i < handles.len()
        invariant
            0 <= i <= handles@.len(),
            out@ == attended_members(handles@.subrange(0, i as int)),
        decreases handles.len() - i,
    {
        out.push(
            MemberHouseAttendance { name: handles[i].clone(), att_status: AttendanceStatus::Attended },
        );
        i = i + 1;
        assert(out@ =~= attended_members(handles@.subrange(0, i as int)));
    }
    assert(handles@.subrange(0, i as int) =~= handles@);
    out
}

/// The two batches of a presence event: both lists must be given.
pub open spec fn batches_spec(frosh: Option<Seq<i32>>, members: Option<Seq<String>>) -> Result<
    (Seq<FroshHouseAttendance>, Seq<MemberHouseAttendance>),
    AttendanceError,
> {
    match (frosh, members) {
        (Some(fr), Some(mem)) => Ok((attended_frosh(fr), attended_members(mem))),
        _ => Err(AttendanceError::MissingField),
    }
}

/// The frosh and member batches of a presence event, everyone present;
/// refused where a list is absent.
pub fn presence_batches(frosh: &Option<Vec<i32>>, members: &Option<Vec<String>>) -> (r: Result<
    (Vec<FroshHouseAttendance>, Vec<MemberHouseAttendance>),
    AttendanceError,
>)
    ensures
        match batches_spec(opt_seq(*frosh), opt_seq(*members)) {
            Ok((fr, mem)) => r matches Ok((a, b)) && a@ == fr && b@ == mem,
            Err(e) => r == Err::<(Vec<FroshHouseAttendance>, Vec<MemberHouseAttendance>), AttendanceError>(e),
        },
{
    match (frosh, members) {
        (Some(fr), Some(mem)) => Ok((frosh_present(fr), members_present(mem))),
        _ => Err(AttendanceError::MissingField),
    }
}

/// The frosh and member batches of a list of identifiers, each routed to its
/// population and present; refused where one of them is invalid.
pub fn roster_batches(names: &Vec<String>) -> (r: Result<
    (Vec<FroshHouseAttendance>, Vec<MemberHouseAttendance>),
    AttendanceError,
>)
    ensures
        roster_valid(string_views(names@)) ==> (r matches Ok((a, b)) && a@ == attended_frosh(
            frosh_ids(string_views(names@)),
        ) && b@ == attended_members(member_names(names@))),
        !roster_valid(string_views(names@)) ==> r == Err::<
            (Vec<FroshHouseAttendance>, Vec<MemberHouseAttendance>),
            AttendanceError,
        >(AttendanceError::InvalidIdentifier),
{
    match split_attendees(names) {
        Ok((fr, mem)) => {
            proof {
                let v = string_views(names@);
                assert forall|i: int| 0 <= i < v.len() implies (#[trigger] classify_spec(v[i])) is Some by {
                    assert(v[i] == names@[i]@);
                }
            }
            Ok((frosh_present(&fr), members_present(&mem)))
        },
        Err(e) => {
            proof {
                let v = string_views(names@);
                let i = choose|i: int| 0 <= i < names@.len() && !(classify_spec(names@[i]@) is Some);
                assert(v[i] == names@[i]@);
            }
            Err(e)
        },
    }
}

/// Submitting a presence event: both lists must be given.
pub open spec fn presence_submit_spec(
    t: TableState,
    at: DateTime,
    label: EventLabel,
    frosh: Option<Seq<i32>>,
    members: Option<Seq<String>>,
) -> Result<(TableState, i32), AttendanceError> {
    match (frosh, members) {
        (Some(fr), Some(mem)) => match submit_spec(
            t,
            at,
            false,
            label,
            attended_frosh(fr),
            attended_members(mem),
        ) {
            Ok(res) => Ok(res),
            Err(e) => Err(AttendanceError::Store(e)),
        },
        _ => Err(AttendanceError::MissingField),
    }
}

/// Editing a presence event: both lists must be given, then the id must read
/// as a number.
pub open spec fn presence_edit_spec(
    t: TableState,
    id: Seq<char>,
    frosh: Option<Seq<i32>>,
    members: Option<Seq<String>>,
) -> Result<TableState, AttendanceError> {
    match (frosh, members) {
        (Some(fr), Some(mem)) => match int_spec(id) {
            None => Err(AttendanceError::InvalidIdentifier),
            Some(n) => match edit_spec(t, n, attended_frosh(fr), attended_members(mem)) {
                Ok(t2) => Ok(t2),
                Err(e) => Err(AttendanceError::Store(e)),
            },
        },
        _ => Err(AttendanceError::MissingField),
    }
}

/// Every identifier of the list names an attendee.
pub open spec fn roster_valid(names: Seq<Seq<char>>) -> bool {
    forall|i: int| 0 <= i < names.len() ==> (#[trigger] classify_spec(names[i])) is Some
}

/// Replacing a presence event's attendance by a list of identifiers, each
/// routed to its population.
pub open spec fn roster_edit_spec(t: TableState, id: Seq<char>, names: Seq<String>) -> Result<
    TableState,
    AttendanceError,
> {
    match int_spec(id) {
        None => Err(AttendanceError::InvalidIdentifier),
        Some(n) => if !roster_valid(string_views(names)) {
            Err(AttendanceError::InvalidIdentifier)
        } else {
            match edit_spec(
                t,
                n,
                attended_frosh(frosh_ids(string_views(names))),
                attended_members(member_names(names)),
            ) {
                Ok(t2) => Ok(t2),
                Err(e) => Err(AttendanceError::Store(e)),
            }
        },
    }
}

/// Deleting an event named by an id that must read as a number.
pub open spec fn delete_by_id_spec(t: TableState, id: Seq<char>) -> Result<
    TableState,
    AttendanceError,
> {
    match int_spec(id) {
        None => Err(AttendanceError::InvalidIdentifier),
        Some(n) => match delete_spec(t, n) {
            Ok(t2) => Ok(t2),
            Err(e) => Err(AttendanceError::Store(e)),
        },
    }
}

/// Records an event at which the listed frosh and members were present.
pub fn submit_presence(
    store: &mut EventTables,
    at: DateTime,
    label: EventLabel,
    frosh: &Option<Vec<i32>>,
    members: &Option<Vec<String>>,
) -> (r: Result<i32, AttendanceError>)
    requires
        old(store).wf(),
    ensures
        final(store).wf(),
        match presence_submit_spec(old(store)@, at, label, opt_seq(*frosh), opt_seq(*members)) {
            Ok((t, id)) => r == Ok::<i32, AttendanceError>(id) && final(store)@ == t,
            Err(e) => r == Err::<i32, AttendanceError>(e) && final(store)@ == old(store)@,
        },
{
    match presence_batches(frosh, members) {
        Ok((fr_rows, mem_rows)) => submit_attendance(store, at, false, label, &fr_rows, &mem_rows),
        Err(e) => Err(e),
    }
}

/// Replaces the attendance of the event with id `id` by the listed frosh and
/// members, all present.
pub fn edit_presence(
    store: &mut EventTables,
    id: &str,
    frosh: &Option<Vec<i32>>,
    members: &Option<Vec<String>>,
) -> (r: Result<(), AttendanceError>)
    requires
        old(store).wf(),
    ensures
        final(store).wf(),
        match presence_edit_spec(old(store)@, id@, opt_seq(*frosh), opt_seq(*members)) {
            Ok(t) => r is Ok && final(store)@ == t,
            Err(e) => r == Err::<(), AttendanceError>(e) && final(store)@ == old(store)@,
        },
{
    match presence_batches(frosh, members) {
        Ok((fr_rows, mem_rows)) => match parse_int(id) {
            Some(n) => edit_attendance(store, n, &fr_rows, &mem_rows),
            None => Err(AttendanceError::InvalidIdentifier),
        },
        Err(e) => Err(e),
    }
}

/// Replaces the attendance of the event with id `id` by a list of
/// identifiers, each routed to its population by [`crate::ident::classify`].
pub fn edit_roster(store: &mut EventTables, id: &str, names: &Vec<String>) -> (r: Result<
    (),
    AttendanceError,
>)
    requires
        old(store).wf(),
    ensures
        final(store).wf(),
        match roster_edit_spec(old(store)@, id@, names@) {
            Ok(t) => r is Ok && final(store)@ == t,
            Err(e) => r == Err::<(), AttendanceError>(e) && final(store)@ == old(store)@,
        },
{
    let n = match parse_int(id) {
        Some(n) => n,
        None => return Err(AttendanceError::InvalidIdentifier),
    };
    match roster_batches(names) {
        Ok((fr_rows, mem_rows)) => edit_attendance(store, n, &fr_rows, &mem_rows),
        Err(e) => Err(e),
    }
}

/// Deletes the event with id `id` and all of its attendance.
pub fn delete_by_id(store: &mut EventTables, id: &str) -> (r: Result<(), AttendanceError>)
    requires
        old(store).wf(),
    ensures
        final(store).wf(),
        match delete_by_id_spec(old(store)@, id@) {
            Ok(t) => r is Ok && final(store)@ == t,
            Err(e) => r == Err::<(), AttendanceError>(e) && final(store)@ == old(store)@,
        },
{
    match parse_int(id) {
        Some(n) => delete_event_cascade(store, n),
        None => Err(AttendanceError::InvalidIdentifier),
    }
}

} // verus!
