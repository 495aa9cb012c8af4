use vstd::prelude::*;

use crate::date::DateTime;
use crate::error::{AttendanceError, StoreError};
use crate::ident::{classify, classify_spec};
use crate::query::{StatusFilter, attendance_dates, attendance_dates_of, sorted_times};
use crate::schema::{FroshHouseAttendance, MemberHouseAttendance};
use crate::store::{EventLabel, EventTables, TableState};

verus! {

broadcast use vstd::seq_lib::group_filter_ensures;

/// An open transaction: a working copy of the tables. Every statement runs on
/// the copy; [`Transaction::commit`] makes it the stored state, and dropping
/// the transaction instead discards it, so nothing of an unfinished sequence is
/// ever observable.
pub struct Transaction {
    work: EventTables,
}

impl Transaction {
    pub closed spec fn state(&self) -> TableState {
        self.work@
    }

    pub closed spec fn wf(&self) -> bool {
        self.work.wf()
    }

    pub fn begin(store: &EventTables) -> (r: Transaction)
        requires
            store.wf(),
        ensures
            r.wf(),
            r.state() == store@,
    {
        Transaction { work: store.snapshot() }
    }

    pub fn insert_event(&mut self, occurred_at: DateTime, approved: bool, label: EventLabel) -> (r:
        Result<i32, StoreError>)
        requires
            old(self).wf(),
        ensures
            final(self).wf(),
            match old(self).state().insert_event(occurred_at, approved, label) {
                Ok((t, id)) => r == Ok::<i32, StoreError>(id) && final(self).state() == t,
                Err(e) => r == Err::<i32, StoreError>(e),
            },
    {
        self.work.insert_event(occurred_at, approved, label)
    }

    /// The bulk frosh insert of a batch; an empty batch issues no statement.
    pub fn write_frosh(&mut self, event_id: i32, rows: &Vec<FroshHouseAttendance>) -> (r: Result<
        (),
        StoreError,
    >)
        requires
            old(self).wf(),
        ensures
            final(self).wf(),
            match old(self).state().insert_frosh(event_id, rows@) {
                Ok(t) => r is Ok && final(self).state() == t,
                Err(e) => r == Err::<(), StoreError>(e),
            },
    {
        if rows.len() == 0 {
            return Ok(());
        }
        self.work.insert_frosh(event_id, rows)
    }

    /// The bulk member insert of a batch; an empty batch issues no statement.
    pub fn write_members(&mut self, event_id: i32, rows: &Vec<MemberHouseAttendance>) -> (r:
        Result<(), StoreError>)
        requires
            old(self).wf(),
        ensures
            final(self).wf(),
            match old(self).state().insert_members(event_id, rows@) {
                Ok(t) => r is Ok && final(self).state() == t,
                Err(e) => r == Err::<(), StoreError>(e),
            },
    {
        if rows.len() == 0 {
            return Ok(());
        }
        self.work.insert_members(event_id, rows)
    }

    /// Deletes every attendance row of an event, in both tables.
    pub fn clear_attendance(&mut self, event_id: i32)
        requires
            old(self).wf(),
        ensures
            final(self).wf(),
            final(self).state() == old(self).state().delete_frosh(event_id).delete_members(
                event_id,
            ),
    {
        self.work.delete_frosh(event_id);
        self.work.delete_members(event_id);
    }

    pub fn delete_event(&mut self, event_id: i32) -> (r: Result<(), StoreError>)
        requires
            old(self).wf(),
        ensures
            final(self).wf(),
            match old(self).state().delete_event(event_id) {
                Ok(t) => r is Ok && final(self).state() == t,
                Err(e) => r == Err::<(), StoreError>(e),
            },
    {
        self.work.delete_event(event_id)
    }

    /// Makes the working copy the stored state.
    pub fn commit(self, store: &mut EventTables)
        requires
            self.wf(),
        ensures
            final(store).wf(),
            final(store)@ == self.state(),
    {
        *store = self.work;
    }
}

/// Submitting an event: its header, then its frosh batch, then its member
/// batch, as one sequence.
pub open spec fn submit_spec(
    t: TableState,
    occurred_at: DateTime,
    approved: bool,
    label: EventLabel,
    frosh: Seq<FroshHouseAttendance>,
    members: Seq<MemberHouseAttendance>,
) -> Result<(TableState, i32), StoreError> {
    match t.insert_event(occurred_at, approved, label) {
        Err(e) => Err(e),
        Ok((t1, id)) => match t1.insert_frosh(id, frosh) {
            Err(e) => Err(e),
            Ok(t2) => match t2.insert_members(id, members) {
                Err(e) => Err(e),
                Ok(t3) => Ok((t3, id)),
            },
        },
    }
}

/// Editing an event's attendance: both of its batches are deleted, then the
/// new ones are written.
pub open spec fn edit_spec(
    t: TableState,
    event_id: i32,
    frosh: Seq<FroshHouseAttendance>,
    members: Seq<MemberHouseAttendance>,
) -> Result<TableState, StoreError> {
    let t1 = t.delete_frosh(event_id).delete_members(event_id);
    match t1.insert_frosh(event_id, frosh) {
        Err(e) => Err(e),
        Ok(t2) => t2.insert_members(event_id, members),
    }
}

/// Deleting an event: its attendance rows first, then its header.
pub open spec fn delete_spec(t: TableState, event_id: i32) -> Result<TableState, StoreError> {
    t.delete_frosh(event_id).delete_members(event_id).delete_event(event_id)
}

/// Creates an event and its whole attendance set in one transaction and
/// returns the generated event id. Either all of it is stored or, on the first
/// failing statement, none of it.
pub fn submit_attendance(
    store: &mut EventTables,
    occurred_at: DateTime,
    approved: bool,
    label: EventLabel,
    frosh: &Vec<FroshHouseAttendance>,
    members: &Vec<MemberHouseAttendance>,
) -> (r: Result<i32, AttendanceError>)
    requires
        old(store).wf(),
    ensures
        final(store).wf(),
        match submit_spec(old(store)@, occurred_at, approved, label, frosh@, members@) {
            Ok((t, id)) => r == Ok::<i32, AttendanceError>(id) && final(store)@ == t,
            Err(e) => r == Err::<i32, AttendanceError>(AttendanceError::Store(e)),
        },
        r is Err ==> final(store)@ == old(store)@,
{
    let mut tx = Transaction::begin(store);
    let id = match tx.insert_event(occurred_at, approved, label) {
        Ok(id) => id,
        Err(e) => return Err(AttendanceError::Store(e)),
    };
    match tx.write_frosh(id, frosh) {
        Ok(()) => {},
        Err(e) => return Err(AttendanceError::Store(e)),
    }
    match tx.write_members(id, members) {
        Ok(()) => {},
        Err(e) => return Err(AttendanceError::Store(e)),
    }
    tx.commit(store);
    Ok(id)
}

/// Replaces the attendance set of an event in one transaction: both
/// batches are deleted, then the new ones written.
pub fn edit_attendance(
    store: &mut EventTables,
    event_id: i32,
    frosh: &Vec<FroshHouseAttendance>,
    members: &Vec<MemberHouseAttendance>,
) -> (r: Result<(), AttendanceError>)
    requires
        old(store).wf(),
    ensures
        final(store).wf(),
        match edit_spec(old(store)@, event_id, frosh@, members@) {
            Ok(t) => r is Ok && final(store)@ == t,
            Err(e) => r == Err::<(), AttendanceError>(AttendanceError::Store(e)),
        },
        r is Err ==> final(store)@ == old(store)@,
{
    let mut tx = Transaction::begin(store);
    tx.clear_attendance(event_id);
    match tx.write_frosh(event_id, frosh) {
        Ok(()) => {},
        Err(e) => return Err(AttendanceError::Store(e)),
    }
    match tx.write_members(event_id, members) {
        Ok(()) => {},
        Err(e) => return Err(AttendanceError::Store(e)),
    }
    tx.commit(store);
    Ok(())
}

/// Deletes an event and every attendance row of it in one transaction.
pub fn delete_event_cascade(store: &mut EventTables, event_id: i32) -> (r: Result<
    (),
    AttendanceError,
>)
    requires
        old(store).wf(),
    ensures
        final(store).wf(),
        match delete_spec(old(store)@, event_id) {
            Ok(t) => r is Ok && final(store)@ == t,
            Err(e) => r == Err::<(), AttendanceError>(AttendanceError::Store(e)),
        },
        r is Err ==> final(store)@ == old(store)@,
{
    let mut tx = Transaction::begin(store);
    tx.clear_attendance(event_id);
    match tx.delete_event(event_id) {
        Ok(()) => {},
        Err(e) => return Err(AttendanceError::Store(e)),
    }
    tx.commit(store);
    Ok(())
}

/// The dates of the events after `cutoff` (approved ones only, where
/// `approved_only`) at which the attendee that `identifier` names has a status
/// that `f` accepts, earliest first. An invalid identifier is refused before
/// the tables are read.
pub fn query_by_attendee(
    store: &EventTables,
    identifier: &str,
    cutoff: &DateTime,
    f: StatusFilter,
    approved_only: bool,
) -> (r: Result<Vec<DateTime>, AttendanceError>)
    requires
        store.wf(),
    ensures
        match classify_spec(identifier@) {
            None => r == Err::<Vec<DateTime>, AttendanceError>(
                AttendanceError::InvalidIdentifier,
            ),
            Some(who) => r is Ok && sorted_times(r->Ok_0@) && r->Ok_0@.to_multiset()
                == attendance_dates(store@, who, *cutoff, f, approved_only).to_multiset(),
        },
{
    match classify(identifier) {
        Ok(who) => Ok(attendance_dates_of(store, &who, cutoff, f, approved_only)),
        Err(e) => Err(e),
    }
}

} // verus!
