use vstd::prelude::*;

use crate::date::DateTime;
use crate::error::StoreError;
use crate::schema::{AttendanceStatus, CommitteeType, FroshHouseAttendance, MemberHouseAttendance};

verus! {

broadcast use vstd::seq_lib::group_filter_ensures;

/// What names an event besides its id: a seminar's name, or the committee
/// that met; house meetings carry none.
#[derive(Debug)]
pub enum EventLabel {
    Untitled,
    Named(String),
    Committee(CommitteeType),
}

impl EventLabel {
    /// A copy of this label.
    pub fn duplicate(&self) -> (r: EventLabel)
        ensures
            r == *self,
    {
        match self {
            EventLabel::Untitled => EventLabel::Untitled,
            EventLabel::Named(n) => EventLabel::Named(n.clone()),
            EventLabel::Committee(c) => EventLabel::Committee(*c),
        }
    }
}

/// The header row of one event.
#[derive(Debug)]
pub struct EventRow {
    pub id: i32,
    pub occurred_at: DateTime,
    pub active: bool,
    pub approved: bool,
    pub label: EventLabel,
}

impl EventRow {
    /// A copy of this row.
    pub fn duplicate(&self) -> (r: EventRow)
        ensures
            r == *self,
    {
        EventRow {
            id: self.id,
            occurred_at: self.occurred_at,
            active: self.active,
            approved: self.approved,
            label: self.label.duplicate(),
        }
    }
}

/// One row of the frosh attendance table.
#[derive(Clone, Copy, Debug, PartialEq, Eq, Structural)]
pub struct FroshRow {
    pub event_id: i32,
    pub fid: i32,
    pub status: AttendanceStatus,
}

/// One row of the member attendance table.
#[derive(Debug)]
pub struct MemberRow {
    pub event_id: i32,
    pub uid: String,
    pub status: AttendanceStatus,
}

impl MemberRow {
    /// A copy of this row.
    pub fn duplicate(&self) -> (r: MemberRow)
        ensures
            r == *self,
    {
        MemberRow { event_id: self.event_id, uid: self.uid.clone(), status: self.status }
    }
}

/// The contents of the three tables of one event kind.
pub struct TableState {
    pub events: Seq<EventRow>,
    pub frosh: Seq<FroshRow>,
    pub members: Seq<MemberRow>,
    pub next_id: i32,
}

pub open spec fn has_event(events: Seq<EventRow>, id: i32) -> bool {
    exists|i: int| 0 <= i < events.len() && (#[trigger] events[i]).id == id
}

pub open spec fn event_ids_unique(events: Seq<EventRow>) -> bool {
    forall|i: int, j: int|
        0 <= i < events.len() && 0 <= j < events.len() && i != j ==> (#[trigger] events[i]).id
            != (#[trigger] events[j]).id
}

pub open spec fn frosh_unique(s: Seq<FroshRow>) -> bool {
    forall|i: int, j: int|
        0 <= i < s.len() && 0 <= j < s.len() && i != j ==> !((#[trigger] s[i]).event_id
            == (#[trigger] s[j]).event_id && s[i].fid == s[j].fid)
}

pub open spec fn members_unique(s: Seq<MemberRow>) -> bool {
    forall|i: int, j: int|
        0 <= i < s.len() && 0 <= j < s.len() && i != j ==> !((#[trigger] s[i]).event_id
            == (#[trigger] s[j]).event_id && s[i].uid@ == s[j].uid@)
}

/// The rows that a frosh batch for `event_id` adds, in payload order.
pub open spec fn frosh_rows(event_id: i32, entries: Seq<FroshHouseAttendance>) -> Seq<FroshRow> {
    entries.map_values(
        |e: FroshHouseAttendance| FroshRow { event_id, fid: e.name, status: e.att_status },
    )
}

/// The rows that a member batch for `event_id` adds, in payload order.
pub open spec fn member_rows(event_id: i32, entries: Seq<MemberHouseAttendance>) -> Seq<
    MemberRow,
> {
    entries.map_values(
        |e: MemberHouseAttendance| MemberRow { event_id, uid: e.name, status: e.att_status },
    )
}

pub open spec fn not_of_event_frosh(event_id: i32) -> spec_fn(FroshRow) -> bool {
    |r: FroshRow| r.event_id != event_id
}

pub open spec fn not_of_event_member(event_id: i32) -> spec_fn(MemberRow) -> bool {
    |r: MemberRow| r.event_id != event_id
}

pub open spec fn not_event(event_id: i32) -> spec_fn(EventRow) -> bool {
    |r: EventRow| r.id != event_id
}

pub open spec fn approval_update(event_id: i32, approved: bool) -> spec_fn(EventRow) -> EventRow {
    |e: EventRow| if e.id == event_id { EventRow { approved, ..e } } else { e }
}

impl TableState {
    /// The store's own invariant: ids are unique and below the next one to be
    /// generated, every attendance row refers to an existing event, and no
    /// attendance table holds a key `(event_id, attendee)` twice.
    pub open spec fn wf(self) -> bool {
        &&& self.next_id >= 1
        &&& event_ids_unique(self.events)
        &&& forall|i: int|
            0 <= i < self.events.len() ==> 1 <= (#[trigger] self.events[i]).id < self.next_id
        &&& forall|i: int|
            0 <= i < self.frosh.len() ==> has_event(self.events, (#[trigger] self.frosh[i]).event_id)
        &&& forall|i: int|
            0 <= i < self.members.len() ==> has_event(
                self.events,
                (#[trigger] self.members[i]).event_id,
            )
        &&& frosh_unique(self.frosh)
        &&& members_unique(self.members)
    }

    /// Inserting an event header: it gets the next generated id.
    pub open spec fn insert_event(
        self,
        occurred_at: DateTime,
        approved: bool,
        label: EventLabel,
    ) -> Result<
        (TableState, i32),
        StoreError,
    > {
        if self.next_id == i32::MAX {
            Err(StoreError::IdExhausted)
        } else {
            Ok(
                (
                    TableState {
                        events: self.events.push(
                            EventRow {
                                id: self.next_id,
                                occurred_at,
                                active: true,
                                approved,
                                label,
                            },
                        ),
                        next_id: (self.next_id + 1) as i32,
                        ..self
                    },
                    self.next_id,
                ),
            )
        }
    }

    /// One set-oriented insert into the frosh table.
    pub open spec fn insert_frosh(self, event_id: i32, entries: Seq<FroshHouseAttendance>) -> Result<
        TableState,
        StoreError,
    > {
        if entries.len() == 0 {
            Ok(self)
        } else if !has_event(self.events, event_id) {
            Err(StoreError::ForeignKeyViolation)
        } else if !frosh_unique(self.frosh + frosh_rows(event_id, entries)) {
            Err(StoreError::UniqueViolation)
        } else {
            Ok(TableState { frosh: self.frosh + frosh_rows(event_id, entries), ..self })
        }
    }

    /// One set-oriented insert into the member table.
    pub open spec fn insert_members(
        self,
        event_id: i32,
        entries: Seq<MemberHouseAttendance>,
    ) -> Result<TableState, StoreError> {
        if entries.len() == 0 {
            Ok(self)
        } else if !has_event(self.events, event_id) {
            Err(StoreError::ForeignKeyViolation)
        } else if !members_unique(self.members + member_rows(event_id, entries)) {
            Err(StoreError::UniqueViolation)
        } else {
            Ok(TableState { members: self.members + member_rows(event_id, entries), ..self })
        }
    }

    /// Deleting every frosh row of an event.
    pub open spec fn delete_frosh(self, event_id: i32) -> TableState {
        TableState { frosh: self.frosh.filter(not_of_event_frosh(event_id)), ..self }
    }

    /// Deleting every member row of an event.
    pub open spec fn delete_members(self, event_id: i32) -> TableState {
        TableState { members: self.members.filter(not_of_event_member(event_id)), ..self }
    }

    /// Setting the approval flag of the event with this id.
    pub open spec fn set_approved(self, event_id: i32, approved: bool) -> TableState {
        TableState { events: self.events.map_values(approval_update(event_id, approved)), ..self }
    }

    /// Deleting an event header, refused while attendance rows still refer to it.
    pub open spec fn delete_event(self, event_id: i32) -> Result<TableState, StoreError> {
        if exists|i: int| 0 <= i < self.frosh.len() && (#[trigger] self.frosh[i]).event_id == event_id {
            Err(StoreError::ForeignKeyViolation)
        } else if exists|i: int|
            0 <= i < self.members.len() && (#[trigger] self.members[i]).event_id == event_id {
            Err(StoreError::ForeignKeyViolation)
        } else {
            Ok(TableState { events: self.events.filter(not_event(event_id)), ..self })
        }
    }
}

fn frosh_key_taken(rows: &Vec<FroshRow>, event_id: i32, fid: i32) -> (r: bool)
    ensures
        r == exists|k: int|
            0 <= k < rows@.len() && (#[trigger] rows@[k]).event_id == event_id && rows@[k].fid
                == fid,
{
    let mut j: usize = 0;
    while j < rows.len()
        invariant
            0 <= j <= rows@.len(),
            forall|k: int|
                0 <= k < j ==> !((#[trigger] rows@[k]).event_id == event_id && rows@[k].fid == fid),
        decreases rows.len() - j,
    {
        if rows[j].event_id == event_id && rows[j].fid == fid {
            return true;
        }
        j = j + 1;
    }
    false
}

fn member_key_taken(rows: &Vec<MemberRow>, event_id: i32, uid: &String) -> (r: bool)
    ensures
        r == exists|k: int|
            0 <= k < rows@.len() && (#[trigger] rows@[k]).event_id == event_id && rows@[k].uid@
                == uid@,
{
    let mut j: usize = 0;
    while j < rows.len()
        invariant
            0 <= j <= rows@.len(),
            forall|k: int|
                0 <= k < j ==> !((#[trigger] rows@[k]).event_id == event_id && rows@[k].uid@
                    == uid@),
        decreases rows.len() - j,
    {
        if rows[j].event_id == event_id && rows[j].uid == *uid {
            return true;
        }
        j = j + 1;
    }
    false
}

fn copy_member_rows(rows: &Vec<MemberRow>) -> (r: Vec<MemberRow>)
    ensures
        r@ == rows@,
{
    let mut out: Vec<MemberRow> = Vec::new();
    let mut i: usize = 0;
    while i < rows.len()
        invariant
            0 <= i <= rows@.len(),
            out@ == rows@.subrange(0, i as int),
        decreases rows.len() - i,
    {
        out.push(rows[i].duplicate());
        i = i + 1;
        assert(out@ =~= rows@.subrange(0, i as int));
    }
    assert(out@ =~= rows@);
    out
}

/// The tables of one event kind: the event headers and the two attendance
/// tables, one per population.
pub struct EventTables {
    events: Vec<EventRow>,
    frosh: Vec<FroshRow>,
    members: Vec<MemberRow>,
    next_id: i32,
}

impl View for EventTables {
    type V = TableState;

    closed spec fn view(&self) -> TableState {
        TableState {
            events: self.events@,
            frosh: self.frosh@,
            members: self.members@,
            next_id: self.next_id,
        }
    }
}

impl EventTables {
    pub open spec fn wf(&self) -> bool {
        self@.wf()
    }

    /// Empty tables; the first generated id is 1.
    pub fn new() -> (r: EventTables)
        ensures
            r.wf(),
            r@.events.len() == 0,
            r@.frosh.len() == 0,
            r@.members.len() == 0,
            r@.next_id == 1,
    {
        EventTables { events: Vec::new(), frosh: Vec::new(), members: Vec::new(), next_id: 1 }
    }

    /// Empty tables whose generated ids start at `first_id`, as a sequence
    /// that was restarted there.
    pub fn starting_at(first_id: i32) -> (r: EventTables)
        requires
            first_id >= 1,
        ensures
            r.wf(),
            r@.events.len() == 0,
            r@.frosh.len() == 0,
            r@.members.len() == 0,
            r@.next_id == first_id,
    {
        EventTables { events: Vec::new(), frosh: Vec::new(), members: Vec::new(), next_id: first_id }
    }

    /// The id that the next inserted event gets.
    pub fn next_id(&self) -> (r: i32)
        ensures
            r == self@.next_id,
    {
        self.next_id
    }

    /// The event header table.
    pub fn event_rows(&self) -> (r: &Vec<EventRow>)
        ensures
            r@ == self@.events,
    {
        &self.events
    }

    /// The frosh attendance table.
    pub fn frosh_rows(&self) -> (r: &Vec<FroshRow>)
        ensures
            r@ == self@.frosh,
    {
        &self.frosh
    }

    /// The member attendance table.
    pub fn member_rows(&self) -> (r: &Vec<MemberRow>)
        ensures
            r@ == self@.members,
    {
        &self.members
    }

    /// Whether an event with this id exists.
    pub fn event_exists(&self, id: i32) -> (r: bool)
        ensures
            r == has_event(self@.events, id),
    {
        let mut i: usize = 0;
        while i < self.events.len()
            invariant
                0 <= i <= self.events@.len(),
                forall|k: int| 0 <= k < i ==> (#[trigger] self.events@[k]).id != id,
            decreases self.events.len() - i,
        {
            if self.events[i].id == id {
                return true;
            }
            i = i + 1;
        }
        false
    }

    /// The header of the event with this id, if there is one.
    pub fn find_event(&self, id: i32) -> (r: Option<EventRow>)
        ensures
            r is None <==> !has_event(self@.events, id),
            r matches Some(e) ==> e.id == id && self@.events.contains(e),
    {
        let mut i: usize = 0;
        while i < self.events.len()
            invariant
                0 <= i <= self.events@.len(),
                forall|k: int| 0 <= k < i ==> (#[trigger] self.events@[k]).id != id,
            decreases self.events.len() - i,
        {
            if self.events[i].id == id {
                return Some(self.events[i].duplicate());
            }
            i = i + 1;
        }
        None
    }

    /// A copy of all three tables: the working state of a transaction.
    pub fn snapshot(&self) -> (r: EventTables)
        ensures
            r@ == self@,
    {
        let members = copy_member_rows(&self.members);
        let mut events: Vec<EventRow> = Vec::new();
        let mut i: usize = 0;
        while i < self.events.len()
            invariant
                0 <= i <= self.events@.len(),
                events@ == self.events@.subrange(0, i as int),
            decreases self.events.len() - i,
        {
            events.push(self.events[i].duplicate());
            i = i + 1;
            assert(events@ =~= self.events@.subrange(0, i as int));
        }
        assert(events@ =~= self.events@);
        let frosh = self.frosh.clone();
        assert(frosh@ =~= self.frosh@);
        EventTables { events, frosh, members, next_id: self.next_id }
    }

    /// Inserts an event header with the next generated id and returns that id.
    pub fn insert_event(&mut self, occurred_at: DateTime, approved: bool, label: EventLabel) -> (r:
        Result<i32, StoreError>)
        requires
            old(self).wf(),
        ensures
            final(self).wf(),
            match old(self)@.insert_event(occurred_at, approved, label) {
                Ok((t, id)) => r == Ok::<i32, StoreError>(id) && final(self)@ == t,
                Err(e) => r == Err::<i32, StoreError>(e) && final(self)@ == old(self)@,
            },
    {
        if self.next_id == i32::MAX {
            return Err(StoreError::IdExhausted);
        }
        let id = self.next_id;
        self.events.push(EventRow { id, occurred_at, active: true, approved, label });
        self.next_id = id + 1;
        proof {
            let s = self@;
            assert forall|i: int| 0 <= i < s.frosh.len() implies has_event(
                s.events,
                (#[trigger] s.frosh[i]).event_id,
            ) by {
                let k = choose|k: int|
                    0 <= k < old(self)@.events.len() && (#[trigger] old(self)@.events[k]).id
                        == s.frosh[i].event_id;
                assert(s.events[k] == old(self)@.events[k]);
            }
            assert forall|i: int| 0 <= i < s.members.len() implies has_event(
                s.events,
                (#[trigger] s.members[i]).event_id,
            ) by {
                let k = choose|k: int|
                    0 <= k < old(self)@.events.len() && (#[trigger] old(self)@.events[k]).id
                        == s.members[i].event_id;
                assert(s.events[k] == old(self)@.events[k]);
            }
        }
        Ok(id)
    }

    /// One set-oriented insert of a frosh batch for an event: either every row
    /// goes in, or none does.
    pub fn insert_frosh(&mut self, event_id: i32, entries: &Vec<FroshHouseAttendance>) -> (r:
        Result<(), StoreError>)
        requires
            old(self).wf(),
        ensures
            final(self).wf(),
            match old(self)@.insert_frosh(event_id, entries@) {
                Ok(t) => r is Ok && final(self)@ == t,
                Err(e) => r == Err::<(), StoreError>(e) && final(self)@ == old(self)@,
            },
    {
        if entries.len() == 0 {
            return Ok(());
        }
        if !self.event_exists(event_id) {
            return Err(StoreError::ForeignKeyViolation);
        }
        let ghost all = self.frosh@ + frosh_rows(event_id, entries@);
        let mut rows = self.frosh.clone();
        assert(rows@ =~= self.frosh@);
        let mut i: usize = 0;
        while i < entries.len()
            invariant
                0 <= i <= entries@.len(),
                self@ == old(self)@,
                old(self).wf(),
                has_event(self@.events, event_id),
                all == self.frosh@ + frosh_rows(event_id, entries@),
                rows@ == all.subrange(0, self.frosh@.len() + i),
                frosh_unique(rows@),
            decreases entries.len() - i,
        {
            let e = entries[i];
            let row = FroshRow { event_id, fid: e.name, status: e.att_status };
            let ghost n = rows@.len();
            assert(all[n as int] == row);
            if frosh_key_taken(&rows, event_id, e.name) {
                proof {
                    let j = choose|j: int|
                        0 <= j < rows@.len() && (#[trigger] rows@[j]).event_id == event_id
                            && rows@[j].fid == e.name;
                    assert(all[j] == rows@[j]);
                    assert(all[n as int].event_id == all[j].event_id && all[n as int].fid
                        == all[j].fid);
                }
                return Err(StoreError::UniqueViolation);
            }
            rows.push(row);
            i = i + 1;
            assert(rows@ =~= all.subrange(0, self.frosh@.len() + i));
        }
        assert(rows@ =~= all);
        self.frosh = rows;
        proof {
            let s = self@;
            assert forall|k: int| 0 <= k < s.frosh.len() implies has_event(
                s.events,
                (#[trigger] s.frosh[k]).event_id,
            ) by {
                if k >= old(self)@.frosh.len() {
                    assert(s.frosh[k].event_id == event_id);
                } else {
                    assert(s.frosh[k] == old(self)@.frosh[k]);
                }
            }
        }
        Ok(())
    }

    /// One set-oriented insert of a member batch for an event: either every row
    /// goes in, or none does.
    pub fn insert_members(&mut self, event_id: i32, entries: &Vec<MemberHouseAttendance>) -> (r:
        Result<(), StoreError>)
        requires
            old(self).wf(),
        ensures
            final(self).wf(),
            match old(self)@.insert_members(event_id, entries@) {
                Ok(t) => r is Ok && final(self)@ == t,
                Err(e) => r == Err::<(), StoreError>(e) && final(self)@ == old(self)@,
            },
    {
        if entries.len() == 0 {
            return Ok(());
        }
        if !self.event_exists(event_id) {
            return Err(StoreError::ForeignKeyViolation);
        }
        let ghost all = self.members@ + member_rows(event_id, entries@);
        let mut rows = copy_member_rows(&self.members);
        let mut i: usize = 0;
        while i < entries.len()
            invariant
                0 <= i <= entries@.len(),
                self@ == old(self)@,
                old(self).wf(),
                has_event(self@.events, event_id),
                all == self.members@ + member_rows(event_id, entries@),
                rows@ == all.subrange(0, self.members@.len() + i),
                members_unique(rows@),
            decreases entries.len() - i,
        {
            let e = &entries[i];
            let row = MemberRow { event_id, uid: e.name.clone(), status: e.att_status };
            let ghost n = rows@.len();
            assert(all[n as int] == row);
            if member_key_taken(&rows, event_id, &e.name) {
                proof {
                    let j = choose|j: int|
                        0 <= j < rows@.len() && (#[trigger] rows@[j]).event_id == event_id
                            && rows@[j].uid@ == e.name@;
                    assert(all[j] == rows@[j]);
                    assert(all[n as int].event_id == all[j].event_id && all[n as int].uid@
                        == all[j].uid@);
                }
                return Err(StoreError::UniqueViolation);
            }
            rows.push(row);
            i = i + 1;
            assert(rows@ =~= all.subrange(0, self.members@.len() + i));
        }
        assert(rows@ =~= all);
        self.members = rows;
        proof {
            let s = self@;
            assert forall|k: int| 0 <= k < s.members.len() implies has_event(
                s.events,
                (#[trigger] s.members[k]).event_id,
            ) by {
                if k >= old(self)@.members.len() {
                    assert(s.members[k].event_id == event_id);
                } else {
                    assert(s.members[k] == old(self)@.members[k]);
                }
            }
        }
        Ok(())
    }

    /// Deletes every frosh row of an event.
    pub fn delete_frosh(&mut self, event_id: i32)
        requires
            old(self).wf(),
        ensures
            final(self).wf(),
            final(self)@ == old(self)@.delete_frosh(event_id),
    {
        let ghost pred = not_of_event_frosh(event_id);
        let mut kept: Vec<FroshRow> = Vec::new();
        let mut i: usize = 0;
        while i < self.frosh.len()
            invariant
                self@ == old(self)@,
                old(self).wf(),
                pred == not_of_event_frosh(event_id),
                0 <= i <= self.frosh@.len(),
                kept@ == self.frosh@.subrange(0, i as int).filter(pred),
                frosh_unique(kept@),
                forall|a: int|
                    0 <= a < kept@.len() ==> exists|b: int|
                        0 <= b < i && #[trigger] kept@[a] == self.frosh@[b],
            decreases self.frosh.len() - i,
        {
            let r = self.frosh[i];
            proof {
                reveal(Seq::filter);
                let p = self.frosh@.subrange(0, i + 1);
                assert(p.drop_last() =~= self.frosh@.subrange(0, i as int));
                assert(p.last() == r);
                assert(pred(r) == (r.event_id != event_id));
                if r.event_id != event_id {
                    assert(p.filter(pred) == kept@.push(r));
                } else {
                    assert(p.filter(pred) == kept@);
                }
            }
            if r.event_id != event_id {
                proof {
                    assert forall|a: int| 0 <= a < kept@.len() implies !((#[trigger] kept@[a]).event_id
                        == r.event_id && kept@[a].fid == r.fid) by {
                        let b = choose|b: int| 0 <= b < i && kept@[a] == self.frosh@[b];
                        assert(self.frosh@[b] == kept@[a]);
                    }
                }
                kept.push(r);
            }
            i = i + 1;
        }
        assert(self.frosh@.subrange(0, i as int) =~= self.frosh@);
        let ghost kept_rows = kept@;
        self.frosh = kept;
        proof {
            let s = self@;
            assert forall|k: int| 0 <= k < s.frosh.len() implies has_event(
                s.events,
                (#[trigger] s.frosh[k]).event_id,
            ) by {
                assert(s.frosh[k] == kept_rows[k]);
                let b = choose|b: int| 0 <= b < old(self)@.frosh.len() && kept_rows[k] == old(self)@.frosh[b];
                assert(old(self)@.frosh[b] == s.frosh[k]);
            }
        }
    }

    /// Deletes every member row of an event.
    pub fn delete_members(&mut self, event_id: i32)
        requires
            old(self).wf(),
        ensures
            final(self).wf(),
            final(self)@ == old(self)@.delete_members(event_id),
    {
        let ghost pred = not_of_event_member(event_id);
        let mut kept: Vec<MemberRow> = Vec::new();
        let mut i: usize = 0;
        while i < self.members.len()
            invariant
                self@ == old(self)@,
                old(self).wf(),
                pred == not_of_event_member(event_id),
                0 <= i <= self.members@.len(),
                kept@ == self.members@.subrange(0, i as int).filter(pred),
                members_unique(kept@),
                forall|a: int|
                    0 <= a < kept@.len() ==> exists|b: int|
                        0 <= b < i && #[trigger] kept@[a] == self.members@[b],
            decreases self.members.len() - i,
        {
            let r = self.members[i].duplicate();
            proof {
                reveal(Seq::filter);
                let p = self.members@.subrange(0, i + 1);
                assert(p.drop_last() =~= self.members@.subrange(0, i as int));
                assert(p.last() == r);
                assert(pred(r) == (r.event_id != event_id));
                if r.event_id != event_id {
                    assert(p.filter(pred) == kept@.push(r));
                } else {
                    assert(p.filter(pred) == kept@);
                }
            }
            if r.event_id != event_id {
                proof {
                    assert forall|a: int| 0 <= a < kept@.len() implies !((#[trigger] kept@[a]).event_id
                        == r.event_id && kept@[a].uid@ == r.uid@) by {
                        let b = choose|b: int| 0 <= b < i && kept@[a] == self.members@[b];
                        assert(self.members@[b] == kept@[a]);
                    }
                }
                kept.push(r);
            }
            i = i + 1;
        }
        assert(self.members@.subrange(0, i as int) =~= self.members@);
        let ghost kept_rows = kept@;
        self.members = kept;
        proof {
            let s = self@;
            assert forall|k: int| 0 <= k < s.members.len() implies has_event(
                s.events,
                (#[trigger] s.members[k]).event_id,
            ) by {
                assert(s.members[k] == kept_rows[k]);
                let b = choose|b: int| 0 <= b < old(self)@.members.len() && kept_rows[k] == old(self)@.members[b];
                assert(old(self)@.members[b] == s.members[k]);
            }
        }
    }

    /// Deletes an event header. Refused while an attendance row still refers
    /// to the event: dependent rows go first.
    pub fn delete_event(&mut self, event_id: i32) -> (r: Result<(), StoreError>)
        requires
            old(self).wf(),
        ensures
            final(self).wf(),
            match old(self)@.delete_event(event_id) {
                Ok(t) => r is Ok && final(self)@ == t,
                Err(e) => r == Err::<(), StoreError>(e) && final(self)@ == old(self)@,
            },
    {
        let mut i: usize = 0;
        while i < self.frosh.len()
            invariant
                self@ == old(self)@,
                old(self).wf(),
                0 <= i <= self.frosh@.len(),
                forall|k: int| 0 <= k < i ==> (#[trigger] self.frosh@[k]).event_id != event_id,
            decreases self.frosh.len() - i,
        {
            if self.frosh[i].event_id == event_id {
                return Err(StoreError::ForeignKeyViolation);
            }
            i = i + 1;
        }
        let mut i: usize = 0;
        while i < self.members.len()
            invariant
                self@ == old(self)@,
                old(self).wf(),
                0 <= i <= self.members@.len(),
                forall|k: int| 0 <= k < i ==> (#[trigger] self.members@[k]).event_id != event_id,
            decreases self.members.len() - i,
        {
            if self.members[i].event_id == event_id {
                return Err(StoreError::ForeignKeyViolation);
            }
            i = i + 1;
        }
        let ghost pred = not_event(event_id);
        let mut kept: Vec<EventRow> = Vec::new();
        let mut i: usize = 0;
        while i < self.events.len()
            invariant
                self@ == old(self)@,
                old(self).wf(),
                pred == not_event(event_id),
                0 <= i <= self.events@.len(),
                kept@ == self.events@.subrange(0, i as int).filter(pred),
                event_ids_unique(kept@),
                forall|a: int|
                    0 <= a < kept@.len() ==> exists|b: int|
                        0 <= b < i && #[trigger] kept@[a] == self.events@[b],
            decreases self.events.len() - i,
        {
            let r = self.events[i].duplicate();
            proof {
                reveal(Seq::filter);
                let p = self.events@.subrange(0, i + 1);
                assert(p.drop_last() =~= self.events@.subrange(0, i as int));
                assert(p.last() == r);
                assert(pred(r) == (r.id != event_id));
                if r.id != event_id {
                    assert(p.filter(pred) == kept@.push(r));
                } else {
                    assert(p.filter(pred) == kept@);
                }
            }
            if r.id != event_id {
                proof {
                    assert forall|a: int| 0 <= a < kept@.len() implies (#[trigger] kept@[a]).id
                        != r.id by {
                        let b = choose|b: int| 0 <= b < i && kept@[a] == self.events@[b];
                        assert(self.events@[b] == kept@[a]);
                    }
                }
                kept.push(r);
            }
            i = i + 1;
        }
        assert(self.events@.subrange(0, i as int) =~= self.events@);
        let ghost kept_rows = kept@;
        let ghost old_events = self.events@;
        self.events = kept;
        proof {
            let s = self@;
            assert forall|k: int| 0 <= k < s.events.len() implies 1 <= (#[trigger] s.events[k]).id
                < s.next_id by {
                assert(s.events[k] == kept_rows[k]);
                let b = choose|b: int| 0 <= b < old_events.len() && kept_rows[k] == old_events[b];
                assert(old_events[b] == s.events[k]);
            }
            assert forall|k: int| 0 <= k < s.frosh.len() implies has_event(
                s.events,
                (#[trigger] s.frosh[k]).event_id,
            ) by {
                let id = s.frosh[k].event_id;
                let b = choose|b: int| 0 <= b < old_events.len() && (#[trigger] old_events[b]).id == id;
                assert(pred(old_events[b]));
                assert(kept_rows.contains(old_events[b]));
            }
            assert forall|k: int| 0 <= k < s.members.len() implies has_event(
                s.events,
                (#[trigger] s.members[k]).event_id,
            ) by {
                let id = s.members[k].event_id;
                let b = choose|b: int| 0 <= b < old_events.len() && (#[trigger] old_events[b]).id == id;
                assert(pred(old_events[b]));
                assert(kept_rows.contains(old_events[b]));
            }
        }
        Ok(())
    }

    /// Sets the approval flag of the event with this id, if there is one.
    pub fn set_approved(&mut self, event_id: i32, approved: bool)
        requires
            old(self).wf(),
        ensures
            final(self).wf(),
            final(self)@ == old(self)@.set_approved(event_id, approved),
    {
        let ghost f = approval_update(event_id, approved);
        let ghost old_events = self.events@;
        let mut i: usize = 0;
        while i < self.events.len()
            invariant
                0 <= i <= self.events@.len(),
                self.events@.len() == old_events.len(),
                old_events == old(self)@.events,
                f == approval_update(event_id, approved),
                forall|k: int| 0 <= k < i ==> #[trigger] self.events@[k] == f(old_events[k]),
                forall|k: int| i <= k < self.events@.len() ==> #[trigger] self.events@[k] == old_events[k],
                self.frosh == old(self).frosh,
                self.members == old(self).members,
                self.next_id == old(self).next_id,
            decreases self.events.len() - i,
        {
            if self.events[i].id == event_id {
                let mut e = self.events[i].duplicate();
                e.approved = approved;
                self.events.set(i, e);
            }
            i = i + 1;
        }
        assert(self.events@ =~= old_events.map_values(f));
        proof {
            let s = self@;
            let o = old(self)@;
            assert forall|k: int| 0 <= k < s.events.len() implies (#[trigger] s.events[k]).id == o.events[k].id by {}
            assert forall|k: int| 0 <= k < s.frosh.len() implies has_event(
                s.events,
                (#[trigger] s.frosh[k]).event_id,
            ) by {
                let b = choose|b: int| 0 <= b < o.events.len() && (#[trigger] o.events[b]).id == s.frosh[k].event_id;
                assert(s.events[b].id == o.events[b].id);
            }
            assert forall|k: int| 0 <= k < s.members.len() implies has_event(
                s.events,
                (#[trigger] s.members[k]).event_id,
            ) by {
                let b = choose|b: int| 0 <= b < o.events.len() && (#[trigger] o.events[b]).id == s.members[k].event_id;
                assert(s.events[b].id == o.events[b].id);
            }
            assert forall|a: int, b: int| 0 <= a < s.events.len() && 0 <= b < s.events.len() && a != b implies (#[trigger] s.events[a]).id != (#[trigger] s.events[b]).id by {
                assert(s.events[a].id == o.events[a].id);
                assert(s.events[b].id == o.events[b].id);
            }
            assert forall|a: int| 0 <= a < s.events.len() implies 1 <= (#[trigger] s.events[a]).id < s.next_id by {
                assert(s.events[a].id == o.events[a].id);
            }
        }
    }
}

} // verus!
