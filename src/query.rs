use vstd::prelude::*;

use crate::date::DateTime;
use crate::ident::{AttendeeKey, Attendee};
use crate::schema::AttendanceStatus;
use crate::store::{EventRow, EventTables, FroshRow, MemberRow, TableState, has_event};

verus! {

broadcast use vstd::seq_lib::group_filter_ensures, vstd::seq_lib::group_to_multiset_ensures;

/// Which attendance statuses a report counts.
#[derive(Clone, Copy, Debug, PartialEq, Eq, Structural)]
pub enum StatusFilter {
    /// Only explicit absences.
    Absent,
    /// Every status but `Attended` (the evaluations view).
    NotAttended,
    /// Only attendance.
    Attended,
}

impl StatusFilter {
    pub open spec fn accepts(self, s: AttendanceStatus) -> bool {
        match self {
            StatusFilter::Absent => s == AttendanceStatus::Absent,
            StatusFilter::NotAttended => s != AttendanceStatus::Attended,
            StatusFilter::Attended => s == AttendanceStatus::Attended,
        }
    }

    pub fn admits(&self, s: AttendanceStatus) -> (r: bool)
        ensures
            r == self.accepts(s),
    {
        match self {
            StatusFilter::Absent => s == AttendanceStatus::Absent,
            StatusFilter::NotAttended => s != AttendanceStatus::Attended,
            StatusFilter::Attended => s == AttendanceStatus::Attended,
        }
    }
}

/// Ascending by the natural order of moments.
pub open spec fn sorted_times(s: Seq<DateTime>) -> bool {
    forall|i: int, j: int| 0 <= i < j < s.len() ==> (#[trigger] s[i]).spec_le(#[trigger] s[j])
}

/// The header of the event with this id (where ids are unique, the only one).
pub open spec fn event_of(events: Seq<EventRow>, id: i32) -> EventRow {
    choose|e: EventRow| events.contains(e) && e.id == id
}

/// When the event with this id occurred.
pub open spec fn event_time(events: Seq<EventRow>, id: i32) -> DateTime {
    event_of(events, id).occurred_at
}

/// Whether an event counts for a report with this cutoff: it exists, took
/// place strictly after the cutoff, and is approved where the report asks so.
pub open spec fn counts_after(
    t: TableState,
    event_id: i32,
    cutoff: DateTime,
    approved_only: bool,
) -> bool {
    &&& has_event(t.events, event_id)
    &&& cutoff.spec_lt(event_time(t.events, event_id))
    &&& approved_only ==> event_of(t.events, event_id).approved
}

pub open spec fn frosh_hit(
    t: TableState,
    fid: i32,
    cutoff: DateTime,
    f: StatusFilter,
    approved_only: bool,
) -> spec_fn(FroshRow) -> bool {
    |r: FroshRow| r.fid == fid && f.accepts(r.status) && counts_after(t, r.event_id, cutoff, approved_only)
}

pub open spec fn member_hit(
    t: TableState,
    handle: Seq<char>,
    cutoff: DateTime,
    f: StatusFilter,
    approved_only: bool,
) -> spec_fn(MemberRow) -> bool {
    |r: MemberRow| r.uid@ == handle && f.accepts(r.status) && counts_after(t, r.event_id, cutoff, approved_only)
}

/// The dates of the events where the attendee's status passes the filter,
/// that took place after the cutoff and, where `approved_only`, are approved;
/// in table order.
pub open spec fn attendance_dates(
    t: TableState,
    who: AttendeeKey,
    cutoff: DateTime,
    f: StatusFilter,
    approved_only: bool,
) -> Seq<DateTime> {
    match who {
        AttendeeKey::Frosh(fid) => t.frosh.filter(frosh_hit(t, fid, cutoff, f, approved_only)).map_values(
            |r: FroshRow| event_time(t.events, r.event_id),
        ),
        AttendeeKey::Member(h) => t.members.filter(member_hit(t, h, cutoff, f, approved_only)).map_values(
            |r: MemberRow| event_time(t.events, r.event_id),
        ),
    }
}

/// Inserts `x` after every element that is not later than it.
fn insert_sorted(v: &mut Vec<DateTime>, x: DateTime)
    requires
        sorted_times(old(v)@),
    ensures
        sorted_times(final(v)@),
        final(v)@.to_multiset() == old(v)@.to_multiset().insert(x),
{
    let mut p: usize = 0;
    while p < v.len()
        invariant
            0 <= p <= v@.len(),
            v@ == old(v)@,
            forall|k: int| 0 <= k < p ==> (#[trigger] v@[k]).spec_le(x),
        ensures
            0 <= p <= v@.len(),
            v@ == old(v)@,
            forall|k: int| 0 <= k < p ==> (#[trigger] v@[k]).spec_le(x),
            p < v@.len() ==> x.spec_lt(v@[p as int]),
        decreases v.len() - p,
    {
        if x.is_before(&v[p]) {
            break;
        }
        p = p + 1;
    }
    let ghost before = v@;
    v.insert(p, x);
    proof {
        let w = v@;
        assert(w == before.insert(p as int, x));
        assert forall|i: int, j: int| 0 <= i < j < w.len() implies (#[trigger] w[i]).spec_le(
            #[trigger] w[j],
        ) by {
            if j < p {
                assert(w[i] == before[i] && w[j] == before[j]);
            } else if j == p {
                assert(w[i] == before[i]);
            } else if i < p {
                assert(w[i] == before[i] && w[j] == before[j - 1]);
                assert(before[p as int].spec_le(before[j - 1]));
            } else if i == p {
                assert(w[j] == before[j - 1]);
                assert(before[p as int].spec_le(before[j - 1]));
            } else {
                assert(w[i] == before[i - 1] && w[j] == before[j - 1]);
            }
        }
        assert(w.remove(p as int) =~= before);
        assert(w.to_multiset().count(x) > 0);
        assert(w.to_multiset() =~= before.to_multiset().insert(x));
    }
}

/// With unique ids, the time of an event is the time in its own header.
proof fn lemma_event_of(events: Seq<EventRow>, e: EventRow)
    requires
        crate::store::event_ids_unique(events),
        events.contains(e),
    ensures
        event_of(events, e.id) == e,
{
    let c = choose|c: EventRow| events.contains(c) && c.id == e.id;
    let i = choose|i: int| 0 <= i < events.len() && events[i] == c;
    let j = choose|j: int| 0 <= j < events.len() && events[j] == e;
    assert(i == j);
}

/// The dates of the events after `cutoff` (approved ones only, where
/// `approved_only`) at which `who` has a status that `f` accepts, earliest
/// first.
pub fn attendance_dates_of(
    tables: &EventTables,
    who: &Attendee,
    cutoff: &DateTime,
    f: StatusFilter,
    approved_only: bool,
) -> (r: Vec<DateTime>)
    requires
        tables.wf(),
    ensures
        sorted_times(r@),
        r@.to_multiset() == attendance_dates(tables@, who@, *cutoff, f, approved_only).to_multiset(),
{
    let ghost t = tables@;
    let mut out: Vec<DateTime> = Vec::new();
    match who {
        Attendee::Frosh(fid) => {
            let rows = tables.frosh_rows();
            let ghost pred = frosh_hit(t, *fid, *cutoff, f, approved_only);
            let ghost tf = |r: FroshRow| event_time(t.events, r.event_id);
            let mut i: usize = 0;
            while i < rows.len()
                invariant
                    tables.wf(),
                    t == tables@,
                    rows@ == t.frosh,
                    pred == frosh_hit(t, *fid, *cutoff, f, approved_only),
                    tf == (|r: FroshRow| event_time(t.events, r.event_id)),
                    0 <= i <= rows@.len(),
                    sorted_times(out@),
                    out@.to_multiset() == rows@.subrange(0, i as int).filter(pred).map_values(
                        tf,
                    ).to_multiset(),
                decreases rows.len() - i,
            {
                let r = rows[i];
                let ghost prev = rows@.subrange(0, i as int).filter(pred);
                proof {
                    reveal(Seq::filter);
                    let p = rows@.subrange(0, i + 1);
                    assert(p.drop_last() =~= rows@.subrange(0, i as int));
                    assert(p.last() == r);
                    assert(prev.push(r).map_values(tf) =~= prev.map_values(tf).push(tf(r)));
                }
                if r.fid == *fid && f.admits(r.status) {
                    match tables.find_event(r.event_id) {
                        Some(e) => {
                            proof {
                                lemma_event_of(t.events, e);
                            }
                            if cutoff.is_before(&e.occurred_at) && (!approved_only || e.approved) {
                                insert_sorted(&mut out, e.occurred_at);
                            }
                        },
                        None => {},
                    }
                }
                i = i + 1;
            }
            assert(rows@.subrange(0, i as int) =~= rows@);
        },
        Attendee::Member(handle) => {
            let rows = tables.member_rows();
            let ghost pred = member_hit(t, handle@, *cutoff, f, approved_only);
            let ghost tf = |r: MemberRow| event_time(t.events, r.event_id);
            let mut i: usize = 0;
            while i < rows.len()
                invariant
                    tables.wf(),
                    t == tables@,
                    rows@ == t.members,
                    pred == member_hit(t, handle@, *cutoff, f, approved_only),
                    tf == (|r: MemberRow| event_time(t.events, r.event_id)),
                    0 <= i <= rows@.len(),
                    sorted_times(out@),
                    out@.to_multiset() == rows@.subrange(0, i as int).filter(pred).map_values(
                        tf,
                    ).to_multiset(),
                decreases rows.len() - i,
            {
                let r = &rows[i];
                let ghost prev = rows@.subrange(0, i as int).filter(pred);
                proof {
                    reveal(Seq::filter);
                    let p = rows@.subrange(0, i + 1);
                    assert(p.drop_last() =~= rows@.subrange(0, i as int));
                    assert(p.last() == *r);
                    assert(prev.push(*r).map_values(tf) =~= prev.map_values(tf).push(tf(*r)));
                }
                if r.uid == *handle && f.admits(r.status) {
                    match tables.find_event(r.event_id) {
                        Some(e) => {
                            proof {
                                lemma_event_of(t.events, e);
                            }
                            if cutoff.is_before(&e.occurred_at) && (!approved_only || e.approved) {
                                insert_sorted(&mut out, e.occurred_at);
                            }
                        },
                        None => {},
                    }
                }
                i = i + 1;
            }
            assert(rows@.subrange(0, i as int) =~= rows@);
        },
    }
    out
}

pub open spec fn after(cutoff: DateTime) -> spec_fn(EventRow) -> bool {
    |e: EventRow| cutoff.spec_lt(e.occurred_at)
}

/// The event headers strictly after the cutoff, in table order.
pub open spec fn later_events(events: Seq<EventRow>, cutoff: DateTime) -> Seq<EventRow> {
    events.filter(after(cutoff))
}

/// The event headers strictly after `cutoff`, in table order.
pub fn events_since(tables: &EventTables, cutoff: &DateTime) -> (r: Vec<EventRow>)
    ensures
        r@ == later_events(tables@.events, *cutoff),
{
    events_after(tables.event_rows(), cutoff)
}

/// The headers among `rows` strictly after `cutoff`, in their order.
pub fn events_after(rows: &Vec<EventRow>, cutoff: &DateTime) -> (r: Vec<EventRow>)
    ensures
        r@ == later_events(rows@, *cutoff),
{
    let ghost pred = after(*cutoff);
    let mut out: Vec<EventRow> = Vec::new();
    let mut i: usize = 0;
    while i < rows.len()
        invariant
            0 <= i <= rows@.len(),
            pred == after(*cutoff),
            out@ == rows@.subrange(0, i as int).filter(pred),
        decreases rows.len() - i,
    {
        let e = rows[i].duplicate();
        proof {
            reveal(Seq::filter);
            let p = rows@.subrange(0, i + 1);
            assert(p.drop_last() =~= rows@.subrange(0, i as int));
            assert(p.last() == e);
        }
        if cutoff.is_before(&e.occurred_at) {
            out.push(e);
        }
        i = i + 1;
    }
    assert(rows@.subrange(0, i as int) =~= rows@);
    out
}

/// One attendance row of an attendee joined to its event's header, as a
/// relational store hands it back.
#[derive(Clone, Copy, Debug, PartialEq, Eq, Structural)]
pub struct AttendanceHit {
    pub occurred_at: DateTime,
    pub approved: bool,
    pub status: AttendanceStatus,
}

pub open spec fn hit_counts(cutoff: DateTime, f: StatusFilter, approved_only: bool) -> spec_fn(
    AttendanceHit,
) -> bool {
    |h: AttendanceHit| cutoff.spec_lt(h.occurred_at) && f.accepts(h.status) && (approved_only
        ==> h.approved)
}

/// The dates of the rows that count for a report, in row order.
pub open spec fn report_spec(
    hits: Seq<AttendanceHit>,
    cutoff: DateTime,
    f: StatusFilter,
    approved_only: bool,
) -> Seq<DateTime> {
    hits.filter(hit_counts(cutoff, f, approved_only)).map_values(|h: AttendanceHit| h.occurred_at)
}

/// The report over an attendee's joined rows: the dates of the events after
/// `cutoff` (approved ones only, where `approved_only`) at which the status
/// passes `f`, earliest first.
pub fn report_dates(
    hits: &Vec<AttendanceHit>,
    cutoff: &DateTime,
    f: StatusFilter,
    approved_only: bool,
) -> (r: Vec<DateTime>)
    ensures
        sorted_times(r@),
        r@.to_multiset() == report_spec(hits@, *cutoff, f, approved_only).to_multiset(),
{
    let ghost pred = hit_counts(*cutoff, f, approved_only);
    let ghost tf = |h: AttendanceHit| h.occurred_at;
    let mut out: Vec<DateTime> = Vec::new();
    let mut i: usize = 0;
    while i < hits.len()
        invariant
            0 <= i <= hits@.len(),
            pred == hit_counts(*cutoff, f, approved_only),
            tf == (|h: AttendanceHit| h.occurred_at),
            sorted_times(out@),
            out@.to_multiset() == hits@.subrange(0, i as int).filter(pred).map_values(
                tf,
            ).to_multiset(),
        decreases hits.len() - i,
    {
        let h = hits[i];
        let ghost prev = hits@.subrange(0, i as int).filter(pred);
        proof {
            reveal(Seq::filter);
            let p = hits@.subrange(0, i + 1);
            assert(p.drop_last() =~= hits@.subrange(0, i as int));
            assert(p.last() == h);
            assert(prev.push(h).map_values(tf) =~= prev.map_values(tf).push(tf(h)));
        }
        if cutoff.is_before(&h.occurred_at) && f.admits(h.status) && (!approved_only
            || h.approved) {
            insert_sorted(&mut out, h.occurred_at);
        }
        i = i + 1;
    }
    assert(hits@.subrange(0, i as int) =~= hits@);
    out
}

pub open spec fn of_event_frosh(event_id: i32) -> spec_fn(FroshRow) -> bool {
    |r: FroshRow| r.event_id == event_id
}

pub open spec fn of_event_member(event_id: i32) -> spec_fn(MemberRow) -> bool {
    |r: MemberRow| r.event_id == event_id
}

/// The frosh ids recorded for an event, in table order.
pub open spec fn frosh_of(t: TableState, event_id: i32) -> Seq<i32> {
    t.frosh.filter(of_event_frosh(event_id)).map_values(|r: FroshRow| r.fid)
}

/// The member handles recorded for an event, in table order.
pub open spec fn members_of(t: TableState, event_id: i32) -> Seq<String> {
    t.members.filter(of_event_member(event_id)).map_values(|r: MemberRow| r.uid)
}

/// An event header with everyone recorded for it.
#[derive(Debug)]
pub struct EventListing {
    pub header: EventRow,
    pub frosh: Vec<i32>,
    pub members: Vec<String>,
}

pub open spec fn listing_of(l: EventListing, e: EventRow, t: TableState) -> bool {
    l.header == e && l.frosh@ == frosh_of(t, e.id) && l.members@ == members_of(t, e.id)
}

/// The frosh ids recorded for an event, in table order.
pub fn frosh_of_event(tables: &EventTables, event_id: i32) -> (r: Vec<i32>)
    ensures
        r@ == frosh_of(tables@, event_id),
{
    let rows = tables.frosh_rows();
    let ghost pred = of_event_frosh(event_id);
    let ghost tf = |r: FroshRow| r.fid;
    let mut out: Vec<i32> = Vec::new();
    let mut i: usize = 0;
    while i < rows.len()
        invariant
            0 <= i <= rows@.len(),
            pred == of_event_frosh(event_id),
            tf == (|r: FroshRow| r.fid),
            out@ == rows@.subrange(0, i as int).filter(pred).map_values(tf),
        decreases rows.len() - i,
    {
        let r = rows[i];
        let ghost prev = rows@.subrange(0, i as int).filter(pred);
        proof {
            reveal(Seq::filter);
            let p = rows@.subrange(0, i + 1);
            assert(p.drop_last() =~= rows@.subrange(0, i as int));
            assert(p.last() == r);
            assert(prev.push(r).map_values(tf) =~= prev.map_values(tf).push(tf(r)));
        }
        if r.event_id == event_id {
            out.push(r.fid);
        }
        i = i + 1;
    }
    assert(rows@.subrange(0, i as int) =~= rows@);
    out
}

/// The member handles recorded for an event, in table order.
pub fn members_of_event(tables: &EventTables, event_id: i32) -> (r: Vec<String>)
    ensures
        r@ == members_of(tables@, event_id),
{
    let rows = tables.member_rows();
    let ghost pred = of_event_member(event_id);
    let ghost tf = |r: MemberRow| r.uid;
    let mut out: Vec<String> = Vec::new();
    let mut i: usize = 0;
    while i < rows.len()
        invariant
            0 <= i <= rows@.len(),
            pred == of_event_member(event_id),
            tf == (|r: MemberRow| r.uid),
            out@ == rows@.subrange(0, i as int).filter(pred).map_values(tf),
        decreases rows.len() - i,
    {
        let r = &rows[i];
        let ghost prev = rows@.subrange(0, i as int).filter(pred);
        proof {
            reveal(Seq::filter);
            let p = rows@.subrange(0, i + 1);
            assert(p.drop_last() =~= rows@.subrange(0, i as int));
            assert(p.last() == *r);
            assert(prev.push(*r).map_values(tf) =~= prev.map_values(tf).push(tf(*r)));
        }
        if r.event_id == event_id {
            out.push(r.uid.clone());
        }
        i = i + 1;
    }
    assert(rows@.subrange(0, i as int) =~= rows@);
    out
}

/// Every event after `cutoff`, in table order, with the frosh and members
/// recorded for it.
pub fn list_events(tables: &EventTables, cutoff: &DateTime) -> (r: Vec<EventListing>)
    ensures
        r@.len() == later_events(tables@.events, *cutoff).len(),
        forall|i: int|
            0 <= i < r@.len() ==> listing_of(
                #[trigger] r@[i],
                later_events(tables@.events, *cutoff)[i],
                tables@,
            ),
{
    let later = events_since(tables, cutoff);
    let mut out: Vec<EventListing> = Vec::new();
    let mut i: usize = 0;
    while i < later.len()
        invariant
            0 <= i <= later@.len(),
            later@ == later_events(tables@.events, *cutoff),
            out@.len() == i,
            forall|k: int| 0 <= k < i ==> listing_of(#[trigger] out@[k], later@[k], tables@),
        decreases later.len() - i,
    {
        let header = later[i].duplicate();
        let frosh = frosh_of_event(tables, header.id);
        let members = members_of_event(tables, header.id);
        out.push(EventListing { header, frosh, members });
        i = i + 1;
    }
    out
}

} // verus!
