use vstd::prelude::*;

use crate::date::DateTime;
use crate::engine::{edit_spec, submit_spec};
use crate::ident::AttendeeKey;
use crate::query::{
    AttendanceHit, StatusFilter, attendance_dates, event_time, frosh_hit, hit_counts, member_hit,
    report_spec, sorted_times,
};
use crate::schema::{FroshHouseAttendance, MemberHouseAttendance};
use crate::store::{
    EventLabel, EventRow, FroshRow, MemberRow, TableState, frosh_rows, frosh_unique, member_rows, members_unique,
    not_of_event_frosh, not_of_event_member,
};

verus! {

broadcast use vstd::seq_lib::group_filter_ensures, vstd::seq_lib::group_to_multiset_ensures,
    Seq::filter_distributes_over_add;

proof fn lemma_filter_twice<A>(s: Seq<A>, p: spec_fn(A) -> bool)
    ensures
        s.filter(p).filter(p) == s.filter(p),
    decreases s.len(),
{
    reveal(Seq::filter);
    if s.len() > 0 {
        lemma_filter_twice(s.drop_last(), p);
        let f = s.drop_last().filter(p);
        if p(s.last()) {
            assert(f.push(s.last()).drop_last() =~= f);
        }
    }
}

proof fn lemma_filter_rejects_all<A>(s: Seq<A>, p: spec_fn(A) -> bool)
    requires
        forall|i: int| 0 <= i < s.len() ==> !p(#[trigger] s[i]),
    ensures
        s.filter(p) == Seq::<A>::empty(),
    decreases s.len(),
{
    reveal(Seq::filter);
    if s.len() > 0 {
        assert(!p(s[s.len() - 1]));
        lemma_filter_rejects_all(s.drop_last(), p);
    }
}

/// Editing attendance is idempotent: applying the same edit to the state that
/// an edit produced yields that state again, with no row written twice.
pub proof fn lemma_edit_idempotent(
    t: TableState,
    event_id: i32,
    frosh: Seq<FroshHouseAttendance>,
    members: Seq<MemberHouseAttendance>,
)
    requires
        t.wf(),
        edit_spec(t, event_id, frosh, members) is Ok,
    ensures
        edit_spec(edit_spec(t, event_id, frosh, members)->Ok_0, event_id, frosh, members)
            == edit_spec(t, event_id, frosh, members),
{
    let t1 = edit_spec(t, event_id, frosh, members)->Ok_0;
    let pf = not_of_event_frosh(event_id);
    let pm = not_of_event_member(event_id);
    let fr = frosh_rows(event_id, frosh);
    let mr = member_rows(event_id, members);
    assert forall|i: int| 0 <= i < fr.len() implies !pf(#[trigger] fr[i]) by {}
    assert forall|i: int| 0 <= i < mr.len() implies !pm(#[trigger] mr[i]) by {}
    lemma_filter_rejects_all(fr, pf);
    lemma_filter_rejects_all(mr, pm);
    lemma_filter_twice(t.frosh, pf);
    lemma_filter_twice(t.members, pm);
    let d = t.delete_frosh(event_id).delete_members(event_id);
    let d1 = t1.delete_frosh(event_id).delete_members(event_id);
    if frosh.len() == 0 {
        assert(t1.frosh == d.frosh);
    } else {
        assert(t1.frosh == d.frosh + fr);
    }
    if members.len() == 0 {
        assert(t1.members == d.members);
    } else {
        assert(t1.members == d.members + mr);
    }
    assert(d1.frosh =~= d.frosh);
    assert(d1.members =~= d.members);
    assert(d1 == d);
}

/// An event submitted with no frosh and no members is created: its header is
/// stored under the next id, and no attendance row refers to it.
pub proof fn lemma_submit_empty(
    t: TableState,
    occurred_at: DateTime,
    approved: bool,
    label: EventLabel,
)
    requires
        t.wf(),
        t.next_id < i32::MAX,
    ensures
        submit_spec(t, occurred_at, approved, label, Seq::empty(), Seq::empty()) matches Ok((t2, id))
            && id == t.next_id && t2.events == t.events.push(
            EventRow { id, occurred_at, active: true, approved, label },
        ) && t2.frosh == t.frosh && t2.members == t.members && (forall|i: int|
            0 <= i < t2.frosh.len() ==> (#[trigger] t2.frosh[i]).event_id != id) && (forall|i: int|
            0 <= i < t2.members.len() ==> (#[trigger] t2.members[i]).event_id != id),
{
    assert forall|i: int| 0 <= i < t.frosh.len() implies (#[trigger] t.frosh[i]).event_id
        != t.next_id by {
        let k = choose|k: int| 0 <= k < t.events.len() && (#[trigger] t.events[k]).id == t.frosh[i].event_id;
        assert(t.events[k].id < t.next_id);
    }
    assert forall|i: int| 0 <= i < t.members.len() implies (#[trigger] t.members[i]).event_id
        != t.next_id by {
        let k = choose|k: int| 0 <= k < t.events.len() && (#[trigger] t.events[k]).id == t.members[i].event_id;
        assert(t.events[k].id < t.next_id);
    }
}

/// Every date that an attendance report holds is strictly after its cutoff:
/// an event at or before the cutoff never appears, whatever its rows say.
pub proof fn lemma_cutoff_filtering(
    t: TableState,
    who: AttendeeKey,
    cutoff: DateTime,
    f: StatusFilter,
    approved_only: bool,
)
    ensures
        forall|i: int|
            0 <= i < attendance_dates(t, who, cutoff, f, approved_only).len() ==> cutoff.spec_lt(
                #[trigger] attendance_dates(t, who, cutoff, f, approved_only)[i],
            ),
{
    let s = attendance_dates(t, who, cutoff, f, approved_only);
    assert forall|i: int| 0 <= i < s.len() implies cutoff.spec_lt(#[trigger] s[i]) by {
        match who {
            AttendeeKey::Frosh(fid) => {
                let rows = t.frosh.filter(frosh_hit(t, fid, cutoff, f, approved_only));
                assert(frosh_hit(t, fid, cutoff, f, approved_only)(rows[i]));
            },
            AttendeeKey::Member(h) => {
                let rows = t.members.filter(member_hit(t, h, cutoff, f, approved_only));
                assert(member_hit(t, h, cutoff, f, approved_only)(rows[i]));
            },
        }
    }
}

/// The same holds of a report over rows read back from a relational store.
pub proof fn lemma_report_cutoff(
    hits: Seq<AttendanceHit>,
    cutoff: DateTime,
    f: StatusFilter,
    approved_only: bool,
)
    ensures
        forall|i: int|
            0 <= i < report_spec(hits, cutoff, f, approved_only).len() ==> cutoff.spec_lt(
                #[trigger] report_spec(hits, cutoff, f, approved_only)[i],
            ),
{
    let s = report_spec(hits, cutoff, f, approved_only);
    let kept = hits.filter(hit_counts(cutoff, f, approved_only));
    assert forall|i: int| 0 <= i < s.len() implies cutoff.spec_lt(#[trigger] s[i]) by {
        assert(hit_counts(cutoff, f, approved_only)(kept[i]));
    }
}

/// No frosh id appears twice in a batch.
pub open spec fn distinct_frosh(entries: Seq<FroshHouseAttendance>) -> bool {
    forall|i: int, j: int|
        0 <= i < entries.len() && 0 <= j < entries.len() && i != j ==> (#[trigger] entries[i]).name
            != (#[trigger] entries[j]).name
}

/// No member handle appears twice in a batch.
pub open spec fn distinct_members(entries: Seq<MemberHouseAttendance>) -> bool {
    forall|i: int, j: int|
        0 <= i < entries.len() && 0 <= j < entries.len() && i != j ==> (#[trigger] entries[i]).name@
            != (#[trigger] entries[j]).name@
}

proof fn lemma_fresh_frosh_batch(t: TableState, entries: Seq<FroshHouseAttendance>)
    requires
        t.wf(),
    ensures
        frosh_unique(t.frosh + frosh_rows(t.next_id, entries)) <==> distinct_frosh(entries),
{
    let id = t.next_id;
    let n = t.frosh.len() as int;
    let all = t.frosh + frosh_rows(id, entries);
    assert forall|i: int| 0 <= i < n implies (#[trigger] all[i]).event_id != id by {
        let k = choose|k: int| 0 <= k < t.events.len() && (#[trigger] t.events[k]).id == t.frosh[i].event_id;
        assert(t.events[k].id < t.next_id);
    }
    if distinct_frosh(entries) {
        assert forall|i: int, j: int|
            0 <= i < all.len() && 0 <= j < all.len() && i != j implies !((#[trigger] all[i]).event_id
                == (#[trigger] all[j]).event_id && all[i].fid == all[j].fid) by {
            if i >= n && j >= n {
                assert(all[i].fid == entries[i - n].name);
                assert(all[j].fid == entries[j - n].name);
            }
        }
    }
    if frosh_unique(all) {
        assert forall|i: int, j: int|
            0 <= i < entries.len() && 0 <= j < entries.len() && i != j implies (#[trigger] entries[i]).name
                != (#[trigger] entries[j]).name by {
            assert(all[n + i].fid == entries[i].name && all[n + i].event_id == id);
            assert(all[n + j].fid == entries[j].name && all[n + j].event_id == id);
        }
    }
}

proof fn lemma_fresh_member_batch(t: TableState, entries: Seq<MemberHouseAttendance>)
    requires
        t.wf(),
    ensures
        members_unique(t.members + member_rows(t.next_id, entries)) <==> distinct_members(entries),
{
    let id = t.next_id;
    let n = t.members.len() as int;
    let all = t.members + member_rows(id, entries);
    assert forall|i: int| 0 <= i < n implies (#[trigger] all[i]).event_id != id by {
        let k = choose|k: int| 0 <= k < t.events.len() && (#[trigger] t.events[k]).id == t.members[i].event_id;
        assert(t.events[k].id < t.next_id);
    }
    if distinct_members(entries) {
        assert forall|i: int, j: int|
            0 <= i < all.len() && 0 <= j < all.len() && i != j implies !((#[trigger] all[i]).event_id
                == (#[trigger] all[j]).event_id && all[i].uid@ == all[j].uid@) by {
            if i >= n && j >= n {
                assert(all[i].uid == entries[i - n].name);
                assert(all[j].uid == entries[j - n].name);
            }
        }
    }
    if members_unique(all) {
        assert forall|i: int, j: int|
            0 <= i < entries.len() && 0 <= j < entries.len() && i != j implies (#[trigger] entries[i]).name@
                != (#[trigger] entries[j]).name@ by {
            assert(all[n + i].uid == entries[i].name && all[n + i].event_id == id);
            assert(all[n + j].uid == entries[j].name && all[n + j].event_id == id);
        }
    }
}

/// A submission succeeds exactly when an id is left to generate and neither
/// batch names an attendee twice; it then stores the header under the next id
/// and appends both batches.
pub proof fn lemma_submit_succeeds_iff(
    t: TableState,
    occurred_at: DateTime,
    approved: bool,
    label: EventLabel,
    frosh: Seq<FroshHouseAttendance>,
    members: Seq<MemberHouseAttendance>,
)
    requires
        t.wf(),
    ensures
        submit_spec(t, occurred_at, approved, label, frosh, members) is Ok <==> (t.next_id < i32::MAX
            && distinct_frosh(frosh) && distinct_members(members)),
        submit_spec(t, occurred_at, approved, label, frosh, members) matches Ok((t2, id)) ==> id
            == t.next_id && t2.events == t.events.push(
            EventRow { id, occurred_at, active: true, approved, label },
        ) && t2.frosh == t.frosh + frosh_rows(id, frosh) && t2.members == t.members
            + member_rows(id, members),
{
    if t.next_id < i32::MAX {
        let (t1, id) = t.insert_event(occurred_at, approved, label)->Ok_0;
        assert(t1.events[t1.events.len() - 1].id == id);
        assert(t1.wf()) by {
            assert forall|i: int| 0 <= i < t1.frosh.len() implies crate::store::has_event(
                t1.events,
                (#[trigger] t1.frosh[i]).event_id,
            ) by {
                let k = choose|k: int| 0 <= k < t.events.len() && (#[trigger] t.events[k]).id == t.frosh[i].event_id;
                assert(t1.events[k] == t.events[k]);
            }
            assert forall|i: int| 0 <= i < t1.members.len() implies crate::store::has_event(
                t1.events,
                (#[trigger] t1.members[i]).event_id,
            ) by {
                let k = choose|k: int| 0 <= k < t.events.len() && (#[trigger] t.events[k]).id == t.members[i].event_id;
                assert(t1.events[k] == t.events[k]);
            }
        }
        lemma_fresh_frosh_batch(t, frosh);
        lemma_fresh_member_batch(t, members);
        assert(t1.frosh == t.frosh && t1.members == t.members);
        if frosh.len() == 0 {
            assert(frosh_rows(id, frosh) =~= Seq::<crate::store::FroshRow>::empty());
            assert(t.frosh + frosh_rows(id, frosh) =~= t.frosh);
        }
        if members.len() == 0 {
            assert(member_rows(id, members) =~= Seq::<crate::store::MemberRow>::empty());
            assert(t.members + member_rows(id, members) =~= t.members);
        }
    }
}

/// A frosh's report reads only the event headers and the frosh table, a
/// member's only the headers and the member table: rows of the other
/// population never change it.
pub proof fn lemma_population_independence(
    t1: TableState,
    t2: TableState,
    who: AttendeeKey,
    cutoff: DateTime,
    f: StatusFilter,
    approved_only: bool,
)
    requires
        t1.events == t2.events,
        who is Frosh ==> t1.frosh == t2.frosh,
        who is Member ==> t1.members == t2.members,
    ensures
        attendance_dates(t1, who, cutoff, f, approved_only) == attendance_dates(
            t2,
            who,
            cutoff,
            f,
            approved_only,
        ),
{
    assert((|r: FroshRow| event_time(t1.events, r.event_id)) =~= (|r: FroshRow|
        event_time(t2.events, r.event_id)));
    assert((|r: MemberRow| event_time(t1.events, r.event_id)) =~= (|r: MemberRow|
        event_time(t2.events, r.event_id)));
    match who {
        AttendeeKey::Frosh(fid) => {
            assert(frosh_hit(t1, fid, cutoff, f, approved_only) =~= frosh_hit(
                t2,
                fid,
                cutoff,
                f,
                approved_only,
            ));
        },
        AttendeeKey::Member(h) => {
            assert(member_hit(t1, h, cutoff, f, approved_only) =~= member_hit(
                t2,
                h,
                cutoff,
                f,
                approved_only,
            ));
        },
    }
}

/// Two ascending sequences of moments with the same elements are equal.
pub proof fn lemma_sorted_times_unique(a: Seq<DateTime>, b: Seq<DateTime>)
    requires
        sorted_times(a),
        sorted_times(b),
        a.to_multiset() == b.to_multiset(),
    ensures
        a == b,
    decreases a.len(),
{
    assert(a.to_multiset().len() == a.len());
    assert(b.to_multiset().len() == b.len());
    if a.len() == 0 {
        assert(a =~= b);
    } else {
        assert(a.contains(a[0]));
        assert(b.to_multiset().count(a[0]) > 0);
        assert(b.contains(a[0]));
        let j = choose|j: int| 0 <= j < b.len() && b[j] == a[0];
        assert(b.contains(b[0]));
        assert(a.to_multiset().count(b[0]) > 0);
        assert(a.contains(b[0]));
        let k = choose|k: int| 0 <= k < a.len() && a[k] == b[0];
        if j > 0 {
            assert(b[0].spec_le(b[j]));
        }
        if k > 0 {
            assert(a[0].spec_le(a[k]));
        }
        assert(a[0] == b[0]);
        assert(a.remove(0) =~= a.drop_first());
        assert(b.remove(0) =~= b.drop_first());
        assert(a.drop_first().to_multiset() =~= b.drop_first().to_multiset());
        lemma_sorted_times_unique(a.drop_first(), b.drop_first());
        assert forall|i: int| 0 <= i < a.len() implies a[i] == b[i] by {
            if i > 0 {
                assert(a[i] == a.drop_first()[i - 1]);
                assert(b[i] == b.drop_first()[i - 1]);
            }
        }
        assert(a =~= b);
    }
}

/// An attendance report is a function of the tables, the attendee, the
/// cutoff and the filter: any two results that meet its contract are equal.
pub proof fn lemma_report_determined(
    r1: Seq<DateTime>,
    r2: Seq<DateTime>,
    t: TableState,
    who: AttendeeKey,
    cutoff: DateTime,
    f: StatusFilter,
    approved_only: bool,
)
    requires
        sorted_times(r1),
        sorted_times(r2),
        r1.to_multiset() == attendance_dates(t, who, cutoff, f, approved_only).to_multiset(),
        r2.to_multiset() == attendance_dates(t, who, cutoff, f, approved_only).to_multiset(),
    ensures
        r1 == r2,
{
    lemma_sorted_times_unique(r1, r2);
}

} // verus!
