use vstd::prelude::*;

use crate::date::DateTime;
use crate::engine::{delete_spec, edit_spec, submit_spec};
use crate::error::StoreError;
use crate::schema::{FroshHouseAttendance, MemberHouseAttendance};
use crate::store::{EventLabel, TableState};

verus! {

/// One statement of a write sequence against a relational store, in the
/// transaction that the whole sequence shares. The event a statement is about
/// is the one that the sequence created, or the one it was asked to change.
pub enum Statement {
    /// Insert the event header; the store returns the generated id.
    InsertEvent { occurred_at: DateTime, approved: bool, label: EventLabel },
    /// One set-oriented insert of frosh rows.
    InsertFrosh(Vec<FroshHouseAttendance>),
    /// One set-oriented insert of member rows.
    InsertMembers(Vec<MemberHouseAttendance>),
    /// Delete every frosh row of the event.
    DeleteFrosh,
    /// Delete every member row of the event.
    DeleteMembers,
    /// Delete the event header.
    DeleteEvent,
}

pub enum StatementView {
    InsertEvent { occurred_at: DateTime, approved: bool, label: EventLabel },
    InsertFrosh(Seq<FroshHouseAttendance>),
    InsertMembers(Seq<MemberHouseAttendance>),
    DeleteFrosh,
    DeleteMembers,
    DeleteEvent,
}

impl View for Statement {
    type V = StatementView;

    open spec fn view(&self) -> StatementView {
        match self {
            Statement::InsertEvent { occurred_at, approved, label } => StatementView::InsertEvent {
                occurred_at: *occurred_at,
                approved: *approved,
                label: *label,
            },
            Statement::InsertFrosh(rows) => StatementView::InsertFrosh(rows@),
            Statement::InsertMembers(rows) => StatementView::InsertMembers(rows@),
            Statement::DeleteFrosh => StatementView::DeleteFrosh,
            Statement::DeleteMembers => StatementView::DeleteMembers,
            Statement::DeleteEvent => StatementView::DeleteEvent,
        }
    }
}

pub open spec fn plan_view(plan: Seq<Statement>) -> Seq<StatementView> {
    plan.map_values(|s: Statement| s@)
}

/// The bulk inserts of an attendance set: one per population, and none for
/// an empty list.
pub open spec fn batch_steps(
    frosh: Seq<FroshHouseAttendance>,
    members: Seq<MemberHouseAttendance>,
) -> Seq<StatementView> {
    (if frosh.len() > 0 {
        seq![StatementView::InsertFrosh(frosh)]
    } else {
        Seq::empty()
    }) + (if members.len() > 0 {
        seq![StatementView::InsertMembers(members)]
    } else {
        Seq::empty()
    })
}

fn copy_frosh(v: &Vec<FroshHouseAttendance>) -> (r: Vec<FroshHouseAttendance>)
    ensures
        r@ == v@,
{
    let mut out: Vec<FroshHouseAttendance> = Vec::new();
    let mut i: usize = 0;
    while i < v.len()
        invariant
            0 <= i <= v@.len(),
            out@ == v@.subrange(0, i as int),
        decreases v.len() - i,
    {
        out.push(v[i]);
        i = i + 1;
        assert(out@ =~= v@.subrange(0, i as int));
    }
    assert(v@.subrange(0, i as int) =~= v@);
    out
}

fn copy_members(v: &Vec<MemberHouseAttendance>) -> (r: Vec<MemberHouseAttendance>)
    ensures
        r@ == v@,
{
    let mut out: Vec<MemberHouseAttendance> = Vec::new();
    let mut i: usize = 0;
    while i < v.len()
        invariant
            0 <= i <= v@.len(),
            out@ == v@.subrange(0, i as int),
        decreases v.len() - i,
    {
        out.push(MemberHouseAttendance { name: v[i].name.clone(), att_status: v[i].att_status });
        i = i + 1;
        assert(out@ =~= v@.subrange(0, i as int));
    }
    assert(v@.subrange(0, i as int) =~= v@);
    out
}

fn push_batches(
    plan: &mut Vec<Statement>,
    frosh: &Vec<FroshHouseAttendance>,
    members: &Vec<MemberHouseAttendance>,
)
    ensures
        plan_view(final(plan)@) == plan_view(old(plan)@) + batch_steps(frosh@, members@),
{
    let ghost start = plan_view(plan@);
    if frosh.len() > 0 {
        plan.push(Statement::InsertFrosh(copy_frosh(frosh)));
    }
    let ghost mid = plan_view(plan@);
    assert(mid =~= start + (if frosh@.len() > 0 {
        seq![StatementView::InsertFrosh(frosh@)]
    } else {
        Seq::empty()
    }));
    if members.len() > 0 {
        plan.push(Statement::InsertMembers(copy_members(members)));
    }
    assert(plan_view(plan@) =~= start + batch_steps(frosh@, members@));
}

/// The statements that submit an event: its header first, since every
/// attendance row needs its id, then the bulk inserts.
pub fn submit_plan(
    occurred_at: DateTime,
    approved: bool,
    label: EventLabel,
    frosh: &Vec<FroshHouseAttendance>,
    members: &Vec<MemberHouseAttendance>,
) -> (r: Vec<Statement>)
    ensures
        plan_view(r@) == seq![StatementView::InsertEvent { occurred_at, approved, label }]
            + batch_steps(frosh@, members@),
{
    let mut plan: Vec<Statement> = Vec::new();
    plan.push(Statement::InsertEvent { occurred_at, approved, label });
    assert(plan_view(plan@) =~= seq![StatementView::InsertEvent { occurred_at, approved, label }]);
    push_batches(&mut plan, frosh, members);
    plan
}

/// The statements that replace an event's attendance: both deletes strictly
/// before the inserts.
pub fn edit_plan(frosh: &Vec<FroshHouseAttendance>, members: &Vec<MemberHouseAttendance>) -> (r:
    Vec<Statement>)
    ensures
        plan_view(r@) == seq![StatementView::DeleteFrosh, StatementView::DeleteMembers]
            + batch_steps(frosh@, members@),
{
    let mut plan: Vec<Statement> = Vec::new();
    plan.push(Statement::DeleteFrosh);
    plan.push(Statement::DeleteMembers);
    assert(plan_view(plan@) =~= seq![StatementView::DeleteFrosh, StatementView::DeleteMembers]);
    push_batches(&mut plan, frosh, members);
    plan
}

/// The statements that delete an event: children before the parent.
pub fn delete_plan() -> (r: Vec<Statement>)
    ensures
        plan_view(r@) == seq![
            StatementView::DeleteFrosh,
            StatementView::DeleteMembers,
            StatementView::DeleteEvent,
        ],
{
    let mut plan: Vec<Statement> = Vec::new();
    plan.push(Statement::DeleteFrosh);
    plan.push(Statement::DeleteMembers);
    plan.push(Statement::DeleteEvent);
    assert(plan_view(plan@) =~= seq![
        StatementView::DeleteFrosh,
        StatementView::DeleteMembers,
        StatementView::DeleteEvent,
    ]);
    plan
}

/// What a runner does with the next statement of a plan.
#[derive(Clone, Copy, Debug, PartialEq, Eq, Structural)]
pub enum StepAction {
    /// Insert the header; the id the store returns is the plan's event from then on.
    CreateEvent,
    /// Run the statement against this event.
    Apply(i32),
    /// A delete with no event to delete from: nothing to run.
    Skip,
    /// An insert with no event to refer to: the sequence fails here.
    Refuse(StoreError),
}

pub open spec fn step_action_spec(s: StatementView, target: Option<i32>) -> StepAction {
    match s {
        StatementView::InsertEvent { .. } => StepAction::CreateEvent,
        StatementView::InsertFrosh(_) | StatementView::InsertMembers(_) => match target {
            Some(id) => StepAction::Apply(id),
            None => StepAction::Refuse(StoreError::ForeignKeyViolation),
        },
        _ => match target {
            Some(id) => StepAction::Apply(id),
            None => StepAction::Skip,
        },
    }
}

/// The decision for the next statement, as [`step_spec`] takes it.
pub fn step_action(statement: &Statement, target: Option<i32>) -> (r: StepAction)
    ensures
        r == step_action_spec(statement@, target),
{
    match statement {
        Statement::InsertEvent { .. } => StepAction::CreateEvent,
        Statement::InsertFrosh(_) | Statement::InsertMembers(_) => match target {
            Some(id) => StepAction::Apply(id),
            None => StepAction::Refuse(StoreError::ForeignKeyViolation),
        },
        _ => match target {
            Some(id) => StepAction::Apply(id),
            None => StepAction::Skip,
        },
    }
}

/// The event that the rest of a plan is about, after a statement ran: the
/// generated id after the header insert, the same event otherwise.
pub fn next_target(statement: &Statement, target: Option<i32>, generated: Option<i32>) -> (r:
    Option<i32>)
    ensures
        r == (if statement@ is InsertEvent {
            generated
        } else {
            target
        }),
{
    match statement {
        Statement::InsertEvent { .. } => generated,
        _ => target,
    }
}

/// Every statement that [`step_action`] refuses fails in [`step_spec`] with the
/// same error, and every one it skips leaves the tables as they are.
pub proof fn lemma_step_action_agrees(t: TableState, s: StatementView, target: Option<i32>)
    ensures
        step_action_spec(s, target) matches StepAction::Refuse(e) ==> step_spec(t, s, target)
            == Err::<(TableState, Option<i32>), StoreError>(e),
        step_action_spec(s, target) is Skip ==> step_spec(t, s, target) == Ok::<
            (TableState, Option<i32>),
            StoreError,
        >((t, target)),
{
}

/// What one statement does to the tables; `target` is the event that the
/// sequence is about, once it is known.
pub open spec fn step_spec(t: TableState, s: StatementView, target: Option<i32>) -> Result<
    (TableState, Option<i32>),
    StoreError,
> {
    match s {
        StatementView::InsertEvent { occurred_at, approved, label } => match t.insert_event(
            occurred_at,
            approved,
            label,
        ) {
            Ok((t1, id)) => Ok((t1, Some(id))),
            Err(e) => Err(e),
        },
        StatementView::InsertFrosh(rows) => match target {
            None => Err(StoreError::ForeignKeyViolation),
            Some(id) => match t.insert_frosh(id, rows) {
                Ok(t1) => Ok((t1, target)),
                Err(e) => Err(e),
            },
        },
        StatementView::InsertMembers(rows) => match target {
            None => Err(StoreError::ForeignKeyViolation),
            Some(id) => match t.insert_members(id, rows) {
                Ok(t1) => Ok((t1, target)),
                Err(e) => Err(e),
            },
        },
        StatementView::DeleteFrosh => match target {
            None => Ok((t, target)),
            Some(id) => Ok((t.delete_frosh(id), target)),
        },
        StatementView::DeleteMembers => match target {
            None => Ok((t, target)),
            Some(id) => Ok((t.delete_members(id), target)),
        },
        StatementView::DeleteEvent => match target {
            None => Ok((t, target)),
            Some(id) => match t.delete_event(id) {
                Ok(t1) => Ok((t1, target)),
                Err(e) => Err(e),
            },
        },
    }
}

/// A statement sequence run in order, stopping at the first failure.
pub open spec fn run_spec(t: TableState, steps: Seq<StatementView>, target: Option<i32>) -> Result<
    (TableState, Option<i32>),
    StoreError,
>
    decreases steps.len(),
{
    if steps.len() == 0 {
        Ok((t, target))
    } else {
        match step_spec(t, steps[0], target) {
            Ok((t1, target1)) => run_spec(t1, steps.drop_first(), target1),
            Err(e) => Err(e),
        }
    }
}

proof fn lemma_run_empty(t: TableState, target: Option<i32>)
    ensures
        run_spec(t, Seq::empty(), target) == Ok::<(TableState, Option<i32>), StoreError>(
            (t, target),
        ),
{
}

proof fn lemma_run_cons(
    t: TableState,
    s: StatementView,
    rest: Seq<StatementView>,
    target: Option<i32>,
)
    ensures
        run_spec(t, seq![s] + rest, target) == match step_spec(t, s, target) {
            Ok((t1, target1)) => run_spec(t1, rest, target1),
            Err(e) => Err(e),
        },
{
    assert((seq![s] + rest).drop_first() =~= rest);
    assert((seq![s] + rest)[0] == s);
}

proof fn lemma_run_one(t: TableState, s: StatementView, target: Option<i32>)
    ensures
        run_spec(t, seq![s], target) == step_spec(t, s, target),
{
    lemma_run_cons(t, s, Seq::empty(), target);
    assert(seq![s] + Seq::<StatementView>::empty() =~= seq![s]);
    match step_spec(t, s, target) {
        Ok((t1, target1)) => lemma_run_empty(t1, target1),
        Err(_) => {},
    }
}

proof fn lemma_run_batches(
    t: TableState,
    id: i32,
    frosh: Seq<FroshHouseAttendance>,
    members: Seq<MemberHouseAttendance>,
)
    ensures
        run_spec(t, batch_steps(frosh, members), Some(id)) == match t.insert_frosh(id, frosh) {
            Err(e) => Err(e),
            Ok(t2) => match t2.insert_members(id, members) {
                Err(e) => Err(e),
                Ok(t3) => Ok((t3, Some(id))),
            },
        },
{
    let f = StatementView::InsertFrosh(frosh);
    let m = StatementView::InsertMembers(members);
    let b = batch_steps(frosh, members);
    if frosh.len() > 0 {
        if members.len() > 0 {
            assert(b =~= seq![f] + seq![m]);
            lemma_run_cons(t, f, seq![m], Some(id));
            match t.insert_frosh(id, frosh) {
                Ok(t2) => lemma_run_one(t2, m, Some(id)),
                Err(_) => {},
            }
        } else {
            assert(b =~= seq![f]);
            lemma_run_one(t, f, Some(id));
        }
    } else {
        if members.len() > 0 {
            assert(b =~= seq![m]);
            lemma_run_one(t, m, Some(id));
        } else {
            assert(b =~= Seq::<StatementView>::empty());
            lemma_run_empty(t, Some(id));
        }
    }
}

/// Running the submit plan on the tables is the engine's submit: the header,
/// then both bulk inserts, under the generated id.
pub proof fn lemma_submit_plan_runs_as_submit(
    t: TableState,
    occurred_at: DateTime,
    approved: bool,
    label: EventLabel,
    frosh: Seq<FroshHouseAttendance>,
    members: Seq<MemberHouseAttendance>,
)
    ensures
        run_spec(
            t,
            seq![StatementView::InsertEvent { occurred_at, approved, label }] + batch_steps(
                frosh,
                members,
            ),
            None,
        ) == match submit_spec(t, occurred_at, approved, label, frosh, members) {
            Ok((t3, id)) => Ok((t3, Some(id))),
            Err(e) => Err(e),
        },
{
    lemma_run_cons(
        t,
        StatementView::InsertEvent { occurred_at, approved, label },
        batch_steps(frosh, members),
        None,
    );
    match t.insert_event(occurred_at, approved, label) {
        Ok((t1, id)) => {
            lemma_run_batches(t1, id, frosh, members);
        },
        Err(_) => {},
    }
}

/// Running the edit plan on an event is the engine's edit of it.
pub proof fn lemma_edit_plan_runs_as_edit(
    t: TableState,
    event_id: i32,
    frosh: Seq<FroshHouseAttendance>,
    members: Seq<MemberHouseAttendance>,
)
    ensures
        run_spec(
            t,
            seq![StatementView::DeleteFrosh, StatementView::DeleteMembers] + batch_steps(
                frosh,
                members,
            ),
            Some(event_id),
        ) == match edit_spec(t, event_id, frosh, members) {
            Ok(t3) => Ok((t3, Some(event_id))),
            Err(e) => Err(e),
        },
{
    let rest = batch_steps(frosh, members);
    let t1 = t.delete_frosh(event_id);
    let t2 = t1.delete_members(event_id);
    assert(seq![StatementView::DeleteFrosh, StatementView::DeleteMembers] + rest =~= seq![
        StatementView::DeleteFrosh,
    ] + (seq![StatementView::DeleteMembers] + rest));
    lemma_run_cons(
        t,
        StatementView::DeleteFrosh,
        seq![StatementView::DeleteMembers] + rest,
        Some(event_id),
    );
    lemma_run_cons(t1, StatementView::DeleteMembers, rest, Some(event_id));
    lemma_run_batches(t2, event_id, frosh, members);
}

/// Running the delete plan on an event is the engine's cascading delete.
pub proof fn lemma_delete_plan_runs_as_delete(t: TableState, event_id: i32)
    ensures
        run_spec(
            t,
            seq![
                StatementView::DeleteFrosh,
                StatementView::DeleteMembers,
                StatementView::DeleteEvent,
            ],
            Some(event_id),
        ) == match delete_spec(t, event_id) {
            Ok(t3) => Ok((t3, Some(event_id))),
            Err(e) => Err(e),
        },
{
    let t1 = t.delete_frosh(event_id);
    let t2 = t1.delete_members(event_id);
    assert(seq![
        StatementView::DeleteFrosh,
        StatementView::DeleteMembers,
        StatementView::DeleteEvent,
    ] =~= seq![StatementView::DeleteFrosh] + (seq![StatementView::DeleteMembers] + seq![
        StatementView::DeleteEvent,
    ]));
    assert(seq![StatementView::DeleteMembers, StatementView::DeleteEvent] =~= seq![
        StatementView::DeleteMembers,
    ] + seq![StatementView::DeleteEvent]);
    lemma_run_cons(
        t,
        StatementView::DeleteFrosh,
        seq![StatementView::DeleteMembers] + seq![StatementView::DeleteEvent],
        Some(event_id),
    );
    lemma_run_cons(
        t1,
        StatementView::DeleteMembers,
        seq![StatementView::DeleteEvent],
        Some(event_id),
    );
    lemma_run_one(t2, StatementView::DeleteEvent, Some(event_id));
}

} // verus!
