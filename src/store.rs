//! The reminder store: reminders are created whole, and claimed (read and
//! removed in one step) once they are due.

use vstd::prelude::*;
use crate::instant::Instant;

verus! {

/// A stored reminder.
#[derive(Debug)]
pub struct Reminder {
    /// Assigned by the store, unique among the reminders it ever held.
    pub id: i32,
    /// Who is to be reminded.
    pub user_id: String,
    /// When the reminder becomes due.
    pub due_at: Instant,
    /// What to remind of; may be empty.
    pub message: String,
}

/// A reminder as a mathematical value.
pub ghost struct ReminderView {
    pub id: int,
    pub user_id: Seq<char>,
    pub due_at: Instant,
    pub message: Seq<char>,
}

impl View for Reminder {
    type V = ReminderView;

    open spec fn view(&self) -> ReminderView {
        ReminderView {
            id: self.id as int,
            user_id: self.user_id@,
            due_at: self.due_at,
            message: self.message@,
        }
    }
}

/// A reminder is due at `now` when its instant is at or before `now`.
pub open spec fn is_due(r: ReminderView, now: Instant) -> bool {
    r.due_at.spec_le(now)
}

/// Why the store could not do what it was asked.
#[derive(Clone, Copy, Debug, PartialEq, Eq, Structural)]
pub enum StorageError {
    /// Every identifier the store can assign has been used.
    IdsExhausted,
}

/// The store as a mathematical value: its reminders, oldest first, and the
/// identifier the next reminder will get.
pub ghost struct StoreState {
    pub rows: Seq<ReminderView>,
    pub next_id: int,
}

impl StoreState {
    /// Identifiers are positive, increase from oldest to newest, and lie below
    /// `next_id`; every due instant is well formed.
    pub open spec fn wf(self) -> bool {
        &&& 1 <= self.next_id <= i32::MAX
        &&& forall|i: int| 0 <= i < self.rows.len() ==> 1 <= #[trigger] self.rows[i].id < self.next_id
        &&& forall|i: int, j: int|
            0 <= i < j < self.rows.len() ==> #[trigger] self.rows[i].id < #[trigger] self.rows[j].id
        &&& forall|i: int| 0 <= i < self.rows.len() ==> (#[trigger] self.rows[i]).due_at.wf()
    }

    /// Some stored reminder has identifier `id`.
    pub open spec fn holds_id(self, id: int) -> bool {
        exists|i: int| 0 <= i < self.rows.len() && #[trigger] self.rows[i].id == id
    }

    /// `id` was handed out once and is no longer stored.
    pub open spec fn retired(self, id: int) -> bool {
        1 <= id < self.next_id && !self.holds_id(id)
    }
}

/// The store after creating a reminder, where an identifier is left.
pub open spec fn create_spec(
    s: StoreState,
    user_id: Seq<char>,
    due_at: Instant,
    message: Seq<char>,
) -> StoreState {
    StoreState {
        rows: s.rows.push(ReminderView { id: s.next_id, user_id, due_at, message }),
        next_id: s.next_id + 1,
    }
}

/// The store after claiming at `now`: the reminders that are not yet due.
pub open spec fn claim_rest(s: StoreState, now: Instant) -> StoreState {
    StoreState { rows: s.rows.filter(|r: ReminderView| !is_due(r, now)), next_id: s.next_id }
}

/// What claiming at `now` hands out: the due reminders, oldest first.
pub open spec fn claim_out(s: StoreState, now: Instant) -> Seq<ReminderView> {
    s.rows.filter(|r: ReminderView| is_due(r, now))
}

/// The views of a sequence of reminders.
pub open spec fn views(rows: Seq<Reminder>) -> Seq<ReminderView> {
    rows.map_values(|r: Reminder| r@)
}

/// Holds reminders until they are due.
pub struct ReminderStore {
    rows: Vec<Reminder>,
    next_id: i32,
}

impl View for ReminderStore {
    type V = StoreState;

    closed spec fn view(&self) -> StoreState {
        StoreState { rows: views(self.rows@), next_id: self.next_id as int }
    }
}

/// Filtering a sequence with one more element at its end.
proof fn lemma_filter_push(s: Seq<ReminderView>, x: ReminderView, p: spec_fn(ReminderView) -> bool)
    ensures
        s.push(x).filter(p) == (if p(x) {
            s.filter(p).push(x)
        } else {
            s.filter(p)
        }),
{
    reveal(Seq::filter);
    assert(s.push(x).drop_last() =~= s);
    assert(s.push(x).last() == x);
}

/// What a filter keeps comes from the sequence filtered.
proof fn lemma_filter_from(s: Seq<ReminderView>, p: spec_fn(ReminderView) -> bool, i: int)
    requires
        0 <= i < s.filter(p).len(),
    ensures
        s.contains(s.filter(p)[i]),
        p(s.filter(p)[i]),
    decreases s.len(),
{
    reveal(Seq::filter);
    s.lemma_filter_len(p);
    if s.len() > 0 {
        let rest = s.drop_last();
        rest.lemma_filter_len(p);
        if i < rest.filter(p).len() {
            lemma_filter_from(rest, p, i);
            let k = choose|k: int| 0 <= k < rest.len() && rest[k] == rest.filter(p)[i];
            assert(s[k] == s.filter(p)[i]);
        } else {
            assert(s[s.len() - 1] == s.filter(p)[i]);
        }
    }
}

/// A filter keeps every element that passes it.
proof fn lemma_filter_keeps(s: Seq<ReminderView>, p: spec_fn(ReminderView) -> bool, i: int)
    requires
        0 <= i < s.len(),
        p(s[i]),
    ensures
        s.filter(p).contains(s[i]),
    decreases s.len(),
{
    reveal(Seq::filter);
    let rest = s.drop_last();
    if i < s.len() - 1 {
        assert(rest[i] == s[i]);
        lemma_filter_keeps(rest, p, i);
        let k = choose|k: int| 0 <= k < rest.filter(p).len() && rest.filter(p)[k] == s[i];
        if p(s.last()) {
            assert(s.filter(p)[k] == s[i]);
        }
    } else {
        assert(s.filter(p).last() == s[i]);
    }
}

/// A filter of a well-formed store's rows keeps identifiers increasing and held.
proof fn lemma_filter_wf(s: StoreState, p: spec_fn(ReminderView) -> bool)
    requires
        s.wf(),
    ensures
        (StoreState { rows: s.rows.filter(p), next_id: s.next_id }).wf(),
        forall|id: int| s.retired(id) ==> (StoreState { rows: s.rows.filter(p), next_id: s.next_id }).retired(id),
    decreases s.rows.len(),
{
    reveal(Seq::filter);
    if s.rows.len() > 0 {
        let rest = StoreState { rows: s.rows.drop_last(), next_id: s.next_id };
        lemma_filter_wf(rest, p);
        let f = rest.rows.filter(p);
        assert forall|i: int| 0 <= i < f.len() implies #[trigger] f[i].id < s.rows.last().id by {
            lemma_filter_from(rest.rows, p, i);
        }
        assert forall|id: int| s.retired(id) implies rest.retired(id) by {
            if rest.holds_id(id) {
                let k = choose|k: int| 0 <= k < rest.rows.len() && #[trigger] rest.rows[k].id == id;
                assert(s.rows[k].id == id);
            }
        }
        let t = StoreState { rows: s.rows.filter(p), next_id: s.next_id };
        let last = s.rows.last();
        assert(s.rows.drop_last().push(last) =~= s.rows);
        lemma_filter_push(rest.rows, last, p);
        let fv = StoreState { rows: f, next_id: s.next_id };
        assert(fv.wf());
        assert(last.id < s.next_id && 1 <= last.id && last.due_at.wf());
        if p(last) {
            assert(t.rows == f.push(last));
            assert forall|i: int, j: int| 0 <= i < j < t.rows.len() implies #[trigger] t.rows[i].id
                < #[trigger] t.rows[j].id by {
                if j == t.rows.len() - 1 {
                    assert(t.rows[i] == f[i] && t.rows[j] == last);
                    assert(f[i].id < last.id);
                } else {
                    assert(f[i] == t.rows[i] && f[j] == t.rows[j]);
                    assert(fv.rows[i].id < fv.rows[j].id);
                }
            }
            assert forall|i: int| 0 <= i < t.rows.len() implies 1 <= (#[trigger] t.rows[i]).id
                < t.next_id && t.rows[i].due_at.wf() by {
                if i < f.len() {
                    assert(t.rows[i] == f[i]);
                    assert(1 <= fv.rows[i].id < fv.next_id && fv.rows[i].due_at.wf());
                } else {
                    assert(t.rows[i] == last);
                }
            }
        } else {
            assert(t.rows == f);
            assert(t == fv);
        }
        assert forall|id: int| s.retired(id) implies t.retired(id) by {
            if t.holds_id(id) {
                let k = choose|k: int| 0 <= k < t.rows.len() && #[trigger] t.rows[k].id == id;
                if k < f.len() {
                    assert(f[k] == t.rows[k]);
                    assert(f[k].id == id);
                    lemma_filter_from(rest.rows, p, k);
                    let m = choose|m: int| 0 <= m < rest.rows.len() && rest.rows[m] == f[k];
                    assert(rest.rows[m].id == id);
                    assert(rest.holds_id(id));
                } else {
                    assert(s.rows[s.rows.len() - 1].id == id);
                }
            }
        }
        assert(t.wf());
    } else {
        assert(s.rows.filter(p).len() == 0);
    }
}

/// Creating a reminder keeps the store well formed and keeps retired
/// identifiers retired.
proof fn lemma_create_wf(o: StoreState, user_id: Seq<char>, due_at: Instant, message: Seq<char>)
    requires
        o.wf(),
        o.next_id < i32::MAX,
        due_at.wf(),
    ensures
        create_spec(o, user_id, due_at, message).wf(),
        forall|id: int| o.retired(id) ==> create_spec(o, user_id, due_at, message).retired(id),
{
    let v = create_spec(o, user_id, due_at, message);
    assert forall|i: int, j: int| 0 <= i < j < v.rows.len() implies #[trigger] v.rows[i].id
        < #[trigger] v.rows[j].id by {
        if j < o.rows.len() {
            assert(o.rows[i] == v.rows[i] && o.rows[j] == v.rows[j]);
        } else {
            assert(o.rows[i] == v.rows[i]);
        }
    }
    assert forall|i: int| 0 <= i < v.rows.len() implies 1 <= (#[trigger] v.rows[i]).id < v.next_id
        && v.rows[i].due_at.wf() by {
        if i < o.rows.len() {
            assert(o.rows[i] == v.rows[i]);
        }
    }
    assert forall|id: int| o.retired(id) implies v.retired(id) by {
        if v.holds_id(id) {
            let k = choose|k: int| 0 <= k < v.rows.len() && #[trigger] v.rows[k].id == id;
            if k < o.rows.len() {
                assert(o.rows[k] == v.rows[k]);
            }
        }
    }
}

/// An operation on the store, as a mathematical value.
pub ghost enum StoreOp {
    Create { user_id: Seq<char>, due_at: Instant, message: Seq<char> },
    ClaimDue { now: Instant },
}

/// An operation that the store's methods accept: a created reminder has a
/// well-formed due instant.
pub open spec fn op_ok(op: StoreOp) -> bool {
    op matches StoreOp::Create { due_at, .. } ==> due_at.wf()
}

/// The store after one operation.
pub open spec fn apply_op(s: StoreState, op: StoreOp) -> StoreState {
    match op {
        StoreOp::Create { user_id, due_at, message } => if s.next_id < i32::MAX {
            create_spec(s, user_id, due_at, message)
        } else {
            s
        },
        StoreOp::ClaimDue { now } => claim_rest(s, now),
    }
}

/// What one operation hands out.
pub open spec fn op_out(s: StoreState, op: StoreOp) -> Seq<ReminderView> {
    match op {
        StoreOp::ClaimDue { now } => claim_out(s, now),
        _ => Seq::empty(),
    }
}

/// The store after a sequence of operations.
pub open spec fn run_ops(s: StoreState, ops: Seq<StoreOp>) -> StoreState
    decreases ops.len(),
{
    if ops.len() == 0 {
        s
    } else {
        run_ops(apply_op(s, ops[0]), ops.drop_first())
    }
}

/// Everything a sequence of operations hands out, in order.
pub open spec fn handed_out(s: StoreState, ops: Seq<StoreOp>) -> Seq<ReminderView>
    decreases ops.len(),
{
    if ops.len() == 0 {
        Seq::empty()
    } else {
        op_out(s, ops[0]) + handed_out(apply_op(s, ops[0]), ops.drop_first())
    }
}

/// A retired identifier stays retired through any operations, and none of
/// them hands out a reminder with it.
proof fn lemma_retired_stays(s: StoreState, ops: Seq<StoreOp>, id: int)
    requires
        s.wf(),
        s.retired(id),
        forall|k: int| 0 <= k < ops.len() ==> op_ok(#[trigger] ops[k]),
    ensures
        run_ops(s, ops).wf(),
        run_ops(s, ops).retired(id),
        forall|j: int| 0 <= j < handed_out(s, ops).len() ==> #[trigger] handed_out(s, ops)[j].id != id,
    decreases ops.len(),
{
    if ops.len() > 0 {
        let op = ops[0];
        assert(op_ok(ops[0]));
        let t = apply_op(s, op);
        match op {
            StoreOp::Create { user_id, due_at, message } => {
                if s.next_id < i32::MAX {
                    lemma_create_wf(s, user_id, due_at, message);
                }
            },
            StoreOp::ClaimDue { now } => {
                lemma_filter_wf(s, |r: ReminderView| !is_due(r, now));
                let out = claim_out(s, now);
                assert forall|j: int| 0 <= j < out.len() implies #[trigger] out[j].id != id by {
                    lemma_filter_from(s.rows, |r: ReminderView| is_due(r, now), j);
                    let m = choose|m: int| 0 <= m < s.rows.len() && s.rows[m] == out[j];
                    assert(s.rows[m].id == out[j].id);
                }
            },
        }
        let rest = ops.drop_first();
        assert forall|k: int| 0 <= k < rest.len() implies op_ok(#[trigger] rest[k]) by {
            assert(rest[k] == ops[k + 1]);
        }
        lemma_retired_stays(t, rest, id);
        let out = op_out(s, op);
        let later = handed_out(t, rest);
        assert forall|j: int| 0 <= j < handed_out(s, ops).len() implies #[trigger] handed_out(
            s,
            ops,
        )[j].id != id by {
            if j < out.len() {
                assert(handed_out(s, ops)[j] == out[j]);
            } else {
                assert(handed_out(s, ops)[j] == later[j - out.len()]);
            }
        }
    }
}

/// Claiming at `now` hands out exactly the stored reminders that are due at
/// `now`, and keeps exactly those that are not.
pub proof fn lemma_claim_exact(s: StoreState, now: Instant, r: ReminderView)
    requires
        s.wf(),
        s.rows.contains(r),
    ensures
        claim_out(s, now).contains(r) <==> is_due(r, now),
        claim_rest(s, now).rows.contains(r) <==> !is_due(r, now),
{
    let due = |x: ReminderView| is_due(x, now);
    let not_due = |x: ReminderView| !is_due(x, now);
    let i = choose|i: int| 0 <= i < s.rows.len() && s.rows[i] == r;
    if is_due(r, now) {
        lemma_filter_keeps(s.rows, due, i);
    } else {
        lemma_filter_keeps(s.rows, not_due, i);
    }
    if claim_out(s, now).contains(r) {
        let j = choose|j: int| 0 <= j < claim_out(s, now).len() && claim_out(s, now)[j] == r;
        lemma_filter_from(s.rows, due, j);
    }
    if claim_rest(s, now).rows.contains(r) {
        let j = choose|j: int| 0 <= j < claim_rest(s, now).rows.len() && claim_rest(s, now).rows[j] == r;
        lemma_filter_from(s.rows, not_due, j);
    }
}

/// A reminder handed out by a claim is gone from the store, and no later
/// sequence of operations stores it again or hands it out again.
pub proof fn lemma_claimed_never_again(s: StoreState, now: Instant, ops: Seq<StoreOp>, i: int)
    requires
        s.wf(),
        0 <= i < claim_out(s, now).len(),
        forall|k: int| 0 <= k < ops.len() ==> op_ok(#[trigger] ops[k]),
    ensures
        !claim_rest(s, now).holds_id(claim_out(s, now)[i].id),
        !run_ops(claim_rest(s, now), ops).holds_id(claim_out(s, now)[i].id),
        forall|j: int|
            0 <= j < handed_out(claim_rest(s, now), ops).len() ==> #[trigger] handed_out(
                claim_rest(s, now),
                ops,
            )[j].id != claim_out(s, now)[i].id,
{
    let due = |x: ReminderView| is_due(x, now);
    let not_due = |x: ReminderView| !is_due(x, now);
    let r = claim_out(s, now)[i];
    let t = claim_rest(s, now);
    lemma_filter_from(s.rows, due, i);
    let m = choose|m: int| 0 <= m < s.rows.len() && s.rows[m] == r;
    assert(s.rows[m].id == r.id);
    lemma_filter_wf(s, not_due);
    if t.holds_id(r.id) {
        let k = choose|k: int| 0 <= k < t.rows.len() && #[trigger] t.rows[k].id == r.id;
        lemma_filter_from(s.rows, not_due, k);
        let n = choose|n: int| 0 <= n < s.rows.len() && s.rows[n] == t.rows[k];
        assert(s.rows[n].id == r.id);
        if n < m {
            assert(s.rows[n].id < s.rows[m].id);
        } else if m < n {
            assert(s.rows[m].id < s.rows[n].id);
        }
    }
    assert(t.retired(r.id));
    lemma_retired_stays(t, ops, r.id);
}

impl ReminderStore {
    /// The store's invariant.
    pub open spec fn wf(&self) -> bool {
        self@.wf()
    }

    /// An empty store; the first reminder gets identifier 1.
    pub fn new() -> (r: ReminderStore)
        ensures
            r.wf(),
            r@.rows.len() == 0,
            r@.next_id == 1,
    {
        let r = ReminderStore { rows: Vec::new(), next_id: 1 };
        assert(r@.rows =~= Seq::<ReminderView>::empty());
        r
    }

    /// The number of stored reminders.
    pub fn len(&self) -> (r: usize)
        ensures
            r == self@.rows.len(),
    {
        self.rows.len()
    }

    /// Stores a new reminder and returns its identifier; fails, storing
    /// nothing, when no identifier is left.
    pub fn create(&mut self, user_id: &str, due_at: Instant, message: &str) -> (r: Result<
        i32,
        StorageError,
    >)
        requires
            old(self).wf(),
            due_at.wf(),
        ensures
            final(self).wf(),
            old(self)@.next_id < i32::MAX ==> r == Ok::<i32, StorageError>(
                old(self)@.next_id as i32,
            ) && final(self)@ == create_spec(old(self)@, user_id@, due_at, message@),
            old(self)@.next_id == i32::MAX ==> r == Err::<i32, StorageError>(
                StorageError::IdsExhausted,
            ) && final(self)@ == old(self)@,
    {
        if self.next_id == i32::MAX {
            return Err(StorageError::IdsExhausted);
        }
        let id = self.next_id;
        let row = Reminder {
            id,
            user_id: user_id.to_owned(),
            due_at,
            message: message.to_owned(),
        };
        proof {
            assert(views(self.rows@.push(row)) =~= views(self.rows@).push(row@));
        }
        self.rows.push(row);
        self.next_id = id + 1;
        proof {
            lemma_create_wf(old(self)@, user_id@, due_at, message@);
        }
        Ok(id)
    }

    /// Removes every reminder due at `now` and returns them, oldest first.
    pub fn claim_due(&mut self, now: Instant) -> (r: Vec<Reminder>)
        requires
            old(self).wf(),
        ensures
            final(self).wf(),
            final(self)@ == claim_rest(old(self)@, now),
            views(r@) == claim_out(old(self)@, now),
    {
        let ghost start = self@;
        let mut pending: Vec<Reminder> = Vec::new();
        std::mem::swap(&mut self.rows, &mut pending);
        let mut kept: Vec<Reminder> = Vec::new();
        let mut claimed: Vec<Reminder> = Vec::new();
        let ghost due = |r: ReminderView| is_due(r, now);
        let ghost not_due = |r: ReminderView| !is_due(r, now);
        let ghost k: int = 0;
        assert(views(pending@) =~= start.rows);
        while pending.len() > 0
            invariant
                0 <= k <= start.rows.len(),
                views(pending@) == start.rows.skip(k),
                views(kept@) == start.rows.take(k).filter(not_due),
                views(claimed@) == start.rows.take(k).filter(due),
                self.next_id == start.next_id,
                due == (|r: ReminderView| is_due(r, now)),
                not_due == (|r: ReminderView| !is_due(r, now)),
            decreases pending.len(),
        {
            let ghost before = pending@;
            assert(views(before).len() == before.len());
            assert(views(before)[0] == start.rows[k]);
            let row = pending.remove(0);
            proof {
                assert(row@ == start.rows[k]);
                assert(pending@ =~= before.skip(1));
                assert(views(before.skip(1)) =~= views(before).skip(1));
                assert(views(pending@) =~= start.rows.skip(k + 1));
                assert(start.rows.take(k + 1) =~= start.rows.take(k).push(row@));
                lemma_filter_push(start.rows.take(k), row@, due);
                lemma_filter_push(start.rows.take(k), row@, not_due);
                k = k + 1;
            }
            if row.due_at.le(&now) {
                proof {
                    assert(views(claimed@.push(row)) =~= views(claimed@).push(row@));
                }
                claimed.push(row);
            } else {
                proof {
                    assert(views(kept@.push(row)) =~= views(kept@).push(row@));
                }
                kept.push(row);
            }
        }
        proof {
            assert(start.rows.take(k) =~= start.rows);
            lemma_filter_wf(start, not_due);
        }
        self.rows = kept;
        claimed
    }
}

} // verus!
