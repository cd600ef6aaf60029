//! What holds of a job board over any run of operations.

use crate::jobs::{job_id, without, BoardView, JobView, CAPACITY};
use crate::text::{decimal_text, lemma_decimal_injective};
use vstd::prelude::*;

verus! {

/// An operation on a board.
pub enum Op {
    Start,
    Complete(Seq<char>, Seq<char>),
    Take(Seq<char>),
}

/// The board after one operation.
pub open spec fn applied(b: BoardView, op: Op) -> BoardView {
    match op {
        Op::Start => b.started(),
        Op::Complete(id, answer) => b.completed(id, answer),
        Op::Take(id) => b.taken(id),
    }
}

/// The board after a run of operations.
pub open spec fn run(b: BoardView, ops: Seq<Op>) -> BoardView
    decreases ops.len(),
{
    if ops.len() == 0 {
        b
    } else {
        applied(run(b, ops.drop_last()), ops.last())
    }
}

/// How many jobs a run starts.
pub open spec fn starts(ops: Seq<Op>) -> nat
    decreases ops.len(),
{
    if ops.len() == 0 {
        0
    } else {
        starts(ops.drop_last()) + if ops.last() is Start { 1nat } else { 0nat }
    }
}

/// The operation is not for `id`.
pub open spec fn spares(op: Op, id: Seq<char>) -> bool {
    match op {
        Op::Start => true,
        Op::Complete(other, _) => other != id,
        Op::Take(other) => other != id,
    }
}

/// The operation brings no answer for `id`; it may be a collect of it.
pub open spec fn brings_no_answer(op: Op, id: Seq<char>) -> bool {
    match op {
        Op::Complete(other, _) => other != id,
        _ => true,
    }
}

/// Different numbers give different ids.
pub proof fn law_job_ids_differ(a: u64, b: u64)
    requires
        a != b,
    ensures
        job_id(a) != job_id(b),
{
    if job_id(a) == job_id(b) {
        assert(job_id(a).skip(1) =~= decimal_text(a as nat));
        assert(job_id(b).skip(1) =~= decimal_text(b as nat));
        lemma_decimal_injective(a as nat, b as nat);
    }
}

proof fn lemma_without_step(s: Seq<Seq<char>>, id: Seq<char>)
    requires
        s.len() > 0,
    ensures
        without(s, id) == if s.last() != id {
            without(s.drop_last(), id).push(s.last())
        } else {
            without(s.drop_last(), id)
        },
{
    reveal(Seq::filter);
}

proof fn lemma_filter_out(s: Seq<Seq<char>>, id: Seq<char>)
    ensures
        without(s, id).len() <= s.len(),
        forall|x: Seq<char>| #[trigger] without(s, id).contains(x) <==> s.contains(x) && x != id,
        s.no_duplicates() ==> without(s, id).no_duplicates(),
    decreases s.len(),
{
    if s.len() == 0 {
        reveal(Seq::filter);
    } else {
        let t = s.drop_last();
        lemma_without_step(s, id);
        lemma_filter_out(t, id);
        let f = without(t, id);
        assert forall|x: Seq<char>| #[trigger] without(s, id).contains(x) <==> s.contains(x) && x != id by {
            if s.contains(x) {
                let i = choose|i: int| 0 <= i < s.len() && s[i] == x;
                if i < t.len() {
                    assert(t[i] == x);
                    assert(t.contains(x));
                }
            }
            if t.contains(x) {
                let i = choose|i: int| 0 <= i < t.len() && t[i] == x;
                assert(s[i] == x);
                assert(s.contains(x));
            }
            assert(s[s.len() - 1] == s.last());
            assert(s.contains(s.last()));
            if s.last() != id {
                assert(without(s, id) == f.push(s.last()));
                if f.contains(x) {
                    let i = choose|i: int| 0 <= i < f.len() && f[i] == x;
                    assert(f.push(s.last())[i] == x);
                }
                assert(f.push(s.last())[f.len() as int] == s.last());
                if without(s, id).contains(x) && x != s.last() {
                    let i = choose|i: int| 0 <= i < without(s, id).len() && without(s, id)[i] == x;
                    assert(f[i] == x);
                    assert(f.contains(x));
                }
            } else {
                assert(without(s, id) == f);
            }
        }
        if s.no_duplicates() {
            assert(t.no_duplicates());
            if s.last() != id {
                assert(without(s, id) == f.push(s.last()));
                assert(!t.contains(s.last()));
                assert(!f.contains(s.last()));
            }
        }
    }
}

/// One operation keeps a board in order, as long as the job numbers last.
pub proof fn law_board_stays_in_order(b: BoardView, op: Op)
    requires
        b.wf(),
        op is Start ==> b.next < u64::MAX,
    ensures
        applied(b, op).wf(),
        applied(b, op).next == b.next + if op is Start { 1int } else { 0int },
{
    let c = applied(b, op);
    match op {
        Op::Start => {
            let k = b.excess();
            let room = b.dropped(k);
            let id = job_id(b.next);
            assert(!b.order.contains(id)) by {
                if b.order.contains(id) {
                    let i = choose|i: int| 0 <= i < b.order.len() && b.order[i] == id;
                    assert(b.issued(b.order[i]));
                    let n = choose|n: u64| n < b.next && id == #[trigger] job_id(n);
                    law_job_ids_differ(n, b.next);
                }
            }
            assert forall|i: int| 0 <= i < room.order.len() implies #[trigger] room.order[i] == b.order[i + k] by {}
            assert(c.order == room.order.push(id));
            assert forall|i: int| 0 <= i < c.order.len() implies c.issued(#[trigger] c.order[i]) by {
                if i < room.order.len() {
                    assert(c.order[i] == b.order[i + k]);
                    assert(b.issued(b.order[i + k]));
                    let n = choose|n: u64| n < b.next && b.order[i + k] == #[trigger] job_id(n);
                    assert(n < c.next && c.order[i] == job_id(n));
                } else {
                    assert(b.next < c.next && c.order[i] == job_id(b.next));
                }
            }
            assert forall|i: int, j: int| 0 <= i < c.order.len() && 0 <= j < c.order.len() && i != j implies c.order[i] != c.order[j] by {
                if i < room.order.len() {
                    assert(c.order[i] == b.order[i + k]);
                    assert(b.order.contains(b.order[i + k]));
                }
                if j < room.order.len() {
                    assert(c.order[j] == b.order[j + k]);
                    assert(b.order.contains(b.order[j + k]));
                }
            }
            assert forall|x: Seq<char>| c.order.to_set().contains(x) == c.by_id.dom().contains(x) by {
                if x != id && c.order.contains(x) {
                    let i = choose|i: int| 0 <= i < c.order.len() && c.order[i] == x;
                    assert(x == b.order[i + k]);
                    assert(b.order.to_set().contains(x));
                    if b.order.take(k).to_set().contains(x) {
                        let j = choose|j: int| 0 <= j < k && b.order.take(k)[j] == x;
                        assert(b.order[j] == b.order[i + k]);
                    }
                }
                if x != id && c.by_id.dom().contains(x) {
                    assert(b.order.to_set().contains(x));
                    let i = choose|i: int| 0 <= i < b.order.len() && b.order[i] == x;
                    if i < k {
                        assert(b.order.take(k)[i] == x);
                        assert(b.order.take(k).to_set().contains(x));
                    } else {
                        assert(c.order[i - k] == x);
                    }
                }
                assert(c.order[c.order.len() - 1] == id);
            }
            assert(c.order.to_set() =~= c.by_id.dom());
        },
        Op::Complete(id, answer) => {
            assert(c.by_id.dom() =~= b.by_id.dom());
            assert forall|i: int| 0 <= i < c.order.len() implies c.issued(#[trigger] c.order[i]) by {
                assert(b.issued(b.order[i]));
                let n = choose|n: u64| n < b.next && b.order[i] == #[trigger] job_id(n);
                assert(n < c.next && c.order[i] == job_id(n));
            }
        },
        Op::Take(id) => {
            if b.found(id) is Ready {
                lemma_filter_out(b.order, id);
                assert forall|i: int| 0 <= i < c.order.len() implies c.issued(#[trigger] c.order[i]) by {
                    assert(c.order.contains(c.order[i]));
                    assert(b.order.contains(c.order[i]));
                    let j = choose|j: int| 0 <= j < b.order.len() && b.order[j] == c.order[i];
                    assert(b.issued(b.order[j]));
                    let n = choose|n: u64| n < b.next && b.order[j] == #[trigger] job_id(n);
                    assert(n < c.next && c.order[i] == job_id(n));
                }
                assert forall|x: Seq<char>| c.order.to_set().contains(x) == c.by_id.dom().contains(x) by {
                    assert(c.order.contains(x) <==> b.order.contains(x) && x != id);
                    assert(b.order.to_set().contains(x) == b.by_id.dom().contains(x));
                }
                assert(c.order.to_set() =~= c.by_id.dom());
            }
        },
    }
}

/// A board that starts out fresh is in order after any run, as long as the job
/// numbers last; its next number counts the starts.
pub proof fn law_any_run_keeps_order(b: BoardView, ops: Seq<Op>)
    requires
        b.wf(),
        b.next + starts(ops) <= u64::MAX,
    ensures
        run(b, ops).wf(),
        run(b, ops).next == b.next + starts(ops),
    decreases ops.len(),
{
    if ops.len() > 0 {
        law_any_run_keeps_order(b, ops.drop_last());
        law_board_stays_in_order(run(b, ops.drop_last()), ops.last());
    }
}

/// A fresh board is in order.
pub proof fn law_fresh_board_is_in_order()
    ensures
        BoardView::fresh().wf(),
{
    assert(BoardView::fresh().order.to_set() =~= BoardView::fresh().by_id.dom());
}

/// The board never holds more than [`CAPACITY`] slots, whatever is done to it.
pub proof fn law_board_is_bounded(b: BoardView, ops: Seq<Op>)
    requires
        b.order.len() <= CAPACITY,
    ensures
        run(b, ops).order.len() <= CAPACITY,
    decreases ops.len(),
{
    if ops.len() > 0 {
        law_board_is_bounded(b, ops.drop_last());
        let c = run(b, ops.drop_last());
        if let Op::Take(id) = ops.last() {
            lemma_filter_out(c.order, id);
        }
    }
}

/// The id of a job is never given out again: whatever happens between two
/// starts, the later one answers another id.
pub proof fn law_ids_are_never_reused(b: BoardView, ops: Seq<Op>)
    requires
        b.wf(),
        b.next + 1 + starts(ops) <= u64::MAX,
    ensures
        job_id(run(b.started(), ops).next) != job_id(b.next),
{
    law_board_stays_in_order(b, Op::Start);
    law_any_run_keeps_order(b.started(), ops);
    law_job_ids_differ(run(b.started(), ops).next, b.next);
}

/// Once a started job has no slot, because it was collected or evicted, it
/// never has one again: no late answer brings it back.
pub proof fn law_gone_stays_gone(b: BoardView, id: Seq<char>, ops: Seq<Op>)
    requires
        b.wf(),
        b.next + starts(ops) <= u64::MAX,
        b.issued(id),
        b.found(id) is Unknown,
    ensures
        run(b, ops).found(id) is Unknown,
        run(b, ops).issued(id),
    decreases ops.len(),
{
    if ops.len() > 0 {
        let before = ops.drop_last();
        law_gone_stays_gone(b, id, before);
        law_any_run_keeps_order(b, before);
        law_any_run_keeps_order(b, ops);
        let c = run(b, before);
        let n = choose|n: u64| n < c.next && id == #[trigger] job_id(n);
        assert(n < run(b, ops).next && id == job_id(n));
        if ops.last() is Start {
            law_job_ids_differ(n, c.next);
        }
    }
}

/// An answer is handed over once: after a collect that found it, any later
/// collect of that id finds nothing, whatever happens between.
pub proof fn law_answer_is_handed_over_once(b: BoardView, id: Seq<char>, ops: Seq<Op>)
    requires
        b.wf(),
        b.next + starts(ops) <= u64::MAX,
        b.found(id) is Ready,
    ensures
        run(b.taken(id), ops).found(id) is Unknown,
{
    law_board_stays_in_order(b, Op::Take(id));
    assert(b.by_id.dom().contains(id));
    assert(b.order.to_set().contains(id));
    let i = choose|i: int| 0 <= i < b.order.len() && b.order[i] == id;
    assert(b.issued(b.order[i]));
    let n = choose|n: u64| n < b.next && id == #[trigger] job_id(n);
    assert(n < b.taken(id).next && id == job_id(n));
    law_gone_stays_gone(b.taken(id), id, ops);
}

/// Parking an answer for one id, or collecting one, changes nothing for
/// another id.
pub proof fn law_slots_are_independent(b: BoardView, op: Op, id: Seq<char>)
    requires
        spares(op, id),
        op !is Start,
    ensures
        applied(b, op).found(id) == b.found(id),
{
}

/// A start on a full board evicts the oldest slot and no other; below the cap
/// it evicts none.
pub proof fn law_start_evicts_the_oldest(b: BoardView, id: Seq<char>)
    requires
        b.wf(),
    ensures
        b.order.len() == CAPACITY ==> b.started().found(b.order[0]) is Unknown,
        b.by_id.contains_key(id) && !(b.order.len() == CAPACITY && id == b.order[0])
            ==> b.started().found(id) == b.found(id),
        b.started().found(job_id(b.next)) is Pending,
{
    let k = b.excess();
    let fresh = job_id(b.next);
    assert forall|i: int| 0 <= i < b.order.len() implies #[trigger] b.order[i] != fresh by {
        assert(b.issued(b.order[i]));
        let n = choose|n: u64| n < b.next && b.order[i] == #[trigger] job_id(n);
        law_job_ids_differ(n, b.next);
    }
    if b.order.len() == CAPACITY {
        assert(k == 1);
        assert(b.order.take(1)[0] == b.order[0]);
        assert(b.order.take(1).to_set().contains(b.order[0]));
    }
    if b.by_id.contains_key(id) {
        assert(b.order.to_set().contains(id));
        let i = choose|i: int| 0 <= i < b.order.len() && b.order[i] == id;
        assert(b.order[i] != fresh);
        if b.order.take(k).to_set().contains(id) {
            let j = choose|j: int| 0 <= j < k && b.order.take(k)[j] == id;
            assert(b.order[j] == id);
        }
    }
}

/// The slot of `id` is held, with at most `younger` slots started after it.
pub open spec fn held(b: BoardView, id: Seq<char>, younger: nat) -> bool {
    exists|i: int| 0 <= i < b.order.len() && b.order[i] == id && b.order.len() - 1 - i <= younger
}

proof fn lemma_filter_keeps_suffix(s: Seq<Seq<char>>, other: Seq<char>, i: int) -> (j: int)
    requires
        0 <= i < s.len(),
        s[i] != other,
    ensures
        0 <= j < without(s, other).len(),
        without(s, other)[j] == s[i],
        without(s, other).len() - j <= s.len() - i,
    decreases s.len(),
{
    lemma_without_step(s, other);
    let t = s.drop_last();
    if i == s.len() - 1 {
        assert(without(s, other) == without(t, other).push(s.last()));
        without(t, other).len() as int
    } else {
        let j = lemma_filter_keeps_suffix(t, other, i);
        assert(t[i] == s[i]);
        j
    }
}

proof fn lemma_held_through(b: BoardView, id: Seq<char>, younger: nat, op: Op)
    requires
        b.wf(),
        held(b, id, younger),
        spares(op, id) || (b.found(id) is Pending && brings_no_answer(op, id)),
        op is Start ==> younger + 1 < CAPACITY,
    ensures
        held(applied(b, op), id, younger + if op is Start { 1nat } else { 0nat }),
        applied(b, op).found(id) == b.found(id),
{
    let c = applied(b, op);
    let i = choose|i: int| 0 <= i < b.order.len() && b.order[i] == id && b.order.len() - 1 - i <= younger;
    assert(b.order.to_set().contains(id));
    match op {
        Op::Start => {
            law_start_evicts_the_oldest(b, id);
            if b.order.len() == CAPACITY && id == b.order[0] {
                assert(i == 0);
            }
            assert(c.order[i - b.excess()] == id);
        },
        Op::Complete(other, _) => {
            assert(c.order[i] == id);
        },
        Op::Take(other) => {
            if b.found(other) is Ready {
                let j = lemma_filter_keeps_suffix(b.order, other, i);
                assert(c.order[j] == id);
            } else {
                assert(c.order[i] == id);
            }
        },
    }
}

proof fn lemma_held_run(b: BoardView, id: Seq<char>, younger: nat, ops: Seq<Op>)
    requires
        b.wf(),
        b.next + starts(ops) <= u64::MAX,
        held(b, id, younger),
        younger + starts(ops) < CAPACITY,
        forall|i: int|
            0 <= i < ops.len() ==> spares(#[trigger] ops[i], id) || (b.found(id) is Pending
                && brings_no_answer(ops[i], id)),
    ensures
        held(run(b, ops), id, younger + starts(ops)),
        run(b, ops).found(id) == b.found(id),
    decreases ops.len(),
{
    if ops.len() > 0 {
        let before = ops.drop_last();
        assert forall|i: int| 0 <= i < before.len() implies spares(#[trigger] before[i], id) || (
        b.found(id) is Pending && brings_no_answer(before[i], id)) by {
            assert(before[i] == ops[i]);
        }
        lemma_held_run(b, id, younger, before);
        law_any_run_keeps_order(b, before);
        assert(ops[ops.len() - 1] == ops.last());
        lemma_held_through(run(b, before), id, younger + starts(before), ops.last());
    }
}

/// A job reads `Pending` from its start until its answer lands, however often it
/// is asked for meanwhile, as long as fewer than [`CAPACITY`] jobs are started
/// after it.
pub proof fn law_started_job_is_pending(b: BoardView, ops: Seq<Op>)
    requires
        b.wf(),
        b.next + 1 + starts(ops) <= u64::MAX,
        starts(ops) < CAPACITY,
        forall|i: int| 0 <= i < ops.len() ==> brings_no_answer(#[trigger] ops[i], job_id(b.next)),
    ensures
        run(b.started(), ops).found(job_id(b.next)) is Pending,
{
    let id = job_id(b.next);
    let c = b.started();
    law_board_stays_in_order(b, Op::Start);
    law_start_evicts_the_oldest(b, id);
    assert(c.order[c.order.len() - 1] == id);
    assert(held(c, id, 0));
    lemma_held_run(c, id, 0, ops);
}

/// What a collect gives back is what was parked: a job's answer, once landed,
/// is what the next collect of its id finds, as long as fewer than
/// [`CAPACITY`] jobs are started after the job itself. Anything may happen to
/// other jobs before and after the answer lands, and the job itself may be asked
/// for as often as wanted before.
pub proof fn law_parked_answer_is_collected(
    b: BoardView,
    before: Seq<Op>,
    answer: Seq<char>,
    after: Seq<Op>,
)
    requires
        b.wf(),
        b.next + 1 + starts(before) + starts(after) <= u64::MAX,
        starts(before) + starts(after) < CAPACITY,
        forall|i: int|
            0 <= i < before.len() ==> brings_no_answer(#[trigger] before[i], job_id(b.next)),
        forall|i: int| 0 <= i < after.len() ==> spares(#[trigger] after[i], job_id(b.next)),
    ensures
        run(run(b.started(), before).completed(job_id(b.next), answer), after).found(job_id(b.next))
            == JobView::Ready(answer),
{
    let id = job_id(b.next);
    let c = b.started();
    law_board_stays_in_order(b, Op::Start);
    law_start_evicts_the_oldest(b, id);
    assert(c.order[c.order.len() - 1] == id);
    assert(held(c, id, 0));
    lemma_held_run(c, id, 0, before);
    law_any_run_keeps_order(c, before);
    let d = run(c, before);
    let e = d.completed(id, answer);
    law_board_stays_in_order(d, Op::Complete(id, answer));
    assert(e == applied(d, Op::Complete(id, answer)));
    assert(e.order == d.order);
    assert(held(e, id, starts(before))) by {
        let i = choose|i: int| 0 <= i < d.order.len() && d.order[i] == id && d.order.len() - 1 - i <= starts(before);
        assert(e.order[i] == id);
    }
    lemma_held_run(e, id, starts(before), after);
}

} // verus!
