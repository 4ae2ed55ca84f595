//! What holds of the queue of operations.

use vstd::prelude::*;

use crate::gcode::CommandView;
use crate::laws::lemma_step_counted;
use crate::lookahead::full_pass_plans_everything;
use crate::lookahead::passes_only_advance;
use crate::operations::flushed;
use crate::operations::held;
use crate::operations::weight;
use crate::operations::OperationSequence;
use crate::operations::OperationsView;
use crate::operations::QueuedOperation;
use crate::operations::QueuedView;
use crate::planner::Planner;

verus! {

/// Whether a run of moves is not empty and has no more final operations than it has operations.
pub open spec fn sound(op: QueuedView) -> bool {
    op matches QueuedView::Moves(v) ==> 0 < v.ops.len() <= usize::MAX && 0 <= v.flush_count
        <= v.ops.len()
}

/// Whether every operation of an entry is final.
pub open spec fn settled(op: QueuedView) -> bool {
    op matches QueuedView::Moves(v) ==> 0 < v.ops.len() && v.flush_count == v.ops.len()
}

pub open spec fn all_settled(ops: Seq<QueuedView>) -> bool {
    forall|i: int| 0 <= i < ops.len() ==> settled(#[trigger] ops[i])
}

proof fn lemma_held_front(ops: Seq<QueuedView>)
    requires
        ops.len() > 0,
    ensures
        held(ops) == weight(ops[0]) + held(ops.skip(1)),
    decreases ops.len(),
{
    if ops.len() == 1 {
        assert(ops.drop_last() == ops.skip(1));
        assert(held(ops.skip(1)) == 0);
    } else {
        lemma_held_front(ops.drop_last());
        assert(ops.drop_last().skip(1) == ops.skip(1).drop_last());
        assert(ops.skip(1).last() == ops.last());
    }
}

proof fn lemma_nothing_held(ops: Seq<QueuedView>)
    requires
        all_settled(ops),
    ensures
        held(ops) == 0 <==> ops.len() == 0,
{
    if ops.len() > 0 {
        lemma_held_front(ops);
        assert(settled(ops[0]));
    }
}

proof fn lemma_taken(v: OperationsView)
    requires
        all_settled(v.ops),
        v.ops.len() > 0,
    ensures
        v.front() is Some,
        all_settled(v.taken().ops),
        held(v.taken().ops) + 1 == held(v.ops),
        v.taken().diagnostics == v.diagnostics,
{
    lemma_held_front(v.ops);
    assert(settled(v.ops[0]));
    let w = v.taken();
    match v.ops[0] {
        QueuedView::Moves(r) => {
            if r.taken().ops.len() > 0 {
                lemma_held_front(w.ops);
                assert(w.ops.skip(1) == v.ops.skip(1));
                assert forall|i: int| 0 <= i < w.ops.len() implies settled(#[trigger] w.ops[i]) by {
                    if i > 0 {
                        assert(settled(v.ops[i]));
                    }
                }
            } else {
                assert forall|i: int| 0 <= i < w.ops.len() implies settled(#[trigger] w.ops[i]) by {
                    assert(settled(v.ops[i + 1]));
                }
            }
        },
        _ => {
            assert forall|i: int| 0 <= i < w.ops.len() implies settled(#[trigger] w.ops[i]) by {
                assert(settled(v.ops[i + 1]));
            }
        },
    }
}

proof fn lemma_drained(v: OperationsView, n: nat)
    requires
        all_settled(v.ops),
        n <= held(v.ops),
    ensures
        v.drained(n).1.len() == n,
        all_settled(v.drained(n).0.ops),
        held(v.drained(n).0.ops) + n == held(v.ops),
        v.drained(n).0.diagnostics == v.diagnostics,
    decreases n,
{
    if n > 0 {
        lemma_drained(v, (n - 1) as nat);
        let w = v.drained((n - 1) as nat).0;
        lemma_nothing_held(w.ops);
        lemma_taken(w);
    }
}

proof fn lemma_flushed(ops: Seq<QueuedView>)
    requires
        forall|i: int| 0 <= i < ops.len() ==> sound(#[trigger] ops[i]),
    ensures
        all_settled(Seq::new(ops.len(), |i: int| flushed(ops[i]))),
        held(Seq::new(ops.len(), |i: int| flushed(ops[i]))) == held(ops),
    decreases ops.len(),
{
    let all = Seq::new(ops.len(), |i: int| flushed(ops[i]));
    assert forall|i: int| 0 <= i < all.len() implies settled(#[trigger] all[i]) by {
        assert(sound(ops[i]));
        if let QueuedView::Moves(r) = ops[i] {
            full_pass_plans_everything(r);
        }
    }
    if ops.len() > 0 {
        let less = ops.drop_last();
        assert forall|i: int| 0 <= i < less.len() implies sound(#[trigger] less[i]) by {
            assert(sound(ops[i]));
        }
        lemma_flushed(less);
        assert(all.drop_last() == Seq::new(less.len(), |i: int| flushed(less[i])));
        assert(sound(ops.last()));
        if let QueuedView::Moves(r) = ops.last() {
            full_pass_plans_everything(r);
        }
    }
}

/// Once all moves are planned, every operation of the queue is handed out, and nothing else.
pub proof fn everything_queued_is_handed_out(v: OperationsView)
    requires
        all_sound(v.ops),
    ensures
        ({
            let n = held(v.ops);
            let (rest, ops) = v.all_flushed().drained(n);
            &&& ops.len() == n
            &&& rest.ops.len() == 0
            &&& rest.front() is None
            &&& rest.diagnostics == v.diagnostics
        }),
{
    lemma_flushed(v.ops);
    let all = v.all_flushed();
    lemma_drained(all, held(v.ops));
    lemma_nothing_held(all.drained(held(v.ops)).0.ops);
}

pub open spec fn all_sound(ops: Seq<QueuedView>) -> bool {
    forall|i: int| 0 <= i < ops.len() ==> sound(#[trigger] ops[i])
}

/// Taking an operation leaves one less, if there was one to take.
pub proof fn taken_operations_are_gone(v: OperationsView)
    requires
        all_sound(v.ops),
    ensures
        all_sound(v.taken().ops),
        held(v.taken().ops) == if v.front() is Some {
            held(v.ops) - 1
        } else {
            held(v.ops) as int
        },
{
    if v.ops.len() > 0 {
        let w = v.taken();
        lemma_held_front(v.ops);
        assert(sound(v.ops[0]));
        if let QueuedView::Moves(r) = v.ops[0] {
            passes_only_advance(r, true);
        }
        if w.ops.len() == v.ops.len() {
            lemma_held_front(w.ops);
            assert(w.ops.skip(1) == v.ops.skip(1));
            assert forall|i: int| 0 <= i < w.ops.len() implies sound(#[trigger] w.ops[i]) by {
                if i > 0 {
                    assert(sound(v.ops[i]));
                }
            }
        } else {
            assert forall|i: int| 0 <= i < w.ops.len() implies sound(#[trigger] w.ops[i]) by {
                assert(sound(v.ops[i + 1]));
            }
        }
    }
}

/// What is handed out is no longer held, and nothing else is gone.
pub proof fn drained_operations_are_gone(v: OperationsView, n: nat)
    requires
        all_sound(v.ops),
    ensures
        all_sound(v.drained(n).0.ops),
        v.drained(n).1.len() <= n,
        held(v.drained(n).0.ops) + v.drained(n).1.len() == held(v.ops),
    decreases n,
{
    if n > 0 {
        drained_operations_are_gone(v, (n - 1) as nat);
        taken_operations_are_gone(v.drained((n - 1) as nat).0);
    }
}

/// The runs of a planner's queue are sound.
pub proof fn planned_runs_are_sound(q: OperationSequence)
    requires
        q.well_formed(),
    ensures
        all_sound(q@.ops),
{
    assert forall|i: int| 0 <= i < q@.ops.len() implies sound(#[trigger] q@.ops[i]) by {
        assert(q.ops@[i].well_formed());
        if let QueuedOperation::Moves(m) = q.ops@[i] {
            assert(m.moves.len() == m.moves@.len());
        }
    }
}

/// A command results in at least one operation. Once all moves are planned, the queue hands out
/// just the operations that it held before the command and those that the command resulted in,
/// whether or not a mesh splits its moves.
pub proof fn operations_are_counted(before: Planner, c: CommandView, after: Planner)
    requires
        after.well_formed(),
        after@ == before@.step(c),
    ensures
        ({
            let old_count = held(before@.operations.ops);
            let n = held(after@.operations.ops) - old_count;
            let (rest, ops) = after@.operations.all_flushed().drained((old_count + n) as nat);
            &&& n >= 1
            &&& ops.len() == old_count + n
            &&& rest.front() is None
        }),
{
    lemma_step_counted(before@, c);
    planned_runs_are_sound(after.operations);
    everything_queued_is_handed_out(after@.operations);
}

/// Once all moves are planned, only an empty queue has nothing to hand out.
pub proof fn planned_queues_run_empty(v: OperationsView, n: nat)
    requires
        all_sound(v.ops),
        v.all_flushed().drained(n).1.len() == n,
        v.all_flushed().drained(n).0.front() is None,
    ensures
        all_sound(v.all_flushed().ops),
        held(v.all_flushed().ops) == held(v.ops),
        n == held(v.ops),
        v.all_flushed().drained(n).0.ops.len() == 0,
{
    let all = v.all_flushed();
    lemma_flushed(v.ops);
    assert forall|i: int| 0 <= i < all.ops.len() implies sound(#[trigger] all.ops[i]) by {
        assert(sound(v.ops[i]));
        if let QueuedView::Moves(r) = v.ops[i] {
            full_pass_plans_everything(r);
        }
    }
    drained_operations_are_gone(all, n);
    lemma_drained(all, n);
    let rest = all.drained(n).0;
    if rest.ops.len() > 0 {
        lemma_taken(rest);
    }
}

} // verus!
