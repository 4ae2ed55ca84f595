//! The queue of planned operations.

use std::collections::VecDeque;

use vstd::prelude::*;

use crate::delay::Delay;
use crate::diagnostics::invalid_extrusion_of;
use crate::diagnostics::move_out_of_range_of;
use crate::diagnostics::PlannerDiagnostic;
use crate::kinematics::KinematicsChecker;
use crate::limits::ExtruderLimits;
use crate::limits::PrinterLimits;
use crate::lookahead::MoveSequence;
use crate::lookahead::SequenceOperation;
use crate::lookahead::SequenceView;
use crate::planning_move::PlanningMove;
use crate::toolhead::ToolheadState;
use crate::toolhead::ToolheadView;

verus! {

/// An operation of the planned print.
#[derive(Clone, Debug)]
pub enum PlanningOperation<S = String> {
    Delay(Delay<S>),
    Move(PlanningMove),
    Fill,
}

impl View for PlanningOperation<String> {
    type V = PlanningOperation<Seq<char>>;

    open spec fn view(&self) -> PlanningOperation<Seq<char>> {
        match *self {
            PlanningOperation::Delay(d) => PlanningOperation::Delay(d@),
            PlanningOperation::Move(m) => PlanningOperation::Move(m),
            PlanningOperation::Fill => PlanningOperation::Fill,
        }
    }
}

impl PlanningOperation<String> {
    pub fn is_fill(&self) -> (r: bool)
        ensures
            r == (self@ is Fill),
    {
        match self {
            PlanningOperation::Fill => true,
            _ => false,
        }
    }

    pub fn is_move(&self) -> (r: bool)
        ensures
            r == (self@ is Move),
    {
        match self {
            PlanningOperation::Move(_) => true,
            _ => false,
        }
    }

    pub fn get_move(&self) -> (r: Option<PlanningMove>)
        ensures
            r == match self@ {
                PlanningOperation::Move(m) => Some(m),
                _ => None,
            },
    {
        match self {
            PlanningOperation::Move(m) => Some(*m),
            _ => None,
        }
    }
}

/// An entry of the queue: a delay, a run of moves, or a command without effect.
#[derive(Debug)]
pub enum QueuedOperation {
    Delay(Delay),
    Moves(MoveSequence),
    Fill,
}

#[verifier::ext_equal]
pub enum QueuedView {
    Delay(Delay<Seq<char>>),
    Moves(SequenceView),
    Fill,
}

impl View for QueuedOperation {
    type V = QueuedView;

    open spec fn view(&self) -> QueuedView {
        match *self {
            QueuedOperation::Delay(d) => QueuedView::Delay(d@),
            QueuedOperation::Moves(m) => QueuedView::Moves(m@),
            QueuedOperation::Fill => QueuedView::Fill,
        }
    }
}

impl QueuedOperation {
    pub open spec fn well_formed(&self) -> bool {
        match *self {
            QueuedOperation::Moves(m) => m.well_formed() && m@.ops.len() > 0,
            _ => true,
        }
    }
}

/// The queue and the diagnostics so far.
#[derive(Debug)]
pub struct OperationSequence {
    pub ops: VecDeque<QueuedOperation>,
    pub diagnostics: Vec<PlannerDiagnostic>,
}

#[verifier::ext_equal]
pub struct OperationsView {
    pub ops: Seq<QueuedView>,
    pub diagnostics: Seq<PlannerDiagnostic<Seq<char>>>,
}

pub open spec fn queued(v: Seq<QueuedOperation>) -> Seq<QueuedView> {
    Seq::new(v.len(), |i: int| v[i]@)
}

pub open spec fn reported(v: Seq<PlannerDiagnostic>) -> Seq<PlannerDiagnostic<Seq<char>>> {
    Seq::new(v.len(), |i: int| v[i]@)
}

impl View for OperationSequence {
    type V = OperationsView;

    open spec fn view(&self) -> OperationsView {
        OperationsView { ops: queued(self.ops@), diagnostics: reported(self.diagnostics@) }
    }
}

/// The queued operation with all of its moves planned.
pub open spec fn flushed(op: QueuedView) -> QueuedView {
    match op {
        QueuedView::Moves(v) => QueuedView::Moves(v.processed(false)),
        _ => op,
    }
}

/// The number of operations of an entry of the queue.
pub open spec fn weight(op: QueuedView) -> nat {
    match op {
        QueuedView::Moves(v) => v.ops.len(),
        _ => 1,
    }
}

/// The number of operations in a queue.
pub open spec fn held(ops: Seq<QueuedView>) -> nat
    decreases ops.len(),
{
    if ops.len() == 0 {
        0
    } else {
        held(ops.drop_last()) + weight(ops.last())
    }
}

impl OperationsView {
    #[verifier::opaque]
    pub open spec fn with_delay(self, d: Delay<Seq<char>>) -> OperationsView {
        OperationsView { ops: self.ops.push(QueuedView::Delay(d)), ..self }
    }

    /// A diagnostic is reported once.
    #[verifier::opaque]
    pub open spec fn with_diagnostic(self, d: PlannerDiagnostic<Seq<char>>) -> OperationsView {
        if self.diagnostics.contains(d) {
            self
        } else {
            OperationsView { diagnostics: self.diagnostics.push(d), ..self }
        }
    }

    /// The run of moves at the end of the queue.
    pub open spec fn open_run(self) -> Option<SequenceView> {
        if self.ops.len() == 0 {
            None
        } else {
            match self.ops.last() {
                QueuedView::Moves(v) => Some(v),
                _ => None,
            }
        }
    }

    /// The number of operations in the run of moves at the end of the queue.
    pub open spec fn run_length(self) -> nat {
        match self.open_run() {
            Some(v) => v.ops.len(),
            None => 0,
        }
    }

    /// The queue with its last run replaced, or with a new run.
    pub open spec fn with_run(self, v: SequenceView) -> OperationsView {
        OperationsView {
            ops: if self.open_run() is Some {
                self.ops.drop_last().push(QueuedView::Moves(v))
            } else {
                self.ops.push(QueuedView::Moves(v))
            },
            ..self
        }
    }

    /// A command without effect stays in its run of moves.
    #[verifier::opaque]
    pub open spec fn with_fill(self) -> OperationsView {
        match self.open_run() {
            Some(v) => self.with_run(
                SequenceView { ops: v.ops.push(SequenceOperation::Fill), ..v },
            ),
            None => OperationsView { ops: self.ops.push(QueuedView::Fill), ..self },
        }
    }

    /// A command that waits for the moves before it.
    #[verifier::opaque]
    pub open spec fn with_boundary(self) -> OperationsView {
        let closed = match self.open_run() {
            Some(v) => self.with_run(v.processed(false)),
            None => self,
        };
        OperationsView { ops: closed.ops.push(QueuedView::Fill), ..closed }
    }

    pub open spec fn all_flushed(self) -> OperationsView {
        OperationsView { ops: Seq::new(self.ops.len(), |i: int| flushed(self.ops[i])), ..self }
    }

    /// The extruder of a move.
    pub open spec fn tool_of(m: PlanningMove, limits: PrinterLimits) -> Option<
        (Seq<char>, ExtruderLimits),
    > {
        match m.extruder_index() {
            Some(i) => if i < limits.extruders@.len() {
                Some(limits.extruders@[i as int])
            } else {
                None
            },
            None => None,
        }
    }

    /// The queue with a physical move: its violations are reported, and a reachable move is
    /// limited by the kinematics.
    pub open spec fn with_physical_move(self, m: PlanningMove, limits: PrinterLimits) -> OperationsView {
        let a = match m.extruder_violation {
            Some(v) => self.with_diagnostic(
                invalid_extrusion_of(v, m, OperationsView::tool_of(m, limits)),
            ),
            None => self,
        };
        let b = match limits.kinematics.violation(m) {
            Some(v) => a.with_diagnostic(move_out_of_range_of(v)),
            None => a,
        };
        let limited = if limits.kinematics.violation(m) is Some {
            m
        } else {
            limits.kinematics.restricted(m)
        };
        let run = match b.open_run() {
            Some(v) => v,
            None => SequenceView::empty(),
        };
        b.with_run(run.with_move(limited, limits))
    }

    /// The queue with the first `i` of the given physical moves.
    pub open spec fn with_physical_moves(
        self,
        moves: Seq<PlanningMove>,
        limits: PrinterLimits,
        i: int,
    ) -> OperationsView
        decreases i,
    {
        if i <= 0 {
            self
        } else {
            self.with_physical_moves(moves, limits, i - 1).with_physical_move(
                moves[i - 1],
                limits,
            )
        }
    }

    /// The queue with a logical move.
    #[verifier::opaque]
    pub open spec fn with_logical_move(self, m: PlanningMove, t: ToolheadView) -> OperationsView {
        let moves = t.physical_moves(m);
        self.with_physical_moves(moves, t.limits, moves.len() as int)
    }

    /// The operation that is taken next.
    pub open spec fn front(self) -> Option<PlanningOperation<Seq<char>>> {
        if self.ops.len() == 0 {
            None
        } else {
            match self.ops[0] {
                QueuedView::Delay(d) => Some(PlanningOperation::Delay(d)),
                QueuedView::Fill => Some(PlanningOperation::Fill),
                QueuedView::Moves(v) => match v.front() {
                    Some(SequenceOperation::Move(m)) => Some(PlanningOperation::Move(m)),
                    Some(SequenceOperation::Fill) => Some(PlanningOperation::Fill),
                    None => None,
                },
            }
        }
    }

    /// The queue after an operation has been taken; a run that is used up goes with it.
    pub open spec fn taken(self) -> OperationsView {
        if self.ops.len() == 0 {
            self
        } else {
            match self.ops[0] {
                QueuedView::Moves(v) => OperationsView {
                    ops: if v.taken().ops.len() == 0 {
                        self.ops.skip(1)
                    } else {
                        self.ops.update(0, QueuedView::Moves(v.taken()))
                    },
                    ..self
                },
                _ => OperationsView { ops: self.ops.skip(1), ..self },
            }
        }
    }
}

/// The number of entries and operations in a queue.
pub open spec fn queue_size(ops: Seq<QueuedView>) -> nat
    decreases ops.len(),
{
    if ops.len() == 0 {
        0
    } else {
        queue_size(ops.skip(1)) + match ops[0] {
            QueuedView::Moves(v) => v.ops.len() + 1,
            _ => 1,
        }
    }
}

impl OperationsView {
    pub open spec fn size(self) -> nat {
        queue_size(self.ops)
    }

    /// The first `n` operations that are taken, and the queue after them.
    pub open spec fn drained(self, n: nat) -> (OperationsView, Seq<PlanningOperation<Seq<char>>>)
        decreases n,
    {
        if n == 0 {
            (self, Seq::empty())
        } else {
            let (v, ops) = self.drained((n - 1) as nat);
            (
                v.taken(),
                match v.front() {
                    Some(op) => ops.push(op),
                    None => ops,
                },
            )
        }
    }
}

pub open spec fn operations_of(v: Seq<PlanningOperation>) -> Seq<PlanningOperation<Seq<char>>> {
    Seq::new(v.len(), |i: int| v[i]@)
}

impl OperationSequence {
    pub open spec fn well_formed(&self) -> bool {
        forall|i: int| 0 <= i < self.ops@.len() ==> (#[trigger] self.ops@[i]).well_formed()
    }

    pub fn new() -> (r: OperationSequence)
        ensures
            r@ == (OperationsView { ops: Seq::empty(), diagnostics: Seq::empty() }),
            r.well_formed(),
    {
        let r = OperationSequence { ops: VecDeque::new(), diagnostics: Vec::new() };
        assert(r@.ops == Seq::<QueuedView>::empty());
        assert(r@.diagnostics == Seq::<PlannerDiagnostic<Seq<char>>>::empty());
        r
    }

    pub fn add_delay(&mut self, delay: Delay)
        requires
            old(self).well_formed(),
        ensures
            final(self).well_formed(),
            final(self)@ == old(self)@.with_delay(delay@),
    {
        proof {
            reveal(OperationsView::with_delay);
        }
        let ghost before = self@;
        self.ops.push_back(QueuedOperation::Delay(delay));
        assert(self@.ops == before.ops.push(QueuedView::Delay(delay@)));
    }

    pub fn add_diagnostic(&mut self, diagnostic: PlannerDiagnostic)
        requires
            old(self).well_formed(),
        ensures
            final(self).well_formed(),
            final(self)@ == old(self)@.with_diagnostic(diagnostic@),
    {
        proof {
            reveal(OperationsView::with_diagnostic);
        }
        let ghost before = self@;
        let mut i: usize = 0;
        while i < self.diagnostics.len()
            invariant
                i <= self.diagnostics@.len(),
                self@ == before,
                self.well_formed(),
                forall|k: int| 0 <= k < i ==> before.diagnostics[k] != diagnostic@,
            decreases self.diagnostics.len() - i,
        {
            if self.diagnostics[i].matches(&diagnostic) {
                proof {
                    reveal(OperationsView::with_diagnostic);
                    assert(before.diagnostics[i as int] == diagnostic@);
                }
                return;
            }
            i = i + 1;
        }
        self.diagnostics.push(diagnostic);
        assert(self@.diagnostics == before.diagnostics.push(diagnostic@));
    }

    /// The number of operations in the run of moves at the end of the queue.
    pub fn run_length(&self) -> (r: usize)
        ensures
            r == self@.run_length(),
    {
        let n: usize = self.ops.len();
        if n == 0 {
            return 0;
        }
        match &self.ops[n - 1] {
            QueuedOperation::Moves(run) => run.len(),
            _ => 0,
        }
    }

    /// Takes the run of moves at the end of the queue out of it.
    fn take_run(&mut self) -> (r: Option<MoveSequence>)
        requires
            old(self).well_formed(),
        ensures
            final(self).well_formed(),
            match r {
                Some(run) => old(self)@.open_run() == Some(run@) && run.well_formed()
                    && run@.ops.len() > 0 && final(self)@ == (OperationsView {
                    ops: old(self)@.ops.drop_last(),
                    ..old(self)@
                }),
                None => old(self)@.open_run() is None && final(self)@ == old(self)@,
            },
    {
        let ghost before = self@;
        let ghost raw = self.ops@;
        match self.ops.pop_back() {
            Some(QueuedOperation::Moves(run)) => {
                assert(raw.last().well_formed());
                assert(self@.ops == before.ops.drop_last());
                Some(run)
            },
            Some(other) => {
                assert(raw.last().well_formed());
                self.ops.push_back(other);
                assert(self.ops@ == raw);
                None
            },
            None => None,
        }
    }

    fn put_run(&mut self, run: MoveSequence)
        requires
            old(self).well_formed(),
            run.well_formed(),
            run@.ops.len() > 0,
        ensures
            final(self).well_formed(),
            final(self)@ == (OperationsView {
                ops: old(self)@.ops.push(QueuedView::Moves(run@)),
                ..old(self)@
            }),
    {
        let ghost before = self@;
        self.ops.push_back(QueuedOperation::Moves(run));
        assert(self@.ops == before.ops.push(QueuedView::Moves(run@)));
    }

    pub fn add_fill(&mut self)
        requires
            old(self).well_formed(),
        ensures
            final(self).well_formed(),
            final(self)@ == old(self)@.with_fill(),
    {
        proof {
            reveal(OperationsView::with_fill);
        }
        match self.take_run() {
            Some(mut run) => {
                run.add_fill();
                self.put_run(run);
            },
            None => {
                let ghost before = self@;
                self.ops.push_back(QueuedOperation::Fill);
                assert(self@.ops == before.ops.push(QueuedView::Fill));
            },
        }
    }

    /// Plans all moves so far; what follows starts from rest.
    pub fn add_flush_boundary(&mut self)
        requires
            old(self).well_formed(),
        ensures
            final(self).well_formed(),
            final(self)@ == old(self)@.with_boundary(),
    {
        proof {
            reveal(OperationsView::with_boundary);
        }
        if let Some(mut run) = self.take_run() {
            run.flush();
            self.put_run(run);
        }
        let ghost before = self@;
        self.ops.push_back(QueuedOperation::Fill);
        assert(self@.ops == before.ops.push(QueuedView::Fill));
    }

    fn add_physical_move(&mut self, m: PlanningMove, limits: &PrinterLimits)
        requires
            old(self).well_formed(),
        ensures
            final(self).well_formed(),
            final(self)@ == old(self)@.with_physical_move(m, *limits),
    {
        let mut m: PlanningMove = m;
        if let Some(violation) = m.extruder_violation {
            let extruder: Option<(&str, ExtruderLimits)> = match m.extruder_index() {
                Some(i) => if i < limits.extruders.len() {
                    Some((limits.extruders.key_at(i), *limits.extruders.value_at(i)))
                } else {
                    None
                },
                None => None,
            };
            self.add_diagnostic(PlannerDiagnostic::invalid_extrusion(violation, &m, extruder));
        }
        if let Err(violation) = limits.kinematics.check_move(&mut m) {
            self.add_diagnostic(PlannerDiagnostic::move_out_of_range(violation));
        }
        let mut run: MoveSequence = match self.take_run() {
            Some(run) => run,
            None => MoveSequence::new(),
        };
        run.add_move(m, limits);
        self.put_run(run);
    }

    /// Queues the physical moves of a logical move.
    pub fn add_move(&mut self, m: PlanningMove, toolhead: &mut ToolheadState)
        requires
            old(self).well_formed(),
        ensures
            final(self).well_formed(),
            final(self)@ == old(self)@.with_logical_move(m, old(toolhead)@),
            final(toolhead)@ == old(toolhead)@.after_path(m),
    {
        proof {
            reveal(OperationsView::with_logical_move);
            reveal(ToolheadView::after_path);
        }
        let ghost before = self@;
        let ghost t = toolhead@;
        let moves: Vec<PlanningMove> = toolhead.transform_move(m);
        let mut i: usize = 0;
        while i < moves.len()
            invariant
                i <= moves@.len(),
                moves@ == t.physical_moves(m),
                toolhead@ == t.after_path(m),
                toolhead.limits == t.limits,
                self.well_formed(),
                self@ == before.with_physical_moves(moves@, t.limits, i as int),
            decreases moves.len() - i,
        {
            self.add_physical_move(moves[i], &toolhead.limits);
            i = i + 1;
        }
    }

    /// Plans all queued moves.
    pub fn flush(&mut self)
        requires
            old(self).well_formed(),
        ensures
            final(self).well_formed(),
            final(self)@ == old(self)@.all_flushed(),
    {
        let ghost before = self@;
        let ghost raw = self.ops@;
        let n: usize = self.ops.len();
        let mut i: usize = 0;
        while i < n
            invariant
                i <= n,
                n == raw.len(),
                before.ops == queued(raw),
                self@.diagnostics == before.diagnostics,
                self.ops@.len() == n,
                forall|k: int| 0 <= k < n ==> (#[trigger] raw[k]).well_formed(),
                forall|k: int| 0 <= k < n - i ==> #[trigger] self.ops@[k] == raw[k + i],
                forall|k: int|
                    n - i <= k < n ==> (#[trigger] self.ops@[k])@ == flushed(
                        before.ops[k - (n - i)],
                    ) && self.ops@[k].well_formed(),
            decreases n - i,
        {
            let ghost rest = self.ops@;
            match self.ops.pop_front() {
                Some(QueuedOperation::Moves(mut run)) => {
                    assert(rest[0] == raw[i as int]);
                    run.flush();
                    self.ops.push_back(QueuedOperation::Moves(run));
                },
                Some(other) => {
                    assert(rest[0] == raw[i as int]);
                    self.ops.push_back(other);
                },
                None => {},
            }
            proof {
                assert forall|k: int| 0 <= k < n - (i + 1) implies #[trigger] self.ops@[k] == raw[k + (
                i + 1)] by {
                    assert(self.ops@[k] == rest[k + 1]);
                }
                assert forall|k: int| n - (i + 1) <= k < n implies (#[trigger] self.ops@[k])@
                    == flushed(before.ops[k - (n - (i + 1))]) && self.ops@[k].well_formed() by {
                    if k < n - 1 {
                        assert(self.ops@[k] == rest[k + 1]);
                    } else {
                        assert(before.ops[i as int] == raw[i as int]@);
                    }
                }
            }
            i = i + 1;
        }
        assert(self@.ops == before.all_flushed().ops);
    }

    /// Takes the next operation that is final.
    pub fn next_operation(&mut self) -> (r: Option<PlanningOperation>)
        requires
            old(self).well_formed(),
        ensures
            final(self).well_formed(),
            old(self)@.front() == match r {
                Some(op) => Some(op@),
                None => None,
            },
            final(self)@ == old(self)@.taken(),
            r is Some ==> final(self)@.size() < old(self)@.size(),
    {
        let ghost before = self@;
        let ghost raw = self.ops@;
        match self.ops.pop_front() {
            None => None,
            Some(first) => {
                proof {
                    assert(before.ops[0] == first@);
                }
                assert(raw[0] == first);
                assert(raw[0].well_formed());
                assert(queued(self.ops@) == before.ops.skip(1));
                match first {
                    QueuedOperation::Delay(d) => Some(PlanningOperation::Delay(d)),
                    QueuedOperation::Fill => Some(PlanningOperation::Fill),
                    QueuedOperation::Moves(mut run) => {
                        let op: Option<SequenceOperation> = run.next_move();
                        if !run.is_empty() {
                            self.ops.push_front(QueuedOperation::Moves(run));
                            assert(self@.ops == before.ops.update(0, QueuedView::Moves(run@)));
                            assert(self@.ops.skip(1) == before.ops.skip(1));
                        }
                        match op {
                            Some(SequenceOperation::Move(m)) => Some(PlanningOperation::Move(m)),
                            Some(SequenceOperation::Fill) => Some(PlanningOperation::Fill),
                            None => None,
                        }
                    },
                }
            },
        }
    }
}

} // verus!
