//! The lookahead queue: junction speeds of a run of moves.

use std::collections::VecDeque;

use vstd::prelude::*;

use crate::constants::HALF;
use crate::constants::LOOKAHEAD_FLUSH_TIME;
use crate::double::num;
use crate::double::Double;
use crate::double::ZERO;
use crate::limits::PrinterLimits;
use crate::planning_move::PlanningMove;

verus! {

/// An entry of the queue: a move, or a command that takes no part in planning.
#[derive(Clone, Copy, Debug)]
pub enum SequenceOperation {
    Move(PlanningMove),
    Fill,
}

/// The state of the backward pass over the queued moves.
#[derive(Clone, Copy, Debug)]
pub struct Pass {
    /// The squared start speed of the following move.
    pub next_start_v2: Double,
    /// The same under the minimum cruise ratio.
    pub next_mcr_start_v2: Double,
    /// The squared peak speed of the acceleration run being traced.
    pub peak_cruise_v2: Double,
    /// The moves whose cruise speed is still open.
    pub pending: usize,
    /// Whether the number of moves to plan is still open.
    pub updating: bool,
    /// The number of moves to plan.
    pub flush: usize,
}

/// The squared speeds of one move from the backward pass.
#[derive(Clone, Copy, Debug)]
pub struct Junction {
    pub start_v2: Double,
    pub cruise_v2: Option<Double>,
    pub end_v2: Double,
}

/// The moves of a queue from the index `i`.
pub open spec fn moves_from(ops: Seq<SequenceOperation>, i: int) -> Seq<PlanningMove>
    decreases ops.len() - i,
{
    if i >= ops.len() {
        Seq::empty()
    } else {
        match ops[i] {
            SequenceOperation::Move(m) => seq![m] + moves_from(ops, i + 1),
            SequenceOperation::Fill => moves_from(ops, i + 1),
        }
    }
}

/// The number of moves in `ops[i..j]`.
pub open spec fn count_moves(ops: Seq<SequenceOperation>, i: int, j: int) -> int
    decreases j - i,
{
    if i >= j {
        0
    } else {
        count_moves(ops, i, j - 1) + if ops[j - 1] is Move {
            1int
        } else {
            0
        }
    }
}

/// The index of the `k`-th move at or after `i`, or the length.
pub open spec fn move_index(ops: Seq<SequenceOperation>, i: int, k: int) -> int
    decreases ops.len() - i,
{
    if i >= ops.len() {
        ops.len() as int
    } else if ops[i] is Move {
        if k == 0 {
            i
        } else {
            move_index(ops, i + 1, k - 1)
        }
    } else {
        move_index(ops, i + 1, k)
    }
}

impl Pass {
    pub open spec fn initial(count: int, lazy: bool) -> Pass {
        Pass {
            next_start_v2: num(ZERO),
            next_mcr_start_v2: num(ZERO),
            peak_cruise_v2: num(ZERO),
            pending: 0,
            updating: lazy,
            flush: count as usize,
        }
    }

    /// The squared start speed that the move can reach backwards.
    #[verifier::allow_in_spec]
    pub fn reachable(self, m: PlanningMove) -> Double
        returns
            self.next_start_v2 + m.delta_v2,
    {
        self.next_start_v2 + m.delta_v2
    }

    #[verifier::allow_in_spec]
    pub fn start_v2(self, m: PlanningMove) -> Double
        returns
            m.max_start_v2.min(self.reachable(m)),
    {
        m.max_start_v2.min(self.reachable(m))
    }

    #[verifier::allow_in_spec]
    pub fn reachable_mcr(self, m: PlanningMove) -> Double
        returns
            self.next_mcr_start_v2 + m.mcr_delta_v2,
    {
        self.next_mcr_start_v2 + m.mcr_delta_v2
    }

    #[verifier::allow_in_spec]
    pub fn mcr_start_v2(self, m: PlanningMove) -> Double
        returns
            m.max_mcr_start_v2.min(self.reachable_mcr(m)),
    {
        m.max_mcr_start_v2.min(self.reachable_mcr(m))
    }

    /// Whether the move starts slower than it could: it ends an acceleration run.
    #[verifier::allow_in_spec]
    pub fn bounded(self, m: PlanningMove) -> bool
        returns
            self.mcr_start_v2(m) < self.reachable_mcr(m),
    {
        self.mcr_start_v2(m) < self.reachable_mcr(m)
    }

    /// Whether the move sets a new peak speed.
    #[verifier::allow_in_spec]
    pub fn peaks(self, m: PlanningMove) -> bool
        returns
            self.bounded(m) && (self.mcr_start_v2(m) + m.mcr_delta_v2 > self.next_mcr_start_v2
                || self.pending > 0),
    {
        self.bounded(m) && (self.mcr_start_v2(m) + m.mcr_delta_v2 > self.next_mcr_start_v2
            || self.pending > 0)
    }

    #[verifier::allow_in_spec]
    pub fn next_peak(self, m: PlanningMove) -> Double
        returns
            (if self.peaks(m) {
                (self.mcr_start_v2(m) + self.reachable_mcr(m)) * num(HALF)
            } else {
                self.peak_cruise_v2
            }),
    {
        if self.peaks(m) {
            (self.mcr_start_v2(m) + self.reachable_mcr(m)) * num(HALF)
        } else {
            self.peak_cruise_v2
        }
    }

    /// The squared speeds of the move.
    #[verifier::allow_in_spec]
    pub fn junction(self, m: PlanningMove) -> Junction
        returns
            (Junction {
                start_v2: self.start_v2(m),
                cruise_v2: if self.bounded(m) {
                    Some(
                        ((self.start_v2(m) + self.reachable(m)) * num(HALF)).min(
                            m.max_cruise_v2,
                        ).min(self.next_peak(m)),
                    )
                } else {
                    None
                },
                end_v2: self.next_start_v2,
            }),
    {
        Junction {
            start_v2: self.start_v2(m),
            cruise_v2: if self.bounded(m) {
                Some(
                    ((self.start_v2(m) + self.reachable(m)) * num(HALF)).min(m.max_cruise_v2).min(
                        self.next_peak(m),
                    ),
                )
            } else {
                None
            },
            end_v2: self.next_start_v2,
        }
    }

    /// The pass after the move at `index`.
    pub open spec fn step(self, m: PlanningMove, index: int) -> Pass {
        let settles = self.peaks(m) && self.updating && !self.peak_cruise_v2.equals(num(ZERO));
        Pass {
            next_start_v2: self.start_v2(m),
            next_mcr_start_v2: self.mcr_start_v2(m),
            peak_cruise_v2: self.next_peak(m),
            pending: if self.bounded(m) {
                0
            } else {
                (self.pending + 1) as usize
            },
            updating: self.updating && !settles,
            flush: if settles {
                (index + self.pending + 1) as usize
            } else {
                self.flush
            },
        }
    }

    fn advance(self, m: PlanningMove, index: usize) -> (r: Pass)
        requires
            self.pending < usize::MAX,
            index + self.pending + 1 <= usize::MAX,
        ensures
            r == self.step(m, index as int),
    {
        let settles: bool = self.peaks(m) && self.updating && self.peak_cruise_v2 != num(ZERO);
        Pass {
            next_start_v2: self.start_v2(m),
            next_mcr_start_v2: self.mcr_start_v2(m),
            peak_cruise_v2: self.next_peak(m),
            pending: if self.bounded(m) {
                0
            } else {
                self.pending + 1
            },
            updating: self.updating && !settles,
            flush: if settles {
                index + self.pending + 1
            } else {
                self.flush
            },
        }
    }
}

/// The pass after the moves from `i` on have been traced backwards.
pub open spec fn pass_at(moves: Seq<PlanningMove>, i: int, lazy: bool) -> Pass
    decreases moves.len() - i,
{
    if i >= moves.len() {
        Pass::initial(moves.len() as int, lazy)
    } else {
        pass_at(moves, i + 1, lazy).step(moves[i], i)
    }
}

/// The squared speeds of the move at `i`.
pub open spec fn junction_at(moves: Seq<PlanningMove>, i: int, lazy: bool) -> Junction {
    pass_at(moves, i + 1, lazy).junction(moves[i])
}

/// The squared cruise speed of the move at `i`; a move without one of its own continues at the
/// speed of the move before it.
pub open spec fn cruise_at(moves: Seq<PlanningMove>, i: int, lazy: bool) -> Double
    decreases i + 1,
{
    if i < 0 {
        num(ZERO)
    } else {
        match junction_at(moves, i, lazy).cruise_v2 {
            Some(v) => v,
            None => cruise_at(moves, i - 1, lazy).min(junction_at(moves, i, lazy).start_v2),
        }
    }
}

/// The planned move at `i`.
pub open spec fn planned_at(moves: Seq<PlanningMove>, i: int, lazy: bool) -> PlanningMove {
    let j = junction_at(moves, i, lazy);
    let cruise = cruise_at(moves, i, lazy);
    moves[i].planned(j.start_v2.min(cruise), cruise, j.end_v2.min(cruise))
}

/// The number of queued moves that a pass plans.
pub open spec fn planned_count(moves: Seq<PlanningMove>, lazy: bool) -> int {
    let p = pass_at(moves, 0, lazy);
    if p.updating {
        0
    } else {
        p.flush as int
    }
}

/// A queue of operations, of which the first `flush_count` are final.
#[verifier::ext_equal]
pub struct SequenceView {
    pub ops: Seq<SequenceOperation>,
    pub flush_count: int,
    pub junction_flush: Double,
}

impl SequenceView {
    pub open spec fn empty() -> SequenceView {
        SequenceView {
            ops: Seq::empty(),
            flush_count: 0,
            junction_flush: num(LOOKAHEAD_FLUSH_TIME),
        }
    }

    /// The moves that are not final yet.
    pub open spec fn pending(self) -> Seq<PlanningMove> {
        moves_from(self.ops, self.flush_count)
    }

    /// The operations with the first `count` pending moves planned.
    pub open spec fn planned_ops(self, count: int, lazy: bool) -> Seq<SequenceOperation> {
        Seq::new(
            self.ops.len(),
            |j: int|
                {
                    let k = count_moves(self.ops, self.flush_count, j);
                    if j >= self.flush_count && self.ops[j] is Move && k < count {
                        SequenceOperation::Move(planned_at(self.pending(), k, lazy))
                    } else {
                        self.ops[j]
                    }
                },
        )
    }

    /// The queue after planning. A lazy pass plans only the moves that later moves cannot
    /// change any more; otherwise all moves are planned and the last one ends at rest.
    pub open spec fn processed(self, lazy: bool) -> SequenceView {
        let count = planned_count(self.pending(), lazy);
        if self.pending().len() == 0 {
            SequenceView {
                flush_count: if lazy {
                    self.flush_count
                } else {
                    self.ops.len() as int
                },
                junction_flush: num(LOOKAHEAD_FLUSH_TIME),
                ..self
            }
        } else if count == 0 {
            SequenceView { junction_flush: num(LOOKAHEAD_FLUSH_TIME), ..self }
        } else {
            SequenceView {
                ops: self.planned_ops(count, lazy),
                flush_count: move_index(self.ops, self.flush_count, count),
                junction_flush: num(LOOKAHEAD_FLUSH_TIME),
            }
        }
    }
}

pub proof fn lemma_moves_from(ops: Seq<SequenceOperation>, i: int, j: int)
    requires
        0 <= i <= j <= ops.len(),
    ensures
        moves_from(ops, i).len() == count_moves(ops, i, ops.len() as int),
        count_moves(ops, i, j) <= moves_from(ops, i).len(),
        0 <= count_moves(ops, i, j) <= j - i,
        j < ops.len() && ops[j] is Move ==> {
            &&& count_moves(ops, i, j) < moves_from(ops, i).len()
            &&& ops[j] == SequenceOperation::Move(moves_from(ops, i)[count_moves(ops, i, j)])
            &&& move_index(ops, i, count_moves(ops, i, j)) == j
        },
    decreases ops.len() - i,
{
    if i < ops.len() {
        if j > i {
            lemma_moves_from(ops, i + 1, j);
            lemma_count_shift(ops, i, j);
        } else {
            lemma_moves_from(ops, i + 1, i + 1);
        }
        lemma_count_shift(ops, i, ops.len() as int);
    }
}

pub proof fn lemma_count_shift(ops: Seq<SequenceOperation>, i: int, j: int)
    requires
        0 <= i < j <= ops.len(),
    ensures
        count_moves(ops, i, j) == count_moves(ops, i + 1, j) + if ops[i] is Move {
            1int
        } else {
            0
        },
    decreases j - i,
{
    if j > i + 1 {
        lemma_count_shift(ops, i, j - 1);
    } else {
        assert(count_moves(ops, i, i) == 0);
    }
}

/// Past the last move there is no further index.
proof fn lemma_move_index_end(ops: Seq<SequenceOperation>, i: int, k: int)
    requires
        0 <= i <= ops.len(),
        k >= moves_from(ops, i).len(),
    ensures
        move_index(ops, i, k) == ops.len(),
    decreases ops.len() - i,
{
    if i < ops.len() {
        if ops[i] is Move {
            lemma_move_index_end(ops, i + 1, k - 1);
        } else {
            lemma_move_index_end(ops, i + 1, k);
        }
    }
}

pub proof fn lemma_move_index_range(ops: Seq<SequenceOperation>, i: int, k: int)
    requires
        0 <= i <= ops.len(),
    ensures
        i <= move_index(ops, i, k) <= ops.len(),
    decreases ops.len() - i,
{
    if i < ops.len() {
        if ops[i] is Move {
            lemma_move_index_range(ops, i + 1, k - 1);
        } else {
            lemma_move_index_range(ops, i + 1, k);
        }
    }
}

/// The pass never plans more moves than there are.
proof fn lemma_pass_bounds(moves: Seq<PlanningMove>, i: int, lazy: bool)
    requires
        0 <= i <= moves.len(),
        moves.len() <= usize::MAX,
    ensures
        pass_at(moves, i, lazy).pending <= moves.len() - i,
        pass_at(moves, i, lazy).flush <= moves.len(),
        pass_at(moves, i, lazy).updating ==> lazy,
    decreases moves.len() - i,
{
    if i < moves.len() {
        lemma_pass_bounds(moves, i + 1, lazy);
    }
}

/// A queue of moves with the lookahead state.
#[derive(Debug)]
pub struct MoveSequence {
    pub moves: VecDeque<SequenceOperation>,
    pub flush_count: usize,
    pub junction_flush: Double,
}

impl View for MoveSequence {
    type V = SequenceView;

    open spec fn view(&self) -> SequenceView {
        SequenceView {
            ops: self.moves@,
            flush_count: self.flush_count as int,
            junction_flush: self.junction_flush,
        }
    }
}

impl MoveSequence {
    /// The final operations are a prefix of the queue.
    pub open spec fn well_formed(&self) -> bool {
        self.flush_count <= self.moves@.len()
    }

    pub fn new() -> (r: MoveSequence)
        ensures
            r@ == SequenceView::empty(),
            r.well_formed(),
    {
        MoveSequence {
            moves: VecDeque::new(),
            flush_count: 0,
            junction_flush: num(LOOKAHEAD_FLUSH_TIME),
        }
    }

    pub fn len(&self) -> (r: usize)
        ensures
            r == self@.ops.len(),
    {
        self.moves.len()
    }

    pub fn is_empty(&self) -> (r: bool)
        ensures
            r == (self@.ops.len() == 0),
    {
        self.moves.len() == 0
    }

    pub fn add_fill(&mut self)
        requires
            old(self).well_formed(),
        ensures
            final(self).well_formed(),
            final(self)@ == (SequenceView {
                ops: old(self)@.ops.push(SequenceOperation::Fill),
                ..old(self)@
            }),
    {
        self.moves.push_back(SequenceOperation::Fill);
    }

    /// The pending moves in order.
    fn pending_moves(&self) -> (r: Vec<PlanningMove>)
        requires
            self.well_formed(),
        ensures
            r@ == self@.pending(),
    {
        let mut out: Vec<PlanningMove> = Vec::new();
        let mut i: usize = self.flush_count;
        while i < self.moves.len()
            invariant
                i <= self.moves@.len(),
                self@.pending() == out@ + moves_from(self.moves@, i as int),
            decreases self.moves.len() - i,
        {
            match self.moves[i] {
                SequenceOperation::Move(m) => {
                    let ghost before = out@;
                    out.push(m);
                    assert(before + (seq![m] + moves_from(self.moves@, i + 1)) == before.push(m)
                        + moves_from(self.moves@, i + 1));
                },
                SequenceOperation::Fill => {},
            }
            i = i + 1;
        }
        assert(out@ == self@.pending());
        out
    }

    /// Plans the queued moves, backwards for the speeds that can be reached and forwards for
    /// the speeds that are taken.
    pub fn process(&mut self, lazy: bool)
        requires
            old(self).well_formed(),
        ensures
            final(self).well_formed(),
            final(self)@ == old(self)@.processed(lazy),
    {
        self.junction_flush = num(LOOKAHEAD_FLUSH_TIME);
        let moves: Vec<PlanningMove> = self.pending_moves();
        let n: usize = moves.len();
        let ghost v0 = old(self)@;
        proof {
            lemma_moves_from(self.moves@, self.flush_count as int, self.moves@.len() as int);
        }
        if n == 0 {
            if !lazy {
                self.flush_count = self.moves.len();
            }
            return;
        }
        // junctions from the last move to the first
        let mut junctions: Vec<Junction> = Vec::new();
        let mut pass = Pass {
            next_start_v2: num(ZERO),
            next_mcr_start_v2: num(ZERO),
            peak_cruise_v2: num(ZERO),
            pending: 0,
            updating: lazy,
            flush: n,
        };
        let mut i: usize = n;
        while i > 0
            invariant
                n == moves@.len(),
                i <= n,
                pass == pass_at(moves@, i as int, lazy),
                junctions@.len() == n - i,
                forall|k: int|
                    0 <= k < n - i ==> #[trigger] junctions@[k] == junction_at(
                        moves@,
                        n - 1 - k,
                        lazy,
                    ),
            decreases i,
        {
            proof {
                lemma_pass_bounds(moves@, i as int, lazy);
            }
            junctions.push(pass.junction(moves[i - 1]));
            pass = pass.advance(moves[i - 1], i - 1);
            i = i - 1;
        }
        proof {
            lemma_pass_bounds(moves@, 0, lazy);
        }
        if pass.updating || pass.flush == 0 {
            return;
        }
        let count: usize = pass.flush;
        let mut planned: Vec<PlanningMove> = Vec::new();
        let mut previous = num(ZERO);
        let mut q: usize = 0;
        while q < count
            invariant
                n == moves@.len(),
                junctions@.len() == n,
                count <= n,
                q <= count,
                forall|k: int|
                    0 <= k < n ==> #[trigger] junctions@[k] == junction_at(moves@, n - 1 - k, lazy),
                previous == cruise_at(moves@, q - 1, lazy),
                planned@.len() == q,
                forall|k: int|
                    0 <= k < q ==> #[trigger] planned@[k] == planned_at(moves@, k, lazy),
            decreases count - q,
        {
            let j: Junction = junctions[n - 1 - q];
            assert(j == junction_at(moves@, q as int, lazy));
            let cruise = match j.cruise_v2 {
                Some(v) => v,
                None => previous.min(j.start_v2),
            };
            let mut m: PlanningMove = moves[q];
            m.set_junction(j.start_v2.min(cruise), cruise, j.end_v2.min(cruise));
            planned.push(m);
            previous = cruise;
            q = q + 1;
        }
        // the queue with the planned moves in place
        let mut rebuilt: VecDeque<SequenceOperation> = VecDeque::new();
        let mut flush_count: usize = self.moves.len();
        let mut found: bool = false;
        let mut seen: usize = 0;
        let mut at: usize = 0;
        let ghost wanted = v0.planned_ops(count as int, lazy);
        let from: usize = self.flush_count;
        proof {
            assert(count_moves(v0.ops, from as int, 0) == 0);
        }
        while at < self.moves.len()
            invariant
                self.moves@ == v0.ops,
                from == v0.flush_count,
                from <= v0.ops.len(),
                n == moves@.len(),
                moves@ == v0.pending(),
                planned@.len() == count,
                0 < count <= n,
                forall|k: int|
                    0 <= k < count ==> #[trigger] planned@[k] == planned_at(moves@, k, lazy),
                wanted == v0.planned_ops(count as int, lazy),
                at <= v0.ops.len(),
                rebuilt@ == wanted.take(at as int),
                at >= from ==> seen == count_moves(v0.ops, from as int, at as int),
                at < from ==> seen == 0,
                found ==> flush_count == move_index(v0.ops, from as int, count as int),
                !found ==> seen <= count && flush_count == v0.ops.len(),
                seen > count ==> found,
            decreases self.moves.len() - at,
        {
            proof {
                if at >= from {
                    lemma_moves_from(v0.ops, from as int, at as int);
                }
                if at + 1 == from {
                    assert(count_moves(v0.ops, from as int, from as int) == 0);
                }
            }
            let op: SequenceOperation = self.moves[at];
            let mut next: SequenceOperation = op;
            if at >= from {
                match op {
                    SequenceOperation::Move(_) => {
                        if seen < count {
                            next = SequenceOperation::Move(planned[seen]);
                        }
                        if seen == count {
                            flush_count = at;
                            found = true;
                        }
                        seen = seen + 1;
                    },
                    SequenceOperation::Fill => {},
                }
            }
            rebuilt.push_back(next);
            assert(rebuilt@ == wanted.take(at + 1));
            at = at + 1;
        }
        proof {
            assert(wanted.take(at as int) == wanted);
            lemma_moves_from(v0.ops, from as int, v0.ops.len() as int);
            if !found {
                lemma_move_index_end(v0.ops, from as int, count as int);
            }
            lemma_move_index_range(v0.ops, from as int, count as int);
        }
        self.moves = rebuilt;
        self.flush_count = flush_count;
    }
}

impl SequenceView {
    /// The move with its junction to the last pending move.
    pub open spec fn connected(self, m: PlanningMove, limits: PrinterLimits) -> PlanningMove {
        if self.pending().len() > 0 {
            m.joined(self.pending().last(), limits.extruder_junction(m, self.pending().last()))
        } else {
            m
        }
    }

    /// The queue with a move added. A move without length only keeps its place. Once the moves
    /// queued behind another one take long enough, a lazy pass runs.
    pub open spec fn with_move(self, m: PlanningMove, limits: PrinterLimits) -> SequenceView {
        if m.distance.equals(num(ZERO)) {
            SequenceView { ops: self.ops.push(SequenceOperation::Fill), ..self }
        } else {
            let joined = self.connected(m, limits);
            let queued = SequenceView {
                ops: self.ops.push(SequenceOperation::Move(joined)),
                ..self
            };
            if self.pending().len() == 0 {
                queued
            } else {
                let left = self.junction_flush - joined.min_move_time();
                let waiting = SequenceView { junction_flush: left, ..queued };
                if left <= num(ZERO) {
                    waiting.processed(true)
                } else {
                    waiting
                }
            }
        }
    }

    /// The queue from which an operation is taken: if nothing is final, a lazy pass runs.
    pub open spec fn ready(self) -> SequenceView {
        if self.flush_count == 0 {
            self.processed(true)
        } else {
            self
        }
    }

    /// The operation that is taken next.
    pub open spec fn front(self) -> Option<SequenceOperation> {
        if self.ready().flush_count == 0 {
            None
        } else {
            Some(self.ready().ops[0])
        }
    }

    /// The queue after an operation has been taken.
    pub open spec fn taken(self) -> SequenceView {
        if self.front() is None {
            self.ready()
        } else {
            SequenceView {
                ops: self.ready().ops.skip(1),
                flush_count: self.ready().flush_count - 1,
                ..self.ready()
            }
        }
    }
}

impl MoveSequence {
    pub fn add_move(&mut self, m: PlanningMove, limits: &PrinterLimits)
        requires
            old(self).well_formed(),
        ensures
            final(self).well_formed(),
            final(self)@ == old(self)@.with_move(m, *limits),
    {
        if m.distance == num(ZERO) {
            self.add_fill();
            return;
        }
        let mut m: PlanningMove = m;
        let pending: Vec<PlanningMove> = self.pending_moves();
        let has_previous: bool = pending.len() > 0;
        if has_previous {
            let previous: PlanningMove = pending[pending.len() - 1];
            let extruder_v2 = limits.extruder_junction_speed_v2(&m, &previous);
            m.apply_junction(&previous, extruder_v2);
        }
        let min_move_time = m.min_move_time();
        self.moves.push_back(SequenceOperation::Move(m));
        if has_previous {
            self.junction_flush = self.junction_flush - min_move_time;
            if self.junction_flush <= num(ZERO) {
                self.process(true);
            }
        }
    }

    /// Plans all queued moves; the last one ends at rest.
    pub fn flush(&mut self)
        requires
            old(self).well_formed(),
        ensures
            final(self).well_formed(),
            final(self)@ == old(self)@.processed(false),
    {
        self.process(false);
    }

    /// Takes the next final operation.
    pub fn next_move(&mut self) -> (r: Option<SequenceOperation>)
        requires
            old(self).well_formed(),
        ensures
            final(self).well_formed(),
            r == old(self)@.front(),
            final(self)@ == old(self)@.taken(),
            r is Some ==> final(self)@.ops.len() + 1 == old(self)@.ops.len(),
    {
        if self.flush_count == 0 {
            self.process(true);
        }
        if self.flush_count == 0 {
            return None;
        }
        match self.moves.pop_front() {
            None => None,
            Some(op) => {
                self.flush_count = self.flush_count - 1;
                assert(self@.ops == old(self)@.ready().ops.skip(1));
                Some(op)
            },
        }
    }
}

/// A full pass leaves no move pending.
pub proof fn full_pass_plans_everything(v: SequenceView)
    requires
        0 <= v.flush_count <= v.ops.len() <= usize::MAX,
    ensures
        v.processed(false).flush_count == v.ops.len(),
        v.processed(false).ops.len() == v.ops.len(),
        v.processed(false).pending().len() == 0,
{
    let n = v.pending().len();
    lemma_moves_from(v.ops, v.flush_count, v.ops.len() as int);
    lemma_full_pass(v.pending(), 0);
    if n > 0 {
        lemma_move_index_end(v.ops, v.flush_count, n as int);
    }
}

proof fn lemma_full_pass(moves: Seq<PlanningMove>, i: int)
    requires
        0 <= i <= moves.len() <= usize::MAX,
    ensures
        !pass_at(moves, i, false).updating,
        pass_at(moves, i, false).flush == moves.len(),
    decreases moves.len() - i,
{
    if i < moves.len() {
        lemma_full_pass(moves, i + 1);
    }
}

/// The last move of a full pass ends at rest, as far as its cruise speed is not negative.
pub proof fn full_pass_ends_at_rest(moves: Seq<PlanningMove>)
    requires
        0 < moves.len() <= usize::MAX,
        cruise_at(moves, moves.len() - 1, false) >= num(ZERO),
    ensures
        planned_at(moves, moves.len() - 1, false).end_v == num(ZERO),
{
    reveal(Double::root);
}

/// A pass keeps every operation in place: fills stay fills, final operations stay as they are,
/// and a pending move changes in its planned speeds only.
pub proof fn planning_changes_speeds_only(v: SequenceView, lazy: bool, j: int)
    requires
        0 <= v.flush_count <= v.ops.len() <= usize::MAX,
        0 <= j < v.ops.len(),
    ensures
        v.processed(lazy).ops.len() == v.ops.len(),
        j < v.flush_count || v.ops[j] is Fill ==> v.processed(lazy).ops[j] == v.ops[j],
        v.ops[j] matches SequenceOperation::Move(m) ==> v.processed(lazy).ops[j] matches SequenceOperation::Move(
            p,
        ) && p == (PlanningMove { start_v: p.start_v, cruise_v: p.cruise_v, end_v: p.end_v, ..m }),
{
    if j >= v.flush_count {
        lemma_moves_from(v.ops, v.flush_count, j);
    }
}

/// Operations that are final stay final.
pub proof fn passes_only_advance(v: SequenceView, lazy: bool)
    requires
        0 <= v.flush_count <= v.ops.len() <= usize::MAX,
    ensures
        v.flush_count <= v.processed(lazy).flush_count <= v.ops.len(),
{
    lemma_move_index_range(v.ops, v.flush_count, planned_count(v.pending(), lazy));
}

} // verus!
