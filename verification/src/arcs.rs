//! Arc moves: their plane, centre, pieces and end points. Angles and their sines come from
//! outside.

use vstd::prelude::*;

use crate::constants::TAU;
use crate::double::num;
use crate::double::Double;
use crate::double::ONE;
use crate::double::ZERO;
use crate::gcode::get_number;
use crate::gcode::lettered;
use crate::gcode::lettered_number;
use crate::geometry::Vec4;
use crate::planner::Plane;
use crate::planner::Planner;
use crate::planner::PlannerView;

verus! {

/// An arc from `start` to `target`, around a centre at `offset` from the start.
#[derive(Clone, Copy, Debug)]
pub struct Arc {
    pub start: Vec4,
    pub target: Vec4,
    pub plane: Plane,
    pub offset: (Double, Double),
    pub clockwise: bool,
    pub step: Double,
}

/// The sine and cosine of an angle.
#[derive(Clone, Copy, Debug)]
pub struct Direction {
    pub sin: Double,
    pub cos: Double,
}

impl Plane {
    /// The two axes of the plane.
    #[verifier::allow_in_spec]
    pub fn axes(self) -> (usize, usize)
        returns
            (match self {
                Plane::XY => (0usize, 1usize),
                Plane::XZ => (0usize, 2usize),
                Plane::YZ => (1usize, 2usize),
            }),
    {
        match self {
            Plane::XY => (0, 1),
            Plane::XZ => (0, 2),
            Plane::YZ => (1, 2),
        }
    }

    /// The axis across the plane.
    #[verifier::allow_in_spec]
    pub fn helical_axis(self) -> usize
        returns
            (match self {
                Plane::XY => 2usize,
                Plane::XZ => 1usize,
                Plane::YZ => 0usize,
            }),
    {
        match self {
            Plane::XY => 2,
            Plane::XZ => 1,
            Plane::YZ => 0,
        }
    }

    /// The letters of the centre's offsets.
    #[verifier::allow_in_spec]
    pub fn offset_letters(self) -> (char, char)
        returns
            (match self {
                Plane::XY => ('I', 'J'),
                Plane::XZ => ('I', 'K'),
                Plane::YZ => ('J', 'K'),
            }),
    {
        match self {
            Plane::XY => ('I', 'J'),
            Plane::XZ => ('I', 'K'),
            Plane::YZ => ('J', 'K'),
        }
    }
}

/// The number under a letter, or zero.
pub open spec fn number_or_zero(params: Seq<(char, Seq<char>)>, letter: char) -> Double {
    match lettered_number(params, letter) {
        Some(v) => v,
        None => num(ZERO),
    }
}

fn get_number_or_zero(params: &Vec<(char, String)>, letter: char) -> (r: Double)
    ensures
        r == number_or_zero(lettered(params@), letter),
{
    match get_number(params, letter) {
        Some(v) => v,
        None => num(ZERO),
    }
}

impl PlannerView {
    /// The arc that a command asks for. Without a centre away from the start, or where arcs are
    /// not configured, there is none.
    pub open spec fn arc_for(self, params: Seq<(char, Seq<char>)>, clockwise: bool) -> Option<Arc> {
        let (p, q) = self.plane.offset_letters();
        let offset = (number_or_zero(params, p), number_or_zero(params, q));
        match self.toolhead.limits.mm_per_arc_segment {
            Some(step) => if (offset.0.equals(num(ZERO)) && offset.1.equals(num(ZERO))) || step
                <= num(ZERO) {
                None
            } else {
                Some(
                    Arc {
                        start: self.toolhead.position,
                        target: self.toolhead.target(
                            [
                                lettered_number(params, 'X'),
                                lettered_number(params, 'Y'),
                                lettered_number(params, 'Z'),
                                lettered_number(params, 'E'),
                            ],
                        ),
                        plane: self.plane,
                        offset,
                        clockwise,
                        step,
                    },
                )
            },
            None => None,
        }
    }
}

impl Planner {
    /// The arc that the parameters of `G2`, which is clockwise, or `G3` describe.
    pub fn arc_for(&self, params: &Vec<(char, String)>, clockwise: bool) -> (r: Option<Arc>)
        ensures
            r == self@.arc_for(lettered(params@), clockwise),
    {
        let step = match self.toolhead_state.limits.mm_per_arc_segment {
            Some(step) => step,
            None => {
                return None;
            },
        };
        let (p, q) = self.arc_plane.offset_letters();
        let offset = (get_number_or_zero(params, p), get_number_or_zero(params, q));
        if (offset.0 == num(ZERO) && offset.1 == num(ZERO)) || step <= num(ZERO) {
            return None;
        }
        let axes = [
            get_number(params, 'X'),
            get_number(params, 'Y'),
            get_number(params, 'Z'),
            get_number(params, 'E'),
        ];
        Some(
            Arc {
                start: self.toolhead_state.position,
                target: self.toolhead_state.target_of(axes),
                plane: self.arc_plane,
                offset,
                clockwise,
                step,
            },
        )
    }
}

impl Arc {
    /// The centre, in the plane.
    #[verifier::allow_in_spec]
    pub fn center(self) -> (Double, Double)
        returns
            (
                self.start.axis(self.plane.axes().0) + self.offset.0,
                self.start.axis(self.plane.axes().1) + self.offset.1,
            ),
    {
        let (a, b) = self.plane.axes();
        (self.start.axis(a) + self.offset.0, self.start.axis(b) + self.offset.1)
    }

    /// The start as seen from the centre.
    #[verifier::allow_in_spec]
    pub fn radius(self) -> (Double, Double)
        returns
            (self.offset.0.negated(), self.offset.1.negated()),
    {
        (self.offset.0.negated(), self.offset.1.negated())
    }

    /// The angle from the start to the target, as the sides of a triangle: opposite and adjacent.
    pub open spec fn spec_sides(self) -> (Double, Double) {
        let t = (
            self.target.axis(self.plane.axes().0) - self.center().0,
            self.target.axis(self.plane.axes().1) - self.center().1,
        );
        (
            self.radius().0 * t.1 - self.radius().1 * t.0,
            self.radius().0 * t.0 + self.radius().1 * t.1,
        )
    }

    #[verifier::when_used_as_spec(spec_sides)]
    pub fn sides(self) -> (r: (Double, Double))
        ensures
            r == self.spec_sides(),
    {
        let (a, b) = self.plane.axes();
        let center = self.center();
        let radius = self.radius();
        let t = (self.target.axis(a) - center.0, self.target.axis(b) - center.1);
        (radius.0 * t.1 - radius.1 * t.0, radius.0 * t.0 + radius.1 * t.1)
    }

    /// Whether the arc ends where it starts, seen along the helical axis.
    pub open spec fn closed_loop(self) -> bool {
        let (a, b) = self.plane.axes();
        self.start.axis(a).equals(self.target.axis(a)) && self.start.axis(b).equals(
            self.target.axis(b),
        )
    }

    /// The angle that the arc travels through, counted counter-clockwise.
    pub open spec fn turned(self, angle: Double) -> Double {
        let ahead = if angle < num(ZERO) {
            angle + num(TAU)
        } else {
            angle
        };
        let turn = if self.clockwise {
            ahead - num(TAU)
        } else {
            ahead
        };
        if turn.equals(num(ZERO)) && self.closed_loop() {
            num(TAU)
        } else {
            turn
        }
    }

    /// The angle that the arc travels through, where `angle` is the angle of `sides`.
    pub fn turn(self, angle: Double) -> (r: Double)
        ensures
            r == self.turned(angle),
    {
        let (a, b) = self.plane.axes();
        let mut turn = angle;
        if turn < num(ZERO) {
            turn = turn + num(TAU);
        }
        if self.clockwise {
            turn = turn - num(TAU);
        }
        if turn == num(ZERO) && self.start.axis(a) == self.target.axis(a) && self.start.axis(b)
            == self.target.axis(b) {
            turn = num(TAU);
        }
        turn
    }

    /// The way along the helical axis.
    #[verifier::allow_in_spec]
    pub fn rise(self) -> Double
        returns
            self.target.axis(self.plane.helical_axis()) - self.start.axis(
                self.plane.helical_axis(),
            ),
    {
        self.target.axis(self.plane.helical_axis()) - self.start.axis(self.plane.helical_axis())
    }

    /// The number of straight pieces of an arc of the given length, at least one.
    #[verifier::allow_in_spec]
    pub fn pieces(self, length: Double) -> Double
        returns
            (length / self.step).floor().max(num(ONE)),
    {
        (length / self.step).floor().max(num(ONE))
    }

    /// The part of the way at which piece `i` ends.
    #[verifier::allow_in_spec]
    pub fn part(self, pieces: Double, i: u64) -> Double
        returns
            Double::from_u64(i) / pieces,
    {
        Double::from_u64(i) / pieces
    }

    /// The angle at which piece `i` ends.
    #[verifier::allow_in_spec]
    pub fn angle(self, turn: Double, pieces: Double, i: u64) -> Double
        returns
            self.part(pieces, i) * turn,
    {
        self.part(pieces, i) * turn
    }

    /// The angles at which the pieces but the last one end.
    pub fn angles(self, turn: Double, pieces: Double) -> (r: Vec<Double>)
        ensures
            r@.len() == if pieces.to_u64() > 1 {
                pieces.to_u64() - 1
            } else {
                0
            },
            forall|k: int|
                0 <= k < r@.len() ==> #[trigger] r@[k] == self.angle(turn, pieces, (k + 1) as u64),
    {
        let count: u64 = pieces.to_u64();
        let mut r: Vec<Double> = Vec::new();
        let mut i: u64 = 1;
        while i < count
            invariant
                count == pieces.to_u64(),
                1 <= i,
                i <= count || i == 1,
                r@.len() == i - 1,
                forall|k: int|
                    0 <= k < r@.len() ==> #[trigger] r@[k] == self.angle(
                        turn,
                        pieces,
                        (k + 1) as u64,
                    ),
            decreases count - i,
        {
            r.push(self.angle(turn, pieces, i));
            i = i + 1;
        }
        r
    }

    /// The point at a part of the way, in the given direction from the start's.
    pub open spec fn point_at(self, part: Double, at: Direction) -> Vec4 {
        let (a, b) = self.plane.axes();
        let h = self.plane.helical_axis();
        self.start.with_axis(
            a,
            self.center().0 + self.radius().0 * at.cos - self.radius().1 * at.sin,
        ).with_axis(
            b,
            self.center().1 + self.radius().0 * at.sin + self.radius().1 * at.cos,
        ).with_axis(h, self.start.axis(h) + self.rise() * part).with_axis(
            3,
            self.start.w + (self.target.w - self.start.w) * part,
        )
    }

    fn point(self, part: Double, at: Direction) -> (r: Vec4)
        ensures
            r == self.point_at(part, at),
    {
        let (a, b) = self.plane.axes();
        let h = self.plane.helical_axis();
        let center = self.center();
        let radius = self.radius();
        self.start.with_axis(a, center.0 + radius.0 * at.cos - radius.1 * at.sin).with_axis(
            b,
            center.1 + radius.0 * at.sin + radius.1 * at.cos,
        ).with_axis(h, self.start.axis(h) + self.rise() * part).with_axis(
            3,
            self.start.w + (self.target.w - self.start.w) * part,
        )
    }

    /// The end points of the pieces: one in each direction, and the target.
    pub open spec fn points_at(self, pieces: Double, directions: Seq<Direction>) -> Seq<Vec4> {
        Seq::new(
            directions.len() + 1,
            |k: int|
                if k < directions.len() {
                    self.point_at(self.part(pieces, (k + 1) as u64), directions[k])
                } else {
                    self.target
                },
        )
    }

    /// The end points of the pieces, from the directions at their `angles`.
    pub fn points(self, pieces: Double, directions: &Vec<Direction>) -> (r: Vec<Vec4>)
        ensures
            r@ == self.points_at(pieces, directions@),
    {
        let mut r: Vec<Vec4> = Vec::new();
        let mut i: usize = 0;
        while i < directions.len()
            invariant
                i <= directions@.len(),
                r@ == self.points_at(pieces, directions@).take(i as int),
            decreases directions.len() - i,
        {
            r.push(self.point(self.part(pieces, i as u64 + 1), directions[i]));
            i = i + 1;
            assert(r@ == self.points_at(pieces, directions@).take(i as int));
        }
        r.push(self.target);
        r
    }
}

/// An arc ends at its target, after one more piece than there are directions.
pub proof fn arcs_end_at_their_target(arc: Arc, pieces: Double, directions: Seq<Direction>)
    ensures
        arc.points_at(pieces, directions).len() == directions.len() + 1,
        arc.points_at(pieces, directions).last() == arc.target,
{
}

} // verus!
