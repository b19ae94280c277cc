//! What a Type 2 CharString draws.
//!
//! A CharString is a program for a small stack machine. Operands are
//! pushed until an operator comes; the operator takes the whole stack,
//! moves the pen, emits points, and leaves the stack empty. The program
//! ends at `endchar` or with its last byte, and the contour that is open
//! then is closed.
//!
//! An operator that cannot group the operands it finds draws nothing and
//! ends the run with an error: a move with fewer operands than it needs,
//! `rlineto` with an odd number, `rrcurveto` with a number that is no
//! multiple of six, and so on. A move takes its operands from the bottom
//! of the stack and drops the rest; `vhcurveto` and `hvcurveto` drop the
//! operands that make no whole curve.
//!
//! Stem hints are counted, not applied: the count says how many bytes of
//! hint mask to step over. Subroutines and the two-byte operators are not
//! implemented.
//!
//! Coordinates and contour indices are 16 bits wide and wrap around.

use vstd::prelude::*;

use crate::error::FontError;
use crate::font::{Point, PointKind, Position};
use crate::model::operand::{fixed_value, is_short_lead, short_tail, short_value};
use crate::util::signed16;

verus! {

/// The number of operands the evaluation stack holds.
pub const STACK_CAPACITY: usize = 48;

/// `v` brought into the signed 16-bit range by wrapping around.
pub open spec fn wrap_i16(v: int) -> i16 {
    signed16(v) as i16
}

/// `v` brought into the unsigned 16-bit range by wrapping around.
pub open spec fn wrap_u16(v: int) -> u16 {
    (v % 0x1_0000) as u16
}

/// The pen that draws a glyph: where it is, where the contour it is
/// drawing began, and how many points that contour has so far.
#[derive(Clone, Copy, Debug, PartialEq, Eq, Structural)]
pub struct Pen {
    pub position: Position,
    pub start: Position,
    /// 0 while no contour is open.
    pub index_in_contour: u16,
}

impl Pen {
    /// The pen before the first operator: at the origin, no contour open.
    pub open spec fn initial() -> Pen {
        Pen {
            position: Position { x: 0, y: 0 },
            start: Position { x: 0, y: 0 },
            index_in_contour: 0,
        }
    }

    /// The pen displaced by `(dx, dy)`.
    pub open spec fn shifted(self, dx: int, dy: int) -> Pen {
        Pen {
            position: Position {
                x: wrap_i16(self.position.x + dx),
                y: wrap_i16(self.position.y + dy),
            },
            ..self
        }
    }

    /// The pen after its contour has got `n` more points.
    pub open spec fn counted(self, n: int) -> Pen {
        Pen { index_in_contour: wrap_u16(self.index_in_contour + n), ..self }
    }

    /// The point of kind `kind` where the pen is, `ahead` places after the
    /// contour's points so far.
    pub open spec fn mark(self, ahead: int, kind: PointKind) -> Point {
        Point {
            position: self.position,
            index_in_contour: wrap_u16(self.index_in_contour + ahead),
            kind,
        }
    }

    /// The point that closes the open contour: its start again. No point
    /// where no contour is open.
    pub open spec fn closing(self) -> Seq<Point> {
        if self.index_in_contour == 0 {
            Seq::empty()
        } else {
            seq![
                Point {
                    position: self.start,
                    index_in_contour: self.index_in_contour,
                    kind: PointKind::OnCurve,
                },
            ]
        }
    }

    /// The points of a move by `(dx, dy)`: the open contour is closed, and
    /// a new one starts where the pen lands.
    pub open spec fn move_points(self, dx: int, dy: int) -> Seq<Point> {
        self.closing().push(
            Point {
                position: self.shifted(dx, dy).position,
                index_in_contour: 0,
                kind: PointKind::OnCurve,
            },
        )
    }

    /// The pen after a move by `(dx, dy)`.
    pub open spec fn moved(self, dx: int, dy: int) -> Pen {
        let landing = self.shifted(dx, dy).position;
        Pen { position: landing, start: landing, index_in_contour: 1 }
    }
}

/// One stroke of the pen within a contour.
pub enum Segment {
    /// The pen is displaced and no point is emitted.
    Shift { dx: int, dy: int },
    /// A straight line to the point `(dx, dy)` away.
    Line { dx: int, dy: int },
    /// A cubic Bézier curve. Each pair is the displacement from the point
    /// before: to the first control point, from there to the second, and
    /// from there to the end of the curve.
    Curve { dx0: int, dy0: int, dx1: int, dy1: int, dx2: int, dy2: int },
}

impl Segment {
    /// The points the segment emits when the pen is `pen`.
    pub open spec fn points(self, pen: Pen) -> Seq<Point> {
        match self {
            Segment::Shift { dx, dy } => Seq::empty(),
            Segment::Line { dx, dy } => seq![pen.shifted(dx, dy).mark(0, PointKind::OnCurve)],
            Segment::Curve { dx0, dy0, dx1, dy1, dx2, dy2 } => {
                let first = pen.shifted(dx0, dy0);
                let second = first.shifted(dx1, dy1);
                let end = second.shifted(dx2, dy2);
                seq![
                    first.mark(0, PointKind::FirstCubicControl),
                    second.mark(1, PointKind::SecondCubicControl),
                    end.mark(2, PointKind::OnCurve),
                ]
            },
        }
    }

    /// The pen after the segment, when it was `pen` before.
    pub open spec fn leaves(self, pen: Pen) -> Pen {
        match self {
            Segment::Shift { dx, dy } => pen.shifted(dx, dy),
            Segment::Line { dx, dy } => pen.shifted(dx, dy).counted(1),
            Segment::Curve { dx0, dy0, dx1, dy1, dx2, dy2 } => pen.shifted(dx0, dy0).shifted(
                dx1,
                dy1,
            ).shifted(dx2, dy2).counted(3),
        }
    }
}

/// What drawing some segments comes to: the points emitted and the pen
/// left behind.
pub struct Trace {
    pub pen: Pen,
    pub points: Seq<Point>,
}

/// The trace of drawing `segments` in order, starting with `pen`.
pub open spec fn trace(pen: Pen, segments: Seq<Segment>) -> Trace
    decreases segments.len(),
{
    if segments.len() == 0 {
        Trace { pen, points: Seq::empty() }
    } else {
        let before = trace(pen, segments.drop_last());
        let segment = segments.last();
        Trace {
            pen: segment.leaves(before.pen),
            points: before.points + segment.points(before.pen),
        }
    }
}

/// Drawing one more segment adds its points to the trace and moves the
/// pen on from where the others left it.
pub proof fn lemma_trace_push(pen: Pen, segments: Seq<Segment>, segment: Segment)
    ensures
        trace(pen, segments.push(segment)).pen == segment.leaves(trace(pen, segments).pen),
        trace(pen, segments.push(segment)).points == trace(pen, segments).points + segment.points(
            trace(pen, segments).pen,
        ),
{
    assert(segments.push(segment).drop_last() =~= segments);
}

/// The line whose displacement is the two operands from `s[i]` on.
pub open spec fn line_at(s: Seq<i32>, i: int) -> Segment {
    Segment::Line { dx: s[i] as int, dy: s[i + 1] as int }
}

/// The curve whose displacements are the six operands from `s[i]` on.
pub open spec fn curve_at(s: Seq<i32>, i: int) -> Segment {
    Segment::Curve {
        dx0: s[i] as int,
        dy0: s[i + 1] as int,
        dx1: s[i + 2] as int,
        dy1: s[i + 3] as int,
        dx2: s[i + 4] as int,
        dy2: s[i + 5] as int,
    }
}

/// `count` lines, taken from the operands of `s` pair by pair.
pub open spec fn lines(s: Seq<i32>, count: nat) -> Seq<Segment> {
    Seq::new(count, |k: int| line_at(s, 2 * k))
}

/// `count` curves, taken from the operands of `s` six by six.
pub open spec fn curves(s: Seq<i32>, count: nat) -> Seq<Segment> {
    Seq::new(count, |k: int| curve_at(s, 6 * k))
}

/// The line that operand `k` of `s` stands for where lines take turns
/// being horizontal and vertical.
pub open spec fn alternating_line_at(s: Seq<i32>, horizontal_first: bool, k: int) -> Segment {
    if (k % 2 == 0) == horizontal_first {
        Segment::Line { dx: s[k] as int, dy: 0 }
    } else {
        Segment::Line { dx: 0, dy: s[k] as int }
    }
}

/// The first `count` of the lines that the operands of `s` stand for
/// one by one, horizontal and vertical in turn.
pub open spec fn alternating_lines(s: Seq<i32>, horizontal_first: bool, count: nat) -> Seq<
    Segment,
> {
    Seq::new(count, |k: int| alternating_line_at(s, horizontal_first, k))
}

/// Curve `k` of those that the operands of `s` stand for four by four,
/// where curves take turns starting horizontal and ending vertical, and
/// starting vertical and ending horizontal. One operand left over after
/// the last four is the last curve's displacement along the axis on which
/// it would otherwise end level.
pub open spec fn alternating_curve_at(s: Seq<i32>, horizontal_first: bool, k: int) -> Segment {
    let last = if 4 * k + 5 == s.len() {
        s[4 * k + 4] as int
    } else {
        0
    };
    if (k % 2 == 0) == horizontal_first {
        Segment::Curve {
            dx0: s[4 * k] as int,
            dy0: 0,
            dx1: s[4 * k + 1] as int,
            dy1: s[4 * k + 2] as int,
            dx2: last,
            dy2: s[4 * k + 3] as int,
        }
    } else {
        Segment::Curve {
            dx0: 0,
            dy0: s[4 * k] as int,
            dx1: s[4 * k + 1] as int,
            dy1: s[4 * k + 2] as int,
            dx2: s[4 * k + 3] as int,
            dy2: last,
        }
    }
}

/// The first `count` of the alternating curves of `s`.
pub open spec fn alternating_curves(s: Seq<i32>, horizontal_first: bool, count: nat) -> Seq<
    Segment,
> {
    Seq::new(count, |k: int| alternating_curve_at(s, horizontal_first, k))
}

/// The curve that starts and ends along one axis, horizontal or vertical,
/// and whose four operands start at `s[i]`.
pub open spec fn flat_curve_at(s: Seq<i32>, horizontal: bool, i: int) -> Segment {
    if horizontal {
        Segment::Curve {
            dx0: s[i] as int,
            dy0: 0,
            dx1: s[i + 1] as int,
            dy1: s[i + 2] as int,
            dx2: s[i + 3] as int,
            dy2: 0,
        }
    } else {
        Segment::Curve {
            dx0: 0,
            dy0: s[i] as int,
            dx1: s[i + 1] as int,
            dy1: s[i + 2] as int,
            dx2: 0,
            dy2: s[i + 3] as int,
        }
    }
}

/// The displacement across the curves' axis that an odd number of
/// operands starts with.
pub open spec fn flat_lead(s: Seq<i32>, horizontal: bool) -> Segment {
    if horizontal {
        Segment::Shift { dx: 0, dy: s[0] as int }
    } else {
        Segment::Shift { dx: s[0] as int, dy: 0 }
    }
}

/// The segments of `hhcurveto` and `vvcurveto`: with an odd number of
/// operands the first displaces the pen across the curves' axis; then
/// come `count` flat curves of four operands each.
pub open spec fn flat_curves(s: Seq<i32>, horizontal: bool, count: nat) -> Seq<Segment> {
    if s.len() % 2 == 0 {
        Seq::new(count, |k: int| flat_curve_at(s, horizontal, 4 * k))
    } else {
        Seq::new(
            count + 1,
            |k: int|
                if k == 0 {
                    flat_lead(s, horizontal)
                } else {
                    flat_curve_at(s, horizontal, 4 * k - 3)
                },
        )
    }
}

/// The operators of a CharString. Those that are not implemented, the
/// escape that starts a two-byte operator among them, are one.
#[derive(Clone, Copy, Debug, PartialEq, Eq, Structural)]
pub enum Operator {
    HStem,
    VStem,
    VMoveTo,
    RLineTo,
    HLineTo,
    VLineTo,
    RRCurveTo,
    EndChar,
    HStemHm,
    HintMask,
    CntrMask,
    RMoveTo,
    HMoveTo,
    VStemHm,
    RCurveLine,
    RLineCurve,
    VVCurveTo,
    HHCurveTo,
    VHCurveTo,
    HVCurveTo,
    Unimplemented,
}

impl Operator {
    /// The operator that the byte `b0` stands for.
    pub open spec fn of(b0: u8) -> Operator {
        if b0 == 1 {
            Operator::HStem
        } else if b0 == 3 {
            Operator::VStem
        } else if b0 == 4 {
            Operator::VMoveTo
        } else if b0 == 5 {
            Operator::RLineTo
        } else if b0 == 6 {
            Operator::HLineTo
        } else if b0 == 7 {
            Operator::VLineTo
        } else if b0 == 8 {
            Operator::RRCurveTo
        } else if b0 == 14 {
            Operator::EndChar
        } else if b0 == 18 {
            Operator::HStemHm
        } else if b0 == 19 {
            Operator::HintMask
        } else if b0 == 20 {
            Operator::CntrMask
        } else if b0 == 21 {
            Operator::RMoveTo
        } else if b0 == 22 {
            Operator::HMoveTo
        } else if b0 == 23 {
            Operator::VStemHm
        } else if b0 == 24 {
            Operator::RCurveLine
        } else if b0 == 25 {
            Operator::RLineCurve
        } else if b0 == 26 {
            Operator::VVCurveTo
        } else if b0 == 27 {
            Operator::HHCurveTo
        } else if b0 == 30 {
            Operator::VHCurveTo
        } else if b0 == 31 {
            Operator::HVCurveTo
        } else {
            Operator::Unimplemented
        }
    }

    /// The segments that a drawing operator makes of the operands `s`, or
    /// `None` where it cannot group that many operands. Of an operator
    /// that draws no segments, `None`.
    pub open spec fn segments(self, s: Seq<i32>) -> Option<Seq<Segment>> {
        let n = s.len();
        match self {
            Operator::RLineTo => if n % 2 == 0 {
                Some(lines(s, n / 2))
            } else {
                None
            },
            Operator::HLineTo => Some(alternating_lines(s, true, n)),
            Operator::VLineTo => Some(alternating_lines(s, false, n)),
            Operator::RRCurveTo => if n % 6 == 0 {
                Some(curves(s, n / 6))
            } else {
                None
            },
            Operator::RCurveLine => if n >= 2 && (n - 2) % 6 == 0 {
                Some(curves(s, ((n - 2) / 6) as nat).push(line_at(s, n - 2)))
            } else {
                None
            },
            Operator::RLineCurve => if n >= 6 && (n - 6) % 2 == 0 {
                Some(lines(s, ((n - 6) / 2) as nat).push(curve_at(s, n - 6)))
            } else {
                None
            },
            Operator::VHCurveTo => Some(alternating_curves(s, false, n / 4)),
            Operator::HVCurveTo => Some(alternating_curves(s, true, n / 4)),
            Operator::VVCurveTo => if (n - n % 2) % 4 == 0 {
                Some(flat_curves(s, false, n / 4))
            } else {
                None
            },
            Operator::HHCurveTo => if (n - n % 2) % 4 == 0 {
                Some(flat_curves(s, true, n / 4))
            } else {
                None
            },
            _ => None,
        }
    }
}

/// The state of the machine between two tokens of a CharString.
pub struct Machine {
    /// The operands pushed since the last operator, oldest first.
    pub stack: Seq<i32>,
    pub pen: Pen,
    /// The number of stem hints declared so far.
    pub hint_count: u16,
}

impl Machine {
    /// The machine before the first token.
    pub open spec fn initial() -> Machine {
        Machine { stack: Seq::empty(), pen: Pen::initial(), hint_count: 0 }
    }

    /// The machine after a hint operator: each pair of operands declares
    /// one stem hint.
    pub open spec fn hinted(self) -> Machine {
        Machine {
            stack: Seq::empty(),
            pen: self.pen,
            hint_count: wrap_u16(self.hint_count + self.stack.len() / 2),
        }
    }

    /// The number of bytes in a hint mask: one bit for each stem hint.
    pub open spec fn mask_len(self) -> int {
        (self.hint_count + 7) / 8
    }
}

/// What one token of a CharString does.
pub enum Step {
    /// The program goes on at byte `pc`, `points` having been emitted.
    Next { pc: int, machine: Machine, points: Seq<Point> },
    /// The program has reached its end.
    End,
    /// The program is broken off, nothing emitted.
    Fail { error: FontError },
}

/// What the operator `op` does. `pc` is the place of the byte after it.
pub open spec fn operate(op: Operator, cs: Seq<u8>, pc: int, m: Machine) -> Step {
    let s = m.stack;
    match op {
        Operator::Unimplemented => Step::Fail { error: FontError::CffUnimplementedOperator },
        Operator::EndChar => Step::End,
        Operator::HStem | Operator::HStemHm | Operator::VStem | Operator::VStemHm => Step::Next {
            pc,
            machine: m.hinted(),
            points: Seq::empty(),
        },
        Operator::HintMask | Operator::CntrMask => {
            let hinted = m.hinted();
            if pc + hinted.mask_len() > cs.len() {
                Step::Fail { error: FontError::UnexpectedEof }
            } else {
                Step::Next { pc: pc + hinted.mask_len(), machine: hinted, points: Seq::empty() }
            }
        },
        Operator::RMoveTo => if s.len() < 2 {
            Step::Fail { error: FontError::CffBadOperandCount }
        } else {
            move_by(pc, m, s[0] as int, s[1] as int)
        },
        Operator::HMoveTo => if s.len() < 1 {
            Step::Fail { error: FontError::CffBadOperandCount }
        } else {
            move_by(pc, m, s[0] as int, 0)
        },
        Operator::VMoveTo => if s.len() < 1 {
            Step::Fail { error: FontError::CffBadOperandCount }
        } else {
            move_by(pc, m, 0, s[0] as int)
        },
        _ => match op.segments(s) {
            None => Step::Fail { error: FontError::CffBadOperandCount },
            Some(segments) => {
                let drawn = trace(m.pen, segments);
                Step::Next {
                    pc,
                    machine: Machine {
                        stack: Seq::empty(),
                        pen: drawn.pen,
                        hint_count: m.hint_count,
                    },
                    points: drawn.points,
                }
            },
        },
    }
}

/// The step of a move by `(dx, dy)`.
pub open spec fn move_by(pc: int, m: Machine, dx: int, dy: int) -> Step {
    Step::Next {
        pc,
        machine: Machine {
            stack: Seq::empty(),
            pen: m.pen.moved(dx, dy),
            hint_count: m.hint_count,
        },
        points: m.pen.move_points(dx, dy),
    }
}

/// Whether `b0` starts an operand of a CharString.
pub open spec fn is_operand_lead(b0: u8) -> bool {
    b0 == 255 || is_short_lead(b0)
}

/// How many bytes follow the lead `b0` of an operand of a CharString.
pub open spec fn operand_tail(b0: u8) -> int {
    if b0 == 255 {
        4
    } else {
        short_tail(b0)
    }
}

/// The operand of a CharString that starts at `cs[pc]`.
pub open spec fn operand_value(cs: Seq<u8>, pc: int) -> int {
    if cs[pc] == 255 {
        fixed_value(cs, pc + 1)
    } else {
        short_value(cs[pc], cs, pc + 1)
    }
}

/// What the token at `cs[pc]` does: an operand is pushed, an operator is
/// carried out. An operand cut short by the end of the program is
/// reported before a full stack is.
pub open spec fn step(cs: Seq<u8>, pc: int, m: Machine) -> Step {
    let b0 = cs[pc];
    if is_operand_lead(b0) {
        let next = pc + 1 + operand_tail(b0);
        if next > cs.len() {
            Step::Fail { error: FontError::UnexpectedEof }
        } else if m.stack.len() >= STACK_CAPACITY {
            Step::Fail { error: FontError::CffStackOverflow }
        } else {
            Step::Next {
                pc: next,
                machine: Machine { stack: m.stack.push(operand_value(cs, pc) as i32), ..m },
                points: Seq::empty(),
            }
        }
    } else {
        operate(Operator::of(b0), cs, pc + 1, m)
    }
}

/// What running a CharString comes to: the points emitted, in order, and
/// how it ended. After an error the points emitted before it stand; they
/// are part of no complete outline.
pub struct Outcome {
    pub points: Seq<Point>,
    pub result: Result<(), FontError>,
}

impl Outcome {
    /// The outcome with `points` emitted before it.
    pub open spec fn after(self, points: Seq<Point>) -> Outcome {
        Outcome { points: points + self.points, result: self.result }
    }

    /// The outcome of a run that ends well with the pen `pen`: the contour
    /// left open is closed.
    pub open spec fn finished(pen: Pen) -> Outcome {
        Outcome { points: pen.closing(), result: Ok(()) }
    }

    /// The outcome of a run that fails with `e`, nothing emitted.
    pub open spec fn failed(e: FontError) -> Outcome {
        Outcome { points: Seq::empty(), result: Err(e) }
    }
}

/// Every step that goes on does so further along the program.
pub proof fn lemma_step_advances(cs: Seq<u8>, pc: int, m: Machine)
    requires
        0 <= pc < cs.len(),
    ensures
        step(cs, pc, m) matches Step::Next { pc: next, .. } ==> pc < next <= cs.len(),
{
}

/// The outcome of running `cs` from byte `pc` on with the machine `m`.
/// Where the bytes run out the open contour is closed and the run has
/// succeeded.
pub open spec fn run(cs: Seq<u8>, pc: int, m: Machine) -> Outcome
    decreases cs.len() - pc,
{
    if 0 <= pc < cs.len() {
        match step(cs, pc, m) {
            Step::End => Outcome::finished(m.pen),
            Step::Fail { error } => Outcome::failed(error),
            Step::Next { pc: next, machine, points } => {
                proof {
                    lemma_step_advances(cs, pc, m);
                }
                run(cs, next, machine).after(points)
            },
        }
    } else {
        Outcome::finished(m.pen)
    }
}

/// Whether `count` operands stand in a row from `cs[pc]` on, each of
/// them whole.
pub open spec fn operands_ahead(cs: Seq<u8>, pc: int, count: nat) -> bool
    decreases count,
{
    count == 0 || {
        &&& 0 <= pc < cs.len()
        &&& is_operand_lead(cs[pc])
        &&& pc + 1 + operand_tail(cs[pc]) <= cs.len()
        &&& operands_ahead(cs, pc + 1 + operand_tail(cs[pc]), (count - 1) as nat)
    }
}

/// More operands in a row than the stack has room for end the run in a
/// stack overflow, with no point emitted on the way.
pub proof fn lemma_too_many_operands(cs: Seq<u8>, pc: int, m: Machine, count: nat)
    requires
        operands_ahead(cs, pc, count),
        m.stack.len() <= STACK_CAPACITY < m.stack.len() + count,
    ensures
        run(cs, pc, m) == Outcome::failed(FontError::CffStackOverflow),
    decreases count,
{
    if m.stack.len() < STACK_CAPACITY {
        let next = pc + 1 + operand_tail(cs[pc]);
        let pushed = Machine { stack: m.stack.push(operand_value(cs, pc) as i32), ..m };
        lemma_too_many_operands(cs, next, pushed, (count - 1) as nat);
        assert(Seq::<Point>::empty() + Seq::<Point>::empty() =~= Seq::<Point>::empty());
    }
}

/// A CharString that starts with 49 operands draws nothing and ends in a
/// stack overflow.
pub proof fn lemma_forty_nine_operands(cs: Seq<u8>)
    requires
        operands_ahead(cs, 0, 49),
    ensures
        outline(cs) == Outcome::failed(FontError::CffStackOverflow),
{
    lemma_too_many_operands(cs, 0, Machine::initial(), 49);
}

/// The outline that the CharString `cs` draws.
pub open spec fn outline(cs: Seq<u8>) -> Outcome {
    run(cs, 0, Machine::initial())
}

} // verus!
