//! The `CFF ` table: glyph outlines in the Compact Font Format.
//!
//! A [`CffTable`] is made once for a table and then asked for glyphs, any
//! number of times and in any order; it keeps nothing from one query to
//! the next. A query finds the glyph's CharString in the CharStrings
//! INDEX and runs it, and the points of the outline go to the caller's
//! sink as they are drawn. What each reader returns is said in `model`.

use vstd::prelude::*;
use vstd::slice::slice_subrange;

use crate::error::FontError;
use crate::font::{FontTable, Point, PointKind, PointSink, Position};
use crate::model::charstring::{
    alternating_curve_at, alternating_curves, alternating_line_at, alternating_lines, curve_at,
    curves, flat_curve_at, flat_curves, flat_lead, lemma_step_advances, lemma_trace_push,
    line_at, lines, operate, outline, run, step, trace, Machine, Operator, Outcome, Pen, Segment,
    Step, STACK_CAPACITY,
};
use crate::model::dict::{dict_integer, lemma_real_end_bounds, real_end, scan};
use crate::model::index::{index_lookup, lemma_span, offset_read};
use crate::model::operand::{is_short_lead, short_tail, short_value};
use crate::model::table::{char_strings_offset, glyph_outline, unsigned32, CHAR_STRINGS};
use crate::outline::{BoundsSink, GlyphBounds};
use crate::util::{signed16, u16_at, Cursor};

verus! {

/// The tag of the table: the four characters `CFF `.
pub const TAG: u32 = 0x4346_4620;

/// A CFF table, ready to answer for the outline of any of its glyphs.
#[derive(Clone, Copy, Debug)]
pub struct CffTable<'a> {
    // The offset of the char strings INDEX.
    char_strings: u32,
    table: FontTable<'a>,
}

impl<'a> CffTable<'a> {
    /// The bytes of the table.
    pub closed spec fn bytes(&self) -> Seq<u8> {
        self.table.bytes@
    }

    /// The place of the CharStrings INDEX, counted from the start of the
    /// table.
    pub closed spec fn char_strings(&self) -> u32 {
        self.char_strings
    }

    /// The place of the CharStrings INDEX is the one that the Top DICT
    /// gives.
    #[verifier::type_invariant]
    pub open spec fn well_formed(self) -> bool {
        char_strings_offset(self.bytes()) == Ok::<u32, FontError>(self.char_strings())
    }

    /// The outline of glyph `glyph_id`, or the error that reading it ends
    /// in.
    pub open spec fn outline(&self, glyph_id: u16) -> Outcome {
        glyph_outline(self.bytes(), self.char_strings(), glyph_id)
    }

    /// Reads the table as far as the place of its CharStrings INDEX.
    #[inline]
    pub fn new(table: FontTable<'a>) -> (r: Result<CffTable<'a>, FontError>)
        ensures
            match char_strings_offset(table.bytes@) {
                Ok(offset) => r matches Ok(cff) && cff.bytes() == table.bytes@
                    && cff.char_strings() == offset,
                Err(e) => r matches Err(reported) && reported == e,
            },
    {
        let mut reader = Cursor::new(table.bytes);

        // Check version.
        let major = reader.read_u8()?;
        let minor = reader.read_u8()?;
        if major != 1 || minor != 0 {
            return Err(FontError::UnsupportedCffVersion);
        }

        // Skip the header, three bytes of which have been read.
        let hdr_size = reader.read_u8()?;
        if hdr_size < 3 {
            return Err(FontError::UnexpectedEof);
        }
        reader.jump(hdr_size as usize - 3)?;

        // Skip the name INDEX.
        skip_index(&mut reader)?;

        // Get the top DICT for our font.
        if find_in_index(&mut reader, 0)?.is_none() {
            return Err(FontError::CffTopDictNotFound);
        }

        // Find the CharStrings offset within the top DICT.
        let char_strings = get_integer_in_dict(&mut reader, CHAR_STRINGS)?;

        // Skip the string INDEX.
        skip_index(&mut reader)?;

        let offset = #[verifier::truncate]
        (char_strings as u32);
        assert(offset == unsigned32(char_strings)) by (bit_vector)
            requires
                offset == char_strings as u32,
        ;
        Ok(CffTable { char_strings: offset, table })
    }

    /// Hands `sink` each point of the outline of glyph `glyph_id`, in the
    /// order in which the glyph's CharString draws them. An error ends the
    /// walk at once; the points emitted before it stay with the sink and
    /// are no outline.
    pub fn for_each_point<S: PointSink>(&self, glyph_id: u16, sink: &mut S) -> (r: Result<
        (),
        FontError,
    >)
        ensures
            r == self.outline(glyph_id).result,
            final(sink).received() == old(sink).received() + self.outline(glyph_id).points,
    {
        assert(sink.received() + Seq::<Point>::empty() =~= sink.received());
        let mut reader = Cursor::new(self.table.bytes);
        reader.jump(self.char_strings as usize)?;

        let char_string_length = match find_in_index(&mut reader, glyph_id)? {
            Some(char_string_length) => char_string_length,
            None => {
                return Err(FontError::UnexpectedEof);
            },
        };
        if char_string_length as usize > reader.remaining() {
            return Err(FontError::UnexpectedEof);
        }
        proof {
            use_type_invariant(&reader);
        }
        let char_string = slice_subrange(reader.as_slice(), 0, char_string_length as usize);
        assert(char_string@ =~= self.bytes().subrange(
            reader.offset(),
            reader.offset() + char_string_length,
        ));
        interpret(char_string, sink)
    }

    /// The box that the outline of glyph `glyph_id` fits in.
    pub fn glyph_bounds(&self, glyph_id: u16) -> (r: Result<GlyphBounds, FontError>)
        ensures
            match self.outline(glyph_id).result {
                Ok(_) => r == Ok::<GlyphBounds, FontError>(
                    GlyphBounds::of(self.outline(glyph_id).points),
                ),
                Err(e) => r == Err::<GlyphBounds, FontError>(e),
            },
    {
        let mut sink = BoundsSink::new();
        self.for_each_point(glyph_id, &mut sink)?;
        assert(sink.received() =~= self.outline(glyph_id).points);
        Ok(sink.bounds())
    }
}

/// The CFF evaluation stack used during CharString reading: at most 48
/// operands, oldest first.
pub struct EvaluationStack {
    array: [i32; 48],
    size: u8,
}

impl View for EvaluationStack {
    type V = Seq<i32>;

    /// The operands on the stack, oldest first.
    closed spec fn view(&self) -> Seq<i32> {
        self.array@.take(self.size as int)
    }
}

impl EvaluationStack {
    #[verifier::type_invariant]
    spec fn within_capacity(self) -> bool {
        self.size <= 48
    }

    /// An empty stack.
    pub fn new() -> (stack: EvaluationStack)
        ensures
            stack@ == Seq::<i32>::empty(),
    {
        EvaluationStack { array: [0;48], size: 0 }
    }

    /// Puts `value` on top. A full stack is left as it is, and the
    /// overflow is reported.
    pub fn push(&mut self, value: i32) -> (r: Result<(), FontError>)
        ensures
            old(self)@.len() < STACK_CAPACITY ==> r == Ok::<(), FontError>(()) && final(self)@
                == old(self)@.push(value),
            old(self)@.len() >= STACK_CAPACITY ==> r == Err::<(), FontError>(
                FontError::CffStackOverflow,
            ) && final(self)@ == old(self)@,
    {
        proof {
            use_type_invariant(&*self);
        }
        if (self.size as usize) < 48 {
            self.array[self.size as usize] = value;
            self.size += 1;
            assert(self@ =~= old(self)@.push(value));
            Ok(())
        } else {
            Err(FontError::CffStackOverflow)
        }
    }

    /// Takes every operand off.
    pub fn clear(&mut self)
        ensures
            final(self)@ == Seq::<i32>::empty(),
    {
        self.size = 0
    }

    /// The number of operands on the stack.
    pub fn len(&self) -> (n: usize)
        ensures
            n == self@.len(),
            n <= STACK_CAPACITY,
    {
        proof {
            use_type_invariant(self);
        }
        self.size as usize
    }

    /// Operand `i`, counted from the oldest.
    pub fn get(&self, i: usize) -> (value: i32)
        requires
            i < self@.len(),
        ensures
            value == self@[i as int],
    {
        proof {
            use_type_invariant(self);
        }
        self.array[i]
    }
}

/// The low 16 bits of `v`, as a signed number.
fn low16(v: i32) -> (r: i16)
    ensures
        r as int == signed16(v as int),
{
    let r = #[verifier::truncate]
    (v as i16);
    assert(r as int == signed16(v as int)) by (bit_vector)
        requires
            r == v as i16,
    ;
    r
}

/// Displaces the pen by `(dx, dy)`.
fn shift(pen: &mut Pen, dx: i32, dy: i32)
    ensures
        *final(pen) == old(pen).shifted(dx as int, dy as int),
{
    let x = pen.position.x.wrapping_add(low16(dx));
    let y = pen.position.y.wrapping_add(low16(dy));
    pen.position = Position { x, y };
}

/// Counts `n` more points into the pen's contour.
fn count(pen: &mut Pen, n: u16)
    ensures
        *final(pen) == old(pen).counted(n as int),
{
    pen.index_in_contour = pen.index_in_contour.wrapping_add(n);
}

/// Emits the point of kind `kind` where the pen is.
fn mark<S: PointSink>(pen: &Pen, ahead: u16, kind: PointKind, sink: &mut S)
    ensures
        final(sink).received() == old(sink).received().push(pen.mark(ahead as int, kind)),
{
    sink.point(
        &Point {
            position: pen.position,
            index_in_contour: pen.index_in_contour.wrapping_add(ahead),
            kind,
        },
    );
}

/// Closes the open contour, if there is one, with a point at its start.
fn close_path_if_necessary<S: PointSink>(pen: &Pen, sink: &mut S)
    ensures
        final(sink).received() == old(sink).received() + pen.closing(),
{
    if pen.index_in_contour == 0 {
        // No path to close.
        assert(sink.received() + pen.closing() =~= sink.received());
        return ;
    }
    sink.point(
        &Point {
            position: pen.start,
            index_in_contour: pen.index_in_contour,
            kind: PointKind::OnCurve,
        },
    );
    assert(old(sink).received() + pen.closing() =~= old(sink).received().push(pen.closing()[0]));
}

/// Closes the open contour and starts a new one `(dx, dy)` away.
fn move_to<S: PointSink>(dx: i32, dy: i32, pen: &mut Pen, sink: &mut S)
    ensures
        *final(pen) == old(pen).moved(dx as int, dy as int),
        final(sink).received() == old(sink).received() + old(pen).move_points(
            dx as int,
            dy as int,
        ),
{
    close_path_if_necessary(pen, sink);
    shift(pen, dx, dy);
    sink.point(&Point { position: pen.position, index_in_contour: 0, kind: PointKind::OnCurve });
    pen.start = pen.position;
    pen.index_in_contour = 1;
    assert(sink.received() =~= old(sink).received() + old(pen).move_points(dx as int, dy as int));
}

/// Draws a line to the point `(dx, dy)` away.
fn line_to<S: PointSink>(dx: i32, dy: i32, pen: &mut Pen, sink: &mut S)
    ensures
        ({
            let line = Segment::Line { dx: dx as int, dy: dy as int };
            &&& *final(pen) == line.leaves(*old(pen))
            &&& final(sink).received() == old(sink).received() + line.points(*old(pen))
        }),
{
    let ghost line = Segment::Line { dx: dx as int, dy: dy as int };
    shift(pen, dx, dy);
    mark(pen, 0, PointKind::OnCurve, sink);
    count(pen, 1);
    assert(sink.received() =~= old(sink).received() + line.points(*old(pen)));
}

/// Draws a cubic Bézier curve: two control points and the point where
/// the curve ends, each given by its displacement from the point before.
fn add_curve<S: PointSink>(
    dx0: i32,
    dy0: i32,
    dx1: i32,
    dy1: i32,
    dx2: i32,
    dy2: i32,
    pen: &mut Pen,
    sink: &mut S,
)
    ensures
        ({
            let curve = Segment::Curve {
                dx0: dx0 as int,
                dy0: dy0 as int,
                dx1: dx1 as int,
                dy1: dy1 as int,
                dx2: dx2 as int,
                dy2: dy2 as int,
            };
            &&& *final(pen) == curve.leaves(*old(pen))
            &&& final(sink).received() == old(sink).received() + curve.points(*old(pen))
        }),
{
    let ghost curve = Segment::Curve {
        dx0: dx0 as int,
        dy0: dy0 as int,
        dx1: dx1 as int,
        dy1: dy1 as int,
        dx2: dx2 as int,
        dy2: dy2 as int,
    };
    shift(pen, dx0, dy0);
    mark(pen, 0, PointKind::FirstCubicControl, sink);
    shift(pen, dx1, dy1);
    mark(pen, 1, PointKind::SecondCubicControl, sink);
    shift(pen, dx2, dy2);
    mark(pen, 2, PointKind::OnCurve, sink);
    count(pen, 3);
    assert(sink.received() =~= old(sink).received() + curve.points(*old(pen)));
}

/// Draws `count` lines, taking the operands pair by pair.
fn draw_lines<S: PointSink>(stack: &EvaluationStack, count: usize, pen: &mut Pen, sink: &mut S)
    requires
        2 * count <= stack@.len(),
    ensures
        *final(pen) == trace(*old(pen), lines(stack@, count as nat)).pen,
        final(sink).received() == old(sink).received() + trace(
            *old(pen),
            lines(stack@, count as nat),
        ).points,
{
    let ghost pen0 = *pen;
    let ghost got0 = sink.received();
    let size = stack.len();
    let mut k: usize = 0;
    assert(got0 + trace(pen0, lines(stack@, 0)).points =~= got0);
    while k < count
        invariant
            k <= count,
            2 * count <= stack@.len() == size <= STACK_CAPACITY,
            *pen == trace(pen0, lines(stack@, k as nat)).pen,
            sink.received() == got0 + trace(pen0, lines(stack@, k as nat)).points,
        decreases count - k,
    {
        let ghost drawn = trace(pen0, lines(stack@, k as nat));
        let ghost segment = line_at(stack@, 2 * k);
        line_to(stack.get(2 * k), stack.get(2 * k + 1), pen, sink);
        proof {
            assert(lines(stack@, (k + 1) as nat) =~= lines(stack@, k as nat).push(segment));
            lemma_trace_push(pen0, lines(stack@, k as nat), segment);
            assert(sink.received() =~= got0 + (drawn.points + segment.points(drawn.pen)));
        }
        k += 1;
    }
}

/// Draws `count` curves, taking the operands six by six.
fn draw_curves<S: PointSink>(stack: &EvaluationStack, count: usize, pen: &mut Pen, sink: &mut S)
    requires
        6 * count <= stack@.len(),
    ensures
        *final(pen) == trace(*old(pen), curves(stack@, count as nat)).pen,
        final(sink).received() == old(sink).received() + trace(
            *old(pen),
            curves(stack@, count as nat),
        ).points,
{
    let ghost pen0 = *pen;
    let ghost got0 = sink.received();
    let size = stack.len();
    let mut k: usize = 0;
    assert(got0 + trace(pen0, curves(stack@, 0)).points =~= got0);
    while k < count
        invariant
            k <= count,
            6 * count <= stack@.len() == size <= STACK_CAPACITY,
            *pen == trace(pen0, curves(stack@, k as nat)).pen,
            sink.received() == got0 + trace(pen0, curves(stack@, k as nat)).points,
        decreases count - k,
    {
        let ghost drawn = trace(pen0, curves(stack@, k as nat));
        let ghost segment = curve_at(stack@, 6 * k);
        let i = 6 * k;
        add_curve(
            stack.get(i),
            stack.get(i + 1),
            stack.get(i + 2),
            stack.get(i + 3),
            stack.get(i + 4),
            stack.get(i + 5),
            pen,
            sink,
        );
        proof {
            assert(curves(stack@, (k + 1) as nat) =~= curves(stack@, k as nat).push(segment));
            lemma_trace_push(pen0, curves(stack@, k as nat), segment);
            assert(sink.received() =~= got0 + (drawn.points + segment.points(drawn.pen)));
        }
        k += 1;
    }
}

/// Draws one line for each operand, horizontal and vertical in turn.
fn draw_alternating_lines<S: PointSink>(
    stack: &EvaluationStack,
    horizontal_first: bool,
    pen: &mut Pen,
    sink: &mut S,
)
    ensures
        *final(pen) == trace(
            *old(pen),
            alternating_lines(stack@, horizontal_first, stack@.len()),
        ).pen,
        final(sink).received() == old(sink).received() + trace(
            *old(pen),
            alternating_lines(stack@, horizontal_first, stack@.len()),
        ).points,
{
    let ghost pen0 = *pen;
    let ghost got0 = sink.received();
    let count = stack.len();
    let mut k: usize = 0;
    assert(got0 + trace(pen0, alternating_lines(stack@, horizontal_first, 0)).points =~= got0);
    while k < count
        invariant
            k <= count,
            count == stack@.len() <= STACK_CAPACITY,
            *pen == trace(pen0, alternating_lines(stack@, horizontal_first, k as nat)).pen,
            sink.received() == got0 + trace(
                pen0,
                alternating_lines(stack@, horizontal_first, k as nat),
            ).points,
        decreases count - k,
    {
        let ghost drawn = trace(pen0, alternating_lines(stack@, horizontal_first, k as nat));
        let ghost segment = alternating_line_at(stack@, horizontal_first, k as int);
        let length = stack.get(k);
        if (k % 2 == 0) == horizontal_first {
            line_to(length, 0, pen, sink);
        } else {
            line_to(0, length, pen, sink);
        }
        proof {
            assert(alternating_lines(stack@, horizontal_first, (k + 1) as nat)
                =~= alternating_lines(stack@, horizontal_first, k as nat).push(segment));
            lemma_trace_push(
                pen0,
                alternating_lines(stack@, horizontal_first, k as nat),
                segment,
            );
            assert(sink.received() =~= got0 + (drawn.points + segment.points(drawn.pen)));
        }
        k += 1;
    }
}

/// Draws one curve for each four operands, starting horizontal and
/// starting vertical in turn.
fn draw_alternating_curves<S: PointSink>(
    stack: &EvaluationStack,
    horizontal_first: bool,
    pen: &mut Pen,
    sink: &mut S,
)
    ensures
        *final(pen) == trace(
            *old(pen),
            alternating_curves(stack@, horizontal_first, stack@.len() / 4),
        ).pen,
        final(sink).received() == old(sink).received() + trace(
            *old(pen),
            alternating_curves(stack@, horizontal_first, stack@.len() / 4),
        ).points,
{
    let ghost pen0 = *pen;
    let ghost got0 = sink.received();
    let size = stack.len();
    let count = size / 4;
    let mut k: usize = 0;
    assert(got0 + trace(pen0, alternating_curves(stack@, horizontal_first, 0)).points =~= got0);
    while k < count
        invariant
            k <= count,
            size == stack@.len() <= STACK_CAPACITY,
            count == size / 4,
            *pen == trace(pen0, alternating_curves(stack@, horizontal_first, k as nat)).pen,
            sink.received() == got0 + trace(
                pen0,
                alternating_curves(stack@, horizontal_first, k as nat),
            ).points,
        decreases count - k,
    {
        let ghost drawn = trace(pen0, alternating_curves(stack@, horizontal_first, k as nat));
        let ghost segment = alternating_curve_at(stack@, horizontal_first, k as int);
        let i = 4 * k;
        let last = if i + 5 == size {
            stack.get(i + 4)
        } else {
            0
        };
        if (k % 2 == 0) == horizontal_first {
            add_curve(
                stack.get(i),
                0,
                stack.get(i + 1),
                stack.get(i + 2),
                last,
                stack.get(i + 3),
                pen,
                sink,
            );
        } else {
            add_curve(
                0,
                stack.get(i),
                stack.get(i + 1),
                stack.get(i + 2),
                stack.get(i + 3),
                last,
                pen,
                sink,
            );
        }
        proof {
            assert(alternating_curves(stack@, horizontal_first, (k + 1) as nat)
                =~= alternating_curves(stack@, horizontal_first, k as nat).push(segment));
            lemma_trace_push(
                pen0,
                alternating_curves(stack@, horizontal_first, k as nat),
                segment,
            );
            assert(sink.received() =~= got0 + (drawn.points + segment.points(drawn.pen)));
        }
        k += 1;
    }
}

/// Draws the curves of `hhcurveto` or `vvcurveto`: one for each four
/// operands, after the displacement that an odd number of operands
/// starts with.
fn draw_flat_curves<S: PointSink>(
    stack: &EvaluationStack,
    horizontal: bool,
    pen: &mut Pen,
    sink: &mut S,
)
    requires
        (stack@.len() - stack@.len() % 2) % 4 == 0,
    ensures
        *final(pen) == trace(*old(pen), flat_curves(stack@, horizontal, stack@.len() / 4)).pen,
        final(sink).received() == old(sink).received() + trace(
            *old(pen),
            flat_curves(stack@, horizontal, stack@.len() / 4),
        ).points,
{
    let ghost pen0 = *pen;
    let ghost got0 = sink.received();
    let size = stack.len();
    let count = size / 4;
    let lead = size % 2;
    if lead == 1 {
        if horizontal {
            shift(pen, 0, stack.get(0));
        } else {
            shift(pen, stack.get(0), 0);
        }
    }
    let ghost skipped = Seq::<Segment>::empty().push(flat_lead(stack@, horizontal)).take(
        lead as int,
    );
    proof {
        assert(flat_curves(stack@, horizontal, 0) =~= skipped);
        if lead == 1 {
            lemma_trace_push(pen0, Seq::empty(), flat_lead(stack@, horizontal));
            assert(skipped =~= Seq::<Segment>::empty().push(flat_lead(stack@, horizontal)));
        }
        assert(got0 + trace(pen0, flat_curves(stack@, horizontal, 0)).points =~= got0);
    }
    let mut k: usize = 0;
    while k < count
        invariant
            k <= count,
            size == stack@.len() <= STACK_CAPACITY,
            count == size / 4,
            lead == size % 2,
            (size - lead) % 4 == 0,
            *pen == trace(pen0, flat_curves(stack@, horizontal, k as nat)).pen,
            sink.received() == got0 + trace(pen0, flat_curves(stack@, horizontal, k as nat)).points,
        decreases count - k,
    {
        let ghost drawn = trace(pen0, flat_curves(stack@, horizontal, k as nat));
        let i = lead + 4 * k;
        let ghost segment = flat_curve_at(stack@, horizontal, i as int);
        if horizontal {
            add_curve(
                stack.get(i),
                0,
                stack.get(i + 1),
                stack.get(i + 2),
                stack.get(i + 3),
                0,
                pen,
                sink,
            );
        } else {
            add_curve(
                0,
                stack.get(i),
                stack.get(i + 1),
                stack.get(i + 2),
                0,
                stack.get(i + 3),
                pen,
                sink,
            );
        }
        proof {
            assert(flat_curves(stack@, horizontal, (k + 1) as nat) =~= flat_curves(
                stack@,
                horizontal,
                k as nat,
            ).push(segment));
            lemma_trace_push(pen0, flat_curves(stack@, horizontal, k as nat), segment);
            assert(sink.received() =~= got0 + (drawn.points + segment.points(drawn.pen)));
        }
        k += 1;
    }
}

/// Carries out a drawing operator on the operands of `stack`. Where the
/// operator cannot group that many operands nothing is drawn.
fn draw<S: PointSink>(op: Operator, stack: &EvaluationStack, pen: &mut Pen, sink: &mut S) -> (r:
    Result<(), FontError>)
    ensures
        match op.segments(stack@) {
            Some(segments) => r == Ok::<(), FontError>(()) && *final(pen) == trace(
                *old(pen),
                segments,
            ).pen && final(sink).received() == old(sink).received() + trace(
                *old(pen),
                segments,
            ).points,
            None => r == Err::<(), FontError>(FontError::CffBadOperandCount) && *final(pen)
                == *old(pen) && final(sink).received() == old(sink).received(),
        },
{
    let size = stack.len();
    match op {
        Operator::RLineTo => {
            if size % 2 != 0 {
                return Err(FontError::CffBadOperandCount);
            }
            draw_lines(stack, size / 2, pen, sink);
        },
        Operator::HLineTo => draw_alternating_lines(stack, true, pen, sink),
        Operator::VLineTo => draw_alternating_lines(stack, false, pen, sink),
        Operator::RRCurveTo => {
            if size % 6 != 0 {
                return Err(FontError::CffBadOperandCount);
            }
            draw_curves(stack, size / 6, pen, sink);
        },
        Operator::RCurveLine => {
            if size < 2 || (size - 2) % 6 != 0 {
                return Err(FontError::CffBadOperandCount);
            }
            let ghost got0 = sink.received();
            let ghost before = curves(stack@, ((size - 2) / 6) as nat);
            draw_curves(stack, (size - 2) / 6, pen, sink);
            line_to(stack.get(size - 2), stack.get(size - 1), pen, sink);
            proof {
                let segment = line_at(stack@, size - 2);
                lemma_trace_push(*old(pen), before, segment);
                let drawn = trace(*old(pen), before);
                assert(sink.received() =~= got0 + (drawn.points + segment.points(drawn.pen)));
            }
        },
        Operator::RLineCurve => {
            if size < 6 || (size - 6) % 2 != 0 {
                return Err(FontError::CffBadOperandCount);
            }
            let ghost got0 = sink.received();
            let ghost before = lines(stack@, ((size - 6) / 2) as nat);
            draw_lines(stack, (size - 6) / 2, pen, sink);
            add_curve(
                stack.get(size - 6),
                stack.get(size - 5),
                stack.get(size - 4),
                stack.get(size - 3),
                stack.get(size - 2),
                stack.get(size - 1),
                pen,
                sink,
            );
            proof {
                let segment = curve_at(stack@, size - 6);
                lemma_trace_push(*old(pen), before, segment);
                let drawn = trace(*old(pen), before);
                assert(sink.received() =~= got0 + (drawn.points + segment.points(drawn.pen)));
            }
        },
        Operator::VHCurveTo => draw_alternating_curves(stack, false, pen, sink),
        Operator::HVCurveTo => draw_alternating_curves(stack, true, pen, sink),
        Operator::VVCurveTo => {
            if (size - size % 2) % 4 != 0 {
                return Err(FontError::CffBadOperandCount);
            }
            draw_flat_curves(stack, false, pen, sink);
        },
        Operator::HHCurveTo => {
            if (size - size % 2) % 4 != 0 {
                return Err(FontError::CffBadOperandCount);
            }
            draw_flat_curves(stack, true, pen, sink);
        },
        _ => {
            return Err(FontError::CffBadOperandCount);
        },
    }
    Ok(())
}

/// Reads the rest of an operand in one of the forms that DICTs and
/// CharStrings share, its lead `b0` having been read. Where `b0` starts
/// no such operand nothing is read.
pub fn read_short_integer(reader: &mut Cursor, b0: u8) -> (r: Result<Option<i32>, FontError>)
    ensures
        final(reader).data() == old(reader).data(),
        ({
            let data = old(reader).data();
            let at = old(reader).offset();
            let landing = final(reader).offset();
            if !is_short_lead(b0) {
                r == Ok::<Option<i32>, FontError>(None) && landing == at
            } else if at + short_tail(b0) <= data.len() {
                r == Ok::<Option<i32>, FontError>(Some(short_value(b0, data, at) as i32))
                    && landing == at + short_tail(b0)
            } else {
                r == Err::<Option<i32>, FontError>(FontError::UnexpectedEof) && landing == at
            }
        }),
{
    proof {
        use_type_invariant(&*reader);
    }
    if 32 <= b0 && b0 <= 246 {
        Ok(Some(b0 as i32 - 139))
    } else if 247 <= b0 && b0 <= 250 {
        let b1 = reader.read_u8()?;
        Ok(Some((b0 as i32 - 247) * 256 + b1 as i32 + 108))
    } else if 251 <= b0 && b0 <= 254 {
        let b1 = reader.read_u8()?;
        Ok(Some(-(b0 as i32 - 251) * 256 - b1 as i32 - 108))
    } else if b0 == 28 {
        let v = reader.read_i16()?;
        Ok(Some(v as i32))
    } else {
        Ok(None)
    }
}

impl Operator {
    /// The operator that the byte `b0` stands for.
    pub fn from_byte(b0: u8) -> (op: Operator)
        ensures
            op == Operator::of(b0),
    {
        match b0 {
            1 => Operator::HStem,
            3 => Operator::VStem,
            4 => Operator::VMoveTo,
            5 => Operator::RLineTo,
            6 => Operator::HLineTo,
            7 => Operator::VLineTo,
            8 => Operator::RRCurveTo,
            14 => Operator::EndChar,
            18 => Operator::HStemHm,
            19 => Operator::HintMask,
            20 => Operator::CntrMask,
            21 => Operator::RMoveTo,
            22 => Operator::HMoveTo,
            23 => Operator::VStemHm,
            24 => Operator::RCurveLine,
            25 => Operator::RLineCurve,
            26 => Operator::VVCurveTo,
            27 => Operator::HHCurveTo,
            30 => Operator::VHCurveTo,
            31 => Operator::HVCurveTo,
            _ => Operator::Unimplemented,
        }
    }
}

/// The machine that runs a CharString: the operands waiting for their
/// operator, the pen, and the number of stem hints declared.
struct Interpreter {
    stack: EvaluationStack,
    pen: Pen,
    hint_count: u16,
}

impl View for Interpreter {
    type V = Machine;

    closed spec fn view(&self) -> Machine {
        Machine { stack: self.stack@, pen: self.pen, hint_count: self.hint_count }
    }
}

impl Interpreter {
    /// The machine before the first token.
    fn new() -> (machine: Interpreter)
        ensures
            machine@ == Machine::initial(),
    {
        Interpreter {
            stack: EvaluationStack::new(),
            pen: Pen {
                position: Position { x: 0, y: 0 },
                start: Position { x: 0, y: 0 },
                index_in_contour: 0,
            },
            hint_count: 0,
        }
    }

    /// Puts an operand on the stack.
    fn push(&mut self, value: i32) -> (r: Result<(), FontError>)
        ensures
            old(self)@.stack.len() < STACK_CAPACITY ==> {
                &&& r == Ok::<(), FontError>(())
                &&& final(self)@ == (Machine { stack: old(self)@.stack.push(value), ..old(self)@ })
            },
            old(self)@.stack.len() >= STACK_CAPACITY ==> {
                r == Err::<(), FontError>(FontError::CffStackOverflow)
            },
    {
        self.stack.push(value)
    }

    /// Counts the stem hints that the operands declare, a pair each.
    fn hint(&mut self)
        ensures
            final(self)@ == old(self)@.hinted(),
    {
        let pairs = self.stack.len() / 2;
        self.hint_count = self.hint_count.wrapping_add(pairs as u16);
        self.stack.clear();
    }

    /// Carries out the operator `op`, the byte after which the reader is at.
    /// `Ok(false)` says that the program has reached its `endchar`; the
    /// contour left open is then still to be closed.
    fn operate<S: PointSink>(&mut self, op: Operator, reader: &mut Cursor, sink: &mut S) -> (r:
        Result<bool, FontError>)
        ensures
            final(reader).data() == old(reader).data(),
            match operate(op, old(reader).data(), old(reader).offset(), old(self)@) {
                Step::Next { pc, machine, points } => {
                    &&& r == Ok::<bool, FontError>(true)
                    &&& final(self)@ == machine
                    &&& final(reader).offset() == pc
                    &&& final(sink).received() == old(sink).received() + points
                },
                Step::End => {
                    &&& r == Ok::<bool, FontError>(false)
                    &&& final(self)@ == old(self)@
                    &&& final(sink).received() == old(sink).received()
                },
                Step::Fail { error } => {
                    &&& r == Err::<bool, FontError>(error)
                    &&& final(sink).received() == old(sink).received()
                },
            },
    {
        assert(sink.received() + Seq::<Point>::empty() =~= sink.received());
        match op {
            Operator::Unimplemented => Err(FontError::CffUnimplementedOperator),
            Operator::EndChar => Ok(false),
            Operator::HStem | Operator::HStemHm | Operator::VStem | Operator::VStemHm => {
                self.hint();
                Ok(true)
            },
            Operator::HintMask | Operator::CntrMask => {
                self.hint();
                let mask_len = (self.hint_count as usize + 7) / 8;
                reader.jump(mask_len)?;
                Ok(true)
            },
            Operator::RMoveTo => {
                if self.stack.len() < 2 {
                    return Err(FontError::CffBadOperandCount);
                }
                move_to(self.stack.get(0), self.stack.get(1), &mut self.pen, sink);
                self.stack.clear();
                Ok(true)
            },
            Operator::HMoveTo => {
                if self.stack.len() < 1 {
                    return Err(FontError::CffBadOperandCount);
                }
                move_to(self.stack.get(0), 0, &mut self.pen, sink);
                self.stack.clear();
                Ok(true)
            },
            Operator::VMoveTo => {
                if self.stack.len() < 1 {
                    return Err(FontError::CffBadOperandCount);
                }
                move_to(0, self.stack.get(0), &mut self.pen, sink);
                self.stack.clear();
                Ok(true)
            },
            _ => {
                draw(op, &self.stack, &mut self.pen, sink)?;
                self.stack.clear();
                Ok(true)
            },
        }
    }

    /// Carries out the token whose first byte, `b0`, has just been read.
    /// `Ok(false)` says that the program has reached its `endchar`; the
    /// contour left open is then still to be closed.
    fn step<S: PointSink>(&mut self, b0: u8, reader: &mut Cursor, sink: &mut S) -> (r: Result<
        bool,
        FontError,
    >)
        requires
            1 <= old(reader).offset(),
            old(reader).data()[old(reader).offset() - 1] == b0,
        ensures
            final(reader).data() == old(reader).data(),
            match step(old(reader).data(), old(reader).offset() - 1, old(self)@) {
                Step::Next { pc, machine, points } => {
                    &&& r == Ok::<bool, FontError>(true)
                    &&& final(self)@ == machine
                    &&& final(reader).offset() == pc
                    &&& final(sink).received() == old(sink).received() + points
                },
                Step::End => {
                    &&& r == Ok::<bool, FontError>(false)
                    &&& final(self)@ == old(self)@
                    &&& final(sink).received() == old(sink).received()
                },
                Step::Fail { error } => {
                    &&& r == Err::<bool, FontError>(error)
                    &&& final(sink).received() == old(sink).received()
                },
            },
    {
        assert(sink.received() + Seq::<Point>::empty() =~= sink.received());
        if b0 == 255 {
            let fixed = reader.read_i32()?;
            assert(fixed >> 16 == fixed as int / 0x1_0000) by (bit_vector);
            self.push(fixed >> 16)?;
            return Ok(true);
        }
        match read_short_integer(reader, b0)? {
            Some(value) => {
                self.push(value)?;
                Ok(true)
            },
            None => self.operate(Operator::from_byte(b0), reader, sink),
        }
    }
}

/// Runs the CharString `char_string` and hands `sink` each point of the
/// outline as it is drawn. An error ends the run at once; the points
/// emitted before it stay with the sink and are no outline.
pub fn interpret<S: PointSink>(char_string: &[u8], sink: &mut S) -> (r: Result<(), FontError>)
    ensures
        r == outline(char_string@).result,
        final(sink).received() == old(sink).received() + outline(char_string@).points,
{
    let ghost cs = char_string@;
    let ghost got0 = sink.received();
    let ghost mut emitted = Seq::<Point>::empty();
    let mut reader = Cursor::new(char_string);
    let mut machine = Interpreter::new();
    assert(got0 + emitted =~= got0);
    assert(outline(cs).after(emitted).points =~= outline(cs).points);
    loop
        invariant_except_break
            reader.data() == cs,
            outline(cs) == run(cs, reader.offset(), machine@).after(emitted),
        invariant
            cs == char_string@,
            got0 == old(sink).received(),
            sink.received() == got0 + emitted,
        ensures
            outline(cs) == Outcome::finished(machine@.pen).after(emitted),
        decreases cs.len() - reader.offset(),
    {
        proof {
            use_type_invariant(&reader);
        }
        let ghost pc = reader.offset();
        let ghost before = machine@;
        let b0 = match reader.read_u8() {
            Ok(b0) => b0,
            Err(_) => {
                break ;
            },
        };
        proof {
            lemma_step_advances(cs, pc, before);
        }
        match machine.step(b0, &mut reader, sink) {
            Ok(true) => {
                proof {
                    let points = step(cs, pc, before)->Next_points;
                    let rest = run(cs, reader.offset(), machine@);
                    assert(rest.after(points).after(emitted).points =~= rest.after(
                        emitted + points,
                    ).points);
                    assert(got0 + emitted + points =~= got0 + (emitted + points));
                    emitted = emitted + points;
                }
            },
            Ok(false) => {
                break ;
            },
            Err(e) => {
                assert(got0 + emitted + Seq::<Point>::empty() =~= got0 + emitted);
                assert(emitted + Seq::<Point>::empty() =~= emitted);
                return Err(e);
            },
        }
    }
    close_path_if_necessary(&machine.pen, sink);
    proof {
        let closing = machine@.pen.closing();
        assert(got0 + emitted + closing =~= got0 + (emitted + closing));
    }
    Ok(())
}

/// Reads an offset of `size` bytes.
fn read_offset(reader: &mut Cursor, size: u8) -> (r: Result<u32, FontError>)
    ensures
        final(reader).data() == old(reader).data(),
        r == offset_read(old(reader).data(), old(reader).offset(), size),
        r is Ok ==> final(reader).offset() == old(reader).offset() + size,
        r is Err ==> final(reader).offset() == old(reader).offset(),
{
    let mut probe = *reader;
    let offset = match size {
        1 => probe.read_u8()? as u32,
        2 => probe.read_u16()? as u32,
        3 => {
            let hi = probe.read_u8()? as u32;
            let lo = probe.read_u16()? as u32;
            assert((hi << 16) | lo == hi * 0x1_0000 + lo) by (bit_vector)
                requires
                    hi < 0x100,
                    lo < 0x1_0000,
            ;
            (hi << 16) | lo
        },
        4 => probe.read_u32()?,
        _ => {
            return Err(FontError::CffBadOffset);
        },
    };
    *reader = probe;
    Ok(offset)
}

/// Moves the reader to the first byte of record `index` of the INDEX it
/// is at, and returns the length of the record. Where the INDEX has no
/// such record it returns `None`, and the reader is left at the end of
/// the INDEX. After an error the reader is where it was.
pub fn find_in_index(reader: &mut Cursor, index: u16) -> (r: Result<Option<u32>, FontError>)
    ensures
        final(reader).data() == old(reader).data(),
        match index_lookup(old(reader).data(), old(reader).offset(), index) {
            Ok(found) => {
                &&& r == Ok::<Option<u32>, FontError>(found.length)
                &&& final(reader).offset() == found.at
            },
            Err(e) => {
                &&& r == Err::<Option<u32>, FontError>(e)
                &&& final(reader).offset() == old(reader).offset()
            },
        },
        ({
            let data = old(reader).data();
            let at = old(reader).offset();
            at + 2 <= data.len() && u16_at(data, at) == 0 ==> {
                &&& r == Ok::<Option<u32>, FontError>(None)
                &&& final(reader).offset() == at + 2
            }
        }),
{
    proof {
        use_type_invariant(&*reader);
    }
    let mut probe = *reader;
    let count = probe.read_u16()?;
    if count == 0 {
        *reader = probe;
        return Ok(None);
    }
    let off_size = probe.read_u8()?;

    let mut offset_reader = probe;
    let slot = if index < count {
        index
    } else {
        count
    };
    proof {
        lemma_span(off_size as int, slot as int);
        lemma_span(off_size as int, count + 1);
    }
    assert(off_size * slot <= 0xff * 0xffff) by (nonlinear_arith)
        requires
            off_size <= 0xff,
            slot <= 0xffff,
    ;
    offset_reader.jump(off_size as usize * slot as usize)?;
    let offset = read_offset(&mut offset_reader, off_size)?;

    let length = if index < count {
        let next_offset = read_offset(&mut offset_reader, off_size)?;
        if next_offset < offset {
            return Err(FontError::UnexpectedEof);
        }
        Some(next_offset - offset)
    } else {
        None
    };

    let width = off_size as u64;
    let slots = count as u64 + 1;
    assert(1 <= width * slots <= 4 * 0x1_0000) by (nonlinear_arith)
        requires
            1 <= width <= 4,
            1 <= slots <= 0x1_0000,
    ;
    let skip = width * slots + offset as u64 - 1;
    if skip > probe.remaining() as u64 {
        return Err(FontError::UnexpectedEof);
    }
    let _ = probe.jump(skip as usize);
    *reader = probe;
    Ok(length)
}

/// Skips over the INDEX that the reader is at. After an error the reader
/// is where it was.
pub fn skip_index(reader: &mut Cursor) -> (r: Result<(), FontError>)
    ensures
        final(reader).data() == old(reader).data(),
        match index_lookup(old(reader).data(), old(reader).offset(), u16::MAX) {
            Ok(found) => {
                &&& r == Ok::<(), FontError>(())
                &&& final(reader).offset() == found.at
            },
            Err(e) => {
                &&& r == Err::<(), FontError>(e)
                &&& final(reader).offset() == old(reader).offset()
            },
        },
{
    match find_in_index(reader, u16::MAX) {
        Ok(_) => Ok(()),
        Err(e) => Err(e),
    }
}

/// Skips the rest of a real number, its lead having been read.
fn skip_real(reader: &mut Cursor) -> (r: Result<(), FontError>)
    ensures
        final(reader).data() == old(reader).data(),
        match real_end(old(reader).data(), old(reader).offset()) {
            Some(end) => r == Ok::<(), FontError>(()) && final(reader).offset() == end,
            None => r == Err::<(), FontError>(FontError::UnexpectedEof),
        },
{
    let ghost data = reader.data();
    let ghost start = reader.offset();
    loop
        invariant
            data == old(reader).data(),
            start == old(reader).offset(),
            reader.data() == data,
            real_end(data, start) == real_end(data, reader.offset()),
        decreases data.len() - reader.offset(),
    {
        proof {
            use_type_invariant(&*reader);
        }
        let nibbles = reader.read_u8()?;
        assert(nibbles & 0xf == nibbles % 16) by (bit_vector);
        if nibbles & 0xf == 0xf {
            return Ok(());
        }
    }
}

/// Returns the integer operand of the operator `operator` in the DICT
/// that the reader is at, and leaves the reader after that operator.
/// After an error the reader is where it was.
pub fn get_integer_in_dict(reader: &mut Cursor, operator: u16) -> (r: Result<i32, FontError>)
    ensures
        final(reader).data() == old(reader).data(),
        match dict_integer(old(reader).data(), old(reader).offset(), operator) {
            Ok(entry) => {
                &&& r == Ok::<i32, FontError>(entry.value)
                &&& final(reader).offset() == entry.at
            },
            Err(e) => {
                &&& r == Err::<i32, FontError>(e)
                &&& final(reader).offset() == old(reader).offset()
            },
        },
{
    let ghost data = reader.data();
    let ghost start = reader.offset();
    let mut probe = *reader;
    let mut last_integer_operand: Option<i32> = None;
    loop
        invariant
            data == old(reader).data(),
            start == old(reader).offset(),
            reader.data() == data,
            reader.offset() == start,
            probe.data() == data,
            dict_integer(data, start, operator) == scan(
                data,
                probe.offset(),
                operator,
                last_integer_operand,
            ),
        decreases data.len() - probe.offset(),
    {
        proof {
            use_type_invariant(&probe);
        }
        let ghost at = probe.offset();
        let b0 = probe.read_u8()?;
        let short = read_short_integer(&mut probe, b0)?;
        if short.is_some() {
            last_integer_operand = short;
        } else if b0 == 29 {
            last_integer_operand = Some(probe.read_i32()?);
        } else if b0 == 30 {
            proof {
                lemma_real_end_bounds(data, at + 1);
            }
            skip_real(&mut probe)?;
            last_integer_operand = None;
        } else {
            let id = if b0 == 12 {
                let b1 = probe.read_u8()?;
                assert(((b1 as u16) << 8) | 12u16 == b1 * 256 + 12) by (bit_vector);
                ((b1 as u16) << 8) | 12u16
            } else {
                b0 as u16
            };
            if operator == id {
                return match last_integer_operand {
                    Some(value) => {
                        *reader = probe;
                        Ok(value)
                    },
                    None => Err(FontError::CffIntegerNotFound),
                };
            }
            last_integer_operand = None;
        }
    }
}

} // verus!
