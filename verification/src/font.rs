//! What a font hands out: the bytes of one table, and the points of a
//! glyph's outline.

use vstd::prelude::*;

verus! {

/// The bytes of one table of a font file. Offset 0 is the start of the
/// table.
#[derive(Clone, Copy, Debug)]
pub struct FontTable<'a> {
    pub bytes: &'a [u8],
}

/// A place in the glyph's coordinate space.
#[derive(Clone, Copy, Debug, PartialEq, Eq, Structural)]
pub struct Position {
    pub x: i16,
    pub y: i16,
}

/// The part a point plays in its contour.
#[derive(Clone, Copy, Debug, PartialEq, Eq, Structural)]
pub enum PointKind {
    /// The contour passes through the point.
    OnCurve,
    /// The first control point of a cubic Bézier segment.
    FirstCubicControl,
    /// The second control point of a cubic Bézier segment.
    SecondCubicControl,
}

/// One point of a glyph's outline.
#[derive(Clone, Copy, Debug, PartialEq, Eq, Structural)]
pub struct Point {
    pub position: Position,
    /// The point's number within its contour, counted from 0.
    pub index_in_contour: u16,
    pub kind: PointKind,
}

/// Where the points of an outline go, one at a time and in order. A sink
/// cannot refuse a point or stop the walk.
///
/// A sink answers for what it has been handed: `received` is the record
/// that the contracts of the walks are stated over. What a sink does with
/// a point besides is its own affair.
pub trait PointSink {
    /// Every point the sink has been handed, oldest first. A verified
    /// sink says what this is; left as it stands here it is some fixed
    /// sequence, of which `point` can prove nothing.
    open spec fn received(&self) -> Seq<Point> {
        arbitrary()
    }

    /// Hands the sink the next point.
    fn point(&mut self, point: &Point)
        ensures
            final(self).received() == old(self).received().push(*point),
    ;
}

/// A vector collects the points it is handed.
impl PointSink for Vec<Point> {
    open spec fn received(&self) -> Seq<Point> {
        self@
    }

    fn point(&mut self, point: &Point) {
        self.push(*point);
    }
}

} // verus!
