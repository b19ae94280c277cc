//! The box that a glyph's outline fits in.

use vstd::prelude::*;

use crate::font::{Point, PointSink, Position};

verus! {

/// The smallest upright box that holds a set of points. Of no points it
/// is the empty box, with each side at the far end of its range, so that
/// the first point replaces all four.
#[derive(Clone, Copy, Debug, PartialEq, Eq, Structural)]
pub struct GlyphBounds {
    pub left: i32,
    pub bottom: i32,
    pub right: i32,
    pub top: i32,
}

impl GlyphBounds {
    /// The box of no points.
    pub open spec fn empty() -> GlyphBounds {
        GlyphBounds { left: i32::MAX, bottom: i32::MAX, right: i32::MIN, top: i32::MIN }
    }

    /// The box grown just enough to hold `p` as well.
    pub open spec fn widened(self, p: Position) -> GlyphBounds {
        GlyphBounds {
            left: if (p.x as int) < self.left { p.x as i32 } else { self.left },
            bottom: if (p.y as int) < self.bottom { p.y as i32 } else { self.bottom },
            right: if (p.x as int) > self.right { p.x as i32 } else { self.right },
            top: if (p.y as int) > self.top { p.y as i32 } else { self.top },
        }
    }

    /// The box of `points`.
    pub open spec fn of(points: Seq<Point>) -> GlyphBounds
        decreases points.len(),
    {
        if points.len() == 0 {
            GlyphBounds::empty()
        } else {
            GlyphBounds::of(points.drop_last()).widened(points.last().position)
        }
    }

    /// Grows the box just enough to hold `p` as well.
    pub fn widen(&mut self, p: Position)
        ensures
            *final(self) == old(self).widened(p),
    {
        let x = p.x as i32;
        let y = p.y as i32;
        if x < self.left {
            self.left = x;
        }
        if y < self.bottom {
            self.bottom = y;
        }
        if x > self.right {
            self.right = x;
        }
        if y > self.top {
            self.top = y;
        }
    }

    /// The box of `points` holds each of them, and each of its sides lies
    /// on one of them.
    pub proof fn lemma_encloses(points: Seq<Point>)
        ensures
            forall|i: int|
                0 <= i < points.len() ==> {
                    let p = #[trigger] points[i].position;
                    let b = GlyphBounds::of(points);
                    b.left <= p.x <= b.right && b.bottom <= p.y <= b.top
                },
            points.len() > 0 ==> {
                let b = GlyphBounds::of(points);
                &&& exists|i: int|
                    0 <= i < points.len() && #[trigger] points[i].position.x == b.left
                &&& exists|i: int|
                    0 <= i < points.len() && #[trigger] points[i].position.x == b.right
                &&& exists|i: int|
                    0 <= i < points.len() && #[trigger] points[i].position.y == b.bottom
                &&& exists|i: int| 0 <= i < points.len() && #[trigger] points[i].position.y == b.top
            },
        decreases points.len(),
    {
        if points.len() > 0 {
            let front = points.drop_last();
            let last = points.len() - 1;
            let b = GlyphBounds::of(points);
            let fb = GlyphBounds::of(front);
            GlyphBounds::lemma_encloses(front);
            assert forall|i: int| 0 <= i < points.len() implies {
                let p = #[trigger] points[i].position;
                b.left <= p.x <= b.right && b.bottom <= p.y <= b.top
            } by {
                if i < last {
                    assert(front[i] == points[i]);
                }
            }
            if front.len() == 0 {
                assert(points[last].position.x == b.left);
                assert(points[last].position.x == b.right);
                assert(points[last].position.y == b.bottom);
                assert(points[last].position.y == b.top);
            } else {
                let il = choose|i: int|
                    0 <= i < front.len() && #[trigger] front[i].position.x == fb.left;
                let ir = choose|i: int|
                    0 <= i < front.len() && #[trigger] front[i].position.x == fb.right;
                let ib = choose|i: int|
                    0 <= i < front.len() && #[trigger] front[i].position.y == fb.bottom;
                let it = choose|i: int|
                    0 <= i < front.len() && #[trigger] front[i].position.y == fb.top;
                assert(front[il] == points[il]);
                assert(front[ir] == points[ir]);
                assert(front[ib] == points[ib]);
                assert(front[it] == points[it]);
                assert(points[if b.left == fb.left { il } else { last }].position.x == b.left);
                assert(points[if b.right == fb.right { ir } else { last }].position.x == b.right);
                assert(points[if b.bottom == fb.bottom { ib } else { last }].position.y
                    == b.bottom);
                assert(points[if b.top == fb.top { it } else { last }].position.y == b.top);
            }
        }
    }
}

impl Default for GlyphBounds {
    /// The box of no points.
    fn default() -> (bounds: GlyphBounds)
        ensures
            bounds == GlyphBounds::empty(),
    {
        GlyphBounds { left: i32::MAX, bottom: i32::MAX, right: i32::MIN, top: i32::MIN }
    }
}

/// A sink that keeps nothing of the points it is handed but their box.
pub struct BoundsSink {
    bounds: GlyphBounds,
    seen: Ghost<Seq<Point>>,
}

impl BoundsSink {
    /// The box kept is that of the points handed in.
    #[verifier::type_invariant]
    spec fn consistent(self) -> bool {
        self.bounds == GlyphBounds::of(self.seen@)
    }

    /// A sink that has been handed no point.
    pub fn new() -> (sink: BoundsSink)
        ensures
            sink.received() == Seq::<Point>::empty(),
    {
        BoundsSink { bounds: GlyphBounds::default(), seen: Ghost(Seq::empty()) }
    }

    /// The box of the points handed in so far.
    pub fn bounds(&self) -> (bounds: GlyphBounds)
        ensures
            bounds == GlyphBounds::of(self.received()),
    {
        proof {
            use_type_invariant(self);
        }
        self.bounds
    }
}

impl PointSink for BoundsSink {
    closed spec fn received(&self) -> Seq<Point> {
        self.seen@
    }

    fn point(&mut self, point: &Point) {
        proof {
            use_type_invariant(&*self);
        }
        let ghost before = self.seen@;
        let mut bounds = self.bounds;
        bounds.widen(point.position);
        proof {
            assert(before.push(*point).drop_last() =~= before);
        }
        *self = BoundsSink { bounds, seen: Ghost(before.push(*point)) };
    }
}

} // verus!
