use font_tables::font::{Point, PointKind, PointSink, Position};
use font_tables::outline::{BoundsSink, GlyphBounds};

fn at(x: i16, y: i16) -> Point {
    Point { position: Position { x, y }, index_in_contour: 0, kind: PointKind::OnCurve }
}

#[test]
fn default_bounds_are_the_empty_box() {
    assert_eq!(
        GlyphBounds::default(),
        GlyphBounds { left: i32::MAX, bottom: i32::MAX, right: i32::MIN, top: i32::MIN }
    );
}

#[test]
fn first_point_replaces_all_four_sides() {
    let mut bounds = GlyphBounds::default();
    bounds.widen(Position { x: -3, y: 8 });
    assert_eq!(bounds, GlyphBounds { left: -3, bottom: 8, right: -3, top: 8 });
}

#[test]
fn widen_grows_only_where_needed() {
    let mut bounds = GlyphBounds { left: 0, bottom: 0, right: 10, top: 10 };
    bounds.widen(Position { x: 5, y: 5 });
    assert_eq!(bounds, GlyphBounds { left: 0, bottom: 0, right: 10, top: 10 });
    bounds.widen(Position { x: -1, y: 11 });
    assert_eq!(bounds, GlyphBounds { left: -1, bottom: 0, right: 10, top: 11 });
    bounds.widen(Position { x: 12, y: -4 });
    assert_eq!(bounds, GlyphBounds { left: -1, bottom: -4, right: 12, top: 11 });
}

#[test]
fn widen_takes_the_extremes_of_the_range() {
    let mut bounds = GlyphBounds::default();
    bounds.widen(Position { x: i16::MIN, y: i16::MAX });
    bounds.widen(Position { x: i16::MAX, y: i16::MIN });
    assert_eq!(bounds, GlyphBounds { left: -32768, bottom: -32768, right: 32767, top: 32767 });
}

#[test]
fn bounds_sink_folds_points() {
    let mut sink = BoundsSink::new();
    assert_eq!(sink.bounds(), GlyphBounds::default());
    sink.point(&at(3, 4));
    sink.point(&at(-1, 9));
    sink.point(&at(2, 2));
    assert_eq!(sink.bounds(), GlyphBounds { left: -1, bottom: 2, right: 3, top: 9 });
}

#[test]
fn vector_sink_keeps_points_in_order() {
    let mut points = Vec::new();
    points.point(&at(1, 2));
    points.point(&at(3, 4));
    assert_eq!(points, [at(1, 2), at(3, 4)]);
}
