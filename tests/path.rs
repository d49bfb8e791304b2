use trikz::path::{PathBuilder, Segment};
use trikz::scalar::{Scalar, Vector2, UNIT};

fn s(v: f64) -> Scalar {
    (v * UNIT as f64).round() as Scalar
}

fn v(x: f64, y: f64) -> Vector2 {
    Vector2::new(s(x), s(y))
}

#[test]
fn segment_cursor() {
    assert_eq!(Segment::MoveTo(v(10.0, 20.0)).cursor(v(1.0, 1.0)), Some(v(10.0, 20.0)));
    assert_eq!(Segment::Move(v(10.0, 20.0)).cursor(v(1.0, 1.0)), Some(v(11.0, 21.0)));
    assert_eq!(Segment::LineTo(v(10.0, 20.0)).cursor(v(1.0, 1.0)), Some(v(10.0, 20.0)));
    assert_eq!(Segment::Line(v(10.0, 20.0)).cursor(v(1.0, 1.0)), Some(v(11.0, 21.0)));
    assert_eq!(
        Segment::CurveTo(Vector2::zeros(), Vector2::zeros(), v(10.0, 20.0)).cursor(v(1.0, 1.0)),
        Some(v(10.0, 20.0))
    );
    assert_eq!(
        Segment::Curve(Vector2::zeros(), Vector2::zeros(), v(10.0, 20.0)).cursor(v(1.0, 1.0)),
        Some(v(11.0, 21.0))
    );
    assert_eq!(Segment::VerticalLineTo(s(20.0)).cursor(v(1.0, 1.0)), Some(v(1.0, 20.0)));
    assert_eq!(Segment::VerticalLine(s(20.0)).cursor(v(1.0, 1.0)), Some(v(1.0, 21.0)));
    assert_eq!(Segment::HorizontalLineTo(s(20.0)).cursor(v(1.0, 1.0)), Some(v(20.0, 1.0)));
    assert_eq!(Segment::HorizontalLine(s(20.0)).cursor(v(1.0, 1.0)), Some(v(21.0, 1.0)));
    assert!(Segment::Close.cursor(Vector2::zeros()).is_none());
}

#[test]
fn section_cursor() {
    let previous = v(1.0, 1.0);
    assert_eq!(Segment::MoveTo(v(10.0, 20.0)).cursor(previous), Some(v(10.0, 20.0)));
    assert_eq!(Segment::Move(v(10.0, 20.0)).cursor(previous), Some(v(11.0, 21.0)));
    assert_eq!(Segment::LineTo(v(10.0, 20.0)).cursor(previous), Some(v(10.0, 20.0)));
    assert_eq!(Segment::Line(v(10.0, 20.0)).cursor(previous), Some(v(11.0, 21.0)));
    assert_eq!(
        Segment::CurveTo(Vector2::zeros(), Vector2::zeros(), v(10.0, 20.0)).cursor(previous),
        Some(v(10.0, 20.0))
    );
    assert_eq!(
        Segment::Curve(Vector2::zeros(), Vector2::zeros(), v(10.0, 20.0)).cursor(previous),
        Some(v(11.0, 21.0))
    );
    assert_eq!(Segment::VerticalLineTo(s(20.0)).cursor(previous), Some(v(1.0, 20.0)));
    assert_eq!(Segment::VerticalLine(s(20.0)).cursor(previous), Some(v(1.0, 21.0)));
    assert_eq!(Segment::HorizontalLineTo(s(20.0)).cursor(previous), Some(v(20.0, 1.0)));
    assert_eq!(Segment::HorizontalLine(s(20.0)).cursor(previous), Some(v(21.0, 1.0)));
    assert!(Segment::Close.cursor(Vector2::zeros()).is_none());
}

fn every_segment_path() -> trikz::path::Path {
    PathBuilder::start(v(1.0, 2.0))
        .mv_to(Vector2::zeros())
        .mv(Vector2::zeros())
        .line_to(Vector2::zeros())
        .line(Vector2::zeros())
        .hline_to(0)
        .hline(0)
        .vline_to(0)
        .vline(0)
        .curve_to(Vector2::zeros(), Vector2::zeros(), Vector2::zeros())
        .curve(Vector2::zeros(), Vector2::zeros(), Vector2::zeros())
        .close()
}

fn every_segment() -> Vec<Segment> {
    vec![
        Segment::MoveTo(v(1.0, 2.0)),
        Segment::MoveTo(Vector2::zeros()),
        Segment::Move(Vector2::zeros()),
        Segment::LineTo(Vector2::zeros()),
        Segment::Line(Vector2::zeros()),
        Segment::HorizontalLineTo(0),
        Segment::HorizontalLine(0),
        Segment::VerticalLineTo(0),
        Segment::VerticalLine(0),
        Segment::CurveTo(Vector2::zeros(), Vector2::zeros(), Vector2::zeros()),
        Segment::Curve(Vector2::zeros(), Vector2::zeros(), Vector2::zeros()),
        Segment::Close,
    ]
}

#[test]
fn path_build() {
    let path = every_segment_path();
    assert_eq!(path.segments(), &every_segment()[..]);
}

#[test]
fn mod_build() {
    let path = every_segment_path();
    assert_eq!(path.len(), 12);
    assert_eq!(path.into_segments(), every_segment());
}

#[test]
fn path_cursor() {
    let origin = v(1.0, -2.0);
    let path = PathBuilder::start(origin).end();
    assert_eq!(path.cursor(0), origin);
    assert_eq!(path.cursor(1), origin);
    assert_eq!(path.cursor(4), origin);

    let delta = v(2.0, 5.0);
    let end = Vector2::new(origin.x + delta.x, origin.y + delta.y);
    let path = PathBuilder::start(origin).line(delta).end();
    assert_eq!(path.cursor(0), origin);
    assert_eq!(path.cursor(1), end);
    assert_eq!(path.cursor(4), end);

    let x = s(30.0);
    let y = s(10.0);
    let path = PathBuilder::start(origin).vline(y).hline(x).end();
    assert_eq!(path.cursor(0), origin);
    assert_eq!(path.cursor(1), Vector2::new(origin.x, origin.y + y));
    assert_eq!(path.cursor(2), Vector2::new(origin.x + x, origin.y + y));
    assert_eq!(path.cursor(3), Vector2::new(origin.x + x, origin.y + y));
    assert_eq!(path.cursor(4), Vector2::new(origin.x + x, origin.y + y));
}

#[test]
fn mod_cursor() {
    let origin = v(1.0, -2.0);
    let path = PathBuilder::start(origin).end();
    assert_eq!(path.len(), 1);
    assert_eq!(path.cursor(0), origin);
    assert_eq!(path.cursor(1), origin);
    assert_eq!(path.cursor(4), origin);

    let delta = v(2.0, 5.0);
    let end = Vector2::new(origin.x + delta.x, origin.y + delta.y);
    let path = PathBuilder::start(origin).line(delta).end();
    assert_eq!(path.cursor(0), origin);
    assert_eq!(path.cursor(1), end);
    assert_eq!(path.cursor(4), end);

    let x = s(30.0);
    let y = s(10.0);
    let path = PathBuilder::start(origin).vline(y).hline(x).end();
    assert_eq!(path.cursor(0), origin);
    assert_eq!(path.cursor(1), Vector2::new(origin.x, origin.y + y));
    assert_eq!(path.cursor(2), Vector2::new(origin.x + x, origin.y + y));
    assert_eq!(path.cursor(3), Vector2::new(origin.x + x, origin.y + y));
    assert_eq!(path.cursor(4), Vector2::new(origin.x + x, origin.y + y));

    let path = PathBuilder::start(origin)
        .vline(y)
        .hline(x)
        .line_to(v(100.0, 200.0))
        .close();
    assert_eq!(path.cursor(path.len() - 1), origin);
}

#[test]
fn segment_display() {
    let abs = v(1.0, 2.0);
    let rel = v(1.5, -2.5);
    let c1 = v(-10.0, 20.0);
    let c2 = v(1.0, 0.0);
    assert_eq!(Segment::MoveTo(abs).text(), "M 1 2");
    assert_eq!(Segment::Move(rel).text(), "m 1.5 -2.5");
    assert_eq!(Segment::LineTo(abs).text(), "L 1 2");
    assert_eq!(Segment::Line(rel).text(), "l 1.5 -2.5");
    assert_eq!(Segment::VerticalLineTo(abs.y).text(), "V 2");
    assert_eq!(Segment::VerticalLine(rel.y).text(), "v -2.5");
    assert_eq!(Segment::HorizontalLineTo(abs.x).text(), "H 1");
    assert_eq!(Segment::HorizontalLine(rel.x).text(), "h 1.5");
    assert_eq!(Segment::CurveTo(c1, c2, abs).text(), "C -10 20, 1 0, 1 2");
    assert_eq!(Segment::Curve(c1, c2, rel).text(), "c -10 20, 1 0, 1.5 -2.5");
    assert_eq!(Segment::Close.text(), "Z");
}

#[test]
fn path_text_joins_segments() {
    let path = PathBuilder::start(v(-1.75, -2.5))
        .vline(s(4.0))
        .hline(s(-12.34))
        .mv(v(1.0, -1.0))
        .curve_to(v(100.0, 0.0), v(0.0, -200.0), Vector2::zeros())
        .close();
    assert_eq!(path.text(), "M -1.75 -2.5 v 4 h -12.34 m 1 -1 C 100 0, 0 -200, 0 0 Z");
}

#[test]
fn closed_start_keeps_cursor() {
    let p = v(3.0, -7.0);
    let path = PathBuilder::start(p).close();
    for n in 0..6 {
        assert_eq!(path.cursor(n), p);
    }
}

#[test]
fn single_line_cursor() {
    let p = v(-4.0, 9.5);
    let delta = v(0.25, -3.0);
    let path = PathBuilder::start(p).line(delta).end();
    assert_eq!(path.cursor(0), p);
    for k in 1..6 {
        assert_eq!(path.cursor(k), v(-3.75, 6.5));
    }
}

#[test]
fn vline_hline_cursor() {
    let path = PathBuilder::start(v(1.0, -2.0)).vline(s(10.0)).hline(s(30.0)).end();
    assert_eq!(path.cursor(0), v(1.0, -2.0));
    assert_eq!(path.cursor(1), v(1.0, 8.0));
    assert_eq!(path.cursor(2), v(31.0, 8.0));
}

#[test]
fn close_returns_to_start_not_previous() {
    let path = PathBuilder::start(v(0.0, 0.0)).line_to(v(5.0, 5.0)).close();
    // the previous position would be (5, 5); closing returns to the start
    assert_eq!(path.cursor(1), v(5.0, 5.0));
    assert_eq!(path.cursor(2), v(0.0, 0.0));
}

#[test]
fn absolute_segments_after_moves() {
    let path = PathBuilder::start(v(1.0, 1.0))
        .mv(v(2.0, 3.0))
        .vline_to(s(-1.0))
        .hline_to(s(7.0))
        .curve(v(1.0, 1.0), v(2.0, 2.0), v(-1.0, 4.0))
        .end();
    assert_eq!(path.cursor(1), v(3.0, 4.0));
    assert_eq!(path.cursor(2), v(3.0, -1.0));
    assert_eq!(path.cursor(3), v(7.0, -1.0));
    assert_eq!(path.cursor(4), v(6.0, 3.0));
}
