//! Paths: ordered drawing instructions, built from a starting point, with
//! cursor tracking.

use vstd::prelude::*;
use vstd::string::StringExecFns;
use crate::scalar::{in_range, Scalar, Vector2};
use crate::text::{scalar_text, scalar_to_text};

verus! {

/// A point of the model: a pair of mathematical integers (millionths of a
/// pixel), so that sums never wrap.
pub type Point = (int, int);

pub open spec fn point_of(v: Vector2) -> Point {
    (v.x as int, v.y as int)
}

pub open spec fn point_in_range(p: Point) -> bool {
    in_range(p.0) && in_range(p.1)
}

/// One path instruction. Absolute variants carry final coordinates; relative
/// variants carry displacements from the current cursor.
#[derive(Clone, Copy, Debug, PartialEq, Eq, Structural)]
pub enum Segment {
    MoveTo(Vector2),
    Move(Vector2),
    LineTo(Vector2),
    Line(Vector2),
    VerticalLineTo(Scalar),
    VerticalLine(Scalar),
    HorizontalLineTo(Scalar),
    HorizontalLine(Scalar),
    /// A cubic Bézier curve: two control points and the end point.
    CurveTo(Vector2, Vector2, Vector2),
    Curve(Vector2, Vector2, Vector2),
    Close,
}

/// Where the pen stands after `seg`, coming from `prev`; `None` for `Close`,
/// which names no position of its own.
pub open spec fn segment_target(seg: Segment, prev: Point) -> Option<Point> {
    match seg {
        Segment::MoveTo(p) => Some(point_of(p)),
        Segment::LineTo(p) => Some(point_of(p)),
        Segment::CurveTo(_, _, p) => Some(point_of(p)),
        Segment::Move(d) => Some((prev.0 + d.x, prev.1 + d.y)),
        Segment::Line(d) => Some((prev.0 + d.x, prev.1 + d.y)),
        Segment::Curve(_, _, d) => Some((prev.0 + d.x, prev.1 + d.y)),
        Segment::VerticalLineTo(y) => Some((prev.0, y as int)),
        Segment::VerticalLine(dy) => Some((prev.0, prev.1 + dy)),
        Segment::HorizontalLineTo(x) => Some((x as int, prev.1)),
        Segment::HorizontalLine(dx) => Some((prev.0 + dx, prev.1)),
        Segment::Close => None,
    }
}

impl Segment {
    /// Every coordinate the segment carries lies within the accepted range.
    pub open spec fn in_range(&self) -> bool {
        match *self {
            Segment::MoveTo(p) => p.in_range(),
            Segment::Move(p) => p.in_range(),
            Segment::LineTo(p) => p.in_range(),
            Segment::Line(p) => p.in_range(),
            Segment::VerticalLineTo(v) => in_range(v as int),
            Segment::VerticalLine(v) => in_range(v as int),
            Segment::HorizontalLineTo(v) => in_range(v as int),
            Segment::HorizontalLine(v) => in_range(v as int),
            Segment::CurveTo(a, b, p) => a.in_range() && b.in_range() && p.in_range(),
            Segment::Curve(a, b, p) => a.in_range() && b.in_range() && p.in_range(),
            Segment::Close => true,
        }
    }

    /// The pen position after this segment when it starts at `previous`;
    /// `None` for [`Segment::Close`].
    pub fn cursor(&self, previous: Vector2) -> (r: Option<Vector2>)
        requires
            self.in_range(),
            previous.in_range(),
        ensures
            r matches Some(v) ==> segment_target(*self, point_of(previous)) == Some(point_of(v)),
            r is None <==> segment_target(*self, point_of(previous)) is None,
    {
        match *self {
            Segment::MoveTo(p) => Some(p),
            Segment::LineTo(p) => Some(p),
            Segment::CurveTo(_, _, p) => Some(p),
            Segment::Move(d) => Some(previous.plus(&d)),
            Segment::Line(d) => Some(previous.plus(&d)),
            Segment::Curve(_, _, d) => Some(previous.plus(&d)),
            Segment::VerticalLineTo(y) => Some(Vector2::new(previous.x, y)),
            Segment::VerticalLine(dy) => Some(Vector2::new(previous.x, previous.y + dy)),
            Segment::HorizontalLineTo(x) => Some(Vector2::new(x, previous.y)),
            Segment::HorizontalLine(dx) => Some(Vector2::new(previous.x + dx, previous.y)),
            Segment::Close => None,
        }
    }
}

/// The text of a coordinate pair: `x y`.
pub open spec fn pair_text(v: Vector2) -> Seq<char> {
    scalar_text(v.x as int) + " "@ + scalar_text(v.y as int)
}

/// The drawing instruction of a segment: its letter (upper case when
/// absolute), then its coordinates.
pub open spec fn segment_text(seg: Segment) -> Seq<char> {
    match seg {
        Segment::MoveTo(p) => "M "@ + pair_text(p),
        Segment::Move(p) => "m "@ + pair_text(p),
        Segment::LineTo(p) => "L "@ + pair_text(p),
        Segment::Line(p) => "l "@ + pair_text(p),
        Segment::VerticalLineTo(v) => "V "@ + scalar_text(v as int),
        Segment::VerticalLine(v) => "v "@ + scalar_text(v as int),
        Segment::HorizontalLineTo(v) => "H "@ + scalar_text(v as int),
        Segment::HorizontalLine(v) => "h "@ + scalar_text(v as int),
        Segment::CurveTo(a, b, p) => "C "@ + pair_text(a) + ", "@ + pair_text(b) + ", "@ + pair_text(p),
        Segment::Curve(a, b, p) => "c "@ + pair_text(a) + ", "@ + pair_text(b) + ", "@ + pair_text(p),
        Segment::Close => "Z"@,
    }
}

/// The instructions of the segments, separated by single spaces.
pub open spec fn segments_text(segs: Seq<Segment>) -> Seq<char>
    decreases segs.len(),
{
    if segs.len() == 0 {
        Seq::empty()
    } else if segs.len() == 1 {
        segment_text(segs[0])
    } else {
        segments_text(segs.drop_last()) + " "@ + segment_text(segs.last())
    }
}

fn push_pair(s: &mut String, v: Vector2)
    ensures
        final(s)@ == old(s)@ + pair_text(v),
{
    s.append(scalar_to_text(v.x).as_str());
    s.append(" ");
    s.append(scalar_to_text(v.y).as_str());
    assert(final(s)@ =~= old(s)@ + pair_text(v));
}

impl Segment {
    /// The drawing instruction of the segment (see [`segment_text`]).
    pub fn text(&self) -> (r: String)
        ensures
            r@ == segment_text(*self),
    {
        let mut s = String::new();
        match *self {
            Segment::MoveTo(p) => {
                s.append("M ");
                push_pair(&mut s, p);
            },
            Segment::Move(p) => {
                s.append("m ");
                push_pair(&mut s, p);
            },
            Segment::LineTo(p) => {
                s.append("L ");
                push_pair(&mut s, p);
            },
            Segment::Line(p) => {
                s.append("l ");
                push_pair(&mut s, p);
            },
            Segment::VerticalLineTo(v) => {
                s.append("V ");
                s.append(scalar_to_text(v).as_str());
            },
            Segment::VerticalLine(v) => {
                s.append("v ");
                s.append(scalar_to_text(v).as_str());
            },
            Segment::HorizontalLineTo(v) => {
                s.append("H ");
                s.append(scalar_to_text(v).as_str());
            },
            Segment::HorizontalLine(v) => {
                s.append("h ");
                s.append(scalar_to_text(v).as_str());
            },
            Segment::CurveTo(a, b, p) => {
                s.append("C ");
                push_pair(&mut s, a);
                s.append(", ");
                push_pair(&mut s, b);
                s.append(", ");
                push_pair(&mut s, p);
            },
            Segment::Curve(a, b, p) => {
                s.append("c ");
                push_pair(&mut s, a);
                s.append(", ");
                push_pair(&mut s, b);
                s.append(", ");
                push_pair(&mut s, p);
            },
            Segment::Close => {
                s.append("Z");
            },
        }
        assert(s@ =~= segment_text(*self));
        s
    }
}

/// The point a path starts from: the coordinate of its leading `MoveTo`.
pub open spec fn start_point(segs: Seq<Segment>) -> Point {
    match segs[0] {
        Segment::MoveTo(p) => point_of(p),
        _ => (0, 0),
    }
}

/// The pen position after the segment at index `n`, given the position
/// `prev` before it. `Close` returns the pen to the path's starting point.
pub open spec fn advance(segs: Seq<Segment>, n: int, prev: Point) -> Point {
    match segment_target(segs[n], prev) {
        Some(p) => p,
        None => start_point(segs),
    }
}

/// The pen position after the leading `MoveTo` and the `n` segments that
/// follow it.
pub open spec fn cursor_after(segs: Seq<Segment>, n: nat) -> Point
    decreases n,
{
    if n == 0 {
        start_point(segs)
    } else {
        advance(segs, n as int, cursor_after(segs, (n - 1) as nat))
    }
}

/// The cursor that `Path::cursor(index)` reports: past the end of the path
/// the last position stays.
pub open spec fn path_cursor(segs: Seq<Segment>, index: nat) -> Point {
    if index < segs.len() {
        cursor_after(segs, index)
    } else {
        cursor_after(segs, (segs.len() - 1) as nat)
    }
}

/// The shape every path and builder keeps: a leading `MoveTo`, and only
/// coordinates within the accepted range.
pub open spec fn well_formed(segs: Seq<Segment>) -> bool {
    &&& segs.len() >= 1
    &&& segs[0] is MoveTo
    &&& forall|i: int| 0 <= i < segs.len() ==> (#[trigger] segs[i]).in_range()
}

/// Every position the pen takes up to the `n`-th segment lies in range.
pub open spec fn cursors_in_range(segs: Seq<Segment>, n: nat) -> bool {
    forall|k: nat| k <= n ==> point_in_range(#[trigger] cursor_after(segs, k))
}

/// A finished path: immutable, and never without its leading `MoveTo`.
#[derive(Clone, Debug)]
pub struct Path {
    segments: Vec<Segment>,
}

/// Accumulates the segments of a path. Each step consumes the builder and
/// returns the extended one.
pub struct PathBuilder {
    segments: Vec<Segment>,
}

impl View for Path {
    type V = Seq<Segment>;

    closed spec fn view(&self) -> Seq<Segment> {
        self.segments@
    }
}

impl View for PathBuilder {
    type V = Seq<Segment>;

    closed spec fn view(&self) -> Seq<Segment> {
        self.segments@
    }
}

impl PathBuilder {
    pub open spec fn wf(&self) -> bool {
        well_formed(self@)
    }

    /// Starts a path at `start`.
    pub fn start(start: Vector2) -> (r: PathBuilder)
        requires
            start.in_range(),
        ensures
            r@ == seq![Segment::MoveTo(start)],
            r.wf(),
    {
        let mut segments: Vec<Segment> = Vec::new();
        segments.push(Segment::MoveTo(start));
        PathBuilder { segments }
    }

    /// Appends `seg`.
    fn push(self, seg: Segment) -> (r: PathBuilder)
        requires
            self.wf(),
            seg.in_range(),
        ensures
            r@ == self@.push(seg),
            r.wf(),
    {
        let mut segments = self.segments;
        segments.push(seg);
        let r = PathBuilder { segments };
        assert(forall|i: int| 0 <= i < r@.len() ==> (#[trigger] r@[i]).in_range()) by {
            assert forall|i: int| 0 <= i < r@.len() implies (#[trigger] r@[i]).in_range() by {
                if i < self@.len() {
                    assert(r@[i] == self@[i]);
                }
            }
        }
        r
    }

    /// Moves the pen to `xy` without drawing.
    pub fn mv_to(self, xy: Vector2) -> (r: PathBuilder)
        requires
            self.wf(),
            xy.in_range(),
        ensures
            r@ == self@.push(Segment::MoveTo(xy)),
            r.wf(),
    {
        self.push(Segment::MoveTo(xy))
    }

    /// Moves the pen by `dxdy` without drawing.
    pub fn mv(self, dxdy: Vector2) -> (r: PathBuilder)
        requires
            self.wf(),
            dxdy.in_range(),
        ensures
            r@ == self@.push(Segment::Move(dxdy)),
            r.wf(),
    {
        self.push(Segment::Move(dxdy))
    }

    /// Draws a straight line to `xy`.
    pub fn line_to(self, xy: Vector2) -> (r: PathBuilder)
        requires
            self.wf(),
            xy.in_range(),
        ensures
            r@ == self@.push(Segment::LineTo(xy)),
            r.wf(),
    {
        self.push(Segment::LineTo(xy))
    }

    /// Draws a straight line by `dxdy`.
    pub fn line(self, dxdy: Vector2) -> (r: PathBuilder)
        requires
            self.wf(),
            dxdy.in_range(),
        ensures
            r@ == self@.push(Segment::Line(dxdy)),
            r.wf(),
    {
        self.push(Segment::Line(dxdy))
    }

    /// Draws a vertical line to height `y`.
    pub fn vline_to(self, y: Scalar) -> (r: PathBuilder)
        requires
            self.wf(),
            in_range(y as int),
        ensures
            r@ == self@.push(Segment::VerticalLineTo(y)),
            r.wf(),
    {
        self.push(Segment::VerticalLineTo(y))
    }

    /// Draws a vertical line by `dy`.
    pub fn vline(self, dy: Scalar) -> (r: PathBuilder)
        requires
            self.wf(),
            in_range(dy as int),
        ensures
            r@ == self@.push(Segment::VerticalLine(dy)),
            r.wf(),
    {
        self.push(Segment::VerticalLine(dy))
    }

    /// Draws a horizontal line to abscissa `x`.
    pub fn hline_to(self, x: Scalar) -> (r: PathBuilder)
        requires
            self.wf(),
            in_range(x as int),
        ensures
            r@ == self@.push(Segment::HorizontalLineTo(x)),
            r.wf(),
    {
        self.push(Segment::HorizontalLineTo(x))
    }

    /// Draws a horizontal line by `dx`.
    pub fn hline(self, dx: Scalar) -> (r: PathBuilder)
        requires
            self.wf(),
            in_range(dx as int),
        ensures
            r@ == self@.push(Segment::HorizontalLine(dx)),
            r.wf(),
    {
        self.push(Segment::HorizontalLine(dx))
    }

    /// Draws a cubic curve to `xy` with control points `x1y1` and `x2y2`.
    pub fn curve_to(self, x1y1: Vector2, x2y2: Vector2, xy: Vector2) -> (r: PathBuilder)
        requires
            self.wf(),
            x1y1.in_range(),
            x2y2.in_range(),
            xy.in_range(),
        ensures
            r@ == self@.push(Segment::CurveTo(x1y1, x2y2, xy)),
            r.wf(),
    {
        self.push(Segment::CurveTo(x1y1, x2y2, xy))
    }

    /// Draws a cubic curve by `dxdy`, control points relative to the pen.
    pub fn curve(self, dx1dy1: Vector2, dx2dy2: Vector2, dxdy: Vector2) -> (r: PathBuilder)
        requires
            self.wf(),
            dx1dy1.in_range(),
            dx2dy2.in_range(),
            dxdy.in_range(),
        ensures
            r@ == self@.push(Segment::Curve(dx1dy1, dx2dy2, dxdy)),
            r.wf(),
    {
        self.push(Segment::Curve(dx1dy1, dx2dy2, dxdy))
    }

    /// Freezes the segments into a path.
    pub fn end(self) -> (r: Path)
        requires
            self.wf(),
        ensures
            r@ == self@,
            r.wf(),
    {
        Path { segments: self.segments }
    }

    /// Appends `Close` and freezes the segments into a path.
    pub fn close(self) -> (r: Path)
        requires
            self.wf(),
        ensures
            r@ == self@.push(Segment::Close),
            r.wf(),
    {
        self.push(Segment::Close).end()
    }
}

impl Path {
    pub open spec fn wf(&self) -> bool {
        well_formed(self@)
    }

    /// The number of segments, the leading `MoveTo` included.
    #[allow(clippy::len_without_is_empty)]
    pub fn len(&self) -> (r: usize)
        ensures
            r == self@.len(),
    {
        self.segments.len()
    }

    pub fn segments(&self) -> (r: &[Segment])
        ensures
            r@ == self@,
    {
        self.segments.as_slice()
    }

    pub fn into_segments(self) -> (r: Vec<Segment>)
        ensures
            r@ == self@,
    {
        self.segments
    }

    /// The drawing instructions of the path, separated by spaces (see
    /// [`segments_text`]).
    pub fn text(&self) -> (r: String)
        ensures
            r@ == segments_text(self@),
    {
        let mut s = String::new();
        let mut i: usize = 0;
        while i < self.segments.len()
            invariant
                i <= self@.len(),
                s@ == segments_text(self@.take(i as int)),
            decreases self@.len() - i,
        {
            assert(self@.take(i + 1).drop_last() =~= self@.take(i as int));
            if i > 0 {
                s.append(" ");
            } else {
                assert(s@ =~= Seq::<char>::empty());
            }
            let t = self.segments[i].text();
            s.append(t.as_str());
            i = i + 1;
            assert(s@ =~= segments_text(self@.take(i as int)));
        }
        assert(self@.take(i as int) =~= self@);
        s
    }

    /// The pen position after the leading `MoveTo` and the `index` segments
    /// that follow it; an index past the end gives the final position. A
    /// `Close` returns the pen to the path's starting point (the coordinate
    /// of the leading `MoveTo`), as a closed outline does, rather than
    /// leaving it where the previous segment ended.
    pub fn cursor(&self, index: usize) -> (r: Vector2)
        requires
            self.wf(),
            cursors_in_range(self@, (if index < self@.len() { index as nat } else { (self@.len() - 1) as nat })),
        ensures
            point_of(r) == path_cursor(self@, index as nat),
    {
        let n: usize = if index < self.segments.len() { index } else { self.segments.len() - 1 };
        let start = match self.segments[0] {
            Segment::MoveTo(p) => p,
            _ => Vector2::zeros(),
        };
        let ghost segs = self@;
        assert(point_in_range(cursor_after(segs, 0)));
        let mut pos = start;
        let mut i: usize = 0;
        while i < n
            invariant
                n < segs.len(),
                segs == self@,
                well_formed(segs),
                i <= n,
                point_of(start) == start_point(segs),
                point_of(pos) == cursor_after(segs, i as nat),
                cursors_in_range(segs, n as nat),
            decreases n - i,
        {
            assert(point_in_range(cursor_after(segs, i as nat)));
            assert(segs[i + 1].in_range());
            pos = match self.segments[i + 1].cursor(pos) {
                Some(p) => p,
                None => start,
            };
            i = i + 1;
        }
        pos
    }
}

/// A path closed right after its start keeps the cursor on the start point,
/// at every index.
pub proof fn lemma_closed_start_cursor(p: Vector2, index: nat)
    ensures
        path_cursor(seq![Segment::MoveTo(p)].push(Segment::Close), index) == point_of(p),
{
    let segs = seq![Segment::MoveTo(p)].push(Segment::Close);
    assert(segs[0] == Segment::MoveTo(p));
    assert(segs[1] == Segment::Close);
    assert(cursor_after(segs, 1) == advance(segs, 1, cursor_after(segs, 0)));
}

/// A path of one relative line from `p` by `delta` has its cursor at `p`
/// before the line and at `p + delta` at every index after it; when both
/// points are in range, `Path::cursor` accepts every index of it.
pub proof fn lemma_single_line_cursor(p: Vector2, delta: Vector2, index: nat)
    ensures
        path_cursor(seq![Segment::MoveTo(p)].push(Segment::Line(delta)), 0) == point_of(p),
        index >= 1 ==> path_cursor(seq![Segment::MoveTo(p)].push(Segment::Line(delta)), index)
            == (p.x + delta.x, p.y + delta.y),
        p.in_range() && point_in_range((p.x + delta.x, p.y + delta.y)) ==> cursors_in_range(
            seq![Segment::MoveTo(p)].push(Segment::Line(delta)),
            1,
        ),
{
    let segs = seq![Segment::MoveTo(p)].push(Segment::Line(delta));
    assert(segs[0] == Segment::MoveTo(p));
    assert(segs[1] == Segment::Line(delta));
    assert(cursor_after(segs, 1) == advance(segs, 1, cursor_after(segs, 0)));
    if p.in_range() && point_in_range((p.x + delta.x, p.y + delta.y)) {
        assert forall|k: nat| k <= 1 implies point_in_range(#[trigger] cursor_after(segs, k)) by {
            if k == 1 {
                assert(cursor_after(segs, 1) == (p.x + delta.x, p.y + delta.y));
            }
        }
    }
}

} // verus!
