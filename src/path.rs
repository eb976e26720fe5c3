//! Rectangle outlines, with straight or rounded corners, as path commands.
use vstd::prelude::*;

verus! {

/// One path command, in device coordinates.
#[derive(Clone, Copy, Debug, PartialEq, Eq, Structural)]
pub enum PathCmd {
    MoveTo { x: i64, y: i64 },
    LineTo { x: i64, y: i64 },
    QuadTo { cx: i64, cy: i64, x: i64, y: i64 },
    Close,
}

/// The largest coordinate magnitude that rectangle outlines take.
pub const COORD_LIMIT: i64 = 0x100_0000_0000;

/// The outline of the rectangle from `(x, y)` to `(xmax, ymax)`. With radius 0 it
/// is four straight edges; otherwise each corner is a quadratic curve whose
/// control point is the corner itself, `radius` away from its end points.
pub open spec fn rect_outline(radius: int, x: int, y: int, xmax: int, ymax: int) -> Seq<PathCmd> {
    if radius == 0 {
        seq![
            PathCmd::MoveTo { x: x as i64, y: y as i64 },
            PathCmd::LineTo { x: xmax as i64, y: y as i64 },
            PathCmd::LineTo { x: xmax as i64, y: ymax as i64 },
            PathCmd::LineTo { x: x as i64, y: ymax as i64 },
            PathCmd::Close,
        ]
    } else {
        seq![
            PathCmd::MoveTo { x: x as i64, y: (y + radius) as i64 },
            PathCmd::QuadTo { cx: x as i64, cy: y as i64, x: (x + radius) as i64, y: y as i64 },
            PathCmd::LineTo { x: (xmax - radius) as i64, y: y as i64 },
            PathCmd::QuadTo {
                cx: xmax as i64,
                cy: y as i64,
                x: xmax as i64,
                y: (y + radius) as i64,
            },
            PathCmd::LineTo { x: xmax as i64, y: (ymax - radius) as i64 },
            PathCmd::QuadTo {
                cx: xmax as i64,
                cy: ymax as i64,
                x: (xmax - radius) as i64,
                y: ymax as i64,
            },
            PathCmd::LineTo { x: (x + radius) as i64, y: ymax as i64 },
            PathCmd::QuadTo {
                cx: x as i64,
                cy: ymax as i64,
                x: x as i64,
                y: (ymax - radius) as i64,
            },
            PathCmd::Close,
        ]
    }
}

/// Whether a coordinate lies within a closed range.
pub open spec fn in_range(v: i64, lo: int, hi: int) -> bool {
    lo <= v <= hi
}

/// Every point of the command (end point and control point) lies in the box.
pub open spec fn cmd_within(c: PathCmd, x: int, y: int, xmax: int, ymax: int) -> bool {
    match c {
        PathCmd::MoveTo { x: px, y: py } => in_range(px, x, xmax) && in_range(py, y, ymax),
        PathCmd::LineTo { x: px, y: py } => in_range(px, x, xmax) && in_range(py, y, ymax),
        PathCmd::QuadTo { cx, cy, x: px, y: py } => in_range(cx, x, xmax) && in_range(cy, y, ymax)
            && in_range(px, x, xmax) && in_range(py, y, ymax),
        PathCmd::Close => true,
    }
}

/// Whether `(px, py)` is an end point or a control point of the command.
pub open spec fn cmd_has_point(c: PathCmd, px: int, py: int) -> bool {
    match c {
        PathCmd::MoveTo { x, y } => x == px && y == py,
        PathCmd::LineTo { x, y } => x == px && y == py,
        PathCmd::QuadTo { cx, cy, x, y } => (cx == px && cy == py) || (x == px && y == py),
        PathCmd::Close => false,
    }
}

/// Whether the path's points span exactly the box from `(x, y)` to `(xmax, ymax)`:
/// every point lies in it and each of its corners is a point of the path.
pub open spec fn spans_box(p: Seq<PathCmd>, x: int, y: int, xmax: int, ymax: int) -> bool {
    &&& forall|i: int| 0 <= i < p.len() ==> #[trigger] cmd_within(p[i], x, y, xmax, ymax)
    &&& exists|i: int| 0 <= i < p.len() && #[trigger] cmd_has_point(p[i], x, y)
    &&& exists|i: int| 0 <= i < p.len() && #[trigger] cmd_has_point(p[i], xmax, y)
    &&& exists|i: int| 0 <= i < p.len() && #[trigger] cmd_has_point(p[i], xmax, ymax)
    &&& exists|i: int| 0 <= i < p.len() && #[trigger] cmd_has_point(p[i], x, ymax)
}

/// Whether a value fits the range that outlines are built in.
pub open spec fn coord_ok(v: int) -> bool {
    -COORD_LIMIT <= v <= COORD_LIMIT
}

/// Builds the outline of the rectangle from `(x, y)` to `(xmax, ymax)`.
pub fn rect_path(radius: i64, x: i64, y: i64, xmax: i64, ymax: i64) -> (p: Vec<PathCmd>)
    requires
        coord_ok(radius as int),
        coord_ok(x as int),
        coord_ok(y as int),
        coord_ok(xmax as int),
        coord_ok(ymax as int),
    ensures
        p@ == rect_outline(radius as int, x as int, y as int, xmax as int, ymax as int),
{
    let mut pb: Vec<PathCmd> = Vec::new();
    if radius == 0 {
        pb.push(PathCmd::MoveTo { x, y });
        pb.push(PathCmd::LineTo { x: xmax, y });
        pb.push(PathCmd::LineTo { x: xmax, y: ymax });
        pb.push(PathCmd::LineTo { x, y: ymax });
    } else {
        pb.push(PathCmd::MoveTo { x, y: y + radius });
        pb.push(PathCmd::QuadTo { cx: x, cy: y, x: x + radius, y });
        pb.push(PathCmd::LineTo { x: xmax - radius, y });
        pb.push(PathCmd::QuadTo { cx: xmax, cy: y, x: xmax, y: y + radius });
        pb.push(PathCmd::LineTo { x: xmax, y: ymax - radius });
        pb.push(PathCmd::QuadTo { cx: xmax, cy: ymax, x: xmax - radius, y: ymax });
        pb.push(PathCmd::LineTo { x: x + radius, y: ymax });
        pb.push(PathCmd::QuadTo { cx: x, cy: ymax, x, y: ymax - radius });
    }
    pb.push(PathCmd::Close);
    assert(pb@ =~= rect_outline(radius as int, x as int, y as int, xmax as int, ymax as int));
    pb
}

/// With radius 0 the outline is four straight edges through the four corners,
/// closed. With a radius up to the rectangle's width and height, rounding keeps
/// the outline's bounding box: its points span exactly the same box as the
/// outline with radius 0.
pub proof fn lemma_rounding_keeps_bounds(r: int, x: int, y: int, xmax: int, ymax: int)
    requires
        coord_ok(r),
        coord_ok(x),
        coord_ok(y),
        coord_ok(xmax),
        coord_ok(ymax),
        x <= xmax,
        y <= ymax,
        0 <= r,
        r <= xmax - x,
        r <= ymax - y,
    ensures
        rect_outline(0, x, y, xmax, ymax).len() == 5,
        rect_outline(0, x, y, xmax, ymax)[4] == PathCmd::Close,
        forall|i: int|
            0 <= i < 4 ==> !(#[trigger] rect_outline(0, x, y, xmax, ymax)[i] is QuadTo)
                && !(rect_outline(0, x, y, xmax, ymax)[i] is Close),
        spans_box(rect_outline(0, x, y, xmax, ymax), x, y, xmax, ymax),
        spans_box(rect_outline(r, x, y, xmax, ymax), x, y, xmax, ymax),
{
    let p0 = rect_outline(0, x, y, xmax, ymax);
    assert(cmd_has_point(p0[0], x, y));
    assert(cmd_has_point(p0[1], xmax, y));
    assert(cmd_has_point(p0[2], xmax, ymax));
    assert(cmd_has_point(p0[3], x, ymax));
    assert(cmd_within(p0[0], x, y, xmax, ymax));
    assert(cmd_within(p0[1], x, y, xmax, ymax));
    assert(cmd_within(p0[2], x, y, xmax, ymax));
    assert(cmd_within(p0[3], x, y, xmax, ymax));
    assert(cmd_within(p0[4], x, y, xmax, ymax));
    if r != 0 {
        let p = rect_outline(r, x, y, xmax, ymax);
        assert(cmd_has_point(p[1], x, y));
        assert(cmd_has_point(p[3], xmax, y));
        assert(cmd_has_point(p[5], xmax, ymax));
        assert(cmd_has_point(p[7], x, ymax));
        assert forall|i: int| 0 <= i < p.len() implies #[trigger] cmd_within(
            p[i],
            x,
            y,
            xmax,
            ymax,
        ) by {
            assert(0 <= i < 9);
        }
    }
}

} // verus!
