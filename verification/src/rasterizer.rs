//! Integer Bresenham line rasterization and polygon outlines, drawn into a
//! `Framebuffer` through its bounds-checked pixel writes. The plotted point
//! set of a segment is pinned down exactly by a recursive specification of
//! the error-stepping walk.

use vstd::prelude::*;

use crate::color::Color;
use crate::framebuffer::{lemma_row_major_bound, lemma_row_major_coords, write_pixel, Framebuffer};

verus! {

/// An integer grid point. Drawing routines take these directly; any other
/// coordinate representation converts to one before rasterizing.
#[derive(Debug, Copy, Clone, PartialEq, Eq, Structural)]
pub struct Point {
    pub x: isize,
    pub y: isize,
}

/// Largest coordinate magnitude the rasterizer accepts; keeps the error
/// arithmetic of the stepping inside 64 bits on every target.
pub const COORD_LIMIT: isize = 0x1000_0000;

/// The magnitude of `v`.
pub open spec fn abs_int(v: int) -> int {
    if v >= 0 {
        v
    } else {
        -v
    }
}

/// The direction of one step along an axis, -1 or 1; an arbitrary non-zero
/// sign (here -1) when the delta is zero.
pub open spec fn sign_step(from: int, to: int) -> int {
    if from < to {
        1
    } else {
        -1
    }
}

/// The Bresenham error term when `u` columns and `v` rows remain to walk,
/// for a segment with deltas `dx >= 0` and `dy <= 0`. It starts at
/// `dx + dy` and gains `dy` for each column step and `dx` for each row
/// step.
pub open spec fn bres_err(dx: int, dy: int, u: int, v: int) -> int {
    dx + dy - u * dy - v * dx
}

/// The grid points the stepping visits while `u` columns and `v` rows
/// remain, walking toward the endpoint (x2, y2) against the step signs
/// `sx` and `sy`, endpoint included.
pub open spec fn bres_points(
    x2: int,
    y2: int,
    sx: int,
    sy: int,
    dx: int,
    dy: int,
    u: nat,
    v: nat,
) -> Set<(int, int)>
    decreases u + v,
{
    let p = (x2 - sx * u, y2 - sy * v);
    if u == 0 && v == 0 {
        Set::empty().insert(p)
    } else {
        let e2 = 2 * bres_err(dx, dy, u as int, v as int);
        let step_x = e2 >= dy && u > 0;
        let step_y = e2 <= dx && v > 0;
        if step_x || step_y {
            bres_points(
                x2,
                y2,
                sx,
                sy,
                dx,
                dy,
                if step_x {
                    (u - 1) as nat
                } else {
                    u
                },
                if step_y {
                    (v - 1) as nat
                } else {
                    v
                },
            ).insert(p)
        } else {
            Set::empty().insert(p)
        }
    }
}

/// The set of grid points Bresenham plots for the segment from (x1, y1)
/// to (x2, y2), both endpoints included.
pub open spec fn line_points(x1: int, y1: int, x2: int, y2: int) -> Set<(int, int)> {
    let dx = abs_int(x2 - x1);
    let dy = -abs_int(y2 - y1);
    bres_points(
        x2,
        y2,
        sign_step(x1, x2),
        sign_step(y1, y2),
        dx,
        dy,
        dx as nat,
        (-dy) as nat,
    )
}

/// The buffer with every point of `pts` that lies on the `w` by `h` grid
/// painted `color`; points off the grid paint nothing.
pub open spec fn paint_points(
    buf: Seq<Color>,
    w: int,
    h: int,
    pts: Set<(int, int)>,
    color: Color,
) -> Seq<Color> {
    Seq::new(
        buf.len(),
        |i: int|
            if pts.contains((i % w, i / w)) {
                color
            } else {
                buf[i]
            },
    )
}

/// Painting the empty point set changes nothing.
proof fn lemma_paint_empty(buf: Seq<Color>, w: int, h: int, color: Color)
    requires
        w > 0,
    ensures
        paint_points(buf, w, h, Set::empty(), color) == buf,
{
    assert(paint_points(buf, w, h, Set::empty(), color) =~= buf);
}

/// Painting one more point is exactly one bounds-checked pixel write on
/// top of painting the rest.
proof fn lemma_paint_insert(
    buf: Seq<Color>,
    w: int,
    h: int,
    pts: Set<(int, int)>,
    x: int,
    y: int,
    color: Color,
)
    requires
        w > 0,
        h > 0,
        buf.len() == w * h,
    ensures
        paint_points(buf, w, h, pts.insert((x, y)), color) == write_pixel(
            paint_points(buf, w, h, pts, color),
            w,
            h,
            x,
            y,
            color,
        ),
{
    let lhs = paint_points(buf, w, h, pts.insert((x, y)), color);
    let rhs = write_pixel(paint_points(buf, w, h, pts, color), w, h, x, y, color);
    if 0 <= x < w && 0 <= y < h {
        lemma_row_major_bound(x, y, w, h);
        lemma_row_major_coords(x, y, w);
    }
    assert forall|i: int| 0 <= i < buf.len() implies lhs[i] == rhs[i] by {
        vstd::arithmetic::div_mod::lemma_fundamental_div_mod(i, w);
        assert(0 <= i % w < w && 0 <= i / w < h) by (nonlinear_arith)
            requires
                w > 0,
                h > 0,
                0 <= i < w * h,
                i == w * (i / w) + i % w,
        ;
        if (i % w, i / w) == (x, y) {
            assert(w * y == y * w) by (nonlinear_arith);
            assert(i == y * w + x);
        } else {
            assert(i != y * w + x || !(0 <= x < w && 0 <= y < h)) by {
                if 0 <= x < w && 0 <= y < h && i == y * w + x {
                    lemma_row_major_coords(x, y, w);
                }
            }
        }
    }
    assert(lhs =~= rhs);
}

/// The guards of one stepping round: a finished axis never steps again,
/// and at least one axis steps while the endpoint is not reached.
proof fn lemma_bres_guards(dx: int, dy: int, u: int, v: int)
    by (nonlinear_arith)
    requires
        dx >= 0,
        dy <= 0,
        0 <= u <= dx,
        0 <= v <= -dy,
        !(u == 0 && v == 0),
    ensures
        2 * bres_err(dx, dy, u, v) >= dy ==> u > 0,
        2 * bres_err(dx, dy, u, v) <= dx ==> v > 0,
        2 * bres_err(dx, dy, u, v) >= dy || 2 * bres_err(dx, dy, u, v) <= dx,
{
}

/// The error term stays within one product of the deltas of its starting
/// value; this keeps the doubled error inside 64-bit arithmetic.
proof fn lemma_bres_err_bound(dx: int, dy: int, u: int, v: int)
    by (nonlinear_arith)
    requires
        dx >= 0,
        dy <= 0,
        0 <= u <= dx,
        0 <= v <= -dy,
    ensures
        -(dx - dy + dx * (-dy)) <= bres_err(dx, dy, u, v) <= dx - dy + dx * (-dy),
{
}

/// Draws the segment from `start` to `end` with integer Bresenham
/// stepping, plotting exactly the points of `line_points` through the
/// buffer's bounds-checked pixel write; both endpoints are plotted.
pub fn line(fb: &mut Framebuffer, start: Point, end: Point, color: Color)
    requires
        old(fb).wf(),
        -COORD_LIMIT <= start.x <= COORD_LIMIT,
        -COORD_LIMIT <= start.y <= COORD_LIMIT,
        -COORD_LIMIT <= end.x <= COORD_LIMIT,
        -COORD_LIMIT <= end.y <= COORD_LIMIT,
    ensures
        final(fb).wf(),
        final(fb).width == old(fb).width,
        final(fb).height == old(fb).height,
        final(fb).background_color == old(fb).background_color,
        final(fb).current_color == old(fb).current_color,
        final(fb).buffer@ == paint_points(
            old(fb).buffer@,
            old(fb).width as int,
            old(fb).height as int,
            line_points(start.x as int, start.y as int, end.x as int, end.y as int),
            color,
        ),
{
    let ghost w = old(fb).width as int;
    let ghost h = old(fb).height as int;
    let mut x = start.x;
    let mut y = start.y;
    let x2 = end.x;
    let y2 = end.y;
    let dx: i64 = if x2 >= x {
        (x2 - x) as i64
    } else {
        (x - x2) as i64
    };
    let dy: i64 = if y2 >= y {
        -((y2 - y) as i64)
    } else {
        -((y - y2) as i64)
    };
    let sx: isize = if x < x2 {
        1
    } else {
        -1
    };
    let sy: isize = if y < y2 {
        1
    } else {
        -1
    };
    let mut err: i64 = dx + dy;
    let ghost mut u: int = dx as int;
    let ghost mut v: int = -(dy as int);
    let ghost total = line_points(start.x as int, start.y as int, end.x as int, end.y as int);
    let ghost mut painted: Set<(int, int)> = Set::empty();
    proof {
        lemma_paint_empty(old(fb).buffer@, w, h, color);
        assert(bres_err(dx as int, dy as int, dx as int, -(dy as int)) == dx + dy)
            by (nonlinear_arith);
        if start.x < end.x {
            assert(sx * u == u) by (nonlinear_arith)
                requires
                    sx == 1,
            ;
        } else {
            assert(sx * u == -u) by (nonlinear_arith)
                requires
                    sx == -1,
            ;
        }
        if start.y < end.y {
            assert(sy * v == v) by (nonlinear_arith)
                requires
                    sy == 1,
            ;
        } else {
            assert(sy * v == -v) by (nonlinear_arith)
                requires
                    sy == -1,
            ;
        }
        assert(total =~= painted.union(
            bres_points(x2 as int, y2 as int, sx as int, sy as int, dx as int, dy as int, u as nat, v as nat),
        ));
    }
    loop
        invariant
            fb.wf(),
            fb.width == old(fb).width,
            fb.height == old(fb).height,
            fb.background_color == old(fb).background_color,
            fb.current_color == old(fb).current_color,
            w == fb.width as int,
            h == fb.height as int,
            -COORD_LIMIT <= x2 <= COORD_LIMIT,
            -COORD_LIMIT <= y2 <= COORD_LIMIT,
            0 <= dx <= 2 * COORD_LIMIT,
            -2 * COORD_LIMIT <= dy <= 0,
            sx == 1 || sx == -1,
            sy == 1 || sy == -1,
            0 <= u <= dx,
            0 <= v <= -dy,
            x as int == x2 - sx * u,
            y as int == y2 - sy * v,
            err as int == bres_err(dx as int, dy as int, u, v),
            total == painted.union(
                bres_points(x2 as int, y2 as int, sx as int, sy as int, dx as int, dy as int, u as nat, v as nat),
            ),
            fb.buffer@ == paint_points(old(fb).buffer@, w, h, painted, color),
        ensures
            fb.wf(),
            fb.width == old(fb).width,
            fb.height == old(fb).height,
            fb.background_color == old(fb).background_color,
            fb.current_color == old(fb).current_color,
            fb.buffer@ == paint_points(old(fb).buffer@, w, h, total, color),
        decreases u + v,
    {
        proof {
            assert(-2 * COORD_LIMIT <= sx * u <= 2 * COORD_LIMIT && -2 * COORD_LIMIT <= sy * v <= 2
                * COORD_LIMIT) by (nonlinear_arith)
                requires
                    (sx == 1 || sx == -1),
                    (sy == 1 || sy == -1),
                    0 <= u <= 2 * COORD_LIMIT,
                    0 <= v <= 2 * COORD_LIMIT,
            ;
        }
        fb.set_pixel(x, y, color);
        proof {
            lemma_paint_insert(old(fb).buffer@, w, h, painted, x as int, y as int, color);
            painted = painted.insert((x as int, y as int));
        }
        if x == x2 && y == y2 {
            proof {
                assert(u == 0 && v == 0) by (nonlinear_arith)
                    requires
                        (sx == 1 || sx == -1),
                        (sy == 1 || sy == -1),
                        x as int == x2 - sx * u,
                        y as int == y2 - sy * v,
                        x == x2,
                        y == y2,
                ;
                assert(bres_points(x2 as int, y2 as int, sx as int, sy as int, dx as int, dy as int, 0, 0)
                    =~= Set::empty().insert((x2 as int, y2 as int)));
                assert(total =~= painted);
            }
            break ;
        }
        proof {
            assert(u != 0 || v != 0) by (nonlinear_arith)
                requires
                    (sx == 1 || sx == -1),
                    (sy == 1 || sy == -1),
                    x as int == x2 - sx * u,
                    y as int == y2 - sy * v,
                    !(x == x2 && y == y2),
            ;
            lemma_bres_guards(dx as int, dy as int, u, v);
            lemma_bres_err_bound(dx as int, dy as int, u, v);
            assert(dx * (-(dy as int)) <= 4 * COORD_LIMIT * COORD_LIMIT) by (nonlinear_arith)
                requires
                    0 <= dx <= 2 * COORD_LIMIT,
                    0 <= -(dy as int) <= 2 * COORD_LIMIT,
            ;
        }
        let ghost u0 = u;
        let ghost v0 = v;
        let ghost rest0 = bres_points(
            x2 as int,
            y2 as int,
            sx as int,
            sy as int,
            dx as int,
            dy as int,
            u0 as nat,
            v0 as nat,
        );
        let e2: i64 = 2 * err;
        if e2 >= dy {
            err = err + dy;
            x = x + sx;
            proof {
                u = u - 1;
                assert(u0 * (dy as int) - dy as int == (u0 - 1) * (dy as int)) by (nonlinear_arith);
                assert(sx * (u0 - 1) == sx * u0 - sx) by (nonlinear_arith);
            }
        }
        if e2 <= dx {
            err = err + dx;
            y = y + sy;
            proof {
                v = v - 1;
                assert(v0 * (dx as int) - dx as int == (v0 - 1) * (dx as int)) by (nonlinear_arith);
                assert(sy * (v0 - 1) == sy * v0 - sy) by (nonlinear_arith);
            }
        }
        proof {
            let rest1 = bres_points(
                x2 as int,
                y2 as int,
                sx as int,
                sy as int,
                dx as int,
                dy as int,
                u as nat,
                v as nat,
            );
            assert(rest0 == rest1.insert((x2 - sx * u0, y2 - sy * v0)));
            assert(total =~= painted.union(rest1));
        }
    }
}

/// The coordinate pairs of a point sequence.
pub open spec fn coords_of(pts: Seq<Point>) -> Seq<(int, int)> {
    pts.map_values(|p: Point| (p.x as int, p.y as int))
}

/// The buffer after drawing the first `k` edges of the open polyline
/// through `pts`: the segments pts[0]-pts[1] up to pts[k-1]-pts[k].
pub open spec fn polyline_paint(
    buf: Seq<Color>,
    w: int,
    h: int,
    pts: Seq<(int, int)>,
    k: int,
    color: Color,
) -> Seq<Color>
    decreases k,
{
    if k <= 0 {
        buf
    } else {
        paint_points(
            polyline_paint(buf, w, h, pts, k - 1, color),
            w,
            h,
            line_points(pts[k - 1].0, pts[k - 1].1, pts[k].0, pts[k].1),
            color,
        )
    }
}

/// The buffer after drawing every edge of the closed polygon through
/// `pts`: each point to the next in order, then the last back to the
/// first.
pub open spec fn polygon_paint(
    buf: Seq<Color>,
    w: int,
    h: int,
    pts: Seq<(int, int)>,
    color: Color,
) -> Seq<Color> {
    paint_points(
        polyline_paint(buf, w, h, pts, pts.len() - 1, color),
        w,
        h,
        line_points(pts[pts.len() - 1].0, pts[pts.len() - 1].1, pts[0].0, pts[0].1),
        color,
    )
}

/// Draws the outline of the polygon through `points`: a line from each
/// point to the next, then a closing line from the last back to the
/// first. With fewer than 3 points it is a silent no-op that leaves the
/// buffer bit-for-bit unchanged.
pub fn draw_polygon(fb: &mut Framebuffer, points: &Vec<Point>, color: Color)
    requires
        old(fb).wf(),
        forall|i: int|
            0 <= i < points.len() ==> -COORD_LIMIT <= (#[trigger] points[i]).x <= COORD_LIMIT
                && -COORD_LIMIT <= points[i].y <= COORD_LIMIT,
    ensures
        final(fb).wf(),
        final(fb).width == old(fb).width,
        final(fb).height == old(fb).height,
        final(fb).background_color == old(fb).background_color,
        final(fb).current_color == old(fb).current_color,
        points.len() < 3 ==> *final(fb) == *old(fb),
        points.len() >= 3 ==> final(fb).buffer@ == polygon_paint(
            old(fb).buffer@,
            old(fb).width as int,
            old(fb).height as int,
            coords_of(points@),
            color,
        ),
{
    if points.len() < 3 {
        return ;
    }
    let ghost w = old(fb).width as int;
    let ghost h = old(fb).height as int;
    let mut i: usize = 1;
    while i < points.len()
        invariant
            1 <= i <= points.len(),
            points.len() >= 3,
            fb.wf(),
            fb.width == old(fb).width,
            fb.height == old(fb).height,
            fb.background_color == old(fb).background_color,
            fb.current_color == old(fb).current_color,
            w == fb.width as int,
            h == fb.height as int,
            forall|j: int|
                0 <= j < points.len() ==> -COORD_LIMIT <= (#[trigger] points[j]).x <= COORD_LIMIT
                    && -COORD_LIMIT <= points[j].y <= COORD_LIMIT,
            fb.buffer@ == polyline_paint(
                old(fb).buffer@,
                w,
                h,
                coords_of(points@),
                i - 1,
                color,
            ),
        decreases points.len() - i,
    {
        let a = points[i - 1];
        let b = points[i];
        line(fb, a, b, color);
        i = i + 1;
    }
    let last = points[points.len() - 1];
    let first = points[0];
    line(fb, last, first, color);
}

} // verus!
