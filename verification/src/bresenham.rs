//! Slanted lines and filled discs, drawn with integer arithmetic alone.

use vstd::prelude::*;
use crate::canvas::Canvas;
use crate::grid::Grid;
use crate::pixel::Pixel;
use crate::shapes::{between, h_segment, v_segment};

verus! {

/// `m` is the quotient `num / den` rounded to the nearest integer, a half
/// rounded down.
pub open spec fn nearest(num: int, den: int, m: int) -> bool {
    -den < 2 * num - 2 * m * den <= den
}

/// The positions of a line from `(ax, ay)` right to `(bx, by)` that is wider
/// than it is high: in each column from `ax` to `bx` the row nearest to the
/// exact line.
pub open spec fn on_gentle(ax: int, ay: int, bx: int, by: int, cx: int, cy: int) -> bool {
    &&& ax <= cx <= bx
    &&& if by >= ay {
        nearest((cx - ax) * (by - ay), bx - ax, cy - ay)
    } else {
        nearest((cx - ax) * (ay - by), bx - ax, ay - cy)
    }
}

/// The positions of a line from `(ax, ay)` down to `(bx, by)` that is at
/// least as high as it is wide: in each row from `ay` to `by` the column
/// nearest to the exact line.
pub open spec fn on_steep(ax: int, ay: int, bx: int, by: int, cx: int, cy: int) -> bool {
    &&& ay <= cy <= by
    &&& if bx >= ax {
        nearest((cy - ay) * (bx - ax), by - ay, cx - ax)
    } else {
        nearest((cy - ay) * (ax - bx), by - ay, ax - cx)
    }
}

/// The absolute value of `v`.
pub open spec fn abs(v: int) -> int {
    if v < 0 {
        -v
    } else {
        v
    }
}

/// The positions of the line from `(x0, y0)` to `(x1, y1)`.
pub open spec fn on_line(x0: int, y0: int, x1: int, y1: int) -> spec_fn(int, int) -> bool {
    |cx: int, cy: int|
        if y0 == y1 {
            cy == y0 && between(cx, x0, x1)
        } else if x0 == x1 {
            cx == x0 && between(cy, y0, y1)
        } else if abs(y1 - y0) < abs(x1 - x0) {
            if x0 > x1 {
                on_gentle(x1, y1, x0, y0, cx, cy)
            } else {
                on_gentle(x0, y0, x1, y1, cx, cy)
            }
        } else {
            if y0 > y1 {
                on_steep(x1, y1, x0, y0, cx, cy)
            } else {
                on_steep(x0, y0, x1, y1, cx, cy)
            }
        }
}

/// The position lies on a gentle line, left of column `upto`.
spec fn gentle_before(
    ax: int,
    ay: int,
    bx: int,
    by: int,
    upto: int,
    cx: int,
    cy: int,
) -> bool {
    cx < upto && on_gentle(ax, ay, bx, by, cx, cy)
}

/// The part of a gentle line left of column `upto`.
spec fn gentle_part(ax: int, ay: int, bx: int, by: int, upto: int) -> spec_fn(
    int,
    int,
) -> bool {
    |cx: int, cy: int| gentle_before(ax, ay, bx, by, upto, cx, cy)
}

/// The position lies on a steep line, above row `upto`.
spec fn steep_before(
    ax: int,
    ay: int,
    bx: int,
    by: int,
    upto: int,
    cx: int,
    cy: int,
) -> bool {
    cy < upto && on_steep(ax, ay, bx, by, cx, cy)
}

/// The part of a steep line above row `upto`.
spec fn steep_part(ax: int, ay: int, bx: int, by: int, upto: int) -> spec_fn(
    int,
    int,
) -> bool {
    |cx: int, cy: int| steep_before(ax, ay, bx, by, upto, cx, cy)
}

/// A quotient has one nearest integer only.
pub proof fn lemma_nearest_unique(num: int, den: int, m1: int, m2: int)
    requires
        den > 0,
        nearest(num, den, m1),
        nearest(num, den, m2),
    ensures
        m1 == m2,
{
    assert(m1 == m2) by (nonlinear_arith)
        requires
            den > 0,
            -den < 2 * num - 2 * m1 * den <= den,
            -den < 2 * num - 2 * m2 * den <= den,
    ;
}

/// The error term of the next step of a line: `step` grows by one, and `m`
/// grows by one where `up` is set.
proof fn lemma_step(step: int, rise: int, run: int, m: int, e: int, up: bool)
    requires
        e == 2 * (step * rise) - 2 * m * run,
    ensures
        up ==> e + 2 * rise - 2 * run == 2 * ((step + 1) * rise) - 2 * (m + 1) * run,
        !up ==> e + 2 * rise == 2 * ((step + 1) * rise) - 2 * m * run,
{
    assert((step + 1) * rise == step * rise + rise) by (nonlinear_arith);
    assert(2 * (m + 1) * run == 2 * m * run + 2 * run) by (nonlinear_arith);
}

/// The half-height of a disc of radius `r` at the distance `k` from its
/// vertical axis: it starts at `r` and falls by one whenever the midpoint
/// between the two candidate rows lies on or outside the circle.
pub open spec fn circle_y(r: int, k: int) -> int
    decreases k,
{
    if k <= 0 {
        r
    } else {
        let y = circle_y(r, k - 1);
        if 2 * k * k + y * y + (y - 1) * (y - 1) < 2 * r * r {
            y
        } else {
            y - 1
        }
    }
}

/// Step `k` of a disc of radius `r` paints the offset `(u, v)` from its
/// centre: the step is taken while `k` does not pass the half-height, and
/// paints four spans, one for each octant pair.
pub open spec fn disc_step(r: int, k: int, u: int, v: int) -> bool {
    &&& 0 <= k <= circle_y(r, k)
    &&& (abs(v) == circle_y(r, k) && abs(u) <= k) || (abs(v) == k && abs(u) <= circle_y(r, k))
}

/// The offset `(u, v)` from the centre lies on the disc of radius `r`.
pub open spec fn in_disc(r: int, u: int, v: int) -> bool {
    exists|k: int| #[trigger] disc_step(r, k, u, v)
}

/// The positions of the filled disc of radius `r` around `(x, y)`.
pub open spec fn disc(x: int, y: int, r: int) -> spec_fn(int, int) -> bool {
    |cx: int, cy: int| in_disc(r, cx - x, cy - y)
}

/// The offset is painted by one of the steps before `upto`.
spec fn disc_before(r: int, upto: int, u: int, v: int) -> bool {
    exists|k: int| k < upto && #[trigger] disc_step(r, k, u, v)
}

/// The part of a disc that the steps before `upto` paint.
spec fn disc_part(x: int, y: int, r: int, upto: int) -> spec_fn(int, int) -> bool {
    |cx: int, cy: int| disc_before(r, upto, cx - x, cy - y)
}

/// The half-height of a disc never grows with the distance from the axis.
pub proof fn lemma_circle_y_falls(r: int, j: int, k: int)
    requires
        0 <= j <= k,
    ensures
        circle_y(r, k) <= circle_y(r, j),
    decreases k - j,
{
    if j < k {
        lemma_circle_y_falls(r, j, k - 1);
    }
}

/// The midpoint test of the next step, from that of this one.
proof fn lemma_circle_step(r: int, x: int, y: int, d: int)
    requires
        d == 2 * (x + 1) * (x + 1) + y * y + (y - 1) * (y - 1) - 2 * r * r,
    ensures
        d + 4 * x + 6 == 2 * (x + 2) * (x + 2) + y * y + (y - 1) * (y - 1) - 2 * r * r,
        d + 4 * (x - y) + 10 == 2 * (x + 2) * (x + 2) + (y - 1) * (y - 1) + (y - 2) * (y - 2) - 2
            * r * r,
{
    assert(2 * (x + 2) * (x + 2) == 2 * (x + 1) * (x + 1) + 4 * x + 6) by (nonlinear_arith);
    assert((y - 2) * (y - 2) == y * y - 4 * y + 4) by (nonlinear_arith);
}

/// A line holds both of its ends.
pub proof fn lemma_line_holds_ends(x0: int, y0: int, x1: int, y1: int)
    ensures
        on_line(x0, y0, x1, y1)(x0, y0),
        on_line(x0, y0, x1, y1)(x1, y1),
{
    assert(0 * (y0 - y1) == 0) by (nonlinear_arith);
    assert(2 * ((x1 - x0) * (y1 - y0)) - 2 * (y1 - y0) * (x1 - x0) == 0) by (nonlinear_arith);
    assert(2 * ((x1 - x0) * (y0 - y1)) - 2 * (y0 - y1) * (x1 - x0) == 0) by (nonlinear_arith);
    assert(2 * ((x0 - x1) * (y1 - y0)) - 2 * (y1 - y0) * (x0 - x1) == 0) by (nonlinear_arith);
    assert(2 * ((x0 - x1) * (y0 - y1)) - 2 * (y0 - y1) * (x0 - x1) == 0) by (nonlinear_arith);
    assert(2 * ((y1 - y0) * (x1 - x0)) - 2 * (x1 - x0) * (y1 - y0) == 0) by (nonlinear_arith);
    assert(2 * ((y1 - y0) * (x0 - x1)) - 2 * (x0 - x1) * (y1 - y0) == 0) by (nonlinear_arith);
    assert(2 * ((y0 - y1) * (x1 - x0)) - 2 * (x1 - x0) * (y0 - y1) == 0) by (nonlinear_arith);
    assert(2 * ((y0 - y1) * (x0 - x1)) - 2 * (x0 - x1) * (y0 - y1) == 0) by (nonlinear_arith);
}

/// A line is the same set of positions from either end.
pub proof fn lemma_line_reversed(x0: int, y0: int, x1: int, y1: int, cx: int, cy: int)
    ensures
        on_line(x0, y0, x1, y1)(cx, cy) == on_line(x1, y1, x0, y0)(cx, cy),
{
}

/// A disc holds the row and the column through its centre, as far as its
/// radius reaches, and nothing beyond the square around them.
pub proof fn lemma_disc_extent(r: int, u: int, v: int)
    requires
        r >= 0,
    ensures
        abs(u) <= r ==> in_disc(r, u, 0),
        abs(v) <= r ==> in_disc(r, 0, v),
        in_disc(r, u, v) ==> abs(u) <= r && abs(v) <= r,
{
    if abs(u) <= r {
        assert(disc_step(r, 0, u, 0));
    }
    if abs(v) <= r {
        lemma_disc_axis(r, abs(v));
    }
    if in_disc(r, u, v) {
        let k = choose|k: int| #[trigger] disc_step(r, k, u, v);
        lemma_circle_y_falls(r, 0, k);
    }
}

/// At every step that is taken, the midpoint below the half-height lies
/// inside the circle.
pub proof fn lemma_circle_y_inside(r: int, k: int)
    requires
        r >= 1,
        0 <= k <= circle_y(r, k),
    ensures
        2 * k * k + circle_y(r, k) * circle_y(r, k) + (circle_y(r, k) - 1) * (circle_y(r, k) - 1)
            < 2 * r * r,
    decreases k,
{
    let y = circle_y(r, k);
    if k == 0 {
        assert(2 * k * k + y * y + (y - 1) * (y - 1) < 2 * r * r) by (nonlinear_arith)
            requires
                k == 0,
                y == r,
                r >= 1,
        ;
    } else {
        let above = circle_y(r, k - 1);
        lemma_circle_y_inside(r, k - 1);
        if !(2 * k * k + above * above + (above - 1) * (above - 1) < 2 * r * r) {
            assert(2 * k * k + y * y + (y - 1) * (y - 1) < 2 * r * r) by (nonlinear_arith)
                requires
                    y == above - 1,
                    k <= y,
                    2 * (k - 1) * (k - 1) + above * above + (above - 1) * (above - 1) < 2 * r * r,
            ;
        }
    }
}

/// No position of a disc lies farther from the centre than the radius and
/// half a cell.
pub proof fn lemma_disc_within_circle(r: int, u: int, v: int)
    requires
        r >= 0,
        in_disc(r, u, v),
    ensures
        u * u + v * v <= r * r + r,
{
    let k = choose|k: int| #[trigger] disc_step(r, k, u, v);
    let y = circle_y(r, k);
    lemma_circle_y_falls(r, 0, k);
    if r == 0 {
        assert(u * u + v * v <= r * r + r) by (nonlinear_arith)
            requires
                u == 0,
                v == 0,
                r == 0,
        ;
    } else {
        lemma_circle_y_inside(r, k);
        assert(u * u + v * v <= k * k + y * y) by (nonlinear_arith)
            requires
                0 <= k,
                0 <= y,
                (abs(v) == y && abs(u) <= k) || (abs(v) == k && abs(u) <= y),
        ;
        assert(k * k + y * y <= r * r + r) by (nonlinear_arith)
            requires
                2 * k * k + y * y + (y - 1) * (y - 1) < 2 * r * r,
                y <= r,
        ;
    }
}

/// At every step, the midpoint above the half-height lies on the circle or
/// outside it.
proof fn lemma_circle_y_tight(r: int, k: int)
    requires
        r >= 0,
        k >= 0,
    ensures
        2 * k * k + (circle_y(r, k) + 1) * (circle_y(r, k) + 1) + circle_y(r, k) * circle_y(r, k)
            >= 2 * r * r,
    decreases k,
{
    let y = circle_y(r, k);
    if k == 0 {
        assert(2 * k * k + (y + 1) * (y + 1) + y * y >= 2 * r * r) by (nonlinear_arith)
            requires
                k == 0,
                y == r,
                r >= 0,
        ;
    } else {
        let above = circle_y(r, k - 1);
        lemma_circle_y_tight(r, k - 1);
        if 2 * k * k + above * above + (above - 1) * (above - 1) < 2 * r * r {
            assert(2 * k * k + (y + 1) * (y + 1) + y * y >= 2 * r * r) by (nonlinear_arith)
                requires
                    y == above,
                    k >= 1,
                    2 * (k - 1) * (k - 1) + (above + 1) * (above + 1) + above * above >= 2 * r * r,
            ;
        } else {
            assert(2 * k * k + (y + 1) * (y + 1) + y * y >= 2 * r * r) by (nonlinear_arith)
                requires
                    y == above - 1,
                    2 * k * k + above * above + (above - 1) * (above - 1) >= 2 * r * r,
            ;
        }
    }
}

/// The half-height falls by one at most from one step to the next.
proof fn lemma_circle_y_slow(r: int, k: int)
    requires
        k >= 0,
    ensures
        circle_y(r, k) >= r - k,
    decreases k,
{
    if k > 0 {
        lemma_circle_y_slow(r, k - 1);
    }
}

/// The last step before `k` at which the half-height is `b` or more.
spec fn crossing(r: int, b: int, k: int) -> int
    decreases k,
{
    if k <= 0 {
        0
    } else if circle_y(r, k - 1) >= b {
        k - 1
    } else {
        crossing(r, b, k - 1)
    }
}

/// Where the half-height falls below `b`, it falls from `b` to `b - 1`.
proof fn lemma_crossing(r: int, b: int, k: int)
    requires
        k >= 1,
        circle_y(r, 0) >= b,
        circle_y(r, k) < b,
    ensures
        ({
            let m = crossing(r, b, k);
            &&& 0 <= m < k
            &&& circle_y(r, m) == b
            &&& circle_y(r, m + 1) == b - 1
        }),
    decreases k,
{
    if circle_y(r, k - 1) < b {
        lemma_crossing(r, b, k - 1);
    }
}

/// A disc holds every position that lies no farther from its centre than
/// the radius less half a cell.
pub proof fn lemma_disc_holds_circle(r: int, u: int, v: int)
    requires
        r >= 0,
        u * u + v * v <= r * r - r,
    ensures
        in_disc(r, u, v),
{
    let a = abs(u);
    let b = abs(v);
    assert(a * a + b * b <= r * r - r) by (nonlinear_arith)
        requires
            u * u + v * v <= r * r - r,
            a == u || a == -u,
            b == v || b == -v,
    ;
    assert(a <= r && b <= r) by (nonlinear_arith)
        requires
            a * a + b * b <= r * r - r,
            a >= 0,
            b >= 0,
            r >= 0,
    ;
    let y = circle_y(r, b);
    lemma_circle_y_slow(r, b);
    lemma_circle_y_tight(r, b);
    if a >= b {
        assert(a <= y) by (nonlinear_arith)
            requires
                a * a + b * b <= r * r - r,
                2 * b * b + (y + 1) * (y + 1) + y * y >= 2 * r * r,
                y >= 0,
                r >= 0,
                a >= 0,
        ;
        assert(disc_step(r, b, u, v));
    } else if y >= b {
        assert(disc_step(r, b, u, v));
    } else {
        lemma_crossing(r, b, b);
        let m = crossing(r, b, b);
        assert(a <= m) by (nonlinear_arith)
            requires
                a * a + b * b <= r * r - r,
                2 * (m + 1) * (m + 1) + b * b + (b - 1) * (b - 1) >= 2 * r * r,
                b >= 1,
                r >= 0,
                a >= 0,
                m >= 0,
        ;
        assert(disc_step(r, m, u, v));
    }
}

/// Some step of a disc paints its vertical axis at the height `h`: the
/// half-height falls from the radius by one at a time, so it passes `h`
/// while the steps are still taken, or the steps reach `h` first.
proof fn lemma_disc_axis(r: int, h: int)
    requires
        0 <= h <= r,
    ensures
        in_disc(r, 0, h),
        in_disc(r, 0, -h),
{
    lemma_disc_axis_step(r, h, 0);
    let k = disc_axis_step(r, h, 0);
    assert(disc_step(r, k, 0, h));
    assert(disc_step(r, k, 0, -h));
}

/// The step that `disc_axis_step` finds is taken and paints the axis at `h`.
proof fn lemma_disc_axis_step(r: int, h: int, k: int)
    requires
        0 <= k <= h <= circle_y(r, k),
    ensures
        ({
            let found = disc_axis_step(r, h, k);
            &&& 0 <= found <= h <= circle_y(r, found)
            &&& circle_y(r, found) == h || found == h
        }),
    decreases circle_y(r, k) - k + 1,
{
    if circle_y(r, k) != h && k != h {
        lemma_disc_axis_step(r, h, k + 1);
    }
}

/// A step, from `k` on, that paints the vertical axis at the height `h`.
spec fn disc_axis_step(r: int, h: int, k: int) -> int
    decreases circle_y(r, k) - k + 1,
{
    if 0 <= k <= h <= circle_y(r, k) && circle_y(r, k) != h && k != h {
        disc_axis_step(r, h, k + 1)
    } else {
        k
    }
}

impl Canvas {
    /// Draws a line that is wider than it is high, from its left end.
    fn line_gentle(&mut self, ax: i64, ay: i64, bx: i64, by: i64, pixel: Pixel)
        requires
            old(self).wf(),
            i32::MIN <= ax < bx <= i32::MAX,
            i32::MIN <= ay <= i32::MAX,
            i32::MIN <= by <= i32::MAX,
            abs(by - ay) < bx - ax,
        ensures
            final(self).wf(),
            final(self)@ == old(self)@.paint(
                |cx: int, cy: int| on_gentle(ax as int, ay as int, bx as int, by as int, cx, cy),
                pixel,
            ),
    {
        broadcast use Canvas::lemma_wf;

        let ghost before = self@;
        let run = bx - ax;
        let down = by >= ay;
        let rise = if down { by - ay } else { ay - by };
        let mut d = 2 * rise - run;
        let mut y = ay;
        let mut x = ax;
        let ghost mut e: int = 0;
        let ghost mut m: int = 0;
        assert(self@ =~~= before.paint(
            gentle_part(ax as int, ay as int, bx as int, by as int, x as int),
            pixel,
        ));
        while x <= bx
            invariant
                self.wf(),
                i32::MIN <= ax < bx <= i32::MAX,
                i32::MIN <= ay <= i32::MAX,
                i32::MIN <= by <= i32::MAX,
                run == bx - ax,
                down == (by >= ay),
                rise == if down { by - ay } else { ay - by },
                0 <= rise < run,
                ax <= x <= bx + 1,
                0 <= m <= x - ax,
                y == if down { ay + m } else { ay - m },
                e == 2 * ((x - ax) * rise) - 2 * m * run,
                -run < e <= run,
                d == e + 2 * rise - run,
                self@ == before.paint(
                    gentle_part(ax as int, ay as int, bx as int, by as int, x as int),
                    pixel,
                ),
            decreases bx + 1 - x,
        {
            self.put(x, y, pixel);
            proof {
                assert forall|cx: int, cy: int|
                    #[trigger] gentle_before(
                        ax as int,
                        ay as int,
                        bx as int,
                        by as int,
                        x + 1,
                        cx,
                        cy,
                    ) == (gentle_before(ax as int, ay as int, bx as int, by as int, x as int, cx, cy)
                        || (cx == x && cy == y)) by {
                    if cx == x && on_gentle(ax as int, ay as int, bx as int, by as int, cx, cy) {
                        let other = if down { cy - ay } else { ay - cy };
                        lemma_nearest_unique((x - ax) * rise, run as int, m, other);
                    }
                }
                assert(self@ =~~= before.paint(
                    gentle_part(ax as int, ay as int, bx as int, by as int, x + 1),
                    pixel,
                ));
                lemma_step(x - ax, rise as int, run as int, m, e, d > 0);
            }
            if d > 0 {
                y = if down { y + 1 } else { y - 1 };
                d = d - 2 * run;
                proof {
                    e = e + 2 * rise - 2 * run;
                    m = m + 1;
                }
            } else {
                proof {
                    e = e + 2 * rise;
                }
            }
            d = d + 2 * rise;
            x = x + 1;
        }
        assert(self@ =~~= before.paint(
            |cx: int, cy: int| on_gentle(ax as int, ay as int, bx as int, by as int, cx, cy),
            pixel,
        ));
    }

    /// Draws a line that is at least as high as it is wide, from its upper end.
    fn line_steep(&mut self, ax: i64, ay: i64, bx: i64, by: i64, pixel: Pixel)
        requires
            old(self).wf(),
            i32::MIN <= ay < by <= i32::MAX,
            i32::MIN <= ax <= i32::MAX,
            i32::MIN <= bx <= i32::MAX,
            abs(bx - ax) <= by - ay,
        ensures
            final(self).wf(),
            final(self)@ == old(self)@.paint(
                |cx: int, cy: int| on_steep(ax as int, ay as int, bx as int, by as int, cx, cy),
                pixel,
            ),
    {
        broadcast use Canvas::lemma_wf;

        let ghost before = self@;
        let run = by - ay;
        let right = bx >= ax;
        let rise = if right { bx - ax } else { ax - bx };
        let mut d = 2 * rise - run;
        let mut x = ax;
        let mut y = ay;
        let ghost mut e: int = 0;
        let ghost mut m: int = 0;
        assert(self@ =~~= before.paint(
            steep_part(ax as int, ay as int, bx as int, by as int, y as int),
            pixel,
        ));
        while y <= by
            invariant
                self.wf(),
                i32::MIN <= ay < by <= i32::MAX,
                i32::MIN <= ax <= i32::MAX,
                i32::MIN <= bx <= i32::MAX,
                run == by - ay,
                right == (bx >= ax),
                rise == if right { bx - ax } else { ax - bx },
                0 <= rise <= run,
                ay <= y <= by + 1,
                0 <= m <= y - ay,
                x == if right { ax + m } else { ax - m },
                e == 2 * ((y - ay) * rise) - 2 * m * run,
                -run < e <= run,
                d == e + 2 * rise - run,
                self@ == before.paint(
                    steep_part(ax as int, ay as int, bx as int, by as int, y as int),
                    pixel,
                ),
            decreases by + 1 - y,
        {
            self.put(x, y, pixel);
            proof {
                assert forall|cx: int, cy: int|
                    #[trigger] steep_before(
                        ax as int,
                        ay as int,
                        bx as int,
                        by as int,
                        y + 1,
                        cx,
                        cy,
                    ) == (steep_before(ax as int, ay as int, bx as int, by as int, y as int, cx, cy)
                        || (cx == x && cy == y)) by {
                    if cy == y && on_steep(ax as int, ay as int, bx as int, by as int, cx, cy) {
                        let other = if right { cx - ax } else { ax - cx };
                        lemma_nearest_unique((y - ay) * rise, run as int, m, other);
                    }
                }
                assert(self@ =~~= before.paint(
                    steep_part(ax as int, ay as int, bx as int, by as int, y + 1),
                    pixel,
                ));
                lemma_step(y - ay, rise as int, run as int, m, e, d > 0);
            }
            if d > 0 {
                x = if right { x + 1 } else { x - 1 };
                d = d - 2 * run;
                proof {
                    e = e + 2 * rise - 2 * run;
                    m = m + 1;
                }
            } else {
                proof {
                    e = e + 2 * rise;
                }
            }
            d = d + 2 * rise;
            y = y + 1;
        }
        assert(self@ =~~= before.paint(
            |cx: int, cy: int| on_steep(ax as int, ay as int, bx as int, by as int, cx, cy),
            pixel,
        ));
    }

    /// Draws a line from `(start_x, start_y)` to `(end_x, end_y)`, both ends
    /// included. A slanted line takes one position in each column where it
    /// is wider than high, and one in each row otherwise: the one nearest to
    /// the exact line.
    pub fn line(&mut self, start_x: i32, start_y: i32, end_x: i32, end_y: i32, pixel: Pixel)
        requires
            old(self).wf(),
        ensures
            final(self).wf(),
            final(self)@ == old(self)@.paint(
                on_line(start_x as int, start_y as int, end_x as int, end_y as int),
                pixel,
            ),
    {
        broadcast use Canvas::lemma_wf;

        let ghost before = self@;
        let x0 = start_x as i64;
        let y0 = start_y as i64;
        let x1 = end_x as i64;
        let y1 = end_y as i64;
        let width = if x1 >= x0 { x1 - x0 } else { x0 - x1 };
        let height = if y1 >= y0 { y1 - y0 } else { y0 - y1 };
        if y0 == y1 {
            self.paint_row(x0, x1, y0, pixel);
        } else if x0 == x1 {
            self.paint_col(x0, y0, y1, pixel);
        } else if height < width {
            if x0 > x1 {
                self.line_gentle(x1, y1, x0, y0, pixel);
            } else {
                self.line_gentle(x0, y0, x1, y1, pixel);
            }
        } else {
            if y0 > y1 {
                self.line_steep(x1, y1, x0, y0, pixel);
            } else {
                self.line_steep(x0, y0, x1, y1, pixel);
            }
        }
        assert(self@ =~~= before.paint(
            on_line(start_x as int, start_y as int, end_x as int, end_y as int),
            pixel,
        ));
    }

    /// Draws the filled disc of the given radius around `(x, y)`, span by
    /// span from the horizontal axis outwards.
    pub fn fill_circle(&mut self, x: i32, y: i32, radius: u32, pixel: Pixel)
        requires
            old(self).wf(),
        ensures
            final(self).wf(),
            final(self)@ == old(self)@.paint(disc(x as int, y as int, radius as int), pixel),
    {
        broadcast use Canvas::lemma_wf;

        let ghost before = self@;
        let cx0 = x as i64;
        let cy0 = y as i64;
        let r = radius as i64;
        let mut rx: i64 = 0;
        let mut ry: i64 = r;
        let mut d: i64 = 3 - 2 * r;
        assert(d == 2 * (rx + 1) * (rx + 1) + ry * ry + (ry - 1) * (ry - 1) - 2 * r * r)
            by (nonlinear_arith)
            requires
                rx == 0,
                ry == r,
                d == 3 - 2 * r,
        ;
        assert(self@ =~~= before.paint(disc_part(x as int, y as int, r as int, 0), pixel));
        while ry >= rx
            invariant
                self.wf(),
                cx0 == x,
                cy0 == y,
                r == radius,
                0 <= rx <= ry + 2,
                ry <= r,
                ry == circle_y(r as int, rx as int),
                d == 2 * (rx + 1) * (rx + 1) + ry * ry + (ry - 1) * (ry - 1) - 2 * r * r,
                -4 * r - 6 <= d <= 6 + 10 * rx,
                self@ == before.paint(disc_part(x as int, y as int, r as int, rx as int), pixel),
            decreases ry - rx + 2,
        {
            self.paint_row(cx0 - rx, cx0 + rx, cy0 + ry, pixel);
            self.paint_row(cx0 - ry, cx0 + ry, cy0 + rx, pixel);
            self.paint_row(cx0 - rx, cx0 + rx, cy0 - ry, pixel);
            self.paint_row(cx0 - ry, cx0 + ry, cy0 - rx, pixel);
            proof {
                assert forall|u: int, v: int| #[trigger]
                    disc_before(r as int, rx + 1, u, v) == (disc_before(r as int, rx as int, u, v)
                        || disc_step(r as int, rx as int, u, v)) by {}
                assert(self@ =~~= before.paint(
                    disc_part(x as int, y as int, r as int, rx + 1),
                    pixel,
                ));
                lemma_circle_step(r as int, rx as int, ry as int, d as int);
            }
            if d < 0 {
                d = d + 4 * rx + 6;
            } else {
                d = d + 4 * (rx - ry) + 10;
                ry = ry - 1;
            }
            rx = rx + 1;
        }
        proof {
            assert forall|u: int, v: int| #[trigger]
                in_disc(r as int, u, v) == disc_before(r as int, rx as int, u, v) by {
                if in_disc(r as int, u, v) {
                    let k = choose|k: int| #[trigger] disc_step(r as int, k, u, v);
                    if k >= rx {
                        lemma_circle_y_falls(r as int, rx as int, k);
                    }
                }
            }
            assert(self@ =~~= before.paint(disc(x as int, y as int, r as int), pixel));
        }
    }
}

} // verus!
