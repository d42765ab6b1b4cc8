//! Drawing primitives of the canvas: segments, rectangles, lines, discs and text.
//!
//! Every primitive is stated as the set of positions it paints. Positions
//! outside the canvas are dropped, so no primitive can fail.

use vstd::prelude::*;
use crate::canvas::Canvas;
use crate::grid::Grid;
use crate::pixel::{Pixel, pxl_plain};
use vstd::std_specs::iter::IteratorSpec;
use crate::rect_style::BorderStyle;

verus! {

/// `v` lies between `a` and `b`, whichever of the two is the smaller.
pub open spec fn between(v: int, a: int, b: int) -> bool {
    (a <= v <= b) || (b <= v <= a)
}

/// The positions of row `y` from column `x1` to column `x2`, both included.
pub open spec fn h_segment(x1: int, y: int, x2: int) -> spec_fn(int, int) -> bool {
    |cx: int, cy: int| cy == y && between(cx, x1, x2)
}

/// The positions of column `x` from row `y1` to row `y2`, both included.
pub open spec fn v_segment(x: int, y1: int, y2: int) -> spec_fn(int, int) -> bool {
    |cx: int, cy: int| cx == x && between(cy, y1, y2)
}

/// The outline of the rectangle with corners `(x1, y1)` and `(x2, y2)`.
pub open spec fn rect_outline(x1: int, y1: int, x2: int, y2: int) -> spec_fn(int, int) -> bool {
    |cx: int, cy: int|
        (between(cx, x1, x2) && (cy == y1 || cy == y2)) || (between(cy, y1, y2) && (cx == x1 || cx
            == x2))
}

/// `v` lies between `a` and `b` and is neither of them.
pub open spec fn strictly_between(v: int, a: int, b: int) -> bool {
    (a < v < b) || (b < v < a)
}

/// The pixel that a framed rectangle puts at `(cx, cy)`, if any. The four
/// corners come first, the bottom ones before the top ones and the right ones
/// before the left ones where corners fall on one position. The edges run
/// between the corners and never take a corner's place.
pub open spec fn border_pixel(
    x1: int,
    y1: int,
    x2: int,
    y2: int,
    style: BorderStyle,
    cx: int,
    cy: int,
) -> Option<Pixel> {
    if cx == x2 && cy == y2 {
        Some(style.corner_bottom_right)
    } else if cx == x1 && cy == y2 {
        Some(style.corner_bottom_left)
    } else if cx == x2 && cy == y1 {
        Some(style.corner_top_right)
    } else if cx == x1 && cy == y1 {
        Some(style.corner_top_left)
    } else if (cx == x1 || cx == x2) && strictly_between(cy, y1, y2) {
        Some(style.left_right)
    } else if (cy == y1 || cy == y2) && strictly_between(cx, x1, x2) {
        Some(style.top_bottom)
    } else {
        None
    }
}

/// The grid `g` with a framed rectangle drawn on it.
pub open spec fn bordered(g: Grid, x1: int, y1: int, x2: int, y2: int, style: BorderStyle) -> Grid {
    Grid::build(
        g.width,
        g.height(),
        |cx: int, cy: int|
            match border_pixel(x1, y1, x2, y2, style, cx, cy) {
                Some(p) => p,
                None => g.at(cx, cy),
            },
    )
}

/// The columns `lo <= cx < hi` of row `y`.
spec fn row_part(y: int, lo: int, hi: int) -> spec_fn(int, int) -> bool {
    |cx: int, cy: int| cy == y && lo <= cx < hi
}

/// The rows `lo <= cy < hi` of column `x`.
spec fn col_part(x: int, lo: int, hi: int) -> spec_fn(int, int) -> bool {
    |cx: int, cy: int| cx == x && lo <= cy < hi
}

/// The largest coordinate the drawing helpers compute with.
pub(crate) const REACH: i64 = 0x100_0000_0000;

impl Canvas {
    /// Paints row `y` from column `xa` to column `xb`.
    pub(crate) fn paint_row(&mut self, xa: i64, xb: i64, y: i64, pixel: Pixel)
        requires
            old(self).wf(),
            -REACH <= xa <= REACH,
            -REACH <= xb <= REACH,
        ensures
            final(self).wf(),
            final(self)@ == old(self)@.paint(h_segment(xa as int, y as int, xb as int), pixel),
    {
        broadcast use Canvas::lemma_wf;

        let ghost before = self@;
        let width = self.get_width() as i64;
        let height = self.get_height() as i64;
        let first = if xa <= xb { xa } else { xb };
        let last = if xa <= xb { xb } else { xa };
        let lo = if first < 0 { 0 } else { first };
        let hi = if last >= width { width - 1 } else { last };
        if 0 <= y && y < height {
            let mut x = lo;
            assert(self@ =~~= before.paint(row_part(y as int, lo as int, x as int), pixel));
            while x <= hi
                invariant
                    self.wf(),
                    0 <= lo <= x,
                    x <= hi + 1 || x == lo,
                    hi < width,
                    width == before.width,
                    self@ == before.paint(row_part(y as int, lo as int, x as int), pixel),
                decreases hi + 1 - x,
            {
                self.put(x, y, pixel);
                assert(self@ =~~= before.paint(row_part(y as int, lo as int, x + 1), pixel));
                x += 1;
            }
        }
        assert(self@ =~~= before.paint(h_segment(xa as int, y as int, xb as int), pixel));
    }

    /// Paints column `x` from row `ya` to row `yb`.
    pub(crate) fn paint_col(&mut self, x: i64, ya: i64, yb: i64, pixel: Pixel)
        requires
            old(self).wf(),
            -REACH <= ya <= REACH,
            -REACH <= yb <= REACH,
        ensures
            final(self).wf(),
            final(self)@ == old(self)@.paint(v_segment(x as int, ya as int, yb as int), pixel),
    {
        broadcast use Canvas::lemma_wf;

        let ghost before = self@;
        let width = self.get_width() as i64;
        let height = self.get_height() as i64;
        let first = if ya <= yb { ya } else { yb };
        let last = if ya <= yb { yb } else { ya };
        let lo = if first < 0 { 0 } else { first };
        let hi = if last >= height { height - 1 } else { last };
        if 0 <= x && x < width {
            let mut y = lo;
            assert(self@ =~~= before.paint(col_part(x as int, lo as int, y as int), pixel));
            while y <= hi
                invariant
                    self.wf(),
                    0 <= lo <= y,
                    y <= hi + 1 || y == lo,
                    hi < height,
                    height == before.height(),
                    self@ == before.paint(col_part(x as int, lo as int, y as int), pixel),
                decreases hi + 1 - y,
            {
                self.put(x, y, pixel);
                assert(self@ =~~= before.paint(col_part(x as int, lo as int, y + 1), pixel));
                y += 1;
            }
        }
        assert(self@ =~~= before.paint(v_segment(x as int, ya as int, yb as int), pixel));
    }

    /// Draws a horizontal line in row `start_y`, from column `start_x` to
    /// column `end_x`.
    pub fn h_line(&mut self, start_x: i32, start_y: i32, end_x: i32, pixel: Pixel)
        requires
            old(self).wf(),
        ensures
            final(self).wf(),
            final(self)@ == old(self)@.paint(
                h_segment(start_x as int, start_y as int, end_x as int),
                pixel,
            ),
    {
        self.paint_row(start_x as i64, end_x as i64, start_y as i64, pixel);
    }

    /// Draws a vertical line in column `start_x`, from row `start_y` to row
    /// `end_y`.
    pub fn v_line(&mut self, start_x: i32, start_y: i32, end_y: i32, pixel: Pixel)
        requires
            old(self).wf(),
        ensures
            final(self).wf(),
            final(self)@ == old(self)@.paint(
                v_segment(start_x as int, start_y as int, end_y as int),
                pixel,
            ),
    {
        self.paint_col(start_x as i64, start_y as i64, end_y as i64, pixel);
    }

    /// Draws the outline of the rectangle with corners `(start_x, start_y)`
    /// and `(end_x, end_y)`.
    pub fn rect(&mut self, start_x: i32, start_y: i32, end_x: i32, end_y: i32, pixel: Pixel)
        requires
            old(self).wf(),
        ensures
            final(self).wf(),
            final(self)@ == old(self)@.paint(
                rect_outline(start_x as int, start_y as int, end_x as int, end_y as int),
                pixel,
            ),
    {
        broadcast use Canvas::lemma_wf;

        let ghost before = self@;
        self.paint_row(start_x as i64, end_x as i64, start_y as i64, pixel);
        self.paint_col(end_x as i64, start_y as i64, end_y as i64, pixel);
        self.paint_row(end_x as i64, start_x as i64, end_y as i64, pixel);
        self.paint_col(start_x as i64, end_y as i64, start_y as i64, pixel);
        assert(self@ =~~= before.paint(
            rect_outline(start_x as int, start_y as int, end_x as int, end_y as int),
            pixel,
        ));
    }

    /// Draws a framed rectangle with corners `(start_x, start_y)` and
    /// `(end_x, end_y)`: the edges between the corners, and the four corners,
    /// which no edge ever covers.
    pub fn rect_border(
        &mut self,
        start_x: i32,
        start_y: i32,
        end_x: i32,
        end_y: i32,
        style: BorderStyle,
    )
        requires
            old(self).wf(),
        ensures
            final(self).wf(),
            final(self)@ == bordered(
                old(self)@,
                start_x as int,
                start_y as int,
                end_x as int,
                end_y as int,
                style,
            ),
    {
        broadcast use Canvas::lemma_wf;

        let ghost before = self@;
        let x1 = start_x as i64;
        let y1 = start_y as i64;
        let x2 = end_x as i64;
        let y2 = end_y as i64;
        let left = if x1 <= x2 { x1 } else { x2 };
        let right = if x1 <= x2 { x2 } else { x1 };
        let top = if y1 <= y2 { y1 } else { y2 };
        let bottom = if y1 <= y2 { y2 } else { y1 };
        if left + 1 < right {
            self.paint_row(left + 1, right - 1, y1, style.top_bottom);
            self.paint_row(left + 1, right - 1, y2, style.top_bottom);
        }
        if top + 1 < bottom {
            self.paint_col(x1, top + 1, bottom - 1, style.left_right);
            self.paint_col(x2, top + 1, bottom - 1, style.left_right);
        }
        self.put(x1, y1, style.corner_top_left);
        self.put(x2, y1, style.corner_top_right);
        self.put(x1, y2, style.corner_bottom_left);
        self.put(x2, y2, style.corner_bottom_right);
        assert(self@ =~~= bordered(before, x1 as int, y1 as int, x2 as int, y2 as int, style));
    }

    /// Writes `text` from `(x, y)` to the right, one plain pixel for each
    /// character. The text is not wrapped: what passes the right edge is lost.
    pub fn print(&mut self, x: i32, y: i32, text: &str)
        requires
            old(self).wf(),
        ensures
            final(self).wf(),
            final(self)@ == old(self)@.printed(x as int, y as int, text@),
    {
        broadcast use Canvas::lemma_wf;

        let ghost before = self@;
        let width = self.get_width() as i64;
        let mut col: i64 = x as i64;
        let mut chars = text.chars();
        let ghost mut count: int = 0;
        assert(self@ =~~= before.printed_upto(x as int, y as int, text@, 0));
        loop
            invariant
                self.wf(),
                width == before.width,
                0 <= count <= text@.len(),
                col == x + count,
                col <= width || count == 0,
                chars.remaining() == text@.skip(count),
                self@ == before.printed_upto(x as int, y as int, text@, count),
            ensures
                col >= width || count == text@.len(),
            decreases text@.len() - count,
        {
            if col >= width {
                break;
            }
            match chars.next() {
                None => {
                    break;
                },
                Some(c) => {
                    self.put(col, y as i64, pxl_plain(c));
                    assert(self@ =~~= before.printed_upto(
                        x as int,
                        y as int,
                        text@,
                        count + 1,
                    ));
                    col += 1;
                    proof {
                        count = count + 1;
                    }
                },
            }
        }
        assert(self@ =~~= before.printed(x as int, y as int, text@));
    }
}

} // verus!
