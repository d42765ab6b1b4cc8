//! The mathematical model of a canvas: a rectangle of pixels.

use vstd::prelude::*;
use crate::pixel::Pixel;

verus! {

/// A rectangle of pixels, `width` columns wide, given row by row from the top.
#[verifier::ext_equal]
pub struct Grid {
    pub width: nat,
    pub rows: Seq<Seq<Pixel>>,
}

impl Grid {
    /// The number of rows.
    pub open spec fn height(self) -> nat {
        self.rows.len()
    }

    /// Every row is `width` pixels long.
    pub open spec fn wf(self) -> bool {
        forall|y: int| 0 <= y < self.rows.len() ==> (#[trigger] self.rows[y]).len() == self.width
    }

    /// Column `x` of row `y` lies on the grid.
    pub open spec fn contains(self, x: int, y: int) -> bool {
        0 <= x < self.width && 0 <= y < self.height()
    }

    /// The pixel in column `x` of row `y`.
    pub open spec fn at(self, x: int, y: int) -> Pixel
        recommends
            self.contains(x, y),
    {
        self.rows[y][x]
    }

    /// The grid of the given size whose pixel at `(x, y)` is `f(x, y)`.
    pub open spec fn build(width: nat, height: nat, f: spec_fn(int, int) -> Pixel) -> Grid {
        Grid { width, rows: Seq::new(height, |y: int| Seq::new(width, |x: int| f(x, y))) }
    }

    /// The grid of the given size that shows `p` everywhere.
    pub open spec fn filled(width: nat, height: nat, p: Pixel) -> Grid {
        Grid::build(width, height, |x: int, y: int| p)
    }

    /// This grid with `p` at `(x, y)`; the grid itself where `(x, y)` lies outside.
    pub open spec fn set(self, x: int, y: int, p: Pixel) -> Grid {
        Grid::build(
            self.width,
            self.height(),
            |cx: int, cy: int|
                if cx == x && cy == y {
                    p
                } else {
                    self.at(cx, cy)
                },
        )
    }

    /// This grid with `p` at every position of `region`.
    pub open spec fn paint(self, region: spec_fn(int, int) -> bool, p: Pixel) -> Grid {
        Grid::build(
            self.width,
            self.height(),
            |cx: int, cy: int|
                if region(cx, cy) {
                    p
                } else {
                    self.at(cx, cy)
                },
        )
    }

    /// This grid cut or extended to the given size: what lay inside both
    /// sizes stays where it was, every other pixel is blank.
    pub open spec fn resized(self, width: nat, height: nat) -> Grid {
        Grid::build(
            width,
            height,
            |cx: int, cy: int|
                if self.contains(cx, cy) {
                    self.at(cx, cy)
                } else {
                    Pixel::blank()
                },
        )
    }

    /// This grid with `other` copied onto it, the top left pixel of `other`
    /// at `(dx, dy)`; what falls outside this grid is dropped.
    pub open spec fn stamped(self, dx: int, dy: int, other: Grid) -> Grid {
        Grid::build(
            self.width,
            self.height(),
            |cx: int, cy: int|
                if other.contains(cx - dx, cy - dy) {
                    other.at(cx - dx, cy - dy)
                } else {
                    self.at(cx, cy)
                },
        )
    }

    /// What a stamp has reached when the rows of `other` above `row` and the
    /// pixels of row `row` left of `col` are copied.
    pub open spec fn stamped_upto(self, dx: int, dy: int, other: Grid, row: int, col: int) -> Grid {
        Grid::build(
            self.width,
            self.height(),
            |cx: int, cy: int|
                if other.contains(cx - dx, cy - dy) && (cy - dy < row || (cy - dy == row && cx - dx
                    < col)) {
                    other.at(cx - dx, cy - dy)
                } else {
                    self.at(cx, cy)
                },
        )
    }

    /// This grid with `text` written from `(x, y)` to the right, one plain
    /// pixel for each character and without wrapping.
    pub open spec fn printed(self, x: int, y: int, text: Seq<char>) -> Grid {
        Grid::build(
            self.width,
            self.height(),
            |cx: int, cy: int|
                if cy == y && 0 <= cx - x < text.len() {
                    Pixel::plain(text[cx - x])
                } else {
                    self.at(cx, cy)
                },
        )
    }

    /// What printing `text` has reached when its first `count` characters are
    /// written.
    pub open spec fn printed_upto(self, x: int, y: int, text: Seq<char>, count: int) -> Grid {
        Grid::build(
            self.width,
            self.height(),
            |cx: int, cy: int|
                if cy == y && 0 <= cx - x < text.len() && cx - x < count {
                    Pixel::plain(text[cx - x])
                } else {
                    self.at(cx, cy)
                },
        )
    }

    /// A pixel that was set on the grid is read back from the same position,
    /// and every other position keeps its pixel.
    pub proof fn lemma_set_then_get(self, x: int, y: int, p: Pixel)
        requires
            self.wf(),
            self.contains(x, y),
        ensures
            self.set(x, y, p).wf(),
            self.set(x, y, p).at(x, y) == p,
            forall|cx: int, cy: int|
                self.contains(cx, cy) && !(cx == x && cy == y) ==> #[trigger] self.set(x, y, p).at(
                    cx,
                    cy,
                ) == self.at(cx, cy),
    {
    }

    /// Setting a pixel outside the grid changes nothing.
    pub proof fn lemma_set_outside(self, x: int, y: int, p: Pixel)
        requires
            self.wf(),
            !self.contains(x, y),
        ensures
            self.set(x, y, p) == self,
    {
        assert(self.set(x, y, p) =~~= self);
    }

    /// Stamping the same grid at the same place a second time changes nothing.
    pub proof fn lemma_stamp_idempotent(self, dx: int, dy: int, other: Grid)
        ensures
            self.stamped(dx, dy, other).stamped(dx, dy, other) == self.stamped(dx, dy, other),
    {
        assert(self.stamped(dx, dy, other).stamped(dx, dy, other) =~~= self.stamped(
            dx,
            dy,
            other,
        ));
    }

    /// Resizing a grid and then resizing it back keeps what lay inside both
    /// sizes and leaves every other pixel blank.
    pub proof fn lemma_resize_back(self, width: nat, height: nat)
        requires
            self.wf(),
        ensures
            self.resized(width, height).resized(self.width, self.height()) == Grid::build(
                self.width,
                self.height(),
                |x: int, y: int|
                    if x < width && y < height {
                        self.at(x, y)
                    } else {
                        Pixel::blank()
                    },
            ),
    {
        assert(self.resized(width, height).resized(self.width, self.height()) =~~= Grid::build(
            self.width,
            self.height(),
            |x: int, y: int|
                if x < width && y < height {
                    self.at(x, y)
                } else {
                    Pixel::blank()
                },
        ));
    }
}

} // verus!
