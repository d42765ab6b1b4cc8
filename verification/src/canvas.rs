//! The canvas: a grid of pixels that can be drawn on and composed.

use vstd::prelude::*;
use crate::grid::Grid;
use crate::pixel::Pixel;

verus! {

/// A rectangle of pixels, `width` columns by `height` rows.
pub struct Canvas {
    width: u32,
    height: u32,
    cells: Vec<Vec<Pixel>>,
}

impl View for Canvas {
    type V = Grid;

    closed spec fn view(&self) -> Grid {
        Grid {
            width: self.width as nat,
            rows: Seq::new(self.cells.len() as nat, |y: int| self.cells[y]@),
        }
    }
}

impl Canvas {
    /// The stored rows match the stored size.
    pub closed spec fn wf(&self) -> bool {
        &&& self.cells.len() == self.height
        &&& forall|y: int| 0 <= y < self.cells.len() ==> (#[trigger] self.cells[y]).len() == self.width
    }

    /// The grid of a well-formed canvas is well-formed and no larger than
    /// `u32` allows.
    pub broadcast proof fn lemma_wf(&self)
        requires
            #[trigger] self.wf(),
        ensures
            self@.wf(),
            self@.width <= u32::MAX,
            self@.height() <= u32::MAX,
    {
    }

    /// A canvas of the given size, blank everywhere.
    pub fn new(width: u32, height: u32) -> (c: Canvas)
        ensures
            c.wf(),
            c@ == Grid::filled(width as nat, height as nat, Pixel::blank()),
    {
        Canvas::new_filled(width, height, Pixel::default())
    }

    /// A canvas of the given size that shows `pixel` everywhere.
    pub fn new_filled(width: u32, height: u32, pixel: Pixel) -> (c: Canvas)
        ensures
            c.wf(),
            c@ == Grid::filled(width as nat, height as nat, pixel),
    {
        let mut cells: Vec<Vec<Pixel>> = Vec::new();
        let mut y: u32 = 0;
        while y < height
            invariant
                y <= height,
                cells.len() == y,
                forall|j: int| 0 <= j < y ==> (#[trigger] cells[j])@ == Seq::new(width as nat, |x: int| pixel),
            decreases height - y,
        {
            let mut row: Vec<Pixel> = Vec::new();
            let mut x: u32 = 0;
            while x < width
                invariant
                    x <= width,
                    row@ == Seq::new(x as nat, |i: int| pixel),
                decreases width - x,
            {
                row.push(pixel);
                x += 1;
            }
            cells.push(row);
            y += 1;
        }
        let c = Canvas { width, height, cells };
        assert(c@ =~~= Grid::filled(width as nat, height as nat, pixel));
        c
    }

    /// The number of columns.
    pub fn get_width(&self) -> (w: u32)
        requires
            self.wf(),
        ensures
            w == self@.width,
    {
        self.width
    }

    /// The number of rows.
    pub fn get_height(&self) -> (h: u32)
        requires
            self.wf(),
        ensures
            h == self@.height(),
    {
        self.height
    }

    /// The pixel at `(x, y)`, or nothing where `(x, y)` lies outside the canvas.
    pub fn get_cell(&self, x: i32, y: i32) -> (p: Option<Pixel>)
        requires
            self.wf(),
        ensures
            p == if self@.contains(x as int, y as int) {
                Some(self@.at(x as int, y as int))
            } else {
                None
            },
    {
        if x >= 0 && y >= 0 && (x as u32) < self.width && (y as u32) < self.height {
            Some(self.cells[y as usize][x as usize])
        } else {
            None
        }
    }

    /// Puts `pixel` at `(x, y)`. Outside the canvas nothing happens.
    pub fn set_cell(&mut self, x: i32, y: i32, pixel: Pixel)
        requires
            old(self).wf(),
        ensures
            final(self).wf(),
            final(self)@ == old(self)@.set(x as int, y as int, pixel),
    {
        if x >= 0 && y >= 0 && (x as u32) < self.width && (y as u32) < self.height {
            self.cells[y as usize][x as usize] = pixel;
        }
        assert(self@ =~~= old(self)@.set(x as int, y as int, pixel));
    }

    /// Puts `pixel` at `(x, y)`, for coordinates of any size.
    pub(crate) fn put(&mut self, x: i64, y: i64, pixel: Pixel)
        requires
            old(self).wf(),
        ensures
            final(self).wf(),
            final(self)@ == old(self)@.set(x as int, y as int, pixel),
    {
        if x >= 0 && y >= 0 && x < self.width as i64 && y < self.height as i64 {
            self.cells[y as usize][x as usize] = pixel;
        }
        assert(self@ =~~= old(self)@.set(x as int, y as int, pixel));
    }

    /// Changes the size of the canvas. What lay inside both the old and the
    /// new size stays where it was; every other pixel is blank.
    pub fn resize(&mut self, width: u32, height: u32)
        requires
            old(self).wf(),
        ensures
            final(self).wf(),
            final(self)@ == old(self)@.resized(width as nat, height as nat),
    {
        let ghost before = self@;
        let mut cells: Vec<Vec<Pixel>> = Vec::new();
        let mut y: u32 = 0;
        while y < height
            invariant
                self.wf(),
                self@ == before,
                y <= height,
                cells.len() == y,
                forall|j: int|
                    0 <= j < y ==> (#[trigger] cells[j])@ == before.resized(
                        width as nat,
                        height as nat,
                    ).rows[j],
            decreases height - y,
        {
            let mut row: Vec<Pixel> = Vec::new();
            let mut x: u32 = 0;
            while x < width
                invariant
                    self.wf(),
                    self@ == before,
                    y < height,
                    x <= width,
                    row.len() == x,
                    forall|i: int|
                        0 <= i < x ==> #[trigger] row[i] == before.resized(
                            width as nat,
                            height as nat,
                        ).at(i, y as int),
                decreases width - x,
            {
                let kept = x < self.width && y < self.height;
                let pixel = if kept {
                    self.cells[y as usize][x as usize]
                } else {
                    Pixel::default()
                };
                row.push(pixel);
                x += 1;
            }
            cells.push(row);
            y += 1;
        }
        self.width = width;
        self.height = height;
        self.cells = cells;
    }

    /// Copies `other` onto this canvas, its top left pixel at
    /// `(dest_x, dest_y)`. What falls outside this canvas is dropped.
    pub fn stamp(&mut self, dest_x: i32, dest_y: i32, other: &Canvas)
        requires
            old(self).wf(),
            other.wf(),
        ensures
            final(self).wf(),
            final(self)@ == old(self)@.stamped(dest_x as int, dest_y as int, other@),
    {
        let ghost before = self@;
        let ghost src = other@;
        let ghost dx = dest_x as int;
        let ghost dy = dest_y as int;
        let mut j: u32 = 0;
        assert(self@ =~~= before.stamped_upto(dx, dy, src, 0, 0));
        while j < other.height
            invariant
                self.wf(),
                other.wf(),
                src == other@,
                dx == dest_x,
                dy == dest_y,
                j <= other.height,
                self@ == before.stamped_upto(dx, dy, src, j as int, 0),
            decreases other.height - j,
        {
            let mut i: u32 = 0;
            while i < other.width
                invariant
                    self.wf(),
                    other.wf(),
                    src == other@,
                    dx == dest_x,
                    dy == dest_y,
                    j < other.height,
                    i <= other.width,
                    self@ == before.stamped_upto(dx, dy, src, j as int, i as int),
                decreases other.width - i,
            {
                let pixel = other.cells[j as usize][i as usize];
                self.put(dest_x as i64 + i as i64, dest_y as i64 + j as i64, pixel);
                assert(self@ =~~= before.stamped_upto(dx, dy, src, j as int, i + 1));
                i += 1;
            }
            assert(self@ =~~= before.stamped_upto(dx, dy, src, j + 1, 0));
            j += 1;
        }
        assert(self@ =~~= before.stamped(dx, dy, src));
    }
}

} // verus!
