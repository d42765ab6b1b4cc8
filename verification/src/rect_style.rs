//! Border styles: the six pixels a framed rectangle is drawn with.

use vstd::prelude::*;
use crate::pixel::{Color, Pixel, pxl_plain};

verus! {

/// The pixels of a framed rectangle: its four corners and its two kinds of edge.
#[derive(Debug, Clone, Copy, PartialEq, Eq, Structural)]
pub struct BorderStyle {
    pub corner_top_left: Pixel,
    pub corner_top_right: Pixel,
    pub corner_bottom_left: Pixel,
    pub corner_bottom_right: Pixel,
    /// The pixel of the top and the bottom edge.
    pub top_bottom: Pixel,
    /// The pixel of the left and the right edge.
    pub left_right: Pixel,
}

impl BorderStyle {
    /// The style whose pixels show the given characters in the default colors.
    pub open spec fn of_chars(
        top_left: char,
        top_right: char,
        bottom_left: char,
        bottom_right: char,
        top_bottom: char,
        left_right: char,
    ) -> BorderStyle {
        BorderStyle {
            corner_top_left: Pixel::plain(top_left),
            corner_top_right: Pixel::plain(top_right),
            corner_bottom_left: Pixel::plain(bottom_left),
            corner_bottom_right: Pixel::plain(bottom_right),
            top_bottom: Pixel::plain(top_bottom),
            left_right: Pixel::plain(left_right),
        }
    }

    /// This style with the colors of all six pixels replaced; characters and
    /// text styles stay.
    pub open spec fn recolored(self, fg: Color, bg: Color) -> BorderStyle {
        BorderStyle {
            corner_top_left: self.corner_top_left.recolored(fg, bg),
            corner_top_right: self.corner_top_right.recolored(fg, bg),
            corner_bottom_left: self.corner_bottom_left.recolored(fg, bg),
            corner_bottom_right: self.corner_bottom_right.recolored(fg, bg),
            top_bottom: self.top_bottom.recolored(fg, bg),
            left_right: self.left_right.recolored(fg, bg),
        }
    }

    /// A border of the ASCII characters `+`, `-` and `|`.
    pub fn new_simple() -> (s: BorderStyle)
        ensures
            s == BorderStyle::of_chars('+', '+', '+', '+', '-', '|'),
    {
        BorderStyle {
            corner_top_right: pxl_plain('+'),
            corner_top_left: pxl_plain('+'),
            corner_bottom_left: pxl_plain('+'),
            corner_bottom_right: pxl_plain('+'),
            top_bottom: pxl_plain('-'),
            left_right: pxl_plain('|'),
        }
    }

    /// A border made of the full block character alone.
    pub fn new_solid() -> (s: BorderStyle)
        ensures
            s == BorderStyle::of_chars('█', '█', '█', '█', '█', '█'),
    {
        BorderStyle {
            corner_top_right: pxl_plain('█'),
            corner_top_left: pxl_plain('█'),
            corner_bottom_left: pxl_plain('█'),
            corner_bottom_right: pxl_plain('█'),
            top_bottom: pxl_plain('█'),
            left_right: pxl_plain('█'),
        }
    }

    /// A border of light box-drawing characters.
    pub fn new_light() -> (s: BorderStyle)
        ensures
            s == BorderStyle::of_chars('┌', '┐', '└', '┘', '─', '│'),
    {
        BorderStyle {
            corner_top_right: pxl_plain('┐'),
            corner_top_left: pxl_plain('┌'),
            corner_bottom_left: pxl_plain('└'),
            corner_bottom_right: pxl_plain('┘'),
            top_bottom: pxl_plain('─'),
            left_right: pxl_plain('│'),
        }
    }

    /// A border of heavy box-drawing characters.
    pub fn new_heavy() -> (s: BorderStyle)
        ensures
            s == BorderStyle::of_chars('┏', '┓', '┗', '┛', '━', '┃'),
    {
        BorderStyle {
            corner_top_right: pxl_plain('┓'),
            corner_top_left: pxl_plain('┏'),
            corner_bottom_left: pxl_plain('┗'),
            corner_bottom_right: pxl_plain('┛'),
            top_bottom: pxl_plain('━'),
            left_right: pxl_plain('┃'),
        }
    }

    /// A border of double box-drawing characters.
    pub fn new_double() -> (s: BorderStyle)
        ensures
            s == BorderStyle::of_chars('╔', '╗', '╚', '╝', '═', '║'),
    {
        BorderStyle {
            corner_top_right: pxl_plain('╗'),
            corner_top_left: pxl_plain('╔'),
            corner_bottom_left: pxl_plain('╚'),
            corner_bottom_right: pxl_plain('╝'),
            top_bottom: pxl_plain('═'),
            left_right: pxl_plain('║'),
        }
    }

    /// The border of a window's title bar: a double border whose lower corners
    /// join the frame of the window below it.
    pub fn new_titlebar() -> (s: BorderStyle)
        ensures
            s == BorderStyle::of_chars('╔', '╗', '╠', '╣', '═', '║'),
    {
        BorderStyle {
            corner_top_right: pxl_plain('╗'),
            corner_top_left: pxl_plain('╔'),
            corner_bottom_left: pxl_plain('╠'),
            corner_bottom_right: pxl_plain('╣'),
            top_bottom: pxl_plain('═'),
            left_right: pxl_plain('║'),
        }
    }

    /// A border of six pixels of the caller's choice.
    pub fn new(
        corner_top_left: Pixel,
        corner_top_right: Pixel,
        corner_bottom_left: Pixel,
        corner_bottom_right: Pixel,
        top_bottom: Pixel,
        left_right: Pixel,
    ) -> (s: BorderStyle)
        ensures
            s == (BorderStyle {
                corner_top_left,
                corner_top_right,
                corner_bottom_left,
                corner_bottom_right,
                top_bottom,
                left_right,
            }),
    {
        BorderStyle {
            corner_top_right,
            corner_top_left,
            corner_bottom_left,
            corner_bottom_right,
            top_bottom,
            left_right,
        }
    }

    /// A copy of this border in other colors.
    pub fn with_colors(self, fg: Color, bg: Color) -> (s: BorderStyle)
        ensures
            s == self.recolored(fg, bg),
    {
        let mut s = self;
        s.corner_top_right.fg = fg;
        s.corner_top_right.bg = bg;
        s.corner_top_left.fg = fg;
        s.corner_top_left.bg = bg;
        s.corner_bottom_left.fg = fg;
        s.corner_bottom_left.bg = bg;
        s.corner_bottom_right.fg = fg;
        s.corner_bottom_right.bg = bg;
        s.top_bottom.fg = fg;
        s.top_bottom.bg = bg;
        s.left_right.fg = fg;
        s.left_right.bg = bg;
        s
    }
}

} // verus!
