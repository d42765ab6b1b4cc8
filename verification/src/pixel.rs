//! Characters, colors and text styles: the contents of one grid cell.

use vstd::prelude::*;

verus! {

/// A terminal color.
#[derive(Debug, Clone, Copy, PartialEq, Eq, Structural)]
pub enum Color {
    /// The terminal's own default color.
    Reset,
    Black,
    DarkGrey,
    Red,
    DarkRed,
    Green,
    DarkGreen,
    Yellow,
    DarkYellow,
    Blue,
    DarkBlue,
    Magenta,
    DarkMagenta,
    Cyan,
    DarkCyan,
    White,
    Grey,
    /// A color given by its red, green and blue parts.
    Rgb { r: u8, g: u8, b: u8 },
    /// A color of the 256-color palette.
    AnsiValue(u8),
}

/// Says whether a character is drawn bold, italic, underlined or struck through.
#[derive(Debug, Clone, Copy, PartialEq, Eq, Structural)]
pub struct Style {
    pub bold: bool,
    pub italic: bool,
    pub underlined: bool,
    pub strikethrough: bool,
}

impl Style {
    /// The style with every flag off.
    pub open spec fn plain() -> Style {
        Style { bold: false, italic: false, underlined: false, strikethrough: false }
    }
}

impl Default for Style {
    fn default() -> (s: Style)
        ensures
            s == Style::plain(),
    {
        Style { bold: false, italic: false, underlined: false, strikethrough: false }
    }
}

/// One cell of a grid: a character with its colors and style.
#[derive(Debug, Clone, Copy, PartialEq, Eq, Structural)]
pub struct Pixel {
    /// Foreground color.
    pub fg: Color,
    /// Background color.
    pub bg: Color,
    /// The character shown.
    pub chr: char,
    /// Bold, italic, underlined, struck through.
    pub style: Style,
}

impl Pixel {
    /// The pixel that shows `chr` in the terminal's default colors, unstyled.
    pub open spec fn plain(chr: char) -> Pixel {
        Pixel { fg: Color::Reset, bg: Color::Reset, chr, style: Style::plain() }
    }

    /// The empty cell: a space in the default colors.
    pub open spec fn blank() -> Pixel {
        Pixel::plain(' ')
    }

    /// This pixel with its two colors replaced.
    pub open spec fn recolored(self, fg: Color, bg: Color) -> Pixel {
        Pixel { fg, bg, chr: self.chr, style: self.style }
    }

    /// The foreground and the background color, in this order.
    pub fn get_colors(&self) -> (c: (Color, Color))
        ensures
            c == (self.fg, self.bg),
    {
        (self.fg, self.bg)
    }

    /// The style flags.
    pub fn get_style(&self) -> (s: Style)
        ensures
            s == self.style,
    {
        self.style
    }
}

impl Default for Pixel {
    fn default() -> (p: Pixel)
        ensures
            p == Pixel::blank(),
    {
        Pixel { fg: Color::Reset, bg: Color::Reset, chr: ' ', style: Style::default() }
    }
}

/// What `pxl` builds: absent colors stand for `Color::Reset`, an absent style
/// for the plain one.
pub open spec fn pxl_spec(
    chr: char,
    fg: Option<Color>,
    bg: Option<Color>,
    style: Option<Style>,
) -> Pixel {
    Pixel {
        fg: if fg is Some { fg->0 } else { Color::Reset },
        bg: if bg is Some { bg->0 } else { Color::Reset },
        chr,
        style: if style is Some { style->0 } else { Style::plain() },
    }
}

/// Builds a pixel from a character and, optionally, colors and a style.
pub fn pxl(chr: char, fg: Option<Color>, bg: Option<Color>, style: Option<Style>) -> (p: Pixel)
    ensures
        p == pxl_spec(chr, fg, bg, style),
{
    Pixel {
        fg: match fg {
            Some(c) => c,
            None => Color::Reset,
        },
        bg: match bg {
            Some(c) => c,
            None => Color::Reset,
        },
        chr,
        style: match style {
            Some(s) => s,
            None => Style::default(),
        },
    }
}

/// Builds the pixel that shows `chr` in the default colors, unstyled.
pub fn pxl_plain(chr: char) -> (p: Pixel)
    ensures
        p == Pixel::plain(chr),
{
    Pixel { fg: Color::Reset, bg: Color::Reset, chr, style: Style::default() }
}

} // verus!
