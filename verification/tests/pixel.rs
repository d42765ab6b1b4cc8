use console_engine::pixel::{pxl, pxl_plain, Color, Pixel, Style};
use console_engine::rect_style::BorderStyle;

#[test]
fn default_style_is_plain() {
    let s = Style::default();
    assert_eq!(s, Style { bold: false, italic: false, underlined: false, strikethrough: false });
}

#[test]
fn default_pixel_is_a_space_in_default_colors() {
    let p = Pixel::default();
    assert_eq!(p.chr, ' ');
    assert_eq!(p.get_colors(), (Color::Reset, Color::Reset));
    assert_eq!(p.get_style(), Style::default());
}

#[test]
fn pxl_takes_what_is_given() {
    let bold = Style { bold: true, italic: false, underlined: false, strikethrough: false };
    let p = pxl('X', Some(Color::White), Some(Color::Red), Some(bold));
    assert_eq!(p, Pixel { fg: Color::White, bg: Color::Red, chr: 'X', style: bold });
    assert_eq!(p.get_colors(), (Color::White, Color::Red));
    assert_eq!(p.get_style(), bold);
}

#[test]
fn pxl_fills_in_what_is_absent() {
    assert_eq!(pxl('a', None, None, None), pxl_plain('a'));
    assert_eq!(
        pxl('a', None, Some(Color::Rgb { r: 1, g: 2, b: 3 }), None),
        Pixel {
            fg: Color::Reset,
            bg: Color::Rgb { r: 1, g: 2, b: 3 },
            chr: 'a',
            style: Style::default()
        }
    );
    assert_eq!(
        pxl('a', Some(Color::AnsiValue(7)), None, None).get_colors(),
        (Color::AnsiValue(7), Color::Reset)
    );
}

#[test]
fn pxl_plain_is_unstyled() {
    let p = pxl_plain('#');
    assert_eq!(p, Pixel { fg: Color::Reset, bg: Color::Reset, chr: '#', style: Style::default() });
}

fn chars(s: &BorderStyle) -> [char; 6] {
    [
        s.corner_top_left.chr,
        s.corner_top_right.chr,
        s.corner_bottom_left.chr,
        s.corner_bottom_right.chr,
        s.top_bottom.chr,
        s.left_right.chr,
    ]
}

#[test]
fn border_presets() {
    assert_eq!(chars(&BorderStyle::new_simple()), ['+', '+', '+', '+', '-', '|']);
    assert_eq!(chars(&BorderStyle::new_solid()), ['█', '█', '█', '█', '█', '█']);
    assert_eq!(chars(&BorderStyle::new_light()), ['┌', '┐', '└', '┘', '─', '│']);
    assert_eq!(chars(&BorderStyle::new_heavy()), ['┏', '┓', '┗', '┛', '━', '┃']);
    assert_eq!(chars(&BorderStyle::new_double()), ['╔', '╗', '╚', '╝', '═', '║']);
    assert_eq!(chars(&BorderStyle::new_titlebar()), ['╔', '╗', '╠', '╣', '═', '║']);
    for s in [BorderStyle::new_simple(), BorderStyle::new_titlebar()] {
        for p in [
            s.corner_top_left,
            s.corner_top_right,
            s.corner_bottom_left,
            s.corner_bottom_right,
            s.top_bottom,
            s.left_right,
        ] {
            assert_eq!(p, pxl_plain(p.chr));
        }
    }
}

#[test]
fn border_new_keeps_each_pixel_in_its_place() {
    let s = BorderStyle::new(
        pxl_plain('1'),
        pxl_plain('2'),
        pxl_plain('3'),
        pxl_plain('4'),
        pxl_plain('5'),
        pxl_plain('6'),
    );
    assert_eq!(chars(&s), ['1', '2', '3', '4', '5', '6']);
}

#[test]
fn with_colors_recolors_a_copy() {
    let bold = Style { bold: true, italic: false, underlined: false, strikethrough: false };
    let base = BorderStyle::new(
        pxl('1', Some(Color::Red), None, Some(bold)),
        pxl_plain('2'),
        pxl_plain('3'),
        pxl_plain('4'),
        pxl_plain('5'),
        pxl_plain('6'),
    );
    let derived = base.with_colors(Color::White, Color::Blue);
    assert_eq!(chars(&derived), ['1', '2', '3', '4', '5', '6']);
    for p in [
        derived.corner_top_left,
        derived.corner_top_right,
        derived.corner_bottom_left,
        derived.corner_bottom_right,
        derived.top_bottom,
        derived.left_right,
    ] {
        assert_eq!(p.get_colors(), (Color::White, Color::Blue));
    }
    assert_eq!(derived.corner_top_left.style, bold);
    assert_eq!(base.corner_top_left.get_colors(), (Color::Red, Color::Reset));
    assert_eq!(base.top_bottom, pxl_plain('5'));
}
