//! Overlapping windows that are moved, resized, focused and closed with the mouse.
//!
//! A window spans the columns `x ..= x + width` and the rows `y ..= y + height`
//! of the canvas it is drawn on. Its first three rows are the title bar, whose
//! last cell but one in the middle row is the close button; the frame below
//! holds the contents.

use vstd::prelude::*;
use crate::canvas::Canvas;
use crate::grid::Grid;
use crate::pixel::{Color, Pixel, pxl};
use crate::rect_style::BorderStyle;
use crate::saturate::{sat, sat_i32};
use crate::shapes::bordered;
use crate::bresenham::on_line;

verus! {

/// No window is narrower than this.
pub const MIN_WIDTH: i32 = 6;

/// No window is lower than this.
pub const MIN_HEIGHT: i32 = 4;

/// The larger of `a` and `b`.
pub open spec fn max_of(a: int, b: int) -> int {
    if a >= b {
        a
    } else {
        b
    }
}

/// The edge or corner a window is resized by.
#[derive(Debug, Clone, Copy, PartialEq, Eq, Structural)]
pub enum ResizeDir {
    Right,
    RightCorner,
    Left,
    LeftCorner,
    Bottom,
}

/// What the mouse is doing with a window. A gesture records where the button
/// went down and what the window looked like then; while the button is held,
/// the window follows from these anchors.
#[derive(Debug, Clone, Copy, PartialEq, Eq, Structural)]
pub enum Gesture {
    Idle,
    Moving { press_x: i32, press_y: i32, orig_x: i32, orig_y: i32 },
    Resizing {
        dir: ResizeDir,
        press_x: i32,
        press_y: i32,
        orig_x: i32,
        orig_y: i32,
        orig_width: i32,
        orig_height: i32,
    },
}

/// The mouse input of one frame, for the left button: where it went down,
/// where it is held and where it came up, each if it happened.
#[derive(Debug, Clone, Copy)]
pub struct MouseInput {
    pub pressed: Option<(i32, i32)>,
    pub held: Option<(i32, i32)>,
    pub released: Option<(i32, i32)>,
}

/// The mathematical model of a window.
#[verifier::ext_equal]
pub struct WindowView {
    pub title: Seq<char>,
    pub x: int,
    pub y: int,
    pub width: int,
    pub height: int,
    pub contents: Grid,
    pub gesture: Gesture,
    pub close: bool,
}

impl WindowView {
    /// The window is no smaller than the floors, lies in the range of `i32`,
    /// and its contents fill the frame.
    pub open spec fn wf(self) -> bool {
        &&& i32::MIN <= self.x <= i32::MAX
        &&& i32::MIN <= self.y <= i32::MAX
        &&& MIN_WIDTH <= self.width <= i32::MAX
        &&& MIN_HEIGHT <= self.height <= i32::MAX
        &&& self.contents.wf()
        &&& self.contents.width == self.width - 1
        &&& self.contents.height() == self.height - 3
    }

    /// The title bar: left, top, right and bottom, all included.
    pub open spec fn titlebar_area(self) -> (int, int, int, int) {
        (self.x, self.y, sat(self.x + self.width), sat(self.y + 2))
    }

    /// The frame below the title bar: left, top, right and bottom, all included.
    pub open spec fn window_area(self) -> (int, int, int, int) {
        (self.x, sat(self.y + 2), sat(self.x + self.width), sat(self.y + self.height))
    }

    /// The width and the height of the contents.
    pub open spec fn contents_size(self) -> (int, int) {
        (self.width - 1, self.height - 3)
    }

    /// The whole window: left, top, right and bottom, all included.
    pub open spec fn whole_window_area(self) -> (int, int, int, int) {
        (self.x, self.y, sat(self.x + self.width), sat(self.y + self.height))
    }

    /// The position of the close button.
    pub open spec fn x_button_loc(self) -> (int, int) {
        (sat(self.x + self.width - 1), sat(self.y + 1))
    }

    /// `(px, py)` lies on the window.
    pub open spec fn contains(self, px: int, py: int) -> bool {
        let a = self.whole_window_area();
        a.0 <= px <= a.2 && a.1 <= py <= a.3
    }

    /// `(px, py)` lies on the title bar.
    pub open spec fn on_titlebar(self, px: int, py: int) -> bool {
        let a = self.titlebar_area();
        a.0 <= px <= a.2 && a.1 <= py <= a.3
    }

    /// This window with another gesture.
    pub open spec fn with_gesture(self, gesture: Gesture) -> WindowView {
        WindowView { gesture, ..self }
    }

    /// The gesture of resizing by `dir` that starts at `(px, py)`.
    pub open spec fn resizing(self, dir: ResizeDir, px: int, py: int) -> Gesture {
        Gesture::Resizing {
            dir,
            press_x: px as i32,
            press_y: py as i32,
            orig_x: self.x as i32,
            orig_y: self.y as i32,
            orig_width: self.width as i32,
            orig_height: self.height as i32,
        }
    }

    /// The window after the button went down on it at `(px, py)`: on the
    /// close button it is marked for closing; elsewhere on the title bar it
    /// starts to move; on a lower corner, the bottom edge or a side edge it
    /// starts to resize; inside the frame nothing changes.
    pub open spec fn pressed(self, px: int, py: int) -> WindowView
        recommends
            self.contains(px, py),
    {
        let a = self.whole_window_area();
        if self.on_titlebar(px, py) {
            if (px, py) == self.x_button_loc() {
                WindowView { close: true, ..self }
            } else {
                self.with_gesture(
                    Gesture::Moving {
                        press_x: px as i32,
                        press_y: py as i32,
                        orig_x: self.x as i32,
                        orig_y: self.y as i32,
                    },
                )
            }
        } else if px == a.0 && py == a.3 {
            self.with_gesture(self.resizing(ResizeDir::LeftCorner, px, py))
        } else if px == a.2 && py == a.3 {
            self.with_gesture(self.resizing(ResizeDir::RightCorner, px, py))
        } else if py == a.3 {
            self.with_gesture(self.resizing(ResizeDir::Bottom, px, py))
        } else if px == a.0 {
            self.with_gesture(self.resizing(ResizeDir::Left, px, py))
        } else if px == a.2 {
            self.with_gesture(self.resizing(ResizeDir::Right, px, py))
        } else {
            self
        }
    }

    /// The button went down on the close button of this window.
    pub open spec fn closes_at(self, px: int, py: int) -> bool {
        self.on_titlebar(px, py) && (px, py) == self.x_button_loc()
    }

    /// This window with the given width and height, its contents resized to
    /// fill the frame.
    pub open spec fn with_size(self, width: int, height: int) -> WindowView {
        WindowView {
            width,
            height,
            contents: self.contents.resized((width - 1) as nat, (height - 3) as nat),
            ..self
        }
    }

    /// The window while the button is held at `(px, py)`: a moving window
    /// follows the mouse; a window that is resized follows with the edge it
    /// is resized by, never below the floors. Each value is taken from the
    /// anchors of the gesture, so a window at its floor grows again when the
    /// mouse turns back.
    pub open spec fn dragged(self, px: int, py: int) -> WindowView {
        match self.gesture {
            Gesture::Idle => self,
            Gesture::Moving { press_x, press_y, orig_x, orig_y } => WindowView {
                x: sat(orig_x + px - press_x),
                y: sat(orig_y + py - press_y),
                ..self
            },
            Gesture::Resizing { dir, press_x, press_y, orig_x, orig_y, orig_width, orig_height } => {
                let dx = px - press_x;
                let dy = py - press_y;
                let narrower = sat(max_of(MIN_WIDTH as int, orig_width - dx));
                let wider = sat(max_of(MIN_WIDTH as int, orig_width + dx));
                let higher = sat(max_of(MIN_HEIGHT as int, orig_height + dy));
                match dir {
                    ResizeDir::Left => WindowView { x: sat(orig_x + dx), ..self }.with_size(
                        narrower,
                        self.height,
                    ),
                    ResizeDir::Right => self.with_size(wider, self.height),
                    ResizeDir::Bottom => self.with_size(self.width, higher),
                    ResizeDir::LeftCorner => WindowView { x: sat(orig_x + dx), ..self }.with_size(
                        narrower,
                        higher,
                    ),
                    ResizeDir::RightCorner => self.with_size(wider, higher),
                }
            },
        }
    }

    /// The window after the button came up: no gesture goes on.
    pub open spec fn released(self) -> WindowView {
        self.with_gesture(Gesture::Idle)
    }
}

/// A window: a titled frame at a position, with a canvas as its contents.
pub struct Window {
    title: String,
    x: i32,
    y: i32,
    width: i32,
    height: i32,
    contents: Canvas,
    gesture: Gesture,
    close: bool,
}

impl View for Window {
    type V = WindowView;

    closed spec fn view(&self) -> WindowView {
        WindowView {
            title: self.title@,
            x: self.x as int,
            y: self.y as int,
            width: self.width as int,
            height: self.height as int,
            contents: self.contents@,
            gesture: self.gesture,
            close: self.close,
        }
    }
}

impl Window {
    /// The window and its canvas are well-formed.
    pub closed spec fn wf(&self) -> bool {
        self.contents.wf() && self@.wf()
    }

    /// The model of a well-formed window is well-formed.
    pub broadcast proof fn lemma_wf(&self)
        requires
            #[trigger] self.wf(),
        ensures
            self@.wf(),
    {
    }

    /// The title bar: left, top, right and bottom, all included.
    pub fn get_titlebar_area(&self) -> (a: (i32, i32, i32, i32))
        ensures
            (a.0 as int, a.1 as int, a.2 as int, a.3 as int) == self@.titlebar_area(),
    {
        (self.x, self.y, sat_i32(self.x as i64 + self.width as i64), sat_i32(self.y as i64 + 2))
    }

    /// The frame below the title bar: left, top, right and bottom, all included.
    pub fn get_window_area(&self) -> (a: (i32, i32, i32, i32))
        ensures
            (a.0 as int, a.1 as int, a.2 as int, a.3 as int) == self@.window_area(),
    {
        (
            self.x,
            sat_i32(self.y as i64 + 2),
            sat_i32(self.x as i64 + self.width as i64),
            sat_i32(self.y as i64 + self.height as i64),
        )
    }

    /// The width and the height of the contents.
    pub fn get_contents_size(&self) -> (s: (i32, i32))
        requires
            self.wf(),
        ensures
            (s.0 as int, s.1 as int) == self@.contents_size(),
    {
        (self.width - 1, self.height - 3)
    }

    /// The whole window: left, top, right and bottom, all included.
    pub fn get_whole_window_area(&self) -> (a: (i32, i32, i32, i32))
        ensures
            (a.0 as int, a.1 as int, a.2 as int, a.3 as int) == self@.whole_window_area(),
    {
        (
            self.x,
            self.y,
            sat_i32(self.x as i64 + self.width as i64),
            sat_i32(self.y as i64 + self.height as i64),
        )
    }

    /// The position of the close button.
    pub fn get_x_button_loc(&self) -> (p: (i32, i32))
        ensures
            (p.0 as int, p.1 as int) == self@.x_button_loc(),
    {
        (sat_i32(self.x as i64 + self.width as i64 - 1), sat_i32(self.y as i64 + 1))
    }

    /// The title.
    pub fn get_title(&self) -> (title: &str)
        ensures
            title@ == self@.title,
    {
        self.title.as_str()
    }

    /// The column and the row of the top left corner.
    pub fn get_position(&self) -> (p: (i32, i32))
        ensures
            p.0 == self@.x,
            p.1 == self@.y,
    {
        (self.x, self.y)
    }

    /// The width and the height.
    pub fn get_size(&self) -> (s: (i32, i32))
        ensures
            s.0 == self@.width,
            s.1 == self@.height,
    {
        (self.width, self.height)
    }

    /// What the mouse is doing with the window.
    pub fn get_gesture(&self) -> (g: Gesture)
        ensures
            g == self@.gesture,
    {
        self.gesture
    }

    /// Says whether the window is marked for closing.
    pub fn is_closing(&self) -> (closing: bool)
        ensures
            closing == self@.close,
    {
        self.close
    }

    /// The contents of the window.
    pub fn get_contents(&self) -> (contents: &Canvas)
        requires
            self.wf(),
        ensures
            contents.wf(),
            contents@ == self@.contents,
    {
        &self.contents
    }
}

impl Window {
    /// Says whether `(px, py)` lies on the window.
    fn contains(&self, px: i32, py: i32) -> (b: bool)
        ensures
            b == self@.contains(px as int, py as int),
    {
        let a = self.get_whole_window_area();
        px >= a.0 && px <= a.2 && py >= a.1 && py <= a.3
    }

    /// The gesture of resizing by `dir` that starts at `(px, py)`.
    fn start_resizing(&mut self, dir: ResizeDir, px: i32, py: i32)
        requires
            old(self).wf(),
        ensures
            final(self).wf(),
            final(self)@ == old(self)@.with_gesture(
                old(self)@.resizing(dir, px as int, py as int),
            ),
    {
        self.gesture = Gesture::Resizing {
            dir,
            press_x: px,
            press_y: py,
            orig_x: self.x,
            orig_y: self.y,
            orig_width: self.width,
            orig_height: self.height,
        };
    }

    /// Takes a press of the button at `(px, py)`, which lies on the window.
    /// Says whether the press hit the close button.
    fn press(&mut self, px: i32, py: i32) -> (closes: bool)
        requires
            old(self).wf(),
        ensures
            final(self).wf(),
            final(self)@ == old(self)@.pressed(px as int, py as int),
            closes == old(self)@.closes_at(px as int, py as int),
    {
        let a = self.get_whole_window_area();
        let t = self.get_titlebar_area();
        if px >= t.0 && px <= t.2 && py >= t.1 && py <= t.3 {
            let b = self.get_x_button_loc();
            if px == b.0 && py == b.1 {
                self.close = true;
                return true;
            } else {
                self.gesture = Gesture::Moving {
                    press_x: px,
                    press_y: py,
                    orig_x: self.x,
                    orig_y: self.y,
                };
            }
        } else if px == a.0 && py == a.3 {
            self.start_resizing(ResizeDir::LeftCorner, px, py);
        } else if px == a.2 && py == a.3 {
            self.start_resizing(ResizeDir::RightCorner, px, py);
        } else if py == a.3 {
            self.start_resizing(ResizeDir::Bottom, px, py);
        } else if px == a.0 {
            self.start_resizing(ResizeDir::Left, px, py);
        } else if px == a.2 {
            self.start_resizing(ResizeDir::Right, px, py);
        }
        false
    }

    /// Gives the window the given size and resizes its contents to fill the
    /// frame.
    fn set_size(&mut self, width: i32, height: i32)
        requires
            old(self).wf(),
            width >= MIN_WIDTH,
            height >= MIN_HEIGHT,
        ensures
            final(self).wf(),
            final(self)@ == old(self)@.with_size(width as int, height as int),
    {
        broadcast use Canvas::lemma_wf;

        self.width = width;
        self.height = height;
        self.contents.resize((width - 1) as u32, (height - 3) as u32);
    }

    /// Follows the mouse, held at `(px, py)`, with the gesture that goes on.
    fn drag(&mut self, px: i32, py: i32)
        requires
            old(self).wf(),
        ensures
            final(self).wf(),
            final(self)@ == old(self)@.dragged(px as int, py as int),
    {
        match self.gesture {
            Gesture::Idle => {},
            Gesture::Moving { press_x, press_y, orig_x, orig_y } => {
                self.x = sat_i32(orig_x as i64 + px as i64 - press_x as i64);
                self.y = sat_i32(orig_y as i64 + py as i64 - press_y as i64);
            },
            Gesture::Resizing { dir, press_x, press_y, orig_x, orig_y, orig_width, orig_height } => {
                let dx = px as i64 - press_x as i64;
                let dy = py as i64 - press_y as i64;
                let narrower = sat_i32(floor_at(MIN_WIDTH, orig_width as i64 - dx));
                let wider = sat_i32(floor_at(MIN_WIDTH, orig_width as i64 + dx));
                let higher = sat_i32(floor_at(MIN_HEIGHT, orig_height as i64 + dy));
                let height = self.height;
                let width = self.width;
                match dir {
                    ResizeDir::Left => {
                        self.x = sat_i32(orig_x as i64 + dx);
                        self.set_size(narrower, height);
                    },
                    ResizeDir::Right => {
                        self.set_size(wider, height);
                    },
                    ResizeDir::Bottom => {
                        self.set_size(width, higher);
                    },
                    ResizeDir::LeftCorner => {
                        self.x = sat_i32(orig_x as i64 + dx);
                        self.set_size(narrower, higher);
                    },
                    ResizeDir::RightCorner => {
                        self.set_size(wider, higher);
                    },
                }
            },
        }
    }

    /// Ends the gesture that goes on, if any.
    fn release(&mut self)
        requires
            old(self).wf(),
        ensures
            final(self).wf(),
            final(self)@ == old(self)@.released(),
    {
        self.gesture = Gesture::Idle;
    }

    /// Draws the window on `target`, in the colors of the window that has
    /// the focus where `focused` is set.
    fn draw_on(&self, target: &mut Canvas, focused: bool)
        requires
            self.wf(),
            old(target).wf(),
        ensures
            final(target).wf(),
            final(target)@ == drawn(old(target)@, self@, focused),
    {
        let mut title_style = BorderStyle::new_titlebar();
        let mut frame_style = BorderStyle::new_double();
        if focused {
            title_style = title_style.with_colors(Color::White, Color::Reset);
            frame_style = frame_style.with_colors(Color::White, Color::Reset);
        }
        let a = self.get_window_area();
        target.rect_border(a.0, a.1, a.2, a.3, frame_style);
        target.stamp(sat_i32(a.0 as i64 + 1), sat_i32(a.1 as i64 + 1), &self.contents);
        let t = self.get_titlebar_area();
        target.rect_border(t.0, t.1, t.2, t.3, title_style);
        target.line(
            sat_i32(t.0 as i64 + 1),
            sat_i32(t.1 as i64 + 1),
            sat_i32(t.2 as i64 - 1),
            sat_i32(t.3 as i64 - 1),
            pxl(' ', None, None, None),
        );
        target.print(sat_i32(t.0 as i64 + 1), sat_i32(t.1 as i64 + 1), self.title.as_str());
        let b = self.get_x_button_loc();
        target.set_cell(b.0, b.1, pxl('X', Some(Color::White), Some(Color::Red), None));
    }
}

/// The larger of `floor` and `v`.
fn floor_at(floor: i32, v: i64) -> (r: i64)
    ensures
        r == max_of(floor as int, v as int),
{
    if v < floor as i64 {
        floor as i64
    } else {
        v
    }
}

/// `s` lists each of the numbers `0 .. n` once.
pub open spec fn is_permutation(s: Seq<int>, n: int) -> bool {
    &&& s.len() == n
    &&& forall|i: int| 0 <= i < s.len() ==> 0 <= #[trigger] s[i] < n
    &&& forall|i: int, j: int| 0 <= i < j < s.len() ==> s[i] != s[j]
}

/// The mathematical model of a window manager: its windows in the order in
/// which they were added, and the order in which they lie on top of each
/// other, from the back to the front. The last window of that order has the
/// focus.
#[verifier::ext_equal]
pub struct WmView {
    pub windows: Seq<WindowView>,
    pub focus_order: Seq<int>,
}

impl WmView {
    /// Every window is well-formed, and the focus order lists each window once.
    pub open spec fn wf(self) -> bool {
        &&& forall|i: int| 0 <= i < self.windows.len() ==> (#[trigger] self.windows[i]).wf()
        &&& is_permutation(self.focus_order, self.windows.len() as int)
    }

    /// The manager with `w` added behind all other windows.
    pub open spec fn added(self, w: WindowView) -> WmView {
        WmView {
            windows: self.windows.push(w),
            focus_order: seq![self.windows.len() as int] + self.focus_order,
        }
    }

    /// The window at position `pos` of the focus order.
    pub open spec fn window_at(self, pos: int) -> WindowView {
        self.windows[self.focus_order[pos]]
    }

    /// The manager with the window at position `pos` of the focus order
    /// brought to the front.
    pub open spec fn raised(self, pos: int) -> WmView {
        WmView {
            focus_order: self.focus_order.remove(pos).push(self.focus_order[pos]),
            ..self
        }
    }

    /// The position in the focus order of the topmost window that holds
    /// `(px, py)`, among the first `upto` positions; -1 where none does.
    pub open spec fn top_hit(self, px: int, py: int, upto: int) -> int
        decreases upto,
    {
        if upto <= 0 {
            -1
        } else if self.window_at(upto - 1).contains(px, py) {
            upto - 1
        } else {
            self.top_hit(px, py, upto - 1)
        }
    }

    /// The position in the focus order of the topmost window that holds
    /// `(px, py)`; -1 where none does.
    pub open spec fn hit(self, px: int, py: int) -> int {
        self.top_hit(px, py, self.focus_order.len() as int)
    }

    /// The manager after the button went down at `(px, py)`: the topmost
    /// window that holds the position comes to the front and takes the
    /// press; no other window learns of it.
    pub open spec fn after_press(self, px: int, py: int) -> WmView {
        let pos = self.hit(px, py);
        if pos < 0 {
            self
        } else {
            let k = self.focus_order[pos];
            WmView {
                windows: self.windows.update(k, self.windows[k].pressed(px, py)),
                focus_order: self.raised(pos).focus_order,
            }
        }
    }

    /// The window whose close button a press at `(px, py)` hits; -1 where it
    /// hits none.
    pub open spec fn closed_by(self, px: int, py: int) -> int {
        let pos = self.hit(px, py);
        if pos >= 0 && self.window_at(pos).closes_at(px, py) {
            self.focus_order[pos]
        } else {
            -1
        }
    }

    /// The manager while the button is held at `(px, py)`: every window
    /// follows with its gesture, but for the window `skip`.
    pub open spec fn after_hold(self, px: int, py: int, skip: int) -> WmView {
        WmView {
            windows: Seq::new(
                self.windows.len(),
                |j: int|
                    if j == skip {
                        self.windows[j]
                    } else {
                        self.windows[j].dragged(px, py)
                    },
            ),
            ..self
        }
    }

    /// The manager after the button came up: no window keeps a gesture.
    pub open spec fn after_release(self) -> WmView {
        WmView {
            windows: Seq::new(self.windows.len(), |j: int| self.windows[j].released()),
            ..self
        }
    }

    /// The manager after one frame of input. The press comes first, then the
    /// hold, then the release. A window whose close button was pressed in
    /// this frame does not follow the hold.
    pub open spec fn after_input(self, input: MouseInput) -> WmView {
        let v1 = match input.pressed {
            Some(p) => self.after_press(p.0 as int, p.1 as int),
            None => self,
        };
        let skip = match input.pressed {
            Some(p) => self.closed_by(p.0 as int, p.1 as int),
            None => -1,
        };
        let v2 = match input.held {
            Some(p) => v1.after_hold(p.0 as int, p.1 as int, skip),
            None => v1,
        };
        if input.released is Some {
            v2.after_release()
        } else {
            v2
        }
    }

    /// The first position of the focus order, from `from` on, whose window is
    /// marked for closing; -1 where there is none.
    pub open spec fn first_closing(self, from: int) -> int
        decreases self.focus_order.len() - from,
    {
        if from >= self.focus_order.len() {
            -1
        } else if from >= 0 && self.window_at(from).close {
            from
        } else {
            self.first_closing(from + 1)
        }
    }

    /// The manager without the window at position `pos` of the focus order.
    /// The windows behind it in the list of windows move up by one, and the
    /// focus order follows them: it keeps naming the same windows.
    pub open spec fn removed(self, pos: int) -> WmView {
        let r = self.focus_order[pos];
        let rest = self.focus_order.remove(pos);
        WmView {
            windows: self.windows.remove(r),
            focus_order: Seq::new(
                rest.len(),
                |i: int|
                    if rest[i] > r {
                        rest[i] - 1
                    } else {
                        rest[i]
                    },
            ),
        }
    }

    /// The manager after the deferred deletion of one render pass: the rearmost
    /// window that is marked for closing is removed, and no other.
    pub open spec fn swept(self) -> WmView {
        let pos = self.first_closing(0);
        if pos < 0 {
            self
        } else {
            self.removed(pos)
        }
    }

    /// The grid `g` with the windows at the first `upto` positions of the
    /// focus order drawn on it, from the back to the front.
    pub open spec fn rendered(self, g: Grid, upto: int) -> Grid
        decreases upto,
    {
        if upto <= 0 {
            g
        } else {
            drawn(
                self.rendered(g, upto - 1),
                self.window_at(upto - 1),
                upto == self.focus_order.len(),
            )
        }
    }
}

/// The frame of a window: double lines, white where the window has the focus.
pub open spec fn frame_style(focused: bool) -> BorderStyle {
    let plain = BorderStyle::of_chars('╔', '╗', '╚', '╝', '═', '║');
    if focused {
        plain.recolored(Color::White, Color::Reset)
    } else {
        plain
    }
}

/// The frame of a title bar: double lines that join the frame below, white
/// where the window has the focus.
pub open spec fn title_style(focused: bool) -> BorderStyle {
    let plain = BorderStyle::of_chars('╔', '╗', '╠', '╣', '═', '║');
    if focused {
        plain.recolored(Color::White, Color::Reset)
    } else {
        plain
    }
}

/// The close button: a white `X` on red.
pub open spec fn close_button() -> Pixel {
    Pixel { fg: Color::White, bg: Color::Red, chr: 'X', style: crate::pixel::Style::plain() }
}

/// The grid `g` with the window `w` drawn on it: the frame, the contents
/// inside it, the title bar over the frame's top, a blank title row, the
/// title, and last the close button.
pub open spec fn drawn(g: Grid, w: WindowView, focused: bool) -> Grid {
    let a = w.window_area();
    let t = w.titlebar_area();
    let b = w.x_button_loc();
    let framed = bordered(g, a.0, a.1, a.2, a.3, frame_style(focused));
    let filled = framed.stamped(sat(a.0 + 1), sat(a.1 + 1), w.contents);
    let titled = bordered(filled, t.0, t.1, t.2, t.3, title_style(focused));
    let cleared = titled.paint(
        on_line(sat(t.0 + 1), sat(t.1 + 1), sat(t.2 - 1), sat(t.3 - 1)),
        Pixel::blank(),
    );
    cleared.printed(sat(t.0 + 1), sat(t.1 + 1), w.title).set(b.0, b.1, close_button())
}

/// Removing a window leaves a well-formed manager.
pub proof fn lemma_removed_wf(v: WmView, pos: int)
    requires
        v.wf(),
        0 <= pos < v.focus_order.len(),
    ensures
        v.removed(pos).wf(),
        v.removed(pos).windows.len() == v.windows.len() - 1,
{
    let r = v.focus_order[pos];
    let rest = v.focus_order.remove(pos);
    let after = v.removed(pos);
    assert forall|i: int| 0 <= i < rest.len() implies rest[i] != r && 0 <= #[trigger] rest[i]
        < v.windows.len() by {}
    assert forall|i: int, j: int| 0 <= i < j < rest.len() implies rest[i] != rest[j] by {}
    assert forall|i: int| 0 <= i < after.windows.len() implies (#[trigger] after.windows[i]).wf() by {}
    assert forall|i: int, j: int| 0 <= i < j < after.focus_order.len() implies after.focus_order[i]
        != after.focus_order[j] by {}
}

/// Bringing one entry of a permutation to its end gives a permutation.
pub proof fn lemma_raise_permutation(s: Seq<int>, n: int, pos: int)
    requires
        is_permutation(s, n),
        0 <= pos < n,
    ensures
        is_permutation(s.remove(pos).push(s[pos]), n),
{
    let t = s.remove(pos).push(s[pos]);
    assert forall|i: int| 0 <= i < t.len() implies 0 <= #[trigger] t[i] < n by {}
    assert forall|i: int, j: int| 0 <= i < j < t.len() implies t[i] != t[j] by {}
}

/// The window that `add_window` makes of its arguments: sizes below the
/// floors are raised to them, the contents are blank, no gesture goes on.
pub open spec fn new_window(title: Seq<char>, x: int, y: int, width: int, height: int) -> WindowView {
    let w = max_of(width, MIN_WIDTH as int);
    let h = max_of(height, MIN_HEIGHT as int);
    WindowView {
        title,
        x,
        y,
        width: w,
        height: h,
        contents: Grid::filled((w - 1) as nat, (h - 3) as nat, Pixel::blank()),
        gesture: Gesture::Idle,
        close: false,
    }
}

/// A set of windows that lie on top of each other.
pub struct WindowManager {
    windows: Vec<Window>,
    focus_order: Vec<usize>,
}

impl View for WindowManager {
    type V = WmView;

    closed spec fn view(&self) -> WmView {
        WmView {
            windows: Seq::new(self.windows.len() as nat, |i: int| self.windows[i]@),
            focus_order: Seq::new(self.focus_order.len() as nat, |i: int| self.focus_order[i] as int),
        }
    }
}

impl WindowManager {
    /// Every window and the manager's model are well-formed.
    pub closed spec fn wf(&self) -> bool {
        &&& forall|i: int| 0 <= i < self.windows.len() ==> (#[trigger] self.windows[i]).wf()
        &&& self@.wf()
    }

    /// The model of a well-formed manager is well-formed.
    pub broadcast proof fn lemma_wf(&self)
        requires
            #[trigger] self.wf(),
        ensures
            self@.wf(),
    {
    }

    /// A manager without windows.
    pub fn new() -> (m: WindowManager)
        ensures
            m.wf(),
            m@ == (WmView { windows: Seq::empty(), focus_order: Seq::empty() }),
    {
        let m = WindowManager { windows: Vec::new(), focus_order: Vec::new() };
        m
    }

    /// The number of windows.
    pub fn window_count(&self) -> (count: usize)
        ensures
            count == self@.windows.len(),
    {
        self.windows.len()
    }

    /// The window with the given number, if there is one. The windows are
    /// numbered in the order in which they were added.
    pub fn get_window(&self, index: usize) -> (window: Option<&Window>)
        requires
            self.wf(),
        ensures
            match window {
                Some(w) => index < self@.windows.len() && w.wf() && w@ == self@.windows[index as int],
                None => index >= self@.windows.len(),
            },
    {
        if index < self.windows.len() {
            Some(&self.windows[index])
        } else {
            None
        }
    }

    /// The numbers of the windows from the back to the front. The last one
    /// has the focus.
    pub fn get_focus_order(&self) -> (order: &Vec<usize>)
        ensures
            order@.len() == self@.focus_order.len(),
            forall|i: int| 0 <= i < order@.len() ==> order@[i] == self@.focus_order[i],
    {
        &self.focus_order
    }

    /// Adds a window behind all others. A width below 6 or a height below 4
    /// is raised to that floor.
    pub fn add_window(&mut self, title: String, x: i32, y: i32, width: i32, height: i32)
        requires
            old(self).wf(),
        ensures
            final(self).wf(),
            final(self)@ == old(self)@.added(
                new_window(title@, x as int, y as int, width as int, height as int),
            ),
    {
        broadcast use Canvas::lemma_wf;

        let w = if width < MIN_WIDTH { MIN_WIDTH } else { width };
        let h = if height < MIN_HEIGHT { MIN_HEIGHT } else { height };
        let contents = Canvas::new_filled((w - 1) as u32, (h - 3) as u32, pxl(' ', None, None, None));
        let window = Window {
            title,
            x,
            y,
            width: w,
            height: h,
            contents,
            gesture: Gesture::Idle,
            close: false,
        };
        self.windows.push(window);
        let index = self.windows.len() - 1;
        self.focus_order.insert(0, index);
        proof {
            let v = old(self)@.added(
                new_window(title@, x as int, y as int, width as int, height as int),
            );
            assert(self@.focus_order =~= v.focus_order);
            assert forall|i: int, j: int| 0 <= i < j < v.focus_order.len() implies v.focus_order[i]
                != v.focus_order[j] by {}
        }
    }

    /// Takes a press of the button at `(px, py)`. Returns the window whose
    /// close button it hit, if any.
    fn press_phase(&mut self, px: i32, py: i32) -> (skip: Option<usize>)
        requires
            old(self).wf(),
        ensures
            final(self).wf(),
            final(self)@ == old(self)@.after_press(px as int, py as int),
            match skip {
                Some(k) => k == old(self)@.closed_by(px as int, py as int),
                None => old(self)@.closed_by(px as int, py as int) == -1,
            },
    {
        broadcast use Window::lemma_wf;

        let ghost before = self@;
        let mut i = self.focus_order.len();
        while i > 0
            invariant
                self.wf(),
                self@ == before,
                before == old(self)@,
                i <= self.focus_order.len(),
                before.hit(px as int, py as int) == before.top_hit(px as int, py as int, i as int),
            decreases i,
        {
            i -= 1;
            let k = self.focus_order[i];
            if self.windows[k].contains(px, py) {
                self.focus_order.remove(i);
                self.focus_order.push(k);
                let closes = self.windows[k].press(px, py);
                proof {
                    let after = before.after_press(px as int, py as int);
                    lemma_raise_permutation(
                        before.focus_order,
                        before.windows.len() as int,
                        i as int,
                    );
                    assert(self@.focus_order =~= after.focus_order);
                }
                return if closes {
                    Some(k)
                } else {
                    None
                };
            }
        }
        None
    }

    /// Lets every window but `skip` follow the mouse, held at `(px, py)`.
    fn hold_phase(&mut self, px: i32, py: i32, skip: Option<usize>)
        requires
            old(self).wf(),
        ensures
            final(self).wf(),
            final(self)@ == old(self)@.after_hold(
                px as int,
                py as int,
                match skip {
                    Some(k) => k as int,
                    None => -1,
                },
            ),
    {
        broadcast use Window::lemma_wf;

        let ghost before = self@;
        let ghost skipped: int = match skip {
            Some(k) => k as int,
            None => -1,
        };
        let mut j: usize = 0;
        while j < self.windows.len()
            invariant
                j <= self.windows.len(),
                self.windows.len() == before.windows.len(),
                self@.focus_order == before.focus_order,
                before.wf(),
                skipped == match skip {
                    Some(k) => k as int,
                    None => -1,
                },
                forall|i: int| 0 <= i < self.windows.len() ==> (#[trigger] self.windows[i]).wf(),
                forall|i: int|
                    0 <= i < j ==> (#[trigger] self.windows[i])@ == before.after_hold(
                        px as int,
                        py as int,
                        skipped,
                    ).windows[i],
                forall|i: int| j <= i < self.windows.len() ==> (#[trigger] self.windows[i])@ == before.windows[i],
            decreases self.windows.len() - j,
        {
            let follows = match skip {
                Some(k) => k != j,
                None => true,
            };
            if follows {
                self.windows[j].drag(px, py);
            }
            j += 1;
        }
    }

    /// Ends the gesture of every window.
    fn release_phase(&mut self)
        requires
            old(self).wf(),
        ensures
            final(self).wf(),
            final(self)@ == old(self)@.after_release(),
    {
        broadcast use Window::lemma_wf;

        let ghost before = self@;
        let mut j: usize = 0;
        while j < self.windows.len()
            invariant
                j <= self.windows.len(),
                self.windows.len() == before.windows.len(),
                self@.focus_order == before.focus_order,
                before.wf(),
                forall|i: int| 0 <= i < self.windows.len() ==> (#[trigger] self.windows[i]).wf(),
                forall|i: int|
                    0 <= i < j ==> (#[trigger] self.windows[i])@ == before.after_release().windows[i],
                forall|i: int| j <= i < self.windows.len() ==> (#[trigger] self.windows[i])@ == before.windows[i],
            decreases self.windows.len() - j,
        {
            self.windows[j].release();
            j += 1;
        }
    }

    /// Takes the mouse input of one frame. A press goes to the topmost window
    /// that holds its position: the window comes to the front and is closed,
    /// moved or resized by where the press hit it. While the button is held,
    /// every window follows with the gesture it is in. When the button comes
    /// up, every gesture ends.
    pub fn handle_input(&mut self, input: &MouseInput)
        requires
            old(self).wf(),
        ensures
            final(self).wf(),
            final(self)@ == old(self)@.after_input(*input),
    {
        let mut skip: Option<usize> = None;
        match input.pressed {
            Some(p) => {
                skip = self.press_phase(p.0, p.1);
            },
            None => {},
        }
        match input.held {
            Some(p) => {
                self.hold_phase(p.0, p.1, skip);
            },
            None => {},
        }
        match input.released {
            Some(_) => {
                self.release_phase();
            },
            None => {},
        }
    }

    /// The position in the focus order of the rearmost window that is marked
    /// for closing.
    fn find_closing(&self) -> (found: Option<usize>)
        requires
            self.wf(),
        ensures
            match found {
                Some(pos) => pos == self@.first_closing(0) && pos < self@.focus_order.len(),
                None => self@.first_closing(0) == -1,
            },
    {
        let mut i: usize = 0;
        while i < self.focus_order.len()
            invariant
                self.wf(),
                i <= self.focus_order.len(),
                self@.first_closing(0) == self@.first_closing(i as int),
            decreases self.focus_order.len() - i,
        {
            let k = self.focus_order[i];
            if self.windows[k].close {
                return Some(i);
            }
            i += 1;
        }
        None
    }

    /// Removes the window at position `pos` of the focus order.
    fn remove_at(&mut self, pos: usize)
        requires
            old(self).wf(),
            pos < old(self)@.focus_order.len(),
        ensures
            final(self).wf(),
            final(self)@ == old(self)@.removed(pos as int),
    {
        let ghost before = self@;
        let r = self.focus_order[pos];
        assert(r == before.focus_order[pos as int]);
        self.windows.remove(r);
        self.focus_order.remove(pos);
        let ghost rest = before.focus_order.remove(pos as int);
        let mut idx: usize = 0;
        while idx < self.focus_order.len()
            invariant
                idx <= self.focus_order.len(),
                self.focus_order.len() == rest.len(),
                forall|i: int|
                    0 <= i < idx ==> #[trigger] self.focus_order[i] == before.removed(
                        pos as int,
                    ).focus_order[i],
                forall|i: int| idx <= i < rest.len() ==> #[trigger] self.focus_order[i] == rest[i],
                0 <= pos < before.focus_order.len(),
                rest == before.focus_order.remove(pos as int),
                r == before.focus_order[pos as int],
                forall|i: int| 0 <= i < rest.len() ==> 0 <= #[trigger] rest[i],
                self.windows@ == old(self).windows@.remove(r as int),
            decreases self.focus_order.len() - idx,
        {
            if self.focus_order[idx] > r {
                self.focus_order[idx] -= 1;
            }
            idx += 1;
        }
        proof {
            lemma_removed_wf(before, pos as int);
            assert forall|i: int| 0 <= i < self.windows.len() implies (#[trigger] self.windows[i]).wf() by {}
        }
    }

    /// Removes one window that is marked for closing, the rearmost, and then
    /// draws the windows on `target` from the back to the front, the window
    /// that has the focus in white.
    pub fn render_windows(&mut self, target: &mut Canvas)
        requires
            old(self).wf(),
            old(target).wf(),
        ensures
            final(self).wf(),
            final(target).wf(),
            final(self)@ == old(self)@.swept(),
            final(target)@ == final(self)@.rendered(
                old(target)@,
                final(self)@.focus_order.len() as int,
            ),
    {
        match self.find_closing() {
            Some(pos) => {
                self.remove_at(pos);
            },
            None => {},
        }
        let ghost before = target@;
        let count = self.focus_order.len();
        let mut i: usize = 0;
        while i < count
            invariant
                self.wf(),
                target.wf(),
                count == self.focus_order.len(),
                i <= count,
                target@ == self@.rendered(before, i as int),
            decreases count - i,
        {
            let k = self.focus_order[i];
            assert(k == self@.focus_order[i as int]);
            self.windows[k].draw_on(target, i + 1 == count);
            i += 1;
        }
    }
}

} // verus!
