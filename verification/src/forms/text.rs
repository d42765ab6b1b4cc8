//! A one-line text input.

use vstd::prelude::*;
use crate::canvas::Canvas;
use crate::events::{Event, KeyCode};
use crate::forms::{
    check_constraints, own_errors, FormField, FormOptions, FormOptionsView, FormOutput, FormStyle,
    FormValidationResult, OutputView,
};
use crate::grid::Grid;
use crate::pixel::Pixel;

verus! {

/// `String::push` appends the given character to the end of the string.
pub assume_specification[ std::string::String::push ](s: &mut std::string::String, ch: char)
    ensures
        final(s)@ == old(s)@.push(ch),
;

/// `String::pop` removes the last character of the string and returns it,
/// or returns nothing where the string is empty.
pub assume_specification[ std::string::String::pop ](s: &mut std::string::String) -> (ch: Option<
    char,
>)
    ensures
        old(s)@.len() == 0 ==> ch is None && final(s)@ == old(s)@,
        old(s)@.len() > 0 ==> ch == Some(old(s)@.last()) && final(s)@ == old(s)@.drop_last(),
;

/// The model of a text input.
#[verifier::ext_equal]
pub struct TextView {
    pub canvas: Grid,
    pub style: FormStyle,
    pub options: FormOptionsView,
    pub active: bool,
    pub content: Seq<char>,
}

/// A text input: it collects the characters typed while it is the active
/// field, and Backspace takes the last one away.
pub struct Text {
    canvas: Canvas,
    style: FormStyle,
    options: FormOptions,
    active: bool,
    content: String,
}

impl View for Text {
    type V = TextView;

    closed spec fn view(&self) -> TextView {
        TextView {
            canvas: self.canvas@,
            style: self.style,
            options: self.options@,
            active: self.active,
            content: self.content@,
        }
    }
}

impl Text {
    /// The text typed so far.
    pub fn get_input(&self) -> (content: &str)
        ensures
            content@ == self@.content,
    {
        self.content.as_str()
    }
}

impl FormField for Text {
    closed spec fn wf(&self) -> bool {
        self.canvas.wf()
    }

    open spec fn width_of(v: TextView) -> nat {
        v.canvas.width
    }

    open spec fn height_of(v: TextView) -> nat {
        v.canvas.height()
    }

    open spec fn active_of(v: TextView) -> bool {
        v.active
    }

    open spec fn style_of(v: TextView) -> FormStyle {
        v.style
    }

    open spec fn options_of(v: TextView) -> FormOptionsView {
        v.options
    }

    /// A text input reports the rules of its options that its text breaks.
    open spec fn errors_of(v: TextView) -> Seq<Seq<char>> {
        own_errors(v.options, OutputView::String(v.content))
    }

    open spec fn output_of(v: TextView) -> OutputView {
        OutputView::String(v.content)
    }

    open spec fn canvas_of(v: TextView) -> Grid {
        v.canvas
    }

    /// A new text input is blank, empty and not active.
    open spec fn made(
        w: nat,
        h: nat,
        options: Option<FormOptionsView>,
        style: Option<FormStyle>,
    ) -> TextView {
        TextView {
            canvas: Grid::filled(w, h, Pixel::blank()),
            style: match style {
                Some(s) => s,
                None => FormStyle::plain(),
            },
            options: match options {
                Some(o) => o,
                None => FormOptionsView::empty(),
            },
            active: false,
            content: Seq::empty(),
        }
    }

    open spec fn resized(v: TextView, w: nat, h: nat) -> TextView {
        TextView { canvas: v.canvas.resized(w, h), ..v }
    }

    /// An active text input takes a character key at its end and drops its
    /// last character on Backspace. Nothing else changes it.
    open spec fn after_event(v: TextView, event: Event) -> TextView {
        if !v.active {
            v
        } else {
            match event.key() {
                Some(KeyCode::Char(c)) => TextView { content: v.content.push(c), ..v },
                Some(KeyCode::Backspace) => if v.content.len() > 0 {
                    TextView { content: v.content.drop_last(), ..v }
                } else {
                    v
                },
                _ => v,
            }
        }
    }

    open spec fn activated(v: TextView, active: bool) -> TextView {
        TextView { active, ..v }
    }

    open spec fn restyled(v: TextView, style: FormStyle) -> TextView {
        TextView { style, ..v }
    }

    open spec fn with_options(v: TextView, options: FormOptionsView) -> TextView {
        TextView { options, ..v }
    }

    /// The picture of a text input is its text on a blank ground.
    open spec fn after_draw(v: TextView, tick: nat) -> TextView {
        TextView {
            canvas: Grid::filled(v.canvas.width, v.canvas.height(), Pixel::blank()).printed(
                0,
                0,
                v.content,
            ),
            ..v
        }
    }

    fn make(w: u32, h: u32, options: Option<FormOptions>, style: Option<FormStyle>) -> (f: Text) {
        broadcast use Canvas::lemma_wf;

        Text {
            canvas: Canvas::new(w, h),
            style: match style {
                Some(s) => s,
                None => FormStyle::default(),
            },
            options: match options {
                Some(o) => o,
                None => FormOptions::default(),
            },
            active: false,
            content: String::new(),
        }
    }

    fn get_width(&self) -> (w: u32) {
        self.canvas.get_width()
    }

    fn get_height(&self) -> (h: u32) {
        self.canvas.get_height()
    }

    fn resize(&mut self, w: u32, h: u32) {
        broadcast use Canvas::lemma_wf;

        self.canvas.resize(w, h);
    }

    fn handle_event(&mut self, event: &Event) {
        if self.active {
            match event {
                Event::Key(key) => {
                    match key.code {
                        KeyCode::Char(c) => {
                            self.content.push(c);
                        },
                        KeyCode::Backspace => {
                            let _ = self.content.pop();
                        },
                        _ => {},
                    }
                },
                _ => {},
            }
        }
    }

    fn set_active(&mut self, active: bool) {
        self.active = active;
    }

    fn is_active(&self) -> (active: bool) {
        self.active
    }

    fn validate(&self, result: &mut FormValidationResult) {
        let output = self.get_output();
        check_constraints(&self.options, &output, result);
    }

    fn get_output(&self) -> (out: FormOutput) {
        FormOutput::String(self.content.clone())
    }

    fn set_style(&mut self, style: FormStyle) {
        self.style = style;
    }

    fn get_style(&self) -> (style: &FormStyle) {
        &self.style
    }

    fn set_options(&mut self, options: FormOptions) {
        self.options = options;
    }

    fn get_options(&self) -> (options: &FormOptions) {
        &self.options
    }

    fn draw(&mut self, tick: usize) -> (canvas: &Canvas) {
        broadcast use Canvas::lemma_wf;

        let width = self.canvas.get_width();
        let height = self.canvas.get_height();
        self.canvas = Canvas::new(width, height);
        self.canvas.print(0, 0, self.content.as_str());
        &self.canvas
    }
}

} // verus!
