//! Forms: input fields arranged into one unit that is walked through with
//! the keyboard, validated and read out.

use vstd::prelude::*;
use vstd::std_specs::iter::IteratorSpec;
use crate::canvas::Canvas;
use crate::events::Event;
use crate::grid::Grid;
use crate::pixel::Color;
use crate::rect_style::BorderStyle;

pub mod either;
pub mod error_map;
pub mod form;
pub mod laws;
pub mod text;

verus! {

/// The errors that a validation found: one message for each.
pub type FormValidationResult = Vec<String>;

/// How a field looks: its border, if it has one, and its colors.
#[derive(Debug, Clone, Copy)]
pub struct FormStyle {
    pub border: Option<BorderStyle>,
    pub fg: Color,
    pub bg: Color,
}

impl FormStyle {
    /// No border, the terminal's default colors.
    pub open spec fn plain() -> FormStyle {
        FormStyle { border: None, fg: Color::Reset, bg: Color::Reset }
    }
}

impl Default for FormStyle {
    fn default() -> (s: FormStyle)
        ensures
            s == FormStyle::plain(),
    {
        FormStyle { border: None, fg: Color::Reset, bg: Color::Reset }
    }
}

/// What a field gives out, in the model.
pub enum OutputView {
    Nothing,
    Bool(bool),
    String(Seq<char>),
    /// The outputs of the fields of a form, each with the field's name, in
    /// the order of the fields.
    Compound(Seq<(Seq<char>, OutputView)>),
}

impl OutputView {
    /// There is nothing in this output: no value, an empty text, or a form
    /// without fields.
    pub open spec fn is_blank(self) -> bool {
        match self {
            OutputView::Nothing => true,
            OutputView::Bool(_) => false,
            OutputView::String(s) => s.len() == 0,
            OutputView::Compound(entries) => entries.len() == 0,
        }
    }
}

/// What a field gives out: a value of its own kind, or, for a form, the
/// outputs of its fields.
#[derive(Debug)]
pub enum FormOutput {
    Nothing,
    Bool(bool),
    String(String),
    /// The outputs of the fields of a form, each with the field's name, in
    /// the order of the fields.
    Compound(Vec<(String, FormOutput)>),
}

impl View for FormOutput {
    type V = OutputView;

    open spec fn view(&self) -> OutputView {
        self.model()
    }
}

impl FormOutput {
    /// The model of this output.
    pub open spec fn model(&self) -> OutputView
        decreases self,
    {
        match self {
            FormOutput::Nothing => OutputView::Nothing,
            FormOutput::Bool(b) => OutputView::Bool(*b),
            FormOutput::String(s) => OutputView::String(s@),
            FormOutput::Compound(entries) => OutputView::Compound(
                Seq::new(
                    entries.len() as nat,
                    |i: int|
                        if 0 <= i < entries.len() {
                            (entries[i].0@, entries[i].1.model())
                        } else {
                            (Seq::empty(), OutputView::Nothing)
                        },
                ),
            ),
        }
    }

    /// Says whether there is nothing in this output.
    pub fn is_blank(&self) -> (b: bool)
        ensures
            b == self@.is_blank(),
    {
        match self {
            FormOutput::Nothing => true,
            FormOutput::Bool(_) => false,
            FormOutput::String(s) => s.as_str().unicode_len() == 0,
            FormOutput::Compound(entries) => entries.len() == 0,
        }
    }
}

/// A rule on the output of a field, in the model.
pub enum ConstraintView {
    /// The output must not be blank.
    NotBlank(Seq<char>),
}

impl ConstraintView {
    /// The message that reports a broken rule.
    pub open spec fn message(self) -> Seq<char> {
        match self {
            ConstraintView::NotBlank(m) => m,
        }
    }

    /// The output keeps the rule.
    pub open spec fn holds_of(self, out: OutputView) -> bool {
        match self {
            ConstraintView::NotBlank(_) => !out.is_blank(),
        }
    }
}

/// A rule on the output of a field, with the message that reports a breach.
#[derive(Debug)]
pub enum FormConstraint {
    /// The output must not be blank: a text must hold a character, a form
    /// must hold a field.
    NotBlank(String),
}

impl View for FormConstraint {
    type V = ConstraintView;

    open spec fn view(&self) -> ConstraintView {
        match self {
            FormConstraint::NotBlank(m) => ConstraintView::NotBlank(m@),
        }
    }
}

/// The options of a field, in the model.
pub struct FormOptionsView {
    pub label: Option<Seq<char>>,
    pub constraints: Seq<ConstraintView>,
}

impl FormOptionsView {
    /// No label and no rule.
    pub open spec fn empty() -> FormOptionsView {
        FormOptionsView { label: None, constraints: Seq::empty() }
    }
}

/// The options of a field: a label to show above it, and the rules that its
/// output must keep.
#[derive(Debug)]
pub struct FormOptions {
    pub label: Option<String>,
    pub constraints: Vec<FormConstraint>,
}

impl View for FormOptions {
    type V = FormOptionsView;

    open spec fn view(&self) -> FormOptionsView {
        FormOptionsView {
            label: match self.label {
                Some(l) => Some(l@),
                None => None,
            },
            constraints: Seq::new(self.constraints.len() as nat, |i: int| self.constraints[i]@),
        }
    }
}

impl Default for FormOptions {
    fn default() -> (o: FormOptions)
        ensures
            o@ == FormOptionsView::empty(),
    {
        let o = FormOptions { label: None, constraints: Vec::new() };
        assert(o@.constraints =~= Seq::empty());
        o
    }
}

/// The model of options that may be absent.
pub open spec fn options_view(options: Option<FormOptions>) -> Option<FormOptionsView> {
    match options {
        Some(o) => Some(o@),
        None => None,
    }
}

/// The texts of a list of strings.
pub open spec fn texts(list: Seq<String>) -> Seq<Seq<char>> {
    Seq::new(list.len(), |i: int| list[i]@)
}

/// The messages of the rules among the first `upto` that `out` breaks, in the
/// order of the rules.
pub open spec fn violations(rules: Seq<ConstraintView>, out: OutputView, upto: int) -> Seq<
    Seq<char>,
>
    decreases upto,
{
    if upto <= 0 {
        Seq::empty()
    } else if rules[upto - 1].holds_of(out) {
        violations(rules, out, upto - 1)
    } else {
        violations(rules, out, upto - 1).push(rules[upto - 1].message())
    }
}

/// The messages of all rules of `options` that `out` breaks.
pub open spec fn own_errors(options: FormOptionsView, out: OutputView) -> Seq<Seq<char>> {
    violations(options.constraints, out, options.constraints.len() as int)
}

/// Checks `output` against the rules of `options` and appends to `result`
/// the message of each rule that it breaks.
pub fn check_constraints(
    options: &FormOptions,
    output: &FormOutput,
    result: &mut FormValidationResult,
)
    ensures
        texts(final(result)@) == texts(old(result)@) + own_errors(options@, output@),
{
    let ghost before = texts(result@);
    let blank = output.is_blank();
    let mut i: usize = 0;
    while i < options.constraints.len()
        invariant
            i <= options.constraints.len(),
            blank == output@.is_blank(),
            texts(result@) == before + violations(options@.constraints, output@, i as int),
        decreases options.constraints.len() - i,
    {
        match &options.constraints[i] {
            FormConstraint::NotBlank(message) => {
                if blank {
                    let ghost prior = result@;
                    result.push(message.clone());
                    assert(texts(result@) =~= texts(prior).push(message@));
                    assert(violations(options@.constraints, output@, i + 1) == violations(
                        options@.constraints,
                        output@,
                        i as int,
                    ).push(message@));
                    assert(texts(result@) =~= before + violations(
                        options@.constraints,
                        output@,
                        i + 1,
                    ));
                }
            },
        }
        i += 1;
    }
}

/// Says whether two strings hold the same text.
pub fn same_text(a: &str, b: &str) -> (same: bool)
    ensures
        same == (a@ == b@),
{
    let mut left = a.chars();
    let mut right = b.chars();
    let ghost mut count: int = 0;
    loop
        invariant
            0 <= count <= a@.len(),
            count <= b@.len(),
            left.remaining() == a@.skip(count),
            right.remaining() == b@.skip(count),
            a@.take(count) == b@.take(count),
        decreases a@.len() - count,
    {
        match left.next() {
            None => {
                let end = right.next();
                proof {
                    assert(a@.take(count) =~= a@);
                    if end is None {
                        assert(b@.take(count) =~= b@);
                    }
                }
                return end.is_none();
            },
            Some(x) => {
                match right.next() {
                    None => {
                        return false;
                    },
                    Some(y) => {
                        if x != y {
                            return false;
                        }
                        proof {
                            count = count + 1;
                        }
                    },
                }
            },
        }
    }
}

/// A field of a form: a widget with a size that takes input events, can be
/// the active one, validates what it holds, gives it out and draws itself.
/// A form is itself a field, so forms nest.
///
/// The model of a field is its view. Each method states what it does to the
/// model by a function of this trait, which the implementing type defines.
pub trait FormField: View + Sized {
    /// The field is well-formed.
    spec fn wf(&self) -> bool;

    /// The width of the field, in columns.
    spec fn width_of(v: Self::V) -> nat;

    /// The height of the field, in rows.
    spec fn height_of(v: Self::V) -> nat;

    /// The field is the active one: it reacts to the keyboard.
    spec fn active_of(v: Self::V) -> bool;

    /// The style of the field.
    spec fn style_of(v: Self::V) -> FormStyle;

    /// The options of the field.
    spec fn options_of(v: Self::V) -> FormOptionsView;

    /// The messages that a validation of the field reports, in order.
    spec fn errors_of(v: Self::V) -> Seq<Seq<char>>;

    /// What the field gives out.
    spec fn output_of(v: Self::V) -> OutputView;

    /// The picture of the field as it was last drawn.
    spec fn canvas_of(v: Self::V) -> Grid;

    /// The field that `make` builds.
    spec fn made(
        w: nat,
        h: nat,
        options: Option<FormOptionsView>,
        style: Option<FormStyle>,
    ) -> Self::V;

    /// The field after a change of its size.
    spec fn resized(v: Self::V, w: nat, h: nat) -> Self::V;

    /// The field after an input event.
    spec fn after_event(v: Self::V, event: Event) -> Self::V;

    /// The field after it was told whether it is the active one.
    spec fn activated(v: Self::V, active: bool) -> Self::V;

    /// The field with another style.
    spec fn restyled(v: Self::V, style: FormStyle) -> Self::V;

    /// The field with other options.
    spec fn with_options(v: Self::V, options: FormOptionsView) -> Self::V;

    /// The field after it drew itself at the given tick.
    spec fn after_draw(v: Self::V, tick: nat) -> Self::V;

    /// Builds a field of the given size.
    fn make(w: u32, h: u32, options: Option<FormOptions>, style: Option<FormStyle>) -> (f: Self)
        ensures
            f.wf(),
            f@ == Self::made(w as nat, h as nat, options_view(options), style),
            Self::width_of(f@) == w,
            Self::height_of(f@) == h,
    ;

    /// The width of the field, in columns.
    fn get_width(&self) -> (w: u32)
        requires
            self.wf(),
        ensures
            w == Self::width_of(self@),
    ;

    /// The height of the field, in rows.
    fn get_height(&self) -> (h: u32)
        requires
            self.wf(),
        ensures
            h == Self::height_of(self@),
    ;

    /// Gives the field another size.
    fn resize(&mut self, w: u32, h: u32)
        requires
            old(self).wf(),
        ensures
            final(self).wf(),
            final(self)@ == Self::resized(old(self)@, w as nat, h as nat),
            Self::width_of(final(self)@) == w,
            Self::height_of(final(self)@) == h,
    ;

    /// Hands an input event to the field.
    fn handle_event(&mut self, event: &Event)
        requires
            old(self).wf(),
        ensures
            final(self).wf(),
            final(self)@ == Self::after_event(old(self)@, *event),
    ;

    /// Tells the field whether it is the active one.
    fn set_active(&mut self, active: bool)
        requires
            old(self).wf(),
        ensures
            final(self).wf(),
            final(self)@ == Self::activated(old(self)@, active),
            Self::active_of(final(self)@) == active,
    ;

    /// Says whether the field is the active one.
    fn is_active(&self) -> (active: bool)
        requires
            self.wf(),
        ensures
            active == Self::active_of(self@),
    ;

    /// Validates what the field holds and appends to `result` a message for
    /// each error. A valid field appends nothing.
    fn validate(&self, result: &mut FormValidationResult)
        requires
            self.wf(),
        ensures
            texts(final(result)@) == texts(old(result)@) + Self::errors_of(self@),
    ;

    /// Gives out what the field holds.
    fn get_output(&self) -> (out: FormOutput)
        requires
            self.wf(),
        ensures
            out@ == Self::output_of(self@),
    ;

    /// Gives the field another style. The field keeps its size.
    fn set_style(&mut self, style: FormStyle)
        requires
            old(self).wf(),
        ensures
            final(self).wf(),
            final(self)@ == Self::restyled(old(self)@, style),
            Self::style_of(final(self)@) == style,
            Self::width_of(final(self)@) == Self::width_of(old(self)@),
            Self::height_of(final(self)@) == Self::height_of(old(self)@),
    ;

    /// The style of the field.
    fn get_style(&self) -> (style: &FormStyle)
        requires
            self.wf(),
        ensures
            *style == Self::style_of(self@),
    ;

    /// Gives the field other options.
    fn set_options(&mut self, options: FormOptions)
        requires
            old(self).wf(),
        ensures
            final(self).wf(),
            final(self)@ == Self::with_options(old(self)@, options@),
            Self::options_of(final(self)@) == options@,
    ;

    /// The options of the field.
    fn get_options(&self) -> (options: &FormOptions)
        requires
            self.wf(),
        ensures
            options@ == Self::options_of(self@),
    ;

    /// Draws the field and hands out its picture.
    fn draw(&mut self, tick: usize) -> (canvas: &Canvas)
        requires
            old(self).wf(),
        ensures
            final(self).wf(),
            final(self)@ == Self::after_draw(old(self)@, tick as nat),
            canvas.wf(),
            canvas@ == Self::canvas_of(final(self)@),
    ;
}

} // verus!
