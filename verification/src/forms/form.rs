//! The form: a field that holds named fields, one below the other, and lets
//! the keyboard walk through them.

use vstd::prelude::*;
use crate::canvas::Canvas;
use crate::events::{Event, KeyCode};
use crate::forms::error_map::ErrorMap;
use crate::forms::{
    check_constraints, options_view, own_errors, same_text, texts, FormField, FormOptions,
    FormOptionsView, FormOutput, FormStyle, FormValidationResult, OutputView,
};
use crate::grid::Grid;
use crate::pixel::Pixel;
use crate::shapes::bordered;
use crate::saturate::{sat, sat_i32};

verus! {

/// The mathematical model of a form over fields whose model is `FV`.
///
/// `focus` counts the fields that were walked through: it names the field
/// that has the focus, and equals the number of fields when the form is
/// finished. `dirty` says that the form is to be drawn: a new form is, a
/// change of style or options makes a form so, and drawing it ends that.
#[verifier::ext_equal]
pub struct FormView<FV> {
    pub canvas: Grid,
    pub style: FormStyle,
    pub options: FormOptionsView,
    pub active: bool,
    pub focus: nat,
    pub dirty: bool,
    pub fields: Seq<(Seq<char>, FV)>,
    pub errors: Map<Seq<char>, Seq<Seq<char>>>,
}

/// The key moves the focus of a form.
pub open spec fn is_focus_key(key: KeyCode) -> bool {
    key == KeyCode::Enter || key == KeyCode::Tab || key == KeyCode::BackTab
}

/// Where the focus of a form of `count` fields goes from `focus` on a key.
/// Enter goes on by one field and, from the last field, finishes the form.
/// Tab goes on by one field and stays on the last. Shift and Tab go back by
/// one field and stay on the first. No other key moves the focus.
pub open spec fn next_focus(focus: nat, count: nat, key: KeyCode) -> nat {
    match key {
        KeyCode::Enter => if focus + 1 <= count {
            focus + 1
        } else {
            count
        },
        KeyCode::Tab => if count == 0 {
            focus
        } else if focus + 1 <= count - 1 {
            focus + 1
        } else {
            (count - 1) as nat
        },
        KeyCode::BackTab => if focus == 0 {
            0
        } else {
            (focus - 1) as nat
        },
        _ => focus,
    }
}

/// The width that a form of the given width and style leaves to its fields:
/// two columns less where it draws a border.
pub open spec fn interior_width(width: nat, style: FormStyle) -> nat {
    if style.border is Some {
        if width >= 2 {
            (width - 2) as nat
        } else {
            0
        }
    } else {
        width
    }
}

/// The first place from `from` on at which `names` holds `name`; -1 where it
/// holds it nowhere.
pub open spec fn position(names: Seq<Seq<char>>, name: Seq<char>, from: int) -> int
    decreases names.len() - from,
{
    if from >= names.len() {
        -1
    } else if from >= 0 && names[from] == name {
        from
    } else {
        position(names, name, from + 1)
    }
}

/// A form of fields of the type `F`.
pub struct Form<F> {
    canvas: Canvas,
    style: FormStyle,
    options: FormOptions,
    active: bool,
    index: usize,
    dirty: bool,
    fields: Vec<(String, F)>,
    errors: ErrorMap,
}

impl<F: FormField> View for Form<F> {
    type V = FormView<F::V>;

    closed spec fn view(&self) -> FormView<F::V> {
        FormView {
            canvas: self.canvas@,
            style: self.style,
            options: self.options@,
            active: self.active,
            focus: self.index as nat,
            dirty: self.dirty,
            fields: Seq::new(self.fields.len() as nat, |i: int| (self.fields[i].0@, self.fields[i].1@)),
            errors: self.errors@,
        }
    }
}

impl<F: FormField> Form<F> {
    /// The names of the fields, in the order of the fields.
    pub open spec fn names(v: FormView<F::V>) -> Seq<Seq<char>> {
        Seq::new(v.fields.len(), |i: int| v.fields[i].0)
    }

    /// The form that `new` builds: blank, without fields and errors, not
    /// active, to be drawn.
    pub open spec fn new_view(
        w: nat,
        h: nat,
        style: FormStyle,
        options: Option<FormOptionsView>,
    ) -> FormView<F::V> {
        FormView {
            canvas: Grid::filled(w, h, Pixel::blank()),
            style,
            options: match options {
                Some(o) => o,
                None => FormOptionsView::empty(),
            },
            active: false,
            focus: 0,
            dirty: true,
            fields: Seq::empty(),
            errors: Map::empty(),
        }
    }

    /// The form with one more field at its end, resized to the width that
    /// the form leaves to its fields.
    pub open spec fn with_field(v: FormView<F::V>, name: Seq<char>, field: F::V) -> FormView<F::V> {
        FormView {
            fields: v.fields.push(
                (
                    name,
                    F::resized(field, interior_width(v.canvas.width, v.style), F::height_of(field)),
                ),
            ),
            ..v
        }
    }

    /// The field that `build_field` makes before it adds it: one row high, as
    /// wide as the form, in the given style or else in that of the form.
    pub open spec fn built_field(
        v: FormView<F::V>,
        options: Option<FormOptionsView>,
        style: Option<FormStyle>,
    ) -> F::V {
        let field = F::made(v.canvas.width, 1, options, style);
        if style is None {
            F::restyled(field, v.style)
        } else {
            field
        }
    }

    /// The fields with each told whether it is the active one: the field that
    /// has the focus, if the form itself is active, and no other.
    pub open spec fn refocused(
        fields: Seq<(Seq<char>, F::V)>,
        active: bool,
        focus: nat,
    ) -> Seq<(Seq<char>, F::V)> {
        Seq::new(
            fields.len(),
            |i: int| (fields[i].0, F::activated(fields[i].1, active && i == focus)),
        )
    }

    /// The form without its field at place `i`. A focus beyond the fields
    /// that are left goes back to 'finished'.
    pub open spec fn without_field(v: FormView<F::V>, i: int) -> FormView<F::V> {
        FormView {
            fields: v.fields.remove(i),
            focus: if v.focus > v.fields.len() - 1 {
                (v.fields.len() - 1) as nat
            } else {
                v.focus
            },
            ..v
        }
    }

    /// The errors that the first `upto` fields report, by the name of the
    /// field. A field without errors leaves no entry; of two fields of one
    /// name, the later one counts.
    pub open spec fn collected(fields: Seq<(Seq<char>, F::V)>, upto: int) -> Map<
        Seq<char>,
        Seq<Seq<char>>,
    >
        decreases upto,
    {
        if upto <= 0 {
            Map::empty()
        } else {
            let errors = F::errors_of(fields[upto - 1].1);
            if errors.len() > 0 {
                Self::collected(fields, upto - 1).insert(fields[upto - 1].0, errors)
            } else {
                Self::collected(fields, upto - 1)
            }
        }
    }

    /// The errors that the first `upto` fields report, one after the other.
    pub open spec fn field_errors(fields: Seq<(Seq<char>, F::V)>, upto: int) -> Seq<Seq<char>>
        decreases upto,
    {
        if upto <= 0 {
            Seq::empty()
        } else {
            Self::field_errors(fields, upto - 1) + F::errors_of(fields[upto - 1].1)
        }
    }

    /// The form after a validation: it holds the errors of its fields.
    pub open spec fn validated(v: FormView<F::V>) -> FormView<F::V> {
        FormView { errors: Self::collected(v.fields, v.fields.len() as int), ..v }
    }

    /// The focus of a well-formed form lies on a field or is 'finished'.
    pub broadcast proof fn lemma_wf(&self)
        requires
            #[trigger] self.wf(),
        ensures
            self@.focus <= self@.fields.len(),
            self@.canvas.wf(),
    {
        broadcast use Canvas::lemma_wf;

    }

    /// A form of the given size, without fields.
    pub fn new(w: u32, h: u32, style: FormStyle, options: Option<FormOptions>) -> (form: Self)
        ensures
            form.wf(),
            form@ == Self::new_view(w as nat, h as nat, style, options_view(options)),
    {
        let form = Form {
            canvas: Canvas::new(w, h),
            style,
            options: match options {
                Some(o) => o,
                None => FormOptions::default(),
            },
            index: 0,
            active: false,
            dirty: true,
            fields: Vec::new(),
            errors: ErrorMap::new(),
        };
        form
    }

    /// The width that the form leaves to its fields.
    fn interior(&self) -> (w: u32)
        requires
            self.wf(),
        ensures
            w == interior_width(self@.canvas.width, self@.style),
    {
        let width = self.canvas.get_width();
        if self.style.border.is_some() {
            if width >= 2 {
                width - 2
            } else {
                0
            }
        } else {
            width
        }
    }

    /// Adds `field` below the fields of the form, under the given name. The
    /// field is resized to the width that the form leaves to its fields.
    pub fn add_field(&mut self, name: &str, field: F)
        requires
            old(self).wf(),
            field.wf(),
        ensures
            final(self).wf(),
            final(self)@ == Self::with_field(old(self)@, name@, field@),
            F::width_of(final(self)@.fields.last().1) == interior_width(
                old(self)@.canvas.width,
                old(self)@.style,
            ),
            F::height_of(final(self)@.fields.last().1) == F::height_of(field@),
    {
        let mut field = field;
        let width = self.interior();
        let height = field.get_height();
        field.resize(width, height);
        self.fields.push((name.to_owned(), field));
    }

    /// Makes a field, one row high, and adds it under the given name. Without
    /// a style of its own the field takes that of the form. The field is as
    /// wide as the form leaves room for its fields.
    pub fn build_field(&mut self, name: &str, options: Option<FormOptions>, style: Option<FormStyle>)
        requires
            old(self).wf(),
        ensures
            final(self).wf(),
            final(self)@ == Self::with_field(
                old(self)@,
                name@,
                Self::built_field(old(self)@, options_view(options), style),
            ),
            F::width_of(final(self)@.fields.last().1) == interior_width(
                old(self)@.canvas.width,
                old(self)@.style,
            ),
            F::height_of(final(self)@.fields.last().1) == 1,
    {
        let mut field = F::make(self.canvas.get_width(), 1, options, style);
        if style.is_none() {
            field.set_style(self.style);
        }
        self.add_field(name, field)
    }

    /// Says whether the form is finished: every field was walked through and
    /// the last one confirmed.
    pub fn is_finished(&self) -> (finished: bool)
        requires
            self.wf(),
        ensures
            finished == (self@.focus == self@.fields.len()),
    {
        self.index >= self.fields.len()
    }

    /// The place of the field that has the focus; the number of fields where
    /// the form is finished.
    pub fn focus_index(&self) -> (index: usize)
        ensures
            index == self@.focus,
    {
        self.index
    }

    /// The number of fields.
    pub fn field_count(&self) -> (count: usize)
        ensures
            count == self@.fields.len(),
    {
        self.fields.len()
    }

    /// The field at the given place, if there is one. The form keeps it.
    pub fn field_at(&self, index: usize) -> (field: Option<&F>)
        requires
            self.wf(),
        ensures
            match field {
                Some(f) => index < self@.fields.len() && f.wf() && f@ == self@.fields[index as int].1,
                None => index >= self@.fields.len(),
            },
    {
        if index < self.fields.len() {
            Some(&self.fields[index].1)
        } else {
            None
        }
    }

    /// The place of the first field of the given name, if there is one.
    pub fn field_index(&self, name: &str) -> (found: Option<usize>)
        requires
            self.wf(),
        ensures
            match found {
                Some(i) => i == position(Self::names(self@), name@, 0) && i < self@.fields.len(),
                None => position(Self::names(self@), name@, 0) == -1,
            },
    {
        let mut i: usize = 0;
        while i < self.fields.len()
            invariant
                i <= self.fields.len(),
                position(Self::names(self@), name@, 0) == position(
                    Self::names(self@),
                    name@,
                    i as int,
                ),
            decreases self.fields.len() - i,
        {
            if same_text(self.fields[i].0.as_str(), name) {
                return Some(i);
            }
            i += 1;
        }
        None
    }

    /// Takes the first field of the given name out of the form and hands it
    /// over. The form no longer holds it. Where no field has that name,
    /// nothing is handed over and nothing changes.
    pub fn get_field(&mut self, name: &str) -> (field: Option<F>)
        requires
            old(self).wf(),
        ensures
            final(self).wf(),
            match field {
                Some(f) => {
                    let i = position(Self::names(old(self)@), name@, 0);
                    &&& 0 <= i < old(self)@.fields.len()
                    &&& f.wf()
                    &&& f@ == old(self)@.fields[i].1
                    &&& final(self)@ == Self::without_field(old(self)@, i)
                },
                None => {
                    &&& position(Self::names(old(self)@), name@, 0) == -1
                    &&& final(self)@ == old(self)@
                },
            },
    {
        match self.field_index(name) {
            Some(i) => {
                let (_, field) = self.fields.remove(i);
                if self.index > self.fields.len() {
                    self.index = self.fields.len();
                }
                Some(field)
            },
            None => None,
        }
    }

    /// What the first field of the given name gives out, if there is one.
    pub fn get_result(&self, name: &str) -> (result: Option<FormOutput>)
        requires
            self.wf(),
        ensures
            match result {
                Some(out) => {
                    let i = position(Self::names(self@), name@, 0);
                    0 <= i < self@.fields.len() && out@ == F::output_of(self@.fields[i].1)
                },
                None => position(Self::names(self@), name@, 0) == -1,
            },
    {
        match self.field_index(name) {
            Some(i) => Some(self.fields[i].1.get_output()),
            None => None,
        }
    }

    /// The errors that the last validation found in the fields of the given
    /// name, if it found any. Before the first validation there are none.
    pub fn get_error(&self, name: &str) -> (errors: Option<&FormValidationResult>)
        requires
            self.wf(),
        ensures
            match errors {
                Some(e) => self@.errors.contains_key(name@) && texts(e@) == self@.errors[name@],
                None => !self@.errors.contains_key(name@),
            },
    {
        self.errors.get(name)
    }

    /// Tells every field whether it is the active one.
    fn update_active_field(&mut self)
        requires
            old(self).wf(),
        ensures
            final(self).wf(),
            final(self)@ == (FormView {
                fields: Self::refocused(old(self)@.fields, old(self)@.active, old(self)@.focus),
                ..old(self)@
            }),
            forall|i: int|
                0 <= i < final(self)@.fields.len() ==> F::active_of(
                    (#[trigger] final(self)@.fields[i]).1,
                ) == (old(self)@.active && i == old(self)@.focus),
    {
        let ghost before = self@;
        let mut id: usize = 0;
        while id < self.fields.len()
            invariant
                id <= self.fields.len(),
                self.canvas == old(self).canvas,
                self.style == old(self).style,
                self.options == old(self).options,
                self.active == old(self).active,
                self.index == old(self).index,
                self.dirty == old(self).dirty,
                self.errors == old(self).errors,
                before == old(self)@,
                self.fields.len() == before.fields.len(),
                self.index <= self.fields.len(),
                self.canvas.wf(),
                forall|i: int| 0 <= i < self.fields.len() ==> (#[trigger] self.fields[i]).1.wf(),
                forall|i: int|
                    0 <= i < id ==> (#[trigger] self.fields[i]).1@ == F::activated(
                        before.fields[i].1,
                        before.active && i == before.focus,
                    ) && F::active_of(self.fields[i].1@) == (before.active && i == before.focus),
                forall|i: int|
                    id <= i < self.fields.len() ==> (#[trigger] self.fields[i]).1@
                        == before.fields[i].1,
                forall|i: int|
                    0 <= i < self.fields.len() ==> (#[trigger] self.fields[i]).0@
                        == before.fields[i].0,
            decreases self.fields.len() - id,
        {
            let active = self.active && id == self.index;
            self.fields[id].1.set_active(active);
            id += 1;
        }
    }

    /// The fields after each of them took the event.
    pub open spec fn fields_after_event(
        fields: Seq<(Seq<char>, F::V)>,
        event: Event,
    ) -> Seq<(Seq<char>, F::V)> {
        Seq::new(fields.len(), |i: int| (fields[i].0, F::after_event(fields[i].1, event)))
    }

    /// The fields with each that is not `size` columns wide resized to that
    /// width.
    pub open spec fn fields_fitted(fields: Seq<(Seq<char>, F::V)>, size: nat) -> Seq<
        (Seq<char>, F::V),
    > {
        Seq::new(
            fields.len(),
            |i: int|
                (
                    fields[i].0,
                    if F::width_of(fields[i].1) != size {
                        F::resized(fields[i].1, size, F::height_of(fields[i].1))
                    } else {
                        fields[i].1
                    },
                ),
        )
    }

    /// The fields after each of them drew itself.
    pub open spec fn fields_after_draw(fields: Seq<(Seq<char>, F::V)>, tick: nat) -> Seq<
        (Seq<char>, F::V),
    > {
        Seq::new(fields.len(), |i: int| (fields[i].0, F::after_draw(fields[i].1, tick)))
    }

    /// The column at which the form draws its fields: 1 inside a border,
    /// else 0.
    pub open spec fn padding(v: FormView<F::V>) -> int {
        if v.style.border is Some {
            1
        } else {
            0
        }
    }

    /// The picture of the form when its first `upto` fields are drawn, and
    /// the row at which the next field begins. First comes the border, if
    /// the form has one, then the label of the form, if it has one. Each
    /// field follows below what was drawn before it: its label, if it has
    /// one, takes a row, and then its own picture is stamped.
    pub open spec fn drawn(v: FormView<F::V>, tick: nat, upto: int) -> (Grid, int)
        decreases upto,
    {
        if upto <= 0 {
            let framed = match v.style.border {
                Some(border) => bordered(
                    v.canvas,
                    0,
                    0,
                    sat(v.canvas.width - 1),
                    sat(v.canvas.height() - 1),
                    border,
                ),
                None => v.canvas,
            };
            match v.options.label {
                Some(label) => (framed.printed(1, 0, label), 1),
                None => (framed, Self::padding(v)),
            }
        } else {
            let (grid, row) = Self::drawn(v, tick, upto - 1);
            let field = v.fields[upto - 1].1;
            let (labelled, below) = match F::options_of(field).label {
                Some(label) => (grid.printed(Self::padding(v), row, label), sat(row + 1)),
                None => (grid, row),
            };
            let shown = F::after_draw(field, tick);
            (
                labelled.stamped(Self::padding(v), below, F::canvas_of(shown)),
                sat(below + F::height_of(shown)),
            )
        }
    }

    /// Without an error among the fields, no error is collected.
    pub proof fn lemma_no_errors_collected(fields: Seq<(Seq<char>, F::V)>, upto: int)
        requires
            Self::field_errors(fields, upto).len() == 0,
        ensures
            Self::collected(fields, upto) == Map::<Seq<char>, Seq<Seq<char>>>::empty(),
        decreases upto,
    {
        if upto > 0 {
            Self::lemma_no_errors_collected(fields, upto - 1);
        }
    }

    /// Validates every field and keeps the errors of each field that has
    /// some under the name of the field, in place of the errors of an earlier
    /// validation. Says whether neither a field nor the form itself reported
    /// an error.
    pub fn is_valid(&mut self) -> (valid: bool)
        requires
            old(self).wf(),
        ensures
            final(self).wf(),
            final(self)@ == Self::validated(old(self)@),
            valid == (Self::errors_of(old(self)@).len() == 0),
    {
        let ghost before = self@;
        self.errors.clear();
        let mut i: usize = 0;
        while i < self.fields.len()
            invariant
                i <= self.fields.len(),
                self.wf(),
                self@.fields == before.fields,
                self@ == (FormView { errors: self@.errors, ..before }),
                self@.errors == Self::collected(before.fields, i as int),
            decreases self.fields.len() - i,
        {
            let mut field_errors: FormValidationResult = Vec::new();
            self.fields[i].1.validate(&mut field_errors);
            if !field_errors.is_empty() {
                let name = self.fields[i].0.clone();
                self.errors.insert(name, field_errors);
            }
            i += 1;
        }
        let mut self_errors: FormValidationResult = Vec::new();
        self.validate(&mut self_errors);
        proof {
            if self_errors.len() == 0 {
                Self::lemma_no_errors_collected(before.fields, before.fields.len() as int);
            }
        }
        self.errors.is_empty() && self_errors.is_empty()
    }
}

impl<F: FormField> FormField for Form<F> {
    /// The canvas and the fields are well-formed, and the focus lies on a
    /// field or is 'finished'.
    closed spec fn wf(&self) -> bool {
        &&& self.canvas.wf()
        &&& self.index <= self.fields.len()
        &&& forall|i: int| 0 <= i < self.fields.len() ==> (#[trigger] self.fields[i]).1.wf()
    }

    open spec fn width_of(v: FormView<F::V>) -> nat {
        v.canvas.width
    }

    open spec fn height_of(v: FormView<F::V>) -> nat {
        v.canvas.height()
    }

    open spec fn active_of(v: FormView<F::V>) -> bool {
        v.active
    }

    open spec fn style_of(v: FormView<F::V>) -> FormStyle {
        v.style
    }

    open spec fn options_of(v: FormView<F::V>) -> FormOptionsView {
        v.options
    }

    /// A form reports the errors of its fields, one field after the other,
    /// and then the rules of its own options that its output breaks.
    open spec fn errors_of(v: FormView<F::V>) -> Seq<Seq<char>> {
        Self::field_errors(v.fields, v.fields.len() as int) + own_errors(
            v.options,
            Self::output_of(v),
        )
    }

    /// A form gives out what its fields give out, each with the field's name.
    open spec fn output_of(v: FormView<F::V>) -> OutputView {
        OutputView::Compound(
            Seq::new(v.fields.len(), |i: int| (v.fields[i].0, F::output_of(v.fields[i].1))),
        )
    }

    open spec fn canvas_of(v: FormView<F::V>) -> Grid {
        v.canvas
    }

    open spec fn made(
        w: nat,
        h: nat,
        options: Option<FormOptionsView>,
        style: Option<FormStyle>,
    ) -> FormView<F::V> {
        Self::new_view(
            w,
            h,
            match style {
                Some(s) => s,
                None => FormStyle::plain(),
            },
            options,
        )
    }

    /// Resizing a form resizes its canvas. Its fields keep their size.
    open spec fn resized(v: FormView<F::V>, w: nat, h: nat) -> FormView<F::V> {
        FormView { canvas: v.canvas.resized(w, h), ..v }
    }

    /// Every field takes the event, whatever it is and whichever field has
    /// the focus. A key that moves the focus then moves it, and every field
    /// is told anew whether it is the active one.
    open spec fn after_event(v: FormView<F::V>, event: Event) -> FormView<F::V> {
        let fields = Self::fields_after_event(v.fields, event);
        match event.key() {
            Some(key) => if is_focus_key(key) {
                let focus = next_focus(v.focus, v.fields.len(), key);
                FormView { focus, fields: Self::refocused(fields, v.active, focus), ..v }
            } else {
                FormView { fields, ..v }
            },
            None => FormView { fields, ..v },
        }
    }

    /// A form that is active has the field with its focus active, if there
    /// is one, and no other; a form that is not active has no active field.
    open spec fn activated(v: FormView<F::V>, active: bool) -> FormView<F::V> {
        FormView { active, fields: Self::refocused(v.fields, active, v.focus), ..v }
    }

    /// A new style is to be drawn, and fits every field to the width that
    /// the form leaves to its fields with it.
    open spec fn restyled(v: FormView<F::V>, style: FormStyle) -> FormView<F::V> {
        FormView {
            dirty: true,
            style,
            fields: Self::fields_fitted(v.fields, interior_width(v.canvas.width, style)),
            ..v
        }
    }

    /// New options are to be drawn.
    open spec fn with_options(v: FormView<F::V>, options: FormOptionsView) -> FormView<F::V> {
        FormView { dirty: true, options, ..v }
    }

    /// A form that is not to be drawn keeps its picture and leaves its fields
    /// alone. One that is to be drawn has every field draw itself and draws
    /// them on its canvas, over what was there; with that it is drawn, and
    /// stays so until its style or its options change.
    open spec fn after_draw(v: FormView<F::V>, tick: nat) -> FormView<F::V> {
        if !v.dirty {
            v
        } else {
            FormView {
                canvas: Self::drawn(v, tick, v.fields.len() as int).0,
                fields: Self::fields_after_draw(v.fields, tick),
                dirty: false,
                ..v
            }
        }
    }

    fn make(w: u32, h: u32, options: Option<FormOptions>, style: Option<FormStyle>) -> (f: Self) {
        let style = match style {
            Some(s) => s,
            None => FormStyle::default(),
        };
        Self::new(w, h, style, options)
    }

    fn get_width(&self) -> (w: u32) {
        self.canvas.get_width()
    }

    fn get_height(&self) -> (h: u32) {
        self.canvas.get_height()
    }

    fn resize(&mut self, w: u32, h: u32) {
        broadcast use Canvas::lemma_wf;

        self.canvas.resize(w, h);
    }

    fn handle_event(&mut self, event: &Event)
        ensures
            event.key() is Some && is_focus_key(event.key()->0) ==> forall|i: int|
                0 <= i < final(self)@.fields.len() ==> F::active_of(
                    (#[trigger] final(self)@.fields[i]).1,
                ) == (final(self)@.active && i == final(self)@.focus),
    {
        let ghost before = self@;
        let mut id: usize = 0;
        while id < self.fields.len()
            invariant
                id <= self.fields.len(),
                self.wf(),
                self@ == (FormView { fields: self@.fields, ..before }),
                self@.fields.len() == before.fields.len(),
                forall|i: int|
                    0 <= i < id ==> #[trigger] self@.fields[i] == Self::fields_after_event(
                        before.fields,
                        *event,
                    )[i],
                forall|i: int| id <= i < self.fields.len() ==> #[trigger] self@.fields[i] == before.fields[i],
            decreases self.fields.len() - id,
        {
            let ghost prior = self@;
            self.fields[id].1.handle_event(event);
            proof {
                assert forall|i: int| 0 <= i < self.fields.len() implies #[trigger] self@.fields[i]
                    == if i == id {
                    (prior.fields[i].0, F::after_event(prior.fields[i].1, *event))
                } else {
                    prior.fields[i]
                } by {}
            }
            id += 1;
        }
        assert(self@.fields =~= Self::fields_after_event(before.fields, *event));
        match event {
            Event::Key(key) => {
                match key.code {
                    KeyCode::Enter => {
                        if self.index < self.fields.len() {
                            self.index = self.index + 1;
                        }
                        self.update_active_field();
                    },
                    KeyCode::Tab => {
                        if self.fields.len() > 0 {
                            if self.index < self.fields.len() - 1 {
                                self.index = self.index + 1;
                            } else {
                                self.index = self.fields.len() - 1;
                            }
                        }
                        self.update_active_field();
                    },
                    KeyCode::BackTab => {
                        if self.index > 0 {
                            self.index = self.index - 1;
                        }
                        self.update_active_field();
                    },
                    _ => {},
                }
            },
            _ => {},
        }
    }

    fn set_active(&mut self, active: bool)
        ensures
            forall|i: int|
                0 <= i < final(self)@.fields.len() ==> F::active_of(
                    (#[trigger] final(self)@.fields[i]).1,
                ) == (active && i == final(self)@.focus),
    {
        self.active = active;
        self.update_active_field();
    }

    fn is_active(&self) -> (active: bool) {
        self.active
    }

    fn validate(&self, result: &mut FormValidationResult) {
        let ghost before = texts(result@);
        let mut i: usize = 0;
        while i < self.fields.len()
            invariant
                i <= self.fields.len(),
                self.wf(),
                texts(result@) == before + Self::field_errors(self@.fields, i as int),
            decreases self.fields.len() - i,
        {
            self.fields[i].1.validate(result);
            i += 1;
        }
        let output = self.get_output();
        check_constraints(&self.options, &output, result);
    }

    fn get_output(&self) -> (out: FormOutput) {
        let mut entries: Vec<(String, FormOutput)> = Vec::new();
        let mut i: usize = 0;
        while i < self.fields.len()
            invariant
                i <= self.fields.len(),
                self.wf(),
                entries.len() == i,
                forall|j: int|
                    0 <= j < i ==> (#[trigger] entries[j]).0@ == self@.fields[j].0 && entries[j].1@
                        == F::output_of(self@.fields[j].1),
            decreases self.fields.len() - i,
        {
            let name = self.fields[i].0.clone();
            let output = self.fields[i].1.get_output();
            entries.push((name, output));
            i += 1;
        }
        let out = FormOutput::Compound(entries);
        proof {
            assert(out@ matches OutputView::Compound(list) && list =~= Seq::new(
                self@.fields.len(),
                |i: int| (self@.fields[i].0, F::output_of(self@.fields[i].1)),
            ));
        }
        out
    }

    fn set_style(&mut self, style: FormStyle)
        ensures
            final(self)@.fields.len() == old(self)@.fields.len(),
            forall|i: int|
                0 <= i < final(self)@.fields.len() ==> F::width_of(
                    (#[trigger] final(self)@.fields[i]).1,
                ) == interior_width(old(self)@.canvas.width, style) && F::height_of(
                    final(self)@.fields[i].1,
                ) == F::height_of(old(self)@.fields[i].1),
    {
        self.dirty = true;
        self.style = style;
        let size = self.interior();
        let ghost before = old(self)@;
        let mut id: usize = 0;
        while id < self.fields.len()
            invariant
                id <= self.fields.len(),
                self.wf(),
                self@ == (FormView { dirty: true, style, fields: self@.fields, ..before }),
                self@.fields.len() == before.fields.len(),
                size == interior_width(before.canvas.width, style),
                forall|i: int|
                    0 <= i < id ==> #[trigger] self@.fields[i] == Self::fields_fitted(
                        before.fields,
                        size as nat,
                    )[i],
                forall|i: int|
                    0 <= i < id ==> F::width_of((#[trigger] self@.fields[i]).1) == size
                        && F::height_of(self@.fields[i].1) == F::height_of(before.fields[i].1),
                forall|i: int| id <= i < self.fields.len() ==> #[trigger] self@.fields[i] == before.fields[i],
            decreases self.fields.len() - id,
        {
            let ghost prior = self@;
            assert(prior.fields[id as int] == (self.fields[id as int].0@, self.fields[id as int].1@));
            if self.fields[id].1.get_width() != size {
                let height = self.fields[id].1.get_height();
                self.fields[id].1.resize(size, height);
                proof {
                    assert forall|i: int| 0 <= i < self.fields.len() implies #[trigger] self@.fields[i]
                        == if i == id {
                        (
                            prior.fields[i].0,
                            F::resized(prior.fields[i].1, size as nat, F::height_of(prior.fields[i].1)),
                        )
                    } else {
                        prior.fields[i]
                    } by {}
                }
            }
            id += 1;
        }
        assert(self@.fields =~= Self::fields_fitted(before.fields, size as nat));
    }

    fn get_style(&self) -> (style: &FormStyle) {
        &self.style
    }

    fn set_options(&mut self, options: FormOptions) {
        self.dirty = true;
        self.options = options;
    }

    fn get_options(&self) -> (options: &FormOptions) {
        &self.options
    }

    fn draw(&mut self, tick: usize) -> (canvas: &Canvas) {
        broadcast use Canvas::lemma_wf;

        let ghost before = self@;
        if self.dirty {
            let mut padding: i32 = 0;
            match self.style.border {
                Some(border) => {
                    let right = sat_i32(self.canvas.get_width() as i64 - 1);
                    let bottom = sat_i32(self.canvas.get_height() as i64 - 1);
                    self.canvas.rect_border(0, 0, right, bottom, border);
                    padding = 1;
                },
                None => {},
            }
            let mut row: i32 = padding;
            match &self.options.label {
                Some(label) => {
                    self.canvas.print(1, 0, label.as_str());
                    row = 1;
                },
                None => {},
            }
            let mut id: usize = 0;
            while id < self.fields.len()
                invariant
                    id <= self.fields.len(),
                    self.wf(),
                    padding == Self::padding(before),
                    self@ == (FormView { canvas: self@.canvas, fields: self@.fields, ..before }),
                    self@.fields.len() == before.fields.len(),
                    (self@.canvas, row as int) == Self::drawn(before, tick as nat, id as int),
                    forall|i: int|
                        0 <= i < id ==> #[trigger] self@.fields[i] == Self::fields_after_draw(
                            before.fields,
                            tick as nat,
                        )[i],
                    forall|i: int|
                        id <= i < self.fields.len() ==> #[trigger] self@.fields[i] == before.fields[i],
                decreases self.fields.len() - id,
            {
                let ghost prior = self@;
                assert(prior.fields[id as int] == (self.fields[id as int].0@, self.fields[id as int].1@));
                match &self.fields[id].1.get_options().label {
                    Some(label) => {
                        self.canvas.print(padding, row, label.as_str());
                        row = sat_i32(row as i64 + 1);
                    },
                    None => {},
                }
                let picture = self.fields[id].1.draw(tick);
                self.canvas.stamp(padding, row, picture);
                let height = self.fields[id].1.get_height();
                row = sat_i32(row as i64 + height as i64);
                proof {
                    assert forall|i: int| 0 <= i < self.fields.len() implies #[trigger] self@.fields[i]
                        == if i == id {
                        (prior.fields[i].0, F::after_draw(prior.fields[i].1, tick as nat))
                    } else {
                        prior.fields[i]
                    } by {}
                }
                id += 1;
            }
            self.dirty = false;
            assert(self@.fields =~= Self::fields_after_draw(before.fields, tick as nat));
        }
        &self.canvas
    }
}

} // verus!
