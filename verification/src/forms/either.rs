//! Fields of two kinds in one form.
//!
//! A form holds fields of one type. `Either` makes one type of two, so that a
//! form of `Either<Text, Form<Text>>` holds text inputs and nested forms side
//! by side; more kinds nest in the same way.

use vstd::prelude::*;
use crate::canvas::Canvas;
use crate::events::Event;
use crate::forms::form::{position, Form};
use crate::forms::{
    FormField, FormOptions, FormOptionsView, FormOutput, FormStyle, FormValidationResult,
    OutputView,
};
use crate::grid::Grid;

verus! {

/// A field of one of two kinds.
pub enum Either<L, R> {
    Left(L),
    Right(R),
}

/// The model of a field of one of two kinds.
pub enum EitherView<LV, RV> {
    Left(LV),
    Right(RV),
}

impl<L: FormField, R: FormField> View for Either<L, R> {
    type V = EitherView<L::V, R::V>;

    open spec fn view(&self) -> EitherView<L::V, R::V> {
        match self {
            Either::Left(l) => EitherView::Left(l@),
            Either::Right(r) => EitherView::Right(r@),
        }
    }
}

/// Whatever a field of two kinds is asked, the field that it holds answers.
impl<L: FormField, R: FormField> FormField for Either<L, R> {
    open spec fn wf(&self) -> bool {
        match self {
            Either::Left(l) => l.wf(),
            Either::Right(r) => r.wf(),
        }
    }

    open spec fn width_of(v: EitherView<L::V, R::V>) -> nat {
        match v {
            EitherView::Left(l) => L::width_of(l),
            EitherView::Right(r) => R::width_of(r),
        }
    }

    open spec fn height_of(v: EitherView<L::V, R::V>) -> nat {
        match v {
            EitherView::Left(l) => L::height_of(l),
            EitherView::Right(r) => R::height_of(r),
        }
    }

    open spec fn active_of(v: EitherView<L::V, R::V>) -> bool {
        match v {
            EitherView::Left(l) => L::active_of(l),
            EitherView::Right(r) => R::active_of(r),
        }
    }

    open spec fn style_of(v: EitherView<L::V, R::V>) -> FormStyle {
        match v {
            EitherView::Left(l) => L::style_of(l),
            EitherView::Right(r) => R::style_of(r),
        }
    }

    open spec fn options_of(v: EitherView<L::V, R::V>) -> FormOptionsView {
        match v {
            EitherView::Left(l) => L::options_of(l),
            EitherView::Right(r) => R::options_of(r),
        }
    }

    open spec fn errors_of(v: EitherView<L::V, R::V>) -> Seq<Seq<char>> {
        match v {
            EitherView::Left(l) => L::errors_of(l),
            EitherView::Right(r) => R::errors_of(r),
        }
    }

    open spec fn output_of(v: EitherView<L::V, R::V>) -> OutputView {
        match v {
            EitherView::Left(l) => L::output_of(l),
            EitherView::Right(r) => R::output_of(r),
        }
    }

    open spec fn canvas_of(v: EitherView<L::V, R::V>) -> Grid {
        match v {
            EitherView::Left(l) => L::canvas_of(l),
            EitherView::Right(r) => R::canvas_of(r),
        }
    }

    /// A field of two kinds is made as one of the left kind.
    open spec fn made(
        w: nat,
        h: nat,
        options: Option<FormOptionsView>,
        style: Option<FormStyle>,
    ) -> EitherView<L::V, R::V> {
        EitherView::Left(L::made(w, h, options, style))
    }

    open spec fn resized(v: EitherView<L::V, R::V>, w: nat, h: nat) -> EitherView<L::V, R::V> {
        match v {
            EitherView::Left(l) => EitherView::Left(L::resized(l, w, h)),
            EitherView::Right(r) => EitherView::Right(R::resized(r, w, h)),
        }
    }

    open spec fn after_event(v: EitherView<L::V, R::V>, event: Event) -> EitherView<L::V, R::V> {
        match v {
            EitherView::Left(l) => EitherView::Left(L::after_event(l, event)),
            EitherView::Right(r) => EitherView::Right(R::after_event(r, event)),
        }
    }

    open spec fn activated(v: EitherView<L::V, R::V>, active: bool) -> EitherView<L::V, R::V> {
        match v {
            EitherView::Left(l) => EitherView::Left(L::activated(l, active)),
            EitherView::Right(r) => EitherView::Right(R::activated(r, active)),
        }
    }

    open spec fn restyled(v: EitherView<L::V, R::V>, style: FormStyle) -> EitherView<L::V, R::V> {
        match v {
            EitherView::Left(l) => EitherView::Left(L::restyled(l, style)),
            EitherView::Right(r) => EitherView::Right(R::restyled(r, style)),
        }
    }

    open spec fn with_options(v: EitherView<L::V, R::V>, options: FormOptionsView) -> EitherView<
        L::V,
        R::V,
    > {
        match v {
            EitherView::Left(l) => EitherView::Left(L::with_options(l, options)),
            EitherView::Right(r) => EitherView::Right(R::with_options(r, options)),
        }
    }

    open spec fn after_draw(v: EitherView<L::V, R::V>, tick: nat) -> EitherView<L::V, R::V> {
        match v {
            EitherView::Left(l) => EitherView::Left(L::after_draw(l, tick)),
            EitherView::Right(r) => EitherView::Right(R::after_draw(r, tick)),
        }
    }

    fn make(w: u32, h: u32, options: Option<FormOptions>, style: Option<FormStyle>) -> (f: Self) {
        Either::Left(L::make(w, h, options, style))
    }

    fn get_width(&self) -> (w: u32) {
        match self {
            Either::Left(l) => l.get_width(),
            Either::Right(r) => r.get_width(),
        }
    }

    fn get_height(&self) -> (h: u32) {
        match self {
            Either::Left(l) => l.get_height(),
            Either::Right(r) => r.get_height(),
        }
    }

    fn resize(&mut self, w: u32, h: u32) {
        match self {
            Either::Left(l) => l.resize(w, h),
            Either::Right(r) => r.resize(w, h),
        }
    }

    fn handle_event(&mut self, event: &Event) {
        match self {
            Either::Left(l) => l.handle_event(event),
            Either::Right(r) => r.handle_event(event),
        }
    }

    fn set_active(&mut self, active: bool) {
        match self {
            Either::Left(l) => l.set_active(active),
            Either::Right(r) => r.set_active(active),
        }
    }

    fn is_active(&self) -> (active: bool) {
        match self {
            Either::Left(l) => l.is_active(),
            Either::Right(r) => r.is_active(),
        }
    }

    fn validate(&self, result: &mut FormValidationResult) {
        match self {
            Either::Left(l) => l.validate(result),
            Either::Right(r) => r.validate(result),
        }
    }

    fn get_output(&self) -> (out: FormOutput) {
        match self {
            Either::Left(l) => l.get_output(),
            Either::Right(r) => r.get_output(),
        }
    }

    fn set_style(&mut self, style: FormStyle) {
        match self {
            Either::Left(l) => l.set_style(style),
            Either::Right(r) => r.set_style(style),
        }
    }

    fn get_style(&self) -> (style: &FormStyle) {
        match self {
            Either::Left(l) => l.get_style(),
            Either::Right(r) => r.get_style(),
        }
    }

    fn set_options(&mut self, options: FormOptions) {
        match self {
            Either::Left(l) => l.set_options(options),
            Either::Right(r) => r.set_options(options),
        }
    }

    fn get_options(&self) -> (options: &FormOptions) {
        match self {
            Either::Left(l) => l.get_options(),
            Either::Right(r) => r.get_options(),
        }
    }

    fn draw(&mut self, tick: usize) -> (canvas: &Canvas) {
        match self {
            Either::Left(l) => l.draw(tick),
            Either::Right(r) => r.draw(tick),
        }
    }
}

impl<L: FormField, R: FormField> Form<Either<L, R>> {
    /// Takes the first field of the given name out of the form and hands it
    /// over, if it is of the left kind. Where it is of the right kind, or
    /// where no field has that name, nothing is handed over and nothing
    /// changes: to the caller the two cases are alike.
    pub fn get_left(&mut self, name: &str) -> (field: Option<L>)
        requires
            old(self).wf(),
        ensures
            final(self).wf(),
            ({
                let i = position(Self::names(old(self)@), name@, 0);
                match field {
                    Some(l) => {
                        &&& 0 <= i < old(self)@.fields.len()
                        &&& l.wf()
                        &&& old(self)@.fields[i].1 == EitherView::<L::V, R::V>::Left(l@)
                        &&& final(self)@ == Self::without_field(old(self)@, i)
                    },
                    None => {
                        &&& final(self)@ == old(self)@
                        &&& i == -1 || (0 <= i < old(self)@.fields.len() && old(
                            self,
                        )@.fields[i].1 is Right)
                    },
                }
            }),
    {
        let is_left = match self.field_index(name) {
            Some(i) => match self.field_at(i) {
                Some(Either::Left(_)) => true,
                _ => false,
            },
            None => false,
        };
        if is_left {
            match self.get_field(name) {
                Some(Either::Left(l)) => Some(l),
                _ => None,
            }
        } else {
            None
        }
    }

    /// Takes the first field of the given name out of the form and hands it
    /// over, if it is of the right kind. Where it is of the left kind, or
    /// where no field has that name, nothing is handed over and nothing
    /// changes.
    pub fn get_right(&mut self, name: &str) -> (field: Option<R>)
        requires
            old(self).wf(),
        ensures
            final(self).wf(),
            ({
                let i = position(Self::names(old(self)@), name@, 0);
                match field {
                    Some(r) => {
                        &&& 0 <= i < old(self)@.fields.len()
                        &&& r.wf()
                        &&& old(self)@.fields[i].1 == EitherView::<L::V, R::V>::Right(r@)
                        &&& final(self)@ == Self::without_field(old(self)@, i)
                    },
                    None => {
                        &&& final(self)@ == old(self)@
                        &&& i == -1 || (0 <= i < old(self)@.fields.len() && old(
                            self,
                        )@.fields[i].1 is Left)
                    },
                }
            }),
    {
        let is_right = match self.field_index(name) {
            Some(i) => match self.field_at(i) {
                Some(Either::Right(_)) => true,
                _ => false,
            },
            None => false,
        };
        if is_right {
            match self.get_field(name) {
                Some(Either::Right(r)) => Some(r),
                _ => None,
            }
        } else {
            None
        }
    }
}

} // verus!
