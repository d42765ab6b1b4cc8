//! What holds of every form, whatever its fields are.

use vstd::prelude::*;
use crate::events::{Event, KeyCode, KeyEvent, KeyModifiers};
use crate::forms::form::{next_focus, Form, FormView};
use crate::forms::{own_errors, FormField, FormOptionsView, FormStyle, OutputView};

verus! {

/// No key takes the focus beyond 'finished'.
pub proof fn lemma_focus_stays(focus: nat, count: nat, key: KeyCode)
    requires
        focus <= count,
    ensures
        next_focus(focus, count, key) <= count,
{
}

/// Tab never finishes a form that has a field: it stays on the last field.
pub proof fn lemma_tab_never_finishes(focus: nat, count: nat)
    requires
        count > 0,
    ensures
        next_focus(focus, count, KeyCode::Tab) < count,
{
}

/// From the last field Enter finishes the form, and Tab stays where it is.
/// Once the form is finished, Enter changes nothing.
pub proof fn lemma_keys_on_last_field<F: FormField>(v: FormView<F::V>, modifiers: KeyModifiers)
    requires
        v.fields.len() >= 1,
        v.focus == v.fields.len() - 1,
    ensures
        ({
            let enter = Event::Key(KeyEvent { code: KeyCode::Enter, modifiers });
            let tab = Event::Key(KeyEvent { code: KeyCode::Tab, modifiers });
            &&& Form::<F>::after_event(v, enter).focus == v.fields.len()
            &&& Form::<F>::after_event(v, enter).fields.len() == v.fields.len()
            &&& Form::<F>::after_event(Form::<F>::after_event(v, enter), enter).focus
                == v.fields.len()
            &&& Form::<F>::after_event(v, tab).focus == v.fields.len() - 1
        }),
{
}

/// A form without fields whose own rules have nothing against an empty
/// output is valid, and its validation leaves no error.
pub proof fn lemma_valid_without_fields<F: FormField>(v: FormView<F::V>)
    requires
        v.fields.len() == 0,
        own_errors(v.options, OutputView::Compound(Seq::empty())).len() == 0,
    ensures
        Form::<F>::errors_of(v).len() == 0,
        Form::<F>::validated(v).errors == Map::<Seq<char>, Seq<Seq<char>>>::empty(),
{
    assert(Form::<F>::output_of(v) == OutputView::Compound(Seq::empty())) by {
        assert(Form::<F>::output_of(v)->Compound_0 =~= Seq::empty());
    }
}

/// A form that was drawn is not drawn again: until its style or its options
/// change, drawing it leaves the form, its fields and its picture as they
/// are, at whatever tick. A change of style or options has it drawn anew.
pub proof fn lemma_draw_settles<F: FormField>(v: FormView<F::V>, first: nat, second: nat)
    ensures
        !Form::<F>::after_draw(v, first).dirty,
        Form::<F>::after_draw(Form::<F>::after_draw(v, first), second) == Form::<F>::after_draw(
            v,
            first,
        ),
        forall|style: FormStyle| (#[trigger] Form::<F>::restyled(v, style)).dirty,
        forall|options: FormOptionsView| (#[trigger] Form::<F>::with_options(v, options)).dirty,
{
}

/// A second validation finds what the first one found.
pub proof fn lemma_validation_repeats<F: FormField>(v: FormView<F::V>)
    ensures
        Form::<F>::validated(Form::<F>::validated(v)) == Form::<F>::validated(v),
        Form::<F>::errors_of(Form::<F>::validated(v)) == Form::<F>::errors_of(v),
{
}

} // verus!
