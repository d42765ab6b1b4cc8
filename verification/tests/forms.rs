use console_engine::canvas::Canvas;
use console_engine::events::{Event, KeyCode, KeyEvent, KeyModifiers};
use console_engine::forms::either::Either;
use console_engine::forms::form::Form;
use console_engine::forms::text::Text;
use console_engine::forms::{
    check_constraints, same_text, FormConstraint, FormField, FormOptions, FormOutput, FormStyle,
};
use console_engine::pixel::{pxl_plain, Color};
use console_engine::rect_style::BorderStyle;

fn key(code: KeyCode) -> Event {
    Event::Key(KeyEvent {
        code,
        modifiers: KeyModifiers { shift: false, control: false, alt: false },
    })
}

fn plain() -> FormStyle {
    FormStyle::default()
}

fn bordered() -> FormStyle {
    FormStyle { border: Some(BorderStyle::new_simple()), fg: Color::Reset, bg: Color::Reset }
}

fn required(message: &str) -> FormOptions {
    FormOptions { label: None, constraints: vec![FormConstraint::NotBlank(String::from(message))] }
}

fn labelled(label: &str) -> FormOptions {
    FormOptions { label: Some(String::from(label)), constraints: vec![] }
}

/// A form with two text fields, `first` and `second`.
fn two_fields() -> Form<Text> {
    let mut form: Form<Text> = Form::new(12, 4, plain(), None);
    form.build_field("first", None, None);
    form.build_field("second", None, None);
    form
}

fn type_text<F: FormField>(form: &mut F, text: &str) {
    for c in text.chars() {
        form.handle_event(&key(KeyCode::Char(c)));
    }
}

fn text_of(out: &FormOutput) -> String {
    match out {
        FormOutput::String(s) => s.clone(),
        _ => panic!("not a text"),
    }
}

fn rows(c: &Canvas) -> Vec<String> {
    let mut out = Vec::new();
    for y in 0..c.get_height() as i32 {
        let mut row = String::new();
        for x in 0..c.get_width() as i32 {
            row.push(c.get_cell(x, y).unwrap().chr);
        }
        out.push(row);
    }
    out
}

#[test]
fn same_text_compares_by_characters() {
    assert!(same_text("", ""));
    assert!(same_text("name", "name"));
    assert!(!same_text("name", "names"));
    assert!(!same_text("names", "name"));
    assert!(!same_text("name", "nape"));
    assert!(!same_text("", "x"));
    assert!(same_text("é╔", "é╔"));
}

#[test]
fn default_style_has_no_border() {
    let s = FormStyle::default();
    assert!(s.border.is_none());
    assert_eq!(s.fg, Color::Reset);
    assert_eq!(s.bg, Color::Reset);
    let o = FormOptions::default();
    assert!(o.label.is_none());
    assert!(o.constraints.is_empty());
}

#[test]
fn output_is_blank() {
    assert!(FormOutput::Nothing.is_blank());
    assert!(!FormOutput::Bool(false).is_blank());
    assert!(FormOutput::String(String::new()).is_blank());
    assert!(!FormOutput::String(String::from(" ")).is_blank());
    assert!(FormOutput::Compound(vec![]).is_blank());
    assert!(!FormOutput::Compound(vec![(String::from("a"), FormOutput::Nothing)]).is_blank());
}

#[test]
fn check_constraints_appends_the_messages_of_broken_rules() {
    let options = FormOptions {
        label: None,
        constraints: vec![
            FormConstraint::NotBlank(String::from("one")),
            FormConstraint::NotBlank(String::from("two")),
        ],
    };
    let mut result = vec![String::from("before")];
    check_constraints(&options, &FormOutput::String(String::from("x")), &mut result);
    assert_eq!(result, vec!["before"]);
    check_constraints(&options, &FormOutput::String(String::new()), &mut result);
    assert_eq!(result, vec!["before", "one", "two"]);
}

#[test]
fn new_form_is_empty_and_unfinished_only_without_fields() {
    let form: Form<Text> = Form::new(12, 4, plain(), None);
    assert_eq!(form.get_width(), 12);
    assert_eq!(form.get_height(), 4);
    assert_eq!(form.field_count(), 0);
    assert_eq!(form.focus_index(), 0);
    assert!(!form.is_active());
    assert!(form.is_finished());
    assert!(form.get_error("x").is_none());
    assert!(form.get_result("x").is_none());
    assert!(form.get_options().label.is_none());
    assert!(form.get_style().border.is_none());
    let form = two_fields();
    assert!(!form.is_finished());
}

#[test]
fn make_builds_a_form() {
    let form: Form<Text> = Form::make(7, 3, Some(labelled("L")), Some(bordered()));
    assert_eq!(form.get_width(), 7);
    assert_eq!(form.get_height(), 3);
    assert_eq!(form.get_options().label.as_deref(), Some("L"));
    assert!(form.get_style().border.is_some());
    let form: Form<Text> = Form::make(7, 3, None, None);
    assert!(form.get_style().border.is_none());
}

#[test]
fn is_finished_when_the_focus_is_past_the_last_field() {
    let mut form = two_fields();
    assert_eq!(form.focus_index(), 0);
    assert!(!form.is_finished());
    form.handle_event(&key(KeyCode::Enter));
    assert_eq!(form.focus_index(), 1);
    assert!(!form.is_finished());
    form.handle_event(&key(KeyCode::Tab));
    assert_eq!(form.focus_index(), 1);
    assert!(!form.is_finished());
    form.handle_event(&key(KeyCode::Enter));
    assert_eq!(form.focus_index(), form.field_count());
    assert!(form.is_finished());
}

#[test]
fn tab_stays_on_the_last_field() {
    let mut form = two_fields();
    let mut seen = vec![];
    for _ in 0..3 {
        form.handle_event(&key(KeyCode::Tab));
        seen.push(form.focus_index());
    }
    assert_eq!(seen, vec![1, 1, 1]);
    assert!(!form.is_finished());
}

#[test]
fn enter_reaches_finished_and_stays() {
    let mut form = two_fields();
    let mut seen = vec![];
    for _ in 0..3 {
        form.handle_event(&key(KeyCode::Enter));
        seen.push(form.focus_index());
    }
    assert_eq!(seen, vec![1, 2, 2]);
    assert!(form.is_finished());
}

#[test]
fn back_tab_goes_back_and_stays_on_the_first_field() {
    let mut form = two_fields();
    form.handle_event(&key(KeyCode::Enter));
    form.handle_event(&key(KeyCode::Enter));
    assert_eq!(form.focus_index(), 2);
    form.handle_event(&key(KeyCode::BackTab));
    assert_eq!(form.focus_index(), 1);
    form.handle_event(&key(KeyCode::BackTab));
    assert_eq!(form.focus_index(), 0);
    form.handle_event(&key(KeyCode::BackTab));
    assert_eq!(form.focus_index(), 0);
}

#[test]
fn tab_leaves_finished_for_the_last_field() {
    let mut form = two_fields();
    form.handle_event(&key(KeyCode::Enter));
    form.handle_event(&key(KeyCode::Enter));
    assert!(form.is_finished());
    form.handle_event(&key(KeyCode::Tab));
    assert_eq!(form.focus_index(), 1);
}

#[test]
fn focus_keys_on_a_form_without_fields() {
    let mut form: Form<Text> = Form::new(5, 2, plain(), None);
    for code in [KeyCode::Tab, KeyCode::Enter, KeyCode::BackTab, KeyCode::Char('x')] {
        form.handle_event(&key(code));
        assert_eq!(form.focus_index(), 0);
        assert!(form.is_finished());
    }
}

#[test]
fn other_events_do_not_move_the_focus() {
    let mut form = two_fields();
    form.handle_event(&key(KeyCode::Enter));
    for event in [key(KeyCode::Char('a')), key(KeyCode::Esc), Event::Frame, Event::Resize(80, 24)] {
        form.handle_event(&event);
        assert_eq!(form.focus_index(), 1);
    }
}

#[test]
fn one_field_is_active_while_the_form_is() {
    let mut form = two_fields();
    assert!(!form.field_at(0).unwrap().is_active());
    assert!(!form.field_at(1).unwrap().is_active());
    form.set_active(true);
    assert!(form.is_active());
    assert!(form.field_at(0).unwrap().is_active());
    assert!(!form.field_at(1).unwrap().is_active());
    form.handle_event(&key(KeyCode::Tab));
    assert!(!form.field_at(0).unwrap().is_active());
    assert!(form.field_at(1).unwrap().is_active());
    form.handle_event(&key(KeyCode::Enter));
    assert!(!form.field_at(0).unwrap().is_active());
    assert!(!form.field_at(1).unwrap().is_active());
    form.handle_event(&key(KeyCode::BackTab));
    assert!(form.field_at(1).unwrap().is_active());
    form.set_active(false);
    assert!(!form.is_active());
    assert!(!form.field_at(0).unwrap().is_active());
    assert!(!form.field_at(1).unwrap().is_active());
    form.handle_event(&key(KeyCode::BackTab));
    assert_eq!(form.focus_index(), 0);
    assert!(!form.field_at(0).unwrap().is_active());
}

#[test]
fn the_active_field_takes_the_keys() {
    let mut form = two_fields();
    type_text(&mut form, "lost");
    form.set_active(true);
    type_text(&mut form, "abc");
    form.handle_event(&key(KeyCode::Backspace));
    form.handle_event(&key(KeyCode::Tab));
    type_text(&mut form, "xy");
    assert_eq!(text_of(&form.get_result("first").unwrap()), "ab");
    assert_eq!(text_of(&form.get_result("second").unwrap()), "xy");
    assert_eq!(form.field_at(0).unwrap().get_input(), "ab");
    assert!(form.get_result("third").is_none());
}

#[test]
fn text_backspace_on_empty_text() {
    let mut text = Text::make(5, 1, None, None);
    text.set_active(true);
    text.handle_event(&key(KeyCode::Backspace));
    assert_eq!(text.get_input(), "");
    text.handle_event(&key(KeyCode::Char('a')));
    text.handle_event(&key(KeyCode::Left));
    text.handle_event(&Event::Frame);
    assert_eq!(text.get_input(), "a");
    text.set_active(false);
    text.handle_event(&key(KeyCode::Char('b')));
    text.handle_event(&key(KeyCode::Backspace));
    assert_eq!(text.get_input(), "a");
}

#[test]
fn text_draws_its_input() {
    let mut text = Text::make(4, 2, None, None);
    text.set_active(true);
    for c in "hello".chars() {
        text.handle_event(&key(KeyCode::Char(c)));
    }
    assert_eq!(rows(text.draw(0)), vec!["hell", "    "]);
    text.handle_event(&key(KeyCode::Backspace));
    text.handle_event(&key(KeyCode::Backspace));
    text.handle_event(&key(KeyCode::Backspace));
    assert_eq!(rows(text.draw(1)), vec!["he  ", "    "]);
    text.resize(2, 1);
    assert_eq!(text.get_width(), 2);
    assert_eq!(text.get_height(), 1);
    assert_eq!(rows(text.draw(2)), vec!["he"]);
}

#[test]
fn text_keeps_style_and_options() {
    let mut text = Text::make(4, 1, Some(labelled("Name")), Some(bordered()));
    assert_eq!(text.get_options().label.as_deref(), Some("Name"));
    assert!(text.get_style().border.is_some());
    text.set_style(plain());
    text.set_options(required("needed"));
    assert!(text.get_style().border.is_none());
    assert!(text.get_options().label.is_none());
    let mut errors = vec![];
    text.validate(&mut errors);
    assert_eq!(errors, vec!["needed"]);
}

#[test]
fn add_field_fits_the_field_to_the_form() {
    let mut form: Form<Text> = Form::new(12, 4, plain(), None);
    form.add_field("a", Text::make(3, 2, None, None));
    assert_eq!(form.field_at(0).unwrap().get_width(), 12);
    assert_eq!(form.field_at(0).unwrap().get_height(), 2);
    let mut form: Form<Text> = Form::new(12, 4, bordered(), None);
    form.add_field("a", Text::make(30, 1, None, None));
    assert_eq!(form.field_at(0).unwrap().get_width(), 10);
    let mut form: Form<Text> = Form::new(1, 4, bordered(), None);
    form.add_field("a", Text::make(30, 1, None, None));
    assert_eq!(form.field_at(0).unwrap().get_width(), 0);
}

#[test]
fn build_field_makes_a_field_of_one_row() {
    let mut form: Form<Text> = Form::new(12, 4, bordered(), None);
    form.build_field("a", Some(labelled("A")), None);
    form.build_field("b", None, Some(plain()));
    assert_eq!(form.field_count(), 2);
    let a = form.field_at(0).unwrap();
    assert_eq!((a.get_width(), a.get_height()), (10, 1));
    assert_eq!(a.get_options().label.as_deref(), Some("A"));
    assert!(a.get_style().border.is_some());
    let b = form.field_at(1).unwrap();
    assert_eq!((b.get_width(), b.get_height()), (10, 1));
    assert!(b.get_style().border.is_none());
    assert!(form.field_at(2).is_none());
}

#[test]
fn set_style_fits_every_field_again() {
    let mut form = two_fields();
    assert_eq!(form.field_at(0).unwrap().get_width(), 12);
    form.set_style(bordered());
    assert!(form.get_style().border.is_some());
    assert_eq!(form.field_at(0).unwrap().get_width(), 10);
    assert_eq!(form.field_at(1).unwrap().get_width(), 10);
    form.set_style(plain());
    assert_eq!(form.field_at(0).unwrap().get_width(), 12);
    assert_eq!(form.field_at(1).unwrap().get_width(), 12);
}

#[test]
fn resize_changes_the_canvas_of_the_form() {
    let mut form = two_fields();
    form.resize(20, 6);
    assert_eq!((form.get_width(), form.get_height()), (20, 6));
    assert_eq!(form.field_at(0).unwrap().get_width(), 12);
}

#[test]
fn get_field_takes_the_first_field_of_the_name() {
    let mut form = two_fields();
    form.build_field("first", None, None);
    form.set_active(true);
    type_text(&mut form, "one");
    assert_eq!(form.field_count(), 3);
    let taken = form.get_field("first").unwrap();
    assert_eq!(taken.get_input(), "one");
    assert_eq!(form.field_count(), 2);
    assert_eq!(text_of(&form.get_result("first").unwrap()), "");
    assert!(form.get_field("third").is_none());
    assert_eq!(form.field_count(), 2);
    assert!(form.get_field("first").is_some());
    assert!(form.get_field("first").is_none());
    assert!(form.get_result("first").is_none());
    assert_eq!(form.field_count(), 1);
}

#[test]
fn get_field_keeps_the_focus_within_the_form() {
    let mut form = two_fields();
    form.handle_event(&key(KeyCode::Enter));
    form.handle_event(&key(KeyCode::Enter));
    assert_eq!(form.focus_index(), 2);
    assert!(form.get_field("second").is_some());
    assert_eq!(form.focus_index(), 1);
    assert!(form.is_finished());
    form.add_field("again", Text::make(1, 1, None, None));
    assert!(!form.is_finished());
}

#[test]
fn valid_without_fields() {
    let mut form: Form<Text> = Form::new(12, 4, plain(), None);
    assert!(form.is_valid());
    assert!(form.get_error("first").is_none());
    assert!(form.get_error("").is_none());
}

#[test]
fn a_form_that_must_hold_a_field_is_invalid_without_one() {
    let mut form: Form<Text> = Form::new(12, 4, plain(), Some(required("no field")));
    assert!(!form.is_valid());
    assert!(form.get_error("first").is_none());
    let mut errors = vec![];
    form.validate(&mut errors);
    assert_eq!(errors, vec!["no field"]);
    form.build_field("first", None, None);
    assert!(form.is_valid());
}

#[test]
fn is_valid_keeps_the_errors_of_each_field() {
    let mut form: Form<Text> = Form::new(12, 4, plain(), None);
    form.build_field("name", Some(required("name is needed")), None);
    form.build_field("note", None, None);
    form.build_field("mail", Some(required("mail is needed")), None);
    assert!(form.get_error("name").is_none());
    assert!(!form.is_valid());
    assert_eq!(form.get_error("name").unwrap(), &vec!["name is needed"]);
    assert_eq!(form.get_error("mail").unwrap(), &vec!["mail is needed"]);
    assert!(form.get_error("note").is_none());
    assert!(form.get_error("other").is_none());
    assert!(!form.is_valid());
    assert_eq!(form.get_error("name").unwrap(), &vec!["name is needed"]);

    form.set_active(true);
    type_text(&mut form, "Ada");
    assert!(!form.is_valid());
    assert!(form.get_error("name").is_none());
    assert_eq!(form.get_error("mail").unwrap(), &vec!["mail is needed"]);

    form.handle_event(&key(KeyCode::Tab));
    form.handle_event(&key(KeyCode::Tab));
    type_text(&mut form, "a@b");
    assert!(form.is_valid());
    assert!(form.get_error("name").is_none());
    assert!(form.get_error("mail").is_none());
}

#[test]
fn validate_reports_the_fields_in_order() {
    let mut form: Form<Text> = Form::new(12, 4, plain(), None);
    form.build_field("a", Some(required("a")), None);
    form.build_field("b", Some(required("b")), None);
    let mut errors = vec![String::from("0")];
    form.validate(&mut errors);
    assert_eq!(errors, vec!["0", "a", "b"]);
}

#[test]
fn errors_of_two_fields_of_one_name() {
    let mut form: Form<Text> = Form::new(12, 4, plain(), None);
    form.build_field("x", Some(required("first x")), None);
    form.build_field("x", Some(required("second x")), None);
    assert!(!form.is_valid());
    assert_eq!(form.get_error("x").unwrap(), &vec!["second x"]);
}

#[test]
fn output_of_a_form_names_each_field() {
    let mut form = two_fields();
    form.set_active(true);
    type_text(&mut form, "ab");
    match form.get_output() {
        FormOutput::Compound(entries) => {
            assert_eq!(entries.len(), 2);
            assert_eq!(entries[0].0, "first");
            assert_eq!(text_of(&entries[0].1), "ab");
            assert_eq!(entries[1].0, "second");
            assert_eq!(text_of(&entries[1].1), "");
        },
        _ => panic!("not compound"),
    }
}

#[test]
fn forms_nest() {
    let mut inner = two_fields();
    inner.set_active(true);
    type_text(&mut inner, "in");
    inner.set_active(false);
    let mut outer: Form<Form<Text>> = Form::new(12, 8, plain(), None);
    outer.add_field("inner", inner);
    outer.build_field("empty", Some(required("empty form")), None);
    assert_eq!(outer.field_count(), 2);
    assert!(!outer.field_at(0).unwrap().is_active());
    outer.set_active(true);
    assert!(outer.field_at(0).unwrap().is_active());
    assert!(outer.field_at(0).unwrap().field_at(0).unwrap().is_active());
    type_text(&mut outer, "!");
    match outer.get_result("inner").unwrap() {
        FormOutput::Compound(entries) => {
            assert_eq!(entries.len(), 2);
            assert_eq!(entries[0].0, "first");
            assert_eq!(text_of(&entries[0].1), "in!");
        },
        _ => panic!("not compound"),
    }
    outer.handle_event(&key(KeyCode::Tab));
    assert_eq!(outer.focus_index(), 1);
    assert_eq!(outer.field_at(0).unwrap().focus_index(), 1);
    assert!(!outer.field_at(0).unwrap().is_active());
    assert!(!outer.is_valid());
    assert!(outer.get_error("inner").is_none());
    assert_eq!(outer.get_error("empty").unwrap(), &vec!["empty form"]);
}

#[test]
fn draw_puts_the_fields_below_each_other() {
    let mut form: Form<Text> = Form::new(8, 5, plain(), None);
    form.build_field("a", Some(labelled("Name")), None);
    form.build_field("b", None, None);
    form.set_active(true);
    type_text(&mut form, "Ada");
    form.handle_event(&key(KeyCode::Tab));
    type_text(&mut form, "x");
    assert_eq!(rows(form.draw(0)), vec!["Name    ", "Ada     ", "x       ", "        ", "        "]);
}

#[test]
fn draw_with_border_and_label() {
    let mut form: Form<Text> = Form::new(8, 5, bordered(), Some(labelled("Form")));
    form.build_field("a", Some(labelled("Name")), None);
    form.build_field("b", None, None);
    form.set_active(true);
    type_text(&mut form, "Ada");
    assert_eq!(rows(form.draw(0)), vec!["+Form--+", "|Name  |", "|Ada   |", "|      |", "+------+"]);
}

#[test]
fn draw_is_clipped_by_the_form() {
    let mut form: Form<Text> = Form::new(3, 1, plain(), None);
    form.build_field("a", Some(labelled("Name")), None);
    form.set_active(true);
    type_text(&mut form, "Ada");
    assert_eq!(rows(form.draw(0)), vec!["Nam"]);
    let mut none: Form<Text> = Form::new(0, 0, bordered(), Some(labelled("Form")));
    none.build_field("a", None, None);
    assert_eq!(none.draw(0).get_width(), 0);
}

#[test]
fn draw_draws_over_what_was_there() {
    let mut form: Form<Text> = Form::new(4, 2, plain(), Some(labelled("Long")));
    assert_eq!(rows(form.draw(0)), vec![" Lon", "    "]);
    form.set_options(labelled("ab"));
    assert_eq!(rows(form.draw(1)), vec![" abn", "    "]);
    assert_eq!(form.draw(1).get_cell(1, 0), Some(pxl_plain('a')));
}

/// A form that holds a text input `name` and a nested form `address` with
/// the text inputs `street` and `town`.
fn mixed() -> Form<Either<Text, Form<Text>>> {
    let mut address: Form<Text> = Form::new(10, 2, plain(), None);
    address.build_field("street", Some(required("no street")), None);
    address.build_field("town", None, None);
    let mut form: Form<Either<Text, Form<Text>>> = Form::new(10, 4, plain(), None);
    form.build_field("name", Some(required("no name")), None);
    form.add_field("address", Either::Right(address));
    form
}

#[test]
fn a_form_holds_fields_of_two_kinds() {
    let mut form = mixed();
    assert_eq!(form.field_count(), 2);
    assert!(matches!(form.field_at(0), Some(Either::Left(_))));
    assert!(matches!(form.field_at(1), Some(Either::Right(_))));
    assert_eq!(form.field_at(1).unwrap().get_height(), 2);
    form.set_active(true);
    type_text(&mut form, "Ada");
    // Every field takes every event: the nested form moves its own focus on
    // the same Tab that brings the focus to it.
    form.handle_event(&key(KeyCode::Tab));
    type_text(&mut form, "Main");
    assert_eq!(text_of(&form.get_result("name").unwrap()), "Ada");
    match form.get_result("address").unwrap() {
        FormOutput::Compound(entries) => {
            assert_eq!(entries.len(), 2);
            assert_eq!(entries[0].0, "street");
            assert_eq!(text_of(&entries[0].1), "");
            assert_eq!(entries[1].0, "town");
            assert_eq!(text_of(&entries[1].1), "Main");
        },
        _ => panic!("not compound"),
    }
    assert_eq!(rows(form.draw(0)), vec!["Ada       ", "          ", "Main      ", "          "]);
}

#[test]
fn fields_of_two_kinds_are_validated_alike() {
    let mut form = mixed();
    assert!(!form.is_valid());
    assert_eq!(form.get_error("name").unwrap(), &vec!["no name"]);
    assert_eq!(form.get_error("address").unwrap(), &vec!["no street"]);
    let mut errors = vec![];
    form.validate(&mut errors);
    assert_eq!(errors, vec!["no name", "no street"]);
}

#[test]
fn get_left_and_get_right_hand_over_the_kind_asked_for() {
    let mut form = mixed();
    let name: Text = form.get_left("name").unwrap();
    assert_eq!(name.get_input(), "");
    assert_eq!(form.field_count(), 1);
    let address: Form<Text> = form.get_right("address").unwrap();
    assert_eq!(address.field_count(), 2);
    assert_eq!(form.field_count(), 0);
    assert!(form.get_left("name").is_none());
    assert!(form.get_right("address").is_none());
}

#[test]
fn get_left_of_a_field_of_the_other_kind_hands_over_nothing() {
    let mut form = mixed();
    assert!(form.get_left("address").is_none());
    assert!(form.get_right("name").is_none());
    assert!(form.get_left("other").is_none());
    assert!(form.get_right("other").is_none());
    assert_eq!(form.field_count(), 2);
    assert!(form.get_result("name").is_some());
    assert!(form.get_result("address").is_some());
    assert_eq!(form.field_index("name"), Some(0));
    assert_eq!(form.field_index("address"), Some(1));
    assert_eq!(form.field_index("other"), None);
}

#[test]
fn make_of_two_kinds_builds_the_left_kind() {
    let field: Either<Text, Form<Text>> = Either::make(5, 1, Some(labelled("L")), None);
    assert!(matches!(field, Either::Left(_)));
    assert_eq!((field.get_width(), field.get_height()), (5, 1));
    assert_eq!(field.get_options().label.as_deref(), Some("L"));
    assert!(!field.is_active());
    let mut right: Either<Text, Form<Text>> = Either::Right(Form::new(3, 2, bordered(), None));
    assert!(right.get_style().border.is_some());
    right.set_style(plain());
    right.set_options(labelled("R"));
    right.resize(4, 3);
    right.set_active(true);
    assert!(right.is_active());
    assert!(right.get_style().border.is_none());
    assert_eq!(right.get_options().label.as_deref(), Some("R"));
    assert_eq!((right.get_width(), right.get_height()), (4, 3));
    assert!(matches!(right.get_output(), FormOutput::Compound(_)));
}

#[test]
fn draw_keeps_its_picture_until_style_or_options_change() {
    let mut form: Form<Text> = Form::new(6, 2, plain(), None);
    form.build_field("a", None, None);
    form.set_active(true);
    type_text(&mut form, "one");
    assert_eq!(rows(form.draw(0)), vec!["one   ", "      "]);
    assert_eq!(rows(form.draw(0)), vec!["one   ", "      "]);
    type_text(&mut form, "two");
    assert_eq!(rows(form.draw(1)), vec!["one   ", "      "]);
    form.build_field("b", Some(labelled("B")), None);
    form.resize(6, 3);
    assert_eq!(rows(form.draw(2)), vec!["one   ", "      ", "      "]);
    form.set_options(FormOptions::default());
    assert_eq!(rows(form.draw(3)), vec!["onetwo", "B     ", "      "]);
    type_text(&mut form, "!");
    assert_eq!(rows(form.draw(4)), vec!["onetwo", "B     ", "      "]);
    form.set_style(bordered());
    assert_eq!(rows(form.draw(5)), vec!["+----+", "|onet|", "+B---+"]);
    assert_eq!(rows(form.draw(6)), vec!["+----+", "|onet|", "+B---+"]);
    assert_eq!(text_of(&form.get_result("a").unwrap()), "onetwo!");
}

#[test]
fn a_nested_form_is_drawn_once_too() {
    let mut inner: Form<Text> = Form::new(4, 1, plain(), None);
    inner.build_field("a", None, None);
    let mut outer: Form<Form<Text>> = Form::new(4, 1, plain(), None);
    outer.add_field("inner", inner);
    outer.set_active(true);
    type_text(&mut outer, "x");
    assert_eq!(rows(outer.draw(0)), vec!["x   "]);
    type_text(&mut outer, "y");
    outer.set_options(FormOptions::default());
    assert_eq!(rows(outer.draw(1)), vec!["x   "]);
    assert_eq!(text_of(&outer.field_at(0).unwrap().get_result("a").unwrap()), "xy");
}

#[test]
fn set_style_keeps_the_height_of_each_field() {
    let mut form: Form<Text> = Form::new(12, 6, plain(), None);
    form.add_field("a", Text::make(3, 2, None, None));
    form.add_field("b", Text::make(30, 3, None, None));
    assert_eq!(form.field_at(0).unwrap().get_height(), 2);
    assert_eq!(form.field_at(1).unwrap().get_height(), 3);
    form.set_style(bordered());
    for (i, h) in [(0, 2), (1, 3)] {
        let f = form.field_at(i).unwrap();
        assert_eq!((f.get_width(), f.get_height()), (10, h));
    }
    assert_eq!(form.field_count(), 2);
    assert_eq!(form.focus_index(), 0);
    assert_eq!(form.field_index("b"), Some(1));
    assert_eq!((form.get_width(), form.get_height()), (12, 6));
}
