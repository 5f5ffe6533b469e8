//! Tests of the description model and its rendering.

use test_rust::description::Description;

#[test]
fn single_line_renders_unchanged_at_zero_indentation() {
    let d = Description::from_text("hello");
    assert_eq!(d.render(0), "hello");
}

#[test]
fn multi_line_text_indents_every_line() {
    let d = Description::from_text("ab\ncd");
    assert_eq!(d.render(0), "ab\ncd");
    assert_eq!(d.render(2), "  ab\n  cd");
}

#[test]
fn indentation_is_monotone_by_exactly_k_spaces() {
    let d = Description::from_text("one\ntwo\nthree");
    let at_one = d.render(1);
    let at_four = d.render(4);
    let reindented: Vec<String> =
        at_one.split('\n').map(|line| format!("   {line}")).collect();
    assert_eq!(at_four, reindented.join("\n"));
}

#[test]
fn empty_description_renders_to_empty_string() {
    let d = Description::default();
    assert_eq!(d.render(0), "");
    assert_eq!(d.render(5), "");
    assert_eq!(d.to_display_string(), "");
}

#[test]
fn empty_text_renders_to_empty_string() {
    let d = Description::from_text("");
    assert_eq!(d.render(3), "");
}

#[test]
fn line_count_is_preserved() {
    let d = Description::from_text("a\nb\nc");
    let rendered = d.render(2);
    assert_eq!(rendered.split('\n').count(), 3);
    let one = Description::from_text("only");
    assert_eq!(one.render(7).split('\n').count(), 1);
}

#[test]
fn empty_interior_lines_are_retained() {
    let d = Description::from_text("a\n\nb");
    assert_eq!(d.render(0), "a\n\nb");
    assert_eq!(d.render(1), " a\n \n b");
}

#[test]
fn trailing_newline_does_not_open_an_extra_line() {
    let d = Description::from_text("a\n");
    assert_eq!(d.render(0), "a");
}

#[test]
fn indent_uses_one_indentation_unit() {
    let d = Description::from_text("x\ny").indent();
    assert_eq!(d.to_display_string(), "  x\n  y");
}

#[test]
fn indent_is_idempotent_safe() {
    let once = Description::from_text("x\ny").indent();
    let twice = Description::from_text("x\ny").indent().indent();
    assert_eq!(once.to_display_string(), twice.to_display_string());
    assert_eq!(twice.to_display_string(), "  x\n  y");
}

#[test]
fn carriage_return_line_endings_are_stripped() {
    let d = Description::from_text("a\r\nb");
    assert_eq!(d.render(0), "a\nb");
}
