//! Tests for the format options and the traversal state.

use mfmt::FormatOptions;
use mfmt::State;

#[test]
fn options_new() {
    let options = FormatOptions::new(2);

    assert_eq!(options.indent(), 2);
    assert_eq!(options.space(), ' ');
}

#[test]
fn options_tab() {
    let options = FormatOptions::tab();

    assert_eq!(options.indent(), 1);
    assert_eq!(options.space(), '\t');
}

#[test]
fn options_set_indent_and_space() {
    let options = FormatOptions::new(2).set_indent(4).set_space('.');

    assert_eq!(options.indent(), 4);
    assert_eq!(options.space(), '.');
}

#[test]
fn state_default() {
    let state = State::default();

    assert_eq!(state.indent(), 0);
    assert!(state.broken());
}

#[test]
fn state_set_indent_and_broken() {
    let state = State::default().set_indent(3).set_broken(false);

    assert_eq!(state.indent(), 3);
    assert!(!state.broken());
}
