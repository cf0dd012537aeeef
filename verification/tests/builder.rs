//! Tests for the document builders.

use mfmt::broken;
use mfmt::empty;
use mfmt::flatten;
use mfmt::flatten_if;
use mfmt::offside;
use mfmt::text;
use mfmt::Builder;
use mfmt::Document;

fn new_line() -> Document {
    mfmt::builder::line()
}

#[test]
fn build_offside() {
    let builder = Builder::new();

    assert_eq!(
        builder.offside(text("foo"), false),
        offside(text("foo"), false)
    );
}

#[test]
fn build_break_and_flatten() {
    let builder = Builder::new();

    assert_eq!(builder.broken(text("foo")), broken(text("foo")));
    assert_eq!(builder.flatten(text("foo")), flatten(text("foo")));
    assert_eq!(
        builder.indent(new_line()),
        mfmt::indent(new_line())
    );
    assert_eq!(
        builder.sequence(vec![text("a"), new_line()]),
        mfmt::sequence(vec![text("a"), new_line()])
    );
}

#[test]
fn build_strings() {
    let builder = Builder::new();

    assert_eq!(builder.strings(&vec!["foo", "bar"]), text("foobar"));
    assert_eq!(builder.strings(&vec![]), text(""));
    assert_eq!(
        builder.line_suffixes(&vec!["a", "b", "c"]),
        mfmt::line_suffix("abc")
    );
}

#[test]
fn build_allocate() {
    let builder = Builder::new();

    assert_eq!(*builder.allocate(7u64), 7u64);
    assert_eq!(builder.allocate_str(&vec!["x", "", "yz"]), "xyz");
}

#[test]
fn build_empty() {
    assert_eq!(empty(), text(""));
}

#[test]
fn build_flatten_if() {
    assert_eq!(flatten_if(true, text("a")), flatten(text("a")));
    assert_eq!(flatten_if(false, text("a")), broken(text("a")));
    assert_eq!(
        flatten_if(true, broken(new_line())),
        broken(broken(new_line()))
    );
}
