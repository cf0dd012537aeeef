//! Tests for the render engine.

use mfmt::broken;
use mfmt::flatten;
use mfmt::indent;
use mfmt::line_suffix;
use mfmt::offside;
use mfmt::sequence;
use mfmt::text;
use mfmt::Document;
use mfmt::FormatOptions;

fn default_options() -> FormatOptions {
    FormatOptions::new(2)
}

fn new_line() -> Document {
    mfmt::builder::line()
}

fn format_to_string(document: &Document, options: FormatOptions) -> String {
    mfmt::format::format(document, options)
}

fn create_group() -> Document {
    sequence(vec![
        text("{"),
        indent(sequence(vec![new_line(), text("foo"), new_line(), text("bar")])),
        new_line(),
        text("}"),
    ])
}

#[test]
fn format_string() {
    assert_eq!(format_to_string(&text("foo"), default_options()), "foo");
}

#[test]
fn format_flat_group() {
    assert_eq!(
        format_to_string(&flatten(create_group()), default_options()),
        "{ foo bar }"
    );
}

#[test]
fn format_empty_line_with_indent() {
    assert_eq!(
        format_to_string(&indent(new_line()), default_options()),
        "\n"
    );
}

#[test]
fn format_broken_group() {
    assert_eq!(
        format_to_string(&create_group(), default_options()),
        "{\n  foo\n  bar\n}"
    );
}

#[test]
fn format_unbroken_group_in_broken_group() {
    assert_eq!(
        format_to_string(
            &sequence(vec![
                text("{"),
                indent(sequence(vec![new_line(), flatten(create_group())])),
                new_line(),
                text("}"),
            ]),
            default_options()
        ),
        "{\n  { foo bar }\n}"
    );
}

#[test]
fn format_line_suffix_between_strings() {
    assert_eq!(
        format_to_string(
            &sequence(vec![
                text("{"),
                line_suffix("foo"),
                text("}"),
                new_line()
            ]),
            default_options()
        ),
        "{}foo\n"
    );
}

#[test]
fn format_two_line_suffixes_between_strings() {
    assert_eq!(
        format_to_string(
            &sequence(vec![
                text("{"),
                line_suffix("foo"),
                line_suffix("bar"),
                text("}"),
                new_line()
            ]),
            default_options()
        ),
        "{}foobar\n"
    );
}

fn create_offside_group() -> Document {
    sequence(vec![
        text("foo"),
        indent(sequence(vec![
            new_line(),
            offside(
                broken(sequence(vec![text("bar"), new_line(), text("baz")])),
                false,
            ),
        ])),
    ])
}

#[test]
fn format_format_flat_group() {
    assert_eq!(
        format_to_string(
            &flatten(create_offside_group()),
            default_options().set_indent(2)
        ),
        "foo bar\n    baz"
    );
}

#[test]
fn format_format_broken_group() {
    assert_eq!(
        format_to_string(
            &broken(create_offside_group()),
            default_options().set_indent(2)
        ),
        "foo\n  bar\n  baz"
    );
}

fn create_nested_groups(inner: fn(Document) -> Document) -> Document {
    sequence(vec![
        text("foo"),
        indent(sequence(vec![
            new_line(),
            offside(
                broken(sequence(vec![
                    text("bar"),
                    new_line(),
                    text("baz"),
                    new_line(),
                    inner(sequence(vec![
                        text("qux"),
                        indent(sequence(vec![
                            new_line(),
                            offside(
                                broken(sequence(vec![
                                    text("quux"),
                                    new_line(),
                                    text("corge"),
                                ])),
                                false,
                            ),
                        ])),
                    ])),
                ])),
                false,
            ),
        ])),
    ])
}

#[test]
fn format_flat_outer_with_flat_inner() {
    assert_eq!(
        format_to_string(
            &flatten(create_nested_groups(flatten)),
            default_options().set_indent(2)
        ),
        "foo bar\n    baz\n    qux quux\n        corge"
    );
}

#[test]
fn format_flat_outer_with_broken_inner() {
    assert_eq!(
        format_to_string(
            &flatten(create_nested_groups(broken)),
            default_options().set_indent(2)
        ),
        "foo bar\n    baz\n    qux\n      quux\n      corge"
    );
}

#[test]
fn format_broken_outer_with_flat_inner() {
    assert_eq!(
        format_to_string(
            &broken(create_nested_groups(flatten)),
            default_options().set_indent(2)
        ),
        "foo\n  bar\n  baz\n  qux quux\n      corge"
    );
}

#[test]
fn format_broken_outer_with_broken_inner() {
    assert_eq!(
        format_to_string(
            &broken(create_nested_groups(broken)),
            default_options().set_indent(2)
        ),
        "foo\n  bar\n  baz\n  qux\n    quux\n    corge"
    );
}

#[test]
fn format_two_flat_groups() {
    assert_eq!(
        format_to_string(
            &flatten(sequence(vec![
                text("qux"),
                new_line(),
                offside(
                    broken(sequence(vec![
                        flatten(create_offside_group()),
                        new_line(),
                        flatten(create_offside_group()),
                    ])),
                    false
                ),
            ])),
            default_options().set_indent(1)
        ),
        "qux foo bar\n        baz\n    foo bar\n        baz"
    );
}

fn create_soft_offside_group() -> Document {
    sequence(vec![
        text("a"),
        indent(sequence(vec![
            new_line(),
            offside(
                broken(sequence(vec![text("b"), new_line(), text("c")])),
                true,
            ),
        ])),
    ])
}

#[test]
fn format_less_indent() {
    assert_eq!(
        format_to_string(
            &flatten(create_soft_offside_group()),
            default_options().set_indent(1)
        ),
        "a b\n  c"
    );
}

#[test]
fn format_equal_indent() {
    assert_eq!(
        format_to_string(
            &flatten(create_soft_offside_group()),
            default_options().set_indent(2)
        ),
        "a b\n  c"
    );
}

#[test]
fn format_more_indent() {
    assert_eq!(
        format_to_string(
            &flatten(create_soft_offside_group()),
            default_options().set_indent(3)
        ),
        "a b\n   c"
    );
}

#[test]
fn format_broken_group_with_space() {
    assert_eq!(
        format_to_string(&create_group(), default_options().set_indent(1)),
        "{\n foo\n bar\n}"
    );
}

#[test]
fn format_broken_group_with_two_spaces() {
    assert_eq!(
        format_to_string(&create_group(), default_options().set_indent(2)),
        "{\n  foo\n  bar\n}"
    );
}

#[test]
fn format_broken_group_with_four_spaces() {
    assert_eq!(
        format_to_string(&create_group(), default_options().set_indent(4)),
        "{\n    foo\n    bar\n}"
    );
}

#[test]
fn format_broken_group_with_tab() {
    assert_eq!(
        format_to_string(&create_group(), FormatOptions::tab()),
        "{\n\tfoo\n\tbar\n}"
    );
}

#[test]
fn format_empty_document_renders_nothing() {
    let document = sequence(vec![
        text(""),
        line_suffix(""),
        indent(text("")),
        broken(sequence(vec![offside(text(""), true)])),
    ]);
    assert!(mfmt::utility::is_empty(&document));
    assert_eq!(format_to_string(&document, default_options()), "");
    assert_eq!(format_to_string(&sequence(vec![]), default_options()), "");
}

#[test]
fn format_flattened_group_has_no_newline() {
    let output = format_to_string(
        &flatten(sequence(vec![
            text("a"),
            new_line(),
            indent(sequence(vec![new_line(), text("b")])),
        ])),
        default_options(),
    );
    assert_eq!(output, "a  b");
    assert!(!output.contains('\n'));
}

#[test]
fn format_nested_indents_add_up() {
    assert_eq!(
        format_to_string(
            &indent(indent(broken(sequence(vec![new_line(), text("x")])))),
            default_options()
        ),
        "\n    x"
    );
}

#[test]
fn format_line_suffixes_stay_with_their_line() {
    assert_eq!(
        format_to_string(
            &sequence(vec![
                text("a"),
                line_suffix("s1"),
                new_line(),
                text("b"),
                line_suffix("s2"),
                new_line(),
            ]),
            default_options()
        ),
        "as1\nbs2\n"
    );
}

#[test]
fn format_trailing_line_suffix_flushes_at_end() {
    assert_eq!(
        format_to_string(
            &sequence(vec![text("{"), line_suffix("foo"), text("}")]),
            default_options()
        ),
        "{}foo"
    );
}

#[test]
fn try_format_renders_like_format() {
    assert_eq!(
        mfmt::format::try_format(&create_group(), default_options()),
        Some(String::from("{\n  foo\n  bar\n}"))
    );
}

#[test]
fn format_empty_string_emits_no_trailing_indent() {
    assert_eq!(
        format_to_string(
            &broken(sequence(vec![
                text("a"),
                indent(sequence(vec![new_line(), text("")])),
            ])),
            default_options()
        ),
        "a\n"
    );
}

#[test]
fn format_empty_string_keeps_indent_pending() {
    assert_eq!(
        format_to_string(
            &broken(sequence(vec![
                text("a"),
                indent(sequence(vec![new_line(), text(""), text("b")])),
            ])),
            default_options()
        ),
        "a\n  b"
    );
}
