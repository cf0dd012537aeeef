//! Tests for the analysis utilities.

use mfmt::broken;
use mfmt::flatten;
use mfmt::indent;
use mfmt::line_suffix;
use mfmt::offside;
use mfmt::sequence;
use mfmt::text;
use mfmt::utility::count_lines;
use mfmt::utility::is_broken;
use mfmt::utility::is_empty;
use mfmt::Document;

fn new_line() -> Document {
    mfmt::builder::line()
}

#[test]
fn check_empty() {
    assert!(is_empty(&text("")));
    assert!(!is_empty(&text("foo")));
    assert!(!is_empty(&new_line()));
    assert!(is_empty(&line_suffix("")));
    assert!(!is_empty(&line_suffix("foo")));
    assert!(is_empty(&indent(text(""))));
    assert!(!is_empty(&indent(text("foo"))));
    assert!(is_empty(&broken(text(""))));
    assert!(!is_empty(&broken(text("foo"))));
}

#[test]
fn check_break() {
    assert!(!is_broken(&text("")));
    assert!(!is_broken(&text("foo")));
    assert!(!is_broken(&new_line()));
    assert!(!is_broken(&line_suffix("foo")));
    assert!(!is_broken(&indent(text("foo"))));
    assert!(is_broken(&broken(text(""))));
    assert!(!is_broken(&flatten(text(""))));
    assert!(!is_broken(&flatten(broken(text("")))));
}

#[test]
fn check_break_in_sequence() {
    assert!(!is_broken(&sequence(vec![])));
    assert!(!is_broken(&sequence(vec![text("a"), new_line()])));
    assert!(is_broken(&sequence(vec![text("a"), broken(text("b"))])));
    assert!(is_broken(&offside(broken(text("a")), true)));
}

#[test]
fn check_empty_in_sequence() {
    assert!(is_empty(&sequence(vec![])));
    assert!(is_empty(&sequence(vec![text(""), line_suffix("")])));
    assert!(!is_empty(&sequence(vec![text(""), new_line()])));
    assert!(is_empty(&offside(text(""), false)));
}

#[test]
fn check_count_lines() {
    assert_eq!(count_lines(&text("foo")), 0);
    assert_eq!(count_lines(&line_suffix("foo")), 0);
    assert_eq!(count_lines(&new_line()), 1);
    assert_eq!(
        count_lines(&sequence(vec![new_line(), text("a"), new_line()])),
        2
    );
    assert_eq!(count_lines(&indent(new_line())), 1);
    assert_eq!(count_lines(&offside(new_line(), true)), 1);
    assert_eq!(count_lines(&broken(new_line())), 1);
    assert_eq!(count_lines(&flatten(new_line())), 0);
    assert_eq!(count_lines(&flatten(broken(new_line()))), 0);
    assert_eq!(
        count_lines(&sequence(vec![flatten(new_line()), new_line()])),
        1
    );
}
