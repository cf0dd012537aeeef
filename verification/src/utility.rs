//! Read-only analyses over a document tree.
//!
//! These are pure tree folds: they inspect a [`Document`] without rendering
//! it, so that tree-construction helpers and the renderer can agree on break
//! semantics before any text is produced.

use crate::document::Document;
use vstd::prelude::*;

verus! {

/// Whether a document is forced into multiple lines: it contains a `Break`
/// node whose flag is set, not itself overridden by an enclosing `Break`.
/// Indentation and offside nodes are transparent; leaves are never broken
/// by themselves.
pub open spec fn spec_is_broken(document: Document) -> bool
    decreases document,
{
    match document {
        Document::Break(broken, _) => broken,
        Document::Indent(child) => spec_is_broken(*child),
        Document::Offside(child, _) => spec_is_broken(*child),
        Document::Sequence(children) => spec_any_broken(children@),
        Document::Line => false,
        Document::LineSuffix(_) => false,
        Document::Text(_) => false,
    }
}

/// Whether any document of a sequence is broken.
pub open spec fn spec_any_broken(documents: Seq<Document>) -> bool
    decreases documents,
{
    documents.len() != 0 && (spec_is_broken(documents.first()) || spec_any_broken(
        documents.drop_first(),
    ))
}

/// The number of `Line` nodes that render as a newline under the document's
/// own locally resolved break mode: a flat `Break` zeroes every count
/// beneath it, regardless of the ambient mode.
pub open spec fn spec_count_lines(document: Document) -> nat
    decreases document,
{
    match document {
        Document::Break(broken, child) => if broken {
            spec_count_lines(*child)
        } else {
            0
        },
        Document::Indent(child) => spec_count_lines(*child),
        Document::Offside(child, _) => spec_count_lines(*child),
        Document::Line => 1,
        Document::Sequence(children) => spec_count_lines_seq(children@),
        Document::LineSuffix(_) => 0,
        Document::Text(_) => 0,
    }
}

/// The sum of [`spec_count_lines`] over a sequence of documents.
pub open spec fn spec_count_lines_seq(documents: Seq<Document>) -> nat
    decreases documents,
{
    if documents.len() == 0 {
        0
    } else {
        spec_count_lines(documents.first()) + spec_count_lines_seq(documents.drop_first())
    }
}

/// Whether rendering the document produces no visible characters under any
/// break mode.  A `Line` always renders something (a space or a newline);
/// text nodes are empty exactly when their text is; the state-adjusting
/// nodes are empty exactly when their child is.
pub open spec fn spec_is_empty(document: Document) -> bool
    decreases document,
{
    match document {
        Document::Break(_, child) => spec_is_empty(*child),
        Document::Indent(child) => spec_is_empty(*child),
        Document::Offside(child, _) => spec_is_empty(*child),
        Document::Sequence(children) => spec_all_empty(children@),
        Document::Line => false,
        Document::LineSuffix(string) => string@.len() == 0,
        Document::Text(string) => string@.len() == 0,
    }
}

/// Whether every document of a sequence is empty.
pub open spec fn spec_all_empty(documents: Seq<Document>) -> bool
    decreases documents,
{
    documents.len() == 0 || (spec_is_empty(documents.first()) && spec_all_empty(
        documents.drop_first(),
    ))
}

/// Checks if a document is broken into multiple lines.
#[verifier::loop_isolation(false)]
pub fn is_broken(document: &Document) -> (result: bool)
    ensures
        result == spec_is_broken(*document),
    decreases document,
{
    match document {
        Document::Break(broken, _) => *broken,
        Document::Indent(child) => is_broken(&**child),
        Document::Offside(child, _) => is_broken(&**child),
        Document::Sequence(children) => {
            let mut index: usize = 0;
            proof {
                assert(children@.skip(0) =~= children@);
            }
            while index < children.len()
                invariant
                    index <= children.len(),
                    spec_any_broken(children@) == spec_any_broken(
                        children@.skip(index as int),
                    ),
                decreases children.len() - index,
            {
                proof {
                    assert(children@.skip(index as int).drop_first() =~= children@.skip(
                        index as int + 1,
                    ));
                }
                if is_broken(&children[index]) {
                    return true;
                }
                index += 1;
            }
            false
        },
        Document::Line => false,
        Document::LineSuffix(_) => false,
        Document::Text(_) => false,
    }
}

/// Counts lines in a document.
#[verifier::loop_isolation(false)]
pub fn count_lines(document: &Document) -> (count: usize)
    requires
        spec_count_lines(*document) <= usize::MAX,
    ensures
        count == spec_count_lines(*document),
    decreases document,
{
    match document {
        Document::Break(broken, child) => {
            if *broken {
                count_lines(&**child)
            } else {
                0
            }
        },
        Document::Indent(child) => count_lines(&**child),
        Document::Offside(child, _) => count_lines(&**child),
        Document::Line => 1,
        Document::Sequence(children) => {
            let mut count: usize = 0;
            let mut index: usize = 0;
            proof {
                assert(children@.skip(0) =~= children@);
            }
            while index < children.len()
                invariant
                    index <= children.len(),
                    count + spec_count_lines_seq(children@.skip(index as int))
                        == spec_count_lines_seq(children@),
                decreases children.len() - index,
            {
                proof {
                    assert(children@.skip(index as int).drop_first() =~= children@.skip(
                        index as int + 1,
                    ));
                }
                count += count_lines(&children[index]);
                index += 1;
            }
            count
        },
        Document::LineSuffix(_) => 0,
        Document::Text(_) => 0,
    }
}

/// Checks if a document is empty.
#[verifier::loop_isolation(false)]
pub fn is_empty(document: &Document) -> (empty: bool)
    ensures
        empty == spec_is_empty(*document),
    decreases document,
{
    match document {
        Document::Break(_, child) => is_empty(&**child),
        Document::Indent(child) => is_empty(&**child),
        Document::Offside(child, _) => is_empty(&**child),
        Document::Sequence(children) => {
            let mut index: usize = 0;
            proof {
                assert(children@.skip(0) =~= children@);
            }
            while index < children.len()
                invariant
                    index <= children.len(),
                    spec_is_empty(*document) == spec_all_empty(children@.skip(index as int)),
                decreases children.len() - index,
            {
                proof {
                    assert(children@.skip(index as int).drop_first() =~= children@.skip(
                        index as int + 1,
                    ));
                }
                if !is_empty(&children[index]) {
                    return false;
                }
                index += 1;
            }
            true
        },
        Document::Line => false,
        Document::LineSuffix(string) => string.as_str().is_empty(),
        Document::Text(string) => string.as_str().is_empty(),
    }
}

} // verus!
