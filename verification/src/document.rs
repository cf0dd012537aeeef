//! The document data model: a recursive tree of layout directives.

use vstd::prelude::*;

verus! {

/// A document: the immutable layout tree consumed by the renderer.
///
/// Every node either emits text directly or adjusts the ambient state
/// (indentation and break mode) under which its subtree is rendered.
#[derive(Debug, PartialEq)]
pub enum Document {
    /// Overrides the ambient break mode for the entire subtree: `true`
    /// breaks the subtree into multiple lines, `false` flattens it.
    Break(bool, Box<Document>),
    /// Renders the child with its indentation base increased by one
    /// configured indent unit.
    Indent(Box<Document>),
    /// A breakpoint: a newline followed by pending indentation when the
    /// ambient mode is broken, or a single space when it is flat.
    Line,
    /// Text anchored here but emitted just before the next rendered newline
    /// (or at the end of the document), after whatever follows it on the
    /// current line.
    LineSuffix(String),
    /// Rebases the child's indentation to the current output column.  When
    /// the flag asks for a soft offside, the column is taken only if it is
    /// not smaller than the inherited indentation.
    Offside(Box<Document>, bool),
    /// Concatenation: the children are rendered left to right, each under
    /// the same ambient state as the parent.
    Sequence(Vec<Document>),
    /// Literal text, written verbatim; empty text is a true no-op.
    Text(String),
}

} // verus!
