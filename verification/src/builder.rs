//! Document builders: convenience constructors for each node kind, and a
//! handle that bundles them.

use crate::document::Document;
use crate::utility::is_broken;
use crate::utility::spec_is_broken;
use vstd::prelude::*;
use vstd::string::StringExecFns;

verus! {

/// Creates a sequence of documents.
pub fn sequence(documents: Vec<Document>) -> (document: Document)
    ensures
        document == Document::Sequence(documents),
{
    Document::Sequence(documents)
}

/// Creates a string document.
pub fn text(string: &str) -> (document: Document)
    ensures
        document matches Document::Text(s) && s@ == string@,
{
    Document::Text(String::from_str(string))
}

/// Creates a line suffix.
pub fn line_suffix(string: &str) -> (document: Document)
    ensures
        document matches Document::LineSuffix(s) && s@ == string@,
{
    Document::LineSuffix(String::from_str(string))
}

/// Flattens a document.
pub fn flatten(document: Document) -> (result: Document)
    ensures
        result matches Document::Break(flag, child) && !flag && *child == document,
{
    Document::Break(false, Box::new(document))
}

/// Breaks a document into multiple lines.
pub fn broken(document: Document) -> (result: Document)
    ensures
        result matches Document::Break(flag, child) && flag && *child == document,
{
    Document::Break(true, Box::new(document))
}

/// Flattens a document if a `condition` is true, unless a decision inside
/// the document has already forced a break: a subtree that must remain
/// multi-line is never flattened by accident.
pub fn flatten_if(condition: bool, document: Document) -> (result: Document)
    ensures
        result matches Document::Break(flag, child) && flag == (!condition || spec_is_broken(
            document,
        )) && *child == document,
{
    let flag = !condition || is_broken(&document);
    Document::Break(flag, Box::new(document))
}

/// Indents a document.
pub fn indent(document: Document) -> (result: Document)
    ensures
        result matches Document::Indent(child) && *child == document,
{
    Document::Indent(Box::new(document))
}

/// Creates a new line.
pub fn line() -> (document: Document)
    ensures
        document == Document::Line,
{
    Document::Line
}

/// Creates an empty document.
pub fn empty() -> (document: Document)
    ensures
        document matches Document::Text(s) && s@ == Seq::<char>::empty(),
{
    Document::Text(String::new())
}

/// Creates a document indented to a current column.
pub fn offside(document: Document, soft: bool) -> (result: Document)
    ensures
        result matches Document::Offside(child, flag) && flag == soft && *child == document,
{
    Document::Offside(Box::new(document), soft)
}


/// The concatenation of the views of a sequence of string slices.
pub open spec fn spec_joined(strings: Seq<&str>) -> Seq<char>
    decreases strings,
{
    if strings.len() == 0 {
        Seq::empty()
    } else {
        strings.first()@ + spec_joined(strings.drop_first())
    }
}

/// Document builder: bundles the node constructors behind one handle, and
/// allocates each child node on the heap as it wraps it.
#[derive(Clone, Copy, Debug)]
pub struct Builder {}

impl Builder {
    /// Creates a document builder.
    pub fn new() -> Self {
        Self {  }
    }

    /// Breaks a document into multiple lines.
    pub fn broken(&self, document: Document) -> (result: Document)
        ensures
            result matches Document::Break(flag, child) && flag && *child == document,
    {
        Document::Break(true, self.allocate(document))
    }

    /// Flattens a document.
    pub fn flatten(&self, document: Document) -> (result: Document)
        ensures
            result matches Document::Break(flag, child) && !flag && *child == document,
    {
        Document::Break(false, self.allocate(document))
    }

    /// Indents a document by a level.
    pub fn indent(&self, document: Document) -> (result: Document)
        ensures
            result matches Document::Indent(child) && *child == document,
    {
        Document::Indent(self.allocate(document))
    }

    /// Creates a document indented to a current column.
    pub fn offside(&self, document: Document, soft: bool) -> (result: Document)
        ensures
            result matches Document::Offside(child, flag) && flag == soft && *child == document,
    {
        Document::Offside(self.allocate(document), soft)
    }

    /// Creates a sequence of documents.
    pub fn sequence(&self, documents: Vec<Document>) -> (result: Document)
        ensures
            result == Document::Sequence(documents),
    {
        Document::Sequence(documents)
    }

    /// Creates a concatenation of strings.
    pub fn strings(&self, values: &Vec<&str>) -> (result: Document)
        ensures
            result matches Document::Text(s) && s@ == spec_joined(values@),
    {
        Document::Text(self.allocate_str(values))
    }

    /// Creates one line suffix holding a concatenation of strings.
    pub fn line_suffixes(&self, values: &Vec<&str>) -> (result: Document)
        ensures
            result matches Document::LineSuffix(s) && s@ == spec_joined(values@),
    {
        Document::LineSuffix(self.allocate_str(values))
    }

    /// Allocates a value.
    pub fn allocate<T>(&self, value: T) -> (result: Box<T>)
        ensures
            *result == value,
    {
        Box::new(value)
    }

    /// Allocates a string holding the given pieces, joined.
    #[verifier::loop_isolation(false)]
    pub fn allocate_str(&self, values: &Vec<&str>) -> (result: String)
        ensures
            result@ == spec_joined(values@),
    {
        let mut result = String::new();
        let mut index: usize = 0;
        proof {
            assert(values@.skip(0) =~= values@);
        }
        while index < values.len()
            invariant
                index <= values.len(),
                result@ + spec_joined(values@.skip(index as int)) == spec_joined(values@),
            decreases values.len() - index,
        {
            proof {
                assert(values@.skip(index as int).drop_first() =~= values@.skip(index as int + 1));
            }
            result.append(values[index]);
            index += 1;
        }
        result
    }
}

} // verus!
