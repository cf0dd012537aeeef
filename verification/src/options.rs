//! Immutable configuration for a render call.

use vstd::prelude::*;

verus! {

/// Format options: how many fill characters one indentation level is worth,
/// and which character the indentation is filled with.
#[derive(Clone, Copy, Debug)]
pub struct FormatOptions {
    indent: usize,
    space: char,
}

impl FormatOptions {
    /// The indent width in fill characters per level.
    pub closed spec fn spec_indent(&self) -> usize {
        self.indent
    }

    /// The fill character.
    pub closed spec fn spec_space(self) -> char {
        self.space
    }

    /// Well-formed options carry a positive indent width, so that an
    /// `Indent` node always indents.
    pub open spec fn wf(self) -> bool {
        self.spec_indent() >= 1
    }

    /// Creates options with the given indent width, filling with spaces.
    pub fn new(indent: usize) -> (options: Self)
        requires
            1 <= indent,
        ensures
            options.spec_indent() == indent,
            options.spec_space() == ' ',
            options.wf(),
    {
        Self { indent, space: ' ' }
    }

    /// Creates options for indentation by tabs: one tab per level.
    pub fn tab() -> (options: Self)
        ensures
            options.spec_indent() == 1,
            options.spec_space() == '\t',
            options.wf(),
    {
        Self { indent: 1, space: '\t' }
    }

    /// Returns an indent size.
    #[verifier::when_used_as_spec(spec_indent)]
    pub fn indent(&self) -> (indent: usize)
        ensures
            indent == self.spec_indent(),
    {
        self.indent
    }

    /// Returns a space character.
    #[verifier::when_used_as_spec(spec_space)]
    pub fn space(self) -> (space: char)
        ensures
            space == self.spec_space(),
    {
        self.space
    }

    /// Sets an indent size.
    pub fn set_indent(self, indent: usize) -> (options: Self)
        requires
            1 <= indent,
        ensures
            options.spec_indent() == indent,
            options.spec_space() == self.spec_space(),
            options.wf(),
    {
        Self { indent, ..self }
    }

    /// Sets a space character.
    pub fn set_space(self, space: char) -> (options: Self)
        ensures
            options.spec_indent() == self.spec_indent(),
            options.spec_space() == space,
    {
        Self { space, ..self }
    }
}

} // verus!
