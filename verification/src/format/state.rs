//! The ambient traversal state threaded through rendering by value.

use vstd::prelude::*;

verus! {

/// The two pieces of state a node inherits from its ancestors: the current
/// indentation (in fill characters) and the current break mode.  The state
/// is passed down by value, so sibling subtrees never see each other's
/// overrides.
#[derive(Clone, Copy, Debug)]
pub struct State {
    indent: usize,
    broken: bool,
}

impl State {
    /// The current indentation in fill characters.
    pub closed spec fn spec_indent(&self) -> usize {
        self.indent
    }

    /// The current break mode.
    pub closed spec fn spec_broken(&self) -> bool {
        self.broken
    }

    /// Returns the current indentation.
    #[verifier::when_used_as_spec(spec_indent)]
    pub fn indent(&self) -> (indent: usize)
        ensures
            indent == self.spec_indent(),
    {
        self.indent
    }

    /// Returns the current break mode.
    #[verifier::when_used_as_spec(spec_broken)]
    pub fn broken(&self) -> (broken: bool)
        ensures
            broken == self.spec_broken(),
    {
        self.broken
    }

    /// Returns the state with the indentation replaced.
    pub fn set_indent(self, indent: usize) -> (state: Self)
        ensures
            state.spec_indent() == indent,
            state.spec_broken() == self.spec_broken(),
    {
        Self { indent, ..self }
    }

    /// Returns the state with the break mode replaced.
    pub fn set_broken(self, broken: bool) -> (state: Self)
        ensures
            state.spec_indent() == self.spec_indent(),
            state.spec_broken() == broken,
    {
        Self { broken, ..self }
    }
}

impl Default for State {
    /// The state at the root of a render call: no indentation, broken.
    fn default() -> (state: Self)
        ensures
            state.spec_indent() == 0,
            state.spec_broken(),
    {
        Self { indent: 0, broken: true }
    }
}

} // verus!
