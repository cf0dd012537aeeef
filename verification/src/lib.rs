//! A deterministic document-layout renderer.
//!
//! Callers build an immutable [`Document`] tree that already encodes every
//! formatting decision (which groups are flat and which are broken), and the
//! renderer lays it out in a single depth-first pass, tracking the output
//! column, the indentation level, the ambient break mode, and a queue of
//! deferred line suffixes.  There is no search for an optimal layout: the
//! tree is the layout.

pub mod builder;
mod document;
pub mod format;
pub mod laws;
mod options;
pub mod utility;

pub use builder::broken;
pub use builder::empty;
pub use builder::flatten;
pub use builder::flatten_if;
pub use builder::indent;
pub use builder::line_suffix;
pub use builder::offside;
pub use builder::sequence;
pub use builder::text;
pub use builder::Builder;
pub use document::Document;
pub use format::state::State;
pub use options::FormatOptions;
