//! The render engine: a single depth-first traversal of a document tree.
//!
//! The behaviour of the engine is pinned down by a specification-level model
//! ([`spec_format`]) that walks the tree exactly as the executable renderer
//! does, threading the ambient traversal state by value and a render context
//! (output text, column, lazily pending indentation, queued line suffixes)
//! through the recursion.

pub mod state;

use crate::document::Document;
use crate::options::FormatOptions;
use state::State;
use vstd::prelude::*;
use vstd::string::StrSliceExecFns;
use vstd::string::StringExecFns;

verus! {

/// The render context as the specification sees it: the text written so
/// far, the current output column, the indentation recorded but not yet
/// written, and the queued line suffixes.
#[verifier::ext_equal]
pub struct RenderState {
    /// The characters written so far.
    pub output: Seq<char>,
    /// The current output column, counted as if the pending indentation had
    /// already been written.
    pub column: nat,
    /// Indentation recorded at the last broken line and not yet written:
    /// it is materialised lazily, by the next visible text, so that a line
    /// that receives no text never ends in trailing fill characters.
    pub next_indent: nat,
    /// Line suffixes waiting for the next rendered newline, oldest first.
    pub suffixes: Seq<Seq<char>>,
}

/// The render context at the start of a render call: nothing written.
pub open spec fn initial_render_state() -> RenderState {
    RenderState { output: Seq::empty(), column: 0, next_indent: 0, suffixes: Seq::empty() }
}

/// `count` copies of the fill character `space`: one stretch of
/// indentation.
pub open spec fn spec_fill(space: char, count: nat) -> Seq<char> {
    Seq::new(count, |index: int| space)
}

/// A sequence of strings joined in order, with nothing in between.
pub open spec fn spec_concat(strings: Seq<Seq<char>>) -> Seq<char>
    decreases strings,
{
    if strings.len() == 0 {
        Seq::empty()
    } else {
        strings.first() + spec_concat(strings.drop_first())
    }
}

/// Writes the pending indentation and clears it.
pub open spec fn spec_flush(context: RenderState, space: char) -> RenderState {
    RenderState {
        output: context.output + spec_fill(space, context.next_indent),
        next_indent: 0,
        ..context
    }
}

/// The renderer on one document node, under ambient indentation `indent`
/// and break mode `broken`, with indent width `width` and fill character
/// `space`: the new render context after the node's subtree is rendered.
///
/// - `Break` overrides the break mode for its subtree; `Indent` widens the
///   ambient indentation by one unit; `Offside` rebases it to the current
///   column (a soft offside keeps the inherited indentation when the column
///   is smaller).
/// - A broken `Line` drains the queued suffixes, writes a newline, and
///   records the ambient indentation as pending; a flat `Line` is a space.
/// - Non-empty text (and a non-empty suffix, which is queued rather than
///   written) first materialises the pending indentation; empty text is a
///   true no-op.
pub open spec fn spec_format(
    document: Document,
    indent: nat,
    broken: bool,
    width: nat,
    space: char,
    context: RenderState,
) -> RenderState
    decreases document,
{
    match document {
        Document::Break(flag, child) => spec_format(*child, indent, flag, width, space, context),
        Document::Indent(child) => spec_format(
            *child,
            indent + width,
            broken,
            width,
            space,
            context,
        ),
        Document::Line => if broken {
            RenderState {
                output: (context.output + spec_concat(context.suffixes)).push('\n'),
                column: indent,
                next_indent: indent,
                suffixes: Seq::empty(),
            }
        } else {
            RenderState { output: context.output.push(' '), column: context.column + 1, ..context }
        },
        Document::LineSuffix(string) => {
            let flushed = if string@.len() > 0 {
                spec_flush(context, space)
            } else {
                context
            };
            RenderState { suffixes: flushed.suffixes.push(string@), ..flushed }
        },
        Document::Offside(child, soft) => spec_format(
            *child,
            if soft && indent > context.column {
                indent
            } else {
                context.column
            },
            broken,
            width,
            space,
            context,
        ),
        Document::Sequence(children) => spec_format_seq(
            children@,
            indent,
            broken,
            width,
            space,
            context,
        ),
        Document::Text(string) => {
            let flushed = if string@.len() > 0 {
                spec_flush(context, space)
            } else {
                context
            };
            RenderState {
                output: flushed.output + string@,
                column: flushed.column + string@.len(),
                ..flushed
            }
        },
    }
}

/// The renderer folded over a sequence of sibling documents, left to right,
/// each under the same ambient state.
pub open spec fn spec_format_seq(
    documents: Seq<Document>,
    indent: nat,
    broken: bool,
    width: nat,
    space: char,
    context: RenderState,
) -> RenderState
    decreases documents,
{
    if documents.len() == 0 {
        context
    } else {
        spec_format_seq(
            documents.drop_first(),
            indent,
            broken,
            width,
            space,
            spec_format(documents.first(), indent, broken, width, space, context),
        )
    }
}

/// The full text produced by one render call: the document rendered from
/// the initial context, with no indentation and in broken mode (a caller
/// flattens explicitly to get single-line output), followed by whatever
/// line suffixes are still queued at the end of the document.
pub open spec fn spec_render(document: Document, options: FormatOptions) -> Seq<char> {
    let end = spec_format(
        document,
        0,
        true,
        options.spec_indent() as nat,
        options.spec_space(),
        initial_render_state(),
    );
    end.output + spec_concat(end.suffixes)
}

/// An upper bound on how far rendering `document` can move the output
/// column and the ambient indentation: the fill characters that `Indent`
/// nodes can add, one space per `Line`, and the text written in between.
pub open spec fn spec_growth(document: Document, width: nat) -> nat
    decreases document,
{
    match document {
        Document::Break(_, child) => spec_growth(*child, width),
        Document::Indent(child) => width + spec_growth(*child, width),
        Document::Line => 1,
        Document::LineSuffix(_) => 0,
        Document::Offside(child, _) => spec_growth(*child, width),
        Document::Sequence(children) => spec_growth_seq(children@, width),
        Document::Text(string) => string@.len(),
    }
}

/// The sum of [`spec_growth`] over a sequence of documents.
pub open spec fn spec_growth_seq(documents: Seq<Document>, width: nat) -> nat
    decreases documents,
{
    if documents.len() == 0 {
        0
    } else {
        spec_growth(documents.first(), width) + spec_growth_seq(documents.drop_first(), width)
    }
}

/// The largest of the column, the pending indentation and the ambient
/// indentation: every number the renderer computes stays within this reach
/// plus the growth of the subtree still to be rendered.
pub open spec fn spec_reach(context: RenderState, indent: nat) -> nat {
    let column = if context.column >= context.next_indent {
        context.column
    } else {
        context.next_indent
    };
    if column >= indent {
        column
    } else {
        indent
    }
}

/// Rendering one node moves the reach of the context by at most the growth
/// of the node's subtree.
proof fn lemma_format_reach(
    document: Document,
    indent: nat,
    broken: bool,
    width: nat,
    space: char,
    context: RenderState,
)
    ensures
        spec_reach(spec_format(document, indent, broken, width, space, context), indent)
            <= spec_reach(context, indent) + spec_growth(document, width),
    decreases document,
{
    match document {
        Document::Break(flag, child) => {
            lemma_format_reach(*child, indent, flag, width, space, context);
        },
        Document::Indent(child) => {
            lemma_format_reach(*child, (indent + width) as nat, broken, width, space, context);
        },
        Document::Line => {},
        Document::LineSuffix(_) => {},
        Document::Offside(child, soft) => {
            let rebased = if soft && indent > context.column {
                indent
            } else {
                context.column
            };
            lemma_format_reach(*child, rebased, broken, width, space, context);
        },
        Document::Sequence(children) => {
            lemma_format_seq_reach(children@, indent, broken, width, space, context);
        },
        Document::Text(_) => {},
    }
}

/// Rendering a sequence of siblings moves the reach of the context by at
/// most the summed growth of the siblings.
proof fn lemma_format_seq_reach(
    documents: Seq<Document>,
    indent: nat,
    broken: bool,
    width: nat,
    space: char,
    context: RenderState,
)
    ensures
        spec_reach(spec_format_seq(documents, indent, broken, width, space, context), indent)
            <= spec_reach(context, indent) + spec_growth_seq(documents, width),
    decreases documents,
{
    if documents.len() != 0 {
        lemma_format_reach(documents.first(), indent, broken, width, space, context);
        lemma_format_seq_reach(
            documents.drop_first(),
            indent,
            broken,
            width,
            space,
            spec_format(documents.first(), indent, broken, width, space, context),
        );
    }
}

/// The views of a sequence of strings.
pub open spec fn spec_views(strings: Seq<String>) -> Seq<Seq<char>> {
    strings.map_values(|string: String| string@)
}

/// The per-call mutable render context: the output collected so far, the
/// bookkeeping that makes indentation lazy, and a copy of the options.
struct Context {
    output: String,
    column: usize,
    next_indent: usize,
    line_suffixes: Vec<String>,
    space: char,
    indent: usize,
}

impl Context {
    /// The context as the specification model sees it.
    spec fn render_state(self) -> RenderState {
        RenderState {
            output: self.output@,
            column: self.column as nat,
            next_indent: self.next_indent as nat,
            suffixes: spec_views(self.line_suffixes@),
        }
    }
}

/// Relies on `String::push`: appends the given character to the end of the
/// string.
#[verifier::external_body]
fn push_char(string: &mut String, character: char)
    ensures
        final(string)@ == old(string)@.push(character),
{
    string.push(character);
}

/// Writes the pending indentation, then clears it so that nothing more is
/// written until the next broken line records a new one.
#[verifier::loop_isolation(false)]
fn flush(context: &mut Context)
    ensures
        final(context).render_state() == spec_flush(old(context).render_state(), old(context).space),
        final(context).space == old(context).space,
        final(context).indent == old(context).indent,
{
    let mut index: usize = 0;
    while index < context.next_indent
        invariant
            index <= context.next_indent,
            context.output@ == old(context).output@ + spec_fill(context.space, index as nat),
            context.column == old(context).column,
            context.next_indent == old(context).next_indent,
            context.line_suffixes == old(context).line_suffixes,
            context.space == old(context).space,
            context.indent == old(context).indent,
        decreases context.next_indent - index,
    {
        push_char(&mut context.output, context.space);
        index += 1;
        proof {
            assert(context.output@ =~= old(context).output@ + spec_fill(
                context.space,
                index as nat,
            ));
        }
    }
    context.next_indent = 0;
    proof {
        assert(context.render_state() =~= spec_flush(
            old(context).render_state(),
            old(context).space,
        ));
    }
}

/// Writes the queued line suffixes, oldest first, and empties the queue.
#[verifier::loop_isolation(false)]
fn drain_suffixes(context: &mut Context)
    ensures
        final(context).output@ == old(context).output@ + spec_concat(
            spec_views(old(context).line_suffixes@),
        ),
        final(context).line_suffixes@ == Seq::<String>::empty(),
        final(context).column == old(context).column,
        final(context).next_indent == old(context).next_indent,
        final(context).space == old(context).space,
        final(context).indent == old(context).indent,
{
    let mut index: usize = 0;
    proof {
        assert(spec_views(context.line_suffixes@).skip(0) =~= spec_views(
            context.line_suffixes@,
        ));
    }
    while index < context.line_suffixes.len()
        invariant
            index <= context.line_suffixes.len(),
            context.output@ + spec_concat(spec_views(context.line_suffixes@).skip(index as int))
                == old(context).output@ + spec_concat(spec_views(old(context).line_suffixes@)),
            context.column == old(context).column,
            context.next_indent == old(context).next_indent,
            context.line_suffixes == old(context).line_suffixes,
            context.space == old(context).space,
            context.indent == old(context).indent,
        decreases context.line_suffixes.len() - index,
    {
        proof {
            assert(spec_views(context.line_suffixes@).skip(index as int).drop_first()
                =~= spec_views(context.line_suffixes@).skip(index as int + 1));
            assert(spec_views(context.line_suffixes@).skip(index as int).first()
                == context.line_suffixes@[index as int]@);
        }
        let suffix = &context.line_suffixes[index];
        context.output.append(suffix.as_str());
        index += 1;
    }
    context.line_suffixes.clear();
}

/// Formats one document node under the given traversal state, appending to
/// the context exactly what the specification model says the node renders
/// to.
#[verifier::loop_isolation(false)]
fn format_document(context: &mut Context, document: &Document, state: State)
    requires
        spec_reach(old(context).render_state(), state.indent() as nat) + spec_growth(
            *document,
            old(context).indent as nat,
        ) <= usize::MAX,
    ensures
        final(context).render_state() == spec_format(
            *document,
            state.indent() as nat,
            state.broken(),
            old(context).indent as nat,
            old(context).space,
            old(context).render_state(),
        ),
        final(context).space == old(context).space,
        final(context).indent == old(context).indent,
    decreases document,
{
    match document {
        Document::Break(flag, child) => {
            format_document(context, &**child, state.set_broken(*flag));
        },
        Document::Indent(child) => {
            format_document(context, &**child, state.set_indent(state.indent() + context.indent));
        },
        Document::Line => {
            if state.broken() {
                drain_suffixes(context);
                push_char(&mut context.output, '\n');
                context.next_indent = state.indent();
                context.column = state.indent();
                proof {
                    assert(context.render_state() =~= spec_format(
                        *document,
                        state.indent() as nat,
                        state.broken(),
                        old(context).indent as nat,
                        old(context).space,
                        old(context).render_state(),
                    ));
                }
            } else {
                push_char(&mut context.output, ' ');
                context.column = context.column + 1;
            }
        },
        Document::LineSuffix(string) => {
            if !string.as_str().is_empty() {
                flush(context);
            }
            context.line_suffixes.push(string.clone());
            proof {
                assert(context.render_state().suffixes =~= spec_format(
                    *document,
                    state.indent() as nat,
                    state.broken(),
                    old(context).indent as nat,
                    old(context).space,
                    old(context).render_state(),
                ).suffixes);
            }
        },
        Document::Offside(child, soft) => {
            let column = context.column;
            let rebased = if *soft && state.indent() > column {
                state.indent()
            } else {
                column
            };
            format_document(context, &**child, state.set_indent(rebased));
        },
        Document::Sequence(children) => {
            let ghost width = context.indent as nat;
            let ghost whole = spec_format_seq(
                children@,
                state.indent() as nat,
                state.broken(),
                width,
                old(context).space,
                old(context).render_state(),
            );
            let mut index: usize = 0;
            proof {
                assert(children@.skip(0) =~= children@);
            }
            while index < children.len()
                invariant
                    index <= children.len(),
                    spec_format_seq(
                        children@.skip(index as int),
                        state.indent() as nat,
                        state.broken(),
                        width,
                        old(context).space,
                        context.render_state(),
                    ) == whole,
                    spec_reach(context.render_state(), state.indent() as nat) + spec_growth_seq(
                        children@.skip(index as int),
                        width,
                    ) <= usize::MAX,
                    context.space == old(context).space,
                    context.indent == old(context).indent,
                decreases children.len() - index,
            {
                proof {
                    assert(children@.skip(index as int).drop_first() =~= children@.skip(
                        index as int + 1,
                    ));
                    lemma_format_reach(
                        children@[index as int],
                        state.indent() as nat,
                        state.broken(),
                        width,
                        context.space,
                        context.render_state(),
                    );
                }
                format_document(context, &children[index], state);
                index += 1;
            }
        },
        Document::Text(string) => {
            if !string.as_str().is_empty() {
                flush(context);
            }
            context.output.append(string.as_str());
            context.column = context.column + string.as_str().unicode_len();
        },
    }
}

/// Formats a document: renders it from the initial context (column zero,
/// no pending indentation, broken mode) and returns the produced text,
/// ending with whatever line suffixes are still queued when the document
/// is exhausted.
pub fn format(document: &Document, options: FormatOptions) -> (output: String)
    requires
        spec_growth(*document, options.indent() as nat) <= usize::MAX,
    ensures
        output@ == spec_render(*document, options),
{
    let mut context = Context {
        output: String::new(),
        column: 0,
        next_indent: 0,
        line_suffixes: Vec::new(),
        space: options.space(),
        indent: options.indent(),
    };
    proof {
        assert(context.render_state() =~= initial_render_state());
    }
    format_document(&mut context, document, State::default());
    drain_suffixes(&mut context);
    context.output
}

/// Computes the growth bound of a document, or `None` when it does not fit
/// the machine's integer range.
#[verifier::loop_isolation(false)]
fn growth(document: &Document, width: usize) -> (result: Option<usize>)
    ensures
        match result {
            Some(bound) => bound == spec_growth(*document, width as nat),
            None => spec_growth(*document, width as nat) > usize::MAX,
        },
    decreases document,
{
    match document {
        Document::Break(_, child) => growth(&**child, width),
        Document::Indent(child) => match growth(&**child, width) {
            Some(bound) => if bound <= usize::MAX - width {
                Some(bound + width)
            } else {
                None
            },
            None => None,
        },
        Document::Line => Some(1),
        Document::LineSuffix(_) => Some(0),
        Document::Offside(child, _) => growth(&**child, width),
        Document::Sequence(children) => {
            let mut total: usize = 0;
            let mut index: usize = 0;
            proof {
                assert(children@.skip(0) =~= children@);
            }
            while index < children.len()
                invariant
                    index <= children.len(),
                    total + spec_growth_seq(children@.skip(index as int), width as nat)
                        == spec_growth_seq(children@, width as nat),
                decreases children.len() - index,
            {
                proof {
                    assert(children@.skip(index as int).drop_first() =~= children@.skip(
                        index as int + 1,
                    ));
                }
                match growth(&children[index], width) {
                    Some(bound) => {
                        if total <= usize::MAX - bound {
                            total += bound;
                        } else {
                            return None;
                        }
                    },
                    None => {
                        return None;
                    },
                }
                index += 1;
            }
            Some(total)
        },
        Document::Text(string) => Some(string.as_str().unicode_len()),
    }
}

/// Formats a document whatever its size: checks first that rendering it
/// cannot move the output column or the indentation beyond the machine's
/// integer range, returns the rendered text when it cannot, and `None`
/// when the document is too large for this machine.
pub fn try_format(document: &Document, options: FormatOptions) -> (result: Option<String>)
    ensures
        match result {
            Some(output) => output@ == spec_render(*document, options) && spec_growth(
                *document,
                options.spec_indent() as nat,
            ) <= usize::MAX,
            None => spec_growth(*document, options.spec_indent() as nat) > usize::MAX,
        },
{
    match growth(document, options.indent()) {
        Some(_) => Some(format(document, options)),
        None => None,
    }
}

} // verus!
