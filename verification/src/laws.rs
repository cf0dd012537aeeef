//! Laws of the renderer: proved statements that relate the analyses of a
//! document to the text its rendering produces.

use crate::document::Document;
use crate::format::initial_render_state;
use crate::format::spec_concat;
use crate::format::spec_fill;
use crate::format::spec_flush;
use crate::format::spec_format;
use crate::format::spec_format_seq;
use crate::format::spec_render;
use crate::format::RenderState;
use crate::options::FormatOptions;
use crate::utility::spec_all_empty;
use crate::utility::spec_count_lines;
use crate::utility::spec_count_lines_seq;
use crate::utility::spec_is_broken;
use crate::utility::spec_is_empty;
use vstd::prelude::*;

verus! {

/// A `Break` node decides brokenness by itself: wrapping any document in a
/// flat `Break` analyses as not broken, and wrapping it in a broken `Break`
/// analyses as broken, whatever the document holds.
pub proof fn lemma_break_decides_is_broken(document: Box<Document>)
    ensures
        !spec_is_broken(Document::Break(false, document)),
        spec_is_broken(Document::Break(true, document)),
{
}

/// Joining one more string concatenates it at the end.
proof fn lemma_concat_push(strings: Seq<Seq<char>>, string: Seq<char>)
    ensures
        spec_concat(strings.push(string)) == spec_concat(strings) + string,
    decreases strings,
{
    if strings.len() == 0 {
        assert(strings.push(string).drop_first() =~= Seq::<Seq<char>>::empty());
        assert(strings.push(string).first() == string);
        assert(spec_concat(strings.push(string).drop_first()) == Seq::<char>::empty());
        assert(spec_concat(strings.push(string)) =~= spec_concat(strings) + string);
    } else {
        assert(strings.push(string).drop_first() =~= strings.drop_first().push(string));
        assert(strings.push(string).first() == strings.first());
        lemma_concat_push(strings.drop_first(), string);
        assert(spec_concat(strings.push(string).drop_first()) == spec_concat(
            strings.drop_first(),
        ) + string);
        assert(spec_concat(strings.push(string)) =~= spec_concat(strings) + string);
    }
}

/// Rendering an empty document leaves the output, the column and the
/// pending indentation untouched, under any ambient state and options; it
/// can queue line suffixes, but only empty ones.
pub proof fn lemma_empty_format(
    document: Document,
    indent: nat,
    broken: bool,
    width: nat,
    space: char,
    context: RenderState,
)
    requires
        spec_is_empty(document),
    ensures
        ({
            let end = spec_format(document, indent, broken, width, space, context);
            &&& end.output == context.output
            &&& end.column == context.column
            &&& end.next_indent == context.next_indent
            &&& spec_concat(end.suffixes) == spec_concat(context.suffixes)
        }),
    decreases document,
{
    match document {
        Document::Break(flag, child) => {
            lemma_empty_format(*child, indent, flag, width, space, context);
        },
        Document::Indent(child) => {
            lemma_empty_format(*child, (indent + width) as nat, broken, width, space, context);
        },
        Document::Line => {},
        Document::LineSuffix(string) => {
            lemma_concat_push(context.suffixes, string@);
            assert(spec_concat(context.suffixes) + string@ =~= spec_concat(context.suffixes));
        },
        Document::Offside(child, soft) => {
            let rebased = if soft && indent > context.column {
                indent
            } else {
                context.column
            };
            lemma_empty_format(*child, rebased, broken, width, space, context);
        },
        Document::Sequence(children) => {
            lemma_empty_format_seq(children@, indent, broken, width, space, context);
        },
        Document::Text(string) => {
            assert(context.output + string@ =~= context.output);
        },
    }
}

/// The sequence version of [`lemma_empty_format`].
proof fn lemma_empty_format_seq(
    documents: Seq<Document>,
    indent: nat,
    broken: bool,
    width: nat,
    space: char,
    context: RenderState,
)
    requires
        spec_all_empty(documents),
    ensures
        ({
            let end = spec_format_seq(documents, indent, broken, width, space, context);
            &&& end.output == context.output
            &&& end.column == context.column
            &&& end.next_indent == context.next_indent
            &&& spec_concat(end.suffixes) == spec_concat(context.suffixes)
        }),
    decreases documents,
{
    if documents.len() != 0 {
        lemma_empty_format(documents.first(), indent, broken, width, space, context);
        lemma_empty_format_seq(
            documents.drop_first(),
            indent,
            broken,
            width,
            space,
            spec_format(documents.first(), indent, broken, width, space, context),
        );
    }
}

/// Emptiness round-trip: a document that analyses as empty renders to the
/// empty string, under any options.
pub proof fn lemma_empty_renders_nothing(document: Document, options: FormatOptions)
    requires
        spec_is_empty(document),
    ensures
        spec_render(document, options) == Seq::<char>::empty(),
{
    lemma_empty_format(
        document,
        0,
        true,
        options.spec_indent() as nat,
        options.spec_space(),
        initial_render_state(),
    );
    assert(spec_render(document, options) =~= Seq::<char>::empty());
}

/// The number of occurrences of a character in a string.
pub open spec fn spec_count_char(string: Seq<char>, character: char) -> nat
    decreases string,
{
    if string.len() == 0 {
        0
    } else {
        (if string.first() == character {
            1nat
        } else {
            0nat
        }) + spec_count_char(string.drop_first(), character)
    }
}

/// Counting distributes over concatenation.
proof fn lemma_count_char_add(left: Seq<char>, right: Seq<char>, character: char)
    ensures
        spec_count_char(left + right, character) == spec_count_char(left, character)
            + spec_count_char(right, character),
    decreases left,
{
    if left.len() == 0 {
        assert(left + right =~= right);
    } else {
        assert((left + right).drop_first() =~= left.drop_first() + right);
        lemma_count_char_add(left.drop_first(), right, character);
        assert((left + right).first() == left.first());
    }
}

/// A character occurs zero times exactly when the string does not contain
/// it.
proof fn lemma_count_char_iff_contains(string: Seq<char>, character: char)
    ensures
        spec_count_char(string, character) == 0 <==> !string.contains(character),
    decreases string,
{
    if string.len() != 0 {
        lemma_count_char_iff_contains(string.drop_first(), character);
        if string.first() == character {
            assert(string.contains(character));
        } else {
            if string.contains(character) {
                let found = choose|i: int|
                    0 <= i < string.len() && string[i] == character;
                assert(found > 0);
                assert(string.drop_first()[found - 1] == character);
                assert(string.drop_first().contains(character));
            }
            if string.drop_first().contains(character) {
                let found = choose|i: int|
                    0 <= i < string.drop_first().len() && string.drop_first()[i] == character;
                assert(string[found + 1] == character);
                assert(string.contains(character));
            }
        }
    }
}

/// The fill never contains a character other than the fill character.
proof fn lemma_fill_free(space: char, count: nat, character: char)
    requires
        space != character,
    ensures
        spec_count_char(spec_fill(space, count), character) == 0,
    decreases count,
{
    if count != 0 {
        assert(spec_fill(space, count).drop_first() =~= spec_fill(space, (count - 1) as nat));
        lemma_fill_free(space, (count - 1) as nat, character);
    }
}

/// A queue of newline-free suffixes joins to a newline-free string.
proof fn lemma_concat_newline_free(strings: Seq<Seq<char>>)
    requires
        forall|i: int| 0 <= i < strings.len() ==> !(#[trigger] strings[i]).contains('\n'),
    ensures
        spec_count_char(spec_concat(strings), '\n') == 0,
    decreases strings,
{
    if strings.len() == 0 {
    } else {
        lemma_count_char_iff_contains(strings.first(), '\n');
        lemma_concat_newline_free(strings.drop_first());
        lemma_count_char_add(strings.first(), spec_concat(strings.drop_first()), '\n');
    }
}

/// Whether no text payload of the document contains a newline of its own:
/// every newline such a document renders comes from a broken `Line`.
pub open spec fn spec_newline_free(document: Document) -> bool
    decreases document,
{
    match document {
        Document::Break(_, child) => spec_newline_free(*child),
        Document::Indent(child) => spec_newline_free(*child),
        Document::Offside(child, _) => spec_newline_free(*child),
        Document::Line => true,
        Document::Sequence(children) => spec_all_newline_free(children@),
        Document::LineSuffix(string) => !string@.contains('\n'),
        Document::Text(string) => !string@.contains('\n'),
    }
}

/// Whether every document of a sequence is newline-free.
pub open spec fn spec_all_newline_free(documents: Seq<Document>) -> bool
    decreases documents,
{
    documents.len() == 0 || (spec_newline_free(documents.first()) && spec_all_newline_free(
        documents.drop_first(),
    ))
}

/// The number of `Line` nodes the renderer turns into a newline when the
/// document is rendered under the given ambient break mode.
pub open spec fn spec_rendered_lines(document: Document, broken: bool) -> nat
    decreases document,
{
    match document {
        Document::Break(flag, child) => spec_rendered_lines(*child, flag),
        Document::Indent(child) => spec_rendered_lines(*child, broken),
        Document::Offside(child, _) => spec_rendered_lines(*child, broken),
        Document::Line => if broken {
            1
        } else {
            0
        },
        Document::Sequence(children) => spec_rendered_lines_seq(children@, broken),
        Document::LineSuffix(_) => 0,
        Document::Text(_) => 0,
    }
}

/// The sum of [`spec_rendered_lines`] over a sequence of documents.
pub open spec fn spec_rendered_lines_seq(documents: Seq<Document>, broken: bool) -> nat
    decreases documents,
{
    if documents.len() == 0 {
        0
    } else {
        spec_rendered_lines(documents.first(), broken) + spec_rendered_lines_seq(
            documents.drop_first(),
            broken,
        )
    }
}

/// Rendering a newline-free document adds to the output exactly one
/// newline per rendered `Line`, and keeps every queued suffix newline-free.
proof fn lemma_format_newlines(
    document: Document,
    indent: nat,
    broken: bool,
    width: nat,
    space: char,
    context: RenderState,
)
    requires
        space != '\n',
        spec_newline_free(document),
        forall|i: int|
            0 <= i < context.suffixes.len() ==> !(#[trigger] context.suffixes[i]).contains('\n'),
    ensures
        ({
            let end = spec_format(document, indent, broken, width, space, context);
            &&& spec_count_char(end.output, '\n') == spec_count_char(context.output, '\n')
                + spec_rendered_lines(document, broken)
            &&& forall|i: int|
                0 <= i < end.suffixes.len() ==> !(#[trigger] end.suffixes[i]).contains('\n')
        }),
    decreases document,
{
    match document {
        Document::Break(flag, child) => {
            lemma_format_newlines(*child, indent, flag, width, space, context);
        },
        Document::Indent(child) => {
            lemma_format_newlines(*child, (indent + width) as nat, broken, width, space, context);
        },
        Document::Line => {
            if broken {
                let drained = context.output + spec_concat(context.suffixes);
                lemma_concat_newline_free(context.suffixes);
                lemma_count_char_add(context.output, spec_concat(context.suffixes), '\n');
                assert(drained.push('\n') =~= drained + seq!['\n']);
                lemma_count_char_add(drained, seq!['\n'], '\n');
                assert(seq!['\n'].drop_first() =~= Seq::<char>::empty());
                assert(spec_count_char(seq!['\n'].drop_first(), '\n') == 0);
                assert(spec_count_char(seq!['\n'], '\n') == 1);
            } else {
                assert(context.output.push(' ') =~= context.output + seq![' ']);
                lemma_count_char_add(context.output, seq![' '], '\n');
                assert(seq![' '].drop_first() =~= Seq::<char>::empty());
                assert(spec_count_char(seq![' '].drop_first(), '\n') == 0);
                assert(spec_count_char(seq![' '], '\n') == 0);
            }
        },
        Document::LineSuffix(string) => {
            if string@.len() > 0 {
                lemma_fill_free(space, context.next_indent, '\n');
                lemma_count_char_add(context.output, spec_fill(space, context.next_indent), '\n');
            }
        },
        Document::Offside(child, soft) => {
            let rebased = if soft && indent > context.column {
                indent
            } else {
                context.column
            };
            lemma_format_newlines(*child, rebased, broken, width, space, context);
        },
        Document::Sequence(children) => {
            lemma_format_newlines_seq(children@, indent, broken, width, space, context);
        },
        Document::Text(string) => {
            let flushed = if string@.len() > 0 {
                spec_flush(context, space)
            } else {
                context
            };
            if string@.len() > 0 {
                lemma_fill_free(space, context.next_indent, '\n');
                lemma_count_char_add(context.output, spec_fill(space, context.next_indent), '\n');
            }
            lemma_count_char_iff_contains(string@, '\n');
            lemma_count_char_add(flushed.output, string@, '\n');
        },
    }
}

/// The sequence version of [`lemma_format_newlines`].
proof fn lemma_format_newlines_seq(
    documents: Seq<Document>,
    indent: nat,
    broken: bool,
    width: nat,
    space: char,
    context: RenderState,
)
    requires
        space != '\n',
        spec_all_newline_free(documents),
        forall|i: int|
            0 <= i < context.suffixes.len() ==> !(#[trigger] context.suffixes[i]).contains('\n'),
    ensures
        ({
            let end = spec_format_seq(documents, indent, broken, width, space, context);
            &&& spec_count_char(end.output, '\n') == spec_count_char(context.output, '\n')
                + spec_rendered_lines_seq(documents, broken)
            &&& forall|i: int|
                0 <= i < end.suffixes.len() ==> !(#[trigger] end.suffixes[i]).contains('\n')
        }),
    decreases documents,
{
    if documents.len() != 0 {
        lemma_format_newlines(documents.first(), indent, broken, width, space, context);
        lemma_format_newlines_seq(
            documents.drop_first(),
            indent,
            broken,
            width,
            space,
            spec_format(documents.first(), indent, broken, width, space, context),
        );
    }
}

/// The newlines of a rendering are exactly its rendered `Line` nodes: when
/// no text payload carries a newline of its own and the fill character is
/// not a newline, the rendered text contains one newline per `Line` node
/// that the renderer reaches in broken mode.
pub proof fn lemma_render_newline_count(document: Document, options: FormatOptions)
    requires
        spec_newline_free(document),
        options.spec_space() != '\n',
    ensures
        spec_count_char(spec_render(document, options), '\n') == spec_rendered_lines(
            document,
            true,
        ),
{
    let end = spec_format(
        document,
        0,
        true,
        options.spec_indent() as nat,
        options.spec_space(),
        initial_render_state(),
    );
    lemma_format_newlines(
        document,
        0,
        true,
        options.spec_indent() as nat,
        options.spec_space(),
        initial_render_state(),
    );
    lemma_concat_newline_free(end.suffixes);
    lemma_count_char_add(end.output, spec_concat(end.suffixes), '\n');
}

/// Flat rendering has no newline: flattening a document whose payloads are
/// newline-free, and in which no subtree re-broken by a `Break` renders a
/// line, yields text without a newline.
pub proof fn lemma_flat_render_has_no_newline(document: Box<Document>, options: FormatOptions)
    requires
        spec_newline_free(*document),
        options.spec_space() != '\n',
        spec_rendered_lines(*document, false) == 0,
    ensures
        !spec_render(Document::Break(false, document), options).contains('\n'),
{
    lemma_render_newline_count(Document::Break(false, document), options);
    lemma_count_char_iff_contains(spec_render(Document::Break(false, document), options), '\n');
}

/// Whether `document` is `core` wrapped in `levels` nested `Indent` nodes.
pub open spec fn spec_indent_chain(document: Document, levels: nat, core: Document) -> bool
    decreases levels,
{
    if levels == 0 {
        document == core
    } else {
        match document {
            Document::Indent(child) => spec_indent_chain(*child, (levels - 1) as nat, core),
            _ => false,
        }
    }
}

/// A chain of `Indent` nodes renders its core under the ambient
/// indentation widened by one indent unit per level.
proof fn lemma_indent_chain_format(
    document: Document,
    levels: nat,
    core: Document,
    indent: nat,
    broken: bool,
    width: nat,
    space: char,
    context: RenderState,
)
    requires
        spec_indent_chain(document, levels, core),
    ensures
        spec_format(document, indent, broken, width, space, context) == spec_format(
            core,
            (indent + levels * width) as nat,
            broken,
            width,
            space,
            context,
        ),
    decreases levels,
{
    if levels == 0 {
    } else {
        match document {
            Document::Indent(child) => {
                lemma_indent_chain_format(
                    *child,
                    (levels - 1) as nat,
                    core,
                    (indent + width) as nat,
                    broken,
                    width,
                    space,
                    context,
                );
                assert(width + (levels - 1) * width == levels * width) by (nonlinear_arith)
                    requires
                        levels >= 1,
                ;
            },
            _ => {
                assert(false);
            },
        }
    }
}

/// Whether `document` is a broken group holding exactly a `Line` followed
/// by the text `text`: the shape whose rendering shows pure indentation.
pub open spec fn spec_broken_line_then_text(document: Document, text: Seq<char>) -> bool {
    match document {
        Document::Break(flag, child) => flag && (match *child {
            Document::Sequence(children) => children@.len() == 2 && children@[0] is Line && (
            match children@[1] {
                Document::Text(string) => string@ == text,
                _ => false,
            }),
            _ => false,
        }),
        _ => false,
    }
}

/// Indent monotonicity: a broken line followed by non-empty text, nested
/// under `levels` `Indent` nodes, renders as a newline, then exactly one
/// indent unit of fill characters per level, then the text.
pub proof fn lemma_indent_monotonicity(
    document: Document,
    levels: nat,
    core: Document,
    text: Seq<char>,
    options: FormatOptions,
)
    requires
        spec_indent_chain(document, levels, core),
        spec_broken_line_then_text(core, text),
        text.len() > 0,
    ensures
        spec_render(document, options) == seq!['\n'] + spec_fill(
            options.spec_space(),
            (levels * options.spec_indent()) as nat,
        ) + text,
{
    let width = options.spec_indent() as nat;
    let space = options.spec_space();
    let margin = (levels * width) as nat;
    lemma_indent_chain_format(
        document,
        levels,
        core,
        0,
        true,
        width,
        space,
        initial_render_state(),
    );
    match core {
        Document::Break(_, child) => {
            match *child {
                Document::Sequence(children) => {
                    let documents = children@;
                    let start = initial_render_state();
                    assert(levels * width >= 0) by (nonlinear_arith);
                    assert(margin == levels * width);
                    let after_line = spec_format(documents.first(), margin, true, width, space, start);
                    assert(documents.first() == documents[0]);
                    assert(spec_concat(start.suffixes) == Seq::<char>::empty());
                    assert(after_line.output =~= seq!['\n']);
                    assert(after_line.next_indent == margin);
                    assert(documents.drop_first().first() == documents[1]);
                    assert(documents.drop_first().drop_first() =~= Seq::<Document>::empty());
                    let end = spec_format(documents[1], margin, true, width, space, after_line);
                    assert(end.output =~= seq!['\n'] + spec_fill(space, margin) + text);
                    assert(end.suffixes =~= Seq::<Seq<char>>::empty());
                    assert(spec_format_seq(
                        documents.drop_first().drop_first(),
                        margin,
                        true,
                        width,
                        space,
                        end,
                    ) == end);
                    assert(spec_format_seq(documents.drop_first(), margin, true, width, space, after_line)
                        == end);
                    assert(spec_format_seq(documents, margin, true, width, space, start) == end);
                    assert(spec_format(document, 0, true, width, space, start) == spec_format(
                        core,
                        margin,
                        true,
                        width,
                        space,
                        start,
                    ));
                    let unwrapped = *child;
                    assert(spec_format(core, margin, true, width, space, start) == spec_format(
                        unwrapped,
                        margin,
                        true,
                        width,
                        space,
                        start,
                    ));
                    assert(spec_format(unwrapped, margin, true, width, space, start)
                        == spec_format_seq(documents, margin, true, width, space, start));
                    assert(spec_concat(end.suffixes) == Seq::<char>::empty());
                    assert(spec_render(document, options) =~= seq!['\n'] + spec_fill(space, margin)
                        + text);
                },
                _ => {
                    assert(false);
                },
            }
        },
        _ => {
            assert(false);
        },
    }
}

/// Whether `document` is a line suffix holding exactly the text `text`.
pub open spec fn spec_suffix_node(document: Document, text: Seq<char>) -> bool {
    match document {
        Document::LineSuffix(string) => string@ == text,
        _ => false,
    }
}

/// Line-suffix ordering: suffixes queued before a broken line are written
/// just before its newline, after the suffixes that were already waiting
/// and in the order they were queued, and the queue is empty afterwards,
/// so suffixes queued later on another line can never come before them.
/// (Stated from a context with no pending indentation, as after any
/// visible text.)
pub proof fn lemma_line_suffix_fifo(
    documents: Seq<Document>,
    texts: Seq<Seq<char>>,
    indent: nat,
    width: nat,
    space: char,
    context: RenderState,
)
    requires
        context.next_indent == 0,
        documents.len() == texts.len() + 1,
        forall|i: int| 0 <= i < texts.len() ==> spec_suffix_node(
            #[trigger] documents[i],
            texts[i],
        ),
        documents[texts.len() as int] is Line,
    ensures
        spec_format_seq(documents, indent, true, width, space, context) == (RenderState {
            output: (context.output + spec_concat(context.suffixes + texts)).push('\n'),
            column: indent,
            next_indent: indent,
            suffixes: Seq::empty(),
        }),
    decreases texts.len(),
{
    if texts.len() == 0 {
        assert(documents.first() is Line);
        assert(documents.drop_first() =~= Seq::<Document>::empty());
        assert(context.suffixes + texts =~= context.suffixes);
        let after = spec_format(documents.first(), indent, true, width, space, context);
        assert(after == (RenderState {
            output: (context.output + spec_concat(context.suffixes)).push('\n'),
            column: indent,
            next_indent: indent,
            suffixes: Seq::empty(),
        }));
        assert(spec_format_seq(documents.drop_first(), indent, true, width, space, after) == after);
        assert(spec_format_seq(documents, indent, true, width, space, context) =~= (RenderState {
            output: (context.output + spec_concat(context.suffixes + texts)).push('\n'),
            column: indent,
            next_indent: indent,
            suffixes: Seq::empty(),
        }));
    } else {
        assert(documents.first() == documents[0]);
        assert(spec_suffix_node(documents[0], texts[0]));
        let queued = spec_format(documents.first(), indent, true, width, space, context);
        assert(spec_fill(space, 0) =~= Seq::<char>::empty());
        assert(queued.output =~= context.output);
        assert(queued == (RenderState {
            suffixes: context.suffixes.push(texts[0]),
            ..context
        })) by {
            assert(queued =~= (RenderState { suffixes: context.suffixes.push(texts[0]), ..context }));
        };
        assert(forall|i: int| 0 <= i < texts.drop_first().len() ==> spec_suffix_node(
            #[trigger] documents.drop_first()[i],
            texts.drop_first()[i],
        ));
        assert(documents.drop_first()[texts.drop_first().len() as int] is Line);
        lemma_line_suffix_fifo(
            documents.drop_first(),
            texts.drop_first(),
            indent,
            width,
            space,
            queued,
        );
        assert(spec_format_seq(documents, indent, true, width, space, context)
            == spec_format_seq(documents.drop_first(), indent, true, width, space, queued));
        assert(context.suffixes.push(texts[0]) + texts.drop_first() =~= context.suffixes + texts);
    }
}

/// Whether every flat `Break` in the document really flattens its subtree:
/// no `Break` inside it re-breaks and renders a line.  The line count of
/// such a resolved document is exact.
pub open spec fn spec_flatten_respected(document: Document) -> bool
    decreases document,
{
    match document {
        Document::Break(flag, child) => spec_flatten_respected(*child) && (!flag
            ==> spec_rendered_lines(*child, false) == 0),
        Document::Indent(child) => spec_flatten_respected(*child),
        Document::Offside(child, _) => spec_flatten_respected(*child),
        Document::Sequence(children) => spec_all_flatten_respected(children@),
        Document::Line => true,
        Document::LineSuffix(_) => true,
        Document::Text(_) => true,
    }
}

/// Whether every document of a sequence respects its flat `Break` nodes.
pub open spec fn spec_all_flatten_respected(documents: Seq<Document>) -> bool
    decreases documents,
{
    documents.len() == 0 || (spec_flatten_respected(documents.first())
        && spec_all_flatten_respected(documents.drop_first()))
}

/// On a document whose flat `Break` nodes really flatten their subtrees,
/// the line count is the number of `Line` nodes the renderer turns into
/// newlines when the document is rendered from the root.
pub proof fn lemma_count_lines_counts_rendered_lines(document: Document)
    requires
        spec_flatten_respected(document),
    ensures
        spec_count_lines(document) == spec_rendered_lines(document, true),
    decreases document,
{
    match document {
        Document::Break(flag, child) => {
            if flag {
                lemma_count_lines_counts_rendered_lines(*child);
            }
        },
        Document::Indent(child) => {
            lemma_count_lines_counts_rendered_lines(*child);
        },
        Document::Offside(child, _) => {
            lemma_count_lines_counts_rendered_lines(*child);
        },
        Document::Sequence(children) => {
            lemma_count_lines_counts_rendered_lines_seq(children@);
        },
        Document::Line => {},
        Document::LineSuffix(_) => {},
        Document::Text(_) => {},
    }
}

/// The sequence version of [`lemma_count_lines_counts_rendered_lines`].
proof fn lemma_count_lines_counts_rendered_lines_seq(documents: Seq<Document>)
    requires
        spec_all_flatten_respected(documents),
    ensures
        spec_count_lines_seq(documents) == spec_rendered_lines_seq(documents, true),
    decreases documents,
{
    if documents.len() != 0 {
        lemma_count_lines_counts_rendered_lines(documents.first());
        lemma_count_lines_counts_rendered_lines_seq(documents.drop_first());
    }
}

/// Soft offside never decreases indentation: the child of a soft `Offside`
/// is rendered under an indentation no smaller than the inherited one, and
/// exactly under the inherited one whenever the current column does not
/// exceed it.
pub proof fn lemma_soft_offside_keeps_indent(
    child: Box<Document>,
    indent: nat,
    broken: bool,
    width: nat,
    space: char,
    context: RenderState,
)
    ensures
        ({
            let rebased = if indent > context.column {
                indent
            } else {
                context.column
            };
            &&& rebased >= indent
            &&& spec_format(Document::Offside(child, true), indent, broken, width, space, context)
                == spec_format(*child, rebased, broken, width, space, context)
        }),
{
}

} // verus!
