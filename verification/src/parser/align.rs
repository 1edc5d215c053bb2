//! Why the text of a document's nodes is text: in a source that is UTF-8
//! text, the spans that are written out when a document is rendered start
//! and end between characters.
use vstd::prelude::*;
use vstd::utf8::valid_utf8;
use crate::lexer::chars::{cut, lemma_scan_cut};
use crate::lexer::grammar::{mode_ok, scan, tokens_from, Mode, Outer, Parameters, Token};
use crate::lexer::scan::lemma_scan_bounds;
use crate::parser::ast::{BlockType, BlockView, NodeView, Text};
use crate::parser::block::{
    closed, closed_by_name, document, exit, finish, flush, initial, new_block, push_node,
    run_from, step, tag_closed, wrap, ParameterContext, ParserView,
};
use crate::parser::run::{lemma_run_first, lemma_run_none};
use crate::parser::sound::{body_kind, flushed, inv, lemma_step};
use crate::text::Span;

verus! {

/// Whether the opening tag of a block ends between characters and, for an
/// escaped statement, so does its backslash. The document has no tag.
pub open spec fn marks(src: Seq<u8>, b: BlockView) -> bool {
    match b.open {
        Some(o) => cut(src, o.end as int) && (b.kind == BlockType::RawStatement ==> cut(
            src,
            o.start + 1,
        )),
        None => b.kind == BlockType::Root,
    }
}

/// Whether the spans of a node that are written out when it is rendered
/// start and end between characters: a text; what is between the tags of
/// a raw block; an escaped statement without its backslash; and the same
/// of the nodes within a block.
pub open spec fn aligned(src: Seq<u8>, n: NodeView) -> bool
    decreases n, 1int,
{
    match n {
        NodeView::Text(t) => cut(src, t.span.start as int) && cut(src, t.span.end as int),
        NodeView::Statement(_) => true,
        NodeView::Document(b) => aligned_nodes(src, b.nodes),
        NodeView::Block(b) => aligned_nodes(src, b.nodes),
        NodeView::RawBlock(b) => marks(src, b) && (b.close matches Some(c) && cut(
            src,
            c.start as int,
        )),
        NodeView::RawStatement(b) => (b.open matches Some(o) && cut(src, o.start + 1)) && (
        b.close matches Some(c) && cut(src, c.end as int)),
        NodeView::RawComment(_) => true,
        NodeView::Comment(_) => true,
    }
}

/// Whether each of the nodes is aligned.
pub open spec fn aligned_nodes(src: Seq<u8>, nodes: Seq<NodeView>) -> bool
    decreases nodes, 0int,
{
    if nodes.len() == 0 {
        true
    } else {
        aligned_nodes(src, nodes.drop_last()) && aligned(src, nodes.last())
    }
}

/// Each of the nodes that are aligned is aligned.
pub proof fn lemma_aligned_at(src: Seq<u8>, nodes: Seq<NodeView>, i: int)
    requires
        aligned_nodes(src, nodes),
        0 <= i < nodes.len(),
    ensures
        aligned(src, nodes[i]),
    decreases nodes.len(),
{
    reveal_with_fuel(aligned_nodes, 2);
    if i < nodes.len() - 1 {
        lemma_aligned_at(src, nodes.drop_last(), i);
    }
}

/// Whether the nodes and the opening tag of each open block are aligned.
pub open spec fn stack_aligned(src: Seq<u8>, stack: Seq<BlockView>) -> bool
    decreases stack.len(),
{
    if stack.len() == 0 {
        true
    } else {
        aligned_nodes(src, stack.last().nodes) && marks(src, stack.last()) && stack_aligned(
            src,
            stack.drop_last(),
        )
    }
}

/// What holds of the parser, beside what holds of it for any source, when
/// it has read a source that is text up to `pos`.
pub open spec fn inv_text(src: Seq<u8>, s: ParserView, pos: int) -> bool {
    &&& cut(src, pos)
    &&& stack_aligned(src, s.stack)
    &&& match s.text {
        Some(t) => cut(src, t.span.start as int),
        None => true,
    }
}

proof fn lemma_aligned_push(src: Seq<u8>, stack: Seq<BlockView>, n: NodeView)
    requires
        stack.len() > 0,
        stack_aligned(src, stack),
        aligned(src, n),
    ensures
        stack_aligned(src, push_node(stack, n)),
{
    reveal_with_fuel(stack_aligned, 2);
    reveal_with_fuel(aligned_nodes, 2);
    let top = stack.last();
    let after = push_node(stack, n);
    assert(after.drop_last() =~= stack.drop_last());
    assert(top.nodes.push(n).drop_last() =~= top.nodes);
}

proof fn lemma_aligned_flush(src: Seq<u8>, s: ParserView, pos: int, mode: Mode)
    requires
        inv(src, s, pos, mode),
        inv_text(src, s, pos),
    ensures
        inv_text(src, flushed(s), pos),
{
    match s.text {
        Some(t) => {
            reveal_with_fuel(aligned, 2);
            lemma_aligned_push(src, s.stack, NodeView::Text(t));
        },
        None => {},
    }
}

proof fn lemma_aligned_enter(src: Seq<u8>, stack: Seq<BlockView>, kind: BlockType, open: Span, line: usize)
    requires
        stack_aligned(src, stack),
        cut(src, open.end as int),
        kind == BlockType::RawStatement ==> cut(src, open.start + 1),
    ensures
        stack_aligned(src, stack.push(new_block(kind, Some(open), line))),
{
    reveal_with_fuel(stack_aligned, 2);
    reveal_with_fuel(aligned_nodes, 2);
    let after = stack.push(new_block(kind, Some(open), line));
    assert(after.drop_last() =~= stack);
}

proof fn lemma_aligned_exit(src: Seq<u8>, stack: Seq<BlockView>, close: Span, line: usize)
    requires
        stack.len() >= 2,
        stack_aligned(src, stack),
        cut(src, close.start as int),
        cut(src, close.end as int),
    ensures
        stack_aligned(src, exit(stack, close, line)),
{
    reveal_with_fuel(stack_aligned, 3);
    reveal_with_fuel(aligned, 2);
    let top = stack.last();
    let done = BlockView {
        close: Some(close),
        lines: Span { start: top.lines.start, end: crate::parser::state::succ(line) },
        ..top
    };
    assert(aligned(src, wrap(done)));
    lemma_aligned_push(src, stack.drop_last(), wrap(done));
}

proof fn lemma_aligned_retag(
    src: Seq<u8>,
    stack: Seq<BlockView>,
    call: Option<crate::parser::ast::CallView>,
    open: Span,
)
    requires
        stack.len() >= 1,
        stack_aligned(src, stack),
        stack.last().kind != BlockType::RawStatement,
        cut(src, open.end as int),
    ensures
        stack_aligned(
            src,
            stack.drop_last().push(BlockView { call, open: Some(open), ..stack.last() }),
        ),
{
    reveal_with_fuel(stack_aligned, 2);
    let after = stack.drop_last().push(BlockView { call, open: Some(open), ..stack.last() });
    assert(after.drop_last() =~= stack.drop_last());
}

/// One more token of a source that is text keeps what holds of the parser.
pub proof fn lemma_step_text_source(
    file: Seq<char>,
    src: Seq<u8>,
    s: ParserView,
    pos: int,
    mode: Mode,
)
    requires
        valid_utf8(src),
        inv(src, s, pos, mode),
        inv_text(src, s, pos),
        mode_ok(mode),
        0 <= pos < src.len(),
        src.len() <= usize::MAX,
    ensures
        step(file, src, s, scan(src, pos, mode).0) matches Ok(next) ==> inv_text(
            src,
            next,
            scan(src, pos, mode).0.spec_span().end as int,
        ),
{
    lemma_scan_bounds(src, pos, mode);
    lemma_scan_cut(src, pos, mode);
    let t = scan(src, pos, mode).0;
    let end = t.spec_span().end as int;
    if t.spec_is_text() {
    } else {
        lemma_aligned_flush(src, s, pos, mode);
        let f = flushed(s);
        assert(f.stack.len() >= 1);
        match t {
            Token::Block(k, span) => {
                match k {
                    Outer::StartRawBlock => {
                        lemma_aligned_enter(src, f.stack, BlockType::RawBlock, span, f.line);
                    },
                    Outer::StartRawComment => {
                        lemma_aligned_enter(src, f.stack, BlockType::RawComment, span, f.line);
                    },
                    Outer::StartRawStatement => {
                        assert(src[pos + 1] == 0x7b);
                        lemma_aligned_enter(src, f.stack, BlockType::RawStatement, span, f.line);
                    },
                    Outer::StartComment => {
                        lemma_aligned_enter(src, f.stack, BlockType::Comment, span, f.line);
                    },
                    Outer::StartBlockScope => {
                        lemma_aligned_enter(src, f.stack, BlockType::Scoped, span, f.line);
                    },
                    Outer::EndBlockScope => {
                        if closed_by_name(file, src, f, span, BlockType::Scoped, 2) is Ok {
                            lemma_aligned_exit(src, f.stack, span, f.line);
                        }
                    },
                    _ => {},
                }
            },
            Token::RawBlock(k, span) => {
                if closed_by_name(file, src, f, span, BlockType::RawBlock, 4) is Ok {
                    lemma_aligned_exit(src, f.stack, span, f.line);
                }
            },
            Token::RawComment(k, span) => {
                if closed(file, f, span) is Ok {
                    lemma_aligned_exit(src, f.stack, span, f.line);
                }
            },
            Token::RawStatement(k, span) => {
                if closed(file, f, span) is Ok {
                    lemma_aligned_exit(src, f.stack, span, f.line);
                }
            },
            Token::Comment(k, span) => {
                if closed(file, f, span) is Ok {
                    lemma_aligned_exit(src, f.stack, span, f.line);
                }
            },
            Token::Parameters(lex, span) => {
                if lex == Parameters::End {
                    match step(file, src, s, t) {
                        Ok(next) => {
                            let c = s.parameters->Some_0;
                            if c.context == ParameterContext::Statement {
                                reveal_with_fuel(aligned, 2);
                                lemma_aligned_push(src, f.stack, next.stack.last().nodes.last());
                            } else {
                                let top = next.stack.last();
                                lemma_aligned_retag(src, f.stack, top.call, top.open->Some_0);
                            }
                        },
                        Err(e) => {},
                    }
                }
            },
            Token::StringLiteral(lex, span) => {},
        }
    }
}

/// Whatever the grammar makes of the rest of a source that is text is
/// aligned.
pub proof fn lemma_run_text_source(
    file: Seq<char>,
    src: Seq<u8>,
    s: ParserView,
    pos: int,
    mode: Mode,
)
    requires
        valid_utf8(src),
        inv(src, s, pos, mode),
        inv_text(src, s, pos),
        mode_ok(mode),
        src.len() <= usize::MAX,
    ensures
        run_from(file, src, s, tokens_from(src, pos, mode), 0) matches Ok(n) ==> aligned(src, n),
    decreases src.len() - pos,
{
    reveal_with_fuel(tokens_from, 2);
    if pos >= src.len() {
        lemma_run_none(file, src, s);
        if finish(file, s) is Ok {
            lemma_aligned_flush(src, s, pos, mode);
            reveal_with_fuel(stack_aligned, 2);
            reveal_with_fuel(aligned, 2);
        }
    } else {
        lemma_step(file, src, s, pos, mode);
        lemma_step_text_source(file, src, s, pos, mode);
        let t = scan(src, pos, mode).0;
        let after = scan(src, pos, mode).1;
        let end = t.spec_span().end as int;
        lemma_run_first(file, src, s, t, tokens_from(src, end, after));
        match step(file, src, s, t) {
            Err(e) => {},
            Ok(next) => {
                lemma_run_text_source(file, src, next, end, after);
            },
        }
    }
}

/// The document of a source that is UTF-8 text is aligned: what is
/// written out of the source when the document is rendered starts and
/// ends between characters.
pub proof fn lemma_document_aligned(file: Seq<char>, line: usize, src: Seq<u8>)
    requires
        valid_utf8(src),
        src.len() <= usize::MAX,
    ensures
        document(file, line, src) matches Ok(n) ==> aligned(src, n),
{
    reveal_with_fuel(crate::parser::sound::chain, 2);
    reveal_with_fuel(crate::parser::tiling::covers_nodes, 2);
    reveal_with_fuel(stack_aligned, 2);
    reveal_with_fuel(aligned_nodes, 2);
    let s = initial(line);
    assert(s.stack.last() == new_block(BlockType::Root, None, line));
    assert(inv(src, s, 0, Mode::Outer));
    assert(s.stack.drop_last().len() == 0);
    if src.len() > 0 {
        vstd::utf8::is_char_boundary_start_end_of_seq(src);
        vstd::utf8::is_char_boundary_iff_not_is_continuation_byte(src, 0);
    }
    assert(inv_text(src, s, 0));
    lemma_run_text_source(file, src, s, 0, Mode::Outer);
}

} // verus!
