//! Why the document that the grammar gives for a source covers the source:
//! what holds of the parser between any two tokens.
use vstd::prelude::*;
use crate::lexer::grammar::{mode_ok, scan, tokens_from, Body, Mode, Outer, Parameters, Token};
use crate::lexer::scan::lemma_scan_bounds;
use crate::parser::ast::{BlockType, BlockView, NodeView, Text};
use crate::parser::block::{
    close_name, closed_by_name, document, exit, finish, flush, initial, name_matches, new_block,
    push_node, run_from, step, tag_closed, wrap, ParameterContext, ParserView,
};
use crate::parser::run::{lemma_run_first, lemma_run_none};
use crate::parser::tiling::{
    all_text, covers, covers_block, covers_nodes, lemma_covers_nodes_bounds, lemma_covers_push,
    lemma_printed, printed, start_of,
};
use crate::text::Span;

verus! {

/// The byte at which the nodes of a block start: the end of its opening tag.
pub open spec fn body_start(b: BlockView) -> int {
    match b.open {
        Some(o) => o.end as int,
        None => 0,
    }
}

/// Whether the body of a block of that kind is taken verbatim.
pub open spec fn is_raw(kind: BlockType) -> bool {
    kind == BlockType::RawBlock || kind == BlockType::RawStatement || kind == BlockType::RawComment
        || kind == BlockType::Comment
}

/// Whether the open blocks cover the source up to `front`: the nodes of
/// the innermost cover what lies between its opening tag and `front`, and
/// those of each other block what lies between its opening tag and the
/// opening tag of the block within it. The outermost is the document.
pub open spec fn chain(src: Seq<u8>, stack: Seq<BlockView>, front: int) -> bool
    decreases stack.len(),
{
    if stack.len() == 0 {
        false
    } else {
        let b = stack.last();
        &&& covers_nodes(src, b.nodes, body_start(b), front)
        &&& is_raw(b.kind) ==> all_text(b.nodes)
        &&& if stack.len() == 1 {
            b.kind == BlockType::Root && b.open is None
        } else {
            b.kind != BlockType::Root && !is_raw(stack[stack.len() - 2].kind) && (b.open matches Some(
                o,
            ) && o.start <= o.end && chain(src, stack.drop_last(), o.start as int))
        }
    }
}

/// The byte up to which the nodes of the innermost block cover the source:
/// the start of the text or of the statement that is being read, or the
/// place that the parser has reached.
pub open spec fn front(s: ParserView, pos: int) -> int {
    match s.text {
        Some(t) => t.span.start as int,
        None => match s.parameters {
            Some(c) => if c.context == ParameterContext::Statement {
                c.start.start as int
            } else {
                c.start.end as int
            },
            None => pos,
        },
    }
}

/// The kind of the block that a tag opens.
pub open spec fn context_kind(context: ParameterContext) -> BlockType {
    if context == ParameterContext::RawBlock {
        BlockType::RawBlock
    } else {
        BlockType::Scoped
    }
}

/// The kind of the block that a body belongs to.
pub open spec fn body_kind(body: Body) -> BlockType {
    match body {
        Body::RawBlock => BlockType::RawBlock,
        Body::RawComment => BlockType::RawComment,
        Body::RawStatement => BlockType::RawStatement,
        Body::Comment => BlockType::Comment,
    }
}

/// What holds of the parser when it has read the source up to `pos` and
/// the lexer is in `mode`.
pub open spec fn inv(src: Seq<u8>, s: ParserView, pos: int, mode: Mode) -> bool {
    let top = s.stack.last();
    &&& 0 <= pos <= src.len()
    &&& s.stack.len() >= 1
    &&& chain(src, s.stack, front(s, pos))
    &&& match s.text {
        Some(t) => s.parameters is None && t.span.start <= t.span.end && t.span.end == pos,
        None => true,
    }
    &&& match s.parameters {
        Some(c) => c.start.start <= c.start.end && c.start.end <= pos && if c.context
            == ParameterContext::Statement {
            top.kind == BlockType::Root || top.kind == BlockType::Scoped
        } else {
            s.stack.len() >= 2 && top.nodes.len() == 0 && top.open == Some(c.start) && top.kind
                == context_kind(c.context)
        },
        None => true,
    }
    &&& match mode {
        Mode::Outer => s.parameters is None && (top.kind == BlockType::Root || top.kind
            == BlockType::Scoped),
        Mode::Parameters(n) => s.text is None && (s.parameters matches Some(c) && ((n == 4) <==> c.context
            == ParameterContext::RawBlock)),
        Mode::StringLiteral(_, n) => s.text is None && (s.parameters matches Some(c) && ((n == 4)
            <==> c.context == ParameterContext::RawBlock)),
        Mode::Body(body) => s.parameters is None && top.kind == body_kind(body) && s.stack.len()
            >= 2,
    }
}

/// Adding a node to the innermost block moves the front to the end of the node.
pub proof fn lemma_chain_push(src: Seq<u8>, stack: Seq<BlockView>, n: NodeView, m: int, b: int)
    requires
        chain(src, stack, m),
        covers(src, n, m, b),
        start_of(n) == m,
        !(n is Document),
        is_raw(stack.last().kind) ==> n is Text,
    ensures
        chain(src, push_node(stack, n), b),
        push_node(stack, n).len() == stack.len(),
        push_node(stack, n).last().kind == stack.last().kind,
        push_node(stack, n).last().open == stack.last().open,
{
    reveal_with_fuel(chain, 2);
    let top = stack.last();
    let after = push_node(stack, n);
    lemma_covers_push(src, top.nodes, n, body_start(top), m, b);
    assert(after.drop_last() =~= stack.drop_last());
    assert(after.last().nodes == top.nodes.push(n));
    if is_raw(top.kind) {
        assert forall|i: int| 0 <= i < after.last().nodes.len() implies (
        #[trigger] after.last().nodes[i]) is Text by {
            if i < top.nodes.len() {
                assert(top.nodes[i] is Text);
            }
        }
    }
}

/// Adding the text that has been read moves the front to where the parser is.
pub proof fn lemma_chain_flush(src: Seq<u8>, stack: Seq<BlockView>, text: Option<Text>, f: int, pos: int)
    requires
        chain(src, stack, f),
        0 <= pos <= src.len(),
        match text {
            Some(t) => t.span.start == f && f <= pos && t.span.end == pos,
            None => f == pos,
        },
    ensures
        chain(src, flush(stack, text), pos),
        flush(stack, text).len() == stack.len(),
        flush(stack, text).last().kind == stack.last().kind,
        flush(stack, text).last().open == stack.last().open,
        text is None ==> flush(stack, text) == stack,
{
    reveal_with_fuel(chain, 2);
    match text {
        Some(t) => {
            reveal_with_fuel(covers, 2);
            lemma_covers_nodes_bounds(src, stack.last().nodes, body_start(stack.last()), f);
            lemma_chain_push(src, stack, NodeView::Text(t), f, pos);
        },
        None => {},
    }
}

/// Opening a block at the front moves the front to the end of its opening tag.
pub proof fn lemma_chain_enter(
    src: Seq<u8>,
    stack: Seq<BlockView>,
    kind: BlockType,
    open: Span,
    line: usize,
)
    requires
        chain(src, stack, open.start as int),
        kind != BlockType::Root,
        !is_raw(stack.last().kind),
        open.start <= open.end <= src.len(),
    ensures
        chain(src, stack.push(new_block(kind, Some(open), line)), open.end as int),
{
    reveal_with_fuel(chain, 2);
    reveal_with_fuel(covers_nodes, 2);
    let after = stack.push(new_block(kind, Some(open), line));
    assert(after.drop_last() =~= stack);
}

/// Closing the innermost block at the front moves the front to the end of
/// its closing tag.
pub proof fn lemma_chain_exit(
    src: Seq<u8>,
    stack: Seq<BlockView>,
    close: Span,
    line: usize,
    braces: int,
)
    requires
        stack.len() >= 2,
        chain(src, stack, close.start as int),
        close.start <= close.end <= src.len(),
        braces == match stack.last().kind {
            BlockType::Scoped => 2int,
            BlockType::RawBlock => 4int,
            _ => 0int,
        },
        braces > 0 ==> name_matches(src, stack.last(), close_name(src, close, braces)),
    ensures
        chain(src, exit(stack, close, line), close.end as int),
        exit(stack, close, line).len() == stack.len() - 1,
        exit(stack, close, line).last().kind == stack[stack.len() - 2].kind,
        !is_raw(stack[stack.len() - 2].kind),
{
    reveal_with_fuel(chain, 3);
    reveal_with_fuel(covers, 2);
    reveal_with_fuel(covers_block, 2);
    let top = stack.last();
    let done = BlockView {
        close: Some(close),
        lines: Span { start: top.lines.start, end: crate::parser::state::succ(line) },
        ..top
    };
    let o = top.open->Some_0;
    let rest = stack.drop_last();
    lemma_covers_nodes_bounds(src, top.nodes, o.end as int, close.start as int);
    lemma_covers_nodes_bounds(src, rest.last().nodes, body_start(rest.last()), o.start as int);
    assert(covers(src, wrap(done), o.start as int, close.end as int));
    assert(start_of(wrap(done)) == o.start);
    lemma_chain_push(src, rest, wrap(done), o.start as int, close.end as int);
}

/// Ending the opening tag of a block moves the front to the end of the tag.
pub proof fn lemma_chain_retag(
    src: Seq<u8>,
    stack: Seq<BlockView>,
    call: Option<crate::parser::ast::CallView>,
    end: int,
)
    requires
        stack.len() >= 2,
        stack.last().nodes.len() == 0,
        stack.last().open is Some,
        chain(src, stack, body_start(stack.last())),
        body_start(stack.last()) <= end <= src.len(),
        src.len() <= usize::MAX,
    ensures
        chain(
            src,
            stack.drop_last().push(
                BlockView {
                    call,
                    open: Some(
                        Span { start: stack.last().open->Some_0.start, end: end as usize },
                    ),
                    ..stack.last()
                },
            ),
            end,
        ),
{
    reveal_with_fuel(chain, 2);
    reveal_with_fuel(covers_nodes, 2);
    let top = stack.last();
    let after = stack.drop_last().push(
        BlockView {
            call,
            open: Some(Span { start: top.open->Some_0.start, end: end as usize }),
            ..top
        },
    );
    assert(after.drop_last() =~= stack.drop_last());
}

/// The state once the text that has been read is added to the innermost block.
pub open spec fn flushed(s: ParserView) -> ParserView {
    ParserView { stack: flush(s.stack, s.text), text: None, ..s }
}

/// Adding the text that has been read keeps what holds of the parser.
proof fn lemma_flushed(src: Seq<u8>, s: ParserView, pos: int, mode: Mode)
    requires
        inv(src, s, pos, mode),
    ensures
        inv(src, flushed(s), pos, mode),
        flushed(s).stack.len() == s.stack.len(),
        flushed(s).stack.last().kind == s.stack.last().kind,
        flushed(s).stack.last().open == s.stack.last().open,
        s.text is None ==> flushed(s) == s,
        s.parameters is None ==> chain(src, flushed(s).stack, pos),
{
    match s.text {
        Some(t) => {
            lemma_chain_flush(src, s.stack, s.text, t.span.start as int, pos);
        },
        None => {
            assert(flushed(s) == s);
        },
    }
}

/// A token of text keeps what holds of the parser.
proof fn lemma_step_text(file: Seq<char>, src: Seq<u8>, s: ParserView, pos: int, mode: Mode, t: Token)
    requires
        inv(src, s, pos, mode),
        s.parameters is None,
        t.spec_is_text(),
        t.spec_span().start == pos,
        pos < t.spec_span().end <= src.len(),
    ensures
        step(file, src, s, t) matches Ok(next) && inv(src, next, t.spec_span().end as int, mode),
{
}

/// A token of the outer mode keeps what holds of the parser.
proof fn lemma_step_outer(file: Seq<char>, src: Seq<u8>, s: ParserView, pos: int)
    requires
        inv(src, s, pos, Mode::Outer),
        0 <= pos < src.len(),
        src.len() <= usize::MAX,
    ensures
        step(file, src, s, scan(src, pos, Mode::Outer).0) matches Ok(next) ==> inv(
            src,
            next,
            scan(src, pos, Mode::Outer).0.spec_span().end as int,
            scan(src, pos, Mode::Outer).1,
        ),
{
    lemma_scan_bounds(src, pos, Mode::Outer);
    let t = scan(src, pos, Mode::Outer).0;
    let mode = scan(src, pos, Mode::Outer).1;
    let end = t.spec_span().end as int;
    if t.spec_is_text() {
        lemma_step_text(file, src, s, pos, Mode::Outer, t);
    } else {
        lemma_flushed(src, s, pos, Mode::Outer);
        let f = flushed(s);
        match t {
            Token::Block(k, span) => {
                match k {
                    Outer::StartRawBlock => {
                        lemma_chain_enter(src, f.stack, BlockType::RawBlock, span, f.line);
                    },
                    Outer::StartRawComment => {
                        lemma_chain_enter(src, f.stack, BlockType::RawComment, span, f.line);
                    },
                    Outer::StartRawStatement => {
                        lemma_chain_enter(src, f.stack, BlockType::RawStatement, span, f.line);
                    },
                    Outer::StartComment => {
                        lemma_chain_enter(src, f.stack, BlockType::Comment, span, f.line);
                    },
                    Outer::StartBlockScope => {
                        lemma_chain_enter(src, f.stack, BlockType::Scoped, span, f.line);
                    },
                    Outer::StartStatement => {},
                    Outer::EndBlockScope => {
                        if closed_by_name(file, src, f, span, BlockType::Scoped, 2) is Ok {
                            lemma_chain_exit(src, f.stack, span, f.line, 2);
                        }
                    },
                    _ => {},
                }
            },
            _ => {},
        }
    }
}

/// A token of a body keeps what holds of the parser.
proof fn lemma_step_body(file: Seq<char>, src: Seq<u8>, s: ParserView, pos: int, body: Body)
    requires
        inv(src, s, pos, Mode::Body(body)),
        0 <= pos < src.len(),
        src.len() <= usize::MAX,
    ensures
        step(file, src, s, scan(src, pos, Mode::Body(body)).0) matches Ok(next) ==> inv(
            src,
            next,
            scan(src, pos, Mode::Body(body)).0.spec_span().end as int,
            scan(src, pos, Mode::Body(body)).1,
        ),
{
    lemma_scan_bounds(src, pos, Mode::Body(body));
    let t = scan(src, pos, Mode::Body(body)).0;
    let mode = scan(src, pos, Mode::Body(body)).1;
    if t.spec_is_text() {
        lemma_step_text(file, src, s, pos, Mode::Body(body), t);
    } else {
        lemma_flushed(src, s, pos, Mode::Body(body));
        let f = flushed(s);
        let span = t.spec_span();
        reveal_with_fuel(chain, 2);
        match body {
            Body::RawBlock => {
                if closed_by_name(file, src, f, span, BlockType::RawBlock, 4) is Ok {
                    lemma_chain_exit(src, f.stack, span, f.line, 4);
                }
            },
            _ => {
                lemma_chain_exit(src, f.stack, span, f.line, 0);
            },
        }
    }
}

/// A token of a tag keeps what holds of the parser.
proof fn lemma_step_tag(
    file: Seq<char>,
    src: Seq<u8>,
    s: ParserView,
    pos: int,
    mode: Mode,
)
    requires
        inv(src, s, pos, mode),
        mode is Parameters || mode is StringLiteral,
        mode_ok(mode),
        0 <= pos < src.len(),
        src.len() <= usize::MAX,
    ensures
        step(file, src, s, scan(src, pos, mode).0) matches Ok(next) ==> inv(
            src,
            next,
            scan(src, pos, mode).0.spec_span().end as int,
            scan(src, pos, mode).1,
        ),
{
    lemma_scan_bounds(src, pos, mode);
    let t = scan(src, pos, mode).0;
    let after = scan(src, pos, mode).1;
    let end = t.spec_span().end as int;
    assert(flushed(s) == s);
    let c = s.parameters->Some_0;
    match t {
        Token::Parameters(lex, span) => {
            if lex == Parameters::End {
                crate::parser::statement::lemma_call_of_spans(
                    file,
                    c.line,
                    src,
                    c.tokens,
                    crate::parser::block::is_partial(src, c.start),
                    crate::parser::block::is_escaped(src, c.start),
                    c.start,
                    span,
                );
                if tag_closed(file, src, s, span) is Ok {
                    let call = crate::parser::statement::call_of(
                        file,
                        c.line,
                        src,
                        c.tokens,
                        crate::parser::block::is_partial(src, c.start),
                        crate::parser::block::is_escaped(src, c.start),
                        c.start,
                        span,
                    )->Ok_0;
                    if c.context == ParameterContext::Statement {
                        reveal_with_fuel(covers, 2);
                        let n = NodeView::Statement(call);
                        assert(covers(src, n, c.start.start as int, end));
                        lemma_chain_push(src, s.stack, n, c.start.start as int, end);
                    } else {
                        lemma_chain_retag(src, s.stack, Some(call), end);
                    }
                }
            }
        },
        _ => {},
    }
}

/// One more token keeps what holds of the parser.
pub proof fn lemma_step(file: Seq<char>, src: Seq<u8>, s: ParserView, pos: int, mode: Mode)
    requires
        inv(src, s, pos, mode),
        mode_ok(mode),
        0 <= pos < src.len(),
        src.len() <= usize::MAX,
    ensures
        scan(src, pos, mode).0.spec_span().start == pos,
        pos < scan(src, pos, mode).0.spec_span().end <= src.len(),
        mode_ok(scan(src, pos, mode).1),
        step(file, src, s, scan(src, pos, mode).0) matches Ok(next) ==> inv(
            src,
            next,
            scan(src, pos, mode).0.spec_span().end as int,
            scan(src, pos, mode).1,
        ),
{
    lemma_scan_bounds(src, pos, mode);
    match mode {
        Mode::Outer => {
            lemma_step_outer(file, src, s, pos);
        },
        Mode::Body(body) => {
            lemma_step_body(file, src, s, pos, body);
        },
        _ => {
            lemma_step_tag(file, src, s, pos, mode);
        },
    }
}

/// Whatever the grammar makes of the rest of a source, from a state of
/// which the above holds, covers the source.
pub proof fn lemma_run(file: Seq<char>, src: Seq<u8>, s: ParserView, pos: int, mode: Mode)
    requires
        inv(src, s, pos, mode),
        mode_ok(mode),
        src.len() <= usize::MAX,
    ensures
        run_from(file, src, s, tokens_from(src, pos, mode), 0) matches Ok(n) ==> covers(
            src,
            n,
            0,
            src.len() as int,
        ),
    decreases src.len() - pos,
{
    reveal_with_fuel(tokens_from, 2);
    if pos >= src.len() {
        lemma_run_none(file, src, s);
        if finish(file, s) is Ok {
            lemma_flushed(src, s, pos, mode);
            reveal_with_fuel(chain, 2);
            reveal_with_fuel(covers, 2);
        }
    } else {
        lemma_step(file, src, s, pos, mode);
        let t = scan(src, pos, mode).0;
        let after = scan(src, pos, mode).1;
        let end = t.spec_span().end as int;
        let rest = tokens_from(src, end, after);
        lemma_run_first(file, src, s, t, rest);
        match step(file, src, s, t) {
            Err(e) => {},
            Ok(next) => {
                lemma_run(file, src, next, end, after);
            },
        }
    }
}

/// The document of a source covers the source: its nodes follow one
/// another without a gap from the first byte to the last, so do the nodes
/// of each block between its tags, the body of a raw block, a comment or
/// an escaped statement is text and nothing else, and the closing tag of
/// each block gives the name that its opening tag gives.
pub proof fn lemma_document_covers(file: Seq<char>, line: usize, src: Seq<u8>)
    requires
        src.len() <= usize::MAX,
    ensures
        document(file, line, src) matches Ok(n) ==> covers(src, n, 0, src.len() as int),
{
    reveal_with_fuel(chain, 2);
    reveal_with_fuel(covers_nodes, 2);
    let s = initial(line);
    assert(s.stack.last() == new_block(BlockType::Root, None, line));
    assert(inv(src, s, 0, Mode::Outer));
    lemma_run(file, src, s, 0, Mode::Outer);
}

/// Printing the document of a source gives the source back.
pub proof fn lemma_print_round_trip(file: Seq<char>, line: usize, src: Seq<u8>)
    requires
        src.len() <= usize::MAX,
    ensures
        document(file, line, src) matches Ok(n) ==> printed(src, n) == src,
{
    lemma_document_covers(file, line, src);
    match document(file, line, src) {
        Ok(n) => {
            lemma_printed(src, n, 0, src.len() as int);
            assert(src.subrange(0, src.len() as int) =~= src);
        },
        Err(e) => {},
    }
}

/// The nodes of the document of a source, each taken from its first byte
/// to its last, make up the source.
pub proof fn lemma_document_joined(file: Seq<char>, line: usize, src: Seq<u8>)
    requires
        src.len() <= usize::MAX,
    ensures
        document(file, line, src) matches Ok(NodeView::Document(b)) ==> crate::parser::tiling::joined(
            src,
            b.nodes,
        ) == src,
{
    lemma_document_covers(file, line, src);
    match document(file, line, src) {
        Ok(NodeView::Document(b)) => {
            reveal_with_fuel(covers, 2);
            crate::parser::tiling::lemma_joined(src, b.nodes, 0, src.len() as int);
            assert(src.subrange(0, src.len() as int) =~= src);
        },
        _ => {},
    }
}

/// In the document of a source, the closing tag of each block gives the
/// name that its opening tag gives.
pub proof fn lemma_document_names(file: Seq<char>, line: usize, src: Seq<u8>)
    requires
        src.len() <= usize::MAX,
    ensures
        document(file, line, src) matches Ok(n) ==> crate::parser::tiling::names_agree(src, n),
{
    lemma_document_covers(file, line, src);
    match document(file, line, src) {
        Ok(n) => {
            crate::parser::tiling::lemma_names_agree(src, n, 0, src.len() as int);
        },
        Err(e) => {},
    }
}

} // verus!
