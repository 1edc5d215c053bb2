//! The document grammar: how each token changes the stack of open blocks.
use vstd::prelude::*;
use crate::error::syntax::{ErrorKind, Note, SyntaxErrorView};
use crate::lexer::grammar::{
    byte_at, opt, run_end, tokens_of, Inner, Outer, Parameters, Raw, Run, Token, GREATER, LBRACE,
    TILDE,
};
use crate::parser::ast::{
    BlockType, BlockView, CallView, ComponentType, NodeView, PathView, TargetView, Text,
};
use crate::parser::state::{fail, fail_note, succ};
use crate::parser::statement::call_of;
use crate::text::Span;

verus! {

/// The tags whose parameters are read as a call.
#[derive(Clone, Copy, Debug, PartialEq, Eq, Structural)]
pub enum ParameterContext {
    /// `{{#name ...}}`
    Block,
    /// `{{name ...}}` or `{{{name ...}}}`
    Statement,
    /// `{{{{name ...}}}}`
    RawBlock,
}

/// The value of a [`crate::parser::ParameterCache`]: the tokens of a tag
/// that has been opened, the token that opened it and the line it is on.
pub ghost struct CacheView {
    pub context: ParameterContext,
    pub tokens: Seq<Token>,
    pub start: Span,
    pub line: usize,
}

/// The value of a [`crate::parser::Parser`] between two tokens: the blocks
/// that are open, the document first; the text that has been read and not
/// yet added to a block; the tag that is open, if any; and the line.
pub ghost struct ParserView {
    pub stack: Seq<BlockView>,
    pub text: Option<Text>,
    pub parameters: Option<CacheView>,
    pub line: usize,
}

/// A block that has just been opened.
pub open spec fn new_block(kind: BlockType, open: Option<Span>, line: usize) -> BlockView {
    BlockView {
        kind,
        nodes: Seq::empty(),
        open,
        close: None,
        call: None,
        lines: Span { start: line, end: succ(line) },
    }
}

/// The node that a block is, by its kind.
pub open spec fn wrap(b: BlockView) -> NodeView {
    match b.kind {
        BlockType::Root => NodeView::Document(b),
        BlockType::RawBlock => NodeView::RawBlock(b),
        BlockType::RawStatement => NodeView::RawStatement(b),
        BlockType::RawComment => NodeView::RawComment(b),
        BlockType::Comment => NodeView::Comment(b),
        BlockType::Scoped => NodeView::Block(b),
    }
}

/// The stack after a node has been added to its innermost block.
pub open spec fn push_node(stack: Seq<BlockView>, n: NodeView) -> Seq<BlockView>
    recommends
        stack.len() > 0,
{
    let top = stack.last();
    stack.drop_last().push(BlockView { nodes: top.nodes.push(n), ..top })
}

/// The stack after the text that has been read was added to the innermost block.
pub open spec fn flush(stack: Seq<BlockView>, text: Option<Text>) -> Seq<BlockView> {
    match text {
        Some(t) => push_node(stack, NodeView::Text(t)),
        None => stack,
    }
}

/// The stack after its innermost block has been closed and added to the
/// block around it.
pub open spec fn exit(stack: Seq<BlockView>, close: Span, line: usize) -> Seq<BlockView>
    recommends
        stack.len() > 1,
{
    let top = stack.last();
    let done = BlockView {
        close: Some(close),
        lines: Span { start: top.lines.start, end: succ(line) },
        ..top
    };
    push_node(stack.drop_last(), wrap(done))
}

/// The text with one more token.
pub open spec fn extend(text: Option<Text>, span: Span, line: usize) -> Text {
    match text {
        None => Text { span, lines: Span { start: line, end: succ(line) } },
        Some(t) => Text {
            span: Span { start: t.span.start, end: span.end },
            lines: Span { start: t.lines.start, end: succ(line) },
        },
    }
}

/// Whether the opening sigil of a tag says that it is a partial: it ends with `>`.
pub open spec fn is_partial(src: Seq<u8>, open: Span) -> bool {
    byte_at(src, open.end - 1) == GREATER
}

/// Whether the opening sigil of a tag has two braces, so that what the tag
/// gives is escaped.
pub open spec fn is_escaped(src: Seq<u8>, open: Span) -> bool {
    byte_at(src, open.start + 2) != LBRACE
}

/// The name in a closing tag whose sigil has that many braces: what
/// follows the braces, an optional `~`, the `/` and any blanks.
pub open spec fn close_name(src: Seq<u8>, close: Span, braces: int) -> Span {
    let after = close.start + braces + opt(src, close.start + braces, TILDE) + 1;
    let a = if after <= src.len() {
        after
    } else {
        src.len() as int
    };
    let b = run_end(Run::Blank, src, a);
    Span { start: b as usize, end: run_end(Run::Name, src, b) as usize }
}

/// The name of a path of one identifier.
pub open spec fn simple_name(p: PathView) -> Option<Span> {
    if p.components.len() == 1 && p.components[0].0 == ComponentType::Identifier && !p.root
        && !p.explicit && p.parents == 0 {
        Some(p.components[0].1)
    } else {
        None
    }
}

/// The name that the closing tag of a block must give: that of its call,
/// where the target of the call is a path of one identifier.
pub open spec fn block_name(b: BlockView) -> Option<Span> {
    match b.call {
        Some(c) => match c.target {
            TargetView::Path(p) => simple_name(p),
            TargetView::SubExpr(_) => None,
        },
        None => None,
    }
}

/// Whether a closing tag with that name closes the block.
pub open spec fn name_matches(src: Seq<u8>, b: BlockView, name: Span) -> bool {
    match block_name(b) {
        Some(n) => n.of(src) == name.of(src),
        None => true,
    }
}

/// What is wrong with a call as the call of a block, if anything: the
/// target of a block is a path of one identifier, or, for a partial, a
/// sub-expression; that of a raw block is a path of one identifier.
pub open spec fn block_target_error(context: ParameterContext, c: CallView) -> Option<ErrorKind> {
    match c.target {
        TargetView::Path(p) => if context != ParameterContext::Statement && simple_name(p) is None {
            Some(ErrorKind::BlockName)
        } else {
            None
        },
        TargetView::SubExpr(_) => if context == ParameterContext::RawBlock {
            Some(ErrorKind::BlockName)
        } else if context == ParameterContext::Block && !c.partial {
            Some(ErrorKind::BlockTargetSubExpr)
        } else {
            None
        },
    }
}

/// The state with one more token among those of the open tag.
pub open spec fn cached(s: ParserView, t: Token, line: usize) -> ParserView {
    match s.parameters {
        Some(c) => ParserView {
            parameters: Some(CacheView { tokens: c.tokens.push(t), ..c }),
            line,
            ..s
        },
        None => ParserView { line, ..s },
    }
}

/// The state after the innermost block was closed by a token at `close`.
/// There is no block to close where only the document is open.
pub open spec fn closed(file: Seq<char>, s: ParserView, close: Span) -> Result<ParserView, SyntaxErrorView> {
    if s.stack.len() < 2 {
        Err(fail(ErrorKind::BlockNotOpen, file, s.line, close.start))
    } else {
        Ok(ParserView { stack: exit(s.stack, close, s.line), ..s })
    }
}

/// The state after a closing tag with that many braces, which must name the
/// innermost block, a block of that kind.
pub open spec fn closed_by_name(
    file: Seq<char>,
    src: Seq<u8>,
    s: ParserView,
    close: Span,
    kind: BlockType,
    braces: int,
) -> Result<ParserView, SyntaxErrorView> {
    if s.stack.len() < 2 || s.stack.last().kind != kind {
        Err(fail(ErrorKind::BlockNotOpen, file, s.line, close.start))
    } else if !name_matches(src, s.stack.last(), close_name(src, close, braces)) {
        Err(fail(ErrorKind::TagNameMismatch, file, s.line, close.start))
    } else {
        closed(file, s, close)
    }
}

/// The state after the end of the open tag: its tokens are read as a call,
/// which becomes a statement or the call of the block that the tag opened.
pub open spec fn tag_closed(file: Seq<char>, src: Seq<u8>, s: ParserView, end: Span) -> Result<
    ParserView,
    SyntaxErrorView,
> {
    match s.parameters {
        None => Ok(s),
        Some(c) => match call_of(
            file,
            c.line,
            src,
            c.tokens,
            is_partial(src, c.start),
            is_escaped(src, c.start),
            c.start,
            end,
        ) {
            Err(e) => Err(e),
            Ok(call) => match block_target_error(c.context, call) {
                Some(kind) => Err(fail(kind, file, c.line, c.start.start)),
                None => if c.context == ParameterContext::Statement {
                    Ok(
                        ParserView {
                            stack: push_node(s.stack, NodeView::Statement(call)),
                            parameters: None,
                            ..s
                        },
                    )
                } else {
                    let top = s.stack.last();
                    Ok(
                        ParserView {
                            stack: s.stack.drop_last().push(
                                BlockView {
                                    call: Some(call),
                                    open: Some(Span { start: c.start.start, end: end.end }),
                                    ..top
                                },
                            ),
                            parameters: None,
                            ..s
                        },
                    )
                },
            },
        },
    }
}

/// The state with a new innermost block.
pub open spec fn entered(s: ParserView, kind: BlockType, open: Span) -> ParserView {
    ParserView { stack: s.stack.push(new_block(kind, Some(open), s.line)), ..s }
}

/// The state with a tag open.
pub open spec fn tag_opened(s: ParserView, context: ParameterContext, start: Span) -> ParserView {
    ParserView {
        parameters: Some(CacheView { context, tokens: Seq::empty(), start, line: s.line }),
        ..s
    }
}

/// The state after a token that is no text, once the text read so far has
/// been added to the innermost block.
pub open spec fn step_tag(file: Seq<char>, src: Seq<u8>, s: ParserView, t: Token) -> Result<
    ParserView,
    SyntaxErrorView,
> {
    match t {
        Token::Block(k, span) => match k {
            Outer::StartRawBlock => Ok(
                tag_opened(entered(s, BlockType::RawBlock, span), ParameterContext::RawBlock, span),
            ),
            Outer::StartRawComment => Ok(entered(s, BlockType::RawComment, span)),
            Outer::StartRawStatement => Ok(entered(s, BlockType::RawStatement, span)),
            Outer::StartComment => Ok(entered(s, BlockType::Comment, span)),
            Outer::StartBlockScope => Ok(
                tag_opened(entered(s, BlockType::Scoped, span), ParameterContext::Block, span),
            ),
            Outer::StartStatement => Ok(tag_opened(s, ParameterContext::Statement, span)),
            Outer::EndBlockScope => closed_by_name(file, src, s, span, BlockType::Scoped, 2),
            Outer::Error => Err(fail(ErrorKind::OpenStatement, file, s.line, span.start)),
            _ => Ok(s),
        },
        Token::RawBlock(k, span) => if k == Raw::End {
            closed_by_name(file, src, s, span, BlockType::RawBlock, 4)
        } else {
            Ok(s)
        },
        Token::RawComment(k, span) => if k == Raw::End {
            closed(file, s, span)
        } else {
            Ok(s)
        },
        Token::RawStatement(k, span) => if k == Raw::End {
            closed(file, s, span)
        } else {
            Ok(s)
        },
        Token::Comment(k, span) => if k == Raw::End {
            closed(file, s, span)
        } else {
            Ok(s)
        },
        Token::Parameters(lex, span) => if lex == Parameters::End {
            tag_closed(file, src, s, span)
        } else if lex == Parameters::Newline {
            Ok(cached(s, t, succ(s.line)))
        } else {
            Ok(cached(s, t, s.line))
        },
        Token::StringLiteral(lex, span) => if lex == Inner::Newline {
            Err(fail(ErrorKind::StringLiteralNewline, file, s.line, span.start))
        } else {
            Ok(cached(s, t, s.line))
        },
    }
}

/// The state after one more token. Text is gathered; any other token first
/// adds the text that was gathered to the innermost block.
pub open spec fn step(file: Seq<char>, src: Seq<u8>, s: ParserView, t: Token) -> Result<
    ParserView,
    SyntaxErrorView,
> {
    if t.spec_is_text() {
        Ok(
            ParserView {
                text: Some(extend(s.text, t.spec_span(), s.line)),
                line: if t.spec_is_newline() {
                    succ(s.line)
                } else {
                    s.line
                },
                ..s
            },
        )
    } else {
        step_tag(file, src, ParserView { stack: flush(s.stack, s.text), text: None, ..s }, t)
    }
}

/// The note for a tag that is open where the source ends: whether a string
/// literal is open in it.
pub open spec fn open_note(tokens: Seq<Token>) -> Option<Note> {
    if tokens.len() == 0 {
        None
    } else {
        match tokens.last() {
            Token::StringLiteral(k, _) => if k != Inner::End {
                Some(Note::StringLiteralNotClosed)
            } else {
                None
            },
            Token::Parameters(k, _) => if k == Parameters::DoubleQuoteString || k
                == Parameters::SingleQuoteString {
                Some(Note::StringLiteralNotClosed)
            } else {
                None
            },
            _ => None,
        }
    }
}

/// The error for a block of that kind that is open where the source ends.
pub open spec fn open_kind(kind: BlockType) -> ErrorKind {
    match kind {
        BlockType::RawBlock => ErrorKind::RawBlockNotTerminated,
        BlockType::RawStatement => ErrorKind::RawStatementNotTerminated,
        BlockType::RawComment => ErrorKind::RawCommentNotTerminated,
        BlockType::Comment => ErrorKind::CommentNotTerminated,
        _ => ErrorKind::BlockNotTerminated,
    }
}

/// The byte at which a block was opened.
pub open spec fn open_start(b: BlockView) -> usize {
    match b.open {
        Some(s) => s.start,
        None => 0,
    }
}

/// The note that names the closing tag that a block lacks, where the
/// block has a name.
pub open spec fn missing_close(b: BlockView) -> Option<Note> {
    match block_name(b) {
        Some(name) => match b.kind {
            BlockType::RawBlock => Some(Note::MissingRawClose(name)),
            _ => Some(Note::MissingClose(name)),
        },
        None => None,
    }
}

/// The document, once the tokens have been read: no tag and no block may
/// be open. The error for one that is cites the place where it was opened,
/// and names the closing tag that is missing.
pub open spec fn finish(file: Seq<char>, s: ParserView) -> Result<NodeView, SyntaxErrorView> {
    match s.parameters {
        Some(c) => Err(
            fail_note(
                if c.context == ParameterContext::RawBlock {
                    ErrorKind::RawBlockOpenNotTerminated
                } else {
                    ErrorKind::OpenStatement
                },
                file,
                c.line,
                c.start.start,
                open_note(c.tokens),
            ),
        ),
        None => {
            let stack = flush(s.stack, s.text);
            let top = stack.last();
            if stack.len() > 1 {
                Err(
                    fail_note(
                        open_kind(top.kind),
                        file,
                        top.lines.start,
                        open_start(top),
                        missing_close(top),
                    ),
                )
            } else {
                Ok(
                    NodeView::Document(
                        BlockView {
                            lines: Span { start: top.lines.start, end: succ(s.line) },
                            ..top
                        },
                    ),
                )
            }
        },
    }
}

/// The state before the first token.
pub open spec fn initial(line: usize) -> ParserView {
    ParserView {
        stack: seq![new_block(BlockType::Root, None, line)],
        text: None,
        parameters: None,
        line,
    }
}

/// The document that the tokens from index `i` on lead to from the state `s`.
pub open spec fn run_from(file: Seq<char>, src: Seq<u8>, s: ParserView, toks: Seq<Token>, i: int) -> Result<
    NodeView,
    SyntaxErrorView,
>
    decreases toks.len() - i,
{
    if i < 0 || i >= toks.len() {
        finish(file, s)
    } else {
        match step(file, src, s, toks[i]) {
            Err(e) => Err(e),
            Ok(next) => run_from(file, src, next, toks, i + 1),
        }
    }
}

/// The document that a source is, or what is wrong with it: the grammar
/// of templates. `line` is the line on which the source starts.
pub open spec fn document(file: Seq<char>, line: usize, src: Seq<u8>) -> Result<NodeView, SyntaxErrorView> {
    run_from(file, src, initial(line), tokens_of(src), 0)
}

} // verus!
