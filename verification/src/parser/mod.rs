//! The parser: from tokens to the syntax tree.
//!
//! A tag is a comment, a statement, a partial, or the opening or closing
//! tag of a block. The grammar has no conditional form: `else` is an
//! identifier like any other, and a block has one body. So a partial cannot
//! be combined with a conditional, and no syntax error stands for that.
pub mod align;
pub mod ast;
pub mod block;
pub mod path;
pub mod run;
pub mod sound;
pub mod state;
pub mod statement;
pub mod tiling;

pub use block::ParameterContext;
pub use state::{ParseState, ParserOptions};

use vstd::prelude::*;
use crate::error::syntax::{ErrorKind, Note, SyntaxError};
use crate::lexer::grammar::{
    tiled, tokens_of, Inner, Outer, Parameters, Raw, Run, Token, GREATER, LBRACE, TILDE,
};
use crate::lexer::scan::{lemma_len_fits, lex, opt_at, peek, scan_run};
use crate::parser::ast::{
    block_view, block_views, lemma_block_views, lemma_block_views_push, lemma_node_views_push,
    node_views, Block, BlockType, Call, CallTarget, ComponentType, Node, Path, Text,
};
use crate::parser::block::{
    block_name, block_target_error, cached, close_name, closed, closed_by_name, document, exit,
    finish, flush, initial, new_block, push_node, run_from, simple_name, step, step_tag,
    tag_closed, wrap, CacheView, ParserView,
};
use crate::parser::state::{next_line, syntax_error};
use crate::parser::statement::tokens_within;
use crate::text::{bytes_eq, Span};

verus! {

/// The tokens of a tag that has been opened and not yet closed.
#[derive(Debug)]
pub struct ParameterCache {
    pub context: ParameterContext,
    pub tokens: Vec<Token>,
    /// The token that opened the tag.
    pub start: Span,
    /// The line on which the tag was opened.
    pub line: usize,
}

impl View for ParameterCache {
    type V = CacheView;

    open spec fn view(&self) -> CacheView {
        CacheView { context: self.context, tokens: self.tokens@, start: self.start, line: self.line }
    }
}

impl ParameterCache {
    pub fn new(context: ParameterContext, start: Span, line: usize) -> (r: Self)
        ensures
            r@ == (CacheView { context, tokens: Seq::empty(), start, line }),
    {
        ParameterCache { context, tokens: Vec::new(), start, line }
    }
}

/// A parser for one source.
pub struct Parser<'source> {
    pub source: &'source [u8],
    pub tokens: Vec<Token>,
    pub cursor: usize,
    pub state: ParseState,
    pub options: ParserOptions,
    pub stack: Vec<Block>,
    pub text: Option<Text>,
    pub parameters: Option<ParameterCache>,
}

/// The value of a tag that may be open.
pub open spec fn cache_view(c: Option<ParameterCache>) -> Option<CacheView> {
    match c {
        Some(c) => Some(c@),
        None => None,
    }
}

impl<'source> View for Parser<'source> {
    type V = ParserView;

    open spec fn view(&self) -> ParserView {
        ParserView {
            stack: block_views(self.stack@),
            text: self.text,
            parameters: cache_view(self.parameters),
            line: self.state.line,
        }
    }
}

/// The views of a stack without its innermost block, and of that block.
pub proof fn lemma_block_views_last(s: Seq<Block>)
    requires
        s.len() > 0,
    ensures
        block_views(s).len() == s.len(),
        block_views(s.drop_last()) == block_views(s).drop_last(),
        block_views(s).last() == block_view(s.last()),
{
    lemma_block_views(s);
    lemma_block_views(s.drop_last());
    assert(block_views(s.drop_last()) =~= block_views(s).drop_last());
}

/// Adds a node to the innermost block.
pub(crate) fn add_node(stack: &mut Vec<Block>, node: Node)
    requires
        old(stack).len() > 0,
    ensures
        block_views(final(stack)@) == push_node(block_views(old(stack)@), node@),
        final(stack).len() == old(stack).len(),
{
    proof {
        lemma_block_views_last(stack@);
    }
    let mut top = stack.pop().unwrap();
    let ghost rest = stack@;
    let ghost before = top;
    proof {
        lemma_node_views_push(top.nodes@, node);
    }
    top.nodes.push(node);
    proof {
        lemma_block_views_push(rest, top);
    }
    stack.push(top);
}

/// Adds the text that has been read, if any, to the innermost block.
pub(crate) fn add_text(stack: &mut Vec<Block>, text: Option<Text>)
    requires
        old(stack).len() > 0,
    ensures
        block_views(final(stack)@) == flush(block_views(old(stack)@), text),
        final(stack).len() == old(stack).len(),
{
    match text {
        Some(t) => {
            add_node(stack, Node::Text(t));
        },
        None => {},
    }
}

/// The node that a block is, by its kind.
pub fn wrap_block(b: Block) -> (r: Node)
    ensures
        r@ == wrap(b@),
{
    match b.kind {
        BlockType::Root => Node::Document(b),
        BlockType::RawBlock => Node::RawBlock(b),
        BlockType::RawStatement => Node::RawStatement(b),
        BlockType::RawComment => Node::RawComment(b),
        BlockType::Comment => Node::Comment(b),
        BlockType::Scoped => Node::Block(b),
    }
}

/// The name of a path of one identifier.
pub fn simple_name_of(p: &Path) -> (r: Option<Span>)
    ensures
        r == simple_name(p@),
{
    if p.components.len() == 1 && !p.root && !p.explicit && p.parents == 0 {
        let c = p.components[0];
        if c.0 == ComponentType::Identifier {
            Some(c.1)
        } else {
            None
        }
    } else {
        None
    }
}

/// The name that the closing tag of a block must give.
pub fn block_name_of(b: &Block) -> (r: Option<Span>)
    ensures
        r == block_name(b@),
{
    match &b.call {
        Some(c) => match &c.target {
            CallTarget::Path(p) => simple_name_of(p),
            CallTarget::SubExpr(_) => None,
        },
        None => None,
    }
}

/// The name in a closing tag whose sigil has that many braces.
pub(crate) fn close_name_of(src: &[u8], close: Span, braces: usize) -> (r: Span)
    requires
        close.start <= src@.len(),
        braces == 2 || braces == 4,
    ensures
        r == close_name(src@, close, braces as int),
{
    proof {
        lemma_len_fits(src);
    }
    let t = opt_at(src, close.start, braces, TILDE);
    let a = if src.len() - close.start >= braces + t + 1 {
        close.start + braces + t + 1
    } else {
        src.len()
    };
    let b = scan_run(Run::Blank, src, a);
    let c = scan_run(Run::Name, src, b);
    Span { start: b, end: c }
}

/// What is wrong with a call as the call of a block, if anything.
pub fn check_block_target(context: ParameterContext, c: &Call) -> (r: Option<ErrorKind>)
    ensures
        r == block_target_error(context, c@),
{
    match &c.target {
        CallTarget::Path(p) => {
            if context != ParameterContext::Statement && simple_name_of(p).is_none() {
                Some(ErrorKind::BlockName)
            } else {
                None
            }
        },
        CallTarget::SubExpr(_) => {
            if context == ParameterContext::RawBlock {
                Some(ErrorKind::BlockName)
            } else if context == ParameterContext::Block && !c.partial {
                Some(ErrorKind::BlockTargetSubExpr)
            } else {
                None
            }
        },
    }
}

impl Block {
    /// A block that has just been opened on that line.
    pub fn new(kind: BlockType, open: Option<Span>, line: usize) -> (r: Block)
        ensures
            r@ == new_block(kind, open, line),
    {
        let r = Block {
            kind,
            nodes: Vec::new(),
            open,
            close: None,
            call: None,
            lines: Span::new(line, next_line(line)),
        };
        assert(node_views(r.nodes@) =~= Seq::empty());
        r
    }
}

impl<'source> Parser<'source> {
    /// What the parser relies on between two tokens: the document is open,
    /// and the tokens of an open tag lie within the source.
    pub open spec fn wf(&self) -> bool {
        &&& self.stack.len() > 0
        &&& self.state.file_name == self.options.file_name
        &&& match self.parameters {
            Some(c) => tokens_within(c.tokens@, self.source@.len() as int),
            None => true,
        }
    }

    /// A parser at the start of a source.
    pub fn new(source: &'source [u8], options: ParserOptions) -> (r: Self)
        ensures
            r.wf(),
            r.source == source,
            r.state.file_name == options.file_name,
            r@ == initial(options.line_offset),
            r.tokens@ == tokens_of(source@),
            tiled(r.tokens@, 0, source@.len() as int),
            r.cursor == 0,
    {
        let state = ParseState::from(&options);
        let root = Block::new(BlockType::Root, None, state.line);
        let mut stack: Vec<Block> = Vec::new();
        proof {
            lemma_block_views_push(stack@, root);
            assert(block_views(stack@) =~= Seq::empty());
        }
        stack.push(root);
        let r = Parser {
            source,
            tokens: lex(source),
            cursor: 0,
            state,
            options,
            stack,
            text: None,
            parameters: None,
        };
        assert(r@.stack =~= initial(options.line_offset).stack);
        r
    }

    /// Opens a block.
    pub fn enter_stack(&mut self, block: Block)
        requires
            old(self).wf(),
        ensures
            final(self).wf(),
            final(self)@ == (ParserView { stack: old(self)@.stack.push(block@), ..old(self)@ }),
            final(self).source == old(self).source,
            final(self).state == old(self).state,
            final(self).options == old(self).options,
            final(self).tokens == old(self).tokens,
            final(self).cursor == old(self).cursor,
            final(self).stack.len() == old(self).stack.len() + 1,
    {
        proof {
            lemma_block_views_push(self.stack@, block);
        }
        self.stack.push(block);
    }

    /// Closes the innermost block and adds it to the block around it.
    pub fn exit_stack(&mut self, close: Span)
        requires
            old(self).wf(),
            old(self).stack.len() > 1,
        ensures
            final(self).wf(),
            final(self)@ == (ParserView {
                stack: exit(old(self)@.stack, close, old(self).state.line),
                ..old(self)@
            }),
            final(self).source == old(self).source,
            final(self).state == old(self).state,
            final(self).options == old(self).options,
            final(self).tokens == old(self).tokens,
            final(self).cursor == old(self).cursor,
    {
        proof {
            lemma_block_views_last(self.stack@);
        }
        let mut top = self.stack.pop().unwrap();
        top.close = Some(close);
        top.lines = Span::new(top.lines.start, next_line(self.state.line));
        add_node(&mut self.stack, wrap_block(top));
    }

    /// Closes the innermost block, a block of that kind, by a closing tag
    /// that names it.
    fn exit_named(&mut self, close: Span, kind: BlockType, braces: usize) -> (r: Result<
        (),
        SyntaxError,
    >)
        requires
            old(self).wf(),
            close.start <= old(self).source@.len(),
            braces == 2 || braces == 4,
        ensures
            match closed_by_name(
                old(self).state.file_name@,
                old(self).source@,
                old(self)@,
                close,
                kind,
                braces as int,
            ) {
                Ok(s) => r is Ok && final(self)@ == s && final(self).wf(),
                Err(e) => r matches Err(x) && x@ == e,
            },
            final(self).source == old(self).source,
            final(self).state == old(self).state,
            final(self).options == old(self).options,
            final(self).tokens == old(self).tokens,
            final(self).cursor == old(self).cursor,
    {
        proof {
            lemma_block_views_last(self.stack@);
        }
        let n = self.stack.len();
        if n < 2 || self.stack[n - 1].kind != kind {
            return Err(
                syntax_error(
                    ErrorKind::BlockNotOpen,
                    &self.state.file_name,
                    self.state.line,
                    close.start,
                ),
            );
        }
        let name = close_name_of(self.source, close, braces);
        let matches = match block_name_of(&self.stack[n - 1]) {
            Some(open) => bytes_eq(open.slice(self.source), name.slice(self.source)),
            None => true,
        };
        if !matches {
            return Err(
                syntax_error(
                    ErrorKind::TagNameMismatch,
                    &self.state.file_name,
                    self.state.line,
                    close.start,
                ),
            );
        }
        self.exit_stack(close);
        Ok(())
    }

    /// Adds a token to those of the open tag.
    fn cache(&mut self, token: Token)
        requires
            old(self).wf(),
            token.spec_span().start < token.spec_span().end <= old(self).source@.len(),
        ensures
            final(self).wf(),
            final(self)@ == cached(old(self)@, token, old(self).state.line),
            final(self).source == old(self).source,
            final(self).state == old(self).state,
            final(self).options == old(self).options,
            final(self).tokens == old(self).tokens,
            final(self).cursor == old(self).cursor,
    {
        match self.parameters.take() {
            Some(c) => {
                let mut c = c;
                c.tokens.push(token);
                self.parameters = Some(c);
            },
            None => {},
        }
    }

    /// Ends the open tag: reads its tokens as a call.
    fn close_tag(&mut self, end: Span) -> (r: Result<(), SyntaxError>)
        requires
            old(self).wf(),
            end.start <= end.end <= old(self).source@.len(),
        ensures
            match tag_closed(old(self).state.file_name@, old(self).source@, old(self)@, end) {
                Ok(s) => r is Ok && final(self)@ == s && final(self).wf(),
                Err(e) => r matches Err(x) && x@ == e,
            },
            final(self).source == old(self).source,
            final(self).state == old(self).state,
            final(self).options == old(self).options,
            final(self).tokens == old(self).tokens,
            final(self).cursor == old(self).cursor,
    {
        proof {
            lemma_len_fits(self.source);
        }
        match self.parameters.take() {
            None => Ok(()),
            Some(c) => {
                let partial = c.start.end > 0 && c.start.end - 1 < self.source.len() && peek(
                    self.source,
                    c.start.end - 1,
                    0,
                ) == GREATER;
                let escaped = if c.start.start <= self.source.len() {
                    peek(self.source, c.start.start, 2) != LBRACE
                } else {
                    true
                };
                match crate::parser::statement::parse(
                    self.source,
                    &self.state.file_name,
                    c.line,
                    &c.tokens,
                    partial,
                    escaped,
                    c.start,
                    end,
                ) {
                    Err(e) => Err(e),
                    Ok(call) => {
                        match check_block_target(c.context, &call) {
                            Some(kind) => {
                                return Err(
                                    syntax_error(kind, &self.state.file_name, c.line, c.start.start),
                                );
                            },
                            None => {},
                        }
                        if c.context == ParameterContext::Statement {
                            add_node(&mut self.stack, Node::Statement(call));
                        } else {
                            proof {
                                lemma_block_views_last(self.stack@);
                            }
                            let mut top = self.stack.pop().unwrap();
                            top.call = Some(call);
                            top.open = Some(Span::new(c.start.start, end.end));
                            proof {
                                lemma_block_views_push(self.stack@, top);
                            }
                            self.stack.push(top);
                        }
                        Ok(())
                    },
                }
            },
        }
    }

    /// Takes one token that is no text, after the text read so far has
    /// been added to the innermost block.
    fn advance_tag(&mut self, token: Token) -> (r: Result<(), SyntaxError>)
        requires
            old(self).wf(),
            token.spec_span().start < token.spec_span().end <= old(self).source@.len(),
        ensures
            match step_tag(old(self).state.file_name@, old(self).source@, old(self)@, token) {
                Ok(s) => r is Ok && final(self)@ == s && final(self).wf(),
                Err(e) => r matches Err(x) && x@ == e,
            },
            final(self).source == old(self).source,
            final(self).state.file_name == old(self).state.file_name,
            final(self).state.byte == old(self).state.byte,
            final(self).options == old(self).options,
            final(self).tokens == old(self).tokens,
            final(self).cursor == old(self).cursor,
    {
        let line = self.state.line;
        match token {
            Token::Block(k, span) => match k {
                Outer::StartRawBlock => {
                    self.enter_stack(Block::new(BlockType::RawBlock, Some(span), line));
                    self.parameters = Some(
                        ParameterCache::new(ParameterContext::RawBlock, span, line),
                    );
                    Ok(())
                },
                Outer::StartRawComment => {
                    self.enter_stack(Block::new(BlockType::RawComment, Some(span), line));
                    Ok(())
                },
                Outer::StartRawStatement => {
                    self.enter_stack(Block::new(BlockType::RawStatement, Some(span), line));
                    Ok(())
                },
                Outer::StartComment => {
                    self.enter_stack(Block::new(BlockType::Comment, Some(span), line));
                    Ok(())
                },
                Outer::StartBlockScope => {
                    self.enter_stack(Block::new(BlockType::Scoped, Some(span), line));
                    self.parameters = Some(ParameterCache::new(ParameterContext::Block, span, line));
                    Ok(())
                },
                Outer::StartStatement => {
                    self.parameters = Some(
                        ParameterCache::new(ParameterContext::Statement, span, line),
                    );
                    Ok(())
                },
                Outer::EndBlockScope => self.exit_named(span, BlockType::Scoped, 2),
                Outer::Error => Err(
                    syntax_error(ErrorKind::OpenStatement, &self.state.file_name, line, span.start),
                ),
                _ => Ok(()),
            },
            Token::RawBlock(k, span) => {
                if k == Raw::End {
                    self.exit_named(span, BlockType::RawBlock, 4)
                } else {
                    Ok(())
                }
            },
            Token::RawComment(k, span) => {
                if k == Raw::End {
                    self.exit_plain(span)
                } else {
                    Ok(())
                }
            },
            Token::RawStatement(k, span) => {
                if k == Raw::End {
                    self.exit_plain(span)
                } else {
                    Ok(())
                }
            },
            Token::Comment(k, span) => {
                if k == Raw::End {
                    self.exit_plain(span)
                } else {
                    Ok(())
                }
            },
            Token::Parameters(lex, span) => {
                if lex == Parameters::End {
                    self.close_tag(span)
                } else if lex == Parameters::Newline {
                    self.cache(token);
                    self.state.line = next_line(line);
                    Ok(())
                } else {
                    self.cache(token);
                    Ok(())
                }
            },
            Token::StringLiteral(lex, span) => {
                if lex == Inner::Newline {
                    Err(
                        syntax_error(
                            ErrorKind::StringLiteralNewline,
                            &self.state.file_name,
                            line,
                            span.start,
                        ),
                    )
                } else {
                    self.cache(token);
                    Ok(())
                }
            },
        }
    }

    /// Closes the innermost block by what ends its body.
    fn exit_plain(&mut self, close: Span) -> (r: Result<(), SyntaxError>)
        requires
            old(self).wf(),
        ensures
            match closed(old(self).state.file_name@, old(self)@, close) {
                Ok(s) => r is Ok && final(self)@ == s && final(self).wf(),
                Err(e) => r matches Err(x) && x@ == e,
            },
            final(self).source == old(self).source,
            final(self).state == old(self).state,
            final(self).options == old(self).options,
            final(self).tokens == old(self).tokens,
            final(self).cursor == old(self).cursor,
    {
        proof {
            lemma_block_views(self.stack@);
        }
        if self.stack.len() < 2 {
            return Err(
                syntax_error(
                    ErrorKind::BlockNotOpen,
                    &self.state.file_name,
                    self.state.line,
                    close.start,
                ),
            );
        }
        self.exit_stack(close);
        Ok(())
    }

    /// Takes one token: the parser is then in the state that the grammar
    /// gives for it, or the error is the one that the grammar finds. The
    /// byte of the state is where the token starts.
    pub fn advance(&mut self, token: Token) -> (r: Result<(), SyntaxError>)
        requires
            old(self).wf(),
            token.spec_span().start < token.spec_span().end <= old(self).source@.len(),
        ensures
            match step(old(self).state.file_name@, old(self).source@, old(self)@, token) {
                Ok(s) => r is Ok && final(self)@ == s && final(self).wf(),
                Err(e) => r matches Err(x) && x@ == e,
            },
            final(self).source == old(self).source,
            final(self).state.file_name == old(self).state.file_name,
            final(self).state.byte == token.spec_span().start,
            final(self).options == old(self).options,
            final(self).tokens == old(self).tokens,
            final(self).cursor == old(self).cursor,
    {
        self.state.byte = token.span().start;
        if token.is_text() {
            let line = self.state.line;
            let span = token.span();
            let text = match self.text {
                None => Text { span, lines: Span::new(line, next_line(line)) },
                Some(t) => Text {
                    span: Span::new(t.span.start, span.end),
                    lines: Span::new(t.lines.start, next_line(line)),
                },
            };
            self.text = Some(text);
            if token.is_newline() {
                self.state.line = next_line(line);
            }
            Ok(())
        } else {
            let text = self.text.take();
            add_text(&mut self.stack, text);
            self.advance_tag(token)
        }
    }

    /// The next token of the source, if there is one.
    pub fn token(&mut self) -> (r: Option<Token>)
        requires
            old(self).cursor <= old(self).tokens.len(),
        ensures
            old(self).cursor < old(self).tokens.len() ==> r == Some(
                old(self).tokens[old(self).cursor as int],
            ) && final(self).cursor == old(self).cursor + 1,
            old(self).cursor >= old(self).tokens.len() ==> r is None && final(self).cursor == old(
                self,
            ).cursor,
            final(self).source == old(self).source,
            final(self).state == old(self).state,
            final(self).options == old(self).options,
            final(self).tokens == old(self).tokens,
            final(self).stack == old(self).stack,
            final(self).text == old(self).text,
            final(self).parameters == old(self).parameters,
    {
        if self.cursor < self.tokens.len() {
            let t = self.tokens[self.cursor];
            self.cursor += 1;
            Some(t)
        } else {
            None
        }
    }

    /// What the source is once every token has been taken.
    fn finish(&mut self) -> (r: Result<Node, SyntaxError>)
        requires
            old(self).wf(),
        ensures
            match finish(old(self).state.file_name@, old(self)@) {
                Ok(n) => r matches Ok(m) && m@ == n,
                Err(e) => r matches Err(x) && x@ == e,
            },
    {
        match self.parameters.take() {
            Some(c) => {
                let kind = if c.context == ParameterContext::RawBlock {
                    ErrorKind::RawBlockOpenNotTerminated
                } else {
                    ErrorKind::OpenStatement
                };
                let n = c.tokens.len();
                let note = if n == 0 {
                    None
                } else {
                    match c.tokens[n - 1] {
                        Token::StringLiteral(k, _) => if k != Inner::End {
                            Some(Note::StringLiteralNotClosed)
                        } else {
                            None
                        },
                        Token::Parameters(k, _) => if k == Parameters::DoubleQuoteString || k
                            == Parameters::SingleQuoteString {
                            Some(Note::StringLiteralNotClosed)
                        } else {
                            None
                        },
                        _ => None,
                    }
                };
                Err(self.state.error_at(kind, c.line, c.start.start, note))
            },
            None => {
                let text = self.text.take();
                add_text(&mut self.stack, text);
                proof {
                    lemma_block_views_last(self.stack@);
                }
                let n = self.stack.len();
                let mut top = self.stack.pop().unwrap();
                if n > 1 {
                    let kind = match top.kind {
                        BlockType::RawBlock => ErrorKind::RawBlockNotTerminated,
                        BlockType::RawStatement => ErrorKind::RawStatementNotTerminated,
                        BlockType::RawComment => ErrorKind::RawCommentNotTerminated,
                        BlockType::Comment => ErrorKind::CommentNotTerminated,
                        _ => ErrorKind::BlockNotTerminated,
                    };
                    let at = match top.open {
                        Some(s) => s.start,
                        None => 0,
                    };
                    let note = match block_name_of(&top) {
                        Some(name) => match top.kind {
                            BlockType::RawBlock => Some(Note::MissingRawClose(name)),
                            _ => Some(Note::MissingClose(name)),
                        },
                        None => None,
                    };
                    Err(self.state.error_at(kind, top.lines.start, at, note))
                } else {
                    top.lines = Span::new(top.lines.start, next_line(self.state.line));
                    Ok(Node::Document(top))
                }
            },
        }
    }

    /// Parses the rest of the source: the document that the grammar gives
    /// for it, or the first error that the grammar finds in it.
    pub fn parse(&mut self) -> (r: Result<Node, SyntaxError>)
        requires
            old(self).wf(),
            old(self).cursor <= old(self).tokens.len(),
            tiled(old(self).tokens@, 0, old(self).source@.len() as int),
        ensures
            match run_from(
                old(self).state.file_name@,
                old(self).source@,
                old(self)@,
                old(self).tokens@,
                old(self).cursor as int,
            ) {
                Ok(n) => r matches Ok(m) && m@ == n,
                Err(e) => r matches Err(x) && x@ == e,
            },
    {
        let ghost goal = run_from(
            self.state.file_name@,
            self.source@,
            self@,
            self.tokens@,
            self.cursor as int,
        );
        loop
            invariant
                self.wf(),
                self.cursor <= self.tokens.len(),
                self.source == old(self).source,
                self.tokens == old(self).tokens,
                self.state.file_name == old(self).state.file_name,
                tiled(self.tokens@, 0, self.source@.len() as int),
                goal == run_from(
                    old(self).state.file_name@,
                    old(self).source@,
                    old(self)@,
                    old(self).tokens@,
                    old(self).cursor as int,
                ),
                goal == run_from(
                    self.state.file_name@,
                    self.source@,
                    self@,
                    self.tokens@,
                    self.cursor as int,
                ),
            decreases self.tokens.len() - self.cursor,
        {
            proof {
                reveal_with_fuel(run_from, 2);
            }
            match self.token() {
                None => {
                    return self.finish();
                },
                Some(t) => {
                    proof {
                        lemma_tiled_within(self.tokens@, self.source@.len() as int, self.cursor - 1);
                    }
                    match self.advance(t) {
                        Err(e) => {
                            return Err(e);
                        },
                        Ok(()) => {},
                    }
                },
            }
        }
    }
}

/// Each of the tokens that cover a source lies within it.
pub proof fn lemma_tiled_within(toks: Seq<Token>, len: int, i: int)
    requires
        tiled(toks, 0, len),
        0 <= i < toks.len(),
    ensures
        toks[i].spec_span().start < toks[i].spec_span().end <= len,
    decreases toks.len() - i,
{
    if i < toks.len() - 1 {
        lemma_tiled_within(toks, len, i + 1);
    }
}

} // verus!
