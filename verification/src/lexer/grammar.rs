//! The token grammar, stated over the bytes of the source.
use vstd::prelude::*;
use crate::text::Span;

verus! {

pub const LBRACE: u16 = 0x7b;
pub const RBRACE: u16 = 0x7d;
pub const TILDE: u16 = 0x7e;
pub const BANG: u16 = 0x21;
pub const HASH: u16 = 0x23;
pub const SLASH: u16 = 0x2f;
pub const GREATER: u16 = 0x3e;
pub const BACKSLASH: u16 = 0x5c;
pub const DASH: u16 = 0x2d;
pub const PLUS: u16 = 0x2b;
pub const NEWLINE: u16 = 0x0a;
pub const DOT: u16 = 0x2e;
pub const AT: u16 = 0x40;
pub const EQUALS: u16 = 0x3d;
pub const DQUOTE: u16 = 0x22;
pub const SQUOTE: u16 = 0x27;
pub const LPAREN: u16 = 0x28;
pub const RPAREN: u16 = 0x29;
pub const LBRACKET: u16 = 0x5b;
pub const RBRACKET: u16 = 0x5d;
pub const UNDERSCORE: u16 = 0x5f;
/// What [`byte_at`] gives past the end of the source.
pub const END: u16 = 0x100;

/// Tokens of the outer mode: text, and the sigils that open a tag.
#[derive(Clone, Copy, Debug, PartialEq, Eq, Structural)]
pub enum Outer {
    /// A run of text without a line feed.
    Text,
    /// One line feed.
    Newline,
    /// `{{{{`, with an optional `~`.
    StartRawBlock,
    /// `{{!--`
    StartRawComment,
    /// `\{{`
    StartRawStatement,
    /// `{{!`
    StartComment,
    /// `{{` or `{{{`, with an optional `~` and, after two braces, an optional `>`.
    StartStatement,
    /// `{{#`, with an optional `~` before and an optional `>` after the `#`.
    StartBlockScope,
    /// A whole closing tag, `{{/name}}`.
    EndBlockScope,
    /// A closing tag that is never closed.
    Error,
}

/// Tokens of a body that is taken verbatim: a raw block, a comment or an
/// escaped statement.
#[derive(Clone, Copy, Debug, PartialEq, Eq, Structural)]
pub enum Raw {
    Text,
    Newline,
    /// What closes the body.
    End,
}

/// Tokens between the opening sigil of a tag and its end.
#[derive(Clone, Copy, Debug, PartialEq, Eq, Structural)]
pub enum Parameters {
    WhiteSpace,
    Newline,
    /// `this`
    ExplicitThisKeyword,
    /// `./`
    ExplicitThisDotSlash,
    /// `../`
    ParentRef,
    Identifier,
    /// `@name`
    LocalIdentifier,
    /// `.` or `/`
    PathDelimiter,
    /// `[...]`
    ArrayAccess,
    /// `(`
    StartSubExpression,
    /// `)`
    EndSubExpression,
    /// `name=`
    HashKey,
    Number,
    True,
    False,
    Null,
    /// The `"` that opens a string literal.
    DoubleQuoteString,
    /// The `'` that opens a string literal.
    SingleQuoteString,
    /// The closing braces of the tag, with an optional `~` before them.
    End,
    Error,
}

/// Tokens inside a string literal.
#[derive(Clone, Copy, Debug, PartialEq, Eq, Structural)]
pub enum Inner {
    Text,
    /// `\n`
    EscapedNewline,
    /// A backslash and the quote of the literal.
    EscapedQuote,
    /// `\\`, `\r` or `\t`
    Escaped,
    /// A line feed, which a literal may not hold.
    Newline,
    /// The closing quote.
    End,
    Error,
}

/// A token: its kind within its mode, and the bytes it covers.
#[derive(Clone, Copy, Debug, PartialEq, Eq, Structural)]
pub enum Token {
    Block(Outer, Span),
    RawBlock(Raw, Span),
    RawComment(Raw, Span),
    RawStatement(Raw, Span),
    Comment(Raw, Span),
    Parameters(Parameters, Span),
    StringLiteral(Inner, Span),
}

/// The verbatim bodies.
#[derive(Clone, Copy, Debug, PartialEq, Eq, Structural)]
pub enum Body {
    RawBlock,
    RawComment,
    RawStatement,
    Comment,
}

/// What the lexer expects next.
#[derive(Clone, Copy, Debug, PartialEq, Eq, Structural)]
pub enum Mode {
    Outer,
    /// Inside a tag that ends with that many closing braces.
    Parameters(u8),
    /// Inside a string literal with that quote, in a tag with that many braces.
    StringLiteral(u16, u8),
    Body(Body),
}

/// The runs of bytes that a token may extend over.
#[derive(Clone, Copy, Debug, PartialEq, Eq, Structural)]
pub enum Run {
    /// Outer text: up to a line feed, `{{` or `\{{`.
    Text,
    /// A body: up to a line feed or the start of what closes it.
    Body(Body),
    /// Up to `}}`.
    Close2,
    /// Up to `}}}}`.
    Close4,
    /// Spaces, tabs and carriage returns.
    Blank,
    /// Letters, digits, `_` and `-`.
    Name,
    /// Letters, digits and `_`.
    Local,
    Digits,
    /// A string literal with that quote: up to the quote, a backslash or a line feed.
    Quoted(u16),
    /// Up to `]` or a line feed.
    Bracket,
    /// The bytes of a character after its first.
    Rest,
}

impl Token {
    pub open spec fn spec_span(&self) -> Span {
        match *self {
            Token::Block(_, s) => s,
            Token::RawBlock(_, s) => s,
            Token::RawComment(_, s) => s,
            Token::RawStatement(_, s) => s,
            Token::Comment(_, s) => s,
            Token::Parameters(_, s) => s,
            Token::StringLiteral(_, s) => s,
        }
    }

    /// Whether the token is verbatim text: outer text or the text of a body.
    pub open spec fn spec_is_text(&self) -> bool {
        match *self {
            Token::Block(k, _) => k == Outer::Text || k == Outer::Newline,
            Token::RawBlock(k, _) => k == Raw::Text || k == Raw::Newline,
            Token::RawComment(k, _) => k == Raw::Text || k == Raw::Newline,
            Token::RawStatement(k, _) => k == Raw::Text || k == Raw::Newline,
            Token::Comment(k, _) => k == Raw::Text || k == Raw::Newline,
            _ => false,
        }
    }

    /// Whether the token is one line feed.
    pub open spec fn spec_is_newline(&self) -> bool {
        match *self {
            Token::Block(k, _) => k == Outer::Newline,
            Token::RawBlock(k, _) => k == Raw::Newline,
            Token::RawComment(k, _) => k == Raw::Newline,
            Token::RawStatement(k, _) => k == Raw::Newline,
            Token::Comment(k, _) => k == Raw::Newline,
            Token::Parameters(k, _) => k == Parameters::Newline,
            Token::StringLiteral(k, _) => k == Inner::Newline,
        }
    }

    #[verifier::when_used_as_spec(spec_span)]
    pub fn span(&self) -> (r: Span)
        ensures
            r == self.spec_span(),
    {
        match self {
            Token::Block(_, s) => *s,
            Token::RawBlock(_, s) => *s,
            Token::RawComment(_, s) => *s,
            Token::RawStatement(_, s) => *s,
            Token::Comment(_, s) => *s,
            Token::Parameters(_, s) => *s,
            Token::StringLiteral(_, s) => *s,
        }
    }

    #[verifier::when_used_as_spec(spec_is_text)]
    pub fn is_text(&self) -> (r: bool)
        ensures
            r == self.spec_is_text(),
    {
        match self {
            Token::Block(k, _) => *k == Outer::Text || *k == Outer::Newline,
            Token::RawBlock(k, _) => *k == Raw::Text || *k == Raw::Newline,
            Token::RawComment(k, _) => *k == Raw::Text || *k == Raw::Newline,
            Token::RawStatement(k, _) => *k == Raw::Text || *k == Raw::Newline,
            Token::Comment(k, _) => *k == Raw::Text || *k == Raw::Newline,
            _ => false,
        }
    }

    #[verifier::when_used_as_spec(spec_is_newline)]
    pub fn is_newline(&self) -> (r: bool)
        ensures
            r == self.spec_is_newline(),
    {
        match self {
            Token::Block(k, _) => *k == Outer::Newline,
            Token::RawBlock(k, _) => *k == Raw::Newline,
            Token::RawComment(k, _) => *k == Raw::Newline,
            Token::RawStatement(k, _) => *k == Raw::Newline,
            Token::Comment(k, _) => *k == Raw::Newline,
            Token::Parameters(k, _) => *k == Parameters::Newline,
            Token::StringLiteral(k, _) => *k == Inner::Newline,
        }
    }
}

/// The byte at offset `i`, or [`END`] where the source has none.
pub open spec fn byte_at(src: Seq<u8>, i: int) -> int {
    if 0 <= i < src.len() {
        src[i] as int
    } else {
        END as int
    }
}

/// `{{` at offset `i`.
pub open spec fn open2(src: Seq<u8>, i: int) -> bool {
    byte_at(src, i) == LBRACE && byte_at(src, i + 1) == LBRACE
}

/// `}}` at offset `i`.
pub open spec fn close2(src: Seq<u8>, i: int) -> bool {
    byte_at(src, i) == RBRACE && byte_at(src, i + 1) == RBRACE
}

/// 1 if the byte at `i` is `c`, else 0.
pub open spec fn opt(src: Seq<u8>, i: int, c: u16) -> int {
    if byte_at(src, i) == c {
        1
    } else {
        0
    }
}

pub open spec fn is_digit(b: int) -> bool {
    0x30 <= b <= 0x39
}

pub open spec fn is_letter(b: int) -> bool {
    0x41 <= b <= 0x5a || 0x61 <= b <= 0x7a
}

/// A byte that may start an identifier.
pub open spec fn is_name_start(b: int) -> bool {
    is_letter(b) || b == UNDERSCORE
}

pub open spec fn is_blank(b: int) -> bool {
    b == 0x20 || b == 0x09 || b == 0x0d
}

/// Where what closes a body starts: `--}}` for a raw comment, `}}` for a
/// comment or an escaped statement, `{{{{/` or `{{{{~/` for a raw block.
pub open spec fn closes(body: Body, src: Seq<u8>, i: int) -> bool {
    match body {
        Body::RawComment => byte_at(src, i) == DASH && byte_at(src, i + 1) == DASH && close2(
            src,
            i + 2,
        ),
        Body::Comment => close2(src, i),
        Body::RawStatement => close2(src, i),
        Body::RawBlock => open2(src, i) && open2(src, i + 2) && byte_at(
            src,
            i + 4 + opt(src, i + 4, TILDE),
        ) == SLASH,
    }
}

/// Whether a run ends before the byte at `i`.
pub open spec fn stops(run: Run, src: Seq<u8>, i: int) -> bool {
    let b = byte_at(src, i);
    match run {
        Run::Text => b == NEWLINE || open2(src, i) || (b == BACKSLASH && open2(src, i + 1)),
        Run::Body(body) => b == NEWLINE || closes(body, src, i),
        Run::Close2 => close2(src, i),
        Run::Close4 => close2(src, i) && close2(src, i + 2),
        Run::Blank => !is_blank(b),
        Run::Name => !(is_letter(b) || is_digit(b) || b == UNDERSCORE || b == DASH),
        Run::Local => !(is_letter(b) || is_digit(b) || b == UNDERSCORE),
        Run::Digits => !is_digit(b),
        Run::Quoted(q) => b == q || b == BACKSLASH || b == NEWLINE,
        Run::Bracket => b == RBRACKET || b == NEWLINE,
        Run::Rest => !(0x80 <= b <= 0xbf),
    }
}

/// The first offset from `i` on at which the run stops, or the length of
/// the source.
pub open spec fn run_end(run: Run, src: Seq<u8>, i: int) -> int
    decreases src.len() - i,
{
    if i < 0 || i >= src.len() || stops(run, src, i) {
        i
    } else {
        run_end(run, src, i + 1)
    }
}

pub open spec fn span_of(a: int, b: int) -> Span {
    Span { start: a as usize, end: b as usize }
}

/// Where a number that starts at `p` ends: an optional `-`, digits, an
/// optional fraction and an optional exponent.
pub open spec fn number_end(src: Seq<u8>, p: int) -> int {
    let a = run_end(Run::Digits, src, p + opt(src, p, DASH));
    let b = if byte_at(src, a) == DOT && is_digit(byte_at(src, a + 1)) {
        run_end(Run::Digits, src, a + 1)
    } else {
        a
    };
    if byte_at(src, b) == 0x65 || byte_at(src, b) == 0x45 {
        let s = b + 1 + if byte_at(src, b + 1) == PLUS || byte_at(src, b + 1) == DASH {
            1int
        } else {
            0int
        };
        if is_digit(byte_at(src, s)) {
            run_end(Run::Digits, src, s)
        } else {
            b
        }
    } else {
        b
    }
}

/// The kind of a word: a keyword, or an identifier.
pub open spec fn word_kind(w: Seq<u8>) -> Parameters {
    if w == seq![0x74u8, 0x68, 0x69, 0x73] {
        Parameters::ExplicitThisKeyword
    } else if w == seq![0x74u8, 0x72, 0x75, 0x65] {
        Parameters::True
    } else if w == seq![0x66u8, 0x61, 0x6c, 0x73, 0x65] {
        Parameters::False
    } else if w == seq![0x6eu8, 0x75, 0x6c, 0x6c] {
        Parameters::Null
    } else {
        Parameters::Identifier
    }
}

/// The mode after the end of a tag with that many braces: a raw block's
/// header is followed by its body.
pub open spec fn after_tag(braces: u8) -> Mode {
    if braces == 4 {
        Mode::Body(Body::RawBlock)
    } else {
        Mode::Outer
    }
}

/// Whether the closing braces of a tag, with an optional `~`, are at `p`.
pub open spec fn tag_end(src: Seq<u8>, p: int, braces: u8) -> bool {
    let q = p + opt(src, p, TILDE);
    close2(src, q) && (braces >= 3 ==> byte_at(src, q + 2) == RBRACE) && (braces >= 4 ==> byte_at(
        src,
        q + 3,
    ) == RBRACE)
}

/// The token at `p` in the outer mode, and the mode after it.
pub open spec fn scan_outer(src: Seq<u8>, p: int) -> (Token, Mode) {
    if byte_at(src, p) == BACKSLASH && open2(src, p + 1) {
        (Token::Block(Outer::StartRawStatement, span_of(p, p + 3)), Mode::Body(Body::RawStatement))
    } else if open2(src, p) && open2(src, p + 2) {
        (
            Token::Block(Outer::StartRawBlock, span_of(p, p + 4 + opt(src, p + 4, TILDE))),
            Mode::Parameters(4),
        )
    } else if open2(src, p) && byte_at(src, p + 2) == BANG {
        if byte_at(src, p + 3) == DASH && byte_at(src, p + 4) == DASH {
            (Token::Block(Outer::StartRawComment, span_of(p, p + 5)), Mode::Body(Body::RawComment))
        } else {
            (Token::Block(Outer::StartComment, span_of(p, p + 3)), Mode::Body(Body::Comment))
        }
    } else if open2(src, p) && byte_at(src, p + 2) == LBRACE {
        (
            Token::Block(Outer::StartStatement, span_of(p, p + 3 + opt(src, p + 3, TILDE))),
            Mode::Parameters(3),
        )
    } else if open2(src, p) {
        let q = p + 2 + opt(src, p + 2, TILDE);
        if byte_at(src, q) == HASH {
            (
                Token::Block(Outer::StartBlockScope, span_of(p, q + 1 + opt(src, q + 1, GREATER))),
                Mode::Parameters(2),
            )
        } else if byte_at(src, q) == SLASH {
            let j = run_end(Run::Close2, src, q + 1);
            if j < src.len() {
                (Token::Block(Outer::EndBlockScope, span_of(p, j + 2)), Mode::Outer)
            } else {
                (Token::Block(Outer::Error, span_of(p, src.len() as int)), Mode::Outer)
            }
        } else {
            (
                Token::Block(Outer::StartStatement, span_of(p, q + opt(src, q, GREATER))),
                Mode::Parameters(2),
            )
        }
    } else if byte_at(src, p) == NEWLINE {
        (Token::Block(Outer::Newline, span_of(p, p + 1)), Mode::Outer)
    } else {
        (Token::Block(Outer::Text, span_of(p, run_end(Run::Text, src, p + 1))), Mode::Outer)
    }
}

/// A token of a body, of the kind that goes with the body.
pub open spec fn body_token(body: Body, kind: Raw, span: Span) -> Token {
    match body {
        Body::RawBlock => Token::RawBlock(kind, span),
        Body::RawComment => Token::RawComment(kind, span),
        Body::RawStatement => Token::RawStatement(kind, span),
        Body::Comment => Token::Comment(kind, span),
    }
}

/// The token at `p` in a body, and the mode after it. What closes a raw
/// block runs up to the next `}}}}`; without one the braces are text.
pub open spec fn scan_body(body: Body, src: Seq<u8>, p: int) -> (Token, Mode) {
    if closes(body, src, p) {
        match body {
            Body::RawComment => (body_token(body, Raw::End, span_of(p, p + 4)), Mode::Outer),
            Body::Comment => (body_token(body, Raw::End, span_of(p, p + 2)), Mode::Outer),
            Body::RawStatement => (body_token(body, Raw::End, span_of(p, p + 2)), Mode::Outer),
            Body::RawBlock => {
                let j = run_end(Run::Close4, src, p + 5);
                if j < src.len() {
                    (body_token(body, Raw::End, span_of(p, j + 4)), Mode::Outer)
                } else {
                    (body_token(body, Raw::Text, span_of(p, p + 1)), Mode::Body(body))
                }
            },
        }
    } else if byte_at(src, p) == NEWLINE {
        (body_token(body, Raw::Newline, span_of(p, p + 1)), Mode::Body(body))
    } else {
        (
            body_token(body, Raw::Text, span_of(p, run_end(Run::Body(body), src, p + 1))),
            Mode::Body(body),
        )
    }
}

/// The token at `p` inside a string literal, and the mode after it.
pub open spec fn scan_string(quote: u16, braces: u8, src: Seq<u8>, p: int) -> (Token, Mode) {
    let b = byte_at(src, p);
    let n = byte_at(src, p + 1);
    let stay = Mode::StringLiteral(quote, braces);
    if b == NEWLINE {
        (Token::StringLiteral(Inner::Newline, span_of(p, p + 1)), stay)
    } else if b == quote {
        (Token::StringLiteral(Inner::End, span_of(p, p + 1)), Mode::Parameters(braces))
    } else if b == BACKSLASH {
        if n == 0x6e {
            (Token::StringLiteral(Inner::EscapedNewline, span_of(p, p + 2)), stay)
        } else if n == quote {
            (Token::StringLiteral(Inner::EscapedQuote, span_of(p, p + 2)), stay)
        } else if n == BACKSLASH || n == 0x72 || n == 0x74 {
            (Token::StringLiteral(Inner::Escaped, span_of(p, p + 2)), stay)
        } else {
            (Token::StringLiteral(Inner::Error, span_of(p, p + 1)), stay)
        }
    } else {
        (Token::StringLiteral(Inner::Text, span_of(p, run_end(Run::Quoted(quote), src, p + 1))), stay)
    }
}

/// The token at `p` inside a tag, and the mode after it. A character that
/// no token starts with is an error, with all its bytes.
pub open spec fn scan_parameters(braces: u8, src: Seq<u8>, p: int) -> (Token, Mode) {
    let b = byte_at(src, p);
    let n = byte_at(src, p + 1);
    let stay = Mode::Parameters(braces);
    if b == NEWLINE {
        (Token::Parameters(Parameters::Newline, span_of(p, p + 1)), stay)
    } else if is_blank(b) {
        (Token::Parameters(Parameters::WhiteSpace, span_of(p, run_end(Run::Blank, src, p + 1))), stay)
    } else if tag_end(src, p, braces) {
        (
            Token::Parameters(Parameters::End, span_of(p, p + opt(src, p, TILDE) + braces)),
            after_tag(braces),
        )
    } else if b == LPAREN {
        (Token::Parameters(Parameters::StartSubExpression, span_of(p, p + 1)), stay)
    } else if b == RPAREN {
        (Token::Parameters(Parameters::EndSubExpression, span_of(p, p + 1)), stay)
    } else if b == DQUOTE {
        (
            Token::Parameters(Parameters::DoubleQuoteString, span_of(p, p + 1)),
            Mode::StringLiteral(DQUOTE, braces),
        )
    } else if b == SQUOTE {
        (
            Token::Parameters(Parameters::SingleQuoteString, span_of(p, p + 1)),
            Mode::StringLiteral(SQUOTE, braces),
        )
    } else if b == LBRACKET {
        let j = run_end(Run::Bracket, src, p + 1);
        if byte_at(src, j) == RBRACKET {
            (Token::Parameters(Parameters::ArrayAccess, span_of(p, j + 1)), stay)
        } else {
            (Token::Parameters(Parameters::Error, span_of(p, p + 1)), stay)
        }
    } else if b == DOT && n == DOT && byte_at(src, p + 2) == SLASH {
        (Token::Parameters(Parameters::ParentRef, span_of(p, p + 3)), stay)
    } else if b == DOT && n == SLASH {
        (Token::Parameters(Parameters::ExplicitThisDotSlash, span_of(p, p + 2)), stay)
    } else if b == DOT || b == SLASH {
        (Token::Parameters(Parameters::PathDelimiter, span_of(p, p + 1)), stay)
    } else if b == AT && is_name_start(n) {
        (
            Token::Parameters(Parameters::LocalIdentifier, span_of(p, run_end(Run::Local, src, p + 2))),
            stay,
        )
    } else if is_name_start(b) {
        let e = run_end(Run::Name, src, p + 1);
        if byte_at(src, e) == EQUALS {
            (Token::Parameters(Parameters::HashKey, span_of(p, e + 1)), stay)
        } else {
            (Token::Parameters(word_kind(src.subrange(p, e)), span_of(p, e)), stay)
        }
    } else if is_digit(b) || (b == DASH && is_digit(n)) {
        (Token::Parameters(Parameters::Number, span_of(p, number_end(src, p))), stay)
    } else {
        (Token::Parameters(Parameters::Error, span_of(p, run_end(Run::Rest, src, p + 1))), stay)
    }
}

/// The token at `p` in the given mode, and the mode after it.
pub open spec fn scan(src: Seq<u8>, p: int, mode: Mode) -> (Token, Mode) {
    match mode {
        Mode::Outer => scan_outer(src, p),
        Mode::Body(body) => scan_body(body, src, p),
        Mode::StringLiteral(quote, braces) => scan_string(quote, braces, src, p),
        Mode::Parameters(braces) => scan_parameters(braces, src, p),
    }
}

/// The modes that the lexer can be in: a tag ends with two, three or four
/// braces, and a literal is quoted by `"` or `'`.
pub open spec fn mode_ok(mode: Mode) -> bool {
    match mode {
        Mode::Parameters(braces) => 2 <= braces <= 4,
        Mode::StringLiteral(quote, braces) => 2 <= braces <= 4 && (quote == DQUOTE || quote
            == SQUOTE),
        _ => true,
    }
}

/// The tokens of the source from `p` on, starting in the given mode.
pub open spec fn tokens_from(src: Seq<u8>, p: int, mode: Mode) -> Seq<Token>
    decreases src.len() - p,
{
    if p < 0 || p >= src.len() {
        Seq::empty()
    } else {
        let step = scan(src, p, mode);
        let end = step.0.spec_span().end as int;
        if end <= p || end > src.len() {
            Seq::empty()
        } else {
            seq![step.0] + tokens_from(src, end, step.1)
        }
    }
}

/// The tokens of a source.
pub open spec fn tokens_of(src: Seq<u8>) -> Seq<Token> {
    tokens_from(src, 0, Mode::Outer)
}

/// The tokens are non-empty, follow one another without a gap, start at
/// `from` and end at `to`.
pub open spec fn tiled(tokens: Seq<Token>, from: int, to: int) -> bool {
    &&& from <= to
    &&& tokens.len() == 0 ==> from == to
    &&& tokens.len() > 0 ==> tokens[0].spec_span().start == from && tokens.last().spec_span().end
        == to
    &&& forall|i: int|
        0 <= i < tokens.len() ==> (#[trigger] tokens[i]).spec_span().start
            < tokens[i].spec_span().end
    &&& forall|i: int|
        0 <= i < tokens.len() - 1 ==> (#[trigger] tokens[i]).spec_span().end == tokens[i
            + 1].spec_span().start
}

} // verus!
