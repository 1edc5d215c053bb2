//! The scanner: the executable side of the token grammar.
use vstd::prelude::*;
use vstd::slice::slice_subrange;
use crate::text::Span;
use crate::lexer::grammar::{
    body_token, byte_at, close2, closes, is_blank, is_digit, is_letter, is_name_start, mode_ok,
    number_end, open2, opt, run_end, scan, scan_body, scan_outer, scan_parameters, scan_string,
    stops, tag_end, tiled, tokens_from, tokens_of, word_kind, Body, Inner, Mode, Outer, Parameters,
    Raw, Run, Token, AT, BACKSLASH, BANG, DASH, DOT, DQUOTE, END, EQUALS, GREATER, HASH, LBRACE,
    LBRACKET, LPAREN, NEWLINE, PLUS, RBRACE, RBRACKET, RPAREN, SLASH, SQUOTE, TILDE, UNDERSCORE,
};

verus! {

/// The length of a slice is a machine integer.
pub proof fn lemma_len_fits(src: &[u8])
    ensures
        src@.len() <= usize::MAX,
{
    assert(src@.len() == src.len());
}

/// The byte `k` places after `p`, or [`END`] past the end of the source.
pub(crate) fn peek(src: &[u8], p: usize, k: usize) -> (r: u16)
    requires
        p <= src@.len(),
    ensures
        r == byte_at(src@, p + k),
{
    if k < src.len() - p {
        src[p + k] as u16
    } else {
        END
    }
}

/// 1 if the byte `k` places after `p` is `c`, else 0.
pub(crate) fn opt_at(src: &[u8], p: usize, k: usize, c: u16) -> (r: usize)
    requires
        p <= src@.len(),
        c < END,
    ensures
        r == opt(src@, p + k, c),
        p + k + r <= src@.len() || r == 0,
{
    proof {
        lemma_len_fits(src);
    }
    if peek(src, p, k) == c {
        1
    } else {
        0
    }
}

fn digit(b: u16) -> (r: bool)
    ensures
        r == is_digit(b as int),
{
    0x30 <= b && b <= 0x39
}

fn letter(b: u16) -> (r: bool)
    ensures
        r == is_letter(b as int),
{
    (0x41 <= b && b <= 0x5a) || (0x61 <= b && b <= 0x7a)
}

fn name_start(b: u16) -> (r: bool)
    ensures
        r == is_name_start(b as int),
{
    letter(b) || b == UNDERSCORE
}

fn blank(b: u16) -> (r: bool)
    ensures
        r == is_blank(b as int),
{
    b == 0x20 || b == 0x09 || b == 0x0d
}

fn open_at(src: &[u8], p: usize, k: usize) -> (r: bool)
    requires
        p <= src@.len(),
    ensures
        r == open2(src@, p + k),
        r ==> p + k + 2 <= src@.len(),
{
    proof {
        lemma_len_fits(src);
    }
    peek(src, p, k) == LBRACE && k < usize::MAX && peek(src, p, k + 1) == LBRACE
}

fn close_at(src: &[u8], p: usize, k: usize) -> (r: bool)
    requires
        p <= src@.len(),
    ensures
        r == close2(src@, p + k),
        r ==> p + k + 2 <= src@.len(),
{
    proof {
        lemma_len_fits(src);
    }
    peek(src, p, k) == RBRACE && k < usize::MAX && peek(src, p, k + 1) == RBRACE
}

fn closes_at(body: Body, src: &[u8], p: usize) -> (r: bool)
    requires
        p <= src@.len(),
    ensures
        r == closes(body, src@, p as int),
        r ==> p + 2 <= src@.len(),
        r && body == Body::RawComment ==> p + 4 <= src@.len(),
        r && body == Body::RawBlock ==> p + 5 <= src@.len(),
{
    match body {
        Body::RawComment => peek(src, p, 0) == DASH && peek(src, p, 1) == DASH && close_at(
            src,
            p,
            2,
        ),
        Body::Comment => close_at(src, p, 0),
        Body::RawStatement => close_at(src, p, 0),
        Body::RawBlock => {
            if open_at(src, p, 0) && open_at(src, p, 2) {
                let t = opt_at(src, p, 4, TILDE);
                peek(src, p, 4 + t) == SLASH
            } else {
                false
            }
        },
    }
}

fn stops_at(run: Run, src: &[u8], i: usize) -> (r: bool)
    requires
        i <= src@.len(),
        run matches Run::Quoted(q) ==> q < END,
    ensures
        r == stops(run, src@, i as int),
{
    let b = peek(src, i, 0);
    match run {
        Run::Text => b == NEWLINE || open_at(src, i, 0) || (b == BACKSLASH && open_at(src, i, 1)),
        Run::Body(body) => b == NEWLINE || closes_at(body, src, i),
        Run::Close2 => close_at(src, i, 0),
        Run::Close4 => close_at(src, i, 0) && close_at(src, i, 2),
        Run::Blank => !blank(b),
        Run::Name => !(letter(b) || digit(b) || b == UNDERSCORE || b == DASH),
        Run::Local => !(letter(b) || digit(b) || b == UNDERSCORE),
        Run::Digits => !digit(b),
        Run::Quoted(q) => b == q || b == BACKSLASH || b == NEWLINE,
        Run::Bracket => b == RBRACKET || b == NEWLINE,
        Run::Rest => !(0x80 <= b && b <= 0xbf),
    }
}

/// Where the run that starts at `from` ends.
pub(crate) fn scan_run(run: Run, src: &[u8], from: usize) -> (r: usize)
    requires
        from <= src@.len(),
        run matches Run::Quoted(q) ==> q < END,
    ensures
        r == run_end(run, src@, from as int),
        from <= r <= src@.len(),
        r < src@.len() ==> stops(run, src@, r as int),
{
    let mut i: usize = from;
    while i < src.len() && !stops_at(run, src, i)
        invariant
            from <= i <= src@.len(),
            run matches Run::Quoted(q) ==> q < END,
            run_end(run, src@, from as int) == run_end(run, src@, i as int),
        decreases src@.len() - i,
    {
        assert(run_end(run, src@, i as int) == run_end(run, src@, i + 1));
        i += 1;
    }
    assert(run_end(run, src@, i as int) == i);
    i
}

fn number_end_at(src: &[u8], p: usize) -> (r: usize)
    requires
        p < src@.len(),
    ensures
        r == number_end(src@, p as int),
        p <= r <= src@.len(),
{
    proof {
        lemma_len_fits(src);
    }
    let m = opt_at(src, p, 0, DASH);
    let a = scan_run(Run::Digits, src, p + m);
    let b = if peek(src, a, 0) == DOT && digit(peek(src, a, 1)) {
        scan_run(Run::Digits, src, a + 1)
    } else {
        a
    };
    let x = peek(src, b, 0);
    if x == 0x65 || x == 0x45 {
        let y = peek(src, b, 1);
        let sign: usize = if y == PLUS || y == DASH {
            1
        } else {
            0
        };
        if digit(peek(src, b, 1 + sign)) {
            scan_run(Run::Digits, src, b + 1 + sign)
        } else {
            b
        }
    } else {
        b
    }
}

fn word_kind_of(w: &[u8]) -> (r: Parameters)
    ensures
        r == word_kind(w@),
{
    if w.len() == 4 && w[0] == 0x74 && w[1] == 0x68 && w[2] == 0x69 && w[3] == 0x73 {
        assert(w@ =~= seq![0x74u8, 0x68, 0x69, 0x73]);
        Parameters::ExplicitThisKeyword
    } else if w.len() == 4 && w[0] == 0x74 && w[1] == 0x72 && w[2] == 0x75 && w[3] == 0x65 {
        assert(w@ =~= seq![0x74u8, 0x72, 0x75, 0x65]);
        Parameters::True
    } else if w.len() == 5 && w[0] == 0x66 && w[1] == 0x61 && w[2] == 0x6c && w[3] == 0x73 && w[4]
        == 0x65 {
        assert(w@ =~= seq![0x66u8, 0x61, 0x6c, 0x73, 0x65]);
        Parameters::False
    } else if w.len() == 4 && w[0] == 0x6e && w[1] == 0x75 && w[2] == 0x6c && w[3] == 0x6c {
        assert(w@ =~= seq![0x6eu8, 0x75, 0x6c, 0x6c]);
        Parameters::Null
    } else {
        let ghost this = seq![0x74u8, 0x68, 0x69, 0x73];
        let ghost yes = seq![0x74u8, 0x72, 0x75, 0x65];
        let ghost no = seq![0x66u8, 0x61, 0x6c, 0x73, 0x65];
        let ghost null = seq![0x6eu8, 0x75, 0x6c, 0x6c];
        assert(this.len() == 4 && this[0] == 0x74 && this[1] == 0x68 && this[2] == 0x69 && this[3]
            == 0x73);
        assert(yes.len() == 4 && yes[0] == 0x74 && yes[1] == 0x72 && yes[2] == 0x75 && yes[3]
            == 0x65);
        assert(no.len() == 5 && no[0] == 0x66 && no[1] == 0x61 && no[2] == 0x6c && no[3] == 0x73
            && no[4] == 0x65);
        assert(null.len() == 4 && null[0] == 0x6e && null[1] == 0x75 && null[2] == 0x6c && null[3]
            == 0x6c);
        Parameters::Identifier
    }
}

fn tag_end_at(src: &[u8], p: usize, braces: u8) -> (r: bool)
    requires
        p <= src@.len(),
        2 <= braces <= 4,
    ensures
        r == tag_end(src@, p as int, braces),
        r ==> p + opt(src@, p as int, TILDE) + braces <= src@.len(),
{
    proof {
        lemma_len_fits(src);
    }
    let t = opt_at(src, p, 0, TILDE);
    close_at(src, p, t) && (braces < 3 || peek(src, p, t + 2) == RBRACE) && (braces < 4 || peek(
        src,
        p,
        t + 3,
    ) == RBRACE)
}

fn next_outer(src: &[u8], p: usize) -> (r: (Token, Mode))
    requires
        p < src@.len(),
    ensures
        r == scan_outer(src@, p as int),
        r.0.spec_span().start == p,
        p < r.0.spec_span().end <= src@.len(),
        mode_ok(r.1),
{
    proof {
        lemma_len_fits(src);
    }
    if peek(src, p, 0) == BACKSLASH && open_at(src, p, 1) {
        (Token::Block(Outer::StartRawStatement, Span::new(p, p + 3)), Mode::Body(Body::RawStatement))
    } else if open_at(src, p, 0) && open_at(src, p, 2) {
        let t = opt_at(src, p, 4, TILDE);
        (Token::Block(Outer::StartRawBlock, Span::new(p, p + 4 + t)), Mode::Parameters(4))
    } else if open_at(src, p, 0) && peek(src, p, 2) == BANG {
        if peek(src, p, 3) == DASH && peek(src, p, 4) == DASH {
            (Token::Block(Outer::StartRawComment, Span::new(p, p + 5)), Mode::Body(Body::RawComment))
        } else {
            (Token::Block(Outer::StartComment, Span::new(p, p + 3)), Mode::Body(Body::Comment))
        }
    } else if open_at(src, p, 0) && peek(src, p, 2) == LBRACE {
        let t = opt_at(src, p, 3, TILDE);
        (Token::Block(Outer::StartStatement, Span::new(p, p + 3 + t)), Mode::Parameters(3))
    } else if open_at(src, p, 0) {
        let q = p + 2 + opt_at(src, p, 2, TILDE);
        let c = peek(src, q, 0);
        if c == HASH {
            let g = opt_at(src, q, 1, GREATER);
            (Token::Block(Outer::StartBlockScope, Span::new(p, q + 1 + g)), Mode::Parameters(2))
        } else if c == SLASH {
            let j = scan_run(Run::Close2, src, q + 1);
            if j < src.len() {
                (Token::Block(Outer::EndBlockScope, Span::new(p, j + 2)), Mode::Outer)
            } else {
                (Token::Block(Outer::Error, Span::new(p, src.len())), Mode::Outer)
            }
        } else {
            let g = opt_at(src, q, 0, GREATER);
            (Token::Block(Outer::StartStatement, Span::new(p, q + g)), Mode::Parameters(2))
        }
    } else if peek(src, p, 0) == NEWLINE {
        (Token::Block(Outer::Newline, Span::new(p, p + 1)), Mode::Outer)
    } else {
        (Token::Block(Outer::Text, Span::new(p, scan_run(Run::Text, src, p + 1))), Mode::Outer)
    }
}

fn make_body_token(body: Body, kind: Raw, span: Span) -> (r: Token)
    ensures
        r == body_token(body, kind, span),
        r.spec_span() == span,
{
    match body {
        Body::RawBlock => Token::RawBlock(kind, span),
        Body::RawComment => Token::RawComment(kind, span),
        Body::RawStatement => Token::RawStatement(kind, span),
        Body::Comment => Token::Comment(kind, span),
    }
}

fn next_body(body: Body, src: &[u8], p: usize) -> (r: (Token, Mode))
    requires
        p < src@.len(),
    ensures
        r == scan_body(body, src@, p as int),
        r.0.spec_span().start == p,
        p < r.0.spec_span().end <= src@.len(),
        mode_ok(r.1),
{
    proof {
        lemma_len_fits(src);
    }
    if closes_at(body, src, p) {
        match body {
            Body::RawComment => (make_body_token(body, Raw::End, Span::new(p, p + 4)), Mode::Outer),
            Body::Comment => (make_body_token(body, Raw::End, Span::new(p, p + 2)), Mode::Outer),
            Body::RawStatement => (
                make_body_token(body, Raw::End, Span::new(p, p + 2)),
                Mode::Outer,
            ),
            Body::RawBlock => {
                let j = scan_run(Run::Close4, src, p + 5);
                if j < src.len() {
                    (make_body_token(body, Raw::End, Span::new(p, j + 4)), Mode::Outer)
                } else {
                    (make_body_token(body, Raw::Text, Span::new(p, p + 1)), Mode::Body(body))
                }
            },
        }
    } else if peek(src, p, 0) == NEWLINE {
        (make_body_token(body, Raw::Newline, Span::new(p, p + 1)), Mode::Body(body))
    } else {
        let e = scan_run(Run::Body(body), src, p + 1);
        (make_body_token(body, Raw::Text, Span::new(p, e)), Mode::Body(body))
    }
}

fn next_string(quote: u16, braces: u8, src: &[u8], p: usize) -> (r: (Token, Mode))
    requires
        p < src@.len(),
        mode_ok(Mode::StringLiteral(quote, braces)),
    ensures
        r == scan_string(quote, braces, src@, p as int),
        r.0.spec_span().start == p,
        p < r.0.spec_span().end <= src@.len(),
        mode_ok(r.1),
{
    proof {
        lemma_len_fits(src);
    }
    let b = peek(src, p, 0);
    let n = peek(src, p, 1);
    let stay = Mode::StringLiteral(quote, braces);
    if b == NEWLINE {
        (Token::StringLiteral(Inner::Newline, Span::new(p, p + 1)), stay)
    } else if b == quote {
        (Token::StringLiteral(Inner::End, Span::new(p, p + 1)), Mode::Parameters(braces))
    } else if b == BACKSLASH {
        if n == 0x6e {
            (Token::StringLiteral(Inner::EscapedNewline, Span::new(p, p + 2)), stay)
        } else if n == quote {
            (Token::StringLiteral(Inner::EscapedQuote, Span::new(p, p + 2)), stay)
        } else if n == BACKSLASH || n == 0x72 || n == 0x74 {
            (Token::StringLiteral(Inner::Escaped, Span::new(p, p + 2)), stay)
        } else {
            (Token::StringLiteral(Inner::Error, Span::new(p, p + 1)), stay)
        }
    } else {
        let e = scan_run(Run::Quoted(quote), src, p + 1);
        (Token::StringLiteral(Inner::Text, Span::new(p, e)), stay)
    }
}

fn next_parameters(braces: u8, src: &[u8], p: usize) -> (r: (Token, Mode))
    requires
        p < src@.len(),
        2 <= braces <= 4,
    ensures
        r == scan_parameters(braces, src@, p as int),
        r.0.spec_span().start == p,
        p < r.0.spec_span().end <= src@.len(),
        mode_ok(r.1),
{
    proof {
        lemma_len_fits(src);
    }
    let b = peek(src, p, 0);
    let n = peek(src, p, 1);
    let stay = Mode::Parameters(braces);
    if b == NEWLINE {
        (Token::Parameters(Parameters::Newline, Span::new(p, p + 1)), stay)
    } else if blank(b) {
        let e = scan_run(Run::Blank, src, p + 1);
        (Token::Parameters(Parameters::WhiteSpace, Span::new(p, e)), stay)
    } else if tag_end_at(src, p, braces) {
        let t = opt_at(src, p, 0, TILDE);
        let next = if braces == 4 {
            Mode::Body(Body::RawBlock)
        } else {
            Mode::Outer
        };
        (Token::Parameters(Parameters::End, Span::new(p, p + t + braces as usize)), next)
    } else if b == LPAREN {
        (Token::Parameters(Parameters::StartSubExpression, Span::new(p, p + 1)), stay)
    } else if b == RPAREN {
        (Token::Parameters(Parameters::EndSubExpression, Span::new(p, p + 1)), stay)
    } else if b == DQUOTE {
        (
            Token::Parameters(Parameters::DoubleQuoteString, Span::new(p, p + 1)),
            Mode::StringLiteral(DQUOTE, braces),
        )
    } else if b == SQUOTE {
        (
            Token::Parameters(Parameters::SingleQuoteString, Span::new(p, p + 1)),
            Mode::StringLiteral(SQUOTE, braces),
        )
    } else if b == LBRACKET {
        let j = scan_run(Run::Bracket, src, p + 1);
        if peek(src, j, 0) == RBRACKET {
            (Token::Parameters(Parameters::ArrayAccess, Span::new(p, j + 1)), stay)
        } else {
            (Token::Parameters(Parameters::Error, Span::new(p, p + 1)), stay)
        }
    } else if b == DOT && n == DOT && peek(src, p, 2) == SLASH {
        (Token::Parameters(Parameters::ParentRef, Span::new(p, p + 3)), stay)
    } else if b == DOT && n == SLASH {
        (Token::Parameters(Parameters::ExplicitThisDotSlash, Span::new(p, p + 2)), stay)
    } else if b == DOT || b == SLASH {
        (Token::Parameters(Parameters::PathDelimiter, Span::new(p, p + 1)), stay)
    } else if b == AT && name_start(n) {
        let e = scan_run(Run::Local, src, p + 2);
        (Token::Parameters(Parameters::LocalIdentifier, Span::new(p, e)), stay)
    } else if name_start(b) {
        let e = scan_run(Run::Name, src, p + 1);
        if peek(src, e, 0) == EQUALS {
            (Token::Parameters(Parameters::HashKey, Span::new(p, e + 1)), stay)
        } else {
            let kind = word_kind_of(slice_subrange(src, p, e));
            (Token::Parameters(kind, Span::new(p, e)), stay)
        }
    } else if digit(b) || (b == DASH && digit(n)) {
        let e = number_end_at(src, p);
        proof {
            lemma_number_nonempty(src@, p as int);
        }
        (Token::Parameters(Parameters::Number, Span::new(p, e)), stay)
    } else {
        let e = scan_run(Run::Rest, src, p + 1);
        (Token::Parameters(Parameters::Error, Span::new(p, e)), stay)
    }
}

/// A run never ends before it starts, nor past the end of the source.
pub proof fn lemma_run_end_bounds(run: Run, src: Seq<u8>, i: int)
    requires
        0 <= i <= src.len(),
    ensures
        i <= run_end(run, src, i) <= src.len(),
    decreases src.len() - i,
{
    if i < src.len() && !stops(run, src, i) {
        lemma_run_end_bounds(run, src, i + 1);
        assert(run_end(run, src, i) == run_end(run, src, i + 1));
    } else {
        assert(run_end(run, src, i) == i);
    }
}

/// A number token holds at least its first digit.
proof fn lemma_number_nonempty(src: Seq<u8>, p: int)
    requires
        0 <= p < src.len(),
        is_digit(byte_at(src, p)) || (byte_at(src, p) == DASH && is_digit(byte_at(src, p + 1))),
    ensures
        number_end(src, p) > p,
{
    let m = opt(src, p, DASH);
    let a = run_end(Run::Digits, src, p + m);
    assert(run_end(Run::Digits, src, p + m) == run_end(Run::Digits, src, p + m + 1));
    lemma_run_end_bounds(Run::Digits, src, p + m + 1);
    let b = if byte_at(src, a) == DOT && is_digit(byte_at(src, a + 1)) {
        run_end(Run::Digits, src, a + 1)
    } else {
        a
    };
    if byte_at(src, a) == DOT && is_digit(byte_at(src, a + 1)) {
        lemma_run_end_bounds(Run::Digits, src, a + 1);
    }
    if byte_at(src, b) == 0x65 || byte_at(src, b) == 0x45 {
        let s = b + 1 + if byte_at(src, b + 1) == PLUS || byte_at(src, b + 1) == DASH {
            1int
        } else {
            0int
        };
        if is_digit(byte_at(src, s)) {
            lemma_run_end_bounds(Run::Digits, src, s);
        }
    }
}

/// The token at `p` in the given mode, and the mode after it.
pub(crate) fn next_token(src: &[u8], p: usize, mode: Mode) -> (r: (Token, Mode))
    requires
        p < src@.len(),
        mode_ok(mode),
    ensures
        r == scan(src@, p as int, mode),
        r.0.spec_span().start == p,
        p < r.0.spec_span().end <= src@.len(),
        mode_ok(r.1),
{
    match mode {
        Mode::Outer => next_outer(src, p),
        Mode::Body(body) => next_body(body, src, p),
        Mode::StringLiteral(quote, braces) => next_string(quote, braces, src, p),
        Mode::Parameters(braces) => next_parameters(braces, src, p),
    }
}

/// The tokens of a source that is read from its first byte in the given
/// mode: each covers at least one byte, and together they cover the source
/// from its first byte to its last, in order.
pub fn lex_in(src: &[u8], start: Mode) -> (r: Vec<Token>)
    requires
        mode_ok(start),
    ensures
        r@ == tokens_from(src@, 0, start),
        tiled(r@, 0, src@.len() as int),
{
    let mut out: Vec<Token> = Vec::new();
    let mut p: usize = 0;
    let mut mode = start;
    while p < src.len()
        invariant
            p <= src@.len(),
            mode_ok(mode),
            tokens_from(src@, 0, start) == out@ + tokens_from(src@, p as int, mode),
            tiled(out@, 0, p as int),
        decreases src@.len() - p,
    {
        let step = next_token(src, p, mode);
        proof {
            let end = step.0.spec_span().end as int;
            assert(tokens_from(src@, p as int, mode) == seq![step.0] + tokens_from(
                src@,
                end,
                step.1,
            ));
            assert(out@ + (seq![step.0] + tokens_from(src@, end, step.1)) =~= out@.push(step.0)
                + tokens_from(src@, end, step.1));
        }
        out.push(step.0);
        p = step.0.span().end;
        mode = step.1;
    }
    assert(tokens_from(src@, p as int, mode) == Seq::<Token>::empty());
    assert(out@ + Seq::<Token>::empty() =~= out@);
    out
}

/// The tokens of a source: each covers at least one byte, and together
/// they cover the source from its first byte to its last, in order.
pub fn lex(src: &[u8]) -> (r: Vec<Token>)
    ensures
        r@ == tokens_of(src@),
        tiled(r@, 0, src@.len() as int),
{
    lex_in(src, Mode::Outer)
}

/// A run that ends within the source ends where it stops.
pub proof fn lemma_run_end_stops(run: Run, src: Seq<u8>, i: int)
    requires
        0 <= i <= src.len(),
    ensures
        run_end(run, src, i) < src.len() ==> stops(run, src, run_end(run, src, i)),
    decreases src.len() - i,
{
    reveal_with_fuel(run_end, 2);
    if i < src.len() && !stops(run, src, i) {
        lemma_run_end_stops(run, src, i + 1);
    }
}

/// Where a number ends: after where it starts, within the source.
pub proof fn lemma_number_end_bounds(src: Seq<u8>, p: int)
    requires
        0 <= p < src.len(),
        is_digit(byte_at(src, p)) || (byte_at(src, p) == DASH && is_digit(byte_at(src, p + 1))),
    ensures
        p < number_end(src, p) <= src.len(),
{
    lemma_number_nonempty(src, p);
    let a = run_end(Run::Digits, src, p + opt(src, p, DASH));
    lemma_run_end_bounds(Run::Digits, src, p + opt(src, p, DASH));
    let b = if byte_at(src, a) == DOT && is_digit(byte_at(src, a + 1)) {
        run_end(Run::Digits, src, a + 1)
    } else {
        a
    };
    if byte_at(src, a) == DOT && is_digit(byte_at(src, a + 1)) {
        lemma_run_end_bounds(Run::Digits, src, a + 1);
    }
    if byte_at(src, b) == 0x65 || byte_at(src, b) == 0x45 {
        let s = b + 1 + if byte_at(src, b + 1) == PLUS || byte_at(src, b + 1) == DASH {
            1int
        } else {
            0int
        };
        if is_digit(byte_at(src, s)) {
            lemma_run_end_bounds(Run::Digits, src, s);
        }
    }
}

/// The token at `p` starts at `p`, covers at least one byte and lies
/// within the source; the mode after it is one that the lexer can be in.
pub proof fn lemma_scan_bounds(src: Seq<u8>, p: int, mode: Mode)
    requires
        0 <= p < src.len(),
        src.len() <= usize::MAX,
        mode_ok(mode),
    ensures
        scan(src, p, mode).0.spec_span().start == p,
        p < scan(src, p, mode).0.spec_span().end <= src.len(),
        mode_ok(scan(src, p, mode).1),
{
    match mode {
        Mode::Outer => {
            if open2(src, p) {
                let q = p + 2 + opt(src, p + 2, TILDE);
                if q + 1 <= src.len() {
                    lemma_run_end_bounds(Run::Close2, src, q + 1);
                    lemma_run_end_stops(Run::Close2, src, q + 1);
                }
            }
            lemma_run_end_bounds(Run::Text, src, p + 1);
        },
        Mode::Body(body) => {
            if closes(body, src, p) && body == Body::RawBlock {
                lemma_run_end_bounds(Run::Close4, src, p + 5);
                lemma_run_end_stops(Run::Close4, src, p + 5);
            }
            lemma_run_end_bounds(Run::Body(body), src, p + 1);
        },
        Mode::StringLiteral(quote, braces) => {
            lemma_run_end_bounds(Run::Quoted(quote), src, p + 1);
        },
        Mode::Parameters(braces) => {
            let b = byte_at(src, p);
            let n = byte_at(src, p + 1);
            lemma_run_end_bounds(Run::Blank, src, p + 1);
            lemma_run_end_bounds(Run::Rest, src, p + 1);
            lemma_run_end_bounds(Run::Bracket, src, p + 1);
            lemma_run_end_bounds(Run::Name, src, p + 1);
            if p + 2 <= src.len() {
                lemma_run_end_bounds(Run::Local, src, p + 2);
            }
            if is_digit(b) || (b == DASH && is_digit(n)) {
                lemma_number_end_bounds(src, p);
            }
        },
    }
}

} // verus!
