//! Calls: what stands between the opening sigil of a tag and its end.
use vstd::prelude::*;
use vstd::utf8::{decode_utf8, valid_utf8};
use crate::error::syntax::{ErrorKind, SyntaxError, SyntaxErrorView};
use crate::json::{Json, JsonView};
use crate::lexer::grammar::{byte_at, Inner, Parameters, Token};
use crate::lexer::scan::peek;
use crate::outside::{json_number, number_text, text_from_utf8};
use crate::parser::ast::{
    hash_views, lemma_hash_views, lemma_hash_views_push, lemma_param_views_push, param_views, Call,
    CallTarget, CallView, ParameterValue, ParameterView, Path, PathView, TargetView,
};
use crate::parser::path::{path_of, spec_is_path_component, is_path_component};
use crate::parser::state::{fail, next_line, param, param_at, succ, syntax_error};
use crate::text::{append, bytes_eq, Span};

verus! {

/// Every token covers at least one byte of the source.
pub open spec fn tokens_within(toks: Seq<Token>, len: int) -> bool {
    forall|k: int|
        0 <= k < toks.len() ==> (#[trigger] toks[k]).spec_span().start < toks[k].spec_span().end
            && toks[k].spec_span().end <= len
}

/// The token at index `i` if it is a token of a string literal.
pub open spec fn literal_at(toks: Seq<Token>, i: int) -> Option<(Inner, Span)> {
    if 0 <= i < toks.len() {
        match toks[i] {
            Token::StringLiteral(k, s) => Some((k, s)),
            _ => None,
        }
    } else {
        None
    }
}

/// The byte at which the token at `i` starts; 0 where there is no token.
pub open spec fn start_of(toks: Seq<Token>, i: int) -> usize {
    if 0 <= i < toks.len() {
        toks[i].spec_span().start
    } else {
        0
    }
}

/// The error kind for a literal with that opening quote.
pub open spec fn string_kind(quote: Parameters) -> ErrorKind {
    if quote == Parameters::SingleQuoteString {
        ErrorKind::TokenSingleQuoteLiteral
    } else {
        ErrorKind::TokenDoubleQuoteLiteral
    }
}

/// The quote of a literal with that opening token.
pub open spec fn quote_byte(quote: Parameters) -> u8 {
    if quote == Parameters::SingleQuoteString {
        0x27
    } else {
        0x22
    }
}

/// The byte that `\r`, `\t` or `\\` stands for, by the byte after the backslash.
pub open spec fn unescaped(b: int) -> u8 {
    if b == 0x72 {
        0x0d
    } else if b == 0x74 {
        0x09
    } else {
        0x5c
    }
}

/// The next index after a value that was read from `j` to `k`, among `len`
/// tokens: past `j`.
pub open spec fn after(j: int, k: int, len: nat) -> int {
    if j < k <= len {
        k
    } else {
        j + 1
    }
}

/// The bytes that a string literal stands for, from the token at `i` on and
/// after the bytes `acc`, and the index after the closing quote.
pub open spec fn string_from(
    file: Seq<char>,
    line: usize,
    src: Seq<u8>,
    toks: Seq<Token>,
    i: int,
    quote: Parameters,
    open: usize,
    acc: Seq<u8>,
) -> Result<(Seq<u8>, int), SyntaxErrorView>
    decreases toks.len() - i,
{
    match literal_at(toks, i) {
        None => Err(fail(string_kind(quote), file, line, open)),
        Some((kind, span)) => match kind {
            Inner::End => Ok((acc, i + 1)),
            Inner::Text => string_from(file, line, src, toks, i + 1, quote, open, acc + span.of(src)),
            Inner::EscapedNewline => string_from(
                file,
                line,
                src,
                toks,
                i + 1,
                quote,
                open,
                acc.push(0x0a),
            ),
            Inner::EscapedQuote => string_from(
                file,
                line,
                src,
                toks,
                i + 1,
                quote,
                open,
                acc.push(quote_byte(quote)),
            ),
            Inner::Escaped => string_from(
                file,
                line,
                src,
                toks,
                i + 1,
                quote,
                open,
                acc.push(unescaped(byte_at(src, span.start + 1))),
            ),
            Inner::Newline => Err(fail(ErrorKind::StringLiteralNewline, file, line, span.start)),
            Inner::Error => Err(fail(string_kind(quote), file, line, span.start)),
        },
    }
}

/// Whether a named parameter with that name is among `hash`.
pub open spec fn has_key(hash: Seq<(Span, ParameterView)>, src: Seq<u8>, key: Seq<u8>) -> bool {
    exists|k: int| 0 <= k < hash.len() && (#[trigger] hash[k]).0.of(src) == key
}

/// What a value is as the target of a call: a literal is none.
pub open spec fn target_of(v: ParameterView) -> Option<TargetView> {
    match v {
        ParameterView::Path(p) => Some(TargetView::Path(p)),
        ParameterView::SubExpr(c) => Some(TargetView::SubExpr(Box::new(c))),
        ParameterView::Json(_) => None,
    }
}

/// A path without components.
pub open spec fn no_path(line: usize) -> PathView {
    PathView {
        components: Seq::empty(),
        parents: 0,
        explicit: false,
        root: false,
        lines: Span { start: line, end: succ(line) },
    }
}

/// A call that has been opened and not yet read.
pub open spec fn head_of(partial: bool, escaped: bool, open: Span, close: Span, line: usize) -> CallView {
    CallView {
        partial,
        escaped,
        open,
        close,
        target: TargetView::Path(no_path(line)),
        arguments: Seq::empty(),
        hash: Seq::empty(),
        lines: Span { start: line, end: succ(line) },
    }
}

/// The value that starts with the token at `i`: a path, a literal or a
/// sub-expression. Gives the value, the index after it and the line there.
pub open spec fn value_at(file: Seq<char>, line: usize, src: Seq<u8>, toks: Seq<Token>, i: int) -> Result<
    (ParameterView, int, usize),
    SyntaxErrorView,
>
    decreases toks.len() - i, 0int,
{
    match param_at(toks, i) {
        None => Err(fail(ErrorKind::TokenParameterPath, file, line, start_of(toks, i))),
        Some((lex, span)) => {
            if spec_is_path_component(&lex) {
                match path_of(file, line, src, toks, i) {
                    Err(e) => Err(e),
                    Ok((p, k)) => Ok((ParameterView::Path(p), k, line)),
                }
            } else if lex == Parameters::Number {
                match json_number(span.of(src)) {
                    Some(t) => Ok((ParameterView::Json(JsonView::Number(t)), i + 1, line)),
                    None => Err(fail(ErrorKind::TokenJsonLiteral, file, line, span.start)),
                }
            } else if lex == Parameters::True {
                Ok((ParameterView::Json(JsonView::Bool(true)), i + 1, line))
            } else if lex == Parameters::False {
                Ok((ParameterView::Json(JsonView::Bool(false)), i + 1, line))
            } else if lex == Parameters::Null {
                Ok((ParameterView::Json(JsonView::Null), i + 1, line))
            } else if lex == Parameters::DoubleQuoteString || lex == Parameters::SingleQuoteString {
                match string_from(file, line, src, toks, i + 1, lex, span.start, Seq::empty()) {
                    Err(e) => Err(e),
                    Ok((bytes, k)) => if valid_utf8(bytes) {
                        Ok((ParameterView::Json(JsonView::String(decode_utf8(bytes))), k, line))
                    } else {
                        Err(fail(string_kind(lex), file, line, span.start))
                    },
                }
            } else if lex == Parameters::StartSubExpression {
                match call_at(
                    file,
                    line,
                    src,
                    toks,
                    i + 1,
                    head_of(false, false, span, span, line),
                    true,
                ) {
                    Err(e) => Err(e),
                    Ok((c, k, l)) => Ok((ParameterView::SubExpr(c), k, l)),
                }
            } else {
                Err(fail(ErrorKind::TokenParameterPath, file, line, span.start))
            }
        },
    }
}

/// The call whose target starts at or after the token at `i`: blanks are
/// skipped, the target is a path or a sub-expression, and arguments follow.
pub open spec fn call_at(
    file: Seq<char>,
    line: usize,
    src: Seq<u8>,
    toks: Seq<Token>,
    i: int,
    head: CallView,
    sub: bool,
) -> Result<(CallView, int, usize), SyntaxErrorView>
    decreases toks.len() - i, 2int,
{
    match param_at(toks, i) {
        Some((Parameters::WhiteSpace, _)) => call_at(file, line, src, toks, i + 1, head, sub),
        Some((Parameters::Newline, _)) => call_at(file, succ(line), src, toks, i + 1, head, sub),
        Some((Parameters::EndSubExpression, span)) => Err(
            fail(ErrorKind::EmptyStatement, file, line, span.start),
        ),
        _ => {
            if i < 0 || i >= toks.len() {
                if sub {
                    Err(fail(ErrorKind::OpenSubExpression, file, line, head.open.start))
                } else {
                    Err(fail(ErrorKind::EmptyStatement, file, line, head.close.start))
                }
            } else {
                match value_at(file, line, src, toks, i) {
                    Err(e) => Err(e),
                    Ok((v, k, l)) => match target_of(v) {
                        None => Err(fail(ErrorKind::ExpectedIdentifier, file, line, start_of(toks, i))),
                        Some(t) => args_from(
                            file,
                            l,
                            src,
                            toks,
                            after(i, k, toks.len()),
                            CallView { target: t, ..head },
                            sub,
                        ),
                    },
                }
            }
        },
    }
}

/// The arguments and named parameters of a call from the token at `i` on,
/// added to the call `acc`: positional arguments first, then named ones,
/// each name once. A sub-expression ends with `)`, a tag with its tokens.
pub open spec fn args_from(
    file: Seq<char>,
    line: usize,
    src: Seq<u8>,
    toks: Seq<Token>,
    i: int,
    acc: CallView,
    sub: bool,
) -> Result<(CallView, int, usize), SyntaxErrorView>
    decreases toks.len() - i, 1int,
{
    match param_at(toks, i) {
        Some((Parameters::WhiteSpace, _)) => args_from(file, line, src, toks, i + 1, acc, sub),
        Some((Parameters::Newline, _)) => args_from(file, succ(line), src, toks, i + 1, acc, sub),
        Some((Parameters::EndSubExpression, span)) => if sub {
            Ok(
                (
                    CallView {
                        close: span,
                        lines: Span { start: acc.lines.start, end: succ(line) },
                        ..acc
                    },
                    i + 1,
                    line,
                ),
            )
        } else {
            Err(fail(ErrorKind::TokenParameterPath, file, line, span.start))
        },
        Some((Parameters::HashKey, span)) => {
            let key = Span { start: span.start, end: (span.end - 1) as usize };
            if has_key(acc.hash, src, key.of(src)) {
                Err(fail(ErrorKind::DuplicateHashKey, file, line, span.start))
            } else if !starts_value(toks, i + 1) {
                Err(fail(ErrorKind::HashValueMissing, file, line, span.start))
            } else {
                match value_at(file, line, src, toks, i + 1) {
                    Err(e) => Err(e),
                    Ok((v, k, l)) => args_from(
                        file,
                        l,
                        src,
                        toks,
                        after(i + 1, k, toks.len()),
                        CallView { hash: acc.hash.push((key, v)), ..acc },
                        sub,
                    ),
                }
            }
        },
        _ => {
            if i < 0 || i >= toks.len() {
                if sub {
                    Err(fail(ErrorKind::OpenSubExpression, file, line, acc.open.start))
                } else {
                    Ok(
                        (
                            CallView {
                                lines: Span { start: acc.lines.start, end: succ(line) },
                                ..acc
                            },
                            i,
                            line,
                        ),
                    )
                }
            } else if acc.hash.len() > 0 {
                Err(fail(ErrorKind::ArgumentAfterHash, file, line, start_of(toks, i)))
            } else {
                match value_at(file, line, src, toks, i) {
                    Err(e) => Err(e),
                    Ok((v, k, l)) => args_from(
                        file,
                        l,
                        src,
                        toks,
                        after(i, k, toks.len()),
                        CallView { arguments: acc.arguments.push(v), ..acc },
                        sub,
                    ),
                }
            }
        },
    }
}

/// Whether a value can start at the token at `i`: there is a token, and it
/// is neither a blank nor the end of a sub-expression.
pub open spec fn starts_value(toks: Seq<Token>, i: int) -> bool {
    match param_at(toks, i) {
        Some((lex, _)) => lex != Parameters::WhiteSpace && lex != Parameters::Newline && lex
            != Parameters::EndSubExpression,
        None => false,
    }
}

/// The call of a tag: its opening sigil says whether it is a partial and
/// whether its result is escaped; its tokens are those up to its end.
pub open spec fn call_of(
    file: Seq<char>,
    line: usize,
    src: Seq<u8>,
    toks: Seq<Token>,
    partial: bool,
    escaped: bool,
    open: Span,
    close: Span,
) -> Result<CallView, SyntaxErrorView> {
    match call_at(file, line, src, toks, 0, head_of(partial, escaped, open, close, line), false) {
        Err(e) => Err(e),
        Ok((c, _, _)) => Ok(c),
    }
}

/// The token at index `i` if it is a token of a string literal.
fn literal(toks: &Vec<Token>, i: usize) -> (r: Option<(Inner, Span)>)
    ensures
        r == literal_at(toks@, i as int),
{
    if i < toks.len() {
        match toks[i] {
            Token::StringLiteral(k, s) => Some((k, s)),
            _ => None,
        }
    } else {
        None
    }
}

fn start(toks: &Vec<Token>, i: usize) -> (r: usize)
    ensures
        r == start_of(toks@, i as int),
{
    if i < toks.len() {
        toks[i].span().start
    } else {
        0
    }
}

/// Reads the rest of a string literal.
fn parse_string(
    src: &[u8],
    file: &String,
    line: usize,
    toks: &Vec<Token>,
    from: usize,
    quote: Parameters,
    open: usize,
) -> (r: Result<(Vec<u8>, usize), SyntaxError>)
    requires
        from <= toks.len(),
        tokens_within(toks@, src@.len() as int),
    ensures
        match string_from(file@, line, src@, toks@, from as int, quote, open, Seq::empty()) {
            Ok((b, k)) => r matches Ok((c, j)) && c@ == b && j == k && from < j <= toks.len(),
            Err(e) => r matches Err(x) && x@ == e,
        },
{
    let ghost goal = string_from(file@, line, src@, toks@, from as int, quote, open, Seq::empty());
    let mut acc: Vec<u8> = Vec::new();
    let mut i: usize = from;
    loop
        invariant
            from <= i <= toks.len(),
            tokens_within(toks@, src@.len() as int),
            goal == string_from(file@, line, src@, toks@, from as int, quote, open, Seq::empty()),
            goal == string_from(file@, line, src@, toks@, i as int, quote, open, acc@),
        decreases toks.len() - i,
    {
        proof {
            reveal_with_fuel(string_from, 2);
        }
        match literal(toks, i) {
            None => {
                let kind = if quote == Parameters::SingleQuoteString {
                    ErrorKind::TokenSingleQuoteLiteral
                } else {
                    ErrorKind::TokenDoubleQuoteLiteral
                };
                return Err(syntax_error(kind, file, line, open));
            },
            Some((kind, span)) => {
                assert(toks@[i as int].spec_span() == span);
                match kind {
                    Inner::End => {
                        return Ok((acc, i + 1));
                    },
                    Inner::Text => {
                        append(&mut acc, span.slice(src));
                    },
                    Inner::EscapedNewline => {
                        acc.push(0x0a);
                    },
                    Inner::EscapedQuote => {
                        let q: u8 = if quote == Parameters::SingleQuoteString {
                            0x27
                        } else {
                            0x22
                        };
                        acc.push(q);
                    },
                    Inner::Escaped => {
                        let b = peek(src, span.start, 1);
                        let c: u8 = if b == 0x72 {
                            0x0d
                        } else if b == 0x74 {
                            0x09
                        } else {
                            0x5c
                        };
                        acc.push(c);
                    },
                    Inner::Newline => {
                        return Err(
                            syntax_error(ErrorKind::StringLiteralNewline, file, line, span.start),
                        );
                    },
                    Inner::Error => {
                        let kind = if quote == Parameters::SingleQuoteString {
                            ErrorKind::TokenSingleQuoteLiteral
                        } else {
                            ErrorKind::TokenDoubleQuoteLiteral
                        };
                        return Err(syntax_error(kind, file, line, span.start));
                    },
                }
                i += 1;
            },
        }
    }
}

/// Whether a named parameter with the name `key` is among `hash`.
fn find_key(hash: &Vec<(Span, ParameterValue)>, src: &[u8], key: &[u8]) -> (r: bool)
    ensures
        r == has_key(hash_views(hash@), src@, key@),
{
    proof {
        lemma_hash_views(hash@);
    }
    let mut i: usize = 0;
    while i < hash.len()
        invariant
            i <= hash.len(),
            forall|k: int| 0 <= k < i ==> (#[trigger] hash@[k]).0.of(src@) != key@,
        decreases hash.len() - i,
    {
        if bytes_eq(hash[i].0.slice(src), key) {
            proof {
                lemma_hash_views(hash@);
                assert(hash_views(hash@)[i as int].0.of(src@) == key@);
            }
            return true;
        }
        i += 1;
    }
    proof {
        lemma_hash_views(hash@);
        if has_key(hash_views(hash@), src@, key@) {
            let k = choose|k: int|
                0 <= k < hash_views(hash@).len() && (#[trigger] hash_views(hash@)[k]).0.of(src@)
                    == key@;
            assert(hash@[k].0.of(src@) != key@);
        }
    }
    false
}

/// Reads the value that starts with the token at `i`.
pub(crate) fn parse_value(src: &[u8], file: &String, line: usize, toks: &Vec<Token>, i: usize) -> (r:
    Result<(ParameterValue, usize, usize), SyntaxError>)
    requires
        i <= toks.len(),
        tokens_within(toks@, src@.len() as int),
    ensures
        match value_at(file@, line, src@, toks@, i as int) {
            Ok((v, k, l)) => r matches Ok((w, j, m)) && w@ == v && j == k && m == l && i < j
                <= toks.len(),
            Err(e) => r matches Err(x) && x@ == e,
        },
    decreases toks.len() - i, 0int,
{
    match param(toks, i) {
        None => Err(syntax_error(ErrorKind::TokenParameterPath, file, line, start(toks, i))),
        Some((lex, span)) => {
            assert(toks@[i as int].spec_span() == span);
            if is_path_component(&lex) {
                match crate::parser::path::parse(src, file, line, toks, i) {
                    Err(e) => Err(e),
                    Ok((p, k)) => Ok((ParameterValue::Path(p), k, line)),
                }
            } else if lex == Parameters::Number {
                match number_text(span.slice(src)) {
                    Some(t) => Ok((ParameterValue::Json(Json::Number(t)), i + 1, line)),
                    None => Err(syntax_error(ErrorKind::TokenJsonLiteral, file, line, span.start)),
                }
            } else if lex == Parameters::True {
                Ok((ParameterValue::Json(Json::Bool(true)), i + 1, line))
            } else if lex == Parameters::False {
                Ok((ParameterValue::Json(Json::Bool(false)), i + 1, line))
            } else if lex == Parameters::Null {
                Ok((ParameterValue::Json(Json::Null), i + 1, line))
            } else if lex == Parameters::DoubleQuoteString || lex == Parameters::SingleQuoteString {
                match parse_string(src, file, line, toks, i + 1, lex, span.start) {
                    Err(e) => Err(e),
                    Ok((bytes, k)) => match text_from_utf8(bytes) {
                        Some(s) => Ok((ParameterValue::Json(Json::String(s)), k, line)),
                        None => {
                            let kind = if lex == Parameters::SingleQuoteString {
                                ErrorKind::TokenSingleQuoteLiteral
                            } else {
                                ErrorKind::TokenDoubleQuoteLiteral
                            };
                            Err(syntax_error(kind, file, line, span.start))
                        },
                    },
                }
            } else if lex == Parameters::StartSubExpression {
                let head = new_call(false, false, span, span, line);
                match parse_call(src, file, line, toks, i + 1, head, true) {
                    Err(e) => Err(e),
                    Ok((c, k, l)) => Ok((ParameterValue::SubExpr(c), k, l)),
                }
            } else {
                Err(syntax_error(ErrorKind::TokenParameterPath, file, line, span.start))
            }
        },
    }
}

/// A call that has been opened and not yet read.
pub(crate) fn new_call(partial: bool, escaped: bool, open: Span, close: Span, line: usize) -> (r: Call)
    ensures
        r@ == head_of(partial, escaped, open, close, line),
        r.hash@.len() == 0,
{
    let r = Call {
        partial,
        escaped,
        open,
        close,
        target: CallTarget::Path(
            Path {
                components: Vec::new(),
                parents: 0,
                explicit: false,
                root: false,
                lines: Span::new(line, next_line(line)),
            },
        ),
        arguments: Vec::new(),
        hash: Vec::new(),
        lines: Span::new(line, next_line(line)),
    };
    proof {
        assert(param_views(r.arguments@) =~= Seq::empty());
        assert(hash_views(r.hash@) =~= Seq::empty());
        assert(r.target@->Path_0.components =~= Seq::empty());
    }
    r
}

/// Reads the call whose target starts at or after the token at `from`.
pub(crate) fn parse_call(
    src: &[u8],
    file: &String,
    line: usize,
    toks: &Vec<Token>,
    from: usize,
    head: Call,
    sub: bool,
) -> (r: Result<(Call, usize, usize), SyntaxError>)
    requires
        from <= toks.len(),
        tokens_within(toks@, src@.len() as int),
        head.hash@.len() == 0,
    ensures
        match call_at(file@, line, src@, toks@, from as int, head@, sub) {
            Ok((c, k, l)) => r matches Ok((d, j, m)) && d@ == c && j == k && m == l && from <= j
                <= toks.len() && (sub ==> from < j),
            Err(e) => r matches Err(x) && x@ == e,
        },
    decreases toks.len() - from, 2int,
{
    let ghost goal = call_at(file@, line, src@, toks@, from as int, head@, sub);
    let mut call = head;
    let mut i: usize = from;
    let mut cur: usize = line;
    loop
        invariant
            from <= i <= toks.len(),
            tokens_within(toks@, src@.len() as int),
            call@ == head@,
            call.hash@.len() == 0,
            goal == call_at(file@, line, src@, toks@, from as int, head@, sub),
            goal == call_at(file@, cur, src@, toks@, i as int, head@, sub),
        decreases toks.len() - i,
    {
        proof {
            reveal_with_fuel(call_at, 2);
        }
        match param(toks, i) {
            Some((Parameters::WhiteSpace, _)) => {
                i += 1;
            },
            Some((Parameters::Newline, _)) => {
                i += 1;
                cur = next_line(cur);
            },
            Some((Parameters::EndSubExpression, span)) => {
                return Err(syntax_error(ErrorKind::EmptyStatement, file, cur, span.start));
            },
            _ => {
                if i >= toks.len() {
                    if sub {
                        return Err(
                            syntax_error(ErrorKind::OpenSubExpression, file, cur, call.open.start),
                        );
                    } else {
                        return Err(
                            syntax_error(ErrorKind::EmptyStatement, file, cur, call.close.start),
                        );
                    }
                }
                match parse_value(src, file, cur, toks, i) {
                    Err(e) => {
                        return Err(e);
                    },
                    Ok((v, k, l)) => {
                        match v {
                            ParameterValue::Json(_) => {
                                return Err(
                                    syntax_error(
                                        ErrorKind::ExpectedIdentifier,
                                        file,
                                        cur,
                                        start(toks, i),
                                    ),
                                );
                            },
                            ParameterValue::Path(p) => {
                                call.target = CallTarget::Path(p);
                            },
                            ParameterValue::SubExpr(c) => {
                                call.target = CallTarget::SubExpr(Box::new(c));
                            },
                        }
                        return parse_args(src, file, l, toks, k, call, sub);
                    },
                }
            },
        }
    }
}

/// Reads the arguments and named parameters of a call into `acc`.
pub(crate) fn parse_args(
    src: &[u8],
    file: &String,
    line: usize,
    toks: &Vec<Token>,
    from: usize,
    acc: Call,
    sub: bool,
) -> (r: Result<(Call, usize, usize), SyntaxError>)
    requires
        from <= toks.len(),
        tokens_within(toks@, src@.len() as int),
    ensures
        match args_from(file@, line, src@, toks@, from as int, acc@, sub) {
            Ok((c, k, l)) => r matches Ok((d, j, m)) && d@ == c && j == k && m == l && from <= j
                <= toks.len() && (sub ==> from < j),
            Err(e) => r matches Err(x) && x@ == e,
        },
    decreases toks.len() - from, 1int,
{
    let ghost goal = args_from(file@, line, src@, toks@, from as int, acc@, sub);
    let mut call = acc;
    let mut i: usize = from;
    let mut cur: usize = line;
    loop
        invariant
            from <= i <= toks.len(),
            tokens_within(toks@, src@.len() as int),
            goal == args_from(file@, line, src@, toks@, from as int, acc@, sub),
            goal == args_from(file@, cur, src@, toks@, i as int, call@, sub),
        decreases toks.len() - i,
    {
        proof {
            reveal_with_fuel(args_from, 2);
        }
        match param(toks, i) {
            Some((Parameters::WhiteSpace, _)) => {
                i += 1;
            },
            Some((Parameters::Newline, _)) => {
                i += 1;
                cur = next_line(cur);
            },
            Some((Parameters::EndSubExpression, span)) => {
                if sub {
                    call.close = span;
                    call.lines = Span::new(call.lines.start, next_line(cur));
                    return Ok((call, i + 1, cur));
                } else {
                    return Err(
                        syntax_error(ErrorKind::TokenParameterPath, file, cur, span.start),
                    );
                }
            },
            Some((Parameters::HashKey, span)) => {
                assert(toks@[i as int].spec_span() == span);
                let key = Span::new(span.start, span.end - 1);
                if find_key(&call.hash, src, key.slice(src)) {
                    return Err(syntax_error(ErrorKind::DuplicateHashKey, file, cur, span.start));
                }
                let ok = match param(toks, i + 1) {
                    Some((lex, _)) => lex != Parameters::WhiteSpace && lex != Parameters::Newline
                        && lex != Parameters::EndSubExpression,
                    None => false,
                };
                if !ok {
                    return Err(syntax_error(ErrorKind::HashValueMissing, file, cur, span.start));
                }
                match parse_value(src, file, cur, toks, i + 1) {
                    Err(e) => {
                        return Err(e);
                    },
                    Ok((v, k, l)) => {
                        proof {
                            lemma_hash_views_push(call.hash@, (key, v));
                        }
                        call.hash.push((key, v));
                        i = k;
                        cur = l;
                    },
                }
            },
            _ => {
                if i >= toks.len() {
                    if sub {
                        return Err(
                            syntax_error(ErrorKind::OpenSubExpression, file, cur, call.open.start),
                        );
                    } else {
                        call.lines = Span::new(call.lines.start, next_line(cur));
                        return Ok((call, i, cur));
                    }
                }
                if call.hash.len() > 0 {
                    proof {
                        lemma_hash_views(call.hash@);
                    }
                    return Err(
                        syntax_error(ErrorKind::ArgumentAfterHash, file, cur, start(toks, i)),
                    );
                }
                proof {
                    lemma_hash_views(call.hash@);
                }
                match parse_value(src, file, cur, toks, i) {
                    Err(e) => {
                        return Err(e);
                    },
                    Ok((v, k, l)) => {
                        proof {
                            lemma_param_views_push(call.arguments@, v);
                        }
                        call.arguments.push(v);
                        i = k;
                        cur = l;
                    },
                }
            },
        }
    }
}

/// Reads the call of a tag from the tokens between its opening sigil and
/// its end.
pub fn parse(
    src: &[u8],
    file: &String,
    line: usize,
    toks: &Vec<Token>,
    partial: bool,
    escaped: bool,
    open: Span,
    close: Span,
) -> (r: Result<Call, SyntaxError>)
    requires
        tokens_within(toks@, src@.len() as int),
    ensures
        match call_of(file@, line, src@, toks@, partial, escaped, open, close) {
            Ok(c) => r matches Ok(d) && d@ == c,
            Err(e) => r matches Err(x) && x@ == e,
        },
        r matches Ok(d) ==> names_once(d@.hash, src@),
{
    proof {
        lemma_call_of_names_once(file@, line, src@, toks@, partial, escaped, open, close);
    }
    let head = new_call(partial, escaped, open, close, line);
    match parse_call(src, file, line, toks, 0, head, false) {
        Err(e) => Err(e),
        Ok((c, _, _)) => Ok(c),
    }
}

/// The arguments of a tag's call are read into the call that was opened:
/// the call keeps its opening sigil, its end, and what the sigil said.
pub proof fn lemma_args_keep(
    file: Seq<char>,
    line: usize,
    src: Seq<u8>,
    toks: Seq<Token>,
    i: int,
    acc: CallView,
)
    requires
        0 <= i,
    ensures
        args_from(file, line, src, toks, i, acc, false) matches Ok((c, _, _)) ==> c.open
            == acc.open && c.close == acc.close && c.partial == acc.partial && c.escaped
            == acc.escaped && c.target == acc.target,
    decreases toks.len() - i,
{
    reveal_with_fuel(args_from, 2);
    match param_at(toks, i) {
        Some((Parameters::WhiteSpace, _)) => {
            lemma_args_keep(file, line, src, toks, i + 1, acc);
        },
        Some((Parameters::Newline, _)) => {
            lemma_args_keep(file, succ(line), src, toks, i + 1, acc);
        },
        Some((Parameters::EndSubExpression, span)) => {},
        Some((Parameters::HashKey, span)) => {
            let key = Span { start: span.start, end: (span.end - 1) as usize };
            if !has_key(acc.hash, src, key.of(src)) && starts_value(toks, i + 1) {
                match value_at(file, line, src, toks, i + 1) {
                    Err(e) => {},
                    Ok((v, k, l)) => {
                        lemma_args_keep(
                            file,
                            l,
                            src,
                            toks,
                            after(i + 1, k, toks.len()),
                            CallView { hash: acc.hash.push((key, v)), ..acc },
                        );
                    },
                }
            }
        },
        _ => {
            if i < toks.len() && acc.hash.len() == 0 {
                match value_at(file, line, src, toks, i) {
                    Err(e) => {},
                    Ok((v, k, l)) => {
                        lemma_args_keep(
                            file,
                            l,
                            src,
                            toks,
                            after(i, k, toks.len()),
                            CallView { arguments: acc.arguments.push(v), ..acc },
                        );
                    },
                }
            }
        },
    }
}

/// A tag's call keeps the opening sigil and the end that it was read with.
pub proof fn lemma_call_keeps(
    file: Seq<char>,
    line: usize,
    src: Seq<u8>,
    toks: Seq<Token>,
    i: int,
    head: CallView,
)
    requires
        0 <= i,
    ensures
        call_at(file, line, src, toks, i, head, false) matches Ok((c, _, _)) ==> c.open
            == head.open && c.close == head.close && c.partial == head.partial && c.escaped
            == head.escaped,
    decreases toks.len() - i,
{
    reveal_with_fuel(call_at, 2);
    match param_at(toks, i) {
        Some((Parameters::WhiteSpace, _)) => {
            lemma_call_keeps(file, line, src, toks, i + 1, head);
        },
        Some((Parameters::Newline, _)) => {
            lemma_call_keeps(file, succ(line), src, toks, i + 1, head);
        },
        Some((Parameters::EndSubExpression, span)) => {},
        _ => {
            if i < toks.len() {
                match value_at(file, line, src, toks, i) {
                    Err(e) => {},
                    Ok((v, k, l)) => match target_of(v) {
                        None => {},
                        Some(t) => {
                            lemma_args_keep(
                                file,
                                l,
                                src,
                                toks,
                                after(i, k, toks.len()),
                                CallView { target: t, ..head },
                            );
                        },
                    },
                }
            }
        },
    }
}

/// The call of a tag starts with the opening sigil of the tag and ends
/// with its end.
pub proof fn lemma_call_of_spans(
    file: Seq<char>,
    line: usize,
    src: Seq<u8>,
    toks: Seq<Token>,
    partial: bool,
    escaped: bool,
    open: Span,
    close: Span,
)
    ensures
        call_of(file, line, src, toks, partial, escaped, open, close) matches Ok(c) ==> c.open
            == open && c.close == close && c.partial == partial && c.escaped == escaped,
{
    lemma_call_keeps(file, line, src, toks, 0, head_of(partial, escaped, open, close, line));
}

/// Whether no name occurs twice among the named parameters `hash`.
pub open spec fn names_once(hash: Seq<(Span, ParameterView)>, src: Seq<u8>) -> bool {
    forall|a: int, b: int|
        0 <= a < b < hash.len() ==> (#[trigger] hash[a]).0.of(src) != (#[trigger] hash[b]).0.of(
            src,
        )
}

/// Reading named parameters keeps their names apart: a name that is there
/// already is refused.
pub proof fn lemma_args_names_once(
    file: Seq<char>,
    line: usize,
    src: Seq<u8>,
    toks: Seq<Token>,
    i: int,
    acc: CallView,
    sub: bool,
)
    requires
        0 <= i,
        names_once(acc.hash, src),
    ensures
        args_from(file, line, src, toks, i, acc, sub) matches Ok((c, _, _)) ==> names_once(
            c.hash,
            src,
        ),
    decreases toks.len() - i,
{
    reveal_with_fuel(args_from, 2);
    match param_at(toks, i) {
        Some((Parameters::WhiteSpace, _)) => {
            lemma_args_names_once(file, line, src, toks, i + 1, acc, sub);
        },
        Some((Parameters::Newline, _)) => {
            lemma_args_names_once(file, succ(line), src, toks, i + 1, acc, sub);
        },
        Some((Parameters::EndSubExpression, span)) => {},
        Some((Parameters::HashKey, span)) => {
            let key = Span { start: span.start, end: (span.end - 1) as usize };
            if !has_key(acc.hash, src, key.of(src)) && starts_value(toks, i + 1) {
                match value_at(file, line, src, toks, i + 1) {
                    Err(e) => {},
                    Ok((v, k, l)) => {
                        let more = acc.hash.push((key, v));
                        assert forall|a: int, b: int| 0 <= a < b < more.len() implies (
                        #[trigger] more[a]).0.of(src) != (#[trigger] more[b]).0.of(src) by {
                            if b == acc.hash.len() {
                                assert(acc.hash[a].0.of(src) != key.of(src));
                            } else {
                                assert(acc.hash[a].0.of(src) != acc.hash[b].0.of(src));
                            }
                        }
                        lemma_args_names_once(
                            file,
                            l,
                            src,
                            toks,
                            after(i + 1, k, toks.len()),
                            CallView { hash: more, ..acc },
                            sub,
                        );
                    },
                }
            }
        },
        _ => {
            if i < toks.len() && acc.hash.len() == 0 {
                match value_at(file, line, src, toks, i) {
                    Err(e) => {},
                    Ok((v, k, l)) => {
                        lemma_args_names_once(
                            file,
                            l,
                            src,
                            toks,
                            after(i, k, toks.len()),
                            CallView { arguments: acc.arguments.push(v), ..acc },
                            sub,
                        );
                    },
                }
            }
        },
    }
}

/// No name occurs twice among the named parameters of a call that was
/// read, of a tag or of a sub-expression.
pub proof fn lemma_call_names_once(
    file: Seq<char>,
    line: usize,
    src: Seq<u8>,
    toks: Seq<Token>,
    i: int,
    head: CallView,
    sub: bool,
)
    requires
        0 <= i,
        head.hash.len() == 0,
    ensures
        call_at(file, line, src, toks, i, head, sub) matches Ok((c, _, _)) ==> names_once(
            c.hash,
            src,
        ),
    decreases toks.len() - i,
{
    reveal_with_fuel(call_at, 2);
    match param_at(toks, i) {
        Some((Parameters::WhiteSpace, _)) => {
            lemma_call_names_once(file, line, src, toks, i + 1, head, sub);
        },
        Some((Parameters::Newline, _)) => {
            lemma_call_names_once(file, succ(line), src, toks, i + 1, head, sub);
        },
        Some((Parameters::EndSubExpression, span)) => {},
        _ => {
            if i < toks.len() {
                match value_at(file, line, src, toks, i) {
                    Err(e) => {},
                    Ok((v, k, l)) => match target_of(v) {
                        None => {},
                        Some(t) => {
                            lemma_args_names_once(
                                file,
                                l,
                                src,
                                toks,
                                after(i, k, toks.len()),
                                CallView { target: t, ..head },
                                sub,
                            );
                        },
                    },
                }
            }
        },
    }
}

/// Each named parameter of a tag's call has a name of its own.
pub proof fn lemma_call_of_names_once(
    file: Seq<char>,
    line: usize,
    src: Seq<u8>,
    toks: Seq<Token>,
    partial: bool,
    escaped: bool,
    open: Span,
    close: Span,
)
    ensures
        call_of(file, line, src, toks, partial, escaped, open, close) matches Ok(c) ==> names_once(
            c.hash,
            src,
        ),
{
    lemma_call_names_once(
        file,
        line,
        src,
        toks,
        0,
        head_of(partial, escaped, open, close, line),
        false,
    );
}

} // verus!
