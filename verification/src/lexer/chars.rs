//! Tokens and characters: in a source that is UTF-8 text, no token starts
//! or ends in the middle of a character.
use vstd::prelude::*;
use vstd::utf8::{
    is_char_boundary, is_char_boundary_iff_not_is_continuation_byte,
    is_char_boundary_start_end_of_seq, is_continuation_byte, valid_utf8, valid_utf8_split,
};
use crate::lexer::grammar::{
    byte_at, closes, is_digit, mode_ok, number_end, opt, run_end, scan, stops, Body, Mode, Run,
    DASH, DOT, PLUS, TILDE,
};
use crate::lexer::scan::{lemma_run_end_bounds, lemma_run_end_stops, lemma_scan_bounds};

verus! {

/// Whether a source can be cut at an offset without cutting a character:
/// the offset is the end of the source, or the byte there is not one of
/// the bytes that follow the first byte of a character.
pub open spec fn cut(src: Seq<u8>, i: int) -> bool {
    0 <= i <= src.len() && (i == src.len() || !is_continuation_byte(src[i]))
}

/// What lies between two cuts of a text is a text.
pub proof fn lemma_piece_valid(src: Seq<u8>, a: int, b: int)
    requires
        valid_utf8(src),
        cut(src, a),
        cut(src, b),
        a <= b,
    ensures
        valid_utf8(src.subrange(a, b)),
{
    is_char_boundary_start_end_of_seq(src);
    if b < src.len() {
        is_char_boundary_iff_not_is_continuation_byte(src, b);
    }
    valid_utf8_split(src, b);
    let prefix = src.subrange(0, b);
    is_char_boundary_start_end_of_seq(prefix);
    if a < b {
        assert(prefix[a] == src[a]);
        is_char_boundary_iff_not_is_continuation_byte(prefix, a);
    }
    valid_utf8_split(prefix, a);
    assert(prefix.subrange(a, b) =~= src.subrange(a, b));
}

/// A text can be cut after each of its ASCII bytes.
pub proof fn lemma_cut_after_ascii(src: Seq<u8>, i: int)
    requires
        valid_utf8(src),
        0 <= i < src.len(),
        src[i] < 0x80,
    ensures
        cut(src, i + 1),
{
    lemma_piece_valid(src, i, src.len() as int);
    let t = src.subrange(i, src.len() as int);
    assert(t[0] == src[i]);
    reveal_with_fuel(valid_utf8, 3);
    let u = vstd::utf8::pop_first_scalar(t);
    assert(u =~= t.subrange(1, t.len() as int));
    if i + 1 < src.len() {
        assert(u[0] == src[i + 1]);
        assert(vstd::utf8::valid_first_scalar(u));
    }
}

/// Within a run, no byte is one at which the run stops.
pub proof fn lemma_run_end_inside(run: Run, src: Seq<u8>, from: int, i: int)
    requires
        0 <= from <= i,
        i < run_end(run, src, from),
    ensures
        !stops(run, src, i),
        i < src.len(),
    decreases i - from,
{
    reveal_with_fuel(run_end, 2);
    if from < i {
        lemma_run_end_inside(run, src, from + 1, i);
    }
}

/// Whether a text can be cut at `e` for one of the reasons that hold of
/// the end of a token: the source ends there, or the byte there or the
/// byte before it is ASCII.
pub open spec fn ascii_edge(src: Seq<u8>, e: int) -> bool {
    0 <= e <= src.len() && (e == src.len() || src[e] < 0x80 || (e > 0 && src[e - 1] < 0x80))
}

/// A text can be cut where the source ends or an ASCII byte stands on
/// either side.
pub proof fn lemma_ascii_edge(src: Seq<u8>, e: int)
    requires
        valid_utf8(src),
        ascii_edge(src, e),
    ensures
        cut(src, e),
{
    if e < src.len() && src[e] >= 0x80 {
        lemma_cut_after_ascii(src, e - 1);
    }
}

/// A run of bytes of one class, after an ASCII byte, ends at an ASCII edge.
proof fn lemma_class_run_edge(run: Run, src: Seq<u8>, from: int)
    requires
        run == Run::Blank || run == Run::Name || run == Run::Local || run == Run::Digits,
        0 < from <= src.len(),
        src[from - 1] < 0x80,
    ensures
        ascii_edge(src, run_end(run, src, from)),
{
    lemma_run_end_bounds(run, src, from);
    let e = run_end(run, src, from);
    if e > from {
        lemma_run_end_inside(run, src, from, e - 1);
    }
}

/// A run that stops at an ASCII byte ends at an ASCII edge.
proof fn lemma_stop_run_edge(run: Run, src: Seq<u8>, from: int)
    requires
        run == Run::Text || run == Run::Close2 || run == Run::Close4 || run == Run::Bracket
            || (run matches Run::Quoted(q) && q < 0x80) || run matches Run::Body(_),
        0 <= from <= src.len(),
    ensures
        ascii_edge(src, run_end(run, src, from)),
{
    lemma_run_end_bounds(run, src, from);
    lemma_run_end_stops(run, src, from);
}

/// A number ends at an ASCII edge.
proof fn lemma_number_edge(src: Seq<u8>, p: int)
    requires
        0 <= p < src.len(),
        is_digit(byte_at(src, p)) || (byte_at(src, p) == DASH && is_digit(byte_at(src, p + 1))),
    ensures
        ascii_edge(src, number_end(src, p)),
{
    let m = opt(src, p, DASH);
    let a = run_end(Run::Digits, src, p + m);
    reveal_with_fuel(run_end, 2);
    assert(a == run_end(Run::Digits, src, p + m + 1));
    lemma_class_run_edge(Run::Digits, src, p + m + 1);
    lemma_run_end_bounds(Run::Digits, src, p + m + 1);
    let b = if byte_at(src, a) == DOT && is_digit(byte_at(src, a + 1)) {
        run_end(Run::Digits, src, a + 1)
    } else {
        a
    };
    if byte_at(src, a) == DOT && is_digit(byte_at(src, a + 1)) {
        lemma_class_run_edge(Run::Digits, src, a + 1);
        lemma_run_end_bounds(Run::Digits, src, a + 1);
    }
    if byte_at(src, b) == 0x65 || byte_at(src, b) == 0x45 {
        let s = b + 1 + if byte_at(src, b + 1) == PLUS || byte_at(src, b + 1) == DASH {
            1int
        } else {
            0int
        };
        if is_digit(byte_at(src, s)) {
            lemma_class_run_edge(Run::Digits, src, s);
        }
    }
}

/// In a text, a token that starts at a cut ends at a cut.
pub proof fn lemma_scan_cut(src: Seq<u8>, p: int, mode: Mode)
    requires
        valid_utf8(src),
        0 <= p < src.len(),
        src.len() <= usize::MAX,
        cut(src, p),
        mode_ok(mode),
    ensures
        cut(src, scan(src, p, mode).0.spec_span().end as int),
{
    lemma_scan_bounds(src, p, mode);
    let e = scan(src, p, mode).0.spec_span().end as int;
    match mode {
        Mode::Outer => {
            lemma_stop_run_edge(Run::Text, src, p + 1);
            let q = p + 2 + opt(src, p + 2, TILDE);
            if q + 1 <= src.len() {
                lemma_stop_run_edge(Run::Close2, src, q + 1);
                lemma_run_end_stops(Run::Close2, src, q + 1);
                lemma_run_end_bounds(Run::Close2, src, q + 1);
            }
            assert(ascii_edge(src, e));
            lemma_ascii_edge(src, e);
        },
        Mode::Body(body) => {
            lemma_stop_run_edge(Run::Body(body), src, p + 1);
            if closes(body, src, p) && body == Body::RawBlock {
                lemma_run_end_stops(Run::Close4, src, p + 5);
                lemma_run_end_bounds(Run::Close4, src, p + 5);
            }
            assert(ascii_edge(src, e));
            lemma_ascii_edge(src, e);
        },
        Mode::StringLiteral(quote, braces) => {
            lemma_stop_run_edge(Run::Quoted(quote), src, p + 1);
            assert(ascii_edge(src, e));
            lemma_ascii_edge(src, e);
        },
        Mode::Parameters(braces) => {
            let b = byte_at(src, p);
            let n = byte_at(src, p + 1);
            lemma_run_end_bounds(Run::Rest, src, p + 1);
            lemma_run_end_stops(Run::Rest, src, p + 1);
            lemma_run_end_bounds(Run::Bracket, src, p + 1);
            lemma_run_end_stops(Run::Bracket, src, p + 1);
            if b < 0x80 {
                lemma_class_run_edge(Run::Blank, src, p + 1);
                lemma_class_run_edge(Run::Name, src, p + 1);
                lemma_run_end_bounds(Run::Name, src, p + 1);
            }
            if p + 2 <= src.len() && n < 0x80 {
                lemma_class_run_edge(Run::Local, src, p + 2);
            }
            if is_digit(b) || (b == DASH && is_digit(n)) {
                lemma_number_edge(src, p);
            }
            if e < src.len() && !ascii_edge(src, e) {
                assert(e == run_end(Run::Rest, src, p + 1));
            } else {
                lemma_ascii_edge(src, e);
            }
        },
    }
}

/// Bytes that are all ASCII are a text.
pub proof fn lemma_ascii_valid(s: Seq<u8>)
    requires
        forall|i: int| 0 <= i < s.len() ==> (#[trigger] s[i]) < 0x80,
    ensures
        valid_utf8(s),
{
    assert(s.subrange(0, 0) =~= Seq::<u8>::empty());
    assert(vstd::utf8::partial_valid_utf8(s, 0));
    assert forall|i: int| 0 <= 0 <= i < s.len() <= s.len() implies (
    #[trigger] vstd::utf8::is_leading_byte_width_1(s[i])) by {
        assert(s[i] < 0x80);
    }
    vstd::utf8::partial_valid_utf8_extend_ascii_block(s, 0, s.len() as int);
    assert(s.subrange(0, s.len() as int) =~= s);
}

/// A text can be cut at its start.
pub proof fn lemma_cut_start(src: Seq<u8>)
    requires
        valid_utf8(src),
    ensures
        cut(src, 0),
{
    if src.len() > 0 {
        is_char_boundary_start_end_of_seq(src);
        is_char_boundary_iff_not_is_continuation_byte(src, 0);
    }
}

/// The bytes that a span covers between two cuts of a text are a text.
pub proof fn lemma_span_valid(src: Seq<u8>, span: crate::text::Span)
    requires
        valid_utf8(src),
        cut(src, span.start as int),
        cut(src, span.end as int),
    ensures
        valid_utf8(span.of(src)),
{
    if span.within(src.len() as int) {
        lemma_piece_valid(src, span.start as int, span.end as int);
    }
}

/// The bytes that are counted as leading whitespace are whitespace.
proof fn lemma_leading_space(s: Seq<u8>)
    ensures
        crate::text::leading_space(s) <= s.len(),
        crate::text::leading_space(s) > 0 ==> crate::text::is_space(
            s[crate::text::leading_space(s) - 1],
        ),
    decreases s.len(),
{
    reveal_with_fuel(crate::text::leading_space, 2);
    if s.len() > 0 && crate::text::is_space(s[0]) {
        let t = s.drop_first();
        lemma_leading_space(t);
        if crate::text::leading_space(t) > 0 {
            assert(t[crate::text::leading_space(t) - 1] == s[crate::text::leading_space(t) as int]);
        }
    }
}

/// The bytes that are counted as trailing whitespace are whitespace.
proof fn lemma_trailing_space(s: Seq<u8>)
    ensures
        crate::text::trailing_space(s) <= s.len(),
        crate::text::trailing_space(s) > 0 ==> crate::text::is_space(
            s[s.len() - crate::text::trailing_space(s)],
        ),
    decreases s.len(),
{
    reveal_with_fuel(crate::text::trailing_space, 2);
    if s.len() > 0 && crate::text::is_space(s.last()) {
        let t = s.drop_last();
        lemma_trailing_space(t);
        if crate::text::trailing_space(t) > 0 {
            assert(t[t.len() - crate::text::trailing_space(t)] == s[s.len()
                - crate::text::trailing_space(s)]);
        }
    }
}

/// A text that is trimmed is a text.
pub proof fn lemma_trimmed_valid(s: Seq<u8>, start: bool, end: bool)
    requires
        valid_utf8(s),
    ensures
        valid_utf8(crate::text::trimmed(s, start, end)),
{
    lemma_cut_start(s);
    lemma_leading_space(s);
    let ls = crate::text::leading_space(s) as int;
    let a = if start {
        s.subrange(ls, s.len() as int)
    } else {
        s
    };
    if start {
        if ls > 0 {
            lemma_cut_after_ascii(s, ls - 1);
        }
        lemma_piece_valid(s, ls, s.len() as int);
    }
    lemma_cut_start(a);
    lemma_trailing_space(a);
    let ts = crate::text::trailing_space(a) as int;
    if end {
        lemma_piece_valid(a, 0, a.len() - ts);
    }
}

} // verus!
