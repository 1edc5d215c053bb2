//! Byte spans and the small byte-string operations the engine is built from.
use vstd::prelude::*;
use vstd::slice::slice_subrange;

verus! {

/// A half-open range of byte offsets into a template source.
#[derive(Clone, Copy, Debug, PartialEq, Eq, Structural)]
pub struct Span {
    pub start: usize,
    pub end: usize,
}

impl Span {
    /// The span is ordered and lies within a source of `len` bytes.
    pub open spec fn within(self, len: int) -> bool {
        self.start <= self.end && self.end <= len
    }

    /// The bytes of `src` that the span covers; none if the span does not
    /// lie within `src`.
    pub open spec fn of(self, src: Seq<u8>) -> Seq<u8> {
        if self.within(src.len() as int) {
            src.subrange(self.start as int, self.end as int)
        } else {
            Seq::empty()
        }
    }

    pub fn new(start: usize, end: usize) -> (r: Span)
        ensures
            r.start == start,
            r.end == end,
    {
        Span { start, end }
    }

    /// The number of bytes that the span covers.
    pub fn len(&self) -> (r: usize)
        ensures
            r == if self.start <= self.end {
                self.end - self.start
            } else {
                0
            },
    {
        if self.start <= self.end {
            self.end - self.start
        } else {
            0
        }
    }

    pub fn is_empty(&self) -> (r: bool)
        ensures
            r == (self.start >= self.end),
    {
        self.start >= self.end
    }

    /// The covered bytes as a slice of the source.
    pub fn slice<'a>(&self, src: &'a [u8]) -> (r: &'a [u8])
        ensures
            r@ == self.of(src@),
    {
        if self.start <= self.end && self.end <= src.len() {
            slice_subrange(src, self.start, self.end)
        } else {
            slice_subrange(src, 0, 0)
        }
    }
}

/// The UTF-8 bytes of a string.
pub open spec fn bytes_of(s: Seq<char>) -> Seq<u8> {
    vstd::utf8::encode_utf8(s)
}

/// The bytes of a string slice.
pub fn str_bytes<'a>(s: &'a str) -> (r: &'a [u8])
    ensures
        r@ == bytes_of(s@),
{
    s.as_bytes()
}

/// Space, tab, carriage return, line feed, form feed or vertical tab.
pub open spec fn is_space(b: u8) -> bool {
    b == 0x20 || b == 0x09 || b == 0x0a || b == 0x0d || b == 0x0c || b == 0x0b
}

pub fn is_space_byte(b: u8) -> (r: bool)
    ensures
        r == is_space(b),
{
    b == 0x20 || b == 0x09 || b == 0x0a || b == 0x0d || b == 0x0c || b == 0x0b
}

/// Number of leading whitespace bytes of `s`.
pub open spec fn leading_space(s: Seq<u8>) -> nat
    decreases s.len(),
{
    if s.len() > 0 && is_space(s[0]) {
        1 + leading_space(s.drop_first())
    } else {
        0
    }
}

/// Number of trailing whitespace bytes of `s`.
pub open spec fn trailing_space(s: Seq<u8>) -> nat
    decreases s.len(),
{
    if s.len() > 0 && is_space(s.last()) {
        1 + trailing_space(s.drop_last())
    } else {
        0
    }
}

/// `s` without its leading whitespace when `start` is set, and then without
/// its trailing whitespace when `end` is set. Interior whitespace stays.
pub open spec fn trimmed(s: Seq<u8>, start: bool, end: bool) -> Seq<u8> {
    let a = if start {
        s.subrange(leading_space(s) as int, s.len() as int)
    } else {
        s
    };
    if end {
        a.subrange(0, a.len() - trailing_space(a))
    } else {
        a
    }
}

/// Counting leading whitespace from offset `k` on: all of `s[..k]` is
/// whitespace, so the count for `s` is `k` plus the count for the rest.
proof fn lemma_leading_space_step(s: Seq<u8>, k: int)
    requires
        0 <= k <= s.len(),
        forall|i: int| 0 <= i < k ==> is_space(#[trigger] s[i]),
    ensures
        leading_space(s) == k + leading_space(s.subrange(k, s.len() as int)),
    decreases k,
{
    if k == 0 {
        assert(s.subrange(0, s.len() as int) =~= s);
    } else {
        let t = s.drop_first();
        assert forall|i: int| 0 <= i < k - 1 implies is_space(#[trigger] t[i]) by {
            assert(t[i] == s[i + 1]);
        }
        lemma_leading_space_step(t, k - 1);
        assert(t.subrange(k - 1, t.len() as int) =~= s.subrange(k, s.len() as int));
    }
}

proof fn lemma_trailing_space_step(s: Seq<u8>, k: int)
    requires
        0 <= k <= s.len(),
        forall|i: int| s.len() - k <= i < s.len() ==> is_space(#[trigger] s[i]),
    ensures
        trailing_space(s) == k + trailing_space(s.subrange(0, s.len() - k)),
    decreases k,
{
    if k == 0 {
        assert(s.subrange(0, s.len() as int) =~= s);
    } else {
        let t = s.drop_last();
        assert forall|i: int| t.len() - (k - 1) <= i < t.len() implies is_space(#[trigger] t[i]) by {
            assert(t[i] == s[i]);
        }
        lemma_trailing_space_step(t, k - 1);
        assert(t.subrange(0, t.len() - (k - 1)) =~= s.subrange(0, s.len() - k));
    }
}

/// The part of `s` that is left after trimming, as a slice of `s`.
pub fn trim<'a>(s: &'a [u8], start: bool, end: bool) -> (r: &'a [u8])
    ensures
        r@ == trimmed(s@, start, end),
{
    let mut a: usize = 0;
    if start {
        while a < s.len() && is_space_byte(s[a])
            invariant
                a <= s.len(),
                forall|i: int| 0 <= i < a ==> is_space(#[trigger] s@[i]),
            decreases s.len() - a,
        {
            a += 1;
        }
        proof {
            lemma_leading_space_step(s@, a as int);
            let rest = s@.subrange(a as int, s@.len() as int);
            if rest.len() > 0 {
                assert(rest[0] == s@[a as int]);
            }
            assert(leading_space(rest) == 0);
        }
    }
    let ghost mid = s@.subrange(a as int, s@.len() as int);
    assert(mid =~= if start { s@.subrange(leading_space(s@) as int, s@.len() as int) } else { s@ });
    let mut b: usize = s.len();
    if end {
        while b > a && is_space_byte(s[b - 1])
            invariant
                a <= b <= s.len(),
                forall|i: int| b <= i < s.len() ==> is_space(#[trigger] s@[i]),
            decreases b,
        {
            b -= 1;
        }
        proof {
            assert forall|i: int| mid.len() - (s.len() - b) <= i < mid.len() implies is_space(#[trigger] mid[i]) by {
                assert(mid[i] == s@[i + a]);
            }
            lemma_trailing_space_step(mid, s.len() - b);
            let rest = mid.subrange(0, b - a);
            if rest.len() > 0 {
                assert(rest.last() == s@[b - 1]);
            }
            assert(trailing_space(rest) == 0);
        }
    }
    assert(s@.subrange(a as int, b as int) =~= mid.subrange(0, b - a));
    slice_subrange(s, a, b)
}

/// Whether two byte strings are equal.
pub fn bytes_eq(a: &[u8], b: &[u8]) -> (r: bool)
    ensures
        r == (a@ == b@),
{
    if a.len() != b.len() {
        return false;
    }
    let mut i: usize = 0;
    while i < a.len()
        invariant
            i <= a.len(),
            a@.len() == b@.len(),
            forall|k: int| 0 <= k < i ==> a@[k] == b@[k],
        decreases a.len() - i,
    {
        if a[i] != b[i] {
            return false;
        }
        i += 1;
    }
    assert(a@ =~= b@);
    true
}

/// Appends `s` to `out`.
pub fn append(out: &mut Vec<u8>, s: &[u8])
    ensures
        final(out)@ == old(out)@ + s@,
{
    out.extend_from_slice(s);
    assert(out@ =~= old(out)@ + s@);
}

/// The text of one decimal digit.
pub open spec fn digit(d: nat) -> Seq<char> {
    if d == 0 {
        seq!['0']
    } else if d == 1 {
        seq!['1']
    } else if d == 2 {
        seq!['2']
    } else if d == 3 {
        seq!['3']
    } else if d == 4 {
        seq!['4']
    } else if d == 5 {
        seq!['5']
    } else if d == 6 {
        seq!['6']
    } else if d == 7 {
        seq!['7']
    } else if d == 8 {
        seq!['8']
    } else {
        seq!['9']
    }
}

/// The decimal text of a number.
pub open spec fn decimal(n: nat) -> Seq<char>
    decreases n,
{
    if n < 10 {
        digit(n)
    } else {
        decimal(n / 10) + digit(n % 10)
    }
}

fn digit_text(d: usize) -> (r: &'static str)
    requires
        d < 10,
    ensures
        r@ == digit(d as nat),
{
    proof {
        reveal_strlit("0");
        reveal_strlit("1");
        reveal_strlit("2");
        reveal_strlit("3");
        reveal_strlit("4");
        reveal_strlit("5");
        reveal_strlit("6");
        reveal_strlit("7");
        reveal_strlit("8");
        reveal_strlit("9");
    }
    let r = if d == 0 {
        "0"
    } else if d == 1 {
        "1"
    } else if d == 2 {
        "2"
    } else if d == 3 {
        "3"
    } else if d == 4 {
        "4"
    } else if d == 5 {
        "5"
    } else if d == 6 {
        "6"
    } else if d == 7 {
        "7"
    } else if d == 8 {
        "8"
    } else {
        "9"
    };
    assert(r@ =~= digit(d as nat));
    r
}

/// The decimal text of a number.
pub fn to_decimal(n: usize) -> (r: String)
    ensures
        r@ == decimal(n as nat),
    decreases n,
{
    if n < 10 {
        digit_text(n).to_owned()
    } else {
        let mut s = to_decimal(n / 10);
        vstd::string::StringExecFns::append(&mut s, digit_text(n % 10));
        s
    }
}

/// The bytes of an ASCII text are its characters.
pub proof fn lemma_ascii_bytes(s: Seq<char>)
    requires
        vstd::utf8::is_ascii_chars(s),
    ensures
        bytes_of(s).len() == s.len(),
        forall|i: int| 0 <= i < s.len() ==> (#[trigger] bytes_of(s)[i]) == s[i] as u8,
{
    vstd::utf8::is_ascii_chars_encode_utf8(s);
}

} // verus!
