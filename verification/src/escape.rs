//! Escaping of what a template gives, so that it can stand in HTML.
use vstd::prelude::*;
use crate::text::append;

verus! {

/// The bytes that stand for one byte in HTML: an entity for each of
/// `&`, `<`, `>`, `"`, `'` and `` ` ``, and the byte itself for any other.
pub open spec fn entity(b: u8) -> Seq<u8> {
    if b == 0x26 {
        seq![0x26u8, 0x61, 0x6d, 0x70, 0x3b]
    } else if b == 0x3c {
        seq![0x26u8, 0x6c, 0x74, 0x3b]
    } else if b == 0x3e {
        seq![0x26u8, 0x67, 0x74, 0x3b]
    } else if b == 0x22 {
        seq![0x26u8, 0x71, 0x75, 0x6f, 0x74, 0x3b]
    } else if b == 0x27 {
        seq![0x26u8, 0x23, 0x78, 0x32, 0x37, 0x3b]
    } else if b == 0x60 {
        seq![0x26u8, 0x23, 0x78, 0x36, 0x30, 0x3b]
    } else {
        seq![b]
    }
}

/// Whether a byte is one of those that are escaped.
pub open spec fn is_special(b: u8) -> bool {
    b == 0x26 || b == 0x3c || b == 0x3e || b == 0x22 || b == 0x27 || b == 0x60
}

/// A text with each of its bytes replaced by what stands for it in HTML.
pub open spec fn escaped(s: Seq<u8>) -> Seq<u8>
    decreases s.len(),
{
    if s.len() == 0 {
        Seq::empty()
    } else {
        escaped(s.drop_last()) + entity(s.last())
    }
}

/// Whether a text holds a byte that is escaped.
pub open spec fn has_special(s: Seq<u8>) -> bool {
    exists|i: int| 0 <= i < s.len() && is_special(#[trigger] s[i])
}

/// An escape function: how what a `{{...}}` statement gives is written.
pub trait Escape {
    /// What the function makes of a text. Where an escape function does
    /// not say, it is some function of the text.
    open spec fn apply(&self, s: Seq<u8>) -> Seq<u8> {
        arbitrary()
    }

    fn escape(&self, s: &[u8]) -> (r: Vec<u8>)
        ensures
            r@ == self.apply(s@),
    ;
}

/// The escape function for HTML.
#[derive(Clone, Copy, Debug)]
pub struct HtmlEscape;

impl Escape for HtmlEscape {
    open spec fn apply(&self, s: Seq<u8>) -> Seq<u8> {
        escaped(s)
    }

    fn escape(&self, s: &[u8]) -> (r: Vec<u8>) {
        html_escape(s)
    }
}

/// The escape function that leaves every text as it is.
#[derive(Clone, Copy, Debug)]
pub struct NoEscape;

impl Escape for NoEscape {
    open spec fn apply(&self, s: Seq<u8>) -> Seq<u8> {
        s
    }

    fn escape(&self, s: &[u8]) -> (r: Vec<u8>) {
        let mut out: Vec<u8> = Vec::new();
        append(&mut out, s);
        assert(out@ =~= s@);
        out
    }
}

/// Escapes a text for HTML.
pub fn html_escape(s: &[u8]) -> (r: Vec<u8>)
    ensures
        r@ == escaped(s@),
{
    let mut out: Vec<u8> = Vec::new();
    let mut i: usize = 0;
    assert(escaped(s@.subrange(0, 0)) =~= Seq::<u8>::empty());
    while i < s.len()
        invariant
            i <= s.len(),
            out@ == escaped(s@.subrange(0, i as int)),
        decreases s.len() - i,
    {
        let b = s[i];
        proof {
            let t = s@.subrange(0, i + 1);
            assert(t.drop_last() =~= s@.subrange(0, i as int));
            assert(t.last() == b);
            assert(escaped(t) == escaped(t.drop_last()) + entity(t.last()));
        }
        let ghost before = out@;
        if b == 0x26 {
            out.push(0x26);
            out.push(0x61);
            out.push(0x6d);
            out.push(0x70);
            out.push(0x3b);
        } else if b == 0x3c {
            out.push(0x26);
            out.push(0x6c);
            out.push(0x74);
            out.push(0x3b);
        } else if b == 0x3e {
            out.push(0x26);
            out.push(0x67);
            out.push(0x74);
            out.push(0x3b);
        } else if b == 0x22 {
            out.push(0x26);
            out.push(0x71);
            out.push(0x75);
            out.push(0x6f);
            out.push(0x74);
            out.push(0x3b);
        } else if b == 0x27 {
            out.push(0x26);
            out.push(0x23);
            out.push(0x78);
            out.push(0x32);
            out.push(0x37);
            out.push(0x3b);
        } else if b == 0x60 {
            out.push(0x26);
            out.push(0x23);
            out.push(0x78);
            out.push(0x36);
            out.push(0x30);
            out.push(0x3b);
        } else {
            out.push(b);
        }
        assert(out@ =~= before + entity(b));
        i += 1;
    }
    assert(s@.subrange(0, s@.len() as int) =~= s@);
    out
}

/// Escaping never makes a text shorter, and keeps the length only of a
/// text without a byte that is escaped; such a text it leaves as it is.
pub proof fn lemma_escaped_len(s: Seq<u8>)
    ensures
        escaped(s).len() >= s.len(),
        has_special(s) ==> escaped(s).len() > s.len(),
        !has_special(s) ==> escaped(s) == s,
    decreases s.len(),
{
    if s.len() == 0 {
        assert(escaped(s) =~= s);
    } else {
        let t = s.drop_last();
        lemma_escaped_len(t);
        assert(escaped(s) == escaped(t) + entity(s.last()));
        if has_special(s) {
            let i = choose|i: int| 0 <= i < s.len() && is_special(#[trigger] s[i]);
            if i < s.len() - 1 {
                assert(is_special(t[i]));
            }
        } else {
            assert forall|i: int| 0 <= i < t.len() implies !is_special(#[trigger] t[i]) by {
                assert(t[i] == s[i]);
            }
            assert(!is_special(s[s.len() - 1]));
            assert(escaped(s) =~= s);
        }
    }
}

/// What is escaped holds `&` wherever the text held a byte that is escaped.
pub proof fn lemma_escaped_special(s: Seq<u8>)
    requires
        has_special(s),
    ensures
        has_special(escaped(s)),
    decreases s.len(),
{
    let t = s.drop_last();
    assert(escaped(s) == escaped(t) + entity(s.last()));
    if is_special(s.last()) {
        let k = escaped(t).len() as int;
        assert(entity(s.last())[0] == 0x26);
        assert(escaped(s)[k] == 0x26);
        assert(is_special(escaped(s)[k]));
    } else {
        let i = choose|i: int| 0 <= i < s.len() && is_special(#[trigger] s[i]);
        assert(is_special(t[i]));
        lemma_escaped_special(t);
        let j = choose|j: int| 0 <= j < escaped(t).len() && is_special(#[trigger] escaped(t)[j]);
        assert(escaped(s)[j] == escaped(t)[j]);
    }
}

/// Escaping for HTML is idempotent on a text exactly if the text holds no
/// byte that is escaped: what was escaped is escaped again.
pub proof fn lemma_escape_idempotent(s: Seq<u8>)
    ensures
        escaped(escaped(s)) == escaped(s) <==> !has_special(s),
{
    lemma_escaped_len(s);
    lemma_escaped_len(escaped(s));
    if has_special(s) {
        lemma_escaped_special(s);
    }
}

/// Escaping goes piece by piece.
pub proof fn lemma_escaped_concat(a: Seq<u8>, b: Seq<u8>)
    ensures
        escaped(a + b) == escaped(a) + escaped(b),
    decreases b.len(),
{
    reveal_with_fuel(escaped, 2);
    if b.len() == 0 {
        assert(a + b =~= a);
        assert(escaped(a) + escaped(b) =~= escaped(a));
    } else {
        let c = a + b;
        assert(c.drop_last() =~= a + b.drop_last());
        assert(c.last() == b.last());
        lemma_escaped_concat(a, b.drop_last());
        assert(escaped(a) + (escaped(b.drop_last()) + entity(b.last())) =~= (escaped(a) + escaped(
            b.drop_last(),
        )) + entity(b.last()));
    }
}

/// What stands for a byte in HTML is ASCII where the byte is.
proof fn lemma_entity_ascii(b: u8)
    requires
        b < 0x80,
    ensures
        forall|i: int| 0 <= i < entity(b).len() ==> (#[trigger] entity(b)[i]) < 0x80,
{
}

/// Escaping a text for HTML gives a text.
pub proof fn lemma_escaped_valid(s: Seq<u8>)
    requires
        vstd::utf8::valid_utf8(s),
    ensures
        vstd::utf8::valid_utf8(escaped(s)),
    decreases s.len(),
{
    reveal_with_fuel(vstd::utf8::valid_utf8, 2);
    if s.len() == 0 {
        reveal_with_fuel(escaped, 2);
    } else {
        let k = vstd::utf8::length_of_first_scalar(s);
        let head = s.subrange(0, k);
        let tail = vstd::utf8::pop_first_scalar(s);
        assert(s =~= head + tail);
        lemma_escaped_concat(head, tail);
        lemma_escaped_valid(tail);
        if k == 1 {
            reveal_with_fuel(escaped, 3);
            assert(head.drop_last() =~= Seq::<u8>::empty());
            assert(escaped(head) =~= entity(s[0]));
            lemma_entity_ascii(s[0]);
            crate::lexer::chars::lemma_ascii_valid(entity(s[0]));
        } else {
            assert forall|i: int| 0 <= i < head.len() implies !is_special(#[trigger] head[i]) by {
                assert(head[i] == s[i]);
            }
            lemma_escaped_len(head);
            crate::lexer::chars::lemma_cut_start(s);
            if k < s.len() {
                assert(tail[0] == s[k]);
                assert(vstd::utf8::valid_first_scalar(tail));
            }
            crate::lexer::chars::lemma_piece_valid(s, 0, k);
        }
        vstd::utf8::valid_utf8_concat(escaped(head), escaped(tail));
    }
}

} // verus!
