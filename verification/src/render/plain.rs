//! Templates without tags.
use vstd::prelude::*;
use crate::escape::Escape;
use crate::helper::{BlockHelper, Helper};
use crate::json::JsonView;
use crate::lexer::grammar::{open2, scan, tokens_from, Mode, Outer, Run};
use crate::lexer::scan::lemma_run_end_bounds;
use crate::parser::ast::{NodeView, Text};
use crate::parser::block::{document, flush, initial, run_from, step, ParserView};
use crate::parser::run::{lemma_run_first, lemma_run_none};
use crate::registry::Registry;
use crate::render::scope::ScopeView;
use crate::render::spec::{render_node, render_nodes};
use crate::text::{trimmed, Span};

verus! {

/// Whether a source holds no tag: `{{` stands nowhere in it.
pub open spec fn no_tags(src: Seq<u8>) -> bool {
    forall|i: int| 0 <= i < src.len() ==> !open2(src, i)
}

/// Whether a document is the whole of a source as one text, or nothing
/// for a source without bytes.
pub open spec fn is_plain(n: NodeView, len: nat) -> bool {
    n matches NodeView::Document(b) && if len == 0 {
        b.nodes.len() == 0
    } else {
        b.nodes.len() == 1 && (b.nodes[0] matches NodeView::Text(t) && t.span == Span {
            start: 0,
            end: len as usize,
        })
    }
}

/// The state of the parser after the first `pos` bytes of a source without
/// tags: only the document is open, and the bytes are text that has not
/// yet been added to it.
pub open spec fn gathering(s: ParserView, pos: int) -> bool {
    &&& s.stack.len() == 1
    &&& s.stack[0].nodes.len() == 0
    &&& s.parameters is None
    &&& if pos == 0 {
        s.text is None
    } else {
        s.text matches Some(t) && t.span == Span { start: 0, end: pos as usize }
    }
}

/// A source without tags is gathered as one text.
proof fn lemma_gather(file: Seq<char>, src: Seq<u8>, s: ParserView, pos: int)
    requires
        no_tags(src),
        0 <= pos <= src.len(),
        src.len() <= usize::MAX,
        gathering(s, pos),
    ensures
        run_from(file, src, s, tokens_from(src, pos, Mode::Outer), 0) matches Ok(n) && is_plain(
            n,
            src.len(),
        ),
    decreases src.len() - pos,
{
    reveal_with_fuel(tokens_from, 2);
    if pos >= src.len() {
        lemma_run_none(file, src, s);
        let stack = flush(s.stack, s.text);
        if pos > 0 {
            assert(stack.len() == 1);
            assert(stack[0].nodes.len() == 1);
        }
    } else {
        assert(!open2(src, pos));
        if pos + 1 < src.len() {
            assert(!open2(src, pos + 1));
        }
        let step0 = scan(src, pos, Mode::Outer);
        lemma_run_end_bounds(Run::Text, src, pos + 1);
        let end = step0.0.spec_span().end as int;
        assert(pos < end <= src.len());
        assert(step0.1 == Mode::Outer);
        assert(step0.0.spec_is_text());
        let rest = tokens_from(src, end, Mode::Outer);
        lemma_run_first(file, src, s, step0.0, rest);
        let next = step(file, src, s, step0.0)->Ok_0;
        assert(gathering(next, end));
        lemma_gather(file, src, next, end);
    }
}

/// A template without tags compiles, and renders to its source: whatever
/// the data, the helpers and the escape function are.
pub proof fn lemma_no_tags_verbatim<H: Helper, B: BlockHelper, E: Escape>(
    reg: Registry<H, B, E>,
    file: Seq<char>,
    line: usize,
    src: Seq<u8>,
    data: JsonView,
    depth: nat,
)
    requires
        no_tags(src),
        src.len() <= usize::MAX,
    ensures
        document(file, line, src) matches Ok(n) && render_node(
            reg,
            src,
            data,
            Seq::<ScopeView>::empty(),
            n,
            false,
            false,
            depth,
        ) == Ok::<Seq<u8>, crate::error::render::RenderErrorView>(src),
{
    lemma_gather(file, src, initial(line), 0);
    let n = document(file, line, src)->Ok_0;
    let b = n->Document_0;
    let scopes = Seq::<ScopeView>::empty();
    reveal_with_fuel(render_node, 2);
    reveal_with_fuel(render_nodes, 3);
    if src.len() == 0 {
        assert(render_nodes(reg, src, data, scopes, b.nodes, 0, false, false, Seq::empty(), depth)
            == Ok::<Seq<u8>, crate::error::render::RenderErrorView>(Seq::empty()));
        assert(src =~= Seq::<u8>::empty());
    } else {
        let t = b.nodes[0]->Text_0;
        assert(t.span.of(src) =~= src);
        assert(trimmed(src, false, false) == src);
        assert(Seq::<u8>::empty() + src =~= src);
    }
}

} // verus!
