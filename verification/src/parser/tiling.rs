//! How the nodes of a document cover its source: without a gap, without an
//! overlap, and in order.
use vstd::prelude::*;
use crate::parser::ast::{
    block_view, call_view, lemma_node_views, node_view, node_views, Block, BlockView, Node,
    NodeView,
};
use crate::parser::block::{close_name, name_matches, open_start};
use crate::text::{append, Span};

verus! {

/// The byte at which a node starts.
pub open spec fn start_of(n: NodeView) -> int {
    match n {
        NodeView::Text(t) => t.span.start as int,
        NodeView::Statement(c) => c.open.start as int,
        NodeView::Document(_) => 0,
        NodeView::Block(b) => open_start(b) as int,
        NodeView::RawBlock(b) => open_start(b) as int,
        NodeView::RawStatement(b) => open_start(b) as int,
        NodeView::RawComment(b) => open_start(b) as int,
        NodeView::Comment(b) => open_start(b) as int,
    }
}

/// Whether every one of the nodes is text.
pub open spec fn all_text(nodes: Seq<NodeView>) -> bool {
    forall|i: int| 0 <= i < nodes.len() ==> (#[trigger] nodes[i]) is Text
}

/// Whether a block covers the bytes from `a` to `b`: its opening tag
/// starts at `a`, its closing tag ends at `b`, and its nodes cover what is
/// between the tags. With `raw` its nodes are text and nothing else; with
/// `braces` its closing tag has that many braces and gives its name.
pub open spec fn covers_block(src: Seq<u8>, blk: BlockView, a: int, b: int, raw: bool, braces: int) -> bool
    decreases blk, 1int,
{
    &&& blk.open matches Some(o)
    &&& blk.close matches Some(c)
    &&& o.start == a
    &&& a <= o.end <= c.start <= c.end
    &&& c.end == b
    &&& covers_nodes(src, blk.nodes, o.end as int, c.start as int)
    &&& raw ==> all_text(blk.nodes)
    &&& braces > 0 ==> name_matches(src, blk, close_name(src, c, braces))
}

/// Whether a node covers the bytes from `a` to `b` of the source, and each
/// node within it covers its part in the same way. The name in the closing
/// tag of a block is the name in its opening tag.
pub open spec fn covers(src: Seq<u8>, n: NodeView, a: int, b: int) -> bool
    decreases n, 2int,
{
    &&& 0 <= a <= b <= src.len()
    &&& match n {
        NodeView::Text(t) => t.span.start == a && t.span.end == b,
        NodeView::Statement(c) => c.open.start == a && c.close.end == b,
        NodeView::Document(blk) => a == 0 && covers_nodes(src, blk.nodes, a, b),
        NodeView::Block(blk) => covers_block(src, blk, a, b, false, 2),
        NodeView::RawBlock(blk) => covers_block(src, blk, a, b, true, 4),
        NodeView::RawStatement(blk) => covers_block(src, blk, a, b, true, 0),
        NodeView::RawComment(blk) => covers_block(src, blk, a, b, true, 0),
        NodeView::Comment(blk) => covers_block(src, blk, a, b, true, 0),
    }
}

/// Whether nodes that stand side by side cover the bytes from `a` to `b`:
/// each starts where the one before it ends, and none is a document.
pub open spec fn covers_nodes(src: Seq<u8>, nodes: Seq<NodeView>, a: int, b: int) -> bool
    decreases nodes, 0int,
{
    if nodes.len() == 0 {
        a == b && 0 <= a <= src.len()
    } else {
        let m = start_of(nodes.last());
        covers_nodes(src, nodes.drop_last(), a, m) && covers(src, nodes.last(), m, b) && !(
        nodes.last() is Document)
    }
}

/// The source text of a node: what it is printed as. A block is printed as
/// its opening tag, its nodes and its closing tag.
pub open spec fn printed(src: Seq<u8>, n: NodeView) -> Seq<u8>
    decreases n, 1int,
{
    match n {
        NodeView::Text(t) => t.span.of(src),
        NodeView::Statement(c) => (Span { start: c.open.start, end: c.close.end }).of(src),
        NodeView::Document(b) => printed_nodes(src, b.nodes),
        NodeView::Block(b) => printed_block(src, b),
        NodeView::RawBlock(b) => printed_block(src, b),
        NodeView::RawStatement(b) => printed_block(src, b),
        NodeView::RawComment(b) => printed_block(src, b),
        NodeView::Comment(b) => printed_block(src, b),
    }
}

/// The source text of a block: its tags around its nodes.
pub open spec fn printed_block(src: Seq<u8>, b: BlockView) -> Seq<u8>
    decreases b, 0int,
{
    tag_text(src, b.open) + printed_nodes(src, b.nodes) + tag_text(src, b.close)
}

/// The text of a tag that may be missing.
pub open spec fn tag_text(src: Seq<u8>, tag: Option<Span>) -> Seq<u8> {
    match tag {
        Some(s) => s.of(src),
        None => Seq::empty(),
    }
}

/// The source text of nodes that stand side by side.
pub open spec fn printed_nodes(src: Seq<u8>, nodes: Seq<NodeView>) -> Seq<u8>
    decreases nodes, 0int,
{
    if nodes.len() == 0 {
        Seq::empty()
    } else {
        printed_nodes(src, nodes.drop_last()) + printed(src, nodes.last())
    }
}

/// Nodes that cover a range lie within the source, in order.
pub proof fn lemma_covers_nodes_bounds(src: Seq<u8>, nodes: Seq<NodeView>, a: int, b: int)
    requires
        covers_nodes(src, nodes, a, b),
    ensures
        0 <= a <= b <= src.len(),
    decreases nodes.len(),
{
    reveal_with_fuel(covers_nodes, 2);
    reveal_with_fuel(covers, 2);
    if nodes.len() > 0 {
        lemma_covers_nodes_bounds(src, nodes.drop_last(), a, start_of(nodes.last()));
    }
}

/// Nodes that cover a range, and a node that covers what follows, cover
/// both together.
pub proof fn lemma_covers_push(src: Seq<u8>, nodes: Seq<NodeView>, n: NodeView, a: int, m: int, b: int)
    requires
        covers_nodes(src, nodes, a, m),
        covers(src, n, m, b),
        start_of(n) == m,
        !(n is Document),
    ensures
        covers_nodes(src, nodes.push(n), a, b),
{
    reveal_with_fuel(covers_nodes, 2);
    assert(nodes.push(n).drop_last() =~= nodes);
    assert(nodes.push(n).last() == n);
}

/// A node that covers a range of the source is printed as that range.
pub proof fn lemma_printed(src: Seq<u8>, n: NodeView, a: int, b: int)
    requires
        covers(src, n, a, b),
        src.len() <= usize::MAX,
    ensures
        printed(src, n) == src.subrange(a, b),
    decreases n, 2int,
{
    reveal_with_fuel(covers, 2);
    reveal_with_fuel(printed, 2);
    match n {
        NodeView::Text(t) => {},
        NodeView::Statement(c) => {},
        NodeView::Document(blk) => {
            lemma_printed_nodes(src, blk.nodes, a, b);
        },
        NodeView::Block(blk) => {
            lemma_printed_block(src, blk, a, b, false, 2);
        },
        NodeView::RawBlock(blk) => {
            lemma_printed_block(src, blk, a, b, true, 4);
        },
        NodeView::RawStatement(blk) => {
            lemma_printed_block(src, blk, a, b, true, 0);
        },
        NodeView::RawComment(blk) => {
            lemma_printed_block(src, blk, a, b, true, 0);
        },
        NodeView::Comment(blk) => {
            lemma_printed_block(src, blk, a, b, true, 0);
        },
    }
}

/// A block that covers a range of the source is printed as that range.
pub proof fn lemma_printed_block(src: Seq<u8>, blk: BlockView, a: int, b: int, raw: bool, braces: int)
    requires
        covers_block(src, blk, a, b, raw, braces),
        0 <= a <= b <= src.len(),
        src.len() <= usize::MAX,
    ensures
        printed_block(src, blk) == src.subrange(a, b),
    decreases blk, 1int,
{
    reveal_with_fuel(covers_block, 2);
    reveal_with_fuel(printed_block, 2);
    let o = blk.open->Some_0;
    let c = blk.close->Some_0;
    lemma_printed_nodes(src, blk.nodes, o.end as int, c.start as int);
    assert(o.of(src) == src.subrange(a, o.end as int));
    assert(c.of(src) == src.subrange(c.start as int, b));
    assert(src.subrange(a, o.end as int) + src.subrange(o.end as int, c.start as int)
        + src.subrange(c.start as int, b) =~= src.subrange(a, b));
}

/// Nodes that cover a range of the source are printed as that range.
pub proof fn lemma_printed_nodes(src: Seq<u8>, nodes: Seq<NodeView>, a: int, b: int)
    requires
        covers_nodes(src, nodes, a, b),
        src.len() <= usize::MAX,
    ensures
        printed_nodes(src, nodes) == src.subrange(a, b),
    decreases nodes, 0int,
{
    reveal_with_fuel(covers_nodes, 2);
    reveal_with_fuel(printed_nodes, 2);
    if nodes.len() == 0 {
        assert(src.subrange(a, b) =~= Seq::<u8>::empty());
    } else {
        let m = start_of(nodes.last());
        lemma_covers_nodes_bounds(src, nodes.drop_last(), a, m);
        lemma_printed_nodes(src, nodes.drop_last(), a, m);
        lemma_printed(src, nodes.last(), m, b);
        reveal_with_fuel(covers, 2);
        assert(src.subrange(a, m) + src.subrange(m, b) =~= src.subrange(a, b));
    }
}

/// The byte at which a node ends.
pub open spec fn end_of(n: NodeView) -> int {
    match n {
        NodeView::Text(t) => t.span.end as int,
        NodeView::Statement(c) => c.close.end as int,
        NodeView::Document(b) => block_end(b),
        NodeView::Block(b) => block_end(b),
        NodeView::RawBlock(b) => block_end(b),
        NodeView::RawStatement(b) => block_end(b),
        NodeView::RawComment(b) => block_end(b),
        NodeView::Comment(b) => block_end(b),
    }
}

/// The byte at which the closing tag of a block ends.
pub open spec fn block_end(b: BlockView) -> int {
    match b.close {
        Some(c) => c.end as int,
        None => 0,
    }
}

/// The texts of nodes that stand side by side, each from its first byte
/// to its last, one after the other.
pub open spec fn joined(src: Seq<u8>, nodes: Seq<NodeView>) -> Seq<u8>
    decreases nodes.len(),
{
    if nodes.len() == 0 {
        Seq::empty()
    } else {
        joined(src, nodes.drop_last()) + src.subrange(start_of(nodes.last()), end_of(nodes.last()))
    }
}

/// A node that covers a range ends at the end of the range, unless it is
/// the document.
pub proof fn lemma_covers_end(src: Seq<u8>, n: NodeView, a: int, b: int)
    requires
        covers(src, n, a, b),
        !(n is Document),
    ensures
        end_of(n) == b,
{
    reveal_with_fuel(covers, 2);
    reveal_with_fuel(covers_block, 2);
}

/// The texts of nodes that cover a range of the source make up that range.
pub proof fn lemma_joined(src: Seq<u8>, nodes: Seq<NodeView>, a: int, b: int)
    requires
        covers_nodes(src, nodes, a, b),
    ensures
        joined(src, nodes) == src.subrange(a, b),
    decreases nodes.len(),
{
    reveal_with_fuel(covers_nodes, 2);
    reveal_with_fuel(joined, 2);
    if nodes.len() == 0 {
        assert(src.subrange(a, b) =~= Seq::<u8>::empty());
    } else {
        let last = nodes.last();
        let m = start_of(last);
        let rest = nodes.drop_last();
        lemma_covers_nodes_bounds(src, rest, a, m);
        lemma_joined(src, rest, a, m);
        lemma_covers_end(src, last, m, b);
        reveal_with_fuel(covers, 2);
        assert(src.subrange(a, m) + src.subrange(m, b) =~= src.subrange(a, b));
    }
}

/// Whether the closing tag of each block within a node gives the name
/// that the opening tag of the block gives.
pub open spec fn names_agree(src: Seq<u8>, n: NodeView) -> bool
    decreases n, 1int,
{
    match n {
        NodeView::Block(b) => (b.close matches Some(c) && name_matches(
            src,
            b,
            close_name(src, c, 2),
        )) && names_agree_in(src, b.nodes),
        NodeView::RawBlock(b) => b.close matches Some(c) && name_matches(
            src,
            b,
            close_name(src, c, 4),
        ),
        NodeView::Document(b) => names_agree_in(src, b.nodes),
        _ => true,
    }
}

/// Whether the names agree within each of the nodes.
pub open spec fn names_agree_in(src: Seq<u8>, nodes: Seq<NodeView>) -> bool
    decreases nodes, 0int,
{
    if nodes.len() == 0 {
        true
    } else {
        names_agree_in(src, nodes.drop_last()) && names_agree(src, nodes.last())
    }
}

/// In a node that covers a range of the source, the names agree.
pub proof fn lemma_names_agree(src: Seq<u8>, n: NodeView, a: int, b: int)
    requires
        covers(src, n, a, b),
    ensures
        names_agree(src, n),
    decreases n, 1int,
{
    reveal_with_fuel(covers, 2);
    reveal_with_fuel(covers_block, 2);
    reveal_with_fuel(names_agree, 2);
    match n {
        NodeView::Block(blk) => {
            lemma_names_agree_in(
                src,
                blk.nodes,
                blk.open->Some_0.end as int,
                blk.close->Some_0.start as int,
            );
        },
        NodeView::Document(blk) => {
            lemma_names_agree_in(src, blk.nodes, a, b);
        },
        _ => {},
    }
}

/// In nodes that cover a range of the source, the names agree.
pub proof fn lemma_names_agree_in(src: Seq<u8>, nodes: Seq<NodeView>, a: int, b: int)
    requires
        covers_nodes(src, nodes, a, b),
    ensures
        names_agree_in(src, nodes),
    decreases nodes, 0int,
{
    reveal_with_fuel(covers_nodes, 2);
    reveal_with_fuel(names_agree_in, 2);
    if nodes.len() > 0 {
        let m = start_of(nodes.last());
        lemma_names_agree_in(src, nodes.drop_last(), a, m);
        lemma_names_agree(src, nodes.last(), m, b);
    }
}

/// The text of a tag that may be missing, as a slice of the source.
fn tag_slice<'a>(src: &'a [u8], tag: Option<Span>) -> (r: &'a [u8])
    ensures
        r@ == tag_text(src@, tag),
{
    match tag {
        Some(s) => s.slice(src),
        None => (Span { start: 0, end: 0 }).slice(src),
    }
}

impl Node {
    /// Prints the node: adds its source text to `out`.
    pub fn print(&self, src: &[u8], out: &mut Vec<u8>)
        ensures
            final(out)@ == old(out)@ + printed(src@, self@),
        decreases self, 1int,
    {
        proof {
            reveal_with_fuel(node_view, 2);
            reveal_with_fuel(call_view, 2);
            reveal_with_fuel(printed, 2);
        }
        match self {
            Node::Text(t) => append(out, t.span.slice(src)),
            Node::Statement(c) => append(
                out,
                (Span { start: c.open.start, end: c.close.end }).slice(src),
            ),
            Node::Document(b) => {
                proof {
                    reveal_with_fuel(block_view, 2);
                }
                print_nodes(&b.nodes, src, out)
            },
            Node::Block(b) => b.print(src, out),
            Node::RawBlock(b) => b.print(src, out),
            Node::RawStatement(b) => b.print(src, out),
            Node::RawComment(b) => b.print(src, out),
            Node::Comment(b) => b.print(src, out),
        }
    }
}

impl Block {
    /// Prints the block: adds its tags and, between them, its nodes to `out`.
    pub fn print(&self, src: &[u8], out: &mut Vec<u8>)
        ensures
            final(out)@ == old(out)@ + printed_block(src@, self@),
        decreases self, 0int,
    {
        proof {
            reveal_with_fuel(block_view, 2);
            reveal_with_fuel(printed_block, 2);
        }
        append(out, tag_slice(src, self.open));
        print_nodes(&self.nodes, src, out);
        append(out, tag_slice(src, self.close));
        assert(out@ =~= old(out)@ + printed_block(src@, self@));
    }
}

/// Prints nodes that stand side by side.
pub fn print_nodes(nodes: &Vec<Node>, src: &[u8], out: &mut Vec<u8>)
    ensures
        final(out)@ == old(out)@ + printed_nodes(src@, node_views(nodes@)),
    decreases nodes, 0int,
{
    let mut i: usize = 0;
    proof {
        lemma_node_views(nodes@);
        reveal_with_fuel(printed_nodes, 2);
        assert(node_views(nodes@).subrange(0, 0) =~= Seq::<NodeView>::empty());
        assert(out@ =~= old(out)@ + printed_nodes(src@, node_views(nodes@).subrange(0, 0)));
    }
    while i < nodes.len()
        invariant
            i <= nodes.len(),
            node_views(nodes@).len() == nodes.len(),
            out@ == old(out)@ + printed_nodes(src@, node_views(nodes@).subrange(0, i as int)),
        decreases nodes.len() - i,
    {
        proof {
            lemma_node_views(nodes@);
            reveal_with_fuel(printed_nodes, 2);
            assert(decreases_to!(nodes => nodes[i as int]));
            let upto = node_views(nodes@).subrange(0, i + 1);
            assert(upto.drop_last() =~= node_views(nodes@).subrange(0, i as int));
            assert(upto.last() == nodes[i as int]@);
        }
        let ghost before = out@;
        nodes[i].print(src, out);
        assert(out@ =~= old(out)@ + printed_nodes(src@, node_views(nodes@).subrange(0, i + 1)));
        i += 1;
    }
    assert(node_views(nodes@).subrange(0, nodes.len() as int) =~= node_views(nodes@));
}

} // verus!
