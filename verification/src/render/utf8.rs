//! What is rendered is text: from templates whose sources are UTF-8 text,
//! and with an escape function that gives text for text, rendering gives
//! UTF-8 text.
use vstd::prelude::*;
use vstd::utf8::{valid_utf8, valid_utf8_concat};
use crate::escape::{lemma_escaped_valid, Escape};
use crate::helper::{BlockHelper, Helper};
use crate::json::{text_bytes, JsonView};
use crate::lexer::chars::{lemma_span_valid, lemma_trimmed_valid};
use crate::parser::align::{aligned, aligned_nodes, lemma_aligned_at};
use crate::parser::ast::{BlockView, NodeView};
use crate::registry::{rendered_by_name, Escaper, Registry, PARTIAL_DEPTH};
use crate::render::scope::ScopeView;
use crate::render::spec::{
    between, block_plan, partial_of, render_each, render_node, render_nodes, statement_text,
    unescaped_statement, written,
};
use crate::table::{lemma_find_bounds, lookup};
use crate::template::Template;
use crate::text::{bytes_of, Span};

verus! {

/// Whether the escape function of a registry gives text for text.
pub open spec fn keeps_text<H, B, E: Escape>(reg: Registry<H, B, E>) -> bool {
    forall|s: Seq<u8>| valid_utf8(s) ==> valid_utf8(#[trigger] reg.escape.apply(s))
}

/// Whether a template is text: its source is UTF-8 text, and its document
/// is aligned with the characters of the source.
pub open spec fn is_text(t: Template) -> bool {
    valid_utf8(t.source@) && aligned(t.source@, t.node@)
}

/// Whether each of the templates of a registry is text.
pub open spec fn text_templates<H, B, E>(reg: Registry<H, B, E>) -> bool {
    forall|i: int| 0 <= i < reg.templates.entries@.len() ==> is_text(
        (#[trigger] reg.templates.entries@[i]).1,
    )
}

/// The escape function for HTML gives text for text.
pub proof fn lemma_html_keeps_text<H, B, E: Escape>(reg: Registry<H, B, E>)
    requires
        reg.escape is Html,
    ensures
        keeps_text(reg),
{
    assert forall|s: Seq<u8>| valid_utf8(s) implies valid_utf8(#[trigger] reg.escape.apply(s)) by {
        lemma_escaped_valid(s);
    }
}

/// The text that a value is written as is text.
pub proof fn lemma_text_bytes_valid(v: JsonView)
    ensures
        valid_utf8(text_bytes(v)),
{
    match v {
        JsonView::Null => {},
        JsonView::Bool(b) => {
            vstd::utf8::encode_utf8_valid_utf8("true"@);
            vstd::utf8::encode_utf8_valid_utf8("false"@);
        },
        JsonView::Number(n) => {
            vstd::utf8::encode_utf8_valid_utf8(n);
        },
        JsonView::String(s) => {
            vstd::utf8::encode_utf8_valid_utf8(s);
        },
        _ => {
            vstd::utf8::encode_utf8_valid_utf8(crate::outside::json_text(v));
        },
    }
}

/// What a node renders to is text.
pub proof fn lemma_render_node_text<H: Helper, B: BlockHelper, E: Escape>(
    reg: Registry<H, B, E>,
    src: Seq<u8>,
    root: JsonView,
    scopes: Seq<ScopeView>,
    n: NodeView,
    before: bool,
    after: bool,
    depth: nat,
)
    requires
        keeps_text(reg),
        text_templates(reg),
        valid_utf8(src),
        aligned(src, n),
    ensures
        render_node(reg, src, root, scopes, n, before, after, depth) matches Ok(out)
            ==> valid_utf8(out),
    decreases depth, n, 0int,
{
    reveal_with_fuel(render_node, 2);
    reveal_with_fuel(aligned, 2);
    match n {
        NodeView::Text(t) => {
            lemma_span_valid(src, t.span);
            lemma_trimmed_valid(t.span.of(src), before, after);
        },
        NodeView::RawBlock(b) => {
            match (b.open, b.close) {
                (Some(o), Some(c)) => {
                    lemma_span_valid(src, Span { start: o.end, end: c.start });
                },
                _ => {},
            }
        },
        NodeView::RawStatement(b) => {
            match (b.open, b.close) {
                (Some(o), Some(c)) => {
                    if o.start < usize::MAX {
                        lemma_span_valid(src, Span { start: (o.start + 1) as usize, end: c.end });
                    }
                },
                _ => {},
            }
        },
        NodeView::RawComment(_) => {},
        NodeView::Comment(_) => {},
        NodeView::Document(b) => {
            lemma_render_nodes_text(
                reg,
                src,
                root,
                scopes,
                b.nodes,
                0,
                false,
                false,
                Seq::empty(),
                depth,
            );
        },
        NodeView::Statement(c) => {
            if c.partial {
                lemma_partial_is_text(reg, src, root, scopes, c);
                match partial_of(reg, src, root, scopes, c) {
                    Ok(t) => {
                        if depth > 0 {
                            lemma_render_node_text(
                                reg,
                                t.source@,
                                root,
                                scopes,
                                t.node@,
                                false,
                                false,
                                (depth - 1) as nat,
                            );
                        }
                    },
                    Err(e) => {},
                }
            } else {
                match crate::render::spec::eval_call(reg, src, root, scopes, c) {
                    Ok(Some(v)) => {
                        lemma_text_bytes_valid(v);
                    },
                    _ => {},
                }
            }
        },
        NodeView::Block(b) => match b.call {
            None => {},
            Some(c) => {
                if c.partial {
                    lemma_partial_is_text(reg, src, root, scopes, c);
                    match partial_of(reg, src, root, scopes, c) {
                        Ok(t) => {
                            if depth > 0 {
                                lemma_render_node_text(
                                    reg,
                                    t.source@,
                                    root,
                                    scopes,
                                    t.node@,
                                    false,
                                    false,
                                    (depth - 1) as nat,
                                );
                            }
                        },
                        Err(e) => {},
                    }
                } else {
                    match block_plan(reg, src, root, scopes, c) {
                        Err(e) => {},
                        Ok(plan) => {
                            lemma_render_each_text(
                                reg,
                                src,
                                root,
                                scopes,
                                b,
                                plan,
                                0,
                                Seq::empty(),
                                depth,
                            );
                        },
                    }
                }
            },
        },
    }
}

/// The template that a partial asks for is one of the registry's.
proof fn lemma_partial_is_text<H: Helper, B: BlockHelper, E: Escape>(
    reg: Registry<H, B, E>,
    src: Seq<u8>,
    root: JsonView,
    scopes: Seq<ScopeView>,
    c: crate::parser::ast::CallView,
)
    requires
        text_templates(reg),
    ensures
        partial_of(reg, src, root, scopes, c) matches Ok(t) ==> is_text(t),
{
    match partial_of(reg, src, root, scopes, c) {
        Ok(t) => {
            let name = crate::render::spec::partial_name(reg, src, root, scopes, c)->Ok_0;
            lemma_find_bounds(reg.templates.entries@, name, 0);
            let i = crate::table::find(reg.templates.entries@, name, 0);
            assert(is_text(reg.templates.entries@[i].1));
        },
        Err(e) => {},
    }
}

/// What nodes that stand side by side render to is text.
pub proof fn lemma_render_nodes_text<H: Helper, B: BlockHelper, E: Escape>(
    reg: Registry<H, B, E>,
    src: Seq<u8>,
    root: JsonView,
    scopes: Seq<ScopeView>,
    nodes: Seq<NodeView>,
    i: int,
    lead: bool,
    trail: bool,
    acc: Seq<u8>,
    depth: nat,
)
    requires
        keeps_text(reg),
        text_templates(reg),
        valid_utf8(src),
        aligned_nodes(src, nodes),
        valid_utf8(acc),
        0 <= i,
    ensures
        render_nodes(reg, src, root, scopes, nodes, i, lead, trail, acc, depth) matches Ok(out)
            ==> valid_utf8(out),
    decreases depth, nodes, nodes.len() - i,
{
    reveal_with_fuel(render_nodes, 2);
    if i < nodes.len() {
        let before = if i == 0 {
            lead
        } else {
            crate::render::spec::trim_after(src, nodes[i - 1])
        };
        let after = if i + 1 == nodes.len() {
            trail
        } else {
            crate::render::spec::trim_before(src, nodes[i + 1])
        };
        lemma_aligned_at(src, nodes, i);
        lemma_render_node_text(reg, src, root, scopes, nodes[i], before, after, depth);
        match render_node(reg, src, root, scopes, nodes[i], before, after, depth) {
            Err(e) => {},
            Ok(x) => {
                valid_utf8_concat(acc, x);
                lemma_render_nodes_text(
                    reg,
                    src,
                    root,
                    scopes,
                    nodes,
                    i + 1,
                    lead,
                    trail,
                    acc + x,
                    depth,
                );
            },
        }
    }
}

/// What the body of a block renders to in each of its scopes is text.
pub proof fn lemma_render_each_text<H: Helper, B: BlockHelper, E: Escape>(
    reg: Registry<H, B, E>,
    src: Seq<u8>,
    root: JsonView,
    scopes: Seq<ScopeView>,
    b: BlockView,
    plan: Seq<ScopeView>,
    k: int,
    acc: Seq<u8>,
    depth: nat,
)
    requires
        keeps_text(reg),
        text_templates(reg),
        valid_utf8(src),
        aligned_nodes(src, b.nodes),
        valid_utf8(acc),
        0 <= k,
    ensures
        render_each(reg, src, root, scopes, b, plan, k, acc, depth) matches Ok(out)
            ==> valid_utf8(out),
    decreases depth, b, plan.len() - k,
{
    reveal_with_fuel(render_each, 2);
    if k < plan.len() {
        let lead = crate::render::spec::trim_after_open(src, b);
        let trail = crate::render::spec::trim_before_close(src, b);
        lemma_render_nodes_text(
            reg,
            src,
            root,
            scopes.push(plan[k]),
            b.nodes,
            0,
            lead,
            trail,
            Seq::empty(),
            depth,
        );
        match render_nodes(
            reg,
            src,
            root,
            scopes.push(plan[k]),
            b.nodes,
            0,
            lead,
            trail,
            Seq::empty(),
            depth,
        ) {
            Err(e) => {},
            Ok(x) => {
                valid_utf8_concat(acc, x);
                lemma_render_each_text(reg, src, root, scopes, b, plan, k + 1, acc + x, depth);
            },
        }
    }
}

/// Where the templates of a registry are text and its escape function
/// gives text for text, what the template of a name renders to is UTF-8
/// text: rendering to a string fails only where rendering fails.
pub proof fn lemma_rendered_is_text<H: Helper, B: BlockHelper, E: Escape>(
    reg: Registry<H, B, E>,
    name: Seq<char>,
    data: JsonView,
)
    requires
        keeps_text(reg),
        text_templates(reg),
    ensures
        rendered_by_name(reg, name, data) matches Ok(out) ==> valid_utf8(out),
{
    match lookup(reg.templates.entries@, bytes_of(name)) {
        None => {},
        Some(t) => {
            lemma_find_bounds(reg.templates.entries@, bytes_of(name), 0);
            let i = crate::table::find(reg.templates.entries@, bytes_of(name), 0);
            assert(is_text(reg.templates.entries@[i].1));
            lemma_render_node_text(
                reg,
                t.source@,
                data,
                Seq::empty(),
                t.node@,
                false,
                false,
                PARTIAL_DEPTH as nat,
            );
        },
    }
}

} // verus!
