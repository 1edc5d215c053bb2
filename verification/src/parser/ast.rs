//! The syntax tree. Nodes hold byte spans into the source they were parsed
//! from, never copies of its text.
use vstd::prelude::*;
use crate::json::{Json, JsonView};
use crate::text::Span;

verus! {

/// The kinds of path component.
#[derive(Clone, Copy, Debug, PartialEq, Eq, Structural)]
pub enum ComponentType {
    /// `../`
    Parent,
    /// `this`
    ThisKeyword,
    /// `./`
    ThisDotSlash,
    Identifier,
    /// `@name`
    LocalIdentifier,
    /// `.` or `/`
    Delimiter,
    /// `[...]`
    ArrayAccess,
}

/// A path component: its kind, the bytes it covers and the lines it is on.
#[derive(Clone, Copy, Debug, PartialEq, Eq, Structural)]
pub struct Component(pub ComponentType, pub Span, pub Span);

/// A reference into the data: components, and what came before them.
#[derive(Debug, PartialEq, Eq)]
pub struct Path {
    pub components: Vec<Component>,
    /// The number of leading `../`.
    pub parents: usize,
    /// Whether the path starts with `this` or `./`.
    pub explicit: bool,
    /// Whether the path starts with `@root`.
    pub root: bool,
    pub lines: Span,
}

/// What a call invokes.
#[derive(Debug, PartialEq, Eq)]
pub enum CallTarget {
    Path(Path),
    SubExpr(Box<Call>),
}

/// One invocation: a target, positional arguments and named parameters.
#[derive(Debug, PartialEq, Eq)]
pub struct Call {
    /// Whether the opening sigil holds `>`.
    pub partial: bool,
    /// Whether the result is escaped: the tag has two braces, not three.
    pub escaped: bool,
    /// The opening sigil, or the `(` of a sub-expression.
    pub open: Span,
    /// The closing braces, or the `)` of a sub-expression.
    pub close: Span,
    pub target: CallTarget,
    pub arguments: Vec<ParameterValue>,
    /// The named parameters in the order written, each with the span of its
    /// name. In a call that was parsed no two names are the same.
    pub hash: Vec<(Span, ParameterValue)>,
    pub lines: Span,
}

/// An argument or the value of a named parameter: a path, a literal or a
/// sub-expression. A literal is a number, `true`, `false`, `null` or a
/// string. The grammar has no array literal and no object literal: in a tag
/// `[` starts an array access, which is a component of a path.
#[derive(Debug, PartialEq, Eq)]
pub enum ParameterValue {
    Path(Path),
    Json(Json),
    SubExpr(Call),
}

/// A run of text.
#[derive(Clone, Copy, Debug, PartialEq, Eq, Structural)]
pub struct Text {
    pub span: Span,
    pub lines: Span,
}

/// The kinds of block.
#[derive(Clone, Copy, Debug, PartialEq, Eq, Structural)]
pub enum BlockType {
    /// The whole document.
    Root,
    /// `{{{{raw}}}} ... {{{{/raw}}}}`
    RawBlock,
    /// `\{{ ... }}`
    RawStatement,
    /// `{{!-- ... --}}`
    RawComment,
    /// `{{! ... }}`
    Comment,
    /// `{{#name}} ... {{/name}}`
    Scoped,
}

/// A node with an opening and a closing tag and nodes between them.
#[derive(Debug, PartialEq, Eq)]
pub struct Block {
    pub kind: BlockType,
    pub nodes: Vec<Node>,
    pub open: Option<Span>,
    pub close: Option<Span>,
    pub call: Option<Call>,
    pub lines: Span,
}

/// A node of the tree.
#[derive(Debug, PartialEq, Eq)]
pub enum Node {
    Document(Block),
    Text(Text),
    Statement(Call),
    Block(Block),
    RawBlock(Block),
    RawStatement(Block),
    RawComment(Block),
    Comment(Block),
}

/// The value of a [`Path`].
pub ghost struct PathView {
    pub components: Seq<Component>,
    pub parents: nat,
    pub explicit: bool,
    pub root: bool,
    pub lines: Span,
}

/// The value of a [`CallTarget`].
pub ghost enum TargetView {
    Path(PathView),
    SubExpr(Box<CallView>),
}

/// The value of a [`Call`].
pub ghost struct CallView {
    pub partial: bool,
    pub escaped: bool,
    pub open: Span,
    pub close: Span,
    pub target: TargetView,
    pub arguments: Seq<ParameterView>,
    pub hash: Seq<(Span, ParameterView)>,
    pub lines: Span,
}

/// The value of a [`ParameterValue`].
pub ghost enum ParameterView {
    Path(PathView),
    Json(JsonView),
    SubExpr(CallView),
}

/// The value of a [`Block`].
pub ghost struct BlockView {
    pub kind: BlockType,
    pub nodes: Seq<NodeView>,
    pub open: Option<Span>,
    pub close: Option<Span>,
    pub call: Option<CallView>,
    pub lines: Span,
}

/// The value of a [`Node`].
pub ghost enum NodeView {
    Document(BlockView),
    Text(Text),
    Statement(CallView),
    Block(BlockView),
    RawBlock(BlockView),
    RawStatement(BlockView),
    RawComment(BlockView),
    Comment(BlockView),
}

impl View for Path {
    type V = PathView;

    open spec fn view(&self) -> PathView {
        PathView {
            components: self.components@,
            parents: self.parents as nat,
            explicit: self.explicit,
            root: self.root,
            lines: self.lines,
        }
    }
}

pub open spec fn call_view(c: Call) -> CallView
    decreases c,
{
    CallView {
        partial: c.partial,
        escaped: c.escaped,
        open: c.open,
        close: c.close,
        target: target_view(c.target),
        arguments: param_views(c.arguments@),
        hash: hash_views(c.hash@),
        lines: c.lines,
    }
}

pub open spec fn target_view(t: CallTarget) -> TargetView
    decreases t,
{
    match t {
        CallTarget::Path(p) => TargetView::Path(p@),
        CallTarget::SubExpr(c) => TargetView::SubExpr(Box::new(call_view(*c))),
    }
}

pub open spec fn param_view(p: ParameterValue) -> ParameterView
    decreases p,
{
    match p {
        ParameterValue::Path(p) => ParameterView::Path(p@),
        ParameterValue::Json(j) => ParameterView::Json(j@),
        ParameterValue::SubExpr(c) => ParameterView::SubExpr(call_view(c)),
    }
}

pub open spec fn block_view(b: Block) -> BlockView
    decreases b,
{
    BlockView {
        kind: b.kind,
        nodes: node_views(b.nodes@),
        open: b.open,
        close: b.close,
        call: match b.call {
            Some(c) => Some(call_view(c)),
            None => None,
        },
        lines: b.lines,
    }
}

pub open spec fn node_view(n: Node) -> NodeView
    decreases n,
{
    match n {
        Node::Document(b) => NodeView::Document(block_view(b)),
        Node::Text(t) => NodeView::Text(t),
        Node::Statement(c) => NodeView::Statement(call_view(c)),
        Node::Block(b) => NodeView::Block(block_view(b)),
        Node::RawBlock(b) => NodeView::RawBlock(block_view(b)),
        Node::RawStatement(b) => NodeView::RawStatement(block_view(b)),
        Node::RawComment(b) => NodeView::RawComment(block_view(b)),
        Node::Comment(b) => NodeView::Comment(block_view(b)),
    }
}

impl View for Call {
    type V = CallView;

    open spec fn view(&self) -> CallView {
        call_view(*self)
    }
}

impl View for CallTarget {
    type V = TargetView;

    open spec fn view(&self) -> TargetView {
        target_view(*self)
    }
}

impl View for ParameterValue {
    type V = ParameterView;

    open spec fn view(&self) -> ParameterView {
        param_view(*self)
    }
}

impl View for Block {
    type V = BlockView;

    open spec fn view(&self) -> BlockView {
        block_view(*self)
    }
}

impl View for Node {
    type V = NodeView;

    open spec fn view(&self) -> NodeView {
        node_view(*self)
    }
}

/// The values of a list of parameters.
pub open spec fn param_views(s: Seq<ParameterValue>) -> Seq<ParameterView>
    decreases s,
{
    if s.len() == 0 {
        Seq::empty()
    } else {
        param_views(s.drop_last()).push(param_view(s.last()))
    }
}

/// [`param_views`] works element by element.
pub proof fn lemma_param_views(s: Seq<ParameterValue>)
    ensures
        param_views(s).len() == s.len(),
        forall|i: int| 0 <= i < s.len() ==> (#[trigger] param_views(s)[i]) == param_view(s[i]),
    decreases s.len(),
{
    if s.len() > 0 {
        lemma_param_views(s.drop_last());
        assert(param_views(s) == param_views(s.drop_last()).push(param_view(s.last())));
    } else {
        assert(param_views(s) == Seq::<ParameterView>::empty());
    }
}

/// [`param_views`] of a list with one more element.
pub proof fn lemma_param_views_push(s: Seq<ParameterValue>, x: ParameterValue)
    ensures
        param_views(s.push(x)) == param_views(s).push(param_view(x)),
{
    assert(s.push(x).drop_last() =~= s);
    assert(s.push(x).last() == x);
    assert(param_views(s.push(x)) == param_views(s.push(x).drop_last()).push(param_view(x)));
}

/// The values of a list of named parameters.
pub open spec fn hash_views(s: Seq<(Span, ParameterValue)>) -> Seq<(Span, ParameterView)>
    decreases s,
{
    if s.len() == 0 {
        Seq::empty()
    } else {
        hash_views(s.drop_last()).push((s.last().0, param_view(s.last().1)))
    }
}

/// [`hash_views`] works element by element.
pub proof fn lemma_hash_views(s: Seq<(Span, ParameterValue)>)
    ensures
        hash_views(s).len() == s.len(),
        forall|i: int| 0 <= i < s.len() ==> (#[trigger] hash_views(s)[i]) == (s[i].0, param_view(s[i].1)),
    decreases s.len(),
{
    if s.len() > 0 {
        lemma_hash_views(s.drop_last());
        assert(hash_views(s) == hash_views(s.drop_last()).push((s.last().0, param_view(s.last().1))));
    } else {
        assert(hash_views(s) == Seq::<(Span, ParameterView)>::empty());
    }
}

/// [`hash_views`] of a list with one more element.
pub proof fn lemma_hash_views_push(s: Seq<(Span, ParameterValue)>, x: (Span, ParameterValue))
    ensures
        hash_views(s.push(x)) == hash_views(s).push((x.0, param_view(x.1))),
{
    assert(s.push(x).drop_last() =~= s);
    assert(s.push(x).last() == x);
    assert(hash_views(s.push(x)) == hash_views(s.push(x).drop_last()).push((x.0, param_view(x.1))));
}

/// The values of a list of nodes.
pub open spec fn node_views(s: Seq<Node>) -> Seq<NodeView>
    decreases s,
{
    if s.len() == 0 {
        Seq::empty()
    } else {
        node_views(s.drop_last()).push(node_view(s.last()))
    }
}

/// [`node_views`] works element by element.
pub proof fn lemma_node_views(s: Seq<Node>)
    ensures
        node_views(s).len() == s.len(),
        forall|i: int| 0 <= i < s.len() ==> (#[trigger] node_views(s)[i]) == node_view(s[i]),
    decreases s.len(),
{
    if s.len() > 0 {
        lemma_node_views(s.drop_last());
        assert(node_views(s) == node_views(s.drop_last()).push(node_view(s.last())));
    } else {
        assert(node_views(s) == Seq::<NodeView>::empty());
    }
}

/// [`node_views`] of a list with one more element.
pub proof fn lemma_node_views_push(s: Seq<Node>, x: Node)
    ensures
        node_views(s.push(x)) == node_views(s).push(node_view(x)),
{
    assert(s.push(x).drop_last() =~= s);
    assert(s.push(x).last() == x);
    assert(node_views(s.push(x)) == node_views(s.push(x).drop_last()).push(node_view(x)));
}

/// The values of a list of blocks.
pub open spec fn block_views(s: Seq<Block>) -> Seq<BlockView>
    decreases s,
{
    if s.len() == 0 {
        Seq::empty()
    } else {
        block_views(s.drop_last()).push(block_view(s.last()))
    }
}

/// [`block_views`] works element by element.
pub proof fn lemma_block_views(s: Seq<Block>)
    ensures
        block_views(s).len() == s.len(),
        forall|i: int| 0 <= i < s.len() ==> (#[trigger] block_views(s)[i]) == block_view(s[i]),
    decreases s.len(),
{
    if s.len() > 0 {
        lemma_block_views(s.drop_last());
        assert(block_views(s) == block_views(s.drop_last()).push(block_view(s.last())));
    } else {
        assert(block_views(s) == Seq::<BlockView>::empty());
    }
}

/// [`block_views`] of a list with one more element.
pub proof fn lemma_block_views_push(s: Seq<Block>, x: Block)
    ensures
        block_views(s.push(x)) == block_views(s).push(block_view(x)),
{
    assert(s.push(x).drop_last() =~= s);
    assert(s.push(x).last() == x);
    assert(block_views(s.push(x)) == block_views(s.push(x).drop_last()).push(block_view(x)));
}

impl Default for BlockType {
    fn default() -> (r: Self)
        ensures
            r == BlockType::Root,
    {
        BlockType::Root
    }
}

impl Text {
    /// The text, as a slice of the source.
    pub fn as_str<'a>(&self, src: &'a [u8]) -> (r: &'a [u8])
        ensures
            r@ == self.span.of(src@),
    {
        self.span.slice(src)
    }

    pub fn span(&self) -> (r: Span)
        ensures
            r == self.span,
    {
        self.span
    }

    /// The lines that the text is on: from its first line up to, and not
    /// including, the line after its last.
    pub fn lines(&self) -> (r: Span)
        ensures
            r == self.lines,
    {
        self.lines
    }
}

impl Component {
    pub fn kind(&self) -> (r: ComponentType)
        ensures
            r == self.0,
    {
        self.0
    }

    pub fn span(&self) -> (r: Span)
        ensures
            r == self.1,
    {
        self.1
    }

    pub fn lines(&self) -> (r: Span)
        ensures
            r == self.2,
    {
        self.2
    }

    /// The component, as a slice of the source.
    pub fn as_str<'a>(&self, src: &'a [u8]) -> (r: &'a [u8])
        ensures
            r@ == self.1.of(src@),
    {
        self.1.slice(src)
    }

    /// Whether the component is `this` or `./`.
    pub fn is_explicit(&self) -> (r: bool)
        ensures
            r == (self.0 == ComponentType::ThisKeyword || self.0 == ComponentType::ThisDotSlash),
    {
        self.0 == ComponentType::ThisKeyword || self.0 == ComponentType::ThisDotSlash
    }

    /// Whether the component is `./`.
    pub fn is_explicit_dot_slash(&self) -> (r: bool)
        ensures
            r == (self.0 == ComponentType::ThisDotSlash),
    {
        self.0 == ComponentType::ThisDotSlash
    }

    /// Whether the component is a local variable, `@name`.
    pub fn is_local(&self) -> (r: bool)
        ensures
            r == (self.0 == ComponentType::LocalIdentifier),
    {
        self.0 == ComponentType::LocalIdentifier
    }
}

impl Path {
    /// A path without components: nothing stands before it, and it is on
    /// no line.
    pub fn new() -> (r: Self)
        ensures
            r.components@.len() == 0,
            r.parents == 0,
            !r.explicit,
            !r.root,
            r.lines == (Span { start: 0, end: 0 }),
            r@ == (PathView {
                components: Seq::empty(),
                parents: 0,
                explicit: false,
                root: false,
                lines: Span { start: 0, end: 0 },
            }),
    {
        Path {
            components: Vec::new(),
            parents: 0,
            explicit: false,
            root: false,
            lines: Span { start: 0, end: 0 },
        }
    }

    /// Adds a component at the end.
    pub fn add_component(&mut self, part: Component)
        ensures
            final(self)@ == (PathView {
                components: old(self)@.components.push(part),
                ..old(self)@
            }),
    {
        self.components.push(part);
    }

    pub fn is_empty(&self) -> (r: bool)
        ensures
            r == (self.components@.len() == 0),
    {
        self.components.len() == 0
    }

    /// Whether the path is one identifier and nothing else: it has exactly
    /// one component, an identifier, and neither `@root` nor `this` nor
    /// `./` nor `../` before it.
    pub fn is_simple(&self) -> (r: bool)
        ensures
            r == (self.components@.len() == 1 && self.components@[0].0 == ComponentType::Identifier
                && !self.root && !self.explicit && self.parents == 0),
    {
        self.components.len() == 1 && self.components[0].0 == ComponentType::Identifier
            && !self.root && !self.explicit && self.parents == 0
    }

    pub fn components(&self) -> (r: &Vec<Component>)
        ensures
            *r == self.components,
    {
        &self.components
    }

    /// The number of leading `../`.
    pub fn parents(&self) -> (r: usize)
        ensures
            r == self.parents,
    {
        self.parents
    }

    pub fn set_parents(&mut self, parents: usize)
        ensures
            final(self)@ == (PathView { parents: parents as nat, ..old(self)@ }),
    {
        self.parents = parents;
    }

    /// Whether the path starts with `@root`.
    pub fn is_root(&self) -> (r: bool)
        ensures
            r == self.root,
    {
        self.root
    }

    pub fn set_root(&mut self, root: bool)
        ensures
            final(self)@ == (PathView { root, ..old(self)@ }),
    {
        self.root = root;
    }

    /// Whether the path starts with `this` or `./`.
    pub fn is_explicit(&self) -> (r: bool)
        ensures
            r == self.explicit,
    {
        self.explicit
    }

    pub fn set_explicit(&mut self, explicit: bool)
        ensures
            final(self)@ == (PathView { explicit, ..old(self)@ }),
    {
        self.explicit = explicit;
    }

    pub fn lines(&self) -> (r: Span)
        ensures
            r == self.lines,
    {
        self.lines
    }
}

impl CallTarget {
    /// The lines that the target is on.
    pub fn lines(&self) -> (r: Span)
        ensures
            r == match *self {
                CallTarget::Path(p) => p.lines,
                CallTarget::SubExpr(c) => c.lines,
            },
    {
        match self {
            CallTarget::Path(p) => p.lines,
            CallTarget::SubExpr(c) => c.lines,
        }
    }
}

impl Call {
    /// A call whose target is a path without components, without
    /// arguments, and on no line. What it gives is escaped.
    pub fn new(partial: bool, open: Span, close: Span) -> (r: Self)
        ensures
            r.partial == partial,
            r.escaped,
            r.open == open,
            r.close == close,
            r.arguments@.len() == 0,
            r.hash@.len() == 0,
            r.lines == (Span { start: 0, end: 0 }),
            r.target matches CallTarget::Path(p) && p@ == (PathView {
                components: Seq::empty(),
                parents: 0,
                explicit: false,
                root: false,
                lines: Span { start: 0, end: 0 },
            }),
    {
        Call {
            partial,
            escaped: true,
            open,
            close,
            target: CallTarget::Path(Path::new()),
            arguments: Vec::new(),
            hash: Vec::new(),
            lines: Span { start: 0, end: 0 },
        }
    }

    pub fn target(&self) -> (r: &CallTarget)
        ensures
            *r == self.target,
    {
        &self.target
    }

    /// The path that is the target of the call, if the target is one.
    pub fn path(&self) -> (r: Option<&Path>)
        ensures
            match self.target {
                CallTarget::Path(p) => r == Some(&p),
                CallTarget::SubExpr(_) => r is None,
            },
    {
        match &self.target {
            CallTarget::Path(p) => Some(p),
            CallTarget::SubExpr(_) => None,
        }
    }

    /// The path that is the target of the call, to be changed.
    pub fn path_mut(&mut self) -> (r: Option<&mut Path>)
        ensures
            match old(self).target {
                CallTarget::Path(p) => r matches Some(q) && *q == p && final(self).target
                    == CallTarget::Path(*final(q)),
                CallTarget::SubExpr(_) => r is None && final(self).target == old(self).target,
            },
            final(self).arguments == old(self).arguments,
            final(self).hash == old(self).hash,
            final(self).partial == old(self).partial,
            final(self).escaped == old(self).escaped,
            final(self).open == old(self).open,
            final(self).close == old(self).close,
            final(self).lines == old(self).lines,
    {
        match &mut self.target {
            CallTarget::Path(p) => Some(p),
            CallTarget::SubExpr(_) => None,
        }
    }

    /// Adds a positional argument at the end.
    pub fn add_argument(&mut self, arg: ParameterValue)
        ensures
            final(self).arguments@ == old(self).arguments@.push(arg),
            final(self).hash == old(self).hash,
            final(self).target == old(self).target,
            final(self).partial == old(self).partial,
            final(self).escaped == old(self).escaped,
            final(self).open == old(self).open,
            final(self).close == old(self).close,
            final(self).lines == old(self).lines,
    {
        self.arguments.push(arg);
    }

    pub fn arguments(&self) -> (r: &Vec<ParameterValue>)
        ensures
            *r == self.arguments,
    {
        &self.arguments
    }

    pub fn hash(&self) -> (r: &Vec<(Span, ParameterValue)>)
        ensures
            *r == self.hash,
    {
        &self.hash
    }

    /// The bytes that the call covers, from its opening sigil to its end.
    pub open spec fn extent(&self) -> Span {
        Span { start: self.open.start, end: self.close.end }
    }

    /// The call, as a slice of the source.
    pub fn as_str<'a>(&self, src: &'a [u8]) -> (r: &'a [u8])
        ensures
            r@ == self.extent().of(src@),
    {
        (Span { start: self.open.start, end: self.close.end }).slice(src)
    }

    /// The opening sigil, as a slice of the source.
    pub fn open<'a>(&self, src: &'a [u8]) -> (r: &'a [u8])
        ensures
            r@ == self.open.of(src@),
    {
        self.open.slice(src)
    }

    /// The closing braces, as a slice of the source.
    pub fn close<'a>(&self, src: &'a [u8]) -> (r: &'a [u8])
        ensures
            r@ == self.close.of(src@),
    {
        self.close.slice(src)
    }

    pub fn is_partial(&self) -> (r: bool)
        ensures
            r == self.partial,
    {
        self.partial
    }

    pub fn is_escaped(&self) -> (r: bool)
        ensures
            r == self.escaped,
    {
        self.escaped
    }

    pub fn lines(&self) -> (r: Span)
        ensures
            r == self.lines,
    {
        self.lines
    }
}

impl Block {
    /// Sets the call of the block.
    pub fn set_call(&mut self, call: Call)
        ensures
            final(self).call == Some(call),
            final(self).kind == old(self).kind,
            final(self).nodes == old(self).nodes,
            final(self).open == old(self).open,
            final(self).close == old(self).close,
            final(self).lines == old(self).lines,
    {
        self.call = Some(call);
    }

    /// Closes the block.
    pub fn exit(&mut self, span: Span)
        ensures
            final(self).close == Some(span),
            final(self).kind == old(self).kind,
            final(self).nodes == old(self).nodes,
            final(self).open == old(self).open,
            final(self).call == old(self).call,
            final(self).lines == old(self).lines,
    {
        self.close = Some(span);
    }

    /// The bytes that the block covers: the whole source for the document,
    /// and for any other block what lies from the start of its opening tag
    /// to the end of its closing tag, or to the end of the source while it
    /// is not closed.
    pub open spec fn extent(&self, len: usize) -> Span {
        if self.kind == BlockType::Root {
            Span { start: 0, end: len }
        } else {
            Span {
                start: match self.open {
                    Some(o) => o.start,
                    None => 0,
                },
                end: match self.close {
                    Some(c) => c.end,
                    None => len,
                },
            }
        }
    }

    /// The block, as a slice of the source.
    pub fn as_str<'a>(&self, src: &'a [u8]) -> (r: &'a [u8])
        ensures
            r@ == self.extent(src@.len() as usize).of(src@),
    {
        let len = src.len();
        let span = if self.kind == BlockType::Root {
            Span { start: 0, end: len }
        } else {
            Span {
                start: match self.open {
                    Some(o) => o.start,
                    None => 0,
                },
                end: match self.close {
                    Some(c) => c.end,
                    None => len,
                },
            }
        };
        span.slice(src)
    }

    /// The opening tag, as a slice of the source; empty for the document.
    pub fn open<'a>(&self, src: &'a [u8]) -> (r: &'a [u8])
        ensures
            r@ == match self.open {
                Some(o) => o.of(src@),
                None => Seq::empty(),
            },
    {
        match self.open {
            Some(o) => o.slice(src),
            None => (Span { start: 0, end: 0 }).slice(src),
        }
    }

    /// The closing tag, as a slice of the source; empty for the document.
    pub fn close<'a>(&self, src: &'a [u8]) -> (r: &'a [u8])
        ensures
            r@ == match self.close {
                Some(c) => c.of(src@),
                None => Seq::empty(),
            },
    {
        match self.close {
            Some(c) => c.slice(src),
            None => (Span { start: 0, end: 0 }).slice(src),
        }
    }

    /// Adds a node at the end.
    pub fn push(&mut self, node: Node)
        ensures
            final(self).nodes@ == old(self).nodes@.push(node),
            final(self).kind == old(self).kind,
            final(self).open == old(self).open,
            final(self).close == old(self).close,
            final(self).call == old(self).call,
            final(self).lines == old(self).lines,
    {
        self.nodes.push(node);
    }

    pub fn kind(&self) -> (r: &BlockType)
        ensures
            *r == self.kind,
    {
        &self.kind
    }

    pub fn nodes(&self) -> (r: &Vec<Node>)
        ensures
            *r == self.nodes,
    {
        &self.nodes
    }

    pub fn call(&self) -> (r: &Option<Call>)
        ensures
            *r == self.call,
    {
        &self.call
    }

    pub fn lines(&self) -> (r: Span)
        ensures
            r == self.lines,
    {
        self.lines
    }
}

impl Node {
    /// The bytes that the node covers.
    pub open spec fn extent(&self, len: usize) -> Span {
        match *self {
            Node::Text(t) => t.span,
            Node::Statement(c) => c.extent(),
            Node::Document(b) => b.extent(len),
            Node::Block(b) => b.extent(len),
            Node::RawBlock(b) => b.extent(len),
            Node::RawStatement(b) => b.extent(len),
            Node::RawComment(b) => b.extent(len),
            Node::Comment(b) => b.extent(len),
        }
    }

    /// The node, as a slice of the source.
    pub fn as_str<'a>(&self, src: &'a [u8]) -> (r: &'a [u8])
        ensures
            r@ == self.extent(src@.len() as usize).of(src@),
    {
        match self {
            Node::Text(t) => t.as_str(src),
            Node::Statement(c) => c.as_str(src),
            Node::Document(b) => b.as_str(src),
            Node::Block(b) => b.as_str(src),
            Node::RawBlock(b) => b.as_str(src),
            Node::RawStatement(b) => b.as_str(src),
            Node::RawComment(b) => b.as_str(src),
            Node::Comment(b) => b.as_str(src),
        }
    }

    /// The lines that the node is on: from its first line up to, and not
    /// including, the line after its last.
    pub fn lines(&self) -> (r: Span)
        ensures
            r == match *self {
                Node::Text(t) => t.lines,
                Node::Statement(c) => c.lines,
                Node::Document(b) => b.lines,
                Node::Block(b) => b.lines,
                Node::RawBlock(b) => b.lines,
                Node::RawStatement(b) => b.lines,
                Node::RawComment(b) => b.lines,
                Node::Comment(b) => b.lines,
            },
    {
        match self {
            Node::Text(t) => t.lines,
            Node::Statement(c) => c.lines,
            Node::Document(b) => b.lines,
            Node::Block(b) => b.lines,
            Node::RawBlock(b) => b.lines,
            Node::RawStatement(b) => b.lines,
            Node::RawComment(b) => b.lines,
            Node::Comment(b) => b.lines,
        }
    }

    /// The nodes of a document or a block; none for any other node.
    pub fn nodes(&self) -> (r: Option<&Vec<Node>>)
        ensures
            match *self {
                Node::Text(_) => r is None,
                Node::Statement(_) => r is None,
                Node::Document(b) => r == Some(&b.nodes),
                Node::Block(b) => r == Some(&b.nodes),
                Node::RawBlock(b) => r == Some(&b.nodes),
                Node::RawStatement(b) => r == Some(&b.nodes),
                Node::RawComment(b) => r == Some(&b.nodes),
                Node::Comment(b) => r == Some(&b.nodes),
            },
    {
        match self {
            Node::Text(_) => None,
            Node::Statement(_) => None,
            Node::Document(b) => Some(&b.nodes),
            Node::Block(b) => Some(&b.nodes),
            Node::RawBlock(b) => Some(&b.nodes),
            Node::RawStatement(b) => Some(&b.nodes),
            Node::RawComment(b) => Some(&b.nodes),
            Node::Comment(b) => Some(&b.nodes),
        }
    }
}

} // verus!
