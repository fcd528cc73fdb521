//! The concrete syntax tree that the reader produces.
use vstd::prelude::*;

verus! {

/// A half-open byte range of a source document.
#[derive(Debug, Clone, Copy, PartialEq, Eq, Structural)]
pub struct Span {
    pub start: usize,
    pub end: usize,
}

impl Span {
    pub fn new(start: usize, end: usize) -> (span: Self)
        ensures
            span == (Span { start, end }),
    {
        Span { start, end }
    }

    /// The smallest span that holds both.
    pub open spec fn covering(self, other: Span) -> Span {
        Span {
            start: if self.start <= other.start { self.start } else { other.start },
            end: if self.end >= other.end { self.end } else { other.end },
        }
    }

    /// The smallest span that holds both.
    pub fn cover(self, other: Span) -> (span: Span)
        ensures
            span == self.covering(other),
    {
        Span {
            start: if self.start <= other.start { self.start } else { other.start },
            end: if self.end >= other.end { self.end } else { other.end },
        }
    }

    /// Whether `inner` lies inside this span.
    pub open spec fn encloses(self, inner: Span) -> bool {
        self.start <= inner.start && inner.end <= self.end
    }
}

/// A token of the source. Floating-point tokens are held as their IEEE 754
/// binary64 encoding.
#[derive(Debug, PartialEq)]
pub enum Atom {
    Symbol(String),
    Label(String),
    String(String),
    Bool(bool),
    Int(i64),
    Float(u64),
    Unit,
}

#[derive(Debug, PartialEq)]
pub enum NodeKind {
    Atom(Atom),
    List(Vec<Node>),
    Comment(String),
}

#[derive(Debug, PartialEq)]
pub struct Node {
    pub kind: NodeKind,
    pub span: Span,
}

#[derive(Debug, PartialEq)]
pub struct SyntaxDocument {
    pub nodes: Vec<Node>,
    pub span: Span,
}

/// What an [`Atom`] holds.
pub enum AtomView {
    Symbol(Seq<char>),
    Label(Seq<char>),
    String(Seq<char>),
    Bool(bool),
    Int(i64),
    Float(u64),
    Unit,
}

/// What a [`NodeKind`] holds.
pub enum NodeKindView {
    Atom(AtomView),
    List(Seq<NodeView>),
    Comment(Seq<char>),
}

/// What a [`Node`] holds.
pub struct NodeView {
    pub kind: NodeKindView,
    pub span: Span,
}

impl View for Atom {
    type V = AtomView;

    open spec fn view(&self) -> AtomView {
        match *self {
            Atom::Symbol(text) => AtomView::Symbol(text@),
            Atom::Label(text) => AtomView::Label(text@),
            Atom::String(text) => AtomView::String(text@),
            Atom::Bool(value) => AtomView::Bool(value),
            Atom::Int(value) => AtomView::Int(value),
            Atom::Float(bits) => AtomView::Float(bits),
            Atom::Unit => AtomView::Unit,
        }
    }
}

pub open spec fn node_view(node: Node) -> NodeView
    decreases node,
{
    NodeView {
        kind: match node.kind {
            NodeKind::Atom(atom) => NodeKindView::Atom(atom@),
            NodeKind::List(children) => NodeKindView::List(nodes_view(children@)),
            NodeKind::Comment(text) => NodeKindView::Comment(text@),
        },
        span: node.span,
    }
}

pub open spec fn nodes_view(nodes: Seq<Node>) -> Seq<NodeView>
    decreases nodes,
{
    Seq::new(nodes.len(), |i: int| if 0 <= i < nodes.len() { node_view(nodes[i]) } else { arbitrary() })
}

impl Atom {
    /// An equal atom.
    pub fn copy(&self) -> (result: Atom)
        ensures
            result@ == self@,
    {
        match self {
            Atom::Symbol(text) => Atom::Symbol(text.clone()),
            Atom::Label(text) => Atom::Label(text.clone()),
            Atom::String(text) => Atom::String(text.clone()),
            Atom::Bool(value) => Atom::Bool(*value),
            Atom::Int(value) => Atom::Int(*value),
            Atom::Float(bits) => Atom::Float(*bits),
            Atom::Unit => Atom::Unit,
        }
    }
}

/// An equal node.
pub fn copy_node(node: &Node) -> (result: Node)
    ensures
        node_view(result) == node_view(*node),
    decreases node,
{
    let kind = match &node.kind {
        NodeKind::Atom(atom) => NodeKind::Atom(atom.copy()),
        NodeKind::List(children) => NodeKind::List(copy_nodes(children)),
        NodeKind::Comment(text) => NodeKind::Comment(text.clone()),
    };
    Node { kind, span: node.span }
}

/// Equal nodes, in the same order.
pub fn copy_nodes(nodes: &Vec<Node>) -> (result: Vec<Node>)
    ensures
        nodes_view(result@) == nodes_view(nodes@),
    decreases nodes,
{
    let mut result: Vec<Node> = Vec::new();
    let mut i: usize = 0;
    while i < nodes.len()
        invariant
            i <= nodes.len(),
            result@.len() == i,
            forall|j: int| 0 <= j < i ==> node_view(#[trigger] result@[j]) == node_view(nodes@[j]),
        decreases nodes.len() - i,
    {
        let node = copy_node(&nodes[i]);
        result.push(node);
        i += 1;
    }
    assert(nodes_view(result@) =~= nodes_view(nodes@));
    result
}

/// The nodes that carry meaning: comments are dropped.
pub open spec fn semantic(nodes: Seq<NodeView>) -> Seq<NodeView>
    decreases nodes.len(),
{
    if nodes.len() == 0 {
        Seq::empty()
    } else if nodes.last().kind is Comment {
        semantic(nodes.drop_last())
    } else {
        semantic(nodes.drop_last()).push(nodes.last())
    }
}

/// The semantic children of a list; other nodes have none.
pub open spec fn items(node: NodeView) -> Seq<NodeView> {
    match node.kind {
        NodeKindView::List(children) => semantic(children),
        _ => Seq::empty(),
    }
}

proof fn lemma_semantic_source(nodes: Seq<NodeView>, i: int)
    requires
        0 <= i < semantic(nodes).len(),
    ensures
        exists|j: int| 0 <= j < nodes.len() && #[trigger] nodes[j] == semantic(nodes)[i],
    decreases nodes.len(),
{
    let rest = nodes.drop_last();
    if nodes.last().kind is Comment || i < semantic(rest).len() {
        lemma_semantic_source(rest, i);
        let j = choose|j: int| 0 <= j < rest.len() && #[trigger] rest[j] == semantic(rest)[i];
        assert(nodes[j] == semantic(nodes)[i]);
    } else {
        assert(nodes[nodes.len() - 1] == semantic(nodes)[i]);
    }
}

/// A node is larger than each of its semantic children.
pub broadcast proof fn lemma_item_decreases(node: NodeView, i: int)
    requires
        0 <= i < items(node).len(),
    ensures
        #[trigger] (decreases_to!(node => items(node)[i])),
{
    let children = node.kind->List_0;
    lemma_semantic_source(children, i);
    let j = choose|j: int| 0 <= j < children.len() && #[trigger] children[j] == semantic(children)[i];
    assert(decreases_to!(node => node.kind));
    assert(decreases_to!(node.kind => node.kind->List_0));
    assert(decreases_to!(children => children[j]));
}

/// The semantic children of a list node.
pub(crate) fn semantic_nodes(nodes: &Vec<Node>) -> (result: Vec<&Node>)
    ensures
        node_refs(result@) == semantic(nodes_view(nodes@)),
{
    let mut result: Vec<&Node> = Vec::new();
    let mut i: usize = 0;
    let ghost all = nodes_view(nodes@);
    assert(all.take(0) =~= Seq::<NodeView>::empty());
    assert(node_refs(result@) =~= Seq::<NodeView>::empty());
    while i < nodes.len()
        invariant
            i <= nodes.len(),
            all == nodes_view(nodes@),
            node_refs(result@) == semantic(all.take(i as int)),
        decreases nodes.len() - i,
    {
        let ghost before = result@;
        assert(all.take(i as int + 1).drop_last() =~= all.take(i as int));
        assert(all.take(i as int + 1).last() == node_view(nodes@[i as int]));
        match &nodes[i].kind {
            NodeKind::Comment(_) => {}
            _ => {
                result.push(&nodes[i]);
                assert(node_refs(result@) =~= node_refs(before).push(node_view(nodes@[i as int])));
            }
        }
        i += 1;
    }
    assert(all.take(i as int) =~= all);
    result
}

/// What borrowed nodes hold.
pub open spec fn node_refs(nodes: Seq<&Node>) -> Seq<NodeView> {
    Seq::new(nodes.len(), |i: int| node_view(*nodes[i]))
}

} // verus!
