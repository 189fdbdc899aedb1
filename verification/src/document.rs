//! The structured document tree that prototypes are rendered into and
//! parsed from.
//!
//! The tree is the library's wire shape: a mapping with string keys, whose
//! leaves are text and plain scalars. A concrete textual encoding of the
//! tree is the concern of whatever hosts the library.

use vstd::prelude::*;

verus! {

/// One node of a structured document tree.
#[derive(Debug, PartialEq)]
pub enum Node {
    Text(String),
    Unsigned(u64),
    Signed(i64),
    Truth(bool),
    List(Vec<Node>),
    Mapping(Vec<(String, Node)>),
}

/// Abstract value of a [`Node`].
pub enum NodeView {
    Text(Seq<char>),
    Unsigned(u64),
    Signed(i64),
    Truth(bool),
    List(Seq<NodeView>),
    Mapping(Seq<(Seq<char>, NodeView)>),
}

/// Abstract value of one node.
pub open spec fn node_view(n: Node) -> NodeView
    decreases n,
{
    match n {
        Node::Text(s) => NodeView::Text(s@),
        Node::Unsigned(x) => NodeView::Unsigned(x),
        Node::Signed(x) => NodeView::Signed(x),
        Node::Truth(b) => NodeView::Truth(b),
        Node::List(items) => NodeView::List(nodes_view(items@)),
        Node::Mapping(entries) => NodeView::Mapping(entries_view(entries@)),
    }
}

/// Abstract values of a sequence of nodes.
pub open spec fn nodes_view(s: Seq<Node>) -> Seq<NodeView>
    decreases s,
{
    if s.len() == 0 {
        Seq::empty()
    } else {
        seq![node_view(s[0])] + nodes_view(s.drop_first())
    }
}

/// Abstract values of a sequence of keyed entries.
pub open spec fn entries_view(s: Seq<(String, Node)>) -> Seq<(Seq<char>, NodeView)>
    decreases s,
{
    if s.len() == 0 {
        Seq::empty()
    } else {
        seq![(s[0].0@, node_view(s[0].1))] + entries_view(s.drop_first())
    }
}

impl View for Node {
    type V = NodeView;

    open spec fn view(&self) -> NodeView {
        node_view(*self)
    }
}

pub proof fn lemma_nodes_view(s: Seq<Node>)
    ensures
        nodes_view(s).len() == s.len(),
        forall|i: int| 0 <= i < s.len() ==> nodes_view(s)[i] == node_view(s[i]),
    decreases s.len(),
{
    if s.len() > 0 {
        lemma_nodes_view(s.drop_first());
        assert forall|i: int| 0 <= i < s.len() implies nodes_view(s)[i] == node_view(s[i]) by {
            if i > 0 {
                assert(s.drop_first()[i - 1] == s[i]);
            }
        }
    }
}

pub proof fn lemma_entries_view(s: Seq<(String, Node)>)
    ensures
        entries_view(s).len() == s.len(),
        forall|i: int|
            0 <= i < s.len() ==> entries_view(s)[i] == (s[i].0@, node_view(s[i].1)),
    decreases s.len(),
{
    if s.len() > 0 {
        lemma_entries_view(s.drop_first());
        assert forall|i: int| 0 <= i < s.len() implies entries_view(s)[i] == (
        s[i].0@,
        node_view(s[i].1),
        ) by {
            if i > 0 {
                assert(s.drop_first()[i - 1] == s[i]);
            }
        }
    }
}

} // verus!
