//! The canonical tree of a document.
//!
//! A document is a version and a list of top-level nodes. A node has a kind, a marker,
//! attributes and an ordered content of texts and nodes.

use vstd::prelude::*;
use vstd::string::StringExecFns;
use crate::attributes::AttributeMap;
use crate::attributes::Entries;

verus! {

/// The kinds of node.
#[derive(Debug, Clone, Copy, PartialEq, Eq, Structural)]
pub enum NodeKind {
    Book,
    Chapter,
    Para,
    Verse,
    Char,
    Note,
    Milestone,
}

/// A node of the tree.
pub struct Node {
    /// What the node is.
    pub kind: NodeKind,
    /// The marker that the node was written with.
    pub marker: String,
    /// Whether a character span was written with the nesting sign.
    pub nested: bool,
    /// The attributes of the node.
    pub attributes: AttributeMap,
    /// What the node holds, in order.
    pub content: Vec<Item>,
}

/// One piece of the content of a node.
pub enum Item {
    /// A run of text.
    Text(String),
    /// A node.
    Node(Node),
}

/// A document: its version, where one was given, and its top-level nodes.
pub struct Document {
    pub version: Option<String>,
    pub content: Vec<Node>,
}

/// The model of a node.
pub struct NodeModel {
    pub kind: NodeKind,
    pub marker: Seq<char>,
    pub nested: bool,
    pub attributes: Entries,
    pub content: Seq<ItemModel>,
}

/// The model of a piece of content.
pub enum ItemModel {
    Text(Seq<char>),
    Node(NodeModel),
}

/// The model of a document.
pub struct DocumentModel {
    pub version: Option<Seq<char>>,
    pub content: Seq<NodeModel>,
}

impl Item {
    /// The model of the item.
    pub open spec fn view(&self) -> ItemModel
        decreases self,
    {
        match self {
            Item::Text(s) => ItemModel::Text(s@),
            Item::Node(n) => ItemModel::Node(n.view()),
        }
    }
}

impl Node {
    /// The model of the node.
    pub open spec fn view(&self) -> NodeModel
        decreases self,
    {
        NodeModel {
            kind: self.kind,
            marker: self.marker@,
            nested: self.nested,
            attributes: self.attributes@,
            content: Seq::new(
                self.content@.len(),
                |i: int|
                    if 0 <= i < self.content@.len() {
                        self.content@[i].view()
                    } else {
                        ItemModel::Text(Seq::empty())
                    },
            ),
        }
    }

    /// A node without content.
    pub fn new(kind: NodeKind, marker: String, nested: bool, attributes: AttributeMap) -> (n: Self)
        ensures
            n@ == (NodeModel {
                kind,
                marker: marker@,
                nested,
                attributes: attributes@,
                content: Seq::empty(),
            }),
    {
        let n = Node { kind, marker, nested, attributes, content: Vec::new() };
        assert(n@.content == Seq::<ItemModel>::empty());
        n
    }

    /// Adds an item at the end of the content.
    pub fn push_item(&mut self, item: Item)
        ensures
            final(self)@ == (NodeModel { content: old(self)@.content.push(item@), ..old(self)@ }),
    {
        self.content.push(item);
        assert(self@.content == old(self)@.content.push(item@));
    }
}

/// The models of a sequence of items.
pub open spec fn items_model(v: Seq<Item>) -> Seq<ItemModel> {
    Seq::new(v.len(), |i: int| v[i]@)
}

/// The models of a sequence of nodes.
pub open spec fn nodes_model(v: Seq<Node>) -> Seq<NodeModel> {
    Seq::new(v.len(), |i: int| v[i]@)
}

/// The content of a node is the models of the items it holds.
pub proof fn lemma_node_content(n: &Node)
    ensures
        n@.content == items_model(n.content@),
{
    assert(n@.content == items_model(n.content@));
}

impl Document {
    /// The model of the document.
    pub open spec fn view(&self) -> DocumentModel {
        DocumentModel {
            version: match self.version {
                Some(v) => Some(v@),
                None => None,
            },
            content: nodes_model(self.content@),
        }
    }
}

/// The texts among `items`, joined in order; nodes are passed over.
pub open spec fn joined_text(items: Seq<ItemModel>) -> Seq<char>
    decreases items.len(),
{
    if items.len() == 0 {
        Seq::empty()
    } else {
        match items.last() {
            ItemModel::Text(t) => joined_text(items.drop_last()) + t,
            ItemModel::Node(_) => joined_text(items.drop_last()),
        }
    }
}

/// Joins the texts among the items of a node.
pub fn text_of(node: &Node) -> (s: String)
    ensures
        s@ == joined_text(node@.content),
{
    let mut s = String::new();
    let mut i: usize = 0;
    proof {
        lemma_node_content(node);
        assert(items_model(node.content@).take(0) == Seq::<ItemModel>::empty());
    }
    while i < node.content.len()
        invariant
            i <= node.content@.len(),
            s@ == joined_text(items_model(node.content@).take(i as int)),
        decreases node.content@.len() - i,
    {
        proof {
            let t = items_model(node.content@).take(i + 1);
            assert(t.drop_last() == items_model(node.content@).take(i as int));
            assert(t.last() == node.content@[i as int]@);
        }
        match &node.content[i] {
            Item::Text(t) => {
                s.append(t.as_str());
            },
            Item::Node(_) => {},
        }
        i = i + 1;
    }
    proof {
        assert(items_model(node.content@).take(i as int) == items_model(node.content@));
        lemma_node_content(node);
    }
    s
}

} // verus!
