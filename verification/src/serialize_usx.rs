//! The canonical tree written as the events of an XML document.
//!
//! The root element holds the version. A book and a paragraph are elements with
//! content, a chapter is an element without. Inside a paragraph a character span and a
//! note are elements with content, a verse and a milestone elements without. Every
//! element has its marker as the attribute `style`, followed by its attributes.

use vstd::prelude::*;
use crate::attributes::AttributeMap;
use crate::attributes::Element;
use crate::attributes::Entries;
use crate::text::copy_str;
use crate::tree::items_model;
use crate::tree::lemma_node_content;
use crate::tree::nodes_model;
use crate::tree::Document;
use crate::tree::DocumentModel;
use crate::tree::Item;
use crate::tree::ItemModel;
use crate::tree::Node;
use crate::tree::NodeKind;
use crate::tree::NodeModel;
use crate::usx::element_model;
use crate::usx::events_model;
use crate::usx::ElementModel;
use crate::usx::EventModel;
use crate::usx::XmlEvent;

verus! {

/// The attributes of the element of a node: the marker as `style`, then the
/// attributes of the node.
pub open spec fn xml_attributes(n: NodeModel) -> Entries {
    seq![("style"@, n.marker)] + n.attributes
}

/// The element of a node.
pub open spec fn xml_element(name: Seq<char>, n: NodeModel) -> ElementModel {
    ElementModel { tag_name: name, attributes: xml_attributes(n) }
}

/// The events of an item.
pub open spec fn item_events(it: ItemModel) -> Seq<EventModel>
    decreases it,
{
    match it {
        ItemModel::Text(t) => seq![EventModel::Text(t)],
        ItemModel::Node(n) => inline_events(n),
    }
}

/// The events of items, one after the other.
pub open spec fn items_events(items: Seq<ItemModel>) -> Seq<EventModel>
    decreases items,
{
    if items.len() == 0 {
        Seq::empty()
    } else {
        items_events(items.drop_last()) + item_events(items.last())
    }
}

/// The events of an element with content: its start, its content and its end.
pub open spec fn wrapped(name: Seq<char>, n: NodeModel, inner: Seq<EventModel>) -> Seq<EventModel> {
    seq![EventModel::Start(xml_element(name, n))] + inner + seq![EventModel::End]
}

/// The events of a node that stands inside a paragraph, a span or a note.
pub open spec fn inline_events(n: NodeModel) -> Seq<EventModel>
    decreases n,
{
    if n.kind == NodeKind::Char {
        wrapped("char"@, n, items_events(n.content))
    } else if n.kind == NodeKind::Note {
        wrapped("note"@, n, items_events(n.content))
    } else if n.kind == NodeKind::Verse {
        seq![EventModel::Empty(xml_element("verse"@, n))]
    } else if n.kind == NodeKind::Milestone {
        seq![EventModel::Empty(xml_element("ms"@, n))]
    } else {
        Seq::empty()
    }
}

/// The events of the texts among the items.
pub open spec fn text_events(items: Seq<ItemModel>) -> Seq<EventModel>
    decreases items.len(),
{
    if items.len() == 0 {
        Seq::empty()
    } else {
        match items.last() {
            ItemModel::Text(t) => text_events(items.drop_last()).push(EventModel::Text(t)),
            ItemModel::Node(_) => text_events(items.drop_last()),
        }
    }
}

/// The events of a top-level node.
pub open spec fn top_events(n: NodeModel) -> Seq<EventModel> {
    if n.kind == NodeKind::Book {
        wrapped("book"@, n, text_events(n.content))
    } else if n.kind == NodeKind::Para {
        wrapped("para"@, n, items_events(n.content))
    } else if n.kind == NodeKind::Chapter {
        seq![EventModel::Empty(xml_element("chapter"@, n))]
    } else {
        Seq::empty()
    }
}

/// The events of the top-level nodes, one after the other.
pub open spec fn tops_events(nodes: Seq<NodeModel>) -> Seq<EventModel>
    decreases nodes.len(),
{
    if nodes.len() == 0 {
        Seq::empty()
    } else {
        tops_events(nodes.drop_last()) + top_events(nodes.last())
    }
}

/// The root element: it holds the version, where there is one.
pub open spec fn root_element(version: Option<Seq<char>>) -> ElementModel {
    ElementModel {
        tag_name: "usx"@,
        attributes: match version {
            Some(v) => seq![("version"@, v)],
            None => Seq::empty(),
        },
    }
}

/// The events of a document.
pub open spec fn document_events(d: DocumentModel) -> Seq<EventModel> {
    seq![EventModel::Start(root_element(d.version))] + tops_events(d.content) + seq![
        EventModel::End,
    ]
}

/// Makes the element of a node.
fn make_element(name: &str, n: &Node) -> (e: Element)
    ensures
        element_model(e) == xml_element(name@, n@),
{
    let mut attributes = AttributeMap { entries: Vec::new() };
    attributes.entries.push((copy_str("style"), copy_str(n.marker.as_str())));
    let ghost head = seq![("style"@, n.marker@)];
    let mut i: usize = 0;
    assert(attributes@ == head + n.attributes@.take(0));
    while i < n.attributes.len()
        invariant
            i <= n.attributes@.len(),
            head == seq![("style"@, n.marker@)],
            attributes@ == head + n.attributes@.take(i as int),
        decreases n.attributes@.len() - i,
    {
        let ghost before = attributes@;
        let k = copy_str(n.attributes.key_at(i).as_str());
        let v = copy_str(n.attributes.value_at(i).as_str());
        attributes.entries.push((k, v));
        assert(attributes@ == before.push(n.attributes@[i as int]));
        i = i + 1;
        assert(attributes@ == head + n.attributes@.take(i as int));
    }
    assert(n.attributes@.take(i as int) == n.attributes@);
    Element { tag_name: copy_str(name), attributes }
}

/// Adds one event at the end.
fn push_event(out: &mut Vec<XmlEvent>, event: XmlEvent)
    ensures
        events_model(final(out)@) == events_model(old(out)@).push(event@),
{
    out.push(event);
    assert(events_model(out@) == events_model(old(out)@).push(event@));
}

/// Adds the events of the items of a node.
fn push_items(node: &Node, out: &mut Vec<XmlEvent>)
    ensures
        events_model(final(out)@) == events_model(old(out)@) + items_events(node@.content),
    decreases node, 0int,
{
    let ghost items = node@.content;
    let ghost start = events_model(out@);
    let mut i: usize = 0;
    proof {
        lemma_node_content(node);
        assert(items.take(0) == Seq::<ItemModel>::empty());
        assert(events_model(out@) == start + items_events(items.take(0)));
    }
    while i < node.content.len()
        invariant
            i <= node.content@.len(),
            items == node@.content,
            items == items_model(node.content@),
            events_model(out@) == start + items_events(items.take(i as int)),
        decreases node.content@.len() - i,
    {
        let ghost next = items.take(i + 1);
        proof {
            assert(next.drop_last() == items.take(i as int));
            assert(next.last() == node.content@[i as int]@);
            assert(items_events(next) == items_events(next.drop_last()) + item_events(next.last()));
        }
        match &node.content[i] {
            Item::Text(t) => {
                assert(item_events(node.content@[i as int]@) == seq![EventModel::Text(t@)]);
                push_event(out, XmlEvent::Text(copy_str(t.as_str())));
            },
            Item::Node(n) => {
                assert(item_events(node.content@[i as int]@) == inline_events(n@));
                push_inline(n, out);
            },
        }
        i = i + 1;
        assert(events_model(out@) == start + items_events(items.take(i as int)));
    }
    proof {
        assert(items.take(i as int) == items);
    }
}

/// Adds the events of a node with content whose element is named `name`.
fn push_wrapped(name: &str, n: &Node, out: &mut Vec<XmlEvent>)
    ensures
        events_model(final(out)@) == events_model(old(out)@) + wrapped(
            name@,
            n@,
            items_events(n@.content),
        ),
    decreases n, 1int,
{
    push_event(out, XmlEvent::Start(make_element(name, n)));
    push_items(n, out);
    push_event(out, XmlEvent::End);
    assert(events_model(out@) == events_model(old(out)@) + wrapped(
        name@,
        n@,
        items_events(n@.content),
    ));
}

/// Adds the events of a node that stands inside a paragraph, a span or a note.
fn push_inline(n: &Node, out: &mut Vec<XmlEvent>)
    ensures
        events_model(final(out)@) == events_model(old(out)@) + inline_events(n@),
    decreases n, 2int,
{
    match n.kind {
        NodeKind::Char => {
            push_wrapped("char", n, out);
        },
        NodeKind::Note => {
            push_wrapped("note", n, out);
        },
        NodeKind::Verse => {
            push_event(out, XmlEvent::Empty(make_element("verse", n)));
            assert(events_model(out@) == events_model(old(out)@) + inline_events(n@));
        },
        NodeKind::Milestone => {
            push_event(out, XmlEvent::Empty(make_element("ms", n)));
            assert(events_model(out@) == events_model(old(out)@) + inline_events(n@));
        },
        _ => {
            assert(events_model(old(out)@) + Seq::<EventModel>::empty() == events_model(old(out)@));
        },
    }
}

/// Adds the events of the texts among the items of a node.
fn push_texts(node: &Node, out: &mut Vec<XmlEvent>)
    ensures
        events_model(final(out)@) == events_model(old(out)@) + text_events(node@.content),
{
    let ghost items = node@.content;
    let ghost start = events_model(out@);
    let mut i: usize = 0;
    proof {
        lemma_node_content(node);
        assert(items.take(0) == Seq::<ItemModel>::empty());
        assert(events_model(out@) == start + text_events(items.take(0)));
    }
    while i < node.content.len()
        invariant
            i <= node.content@.len(),
            items == items_model(node.content@),
            events_model(out@) == start + text_events(items.take(i as int)),
        decreases node.content@.len() - i,
    {
        proof {
            assert(items.take(i + 1).drop_last() == items.take(i as int));
            assert(items.take(i + 1).last() == node.content@[i as int]@);
        }
        match &node.content[i] {
            Item::Text(t) => {
                push_event(out, XmlEvent::Text(copy_str(t.as_str())));
            },
            Item::Node(_) => {},
        }
        i = i + 1;
        assert(events_model(out@) == start + text_events(items.take(i as int)));
    }
    proof {
        assert(items.take(i as int) == items);
    }
}

/// Adds the events of a top-level node.
pub fn push_top(n: &Node, out: &mut Vec<XmlEvent>)
    ensures
        events_model(final(out)@) == events_model(old(out)@) + top_events(n@),
{
    match n.kind {
        NodeKind::Book => {
            push_event(out, XmlEvent::Start(make_element("book", n)));
            push_texts(n, out);
            push_event(out, XmlEvent::End);
            assert(events_model(out@) == events_model(old(out)@) + top_events(n@));
        },
        NodeKind::Para => {
            push_wrapped("para", n, out);
        },
        NodeKind::Chapter => {
            push_event(out, XmlEvent::Empty(make_element("chapter", n)));
            assert(events_model(out@) == events_model(old(out)@) + top_events(n@));
        },
        _ => {
            assert(events_model(old(out)@) + Seq::<EventModel>::empty() == events_model(old(out)@));
        },
    }
}

/// The events that write a document as XML.
pub fn serialize_to_usx(usj: &Document) -> (events: Vec<XmlEvent>)
    ensures
        events_model(events@) == document_events(usj@),
{
    let mut attributes = AttributeMap { entries: Vec::new() };
    match &usj.version {
        Some(v) => {
            attributes.entries.push((copy_str("version"), copy_str(v.as_str())));
            assert(attributes@ == seq![("version"@, v@)]);
        },
        None => {
            assert(attributes@ == Seq::<(Seq<char>, Seq<char>)>::empty());
        },
    }
    let root = Element { tag_name: copy_str("usx"), attributes };
    assert(element_model(root) == root_element(usj@.version));
    let mut out: Vec<XmlEvent> = Vec::new();
    assert(events_model(out@) == Seq::<EventModel>::empty());
    push_event(&mut out, XmlEvent::Start(root));
    let ghost start = events_model(out@);
    let ghost nodes = nodes_model(usj.content@);
    let mut i: usize = 0;
    proof {
        assert(nodes.take(0) == Seq::<NodeModel>::empty());
        assert(events_model(out@) == start + tops_events(nodes.take(0)));
    }
    while i < usj.content.len()
        invariant
            i <= usj.content@.len(),
            nodes == nodes_model(usj.content@),
            events_model(out@) == start + tops_events(nodes.take(i as int)),
        decreases usj.content@.len() - i,
    {
        proof {
            assert(nodes.take(i + 1).drop_last() == nodes.take(i as int));
            assert(nodes.take(i + 1).last() == usj.content@[i as int]@);
        }
        push_top(&usj.content[i], &mut out);
        i = i + 1;
        assert(events_model(out@) == start + tops_events(nodes.take(i as int)));
    }
    proof {
        assert(nodes.take(i as int) == nodes);
    }
    push_event(&mut out, XmlEvent::End);
    assert(events_model(out@) == document_events(usj@));
    out
}

} // verus!
