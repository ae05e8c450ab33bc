//! The canonical tree written as a tag stream.
//!
//! The version is written on a line of its own. A book, a paragraph and a chapter are
//! written on a line each. Inside a paragraph a verse starts a line; a character span is
//! written between its start and end tags, with the nesting sign where it stands inside
//! another span; a milestone is written with its attributes. A note is not written.
//!
//! The attributes of a span follow its content after a bar, and its default attribute
//! follows them after a bar of its own, so that reading the text back finds each of
//! them again.

use vstd::prelude::*;
use vstd::string::StringExecFns;
use crate::attributes::value_of;
use crate::attributes::AttributeMap;
use crate::attributes::Entries;
use crate::emit::quoted;
use crate::emit::write_quoted;
use crate::text::str_eq;
use crate::tree::items_model;
use crate::tree::lemma_node_content;
use crate::tree::nodes_model;
use crate::tree::Document;
use crate::tree::DocumentModel;
use crate::tree::Item;
use crate::tree::ItemModel;
use crate::tree::Node;
use crate::tree::NodeKind;
use crate::tree::NodeModel;

verus! {

/// The value of the attribute `key`, empty where there is none.
pub open spec fn value_or_empty(attrs: Entries, key: Seq<char>) -> Seq<char> {
    match value_of(attrs, key) {
        Some(v) => v,
        None => Seq::empty(),
    }
}

/// The attributes other than `default`, each as its key, `=`, its value between
/// quotes, and a space.
pub open spec fn usfm_attributes(attrs: Entries) -> Seq<char>
    decreases attrs.len(),
{
    if attrs.len() == 0 {
        Seq::empty()
    } else {
        let init = usfm_attributes(attrs.drop_last());
        if attrs.last().0 == "default"@ {
            init
        } else {
            init + attrs.last().0 + "="@ + quoted(attrs.last().1) + " "@
        }
    }
}

/// The default attribute of a span: a bar, the value and a space; nothing without one.
pub open spec fn usfm_default(attrs: Entries) -> Seq<char> {
    match value_of(attrs, "default"@) {
        Some(v) => "|"@ + v + " "@,
        None => Seq::empty(),
    }
}

/// The nesting sign of a span that stands inside another span.
pub open spec fn nesting_sign(in_char: bool) -> Seq<char> {
    if in_char {
        "+"@
    } else {
        Seq::empty()
    }
}

/// The attributes of a milestone: a bar between spaces before the first, where there
/// is one.
pub open spec fn usfm_milestone_attributes(attrs: Entries) -> Seq<char> {
    if usfm_attributes(attrs).len() > 0 {
        " | "@ + usfm_attributes(attrs)
    } else {
        Seq::empty()
    }
}

/// An item as it is written inside a paragraph or, with `in_char`, inside a span.
pub open spec fn usfm_item(it: ItemModel, in_char: bool) -> Seq<char>
    decreases it,
{
    match it {
        ItemModel::Text(t) => t,
        ItemModel::Node(n) => usfm_inline(n, in_char),
    }
}

/// The items as they are written, one after the other.
pub open spec fn usfm_items(items: Seq<ItemModel>, in_char: bool) -> Seq<char>
    decreases items,
{
    if items.len() == 0 {
        Seq::empty()
    } else {
        usfm_items(items.drop_last(), in_char) + usfm_item(items.last(), in_char)
    }
}

/// The start tag of a span.
pub open spec fn span_open(marker: Seq<char>, in_char: bool) -> Seq<char> {
    "\\"@ + nesting_sign(in_char) + marker + " "@
}

/// The end tag of a span.
pub open spec fn span_close(marker: Seq<char>, in_char: bool) -> Seq<char> {
    "\\"@ + nesting_sign(in_char) + marker + "*"@
}

/// The attributes of a span other than the default one, after a bar; nothing where
/// there is none.
pub open spec fn span_attributes(attrs: Entries) -> Seq<char> {
    if usfm_attributes(attrs).len() > 0 {
        "|"@ + usfm_attributes(attrs)
    } else {
        Seq::empty()
    }
}

/// What follows the content of a span: its attributes, its default attribute and its
/// end tag.
pub open spec fn span_tail(n: NodeModel, in_char: bool) -> Seq<char> {
    span_attributes(n.attributes) + usfm_default(n.attributes) + span_close(n.marker, in_char)
}

/// A verse as it is written: on a new line, its number between spaces.
pub open spec fn usfm_verse(n: NodeModel) -> Seq<char> {
    "\n\\v "@ + value_or_empty(n.attributes, "number"@) + " "@
}

/// A milestone as it is written.
pub open spec fn usfm_milestone(n: NodeModel) -> Seq<char> {
    "\\"@ + n.marker + usfm_milestone_attributes(n.attributes) + "\\*"@
}

/// A node as it is written inside a paragraph or a span.
pub open spec fn usfm_inline(n: NodeModel, in_char: bool) -> Seq<char>
    decreases n,
{
    if n.kind == NodeKind::Verse {
        usfm_verse(n)
    } else if n.kind == NodeKind::Char {
        span_open(n.marker, in_char) + usfm_items(n.content, true) + span_tail(n, in_char)
    } else if n.kind == NodeKind::Milestone {
        usfm_milestone(n)
    } else {
        Seq::empty()
    }
}

/// The texts among the items, one after the other.
pub open spec fn usfm_texts(items: Seq<ItemModel>) -> Seq<char>
    decreases items.len(),
{
    if items.len() == 0 {
        Seq::empty()
    } else {
        match items.last() {
            ItemModel::Text(t) => usfm_texts(items.drop_last()) + t,
            ItemModel::Node(_) => usfm_texts(items.drop_last()),
        }
    }
}

/// A top-level node as it is written: a book, a paragraph and a chapter on a line
/// each, and nothing for any other node.
pub open spec fn usfm_top(n: NodeModel) -> Seq<char> {
    if n.kind == NodeKind::Book {
        "\\id "@ + value_or_empty(n.attributes, "code"@) + " "@ + usfm_texts(n.content) + "\n"@
    } else if n.kind == NodeKind::Para {
        "\\"@ + n.marker + " "@ + usfm_items(n.content, false) + "\n"@
    } else if n.kind == NodeKind::Chapter {
        "\\c "@ + value_or_empty(n.attributes, "number"@) + "\n"@
    } else {
        Seq::empty()
    }
}

/// The top-level nodes as they are written, one after the other.
pub open spec fn usfm_tops(nodes: Seq<NodeModel>) -> Seq<char>
    decreases nodes.len(),
{
    if nodes.len() == 0 {
        Seq::empty()
    } else {
        usfm_tops(nodes.drop_last()) + usfm_top(nodes.last())
    }
}

/// The line of the version; nothing without a version.
pub open spec fn usfm_version(version: Option<Seq<char>>) -> Seq<char> {
    match version {
        Some(v) => "\\usfm "@ + v + "\n"@,
        None => Seq::empty(),
    }
}

/// A document as a tag stream.
pub open spec fn usfm_document(d: DocumentModel) -> Seq<char> {
    usfm_version(d.version) + usfm_tops(d.content)
}

/// Writes the value of the attribute `key`, or nothing where there is none.
fn write_value(attrs: &AttributeMap, key: &str, out: &mut String)
    ensures
        final(out)@ == old(out)@ + value_or_empty(attrs@, key@),
{
    match attrs.get(key) {
        Some(v) => {
            out.append(v.as_str());
        },
        None => {
            assert(old(out)@ + Seq::<char>::empty() == old(out)@);
        },
    }
}

/// Writes the attributes other than `default`.
fn write_usfm_attributes(attrs: &AttributeMap, out: &mut String)
    ensures
        final(out)@ == old(out)@ + usfm_attributes(attrs@),
{
    let mut i: usize = 0;
    proof {
        assert(attrs@.take(0) == Seq::<(Seq<char>, Seq<char>)>::empty());
        assert(out@ == old(out)@ + usfm_attributes(attrs@.take(0)));
    }
    while i < attrs.len()
        invariant
            i <= attrs@.len(),
            out@ == old(out)@ + usfm_attributes(attrs@.take(i as int)),
        decreases attrs@.len() - i,
    {
        proof {
            assert(attrs@.take(i + 1).drop_last() == attrs@.take(i as int));
            assert(attrs@.take(i + 1).last() == attrs@[i as int]);
        }
        if !str_eq(attrs.key_at(i).as_str(), "default") {
            out.append(attrs.key_at(i).as_str());
            out.append("=");
            write_quoted(attrs.value_at(i).as_str(), out);
            out.append(" ");
        }
        i = i + 1;
        assert(out@ == old(out)@ + usfm_attributes(attrs@.take(i as int)));
    }
    proof {
        assert(attrs@.take(i as int) == attrs@);
    }
}

/// Writes the nesting sign of a span that stands inside another span.
fn write_nesting_sign(in_char: bool, out: &mut String)
    ensures
        final(out)@ == old(out)@ + nesting_sign(in_char),
{
    if in_char {
        out.append("+");
    } else {
        assert(old(out)@ + Seq::<char>::empty() == old(out)@);
    }
}

/// Writes the items of a paragraph or a span.
fn write_usfm_items(node: &Node, in_char: bool, out: &mut String)
    ensures
        final(out)@ == old(out)@ + usfm_items(node@.content, in_char),
    decreases node, 0int,
{
    let ghost items = node@.content;
    let mut i: usize = 0;
    proof {
        lemma_node_content(node);
        assert(items.take(0) == Seq::<ItemModel>::empty());
        assert(out@ == old(out)@ + usfm_items(items.take(0), in_char));
    }
    while i < node.content.len()
        invariant
            i <= node.content@.len(),
            items == node@.content,
            items == items_model(node.content@),
            out@ == old(out)@ + usfm_items(items.take(i as int), in_char),
        decreases node.content@.len() - i,
    {
        let ghost next = items.take(i + 1);
        proof {
            assert(next.drop_last() == items.take(i as int));
            assert(next.last() == node.content@[i as int]@);
            assert(usfm_items(next, in_char) == usfm_items(next.drop_last(), in_char) + usfm_item(
                next.last(),
                in_char,
            ));
        }
        match &node.content[i] {
            Item::Text(t) => {
                assert(usfm_item(node.content@[i as int]@, in_char) == t@);
                out.append(t.as_str());
            },
            Item::Node(n) => {
                assert(usfm_item(node.content@[i as int]@, in_char) == usfm_inline(n@, in_char));
                write_usfm_inline(n, in_char, out);
            },
        }
        i = i + 1;
        assert(out@ == old(out)@ + usfm_items(items.take(i as int), in_char));
    }
    proof {
        assert(items.take(i as int) == items);
    }
}

/// Writes the start tag of a span.
fn write_span_open(marker: &str, in_char: bool, out: &mut String)
    ensures
        final(out)@ == old(out)@ + span_open(marker@, in_char),
{
    out.append("\\");
    write_nesting_sign(in_char, out);
    out.append(marker);
    out.append(" ");
    assert(out@ == old(out)@ + span_open(marker@, in_char));
}

/// Writes the end tag of a span.
fn write_span_close(marker: &str, in_char: bool, out: &mut String)
    ensures
        final(out)@ == old(out)@ + span_close(marker@, in_char),
{
    out.append("\\");
    write_nesting_sign(in_char, out);
    out.append(marker);
    out.append("*");
    assert(out@ == old(out)@ + span_close(marker@, in_char));
}

/// Writes the default attribute of a span.
fn write_default(attrs: &AttributeMap, out: &mut String)
    ensures
        final(out)@ == old(out)@ + usfm_default(attrs@),
{
    match attrs.get("default") {
        Some(v) => {
            out.append("|");
            out.append(v.as_str());
            out.append(" ");
            assert(out@ == old(out)@ + usfm_default(attrs@));
        },
        None => {
            assert(old(out)@ + Seq::<char>::empty() == old(out)@);
        },
    }
}

/// Writes the attributes of a span other than the default one.
fn write_span_attributes(attrs: &AttributeMap, out: &mut String)
    ensures
        final(out)@ == old(out)@ + span_attributes(attrs@),
{
    let mut written = String::new();
    write_usfm_attributes(attrs, &mut written);
    assert(written@ == usfm_attributes(attrs@));
    if !written.as_str().is_empty() {
        out.append("|");
        out.append(written.as_str());
        assert(out@ == old(out)@ + span_attributes(attrs@));
    } else {
        assert(old(out)@ + Seq::<char>::empty() == old(out)@);
    }
}

/// Writes what follows the content of a span.
fn write_span_tail(n: &Node, in_char: bool, out: &mut String)
    ensures
        final(out)@ == old(out)@ + span_tail(n@, in_char),
{
    write_span_attributes(&n.attributes, out);
    write_default(&n.attributes, out);
    write_span_close(n.marker.as_str(), in_char, out);
    assert(out@ == old(out)@ + span_tail(n@, in_char));
}

/// Writes a verse.
fn write_verse(n: &Node, out: &mut String)
    ensures
        final(out)@ == old(out)@ + usfm_verse(n@),
{
    out.append("\n\\v ");
    write_value(&n.attributes, "number", out);
    out.append(" ");
    assert(out@ == old(out)@ + usfm_verse(n@));
}

/// Writes a milestone.
fn write_milestone(n: &Node, out: &mut String)
    ensures
        final(out)@ == old(out)@ + usfm_milestone(n@),
{
    let mut written = String::new();
    write_usfm_attributes(&n.attributes, &mut written);
    assert(written@ == usfm_attributes(n@.attributes));
    out.append("\\");
    out.append(n.marker.as_str());
    if !written.as_str().is_empty() {
        out.append(" | ");
        out.append(written.as_str());
        assert(out@ == old(out)@ + "\\"@ + n@.marker + usfm_milestone_attributes(n@.attributes));
    } else {
        assert(out@ == old(out)@ + "\\"@ + n@.marker + usfm_milestone_attributes(n@.attributes));
    }
    out.append("\\*");
    assert(out@ == old(out)@ + usfm_milestone(n@));
}

/// Writes a node that stands inside a paragraph or a span.
fn write_usfm_inline(n: &Node, in_char: bool, out: &mut String)
    ensures
        final(out)@ == old(out)@ + usfm_inline(n@, in_char),
    decreases n, 1int,
{
    match n.kind {
        NodeKind::Verse => {
            write_verse(n, out);
        },
        NodeKind::Char => {
            write_span_open(n.marker.as_str(), in_char, out);
            write_usfm_items(n, true, out);
            write_span_tail(n, in_char, out);
            assert(out@ == old(out)@ + usfm_inline(n@, in_char));
        },
        NodeKind::Milestone => {
            write_milestone(n, out);
        },
        _ => {
            assert(old(out)@ + Seq::<char>::empty() == old(out)@);
        },
    }
}

/// Writes the texts among the items of a node.
fn write_usfm_texts(node: &Node, out: &mut String)
    ensures
        final(out)@ == old(out)@ + usfm_texts(node@.content),
{
    let ghost items = node@.content;
    let mut i: usize = 0;
    proof {
        lemma_node_content(node);
        assert(items.take(0) == Seq::<ItemModel>::empty());
        assert(out@ == old(out)@ + usfm_texts(items.take(0)));
    }
    while i < node.content.len()
        invariant
            i <= node.content@.len(),
            items == items_model(node.content@),
            out@ == old(out)@ + usfm_texts(items.take(i as int)),
        decreases node.content@.len() - i,
    {
        proof {
            assert(items.take(i + 1).drop_last() == items.take(i as int));
            assert(items.take(i + 1).last() == node.content@[i as int]@);
        }
        match &node.content[i] {
            Item::Text(t) => {
                out.append(t.as_str());
            },
            Item::Node(_) => {},
        }
        i = i + 1;
        assert(out@ == old(out)@ + usfm_texts(items.take(i as int)));
    }
    proof {
        assert(items.take(i as int) == items);
    }
}

/// Writes a top-level node.
pub fn write_usfm_top(n: &Node, out: &mut String)
    ensures
        final(out)@ == old(out)@ + usfm_top(n@),
{
    match n.kind {
        NodeKind::Book => {
            out.append("\\id ");
            write_value(&n.attributes, "code", out);
            out.append(" ");
            write_usfm_texts(n, out);
            out.append("\n");
            assert(out@ == old(out)@ + usfm_top(n@));
        },
        NodeKind::Para => {
            out.append("\\");
            out.append(n.marker.as_str());
            out.append(" ");
            write_usfm_items(n, false, out);
            out.append("\n");
            assert(out@ == old(out)@ + usfm_top(n@));
        },
        NodeKind::Chapter => {
            out.append("\\c ");
            write_value(&n.attributes, "number", out);
            out.append("\n");
            assert(out@ == old(out)@ + usfm_top(n@));
        },
        _ => {
            assert(old(out)@ + Seq::<char>::empty() == old(out)@);
        },
    }
}

/// Writes a document as a tag stream.
pub fn serialize_to_usfm(usj: &Document) -> (s: String)
    ensures
        s@ == usfm_document(usj@),
{
    let mut out = String::new();
    match &usj.version {
        Some(v) => {
            out.append("\\usfm ");
            out.append(v.as_str());
            out.append("\n");
        },
        None => {},
    }
    assert(out@ == usfm_version(usj@.version));
    let ghost start = out@;
    let ghost nodes = nodes_model(usj.content@);
    let mut i: usize = 0;
    proof {
        assert(nodes.take(0) == Seq::<NodeModel>::empty());
        assert(out@ == start + usfm_tops(nodes.take(0)));
    }
    while i < usj.content.len()
        invariant
            i <= usj.content@.len(),
            nodes == nodes_model(usj.content@),
            out@ == start + usfm_tops(nodes.take(i as int)),
        decreases usj.content@.len() - i,
    {
        proof {
            assert(nodes.take(i + 1).drop_last() == nodes.take(i as int));
            assert(nodes.take(i + 1).last() == usj.content@[i as int]@);
        }
        write_usfm_top(&usj.content[i], &mut out);
        i = i + 1;
        assert(out@ == start + usfm_tops(nodes.take(i as int)));
    }
    proof {
        assert(nodes.take(i as int) == nodes);
    }
    out
}

/// The line that a top-level node gets in the line-per-verse encoding: a chapter its
/// marker and number, a book and a paragraph an empty line, any other node nothing.
pub open spec fn e_bible_top(n: NodeModel) -> Seq<char> {
    if n.kind == NodeKind::Book || n.kind == NodeKind::Para {
        "\n"@
    } else if n.kind == NodeKind::Chapter {
        "\\c "@ + value_or_empty(n.attributes, "number"@) + "\n"@
    } else {
        Seq::empty()
    }
}

/// The lines of the top-level nodes in the line-per-verse encoding.
pub open spec fn e_bible_tops(nodes: Seq<NodeModel>) -> Seq<char>
    decreases nodes.len(),
{
    if nodes.len() == 0 {
        Seq::empty()
    } else {
        e_bible_tops(nodes.drop_last()) + e_bible_top(nodes.last())
    }
}

/// A document in the line-per-verse encoding.
pub open spec fn e_bible_document(d: DocumentModel) -> Seq<char> {
    usfm_version(d.version) + e_bible_tops(d.content)
}

/// Writes a document in the line-per-verse encoding.
pub fn serialize_to_e_bible(usj: &Document) -> (s: String)
    ensures
        s@ == e_bible_document(usj@),
{
    let mut out = String::new();
    match &usj.version {
        Some(v) => {
            out.append("\\usfm ");
            out.append(v.as_str());
            out.append("\n");
        },
        None => {},
    }
    assert(out@ == usfm_version(usj@.version));
    let ghost start = out@;
    let ghost nodes = nodes_model(usj.content@);
    let mut i: usize = 0;
    proof {
        assert(nodes.take(0) == Seq::<NodeModel>::empty());
        assert(out@ == start + e_bible_tops(nodes.take(0)));
    }
    while i < usj.content.len()
        invariant
            i <= usj.content@.len(),
            nodes == nodes_model(usj.content@),
            out@ == start + e_bible_tops(nodes.take(i as int)),
        decreases usj.content@.len() - i,
    {
        proof {
            assert(nodes.take(i + 1).drop_last() == nodes.take(i as int));
            assert(nodes.take(i + 1).last() == usj.content@[i as int]@);
        }
        let n = &usj.content[i];
        match n.kind {
            NodeKind::Book | NodeKind::Para => {
                out.append("\n");
            },
            NodeKind::Chapter => {
                out.append("\\c ");
                write_value(&n.attributes, "number", &mut out);
                out.append("\n");
            },
            _ => {},
        }
        i = i + 1;
        assert(out@ == start + e_bible_tops(nodes.take(i as int)));
    }
    proof {
        assert(nodes.take(i as int) == nodes);
    }
    out
}

} // verus!
