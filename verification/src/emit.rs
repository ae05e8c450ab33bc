//! The canonical tree written as JSON text.
//!
//! A node is written as an object: its type, its marker, its attributes in order, and,
//! for the kinds that hold content, its content as an array of texts and objects. A
//! text is written as a string, with quotes, backslashes and control characters escaped.

use vstd::prelude::*;
use vstd::string::StringExecFns;
use crate::attributes::AttributeMap;
use crate::attributes::Entries;
use crate::builder::AosjStringModel;
use crate::text::chars_of;
use crate::text::push_char;
use crate::tree::lemma_node_content;
use crate::tree::items_model;
use crate::tree::nodes_model;
use crate::tree::Document;
use crate::tree::DocumentModel;
use crate::tree::Item;
use crate::tree::ItemModel;
use crate::tree::Node;
use crate::tree::NodeKind;
use crate::tree::NodeModel;

verus! {

/// The hexadecimal digit of a number below 16; `f` for any other number.
pub open spec fn hex_digit(n: int) -> char {
    if n == 0 {
        '0'
    } else if n == 1 {
        '1'
    } else if n == 2 {
        '2'
    } else if n == 3 {
        '3'
    } else if n == 4 {
        '4'
    } else if n == 5 {
        '5'
    } else if n == 6 {
        '6'
    } else if n == 7 {
        '7'
    } else if n == 8 {
        '8'
    } else if n == 9 {
        '9'
    } else if n == 10 {
        'a'
    } else if n == 11 {
        'b'
    } else if n == 12 {
        'c'
    } else if n == 13 {
        'd'
    } else if n == 14 {
        'e'
    } else {
        'f'
    }
}

/// How one character is written inside a string: a quote and a backslash after a
/// backslash, a control character by its code, any other character as it is.
pub open spec fn escape_char(c: char) -> Seq<char> {
    if c == '"' {
        seq!['\\', '"']
    } else if c == '\\' {
        seq!['\\', '\\']
    } else if (c as u32) < 0x20 {
        seq!['\\', 'u', '0', '0', hex_digit((c as u32 / 16) as int), hex_digit((c as u32 % 16) as int)]
    } else {
        seq![c]
    }
}

/// How a text is written inside a string.
pub open spec fn escape(s: Seq<char>) -> Seq<char>
    decreases s.len(),
{
    if s.len() == 0 {
        Seq::empty()
    } else {
        escape(s.drop_last()) + escape_char(s.last())
    }
}

/// A text as a string between quotes.
pub open spec fn quoted(s: Seq<char>) -> Seq<char> {
    seq!['"'] + escape(s) + seq!['"']
}

/// The name of a kind of node.
pub open spec fn kind_name(k: NodeKind) -> Seq<char> {
    match k {
        NodeKind::Book => "book"@,
        NodeKind::Chapter => "chapter"@,
        NodeKind::Para => "para"@,
        NodeKind::Verse => "verse"@,
        NodeKind::Char => "char"@,
        NodeKind::Note => "note"@,
        NodeKind::Milestone => "ms"@,
    }
}

/// Whether nodes of a kind are written with their content.
pub open spec fn holds_content(k: NodeKind) -> bool {
    k == NodeKind::Book || k == NodeKind::Para || k == NodeKind::Char || k == NodeKind::Note
}

/// The attributes as members of an object, each after a comma.
pub open spec fn attributes_json(a: Entries) -> Seq<char>
    decreases a.len(),
{
    if a.len() == 0 {
        Seq::empty()
    } else {
        attributes_json(a.drop_last()) + ", "@ + quoted(a.last().0) + ": "@ + quoted(a.last().1)
    }
}

/// The separator before the item at the end of a list of `n` items.
pub open spec fn separator(n: nat) -> Seq<char> {
    if n > 1 {
        ", "@
    } else {
        Seq::empty()
    }
}

/// An item as JSON.
pub open spec fn item_json(it: ItemModel) -> Seq<char>
    decreases it,
{
    match it {
        ItemModel::Text(t) => quoted(t),
        ItemModel::Node(n) => node_json(n),
    }
}

/// The items as the members of an array.
pub open spec fn items_json(items: Seq<ItemModel>) -> Seq<char>
    decreases items,
{
    if items.len() == 0 {
        Seq::empty()
    } else {
        items_json(items.drop_last()) + separator(items.len()) + item_json(items.last())
    }
}

/// A node as JSON.
pub open spec fn node_json(n: NodeModel) -> Seq<char>
    decreases n,
{
    let head = "{ \"type\": "@ + quoted(kind_name(n.kind)) + ", \"marker\": "@ + quoted(n.marker)
        + attributes_json(n.attributes);
    if holds_content(n.kind) {
        head + ", \"content\": ["@ + items_json(n.content) + "] }"@
    } else {
        head + " }"@
    }
}

/// The nodes as the members of an array.
pub open spec fn nodes_json(nodes: Seq<NodeModel>) -> Seq<char>
    decreases nodes.len(),
{
    if nodes.len() == 0 {
        Seq::empty()
    } else {
        nodes_json(nodes.drop_last()) + separator(nodes.len()) + node_json(nodes.last())
    }
}

/// The version as a member of an object, followed by a comma; nothing where there is
/// no version.
pub open spec fn version_json(version: Option<Seq<char>>) -> Seq<char> {
    match version {
        Some(v) => "\"version\": "@ + quoted(v) + ", "@,
        None => Seq::empty(),
    }
}

/// A document as JSON.
pub open spec fn document_json(d: DocumentModel) -> Seq<char> {
    "{ "@ + version_json(d.version) + "\"content\": ["@ + nodes_json(d.content) + "] }"@
}

/// The hexadecimal digit of a number below 16; `f` for any other number.
pub fn hex_digit_of(n: u32) -> (c: char)
    ensures
        c == hex_digit(n as int),
{
    if n == 0 {
        '0'
    } else if n == 1 {
        '1'
    } else if n == 2 {
        '2'
    } else if n == 3 {
        '3'
    } else if n == 4 {
        '4'
    } else if n == 5 {
        '5'
    } else if n == 6 {
        '6'
    } else if n == 7 {
        '7'
    } else if n == 8 {
        '8'
    } else if n == 9 {
        '9'
    } else if n == 10 {
        'a'
    } else if n == 11 {
        'b'
    } else if n == 12 {
        'c'
    } else if n == 13 {
        'd'
    } else if n == 14 {
        'e'
    } else {
        'f'
    }
}

/// Writes one character as it stands inside a string.
pub fn write_escaped_char(c: char, out: &mut String)
    ensures
        final(out)@ == old(out)@ + escape_char(c),
{
    if c == '"' {
        push_char(out, '\\');
        push_char(out, '"');
    } else if c == '\\' {
        push_char(out, '\\');
        push_char(out, '\\');
    } else if (c as u32) < 0x20 {
        let code = c as u32;
        push_char(out, '\\');
        push_char(out, 'u');
        push_char(out, '0');
        push_char(out, '0');
        push_char(out, hex_digit_of(code / 16));
        push_char(out, hex_digit_of(code % 16));
    } else {
        push_char(out, c);
    }
    assert(out@ == old(out)@ + escape_char(c));
}

/// Writes a text as a string between quotes.
pub fn write_quoted(s: &str, out: &mut String)
    ensures
        final(out)@ == old(out)@ + quoted(s@),
{
    let chars = chars_of(s);
    push_char(out, '"');
    let mut i: usize = 0;
    proof {
        assert(s@.take(0) == Seq::<char>::empty());
        assert(out@ == old(out)@ + seq!['"'] + escape(s@.take(0)));
    }
    while i < chars.len()
        invariant
            i <= chars@.len(),
            chars@ == s@,
            out@ == old(out)@ + seq!['"'] + escape(s@.take(i as int)),
        decreases chars@.len() - i,
    {
        proof {
            assert(s@.take(i + 1).drop_last() == s@.take(i as int));
            assert(s@.take(i + 1).last() == chars@[i as int]);
        }
        let ghost before = out@;
        write_escaped_char(chars[i], out);
        i = i + 1;
        assert(out@ == old(out)@ + seq!['"'] + escape(s@.take(i as int)));
    }
    proof {
        assert(s@.take(i as int) == s@);
    }
    push_char(out, '"');
    assert(out@ == old(out)@ + quoted(s@));
}

/// Writes the name of a kind of node between quotes.
pub fn write_kind(k: NodeKind, out: &mut String)
    ensures
        final(out)@ == old(out)@ + quoted(kind_name(k)),
{
    match k {
        NodeKind::Book => write_quoted("book", out),
        NodeKind::Chapter => write_quoted("chapter", out),
        NodeKind::Para => write_quoted("para", out),
        NodeKind::Verse => write_quoted("verse", out),
        NodeKind::Char => write_quoted("char", out),
        NodeKind::Note => write_quoted("note", out),
        NodeKind::Milestone => write_quoted("ms", out),
    }
}

/// Writes the attributes as members of an object, each after a comma.
pub fn write_attributes(a: &AttributeMap, out: &mut String)
    ensures
        final(out)@ == old(out)@ + attributes_json(a@),
{
    let mut i: usize = 0;
    proof {
        assert(a@.take(0) == Seq::<(Seq<char>, Seq<char>)>::empty());
        assert(out@ == old(out)@ + attributes_json(a@.take(0)));
    }
    while i < a.len()
        invariant
            i <= a@.len(),
            out@ == old(out)@ + attributes_json(a@.take(i as int)),
        decreases a@.len() - i,
    {
        proof {
            assert(a@.take(i + 1).drop_last() == a@.take(i as int));
            assert(a@.take(i + 1).last() == a@[i as int]);
        }
        out.append(", ");
        write_quoted(a.key_at(i).as_str(), out);
        out.append(": ");
        write_quoted(a.value_at(i).as_str(), out);
        i = i + 1;
        assert(out@ == old(out)@ + attributes_json(a@.take(i as int)));
    }
    proof {
        assert(a@.take(i as int) == a@);
    }
}

/// Whether nodes of a kind are written with their content.
pub fn kind_holds_content(k: NodeKind) -> (b: bool)
    ensures
        b == holds_content(k),
{
    match k {
        NodeKind::Book | NodeKind::Para | NodeKind::Char | NodeKind::Note => true,
        _ => false,
    }
}

/// Writes a node as JSON.
pub fn write_node(node: &Node, out: &mut String)
    ensures
        final(out)@ == old(out)@ + node_json(node@),
    decreases node,
{
    out.append("{ \"type\": ");
    write_kind(node.kind, out);
    out.append(", \"marker\": ");
    write_quoted(node.marker.as_str(), out);
    write_attributes(&node.attributes, out);
    let ghost head = "{ \"type\": "@ + quoted(kind_name(node@.kind)) + ", \"marker\": "@ + quoted(
        node@.marker,
    ) + attributes_json(node@.attributes);
    assert(out@ == old(out)@ + head);
    if kind_holds_content(node.kind) {
        out.append(", \"content\": [");
        let ghost start = out@;
        let ghost items = node@.content;
        let mut i: usize = 0;
        proof {
            lemma_node_content(node);
            assert(items.take(0) == Seq::<ItemModel>::empty());
            assert(out@ == start + items_json(items.take(0)));
        }
        while i < node.content.len()
            invariant
                i <= node.content@.len(),
                items == node@.content,
                items == items_model(node.content@),
                out@ == start + items_json(items.take(i as int)),
            decreases node.content@.len() - i,
        {
            proof {
                assert(items.take(i + 1).drop_last() == items.take(i as int));
                assert(items.take(i + 1).last() == node.content@[i as int]@);
            }
            let ghost before = out@;
            let ghost next = items.take(i + 1);
            proof {
                assert(items_json(next) == items_json(next.drop_last()) + separator(next.len())
                    + item_json(next.last()));
            }
            if i > 0 {
                out.append(", ");
            }
            assert(out@ == before + separator(next.len()));
            match &node.content[i] {
                Item::Text(t) => {
                    assert(item_json(node.content@[i as int]@) == quoted(t@));
                    write_quoted(t.as_str(), out);
                },
                Item::Node(n) => {
                    assert(item_json(node.content@[i as int]@) == node_json(n@));
                    write_node(n, out);
                },
            }
            i = i + 1;
            assert(out@ == start + items_json(items.take(i as int)));
        }
        proof {
            assert(items.take(i as int) == items);
        }
        out.append("] }");
        assert(out@ == old(out)@ + node_json(node@));
    } else {
        out.append(" }");
        assert(out@ == old(out)@ + node_json(node@));
    }
}

/// Writes the nodes as the members of an array.
pub fn write_nodes(nodes: &Vec<Node>, out: &mut String)
    ensures
        final(out)@ == old(out)@ + nodes_json(nodes_model(nodes@)),
{
    let ghost models = nodes_model(nodes@);
    let mut i: usize = 0;
    proof {
        assert(models.take(0) == Seq::<NodeModel>::empty());
        assert(out@ == old(out)@ + nodes_json(models.take(0)));
    }
    while i < nodes.len()
        invariant
            i <= nodes@.len(),
            models == nodes_model(nodes@),
            out@ == old(out)@ + nodes_json(models.take(i as int)),
        decreases nodes@.len() - i,
    {
        proof {
            assert(models.take(i + 1).drop_last() == models.take(i as int));
            assert(models.take(i + 1).last() == nodes@[i as int]@);
        }
        if i > 0 {
            out.append(", ");
        }
        write_node(&nodes[i], out);
        i = i + 1;
        assert(out@ == old(out)@ + nodes_json(models.take(i as int)));
    }
    proof {
        assert(models.take(i as int) == models);
    }
}

/// Writes a version and top-level nodes as the JSON of a document.
pub fn write_document(version: &Option<String>, content: &Vec<Node>) -> (s: String)
    ensures
        s@ == document_json(
            DocumentModel {
                version: match version {
                    Some(v) => Some(v@),
                    None => None,
                },
                content: nodes_model(content@),
            },
        ),
{
    let mut out = String::new();
    out.append("{ ");
    match version {
        Some(v) => {
            out.append("\"version\": ");
            write_quoted(v.as_str(), &mut out);
            out.append(", ");
        },
        None => {},
    }
    out.append("\"content\": [");
    write_nodes(content, &mut out);
    out.append("] }");
    assert(out@ == document_json(
        DocumentModel {
            version: match version {
                Some(v) => Some(v@),
                None => None,
            },
            content: nodes_model(content@),
        },
    ));
    out
}

impl Document {
    /// The document as JSON text.
    pub fn to_json(&self) -> (s: String)
        ensures
            s@ == document_json(self@),
    {
        write_document(&self.version, &self.content)
    }
}

impl AosjStringModel {
    /// The JSON text of what is finished of the document: the version, where one was
    /// given, and the finished top-level nodes.
    pub fn assemble_model(&self) -> (s: String)
        ensures
            s@ == document_json(DocumentModel { version: self@.version, content: self@.paras }),
    {
        write_document(&self.root_version, &self.paras)
    }
}

} // verus!
