//! The reader of the object-tree encoding: from a JSON value to the canonical tree.
//!
//! A JSON value is held as a value of the library: its strings, arrays and objects as
//! plain data. An object with a `type` is an element; its members other than `type` and
//! `content` are its attributes and must be strings.

use vstd::prelude::*;
use crate::attributes::insert_entry;
use crate::attributes::value_of;
use crate::attributes::AttributeMap;
use crate::attributes::Entries;
use crate::builder::node_attributes;
use crate::builder::node_attrs;
use crate::emit::document_json;
use crate::emit::holds_content;
use crate::emit::kind_holds_content;
use crate::text::copy_str;
use crate::text::str_eq;
use crate::tree::items_model;
use crate::tree::nodes_model;
use crate::tree::Document;
use crate::tree::DocumentModel;
use crate::tree::Item;
use crate::tree::ItemModel;
use crate::tree::Node;
use crate::tree::NodeKind;
use crate::tree::NodeModel;

verus! {

/// A JSON value.
pub enum JsonValue {
    Null,
    Bool(bool),
    /// A number, as it is written.
    Number(String),
    String(String),
    Array(Vec<JsonValue>),
    /// An object: its members, in order.
    Object(Vec<(String, JsonValue)>),
}

/// The model of a JSON value.
pub enum JsonModel {
    Null,
    Bool(bool),
    Number(Seq<char>),
    String(Seq<char>),
    Array(Seq<JsonModel>),
    Object(Seq<(Seq<char>, JsonModel)>),
}

impl JsonValue {
    /// The model of the value.
    pub open spec fn view(&self) -> JsonModel
        decreases self,
    {
        match self {
            JsonValue::Null => JsonModel::Null,
            JsonValue::Bool(b) => JsonModel::Bool(*b),
            JsonValue::Number(n) => JsonModel::Number(n@),
            JsonValue::String(s) => JsonModel::String(s@),
            JsonValue::Array(v) => JsonModel::Array(
                Seq::new(
                    v@.len(),
                    |i: int|
                        if 0 <= i < v@.len() {
                            v@[i].view()
                        } else {
                            JsonModel::Null
                        },
                ),
            ),
            JsonValue::Object(m) => JsonModel::Object(
                Seq::new(
                    m@.len(),
                    |i: int|
                        if 0 <= i < m@.len() {
                            (m@[i].0@, m@[i].1.view())
                        } else {
                            (Seq::empty(), JsonModel::Null)
                        },
                ),
            ),
        }
    }
}

/// Why a JSON value is no document.
#[derive(Debug, Clone, PartialEq, Eq)]
pub enum UsjError {
    /// The root has no member `version`.
    MissingVersion,
    /// The version is no string.
    VersionNotString,
    /// An object among the content has no member `type`.
    MissingType,
    /// An attribute is no string; holds its key.
    AttributeNotString(String),
}

/// The model of a failure.
pub enum UsjErrorModel {
    MissingVersion,
    VersionNotString,
    MissingType,
    AttributeNotString(Seq<char>),
}

impl UsjError {
    /// The model of the failure.
    pub open spec fn view(&self) -> UsjErrorModel {
        match self {
            UsjError::MissingVersion => UsjErrorModel::MissingVersion,
            UsjError::VersionNotString => UsjErrorModel::VersionNotString,
            UsjError::MissingType => UsjErrorModel::MissingType,
            UsjError::AttributeNotString(k) => UsjErrorModel::AttributeNotString(k@),
        }
    }
}

/// The members of an object.
pub type Members = Seq<(Seq<char>, JsonModel)>;

/// The index of the first member named `key`, or the number of members.
pub open spec fn member_index(members: Members, key: Seq<char>, from: int) -> int
    decreases members.len() - from,
{
    if from < 0 || from >= members.len() {
        members.len() as int
    } else if members[from].0 == key {
        from
    } else {
        member_index(members, key, from + 1)
    }
}

/// The attributes that the first `n` members give: every member but `type` and
/// `content`, which must be a string; the key of the first that is none is the failure.
pub open spec fn attributes_of(members: Members, n: int) -> Result<Entries, Seq<char>>
    decreases n,
{
    if n <= 0 || n > members.len() {
        Ok(Seq::empty())
    } else {
        match attributes_of(members, n - 1) {
            Err(k) => Err(k),
            Ok(a) => {
                let (k, v) = members[n - 1];
                if k == "type"@ || k == "content"@ {
                    Ok(a)
                } else {
                    match v {
                        JsonModel::String(s) => Ok(insert_entry(a, k, s)),
                        _ => Err(k),
                    }
                }
            },
        }
    }
}

/// The kind of node that a type names, if it names one.
pub open spec fn kind_of_type(t: Seq<char>) -> Option<NodeKind> {
    if t == "book"@ {
        Some(NodeKind::Book)
    } else if t == "chapter"@ {
        Some(NodeKind::Chapter)
    } else if t == "para"@ {
        Some(NodeKind::Para)
    } else if t == "verse"@ {
        Some(NodeKind::Verse)
    } else if t == "char"@ {
        Some(NodeKind::Char)
    } else if t == "note"@ {
        Some(NodeKind::Note)
    } else if t == "ms"@ {
        Some(NodeKind::Milestone)
    } else {
        None
    }
}

/// Whether nodes of a kind stand at the top level of a document.
pub open spec fn is_top_kind(k: NodeKind) -> bool {
    k == NodeKind::Book || k == NodeKind::Chapter || k == NodeKind::Para
}

/// The marker among attributes: the value of `marker`, empty without one.
pub open spec fn marker_attr(attrs: Entries) -> Seq<char> {
    match value_of(attrs, "marker"@) {
        Some(v) => v,
        None => Seq::empty(),
    }
}

/// The node that a value writes: nothing for a value that is no object with a type
/// that names a kind; a failure for an object without a type or with an attribute that
/// is no string.
pub open spec fn node_of(v: JsonModel) -> Result<Option<NodeModel>, UsjErrorModel>
    decreases v, 1int,
{
    match v {
        JsonModel::Object(members) => match attributes_of(members, members.len() as int) {
            Err(k) => Err(UsjErrorModel::AttributeNotString(k)),
            Ok(attrs) => {
                let t = member_index(members, "type"@, 0);
                let c = member_index(members, "content"@, 0);
                if t >= members.len() {
                    Err(UsjErrorModel::MissingType)
                } else {
                    match members[t].1 {
                        JsonModel::String(name) => match kind_of_type(name) {
                            None => Ok(None),
                            Some(kind) => {
                                let content = if holds_content(kind) && 0 <= c < members.len() {
                                    match members[c].1 {
                                        JsonModel::Array(vs) => items_of(vs, vs.len() as int),
                                        _ => Ok(Seq::empty()),
                                    }
                                } else {
                                    Ok(Seq::empty())
                                };
                                match content {
                                    Err(e) => Err(e),
                                    Ok(items) => Ok(
                                        Some(
                                            NodeModel {
                                                kind,
                                                marker: marker_attr(attrs),
                                                nested: false,
                                                attributes: node_attrs(attrs),
                                                content: items,
                                            },
                                        ),
                                    ),
                                }
                            },
                        },
                        _ => Ok(None),
                    }
                }
            },
        },
        _ => Ok(None),
    }
}

/// The items that the first `n` values write: a string is a text; an object that
/// writes a verse, a milestone, a character span or a note is that node; anything else
/// is passed over.
pub open spec fn items_of(vs: Seq<JsonModel>, n: int) -> Result<Seq<ItemModel>, UsjErrorModel>
    decreases vs, 0int, n,
{
    if n <= 0 || n > vs.len() {
        Ok(Seq::empty())
    } else {
        match items_of(vs, n - 1) {
            Err(e) => Err(e),
            Ok(init) => match vs[n - 1] {
                JsonModel::String(s) => Ok(init.push(ItemModel::Text(s))),
                other => match node_of(other) {
                    Err(e) => Err(e),
                    Ok(Some(node)) => if is_top_kind(node.kind) {
                        Ok(init)
                    } else {
                        Ok(init.push(ItemModel::Node(node)))
                    },
                    Ok(None) => Ok(init),
                },
            },
        }
    }
}

/// The top-level nodes that the first `n` values write: an object that writes a book,
/// a chapter or a paragraph is that node; anything else is passed over.
pub open spec fn top_nodes_of(vs: Seq<JsonModel>, n: int) -> Result<Seq<NodeModel>, UsjErrorModel>
    decreases n,
{
    if n <= 0 || n > vs.len() {
        Ok(Seq::empty())
    } else {
        match top_nodes_of(vs, n - 1) {
            Err(e) => Err(e),
            Ok(init) => match node_of(vs[n - 1]) {
                Err(e) => Err(e),
                Ok(Some(node)) => if is_top_kind(node.kind) {
                    Ok(init.push(node))
                } else {
                    Ok(init)
                },
                Ok(None) => Ok(init),
            },
        }
    }
}

/// The document that a value writes: its member `version`, which must be a string,
/// and the top-level nodes of its member `content`, where that is an array.
pub open spec fn document_of_json(v: JsonModel) -> Result<DocumentModel, UsjErrorModel> {
    match v {
        JsonModel::Object(members) => {
            let i = member_index(members, "version"@, 0);
            let c = member_index(members, "content"@, 0);
            if i >= members.len() {
                Err(UsjErrorModel::MissingVersion)
            } else {
                match members[i].1 {
                    JsonModel::String(version) => {
                        let content = if 0 <= c < members.len() {
                            match members[c].1 {
                                JsonModel::Array(vs) => top_nodes_of(vs, vs.len() as int),
                                _ => Ok(Seq::empty()),
                            }
                        } else {
                            Ok(Seq::empty())
                        };
                        match content {
                            Err(e) => Err(e),
                            Ok(nodes) => Ok(DocumentModel { version: Some(version), content: nodes }),
                        }
                    },
                    _ => Err(UsjErrorModel::VersionNotString),
                }
            }
        },
        _ => Err(UsjErrorModel::MissingVersion),
    }
}

/// The models of the members of an object.
pub open spec fn members_model(m: Seq<(String, JsonValue)>) -> Members {
    Seq::new(m.len(), |i: int| (m[i].0@, m[i].1@))
}

/// The models of a sequence of values.
pub open spec fn values_model(v: Seq<JsonValue>) -> Seq<JsonModel> {
    Seq::new(v.len(), |i: int| v[i]@)
}

/// The model of an object is the models of its members.
pub proof fn lemma_object_view(v: &JsonValue)
    ensures
        v matches JsonValue::Object(m) ==> v@ == JsonModel::Object(members_model(m@)),
        v matches JsonValue::Array(a) ==> v@ == JsonModel::Array(values_model(a@)),
{
    match v {
        JsonValue::Object(m) => {
            assert(v@->Object_0 == members_model(m@));
        },
        JsonValue::Array(a) => {
            assert(v@->Array_0 == values_model(a@));
        },
        _ => {},
    }
}

/// The index of the first member named `key`, or the number of members.
pub fn find_member(members: &Vec<(String, JsonValue)>, key: &str) -> (i: usize)
    ensures
        i == member_index(members_model(members@), key@, 0),
        i <= members@.len(),
{
    let mut i: usize = 0;
    while i < members.len()
        invariant
            i <= members@.len(),
            member_index(members_model(members@), key@, 0) == member_index(
                members_model(members@),
                key@,
                i as int,
            ),
        decreases members@.len() - i,
    {
        if str_eq(members[i].0.as_str(), key) {
            return i;
        }
        i = i + 1;
    }
    i
}

/// Reads the attributes that the members of an object give.
pub fn read_members(members: &Vec<(String, JsonValue)>) -> (r: Result<AttributeMap, UsjError>)
    ensures
        match attributes_of(members_model(members@), members@.len() as int) {
            Ok(a) => r is Ok && r->Ok_0@ == a,
            Err(k) => r is Err && r->Err_0@ == UsjErrorModel::AttributeNotString(k),
        },
{
    let mut attrs = AttributeMap::new();
    let mut i: usize = 0;
    while i < members.len()
        invariant
            i <= members@.len(),
            attributes_of(members_model(members@), i as int) == Ok::<Entries, Seq<char>>(attrs@),
        decreases members@.len() - i,
    {
        let key = members[i].0.as_str();
        if !(str_eq(key, "type") || str_eq(key, "content")) {
            proof {
                lemma_object_view(&members@[i as int].1);
            }
            match &members[i].1 {
                JsonValue::String(s) => {
                    attrs.insert(copy_str(key), copy_str(s.as_str()));
                },
                _ => {
                    proof {
                        lemma_attributes_failure(
                            members_model(members@),
                            i as int + 1,
                            members@.len() as int,
                        );
                    }
                    return Err(UsjError::AttributeNotString(copy_str(key)));
                },
            }
        }
        i = i + 1;
    }
    Ok(attrs)
}

/// A failure among the first members is the failure of all the members.
pub proof fn lemma_attributes_failure(members: Members, n: int, m: int)
    requires
        0 <= n <= m <= members.len(),
        attributes_of(members, n) is Err,
    ensures
        attributes_of(members, m) == attributes_of(members, n),
    decreases m - n,
{
    if n < m {
        lemma_attributes_failure(members, n, m - 1);
    }
}

/// A failure among the first items is the failure of all the items.
pub proof fn lemma_items_failure(vs: Seq<JsonModel>, n: int, m: int)
    requires
        0 <= n <= m <= vs.len(),
        items_of(vs, n) is Err,
    ensures
        items_of(vs, m) == items_of(vs, n),
    decreases m - n,
{
    if n < m {
        lemma_items_failure(vs, n, m - 1);
    }
}

/// A failure among the first top-level nodes is the failure of all of them.
pub proof fn lemma_top_nodes_failure(vs: Seq<JsonModel>, n: int, m: int)
    requires
        0 <= n <= m <= vs.len(),
        top_nodes_of(vs, n) is Err,
    ensures
        top_nodes_of(vs, m) == top_nodes_of(vs, n),
    decreases m - n,
{
    if n < m {
        lemma_top_nodes_failure(vs, n, m - 1);
    }
}

/// The kind of node that a type names, if it names one.
pub fn kind_from_type(t: &str) -> (k: Option<NodeKind>)
    ensures
        k == kind_of_type(t@),
{
    if str_eq(t, "book") {
        Some(NodeKind::Book)
    } else if str_eq(t, "chapter") {
        Some(NodeKind::Chapter)
    } else if str_eq(t, "para") {
        Some(NodeKind::Para)
    } else if str_eq(t, "verse") {
        Some(NodeKind::Verse)
    } else if str_eq(t, "char") {
        Some(NodeKind::Char)
    } else if str_eq(t, "note") {
        Some(NodeKind::Note)
    } else if str_eq(t, "ms") {
        Some(NodeKind::Milestone)
    } else {
        None
    }
}

/// Whether nodes of a kind stand at the top level of a document.
pub fn top_kind(k: NodeKind) -> (b: bool)
    ensures
        b == is_top_kind(k),
{
    match k {
        NodeKind::Book | NodeKind::Chapter | NodeKind::Para => true,
        _ => false,
    }
}

/// Reads the node that a value writes.
pub fn read_node(v: &JsonValue) -> (r: Result<Option<Node>, UsjError>)
    ensures
        match node_of(v@) {
            Ok(Some(n)) => r is Ok && r->Ok_0 is Some && r->Ok_0->0@ == n,
            Ok(None) => r is Ok && r->Ok_0 is None,
            Err(e) => r is Err && r->Err_0@ == e,
        },
    decreases v, 1int,
{
    proof {
        lemma_object_view(v);
    }
    match v {
        JsonValue::Object(members) => {
            let attrs = match read_members(members) {
                Ok(a) => a,
                Err(e) => {
                    return Err(e);
                },
            };
            let t = find_member(members, "type");
            let c = find_member(members, "content");
            if t >= members.len() {
                return Err(UsjError::MissingType);
            }
            proof {
                lemma_object_view(&members@[t as int].1);
                if c < members@.len() {
                    lemma_object_view(&members@[c as int].1);
                }
            }
            match &members[t].1 {
                JsonValue::String(name) => {
                    match kind_from_type(name.as_str()) {
                        None => Ok(None),
                        Some(kind) => {
                            let marker = match attrs.get("marker") {
                                Some(m) => m,
                                None => String::new(),
                            };
                            let mut node = Node::new(kind, marker, false, node_attributes(&attrs));
                            if kind_holds_content(kind) && c < members.len() {
                                match &members[c].1 {
                                    JsonValue::Array(vs) => {
                                        match read_items(vs) {
                                            Ok(items) => {
                                                node.content = items;
                                                assert(node@.content == items_model(items@));
                                            },
                                            Err(e) => {
                                                return Err(e);
                                            },
                                        }
                                    },
                                    _ => {},
                                }
                            }
                            Ok(Some(node))
                        },
                    }
                },
                _ => Ok(None),
            }
        },
        _ => Ok(None),
    }
}

/// Reads the items that the values of a content write.
pub fn read_items(vs: &Vec<JsonValue>) -> (r: Result<Vec<Item>, UsjError>)
    ensures
        match items_of(values_model(vs@), vs@.len() as int) {
            Ok(items) => r is Ok && items_model(r->Ok_0@) == items,
            Err(e) => r is Err && r->Err_0@ == e,
        },
    decreases vs, 0int,
{
    let ghost models = values_model(vs@);
    let mut out: Vec<Item> = Vec::new();
    let mut i: usize = 0;
    proof {
        assert(items_model(out@) == Seq::<ItemModel>::empty());
    }
    while i < vs.len()
        invariant
            i <= vs@.len(),
            models == values_model(vs@),
            items_of(models, i as int) == Ok::<Seq<ItemModel>, UsjErrorModel>(items_model(out@)),
        decreases vs@.len() - i,
    {
        let ghost before = items_model(out@);
        match &vs[i] {
            JsonValue::String(s) => {
                let item = Item::Text(copy_str(s.as_str()));
                out.push(item);
                assert(items_model(out@) == before.push(item@));
            },
            other => {
                match read_node(other) {
                    Err(e) => {
                        proof {
                            lemma_items_failure(models, i as int + 1, vs@.len() as int);
                        }
                        return Err(e);
                    },
                    Ok(Some(node)) => {
                        if !top_kind(node.kind) {
                            let item = Item::Node(node);
                            out.push(item);
                            assert(items_model(out@) == before.push(item@));
                        }
                    },
                    Ok(None) => {},
                }
            },
        }
        i = i + 1;
    }
    Ok(out)
}

/// Reads the top-level nodes that the values of a content write.
pub fn read_top_nodes(vs: &Vec<JsonValue>) -> (r: Result<Vec<Node>, UsjError>)
    ensures
        match top_nodes_of(values_model(vs@), vs@.len() as int) {
            Ok(nodes) => r is Ok && nodes_model(r->Ok_0@) == nodes,
            Err(e) => r is Err && r->Err_0@ == e,
        },
{
    let ghost models = values_model(vs@);
    let mut out: Vec<Node> = Vec::new();
    let mut i: usize = 0;
    proof {
        assert(nodes_model(out@) == Seq::<NodeModel>::empty());
    }
    while i < vs.len()
        invariant
            i <= vs@.len(),
            models == values_model(vs@),
            top_nodes_of(models, i as int) == Ok::<Seq<NodeModel>, UsjErrorModel>(
                nodes_model(out@),
            ),
        decreases vs@.len() - i,
    {
        let ghost before = nodes_model(out@);
        match read_node(&vs[i]) {
            Err(e) => {
                proof {
                    lemma_top_nodes_failure(models, i as int + 1, vs@.len() as int);
                }
                return Err(e);
            },
            Ok(Some(node)) => {
                if top_kind(node.kind) {
                    out.push(node);
                    assert(nodes_model(out@) == before.push(node@));
                }
            },
            Ok(None) => {},
        }
        i = i + 1;
    }
    Ok(out)
}

/// Builds the document that a JSON value writes.
pub fn build_document_from_json(v: &JsonValue) -> (r: Result<Document, UsjError>)
    ensures
        match document_of_json(v@) {
            Ok(d) => r is Ok && r->Ok_0@ == d,
            Err(e) => r is Err && r->Err_0@ == e,
        },
{
    proof {
        lemma_object_view(v);
    }
    match v {
        JsonValue::Object(members) => {
            let i = find_member(members, "version");
            let c = find_member(members, "content");
            if i >= members.len() {
                return Err(UsjError::MissingVersion);
            }
            proof {
                lemma_object_view(&members@[i as int].1);
                if c < members@.len() {
                    lemma_object_view(&members@[c as int].1);
                }
            }
            match &members[i].1 {
                JsonValue::String(version) => {
                    let mut content: Vec<Node> = Vec::new();
                    assert(nodes_model(content@) == Seq::<NodeModel>::empty());
                    if c < members.len() {
                        match &members[c].1 {
                            JsonValue::Array(vs) => {
                                match read_top_nodes(vs) {
                                    Ok(nodes) => {
                                        content = nodes;
                                    },
                                    Err(e) => {
                                        return Err(e);
                                    },
                                }
                            },
                            _ => {},
                        }
                    }
                    Ok(Document { version: Some(copy_str(version.as_str())), content })
                },
                _ => Err(UsjError::VersionNotString),
            }
        },
        _ => Err(UsjError::MissingVersion),
    }
}

/// Converts a JSON value to the JSON text of its document.
pub fn deserialize_from_file_usj(json: &JsonValue) -> (r: Result<String, UsjError>)
    ensures
        match document_of_json(json@) {
            Ok(d) => r is Ok && r->Ok_0@ == document_json(d),
            Err(e) => r is Err && r->Err_0@ == e,
        },
{
    match build_document_from_json(json) {
        Ok(d) => Ok(d.to_json()),
        Err(e) => Err(e),
    }
}

} // verus!
