//! The reader of the element-tree encoding: from the events of an XML document to the
//! canonical tree.
//!
//! The reader keeps the elements that are open, innermost last. An element that makes a
//! node holds the node under construction; the root element and elements of unknown
//! names hold none. What is added goes into the innermost open node; where no node is
//! open, it gets a paragraph of its own at the top level.

use vstd::prelude::*;
use vstd::string::StringExecFns;
use crate::attributes::has_key;
use crate::attributes::value_of;
use crate::attributes::AttributeMap;
use crate::attributes::Element;
use crate::attributes::Entries;
use crate::builder::implicit_para;
use crate::builder::leaf_node;
use crate::builder::node_attributes;
use crate::builder::node_attrs;
use crate::builder::with_item;
use crate::emit::document_json;
use crate::text::clean_spec;
use crate::text::clean_whitespace;
use crate::text::copy_str;
use crate::text::str_eq;
use crate::tree::nodes_model;
use crate::tree::Document;
use crate::tree::DocumentModel;
use crate::tree::Item;
use crate::tree::ItemModel;
use crate::tree::Node;
use crate::tree::NodeKind;
use crate::tree::NodeModel;

verus! {

/// One event of an XML document.
pub enum XmlEvent {
    /// The start tag of an element with content.
    Start(Element),
    /// An element without content.
    Empty(Element),
    /// A run of text, with character references resolved.
    Text(String),
    /// The end tag of the innermost open element.
    End,
}

/// The model of an element.
pub struct ElementModel {
    pub tag_name: Seq<char>,
    pub attributes: Entries,
}

/// The model of an event.
pub enum EventModel {
    Start(ElementModel),
    Empty(ElementModel),
    Text(Seq<char>),
    End,
}

/// The model of an element.
pub open spec fn element_model(e: Element) -> ElementModel {
    ElementModel { tag_name: e.tag_name@, attributes: e.attributes@ }
}

impl XmlEvent {
    /// The model of the event.
    pub open spec fn view(&self) -> EventModel {
        match self {
            XmlEvent::Start(e) => EventModel::Start(element_model(*e)),
            XmlEvent::Empty(e) => EventModel::Empty(element_model(*e)),
            XmlEvent::Text(t) => EventModel::Text(t@),
            XmlEvent::End => EventModel::End,
        }
    }
}

/// An open element.
pub struct Frame {
    /// The name of the element.
    pub tag_name: String,
    /// The node that the element makes, if it makes one.
    pub node: Option<Node>,
}

/// The model of an open element.
pub struct FrameModel {
    pub tag_name: Seq<char>,
    pub node: Option<NodeModel>,
}

impl Frame {
    /// The model of the open element.
    pub open spec fn view(&self) -> FrameModel {
        FrameModel {
            tag_name: self.tag_name@,
            node: match self.node {
                Some(n) => Some(n@),
                None => None,
            },
        }
    }
}

/// The models of a sequence of open elements.
pub open spec fn frames_model(v: Seq<Frame>) -> Seq<FrameModel> {
    Seq::new(v.len(), |i: int| v[i]@)
}

/// The views of a sequence of strings.
pub open spec fn texts_model(v: Seq<String>) -> Seq<Seq<char>> {
    Seq::new(v.len(), |i: int| v[i]@)
}

/// The model of a reader.
pub struct UsxState {
    /// The version that the root element gave.
    pub version: Option<Seq<char>>,
    /// The top-level nodes that are finished.
    pub content: Seq<NodeModel>,
    /// The open elements, innermost last.
    pub stack: Seq<FrameModel>,
    /// The pieces of text that were read and not yet added.
    pub txt: Seq<Seq<char>>,
}

/// The state of a reader that has read nothing.
pub open spec fn initial_usx() -> UsxState {
    UsxState { version: None, content: Seq::empty(), stack: Seq::empty(), txt: Seq::empty() }
}

/// The index of the innermost open element that holds a node, or -1.
pub open spec fn innermost(stack: Seq<FrameModel>) -> int
    decreases stack.len(),
{
    if stack.len() == 0 {
        -1
    } else if stack.last().node is Some {
        stack.len() - 1
    } else {
        innermost(stack.drop_last())
    }
}

/// The state after `item` was added to the innermost open node, or, where none is
/// open, put into a paragraph of its own at the top level.
pub open spec fn add_item(s: UsxState, item: ItemModel) -> UsxState {
    let i = innermost(s.stack);
    if 0 <= i < s.stack.len() && s.stack[i].node is Some {
        UsxState {
            stack: s.stack.update(
                i,
                FrameModel { node: Some(with_item(s.stack[i].node->0, item)), ..s.stack[i] },
            ),
            ..s
        }
    } else {
        UsxState { content: s.content.push(implicit_para(item)), ..s }
    }
}

/// The pieces of text, joined in order.
pub open spec fn joined(txt: Seq<Seq<char>>) -> Seq<char>
    decreases txt.len(),
{
    if txt.len() == 0 {
        Seq::empty()
    } else {
        joined(txt.drop_last()) + txt.last()
    }
}

/// The pieces of text, each cleaned.
pub open spec fn cleaned(txt: Seq<Seq<char>>) -> Seq<Seq<char>> {
    Seq::new(txt.len(), |i: int| clean_spec(txt[i]))
}

/// The state after the pending pieces, joined, were added as one text, if they are not
/// empty; no piece is pending afterwards.
pub open spec fn flush_usx(s: UsxState) -> UsxState {
    let t = joined(s.txt);
    let s1 = if t.len() > 0 {
        add_item(s, ItemModel::Text(t))
    } else {
        s
    };
    UsxState { txt: Seq::empty(), ..s1 }
}

/// The marker of an element: the value of its attribute `style`, empty without one.
pub open spec fn marker_of(attributes: Entries) -> Seq<char> {
    match value_of(attributes, "style"@) {
        Some(v) => v,
        None => Seq::empty(),
    }
}

/// The kind of node that an element with content makes, if it makes one.
pub open spec fn kind_of_element(tag_name: Seq<char>) -> Option<NodeKind> {
    if tag_name == "para"@ {
        Some(NodeKind::Para)
    } else if tag_name == "book"@ {
        Some(NodeKind::Book)
    } else if tag_name == "char"@ {
        Some(NodeKind::Char)
    } else if tag_name == "note"@ {
        Some(NodeKind::Note)
    } else {
        None
    }
}

/// The node that an element opens, without content.
pub open spec fn node_of_element(kind: NodeKind, attributes: Entries) -> NodeModel {
    NodeModel {
        kind,
        marker: marker_of(attributes),
        nested: false,
        attributes: node_attrs(attributes),
        content: Seq::empty(),
    }
}

/// The state after a start tag: the pending text is added; the root element gives the
/// version; the element is opened, with its node if it makes one.
pub open spec fn after_start(s: UsxState, e: ElementModel) -> UsxState {
    let f = flush_usx(s);
    let version = if e.tag_name == "usx"@ && has_key(e.attributes, "version"@) {
        value_of(e.attributes, "version"@)
    } else {
        f.version
    };
    let node = match kind_of_element(e.tag_name) {
        Some(kind) => Some(node_of_element(kind, e.attributes)),
        None => None,
    };
    UsxState { version, stack: f.stack.push(FrameModel { tag_name: e.tag_name, node }), ..f }
}

/// The state after an element without content: the pending text is cleaned and added;
/// a verse and a milestone are added where they stand, a chapter at the top level; a
/// verse or chapter that marks an end, and any other element, adds nothing.
pub open spec fn after_empty(s: UsxState, e: ElementModel) -> UsxState {
    let f = flush_usx(UsxState { txt: cleaned(s.txt), ..s });
    let ends = has_key(e.attributes, "eid"@);
    if e.tag_name == "verse"@ && !ends {
        add_item(
            f,
            ItemModel::Node(
                leaf_node(NodeKind::Verse, marker_of(e.attributes), node_attrs(e.attributes)),
            ),
        )
    } else if e.tag_name == "chapter"@ && !ends {
        UsxState {
            content: f.content.push(
                leaf_node(NodeKind::Chapter, marker_of(e.attributes), node_attrs(e.attributes)),
            ),
            ..f
        }
    } else if e.tag_name == "ms"@ {
        add_item(
            f,
            ItemModel::Node(
                leaf_node(NodeKind::Milestone, marker_of(e.attributes), node_attrs(e.attributes)),
            ),
        )
    } else {
        f
    }
}

/// The state after a run of text: the text is pending where an element is open inside
/// the root element, and is passed over elsewhere.
pub open spec fn after_text(s: UsxState, t: Seq<char>) -> UsxState {
    if s.stack.len() > 1 {
        UsxState { txt: s.txt.push(t), ..s }
    } else {
        s
    }
}

/// The state after a closed node was put where it belongs: a paragraph and a book at
/// the top level, a character span and a note into what encloses them.
pub open spec fn place(s: UsxState, n: NodeModel) -> UsxState {
    if n.kind == NodeKind::Para || n.kind == NodeKind::Book {
        UsxState { content: s.content.push(n), ..s }
    } else {
        add_item(s, ItemModel::Node(n))
    }
}

/// The state after an end tag: the pending text is cleaned; the innermost element is
/// closed; where it holds a node, the text is added to the node and the node is put
/// where it belongs. Where no element is open, only the cleaning happens.
pub open spec fn after_end(s: UsxState) -> UsxState {
    let c = UsxState { txt: cleaned(s.txt), ..s };
    if c.stack.len() == 0 {
        c
    } else if c.stack.last().node is Some {
        let f = flush_usx(c);
        let top = f.stack.last();
        place(UsxState { stack: f.stack.drop_last(), ..f }, top.node->0)
    } else {
        UsxState { stack: c.stack.drop_last(), ..c }
    }
}

/// The state after one event.
pub open spec fn usx_step(s: UsxState, ev: EventModel) -> UsxState {
    match ev {
        EventModel::Start(e) => after_start(s, e),
        EventModel::Empty(e) => after_empty(s, e),
        EventModel::Text(t) => after_text(s, t),
        EventModel::End => after_end(s),
    }
}

/// The state after the events `events`, read in order from the state `s`.
pub open spec fn usx_run(s: UsxState, events: Seq<EventModel>) -> UsxState
    decreases events.len(),
{
    if events.len() == 0 {
        s
    } else {
        usx_step(usx_run(s, events.drop_last()), events.last())
    }
}

/// The document that the events `events` make: the version and the finished top-level
/// nodes at the end of the events.
pub open spec fn document_of_events(events: Seq<EventModel>) -> DocumentModel {
    let s = usx_run(initial_usx(), events);
    DocumentModel { version: s.version, content: s.content }
}

/// The models of a sequence of events.
pub open spec fn events_model(v: Seq<XmlEvent>) -> Seq<EventModel> {
    Seq::new(v.len(), |i: int| v[i]@)
}

/// Adding to the innermost node changes neither the number of open elements nor which
/// of them hold a node.
pub proof fn lemma_innermost(stack: Seq<FrameModel>)
    ensures
        -1 <= innermost(stack) < stack.len(),
        innermost(stack) >= 0 ==> stack[innermost(stack)].node is Some,
        forall|j: int| innermost(stack) < j < stack.len() ==> (#[trigger] stack[j]).node is None,
    decreases stack.len(),
{
    if stack.len() > 0 && stack.last().node is None {
        lemma_innermost(stack.drop_last());
        assert forall|j: int| innermost(stack) < j < stack.len() implies (#[trigger] stack[j]).node
            is None by {
            if j < stack.len() - 1 {
                assert(stack[j] == stack.drop_last()[j]);
            }
        }
    }
}

/// The index found from the end is the innermost.
pub proof fn lemma_innermost_is(stack: Seq<FrameModel>, i: int)
    requires
        -1 <= i < stack.len(),
        i >= 0 ==> stack[i].node is Some,
        forall|j: int| i < j < stack.len() ==> (#[trigger] stack[j]).node is None,
    ensures
        innermost(stack) == i,
{
    lemma_innermost(stack);
    let c = innermost(stack);
    if c > i {
        assert(stack[c].node is None);
    }
    if c < i {
        assert(stack[i].node is None);
    }
}

/// A reader of XML events.
pub struct UsxReader {
    /// The version that the root element gave.
    pub version: Option<String>,
    /// The top-level nodes that are finished.
    pub content: Vec<Node>,
    /// The open elements, innermost last.
    pub parent_els: Vec<Frame>,
    /// The pieces of text that were read and not yet added.
    pub txt: Vec<String>,
}

impl UsxReader {
    /// The model of the reader.
    pub open spec fn view(&self) -> UsxState {
        UsxState {
            version: match self.version {
                Some(v) => Some(v@),
                None => None,
            },
            content: nodes_model(self.content@),
            stack: frames_model(self.parent_els@),
            txt: texts_model(self.txt@),
        }
    }

    /// A reader that has read nothing.
    pub fn new() -> (r: Self)
        ensures
            r@ == initial_usx(),
    {
        let r = UsxReader {
            version: None,
            content: Vec::new(),
            parent_els: Vec::new(),
            txt: Vec::new(),
        };
        assert(r@.content == Seq::<NodeModel>::empty());
        assert(r@.stack == Seq::<FrameModel>::empty());
        assert(r@.txt == Seq::<Seq<char>>::empty());
        r
    }

    /// Adds `item` to the innermost open node, or puts it into a paragraph of its own
    /// at the top level.
    pub fn add_item(&mut self, item: Item)
        ensures
            final(self)@ == add_item(old(self)@, item@),
    {
        let n = self.parent_els.len();
        let mut i: usize = n;
        while i > 0 && self.parent_els[i - 1].node.is_none()
            invariant
                i <= n,
                n == self.parent_els@.len(),
                forall|j: int| i <= j < n ==> (#[trigger] frames_model(self.parent_els@)[j]).node
                    is None,
            decreases i,
        {
            i = i - 1;
        }
        proof {
            lemma_innermost_is(frames_model(self.parent_els@), i as int - 1);
        }
        if i > 0 {
            let ghost before = self.parent_els@;
            let frame = &mut self.parent_els[i - 1];
            match &mut frame.node {
                Some(node) => {
                    node.push_item(item);
                },
                None => {},
            }
            assert(self.parent_els@.len() == before.len());
            assert(forall|j: int| 0 <= j < n && j != i - 1 ==> self.parent_els@[j] == before[j]);
            assert(frames_model(self.parent_els@) == frames_model(before).update(
                i - 1,
                FrameModel {
                    node: Some(with_item(before[i - 1]@.node->0, item@)),
                    ..before[i - 1]@
                },
            ));
        } else {
            let ghost before = self.content@;
            let mut para = Node::new(NodeKind::Para, String::new(), false, AttributeMap::new());
            para.push_item(item);
            assert(para@.content == seq![item@]);
            self.content.push(para);
            assert(nodes_model(self.content@) == nodes_model(before).push(implicit_para(item@)));
        }
    }

    /// Adds the pending pieces, joined, as one text, if they are not empty.
    pub fn flush(&mut self)
        ensures
            final(self)@ == flush_usx(old(self)@),
    {
        let mut t = String::new();
        let mut i: usize = 0;
        proof {
            assert(texts_model(self.txt@).take(0) == Seq::<Seq<char>>::empty());
        }
        while i < self.txt.len()
            invariant
                i <= self.txt@.len(),
                t@ == joined(texts_model(self.txt@).take(i as int)),
            decreases self.txt@.len() - i,
        {
            proof {
                let p = texts_model(self.txt@).take(i + 1);
                assert(p.drop_last() == texts_model(self.txt@).take(i as int));
                assert(p.last() == self.txt@[i as int]@);
            }
            t.append(self.txt[i].as_str());
            i = i + 1;
        }
        proof {
            assert(texts_model(self.txt@).take(i as int) == texts_model(self.txt@));
        }
        self.txt = Vec::new();
        assert(texts_model(self.txt@) == Seq::<Seq<char>>::empty());
        if !t.as_str().is_empty() {
            self.add_item(Item::Text(t));
        }
    }

    /// Cleans the pending pieces of text.
    fn clean(&mut self)
        ensures
            final(self)@ == (UsxState { txt: cleaned(old(self)@.txt), ..old(self)@ }),
    {
        clean_whitespace(&mut self.txt);
        assert(texts_model(self.txt@) == cleaned(old(self)@.txt));
    }

    /// The marker of an element.
    fn marker(attributes: &AttributeMap) -> (m: String)
        ensures
            m@ == marker_of(attributes@),
    {
        match attributes.get("style") {
            Some(v) => v,
            None => String::new(),
        }
    }

    /// Reads a start tag.
    fn start(&mut self, e: &Element)
        ensures
            final(self)@ == after_start(old(self)@, element_model(*e)),
    {
        self.flush();
        if str_eq(e.tag_name.as_str(), "usx") {
            match e.attributes.get("version") {
                Some(v) => {
                    self.version = Some(v);
                },
                None => {},
            }
        }
        let name = e.tag_name.as_str();
        let kind = if str_eq(name, "para") {
            Some(NodeKind::Para)
        } else if str_eq(name, "book") {
            Some(NodeKind::Book)
        } else if str_eq(name, "char") {
            Some(NodeKind::Char)
        } else if str_eq(name, "note") {
            Some(NodeKind::Note)
        } else {
            None
        };
        let node = match kind {
            Some(k) => Some(
                Node::new(k, Self::marker(&e.attributes), false, node_attributes(&e.attributes)),
            ),
            None => None,
        };
        let ghost before = self.parent_els@;
        let frame = Frame { tag_name: copy_str(name), node };
        self.parent_els.push(frame);
        assert(frames_model(self.parent_els@) == frames_model(before).push(frame@));
    }

    /// Reads an element without content.
    fn empty(&mut self, e: &Element)
        ensures
            final(self)@ == after_empty(old(self)@, element_model(*e)),
    {
        self.clean();
        self.flush();
        let ends = e.attributes.contains_key("eid");
        let name = e.tag_name.as_str();
        if str_eq(name, "verse") && !ends {
            let node = Node::new(
                NodeKind::Verse,
                Self::marker(&e.attributes),
                false,
                node_attributes(&e.attributes),
            );
            self.add_item(Item::Node(node));
        } else if str_eq(name, "chapter") && !ends {
            let ghost before = self.content@;
            let node = Node::new(
                NodeKind::Chapter,
                Self::marker(&e.attributes),
                false,
                node_attributes(&e.attributes),
            );
            self.content.push(node);
            assert(nodes_model(self.content@) == nodes_model(before).push(node@));
        } else if str_eq(name, "ms") {
            let node = Node::new(
                NodeKind::Milestone,
                Self::marker(&e.attributes),
                false,
                node_attributes(&e.attributes),
            );
            self.add_item(Item::Node(node));
        }
    }

    /// Reads an end tag.
    fn end(&mut self)
        ensures
            final(self)@ == after_end(old(self)@),
    {
        self.clean();
        let n = self.parent_els.len();
        if n == 0 {
            return ;
        }
        if self.parent_els[n - 1].node.is_some() {
            self.flush();
            let ghost before = self.parent_els@;
            let top = self.parent_els.pop().unwrap();
            assert(frames_model(self.parent_els@) == frames_model(before).drop_last());
            match top.node {
                Some(node) => {
                    match node.kind {
                        NodeKind::Para | NodeKind::Book => {
                            let ghost finished = self.content@;
                            self.content.push(node);
                            assert(nodes_model(self.content@) == nodes_model(finished).push(node@));
                        },
                        _ => {
                            self.add_item(Item::Node(node));
                        },
                    }
                },
                None => {},
            }
        } else {
            let ghost before = self.parent_els@;
            self.parent_els.pop();
            assert(frames_model(self.parent_els@) == frames_model(before).drop_last());
        }
    }

    /// Reads one event.
    pub fn step(&mut self, event: &XmlEvent)
        ensures
            final(self)@ == usx_step(old(self)@, event@),
    {
        match event {
            XmlEvent::Start(e) => {
                self.start(e);
            },
            XmlEvent::Empty(e) => {
                self.empty(e);
            },
            XmlEvent::Text(t) => {
                if self.parent_els.len() > 1 {
                    let ghost before = self.txt@;
                    self.txt.push(copy_str(t.as_str()));
                    assert(texts_model(self.txt@) == texts_model(before).push(t@));
                }
            },
            XmlEvent::End => {
                self.end();
            },
        }
    }

    /// Ends the reading and hands out the document: the version and the finished
    /// top-level nodes.
    pub fn finish(self) -> (d: Document)
        ensures
            d@ == (DocumentModel { version: self@.version, content: self@.content }),
    {
        Document { version: self.version, content: self.content }
    }
}

/// Builds the document of a sequence of XML events.
pub fn build_document_from_events(events: &Vec<XmlEvent>) -> (d: Document)
    ensures
        d@ == document_of_events(events_model(events@)),
{
    let ghost models = events_model(events@);
    let mut reader = UsxReader::new();
    let mut i: usize = 0;
    proof {
        assert(models.take(0) == Seq::<EventModel>::empty());
    }
    while i < events.len()
        invariant
            i <= events@.len(),
            models == events_model(events@),
            reader@ == usx_run(initial_usx(), models.take(i as int)),
        decreases events@.len() - i,
    {
        proof {
            assert(models.take(i + 1).drop_last() == models.take(i as int));
            assert(models.take(i + 1).last() == events@[i as int]@);
        }
        reader.step(&events[i]);
        i = i + 1;
    }
    proof {
        assert(models.take(i as int) == models);
    }
    reader.finish()
}

/// Converts the events of an XML document to the JSON text of its document.
pub fn deserialize_from_file_usx(events: &Vec<XmlEvent>) -> (r: String)
    ensures
        r@ == document_json(document_of_events(events_model(events@))),
{
    build_document_from_events(events).to_json()
}

} // verus!
