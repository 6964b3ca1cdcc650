//! The document tree: one node per element, built once from the event
//! stream and read-only afterwards.

use vstd::prelude::*;

use crate::events::{events_of, events_view, pairs_view, tokenize, EventV, RawEvent};
use crate::XmlError;

verus! {

/// One element of a parsed document: its tag name, the last character-data
/// fragment seen directly inside it (if any), its attributes, and its child
/// elements in document order. Each node exclusively owns its children.
#[derive(Debug, PartialEq, Eq)]
pub struct XmlDoc {
    name: String,
    value: Option<String>,
    attributes: Vec<(String, String)>,
    children: Vec<XmlDoc>,
}

/// The mathematical shape of a node: the attribute pairs collapse to a map
/// (later occurrences of a key win), and the children are a sequence of
/// node shapes in document order.
#[verifier::ext_equal]
pub struct NodeV {
    pub name: Seq<char>,
    pub value: Option<Seq<char>>,
    pub attributes: Map<Seq<char>, Seq<char>>,
    pub children: Seq<NodeV>,
}

/// The attribute map described by a sequence of pairs: each pair is entered
/// in order, so for a repeated key the last occurrence wins.
pub open spec fn attrs_map(pairs: Seq<(Seq<char>, Seq<char>)>) -> Map<Seq<char>, Seq<char>>
    decreases pairs.len(),
{
    if pairs.len() == 0 {
        Map::empty()
    } else {
        attrs_map(pairs.drop_last()).insert(pairs.last().0, pairs.last().1)
    }
}

impl View for XmlDoc {
    type V = NodeV;

    closed spec fn view(&self) -> NodeV
        decreases *self,
    {
        NodeV {
            name: self.name@,
            value: match self.value {
                Some(text) => Some(text@),
                None => None,
            },
            attributes: attrs_map(pairs_view(self.attributes@)),
            children: nodes_view(self.children@),
        }
    }
}

/// The views of a sequence of nodes, in order.
pub closed spec fn nodes_view(nodes: Seq<XmlDoc>) -> Seq<NodeV>
    decreases nodes,
{
    if nodes.len() == 0 {
        Seq::empty()
    } else {
        nodes_view(nodes.drop_last()).push(nodes.last()@)
    }
}

/// A sequence of views has the length of its sequence of nodes and holds,
/// in order, the view of each node.
pub proof fn lemma_nodes_view(nodes: Seq<XmlDoc>)
    ensures
        nodes_view(nodes).len() == nodes.len(),
        forall|i: int| 0 <= i < nodes.len() ==> #[trigger] nodes_view(nodes)[i] == nodes[i]@,
    decreases nodes.len(),
{
    if nodes.len() > 0 {
        lemma_nodes_view(nodes.drop_last());
        assert(nodes_view(nodes) == nodes_view(nodes.drop_last()).push(nodes.last()@));
    } else {
        assert(nodes_view(nodes) == Seq::<NodeV>::empty());
    }
}

/// A node as an element-start event creates it: named, with its attribute
/// map, no text value and no children yet.
pub open spec fn new_node(name: Seq<char>, attributes: Seq<(Seq<char>, Seq<char>)>) -> NodeV {
    NodeV { name, value: None, attributes: attrs_map(attributes), children: Seq::empty() }
}

/// The stack after character data: the innermost open node's text value
/// becomes the new fragment, replacing any earlier one.
pub open spec fn with_value(stack: Seq<NodeV>, text: Seq<char>) -> Seq<NodeV>
    recommends
        stack.len() > 0,
{
    stack.update(
        stack.len() - 1,
        NodeV {
            name: stack.last().name,
            value: Some(text),
            attributes: stack.last().attributes,
            children: stack.last().children,
        },
    )
}

/// The stack after a finished child is handed to its parent: the child is
/// appended to the children of the node now innermost.
pub open spec fn with_child(stack: Seq<NodeV>, child: NodeV) -> Seq<NodeV>
    recommends
        stack.len() > 0,
{
    stack.update(
        stack.len() - 1,
        NodeV {
            name: stack.last().name,
            value: stack.last().value,
            attributes: stack.last().attributes,
            children: stack.last().children.push(child),
        },
    )
}

/// What building a tree from the events makes of a stack of open nodes.
///
/// Events are consumed in order. Document-start events are discarded before
/// the root element opens; an element-start opens a node; character data
/// overwrites the text value of the innermost open node; an element-end
/// closes the innermost open node, and the close of the root yields the
/// finished tree (whatever events may follow are never read). An event of
/// any other kind, or a tokenizer error, fails the whole build, as does a
/// stream that ends with a node still open.
pub open spec fn spec_build(events: Seq<EventV>, stack: Seq<NodeV>) -> Result<NodeV, XmlError>
    decreases events.len(),
{
    if events.len() == 0 {
        Err(XmlError::UnexpectedEnd)
    } else {
        let rest = events.drop_first();
        match events.first() {
            EventV::StartDocument => if stack.len() == 0 {
                spec_build(rest, stack)
            } else {
                Err(XmlError::UnexpectedEvent)
            },
            EventV::StartElement { name, attributes } => spec_build(
                rest,
                stack.push(new_node(name, attributes)),
            ),
            EventV::Characters(text) => if stack.len() > 0 {
                spec_build(rest, with_value(stack, text))
            } else {
                Err(XmlError::UnexpectedEvent)
            },
            EventV::EndElement => if stack.len() == 0 {
                Err(XmlError::UnexpectedEvent)
            } else if stack.len() == 1 {
                Ok(stack.first())
            } else {
                spec_build(rest, with_child(stack.drop_last(), stack.last()))
            },
            EventV::Other => Err(XmlError::UnexpectedEvent),
            EventV::Error => Err(XmlError::Tokenizer),
        }
    }
}

/// What parsing a text returns: the tree built from the text's event
/// sequence, starting with no open node.
pub open spec fn spec_parse(text: Seq<char>) -> Result<NodeV, XmlError> {
    spec_build(events_of(text), Seq::<NodeV>::empty())
}

/// A parse result, node replaced by its shape.
pub open spec fn result_view(result: Result<XmlDoc, XmlError>) -> Result<NodeV, XmlError> {
    match result {
        Ok(doc) => Ok(doc@),
        Err(e) => Err(e),
    }
}

/// The first node of a sequence whose tag name equals `name`, if any.
pub open spec fn first_child_named(children: Seq<NodeV>, name: Seq<char>) -> Option<NodeV>
    decreases children.len(),
{
    if children.len() == 0 {
        None
    } else if children.first().name == name {
        Some(children.first())
    } else {
        first_child_named(children.drop_first(), name)
    }
}

/// Builds the document tree from an already tokenized event sequence.
///
/// This is the whole tree-building logic; [`XmlDoc::parse`] merely runs the
/// tokenizer first and hands the events here.
#[verifier::loop_isolation(false)]
pub fn build_document(events: Vec<RawEvent>) -> (result: Result<XmlDoc, XmlError>)
    ensures
        result_view(result) == spec_build(events_view(events@), Seq::<NodeV>::empty()),
{
    let ghost all_events = events_view(events@);
    let mut events = events;
    let mut stack: Vec<XmlDoc> = Vec::new();
    proof {
        assert(nodes_view(stack@) =~= Seq::<NodeV>::empty());
    }
    loop
        invariant
            spec_build(events_view(events@), nodes_view(stack@)) == spec_build(
                all_events,
                Seq::<NodeV>::empty(),
            ),
        decreases events@.len(),
    {
        if events.len() == 0 {
            proof {
                assert(events_view(events@).len() == 0);
                assert(spec_build(events_view(events@), nodes_view(stack@))
                    == Err::<NodeV, XmlError>(XmlError::UnexpectedEnd));
            }
            return Err(XmlError::UnexpectedEnd);
        }
        let ghost pre_events = events_view(events@);
        let ghost pre_stack = nodes_view(stack@);
        let event = events.remove(0);
        proof {
            lemma_nodes_view(stack@);
            assert(pre_events.first() == event@);
            assert(pre_events.drop_first() =~= events_view(events@));
        }
        match event {
            RawEvent::StartDocument => {
                if stack.len() != 0 {
                    proof {
                        assert(spec_build(pre_events, pre_stack) == Err::<NodeV, XmlError>(
                            XmlError::UnexpectedEvent,
                        ));
                    }
                    return Err(XmlError::UnexpectedEvent);
                }
                proof {
                    assert(spec_build(pre_events, pre_stack) == spec_build(
                        pre_events.drop_first(),
                        pre_stack,
                    ));
                }
            },
            RawEvent::StartElement { name, attributes } => {
                let ghost name_v = name@;
                let ghost attrs_v = pairs_view(attributes@);
                let node = XmlDoc::new(name, attributes);
                stack.push(node);
                proof {
                    lemma_nodes_view(stack@);
                    assert(nodes_view(stack@) =~= pre_stack.push(node@));
                    assert(spec_build(pre_events, pre_stack) == spec_build(
                        pre_events.drop_first(),
                        pre_stack.push(new_node(name_v, attrs_v)),
                    ));
                }
            },
            RawEvent::Characters(text) => {
                if stack.len() == 0 {
                    proof {
                        assert(spec_build(pre_events, pre_stack) == Err::<NodeV, XmlError>(
                            XmlError::UnexpectedEvent,
                        ));
                    }
                    return Err(XmlError::UnexpectedEvent);
                }
                let ghost text_v = text@;
                let mut top = stack.pop().unwrap();
                let ghost pre_top = top@;
                let ghost pre_top_children = top.children@;
                top.value = Some(text);
                stack.push(top);
                proof {
                    lemma_nodes_view(stack@);
                    lemma_nodes_view(pre_top_children);
                    assert(pre_top == pre_stack.last());
                    assert(top@.children =~= pre_top.children);
                    assert(top@ =~~= with_value(pre_stack, text_v).last());
                    assert(nodes_view(stack@) =~~= with_value(pre_stack, text_v));
                    assert(spec_build(pre_events, pre_stack) == spec_build(
                        pre_events.drop_first(),
                        with_value(pre_stack, text_v),
                    ));
                }
            },
            RawEvent::EndElement => {
                if stack.len() == 0 {
                    proof {
                        assert(spec_build(pre_events, pre_stack) == Err::<NodeV, XmlError>(
                            XmlError::UnexpectedEvent,
                        ));
                    }
                    return Err(XmlError::UnexpectedEvent);
                }
                let child = stack.pop().unwrap();
                if stack.len() == 0 {
                    proof {
                        assert(pre_stack.len() == 1);
                        assert(child@ == pre_stack.first());
                        assert(spec_build(pre_events, pre_stack) == Ok::<NodeV, XmlError>(
                            pre_stack.first(),
                        ));
                    }
                    return Ok(child);
                }
                let mut parent = stack.pop().unwrap();
                let ghost pre_parent = parent@;
                let ghost pre_parent_children = parent.children@;
                parent.children.push(child);
                stack.push(parent);
                proof {
                    lemma_nodes_view(stack@);
                    lemma_nodes_view(pre_parent_children);
                    lemma_nodes_view(parent.children@);
                    assert(pre_stack.len() >= 2);
                    assert(child@ == pre_stack.last());
                    assert(pre_parent == pre_stack.drop_last().last());
                    assert(parent.children@ == pre_parent_children.push(child));
                    assert(nodes_view(parent.children@) =~= pre_parent.children.push(child@));
                    assert(parent@ =~~= with_child(pre_stack.drop_last(), pre_stack.last()).last());
                    assert(nodes_view(stack@) =~~= with_child(
                        pre_stack.drop_last(),
                        pre_stack.last(),
                    ));
                    assert(spec_build(pre_events, pre_stack) == spec_build(
                        pre_events.drop_first(),
                        with_child(pre_stack.drop_last(), pre_stack.last()),
                    ));
                }
            },
            RawEvent::Other => {
                proof {
                    assert(spec_build(pre_events, pre_stack) == Err::<NodeV, XmlError>(
                        XmlError::UnexpectedEvent,
                    ));
                }
                return Err(XmlError::UnexpectedEvent);
            },
            RawEvent::Error => {
                proof {
                    assert(spec_build(pre_events, pre_stack) == Err::<NodeV, XmlError>(
                        XmlError::Tokenizer,
                    ));
                }
                return Err(XmlError::Tokenizer);
            },
        }
    }
}

impl XmlDoc {
    /// Parses a document text into its tree.
    ///
    /// The text is tokenized and the events are consumed as [`spec_build`]
    /// describes: the result is the root element with its full subtree, or
    /// the first failure, with no partial tree.
    pub fn parse(doc: &str) -> (result: Result<Self, XmlError>)
        ensures
            result_view(result) == spec_parse(doc@),
    {
        let events = tokenize(doc);
        build_document(events)
    }

    /// A fresh node with the given tag name and attribute pairs: no text
    /// value and no children yet.
    pub fn new(name: String, attributes: Vec<(String, String)>) -> (doc: Self)
        ensures
            doc@ == new_node(name@, pairs_view(attributes@)),
    {
        let doc = Self { name, value: None, attributes, children: Vec::new() };
        proof {
            assert(doc@.children =~= Seq::<NodeV>::empty());
            assert(doc@ =~= new_node(doc.name@, pairs_view(doc.attributes@)));
        }
        doc
    }

    /// The tag name this node was created with.
    pub fn name(&self) -> (name: &str)
        ensures
            name@ == self@.name,
    {
        self.name.as_str()
    }

    /// The last character-data fragment recorded directly under this node,
    /// or `None` if the element held no character data of its own.
    pub fn value(&self) -> (value: Option<&String>)
        ensures
            match value {
                Some(text) => self@.value == Some(text@),
                None => self@.value is None,
            },
    {
        self.value.as_ref()
    }

    /// This node's child elements, in document order.
    pub fn children(&self) -> (children: &[XmlDoc])
        ensures
            nodes_view(children@) == self@.children,
    {
        self.children.as_slice()
    }

    /// The value of the attribute with exactly this name, or `None` if the
    /// name was never set on this node.
    pub fn get_attrib(&self, name: &str) -> (value: Option<&String>)
        ensures
            match value {
                Some(text) => self@.attributes.contains_key(name@) && text@
                    == self@.attributes[name@],
                None => !self@.attributes.contains_key(name@),
            },
    {
        let key: String = name.to_owned();
        let mut i: usize = self.attributes.len();
        while i > 0
            invariant
                i <= self.attributes@.len(),
                key@ == name@,
                forall|j: int|
                    i <= j < self.attributes@.len() ==> pairs_view(self.attributes@)[j].0
                        != name@,
            decreases i,
        {
            i = i - 1;
            if self.attributes[i].0 == key {
                proof {
                    lemma_attrs_map_last_match(pairs_view(self.attributes@), name@, i as int);
                }
                return Some(&self.attributes[i].1);
            }
        }
        proof {
            lemma_attrs_map_absent(pairs_view(self.attributes@), name@);
        }
        None
    }

    /// The first direct child whose tag name equals `name`, scanning in
    /// document order, or `None` if no child matches.
    pub fn get_child(&self, name: &str) -> (child: Option<&XmlDoc>)
        ensures
            match child {
                Some(c) => first_child_named(self@.children, name@) == Some(c@),
                None => first_child_named(self@.children, name@) is None,
            },
    {
        let key: String = name.to_owned();
        let mut i: usize = 0;
        proof {
            assert(self@.children.skip(0) =~= self@.children);
        }
        while i < self.children.len()
            invariant
                i <= self.children@.len(),
                key@ == name@,
                first_child_named(self@.children, name@) == first_child_named(
                    self@.children.skip(i as int),
                    name@,
                ),
            decreases self.children@.len() - i,
        {
            proof {
                lemma_nodes_view(self.children@);
                assert(self@.children.skip(i as int).first() == self.children@[i as int]@);
            }
            if self.children[i].name == key {
                proof {
                    assert(first_child_named(self@.children.skip(i as int), name@)
                        == Some(self@.children[i as int]));
                }
                return Some(&self.children[i]);
            }
            proof {
                assert(self@.children.skip(i as int).drop_first() =~= self@.children.skip(
                    i as int + 1,
                ));
                assert(first_child_named(self@.children.skip(i as int), name@)
                    == first_child_named(self@.children.skip(i as int).drop_first(), name@));
            }
            i = i + 1;
        }
        proof {
            lemma_nodes_view(self.children@);
            assert(self@.children.skip(i as int).len() == 0);
            assert(first_child_named(self@.children.skip(i as int), name@) is None);
        }
        None
    }
}

/// No key, no entry: a key that occurs in no pair is absent from the map.
proof fn lemma_attrs_map_absent(pairs: Seq<(Seq<char>, Seq<char>)>, key: Seq<char>)
    requires
        forall|j: int| 0 <= j < pairs.len() ==> pairs[j].0 != key,
    ensures
        !attrs_map(pairs).contains_key(key),
    decreases pairs.len(),
{
    if pairs.len() > 0 {
        lemma_attrs_map_absent(pairs.drop_last(), key);
    }
}

/// The last pair with a given key decides that key's value in the map.
proof fn lemma_attrs_map_last_match(pairs: Seq<(Seq<char>, Seq<char>)>, key: Seq<char>, i: int)
    requires
        0 <= i < pairs.len(),
        pairs[i].0 == key,
        forall|j: int| i < j < pairs.len() ==> pairs[j].0 != key,
    ensures
        attrs_map(pairs).contains_key(key),
        attrs_map(pairs)[key] == pairs[i].1,
    decreases pairs.len(),
{
    if i < pairs.len() - 1 {
        lemma_attrs_map_last_match(pairs.drop_last(), key, i);
    }
}

/// Parsing is deterministic: any two results that parsing one and the same
/// text can return hold identical name, value, attribute and children
/// content, so re-parsing a text yields an identical tree.
pub proof fn lemma_parse_deterministic(
    text: Seq<char>,
    r1: Result<XmlDoc, XmlError>,
    r2: Result<XmlDoc, XmlError>,
)
    requires
        result_view(r1) == spec_parse(text),
        result_view(r2) == spec_parse(text),
    ensures
        result_view(r1) == result_view(r2),
{
}

} // verus!
