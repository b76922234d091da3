//! The serializer: the structural inverse of the composer. It walks a node
//! tree and regenerates the event stream that would compose back to it. A
//! tree has no shared nodes — aliases are resolved to copies at composition
//! time — so every node is serialized at its place.

use vstd::prelude::*;
use crate::composer::{Node, NodeV, NodeValue, NodeValueV};
use crate::event::{Event, EventV, ScalarImplicit, VersionPair};
use crate::mark::Mark;
use crate::tags::{tag_map, tag_seq, tag_str};

verus! {

/// A serialization failure; serializing a composed tree never fails, but
/// the shape is kept for callers that match on it.
#[derive(Debug)]
pub struct SerializerError {
    pub message: String,
    pub mark: Option<Mark>,
}

pub open spec fn ser_zero_mark() -> Mark {
    Mark { line: 0, column: 0, index: 0 }
}

/// The scalar event serialized for a scalar node: the plain string tag is
/// left implicit outside canonical mode.
pub open spec fn spec_ser_scalar(
    value: Seq<char>,
    tag: Seq<char>,
    style: Option<char>,
    canonical: bool,
) -> EventV {
    EventV::Scalar {
        anchor: None,
        tag: if canonical || tag != tag_str() {
            Some(tag)
        } else {
            None
        },
        implicit: if tag == tag_str() && !canonical {
            ScalarImplicit { plain: true, quoted: false }
        } else {
            ScalarImplicit { plain: false, quoted: true }
        },
        value,
        start_mark: ser_zero_mark(),
        end_mark: ser_zero_mark(),
        style,
    }
}

pub open spec fn spec_ser_seq_start(
    tag: Seq<char>,
    flow_style: Option<bool>,
    canonical: bool,
) -> EventV {
    EventV::SequenceStart {
        anchor: None,
        tag: if canonical || tag != tag_seq() {
            Some(tag)
        } else {
            None
        },
        implicit: !canonical && tag == tag_seq(),
        start_mark: ser_zero_mark(),
        end_mark: ser_zero_mark(),
        flow_style: match flow_style {
            Some(b) => b,
            None => false,
        },
    }
}

pub open spec fn spec_ser_map_start(
    tag: Seq<char>,
    flow_style: Option<bool>,
    canonical: bool,
) -> EventV {
    EventV::MappingStart {
        anchor: None,
        tag: if canonical || tag != tag_map() {
            Some(tag)
        } else {
            None
        },
        implicit: !canonical && tag == tag_map(),
        start_mark: ser_zero_mark(),
        end_mark: ser_zero_mark(),
        flow_style: match flow_style {
            Some(b) => b,
            None => false,
        },
    }
}

pub open spec fn spec_ser_seq_end() -> EventV {
    EventV::SequenceEnd { start_mark: ser_zero_mark(), end_mark: ser_zero_mark() }
}

pub open spec fn spec_ser_map_end() -> EventV {
    EventV::MappingEnd { start_mark: ser_zero_mark(), end_mark: ser_zero_mark() }
}

/// The events serialized for one node.
pub open spec fn spec_ser_node(n: NodeV, canonical: bool) -> Seq<EventV>
    decreases n,
{
    spec_ser_value(n.tag, n.value, n.style, n.flow_style, canonical)
}

/// The events serialized for a node's content.
pub open spec fn spec_ser_value(
    tag: Seq<char>,
    v: NodeValueV,
    style: Option<char>,
    flow_style: Option<bool>,
    canonical: bool,
) -> Seq<EventV>
    decreases v,
{
    match v {
        NodeValueV::Scalar(value) => seq![spec_ser_scalar(value, tag, style, canonical)],
        NodeValueV::Sequence(items) => seq![spec_ser_seq_start(tag, flow_style, canonical)]
            + spec_ser_items(items, canonical) + seq![spec_ser_seq_end()],
        NodeValueV::Mapping(pairs) => seq![spec_ser_map_start(tag, flow_style, canonical)]
            + spec_ser_pairs(pairs, canonical) + seq![spec_ser_map_end()],
    }
}

pub open spec fn spec_ser_items(items: Seq<NodeV>, canonical: bool) -> Seq<EventV>
    decreases items,
{
    if items.len() == 0 {
        Seq::empty()
    } else {
        spec_ser_items(items.drop_last(), canonical) + spec_ser_node(items.last(), canonical)
    }
}

pub open spec fn spec_ser_pairs(pairs: Seq<(NodeV, NodeV)>, canonical: bool) -> Seq<EventV>
    decreases pairs,
{
    if pairs.len() == 0 {
        Seq::empty()
    } else {
        spec_ser_pairs(pairs.drop_last(), canonical) + spec_ser_node(pairs.last().0, canonical)
            + spec_ser_node(pairs.last().1, canonical)
    }
}

/// The full event stream serialized for a tree: the stream pair, one
/// document pair, and the node's events between them.
pub open spec fn spec_serialize(
    n: NodeV,
    canonical: bool,
    version: Option<VersionPair>,
    explicit_start: bool,
    explicit_end: bool,
) -> Seq<EventV> {
    seq![
        EventV::StreamStart {
            start_mark: ser_zero_mark(),
            end_mark: ser_zero_mark(),
            encoding: Some("utf-8"@),
        },
        EventV::DocumentStart {
            start_mark: ser_zero_mark(),
            end_mark: ser_zero_mark(),
            explicit: explicit_start,
            version,
            tags: None,
        },
    ] + spec_ser_node(n, canonical) + seq![
        EventV::DocumentEnd {
            start_mark: ser_zero_mark(),
            end_mark: ser_zero_mark(),
            explicit: explicit_end,
        },
        EventV::StreamEnd { start_mark: ser_zero_mark(), end_mark: ser_zero_mark() },
    ]
}

proof fn lemma_ev_push(v: Vec<Event>, w: Vec<Event>, x: Event)
    requires
        w@ == v@.push(x),
    ensures
        w.deep_view() == v.deep_view().push(x@),
{
    assert(w.deep_view() =~= v.deep_view().push(x@));
}

fn zmark() -> (r: Mark)
    ensures
        r == ser_zero_mark(),
{
    Mark::new(0, 0, 0)
}

/// The serializer: per-call configuration for canonical mode, the emitted
/// version directive, and explicit document markers.
pub struct Serializer {
    canonical: bool,
    version: Option<VersionPair>,
    explicit_start: bool,
    explicit_end: bool,
}

impl Serializer {
    pub closed spec fn spec_canonical(&self) -> bool {
        self.canonical
    }

    pub closed spec fn spec_version(&self) -> Option<VersionPair> {
        self.version
    }

    pub closed spec fn spec_explicit_start(&self) -> bool {
        self.explicit_start
    }

    pub closed spec fn spec_explicit_end(&self) -> bool {
        self.explicit_end
    }

    /// A serializer with the defaults: not canonical, version 1.2, implicit
    /// document markers.
    pub fn new() -> (r: Serializer)
        ensures
            !r.spec_canonical(),
            r.spec_version() == Some(VersionPair { major: 1u8, minor: 2u8 }),
            !r.spec_explicit_start(),
            !r.spec_explicit_end(),
    {
        Serializer {
            canonical: false,
            version: Some(VersionPair { major: 1, minor: 2 }),
            explicit_start: false,
            explicit_end: false,
        }
    }

    pub fn with_canonical(&mut self, canonical: bool)
        ensures
            final(self).spec_canonical() == canonical,
            final(self).spec_version() == old(self).spec_version(),
            final(self).spec_explicit_start() == old(self).spec_explicit_start(),
            final(self).spec_explicit_end() == old(self).spec_explicit_end(),
    {
        self.canonical = canonical;
    }

    pub fn with_version(&mut self, version: VersionPair)
        ensures
            final(self).spec_version() == Some(version),
            final(self).spec_canonical() == old(self).spec_canonical(),
            final(self).spec_explicit_start() == old(self).spec_explicit_start(),
            final(self).spec_explicit_end() == old(self).spec_explicit_end(),
    {
        self.version = Some(version);
    }

    pub fn with_explicit_start(&mut self, explicit: bool)
        ensures
            final(self).spec_explicit_start() == explicit,
            final(self).spec_canonical() == old(self).spec_canonical(),
            final(self).spec_version() == old(self).spec_version(),
            final(self).spec_explicit_end() == old(self).spec_explicit_end(),
    {
        self.explicit_start = explicit;
    }

    pub fn with_explicit_end(&mut self, explicit: bool)
        ensures
            final(self).spec_explicit_end() == explicit,
            final(self).spec_canonical() == old(self).spec_canonical(),
            final(self).spec_version() == old(self).spec_version(),
            final(self).spec_explicit_start() == old(self).spec_explicit_start(),
    {
        self.explicit_end = explicit;
    }

    fn serialize_node_internal(&self, node: &Node, events: &mut Vec<Event>)
        ensures
            final(events).deep_view() == old(events).deep_view() + spec_ser_node(
                node@,
                self.spec_canonical(),
            ),
        decreases *node, 1int,
    {
        let ghost base = events.deep_view();
        match &node.value {
            NodeValue::Scalar(value) => {
                let tag_event: Option<String>;
                let implicit: ScalarImplicit;
                let is_str_tag = crate::chars::eq_lit(
                    &crate::chars::str_to_chars(node.tag.as_str()),
                    "tag:yaml.org,2002:str",
                );
                if self.canonical || !is_str_tag {
                    tag_event = Some(node.tag.clone());
                } else {
                    tag_event = None;
                }
                if is_str_tag && !self.canonical {
                    implicit = ScalarImplicit { plain: true, quoted: false };
                } else {
                    implicit = ScalarImplicit { plain: false, quoted: true };
                }
                let ev = Event::Scalar {
                    anchor: None,
                    tag: tag_event,
                    implicit,
                    value: value.clone(),
                    start_mark: zmark(),
                    end_mark: zmark(),
                    style: node.style,
                };
                let ghost o = *events;
                events.push(ev);
                proof {
                    lemma_ev_push(o, *events, ev);
                    assert(events.deep_view() =~= base + spec_ser_node(
                        node@,
                        self.spec_canonical(),
                    ));
                }
            },
            NodeValue::Sequence(items) => {
                let is_seq_tag = crate::chars::eq_lit(
                    &crate::chars::str_to_chars(node.tag.as_str()),
                    "tag:yaml.org,2002:seq",
                );
                let tag_event: Option<String> = if self.canonical || !is_seq_tag {
                    Some(node.tag.clone())
                } else {
                    None
                };
                let flow = match node.flow_style {
                    Some(b) => b,
                    None => false,
                };
                let ev = Event::SequenceStart {
                    anchor: None,
                    tag: tag_event,
                    implicit: !self.canonical && is_seq_tag,
                    start_mark: zmark(),
                    end_mark: zmark(),
                    flow_style: flow,
                };
                let ghost o = *events;
                events.push(ev);
                proof {
                    lemma_ev_push(o, *events, ev);
                }
                let ghost after_start = events.deep_view();
                let mut i: usize = 0;
                proof {
                    crate::composer::lemma_view_items_index(items@);
                    assert(crate::composer::view_items(items@).subrange(0, 0)
                        =~= Seq::<NodeV>::empty());
                }
                while i < items.len()
                    invariant
                        0 <= i <= items@.len(),
                        node.value is Sequence,
                        items@ == node.value->Sequence_0@,
                        crate::composer::view_items(items@).len() == items@.len(),
                        forall|j: int|
                            0 <= j < items@.len() ==> #[trigger] crate::composer::view_items(
                                items@,
                            )[j] == crate::composer::view_node(items@[j]),
                        events.deep_view() == after_start + spec_ser_items(
                            crate::composer::view_items(items@).subrange(0, i as int),
                            self.spec_canonical(),
                        ),
                    decreases items@.len() - i,
                {
                    proof {
                        assert(decreases_to!(*node => node.value));
                        assert(decreases_to!(node.value => node.value->Sequence_0));
                        assert(decreases_to!(node.value->Sequence_0 => node.value->Sequence_0@));
                        assert(decreases_to!(items@ => items@[i as int]));
                    }
                    self.serialize_node_internal(&items[i], events);
                    proof {
                        let iv = crate::composer::view_items(items@);
                        assert(iv.subrange(0, i + 1).drop_last() =~= iv.subrange(0, i as int));
                        assert(iv.subrange(0, i + 1).last() == iv[i as int]);
                        assert((after_start + spec_ser_items(
                            iv.subrange(0, i as int),
                            self.spec_canonical(),
                        )) + spec_ser_node(crate::composer::view_node(items@[i as int]),
                            self.spec_canonical()) =~= after_start + spec_ser_items(
                            iv.subrange(0, i + 1),
                            self.spec_canonical(),
                        ));
                    }
                    i = i + 1;
                }
                let endev = Event::SequenceEnd { start_mark: zmark(), end_mark: zmark() };
                let ghost o2 = *events;
                events.push(endev);
                proof {
                    lemma_ev_push(o2, *events, endev);
                    let iv = crate::composer::view_items(items@);
                    assert(iv.subrange(0, iv.len() as int) == iv);
                    assert(events.deep_view() =~= base + spec_ser_node(
                        node@,
                        self.spec_canonical(),
                    ));
                }
            },
            NodeValue::Mapping(pairs) => {
                let is_map_tag = crate::chars::eq_lit(
                    &crate::chars::str_to_chars(node.tag.as_str()),
                    "tag:yaml.org,2002:map",
                );
                let tag_event: Option<String> = if self.canonical || !is_map_tag {
                    Some(node.tag.clone())
                } else {
                    None
                };
                let flow = match node.flow_style {
                    Some(b) => b,
                    None => false,
                };
                let ev = Event::MappingStart {
                    anchor: None,
                    tag: tag_event,
                    implicit: !self.canonical && is_map_tag,
                    start_mark: zmark(),
                    end_mark: zmark(),
                    flow_style: flow,
                };
                let ghost o = *events;
                events.push(ev);
                proof {
                    lemma_ev_push(o, *events, ev);
                }
                let ghost after_start = events.deep_view();
                let mut i: usize = 0;
                proof {
                    crate::composer::lemma_view_pairs_index(pairs@);
                    assert(crate::composer::view_pairs(pairs@).subrange(0, 0) =~= Seq::<
                        (NodeV, NodeV),
                    >::empty());
                }
                while i < pairs.len()
                    invariant
                        0 <= i <= pairs@.len(),
                        node.value is Mapping,
                        pairs@ == node.value->Mapping_0@,
                        crate::composer::view_pairs(pairs@).len() == pairs@.len(),
                        forall|j: int|
                            0 <= j < pairs@.len() ==> #[trigger] crate::composer::view_pairs(
                                pairs@,
                            )[j] == (
                                crate::composer::view_node(pairs@[j].0),
                                crate::composer::view_node(pairs@[j].1),
                            ),
                        events.deep_view() == after_start + spec_ser_pairs(
                            crate::composer::view_pairs(pairs@).subrange(0, i as int),
                            self.spec_canonical(),
                        ),
                    decreases pairs@.len() - i,
                {
                    proof {
                        assert(decreases_to!(*node => node.value));
                        assert(decreases_to!(node.value => node.value->Mapping_0));
                        assert(decreases_to!(node.value->Mapping_0 => node.value->Mapping_0@));
                        assert(decreases_to!(pairs@ => pairs@[i as int]));
                        assert(decreases_to!(pairs@[i as int] => pairs@[i as int].0));
                        assert(decreases_to!(pairs@[i as int] => pairs@[i as int].1));
                        assert(decreases_to!(*node => pairs@[i as int].0));
                        assert(decreases_to!(*node => pairs@[i as int].1));
                    }
                    self.serialize_node_internal(&pairs[i].0, events);
                    self.serialize_node_internal(&pairs[i].1, events);
                    proof {
                        let pv = crate::composer::view_pairs(pairs@);
                        assert(pv.subrange(0, i + 1).drop_last() =~= pv.subrange(0, i as int));
                        assert(pv.subrange(0, i + 1).last() == pv[i as int]);
                        assert(events.deep_view() =~= after_start + spec_ser_pairs(
                            pv.subrange(0, i + 1),
                            self.spec_canonical(),
                        ));
                    }
                    i = i + 1;
                }
                let endev = Event::MappingEnd { start_mark: zmark(), end_mark: zmark() };
                let ghost o2 = *events;
                events.push(endev);
                proof {
                    lemma_ev_push(o2, *events, endev);
                    let pv = crate::composer::view_pairs(pairs@);
                    assert(pv.subrange(0, pv.len() as int) == pv);
                    assert(events.deep_view() =~= base + spec_ser_node(
                        node@,
                        self.spec_canonical(),
                    ));
                }
            },
        }
    }

    /// Serialize a node tree into its full event stream, as
    /// `spec_serialize` describes.
    pub fn serialize_node(&mut self, node: &Node) -> (r: Result<Vec<Event>, SerializerError>)
        ensures
            r is Ok,
            r->Ok_0.deep_view() == spec_serialize(
                node@,
                old(self).spec_canonical(),
                old(self).spec_version(),
                old(self).spec_explicit_start(),
                old(self).spec_explicit_end(),
            ),
    {
        let mut events: Vec<Event> = Vec::new();
        let e1 = Event::StreamStart {
            start_mark: zmark(),
            end_mark: zmark(),
            encoding: Some(String::from_str("utf-8")),
        };
        let ghost o0 = events;
        events.push(e1);
        let e2 = Event::DocumentStart {
            start_mark: zmark(),
            end_mark: zmark(),
            explicit: self.explicit_start,
            version: self.version,
            tags: None,
        };
        let ghost o1 = events;
        events.push(e2);
        proof {
            lemma_ev_push(o0, o1, e1);
            lemma_ev_push(o1, events, e2);
            assert(o0.deep_view() =~= Seq::<EventV>::empty());
        }
        self.serialize_node_internal(node, &mut events);
        let e3 = Event::DocumentEnd {
            start_mark: zmark(),
            end_mark: zmark(),
            explicit: self.explicit_end,
        };
        let ghost o2 = events;
        events.push(e3);
        let e4 = Event::StreamEnd { start_mark: zmark(), end_mark: zmark() };
        let ghost o3 = events;
        events.push(e4);
        proof {
            lemma_ev_push(o2, o3, e3);
            lemma_ev_push(o3, events, e4);
            assert(events.deep_view() =~= spec_serialize(
                node@,
                self.spec_canonical(),
                self.spec_version(),
                self.spec_explicit_start(),
                self.spec_explicit_end(),
            ));
        }
        Ok(events)
    }
}

/// Serialize a node tree with the default options.
pub fn serialize_rust(node: &Node) -> (r: Result<Vec<Event>, SerializerError>)
    ensures
        r is Ok,
        r->Ok_0.deep_view() == spec_serialize(
            node@,
            false,
            Some(VersionPair { major: 1u8, minor: 2u8 }),
            false,
            false,
        ),
{
    let mut serializer = Serializer::new();
    serializer.serialize_node(node)
}

/// Serialize a node tree with explicit options.
pub fn serialize_with_options(
    node: &Node,
    canonical: Option<bool>,
    version: Option<VersionPair>,
    explicit_start: Option<bool>,
    explicit_end: Option<bool>,
) -> (r: Result<Vec<Event>, SerializerError>)
    ensures
        r is Ok,
        r->Ok_0.deep_view() == spec_serialize(
            node@,
            (match canonical {
                Some(b) => b,
                None => false,
            }),
            (match version {
                Some(v) => Some(v),
                None => Some(VersionPair { major: 1u8, minor: 2u8 }),
            }),
            (match explicit_start {
                Some(b) => b,
                None => false,
            }),
            (match explicit_end {
                Some(b) => b,
                None => false,
            }),
        ),
{
    let mut serializer = Serializer::new();
    match canonical {
        Some(b) => serializer.with_canonical(b),
        None => {},
    }
    match version {
        Some(v) => serializer.with_version(v),
        None => {},
    }
    match explicit_start {
        Some(b) => serializer.with_explicit_start(b),
        None => {},
    }
    match explicit_end {
        Some(b) => serializer.with_explicit_end(b),
        None => {},
    }
    serializer.serialize_node(node)
}

} // verus!
