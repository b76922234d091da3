//! Structural events: the intermediate representation between tokens and the
//! node tree. Events form a well-nested stream: one `StreamStart`/`StreamEnd`
//! pair, document pairs inside it, and balanced container events inside each
//! document.

use vstd::prelude::*;
use crate::mark::Mark;

verus! {

/// The implicit-resolution pair carried by scalar events: whether the value
/// may stay untagged when plain, and when quoted.
#[derive(Debug, Clone, Copy, PartialEq, Eq, Structural)]
pub struct ScalarImplicit {
    pub plain: bool,
    pub quoted: bool,
}

/// A YAML version pair, as carried by an explicit `%YAML` directive.
#[derive(Debug, Clone, Copy, PartialEq, Eq, Structural)]
pub struct VersionPair {
    pub major: u8,
    pub minor: u8,
}

/// A structural event with kind-specific fields. Every event carries start
/// and end marks for diagnostics.
#[derive(Debug, Clone)]
pub enum Event {
    StreamStart { start_mark: Mark, end_mark: Mark, encoding: Option<String> },
    StreamEnd { start_mark: Mark, end_mark: Mark },
    DocumentStart {
        start_mark: Mark,
        end_mark: Mark,
        explicit: bool,
        version: Option<VersionPair>,
        tags: Option<Vec<(String, String)>>,
    },
    DocumentEnd { start_mark: Mark, end_mark: Mark, explicit: bool },
    Alias { anchor: String, start_mark: Mark, end_mark: Mark },
    Scalar {
        anchor: Option<String>,
        tag: Option<String>,
        implicit: ScalarImplicit,
        value: String,
        start_mark: Mark,
        end_mark: Mark,
        style: Option<char>,
    },
    SequenceStart {
        anchor: Option<String>,
        tag: Option<String>,
        implicit: bool,
        start_mark: Mark,
        end_mark: Mark,
        flow_style: bool,
    },
    SequenceEnd { start_mark: Mark, end_mark: Mark },
    MappingStart {
        anchor: Option<String>,
        tag: Option<String>,
        implicit: bool,
        start_mark: Mark,
        end_mark: Mark,
        flow_style: bool,
    },
    MappingEnd { start_mark: Mark, end_mark: Mark },
}

/// The mathematical image of an event.
pub enum EventV {
    StreamStart { start_mark: Mark, end_mark: Mark, encoding: Option<Seq<char>> },
    StreamEnd { start_mark: Mark, end_mark: Mark },
    DocumentStart {
        start_mark: Mark,
        end_mark: Mark,
        explicit: bool,
        version: Option<VersionPair>,
        tags: Option<Seq<(Seq<char>, Seq<char>)>>,
    },
    DocumentEnd { start_mark: Mark, end_mark: Mark, explicit: bool },
    Alias { anchor: Seq<char>, start_mark: Mark, end_mark: Mark },
    Scalar {
        anchor: Option<Seq<char>>,
        tag: Option<Seq<char>>,
        implicit: ScalarImplicit,
        value: Seq<char>,
        start_mark: Mark,
        end_mark: Mark,
        style: Option<char>,
    },
    SequenceStart {
        anchor: Option<Seq<char>>,
        tag: Option<Seq<char>>,
        implicit: bool,
        start_mark: Mark,
        end_mark: Mark,
        flow_style: bool,
    },
    SequenceEnd { start_mark: Mark, end_mark: Mark },
    MappingStart {
        anchor: Option<Seq<char>>,
        tag: Option<Seq<char>>,
        implicit: bool,
        start_mark: Mark,
        end_mark: Mark,
        flow_style: bool,
    },
    MappingEnd { start_mark: Mark, end_mark: Mark },
}

pub open spec fn view_opt_string(o: Option<String>) -> Option<Seq<char>> {
    match o {
        Some(s) => Some(s@),
        None => None,
    }
}

pub open spec fn view_tag_table(o: Option<Vec<(String, String)>>) -> Option<
    Seq<(Seq<char>, Seq<char>)>,
> {
    match o {
        Some(v) => Some(Seq::new(v@.len(), |i: int| (v@[i].0@, v@[i].1@))),
        None => None,
    }
}

impl View for Event {
    type V = EventV;

    open spec fn view(&self) -> EventV {
        match self {
            Event::StreamStart { start_mark, end_mark, encoding } => EventV::StreamStart {
                start_mark: *start_mark,
                end_mark: *end_mark,
                encoding: view_opt_string(*encoding),
            },
            Event::StreamEnd { start_mark, end_mark } => EventV::StreamEnd {
                start_mark: *start_mark,
                end_mark: *end_mark,
            },
            Event::DocumentStart { start_mark, end_mark, explicit, version, tags } => {
                EventV::DocumentStart {
                    start_mark: *start_mark,
                    end_mark: *end_mark,
                    explicit: *explicit,
                    version: *version,
                    tags: view_tag_table(*tags),
                }
            },
            Event::DocumentEnd { start_mark, end_mark, explicit } => EventV::DocumentEnd {
                start_mark: *start_mark,
                end_mark: *end_mark,
                explicit: *explicit,
            },
            Event::Alias { anchor, start_mark, end_mark } => EventV::Alias {
                anchor: anchor@,
                start_mark: *start_mark,
                end_mark: *end_mark,
            },
            Event::Scalar { anchor, tag, implicit, value, start_mark, end_mark, style } => {
                EventV::Scalar {
                    anchor: view_opt_string(*anchor),
                    tag: view_opt_string(*tag),
                    implicit: *implicit,
                    value: value@,
                    start_mark: *start_mark,
                    end_mark: *end_mark,
                    style: *style,
                }
            },
            Event::SequenceStart { anchor, tag, implicit, start_mark, end_mark, flow_style } => {
                EventV::SequenceStart {
                    anchor: view_opt_string(*anchor),
                    tag: view_opt_string(*tag),
                    implicit: *implicit,
                    start_mark: *start_mark,
                    end_mark: *end_mark,
                    flow_style: *flow_style,
                }
            },
            Event::SequenceEnd { start_mark, end_mark } => EventV::SequenceEnd {
                start_mark: *start_mark,
                end_mark: *end_mark,
            },
            Event::MappingStart { anchor, tag, implicit, start_mark, end_mark, flow_style } => {
                EventV::MappingStart {
                    anchor: view_opt_string(*anchor),
                    tag: view_opt_string(*tag),
                    implicit: *implicit,
                    start_mark: *start_mark,
                    end_mark: *end_mark,
                    flow_style: *flow_style,
                }
            },
            Event::MappingEnd { start_mark, end_mark } => EventV::MappingEnd {
                start_mark: *start_mark,
                end_mark: *end_mark,
            },
        }
    }
}

impl DeepView for Event {
    type V = EventV;

    open spec fn deep_view(&self) -> EventV {
        self.view()
    }
}

fn clone_tag_table(v: &Option<Vec<(String, String)>>) -> (r: Option<Vec<(String, String)>>)
    ensures
        view_tag_table(r) == view_tag_table(*v),
{
    match v {
        None => None,
        Some(table) => {
            let mut out: Vec<(String, String)> = Vec::new();
            let mut i: usize = 0;
            while i < table.len()
                invariant
                    0 <= i <= table@.len(),
                    out@.len() == i,
                    forall|j: int|
                        0 <= j < i ==> #[trigger] out@[j].0@ == table@[j].0@ && out@[j].1@
                            == table@[j].1@,
                decreases table@.len() - i,
            {
                let k = table[i].0.clone();
                let val = table[i].1.clone();
                out.push((k, val));
                i = i + 1;
            }
            let r = Some(out);
            proof {
                assert(view_tag_table(r)->0 =~= view_tag_table(Some(*table))->0);
            }
            r
        },
    }
}

fn clone_opt_string(v: &Option<String>) -> (r: Option<String>)
    ensures
        view_opt_string(r) == view_opt_string(*v),
{
    match v {
        Some(s) => Some(s.clone()),
        None => None,
    }
}

impl Event {
    /// An equal copy of this event.
    pub fn duplicate(&self) -> (r: Event)
        ensures
            r@ == self@,
    {
        match self {
            Event::StreamStart { start_mark, end_mark, encoding } => Event::StreamStart {
                start_mark: *start_mark,
                end_mark: *end_mark,
                encoding: clone_opt_string(encoding),
            },
            Event::StreamEnd { start_mark, end_mark } => Event::StreamEnd {
                start_mark: *start_mark,
                end_mark: *end_mark,
            },
            Event::DocumentStart { start_mark, end_mark, explicit, version, tags } => {
                Event::DocumentStart {
                    start_mark: *start_mark,
                    end_mark: *end_mark,
                    explicit: *explicit,
                    version: *version,
                    tags: clone_tag_table(tags),
                }
            },
            Event::DocumentEnd { start_mark, end_mark, explicit } => Event::DocumentEnd {
                start_mark: *start_mark,
                end_mark: *end_mark,
                explicit: *explicit,
            },
            Event::Alias { anchor, start_mark, end_mark } => Event::Alias {
                anchor: anchor.clone(),
                start_mark: *start_mark,
                end_mark: *end_mark,
            },
            Event::Scalar { anchor, tag, implicit, value, start_mark, end_mark, style } => {
                Event::Scalar {
                    anchor: clone_opt_string(anchor),
                    tag: clone_opt_string(tag),
                    implicit: *implicit,
                    value: value.clone(),
                    start_mark: *start_mark,
                    end_mark: *end_mark,
                    style: *style,
                }
            },
            Event::SequenceStart { anchor, tag, implicit, start_mark, end_mark, flow_style } => {
                Event::SequenceStart {
                    anchor: clone_opt_string(anchor),
                    tag: clone_opt_string(tag),
                    implicit: *implicit,
                    start_mark: *start_mark,
                    end_mark: *end_mark,
                    flow_style: *flow_style,
                }
            },
            Event::SequenceEnd { start_mark, end_mark } => Event::SequenceEnd {
                start_mark: *start_mark,
                end_mark: *end_mark,
            },
            Event::MappingStart { anchor, tag, implicit, start_mark, end_mark, flow_style } => {
                Event::MappingStart {
                    anchor: clone_opt_string(anchor),
                    tag: clone_opt_string(tag),
                    implicit: *implicit,
                    start_mark: *start_mark,
                    end_mark: *end_mark,
                    flow_style: *flow_style,
                }
            },
            Event::MappingEnd { start_mark, end_mark } => Event::MappingEnd {
                start_mark: *start_mark,
                end_mark: *end_mark,
            },
        }
    }

    /// The start mark of any event.
    pub fn start_mark(&self) -> (r: Mark)
        ensures
            r == spec_start_mark(self@),
    {
        match self {
            Event::StreamStart { start_mark, .. } => *start_mark,
            Event::StreamEnd { start_mark, .. } => *start_mark,
            Event::DocumentStart { start_mark, .. } => *start_mark,
            Event::DocumentEnd { start_mark, .. } => *start_mark,
            Event::Alias { start_mark, .. } => *start_mark,
            Event::Scalar { start_mark, .. } => *start_mark,
            Event::SequenceStart { start_mark, .. } => *start_mark,
            Event::SequenceEnd { start_mark, .. } => *start_mark,
            Event::MappingStart { start_mark, .. } => *start_mark,
            Event::MappingEnd { start_mark, .. } => *start_mark,
        }
    }

    /// The end mark of any event.
    pub fn end_mark(&self) -> (r: Mark)
        ensures
            r == spec_end_mark(self@),
    {
        match self {
            Event::StreamStart { end_mark, .. } => *end_mark,
            Event::StreamEnd { end_mark, .. } => *end_mark,
            Event::DocumentStart { end_mark, .. } => *end_mark,
            Event::DocumentEnd { end_mark, .. } => *end_mark,
            Event::Alias { end_mark, .. } => *end_mark,
            Event::Scalar { end_mark, .. } => *end_mark,
            Event::SequenceStart { end_mark, .. } => *end_mark,
            Event::SequenceEnd { end_mark, .. } => *end_mark,
            Event::MappingStart { end_mark, .. } => *end_mark,
            Event::MappingEnd { end_mark, .. } => *end_mark,
        }
    }
}

/// The start mark of an event image.
pub open spec fn spec_start_mark(e: EventV) -> Mark {
    match e {
        EventV::StreamStart { start_mark, .. } => start_mark,
        EventV::StreamEnd { start_mark, .. } => start_mark,
        EventV::DocumentStart { start_mark, .. } => start_mark,
        EventV::DocumentEnd { start_mark, .. } => start_mark,
        EventV::Alias { start_mark, .. } => start_mark,
        EventV::Scalar { start_mark, .. } => start_mark,
        EventV::SequenceStart { start_mark, .. } => start_mark,
        EventV::SequenceEnd { start_mark, .. } => start_mark,
        EventV::MappingStart { start_mark, .. } => start_mark,
        EventV::MappingEnd { start_mark, .. } => start_mark,
    }
}

/// The end mark of an event image.
pub open spec fn spec_end_mark(e: EventV) -> Mark {
    match e {
        EventV::StreamStart { end_mark, .. } => end_mark,
        EventV::StreamEnd { end_mark, .. } => end_mark,
        EventV::DocumentStart { end_mark, .. } => end_mark,
        EventV::DocumentEnd { end_mark, .. } => end_mark,
        EventV::Alias { end_mark, .. } => end_mark,
        EventV::Scalar { end_mark, .. } => end_mark,
        EventV::SequenceStart { end_mark, .. } => end_mark,
        EventV::SequenceEnd { end_mark, .. } => end_mark,
        EventV::MappingStart { end_mark, .. } => end_mark,
        EventV::MappingEnd { end_mark, .. } => end_mark,
    }
}

} // verus!
