//! Multi-document support: splitting an event stream into per-document
//! streams, splitting source text at document separators, composing every
//! document of a stream, and joining emitted documents back together.

use vstd::prelude::*;
use crate::chars::{
    chars_to_string, spec_split_lines, spec_starts_with, spec_trim, split_lines, str_to_chars,
    starts_with_lit, subvec, trim_chars, eq_lit,
};
use crate::composer::{compose_rust, DocRes, Node, NodeV, spec_compose_document};
use crate::event::{Event, EventV};
use crate::mark::Mark;
use crate::parser::{build_events, spec_build_events};

verus! {

/// A failure of multi-document processing, with the index of the document
/// it arose in where known.
#[derive(Debug)]
pub struct MultiDocumentError {
    pub message: String,
    pub document_index: Option<usize>,
}

/// The synthetic stream start inserted between split documents.
pub open spec fn synth_stream_start() -> EventV {
    EventV::StreamStart {
        start_mark: Mark { line: 0, column: 0, index: 0 },
        end_mark: Mark { line: 0, column: 0, index: 0 },
        encoding: Some("utf-8"@),
    }
}

/// The synthetic stream end appended to split documents.
pub open spec fn synth_stream_end() -> EventV {
    EventV::StreamEnd {
        start_mark: Mark { line: 0, column: 0, index: 0 },
        end_mark: Mark { line: 0, column: 0, index: 0 },
    }
}

fn mk_synth_stream_start() -> (r: Event)
    ensures
        r@ == synth_stream_start(),
{
    Event::StreamStart {
        start_mark: Mark::new(0, 0, 0),
        end_mark: Mark::new(0, 0, 0),
        encoding: Some(String::from_str("utf-8")),
    }
}

fn mk_synth_stream_end() -> (r: Event)
    ensures
        r@ == synth_stream_end(),
{
    Event::StreamEnd { start_mark: Mark::new(0, 0, 0), end_mark: Mark::new(0, 0, 0) }
}

/// The state of the document-splitting scan.
pub struct SplitSt {
    pub result: Seq<Seq<EventV>>,
    pub current: Seq<EventV>,
    pub in_document: bool,
    pub stream_start_seen: bool,
    pub document_finalized: bool,
    pub stopped: bool,
}

pub open spec fn split_init() -> SplitSt {
    SplitSt {
        result: Seq::empty(),
        current: Seq::empty(),
        in_document: false,
        stream_start_seen: false,
        document_finalized: false,
        stopped: false,
    }
}

/// One step of the splitting scan: the first `StreamStart` opens the first
/// document group; a `DocumentStart` closes the group in progress with a
/// synthetic stream end and opens a fresh one; `StreamEnd` closes the last
/// group and stops the scan; content events join the group in progress.
pub open spec fn spec_split_step(st: SplitSt, ev: EventV) -> SplitSt {
    if st.stopped {
        st
    } else {
        match ev {
            EventV::StreamStart { .. } => {
                if !st.stream_start_seen {
                    SplitSt { stream_start_seen: true, current: st.current.push(ev), ..st }
                } else {
                    st
                }
            },
            EventV::StreamEnd { .. } => {
                if st.current.len() > 0 && st.in_document && !st.document_finalized {
                    SplitSt {
                        result: st.result.push(st.current.push(ev)),
                        current: st.current.push(ev),
                        document_finalized: true,
                        stopped: true,
                        ..st
                    }
                } else {
                    SplitSt { stopped: true, ..st }
                }
            },
            EventV::DocumentStart { .. } => {
                let st1 = if st.in_document && st.current.len() > 0 {
                    SplitSt {
                        result: st.result.push(st.current.push(synth_stream_end())),
                        current: seq![synth_stream_start()],
                        ..st
                    }
                } else {
                    st
                };
                SplitSt { in_document: true, current: st1.current.push(ev), ..st1 }
            },
            EventV::DocumentEnd { .. } => SplitSt { current: st.current.push(ev), ..st },
            _ => {
                if st.in_document {
                    SplitSt { current: st.current.push(ev), ..st }
                } else {
                    st
                }
            },
        }
    }
}

/// The splitting state after scanning the first `i` events.
pub open spec fn spec_split_fold(events: Seq<EventV>, i: int) -> SplitSt
    decreases i,
{
    if i <= 0 {
        split_init()
    } else {
        spec_split_step(spec_split_fold(events, i - 1), events[i - 1])
    }
}

/// The number of content events of a group: everything but stream starts
/// and document boundaries.
pub open spec fn spec_content_count(s: Seq<EventV>) -> int
    decreases s.len(),
{
    if s.len() == 0 {
        0
    } else {
        spec_content_count(s.drop_last()) + (match s.last() {
            EventV::StreamStart { .. } => 0int,
            EventV::DocumentStart { .. } => 0int,
            EventV::DocumentEnd { .. } => 0int,
            _ => 1int,
        })
    }
}

/// Close the scan: an unfinalized group in progress joins the result, with
/// a synthetic stream end, when it holds any content.
pub open spec fn spec_split_finalize(st: SplitSt) -> Seq<Seq<EventV>> {
    if st.current.len() > 0 && st.in_document && !st.document_finalized && spec_content_count(
        st.current,
    ) > 0 {
        st.result.push(st.current.push(synth_stream_end()))
    } else {
        st.result
    }
}

/// The per-document event groups of a stream.
pub open spec fn spec_split_events_by_documents(events: Seq<EventV>) -> Seq<Seq<EventV>> {
    spec_split_finalize(spec_split_fold(events, events.len() as int))
}

/// A stopped scan no longer changes.
proof fn lemma_split_stopped(events: Seq<EventV>, i: int, j: int)
    requires
        0 <= i <= j <= events.len(),
        spec_split_fold(events, i).stopped,
    ensures
        spec_split_fold(events, j) == spec_split_fold(events, i),
    decreases j - i,
{
    if i < j {
        lemma_split_stopped(events, i, j - 1);
    }
}

proof fn lemma_ev_push(v: Vec<Event>, w: Vec<Event>, x: Event)
    requires
        w@ == v@.push(x),
    ensures
        w.deep_view() == v.deep_view().push(x@),
{
    assert(w.deep_view() =~= v.deep_view().push(x@));
}

proof fn lemma_groups_push(v: Vec<Vec<Event>>, w: Vec<Vec<Event>>, x: Vec<Event>)
    requires
        w@ == v@.push(x),
    ensures
        w.deep_view() == v.deep_view().push(x.deep_view()),
{
    assert(w.deep_view() =~= v.deep_view().push(x.deep_view()));
}

fn content_count(v: &Vec<Event>) -> (r: usize)
    ensures
        r as int == spec_content_count(v.deep_view()),
        spec_content_count(v.deep_view()) >= 0,
{
    let ghost dv = v.deep_view();
    let mut count: usize = 0;
    let mut i: usize = 0;
    proof {
        assert(dv.subrange(0, 0) =~= Seq::<EventV>::empty());
    }
    while i < v.len()
        invariant
            0 <= i <= v@.len(),
            dv == v.deep_view(),
            dv.len() == v@.len(),
            count <= i,
            count as int == spec_content_count(dv.subrange(0, i as int)),
        decreases v@.len() - i,
    {
        let is_boundary = matches!(
            &v[i],
            Event::StreamStart { .. } | Event::DocumentStart { .. } | Event::DocumentEnd { .. }
        );
        proof {
            assert(dv.subrange(0, i + 1).drop_last() =~= dv.subrange(0, i as int));
            assert(dv.subrange(0, i + 1).last() == dv[i as int]);
            assert(dv[i as int] == v@[i as int]@);
        }
        if !is_boundary {
            count = count + 1;
        }
        i = i + 1;
    }
    proof {
        assert(dv.subrange(0, dv.len() as int) == dv);
    }
    count
}

/// Split an event stream into one event group per document, each padded to
/// a well-formed stream, as `spec_split_events_by_documents` describes.
pub fn split_events_by_documents(events: &Vec<Event>) -> (r: Vec<Vec<Event>>)
    ensures
        r.deep_view() == spec_split_events_by_documents(events.deep_view()),
{
    let ghost ev = events.deep_view();
    let mut result: Vec<Vec<Event>> = Vec::new();
    let mut current: Vec<Event> = Vec::new();
    let mut in_document = false;
    let mut stream_start_seen = false;
    let mut document_finalized = false;
    let mut done = false;
    let mut i: usize = 0;
    proof {
        assert(result.deep_view() =~= split_init().result);
        assert(current.deep_view() =~= split_init().current);
    }
    while i < events.len() && !done
        invariant
            0 <= i <= events@.len(),
            ev == events.deep_view(),
            ev.len() == events@.len(),
            ({
                let st = spec_split_fold(ev, i as int);
                &&& result.deep_view() == st.result
                &&& in_document == st.in_document
                &&& stream_start_seen == st.stream_start_seen
                &&& document_finalized == st.document_finalized
                &&& done == st.stopped
                &&& (st.document_finalized ==> st.stopped)
                &&& (!st.document_finalized ==> current.deep_view() == st.current)
            }),
        decreases events@.len() - i,
    {
        let ghost st = spec_split_fold(ev, i as int);
        let ghost st2 = spec_split_fold(ev, i + 1);
        proof {
            assert(st2 == spec_split_step(st, ev[i as int]));
            assert(ev[i as int] == events@[i as int]@);
        }
        match &events[i] {
            Event::StreamStart { .. } => {
                if !stream_start_seen {
                    stream_start_seen = true;
                    let ghost oc = current;
                    let e = events[i].duplicate();
                    current.push(e);
                    proof {
                        lemma_ev_push(oc, current, e);
                    }
                }
            },
            Event::StreamEnd { .. } => {
                if current.len() > 0 && in_document && !document_finalized {
                    let ghost oc = current;
                    let e = events[i].duplicate();
                    current.push(e);
                    proof {
                        lemma_ev_push(oc, current, e);
                    }
                    let ghost orr = result;
                    let finished = current;
                    current = Vec::new();
                    result.push(finished);
                    proof {
                        lemma_groups_push(orr, result, finished);
                    }
                    document_finalized = true;
                }
                done = true;
            },
            Event::DocumentStart { .. } => {
                if in_document && current.len() > 0 {
                    let ghost oc = current;
                    let synth_end = mk_synth_stream_end();
                    current.push(synth_end);
                    proof {
                        lemma_ev_push(oc, current, synth_end);
                    }
                    let ghost orr = result;
                    let finished = current;
                    current = Vec::new();
                    result.push(finished);
                    proof {
                        lemma_groups_push(orr, result, finished);
                    }
                    let synth_start = mk_synth_stream_start();
                    let ghost oc2 = current;
                    current.push(synth_start);
                    proof {
                        lemma_ev_push(oc2, current, synth_start);
                        assert(current.deep_view() =~= seq![synth_stream_start()]);
                    }
                }
                in_document = true;
                let ghost oc3 = current;
                let e = events[i].duplicate();
                current.push(e);
                proof {
                    lemma_ev_push(oc3, current, e);
                }
            },
            Event::DocumentEnd { .. } => {
                let ghost oc = current;
                let e = events[i].duplicate();
                current.push(e);
                proof {
                    lemma_ev_push(oc, current, e);
                }
            },
            _ => {
                if in_document {
                    let ghost oc = current;
                    let e = events[i].duplicate();
                    current.push(e);
                    proof {
                        lemma_ev_push(oc, current, e);
                    }
                }
            },
        }
        i = i + 1;
    }
    proof {
        if done {
            lemma_split_stopped(ev, i as int, ev.len() as int);
        }
        assert(spec_split_fold(ev, ev.len() as int) == spec_split_fold(ev, i as int));
    }
    let ghost fin = spec_split_fold(ev, ev.len() as int);
    if !document_finalized && in_document && current.len() > 0 {
        let cc = content_count(&current);
        if cc > 0 {
            let ghost oc = current;
            let synth_end = mk_synth_stream_end();
            current.push(synth_end);
            proof {
                lemma_ev_push(oc, current, synth_end);
            }
            let ghost orr = result;
            let finished = current;
            current = Vec::new();
            result.push(finished);
            proof {
                lemma_groups_push(orr, result, finished);
            }
        }
    }
    result
}

/// The state of the processor's own splitting scan, which keeps the groups
/// bare rather than padding them to whole streams.
pub struct ProcSplitSt {
    pub result: Seq<Seq<EventV>>,
    pub current: Seq<EventV>,
    pub in_document: bool,
    pub stream_started: bool,
    pub stopped: bool,
}

pub open spec fn proc_split_init() -> ProcSplitSt {
    ProcSplitSt {
        result: Seq::empty(),
        current: Seq::empty(),
        in_document: false,
        stream_started: false,
        stopped: false,
    }
}

/// One step of the processor's scan: `StreamStart` only arms it; a
/// `DocumentStart` closes the group in progress; `StreamEnd` pushes the
/// group and stops the scan without emptying it, so the close of the scan
/// pushes that group once more.
pub open spec fn spec_proc_split_step(st: ProcSplitSt, ev: EventV) -> ProcSplitSt {
    if st.stopped {
        st
    } else {
        match ev {
            EventV::StreamStart { .. } => ProcSplitSt { stream_started: true, ..st },
            EventV::StreamEnd { .. } => {
                if st.current.len() > 0 {
                    ProcSplitSt { result: st.result.push(st.current), stopped: true, ..st }
                } else {
                    ProcSplitSt { stopped: true, ..st }
                }
            },
            EventV::DocumentStart { .. } => {
                let st1 = if st.in_document && st.current.len() > 0 {
                    ProcSplitSt { result: st.result.push(st.current), current: Seq::empty(), ..st }
                } else {
                    st
                };
                ProcSplitSt { in_document: true, current: st1.current.push(ev), ..st1 }
            },
            EventV::DocumentEnd { .. } => ProcSplitSt { current: st.current.push(ev), ..st },
            _ => {
                if st.stream_started {
                    ProcSplitSt { current: st.current.push(ev), ..st }
                } else {
                    st
                }
            },
        }
    }
}

pub open spec fn spec_proc_split_fold(events: Seq<EventV>, i: int) -> ProcSplitSt
    decreases i,
{
    if i <= 0 {
        proc_split_init()
    } else {
        spec_proc_split_step(spec_proc_split_fold(events, i - 1), events[i - 1])
    }
}

/// The processor's split of an event stream: the scanned groups, the group
/// in progress when one remains, and the whole stream as a single group
/// when nothing else was found.
pub open spec fn spec_proc_split_events(events: Seq<EventV>) -> Seq<Seq<EventV>> {
    let st = spec_proc_split_fold(events, events.len() as int);
    let groups = if st.current.len() > 0 {
        st.result.push(st.current)
    } else {
        st.result
    };
    if groups.len() == 0 && events.len() > 0 {
        seq![events]
    } else {
        groups
    }
}

proof fn lemma_proc_split_stopped(events: Seq<EventV>, i: int, j: int)
    requires
        0 <= i <= j <= events.len(),
        spec_proc_split_fold(events, i).stopped,
    ensures
        spec_proc_split_fold(events, j) == spec_proc_split_fold(events, i),
    decreases j - i,
{
    if i < j {
        lemma_proc_split_stopped(events, i, j - 1);
    }
}

/// An equal copy of an event list.
fn clone_events(v: &Vec<Event>) -> (r: Vec<Event>)
    ensures
        r.deep_view() == v.deep_view(),
{
    let mut r: Vec<Event> = Vec::new();
    let mut i: usize = 0;
    while i < v.len()
        invariant
            0 <= i <= v@.len(),
            v.deep_view().len() == v@.len(),
            r.deep_view() == v.deep_view().subrange(0, i as int),
        decreases v@.len() - i,
    {
        let ghost orr = r;
        let e = v[i].duplicate();
        proof {
            assert(e@ == v.deep_view()[i as int]);
        }
        r.push(e);
        proof {
            lemma_ev_push(orr, r, e);
            assert(r.deep_view() =~= v.deep_view().subrange(0, i + 1));
        }
        i = i + 1;
    }
    proof {
        assert(v.deep_view().subrange(0, v.deep_view().len() as int) == v.deep_view());
    }
    r
}

fn clone_groups(v: &Vec<Vec<Event>>) -> (r: Vec<Vec<Event>>)
    ensures
        r.deep_view() == v.deep_view(),
{
    let mut r: Vec<Vec<Event>> = Vec::new();
    let mut i: usize = 0;
    while i < v.len()
        invariant
            0 <= i <= v@.len(),
            v.deep_view().len() == v@.len(),
            forall|j: int| 0 <= j < v@.len() ==> #[trigger] v.deep_view()[j] == v@[j].deep_view(),
            r.deep_view() == v.deep_view().subrange(0, i as int),
        decreases v@.len() - i,
    {
        let ghost orr = r;
        let g = clone_events(&v[i]);
        r.push(g);
        proof {
            lemma_groups_push(orr, r, g);
            assert(r.deep_view() =~= v.deep_view().subrange(0, i + 1));
        }
        i = i + 1;
    }
    proof {
        assert(v.deep_view().subrange(0, v.deep_view().len() as int) == v.deep_view());
    }
    r
}

/// The multi-document processor: configuration for explicit markers and the
/// groups of the last split.
pub struct MultiDocumentProcessor {
    documents: Vec<Vec<Event>>,
    explicit_document_start: bool,
    explicit_document_end: bool,
}

impl MultiDocumentProcessor {
    /// The groups kept from the last split.
    pub closed spec fn spec_documents(&self) -> Seq<Seq<EventV>> {
        self.documents.deep_view()
    }

    pub closed spec fn spec_explicit_start(&self) -> bool {
        self.explicit_document_start
    }

    pub closed spec fn spec_explicit_end(&self) -> bool {
        self.explicit_document_end
    }

    /// A processor with implicit markers and no documents.
    pub fn new() -> (r: MultiDocumentProcessor)
        ensures
            r.spec_documents().len() == 0,
            !r.spec_explicit_start(),
            !r.spec_explicit_end(),
    {
        let r = MultiDocumentProcessor {
            documents: Vec::new(),
            explicit_document_start: false,
            explicit_document_end: false,
        };
        proof {
            assert(r.documents.deep_view() =~= Seq::<Seq<EventV>>::empty());
        }
        r
    }

    pub fn with_explicit_start(&mut self, explicit: bool)
        ensures
            final(self).spec_explicit_start() == explicit,
            final(self).spec_explicit_end() == old(self).spec_explicit_end(),
            final(self).spec_documents() == old(self).spec_documents(),
    {
        self.explicit_document_start = explicit;
    }

    pub fn with_explicit_end(&mut self, explicit: bool)
        ensures
            final(self).spec_explicit_end() == explicit,
            final(self).spec_explicit_start() == old(self).spec_explicit_start(),
            final(self).spec_documents() == old(self).spec_documents(),
    {
        self.explicit_document_end = explicit;
    }

    /// Forget the groups of the last split.
    pub fn reset(&mut self)
        ensures
            final(self).spec_documents().len() == 0,
            final(self).spec_explicit_start() == old(self).spec_explicit_start(),
            final(self).spec_explicit_end() == old(self).spec_explicit_end(),
    {
        self.documents = Vec::new();
        proof {
            assert(self.documents.deep_view() =~= Seq::<Seq<EventV>>::empty());
        }
    }

    /// Split an event stream into bare per-document groups, as
    /// `spec_proc_split_events` describes; the groups are kept and returned.
    pub fn split_events(&mut self, events: &Vec<Event>) -> (r: Result<
        Vec<Vec<Event>>,
        MultiDocumentError,
    >)
        ensures
            r is Ok,
            r->Ok_0.deep_view() == spec_proc_split_events(events.deep_view()),
            final(self).spec_documents() == spec_proc_split_events(events.deep_view()),
    {
        let ghost ev = events.deep_view();
        let mut result: Vec<Vec<Event>> = Vec::new();
        let mut current: Vec<Event> = Vec::new();
        let mut in_document = false;
        let mut stream_started = false;
        let mut done = false;
        let mut i: usize = 0;
        proof {
            assert(result.deep_view() =~= proc_split_init().result);
            assert(current.deep_view() =~= proc_split_init().current);
        }
        while i < events.len() && !done
            invariant
                0 <= i <= events@.len(),
                ev == events.deep_view(),
                ev.len() == events@.len(),
                ({
                    let st = spec_proc_split_fold(ev, i as int);
                    &&& result.deep_view() == st.result
                    &&& current.deep_view() == st.current
                    &&& in_document == st.in_document
                    &&& stream_started == st.stream_started
                    &&& done == st.stopped
                }),
            decreases events@.len() - i,
        {
            let ghost st = spec_proc_split_fold(ev, i as int);
            proof {
                assert(spec_proc_split_fold(ev, i + 1) == spec_proc_split_step(
                    st,
                    ev[i as int],
                ));
                assert(ev[i as int] == events@[i as int]@);
            }
            match &events[i] {
                Event::StreamStart { .. } => {
                    stream_started = true;
                },
                Event::StreamEnd { .. } => {
                    if current.len() > 0 {
                        let ghost orr = result;
                        let finished = clone_events(&current);
                        result.push(finished);
                        proof {
                            lemma_groups_push(orr, result, finished);
                        }
                    }
                    done = true;
                },
                Event::DocumentStart { .. } => {
                    if in_document && current.len() > 0 {
                        let ghost orr = result;
                        let finished = current;
                        current = Vec::new();
                        result.push(finished);
                        proof {
                            lemma_groups_push(orr, result, finished);
                            assert(current.deep_view() =~= Seq::<EventV>::empty());
                        }
                    }
                    in_document = true;
                    let ghost oc = current;
                    let e = events[i].duplicate();
                    current.push(e);
                    proof {
                        lemma_ev_push(oc, current, e);
                    }
                },
                Event::DocumentEnd { .. } => {
                    let ghost oc = current;
                    let e = events[i].duplicate();
                    current.push(e);
                    proof {
                        lemma_ev_push(oc, current, e);
                    }
                },
                _ => {
                    if stream_started {
                        let ghost oc = current;
                        let e = events[i].duplicate();
                        current.push(e);
                        proof {
                            lemma_ev_push(oc, current, e);
                        }
                    }
                },
            }
            i = i + 1;
        }
        proof {
            if done {
                lemma_proc_split_stopped(ev, i as int, ev.len() as int);
            }
            assert(spec_proc_split_fold(ev, ev.len() as int) == spec_proc_split_fold(
                ev,
                i as int,
            ));
        }
        if current.len() > 0 {
            let ghost orr = result;
            let finished = current;
            result.push(finished);
            proof {
                lemma_groups_push(orr, result, finished);
            }
        }
        if result.len() == 0 && events.len() > 0 {
            let whole = clone_events(events);
            let ghost orr = result;
            result.push(whole);
            proof {
                lemma_groups_push(orr, result, whole);
                assert(result.deep_view() =~= seq![ev]);
            }
        }
        self.documents = clone_groups(&result);
        Ok(result)
    }

    /// Split a source text and build each document's events, as
    /// `spec_parse_multi_document` describes.
    pub fn parse_multi_document(&self, text: &str) -> (r: Result<
        Vec<Vec<Event>>,
        MultiDocumentError,
    >)
        ensures
            r is Ok,
            r->Ok_0.deep_view() == spec_parse_multi_document(text@),
    {
        parse_multi_document(text)
    }

    /// Join emitted documents, as `spec_combine_documents` describes.
    pub fn combine_documents(&self, docs: &Vec<String>) -> (r: String)
        ensures
            r@ == spec_combine_documents(Seq::new(docs@.len(), |i: int| docs@[i]@)),
    {
        let ghost target = Seq::new(docs@.len(), |i: int| docs@[i]@);
        let mut parts: Vec<Vec<char>> = Vec::new();
        let mut i: usize = 0;
        while i < docs.len()
            invariant
                0 <= i <= docs@.len(),
                target == Seq::new(docs@.len(), |k: int| docs@[k]@),
                parts.deep_view().len() == i,
                forall|j: int| 0 <= j < i ==> #[trigger] parts.deep_view()[j] == target[j],
            decreases docs@.len() - i,
        {
            let chars = str_to_chars(docs[i].as_str());
            let ghost op = parts;
            parts.push(chars);
            proof {
                crate::chars::lemma_deep_view_push_pub(op, parts, chars);
            }
            i = i + 1;
        }
        let joined = combine_documents(&parts);
        proof {
            assert(parts.deep_view() =~= target);
        }
        chars_to_string(&joined)
    }

    /// The marker text for the configured explicit separators, as
    /// `spec_format_separator` describes.
    pub fn format_document_separator(&self) -> (r: String)
        ensures
            r@ == spec_format_separator(self.spec_explicit_start(), self.spec_explicit_end()),
    {
        let mut out: Vec<char> = Vec::new();
        if self.explicit_document_start {
            crate::chars::append_to(&mut out, &str_to_chars("---\n"));
        }
        if self.explicit_document_end {
            crate::chars::append_to(&mut out, &str_to_chars("...\n"));
        }
        proof {
            assert(out@ =~= spec_format_separator(
                self.spec_explicit_start(),
                self.spec_explicit_end(),
            ));
        }
        chars_to_string(&out)
    }
}

/// The state of the text-splitting scan over source lines.
pub struct DocSplitSt {
    pub docs: Seq<Seq<char>>,
    pub current: Seq<char>,
    pub at_line_start: bool,
}

pub open spec fn doc_split_init() -> DocSplitSt {
    DocSplitSt { docs: Seq::empty(), current: Seq::empty(), at_line_start: true }
}

/// One line of the text-splitting scan: a `---` line at line start closes
/// the document in progress; a `...` line joins and closes it; any other
/// line joins it.
pub open spec fn spec_doc_split_step(st: DocSplitSt, line: Seq<char>) -> DocSplitSt {
    let t = spec_trim(line);
    if st.at_line_start && (t == "---"@ || spec_starts_with(t, "--- "@)) {
        let c = crate::chars::spec_trim_ws(st.current);
        DocSplitSt {
            docs: if c.len() > 0 {
                st.docs.push(c)
            } else {
                st.docs
            },
            current: Seq::empty(),
            at_line_start: true,
        }
    } else if t == "..."@ {
        let cur = st.current + line + "\n"@;
        DocSplitSt {
            docs: st.docs.push(crate::chars::spec_trim_ws(cur)),
            current: Seq::empty(),
            at_line_start: true,
        }
    } else {
        DocSplitSt {
            docs: st.docs,
            current: st.current + line + "\n"@,
            at_line_start: t.len() == 0,
        }
    }
}

pub open spec fn spec_doc_split_fold(lines: Seq<Seq<char>>, i: int) -> DocSplitSt
    decreases i,
{
    if i <= 0 {
        doc_split_init()
    } else {
        spec_doc_split_step(spec_doc_split_fold(lines, i - 1), lines[i - 1])
    }
}

/// The documents a source text splits into at its `---` and `...` lines;
/// a text with no separate documents stands as one whole document.
pub open spec fn spec_split_yaml_string(s: Seq<char>) -> Seq<Seq<char>> {
    let lines = spec_split_lines(s);
    let st = spec_doc_split_fold(lines, lines.len() as int);
    let c = crate::chars::spec_trim_ws(st.current);
    let docs = if c.len() > 0 {
        st.docs.push(c)
    } else {
        st.docs
    };
    if docs.len() == 0 && crate::chars::spec_trim_ws(s).len() > 0 {
        seq![s]
    } else {
        docs
    }
}

/// Split a source text into its documents, as `spec_split_yaml_string`
/// describes.
pub fn split_yaml_string(text: &Vec<char>) -> (r: Vec<Vec<char>>)
    ensures
        r.deep_view() == spec_split_yaml_string(text@),
{
    let lines = split_lines(text);
    let ghost lv = lines.deep_view();
    proof {
        crate::chars::lemma_lines_deep_view(&lines);
    }
    let mut docs: Vec<Vec<char>> = Vec::new();
    let mut current: Vec<char> = Vec::new();
    let mut at_line_start = true;
    let mut i: usize = 0;
    proof {
        assert(docs.deep_view() =~= doc_split_init().docs);
        assert(current@ =~= doc_split_init().current);
    }
    while i < lines.len()
        invariant
            0 <= i <= lines@.len(),
            lv == lines.deep_view(),
            lv.len() == lines@.len(),
            forall|j: int| 0 <= j < lines@.len() ==> #[trigger] lines.deep_view()[j] == lines@[j]@,
            ({
                let st = spec_doc_split_fold(lv, i as int);
                &&& docs.deep_view() == st.docs
                &&& current@ == st.current
                &&& at_line_start == st.at_line_start
            }),
        decreases lines@.len() - i,
    {
        let line = &lines[i];
        let t = trim_chars(line);
        let ghost st = spec_doc_split_fold(lv, i as int);
        proof {
            assert(spec_doc_split_fold(lv, i + 1) == spec_doc_split_step(st, lv[i as int]));
        }
        if at_line_start && (eq_lit(&t, "---") || starts_with_lit(&t, "--- ")) {
            let trimmed = crate::chars::trim_ws_chars(&current);
            if trimmed.len() > 0 {
                let ghost od = docs;
                docs.push(trimmed);
                proof {
                    crate::chars::lemma_deep_view_push_pub(od, docs, trimmed);
                }
            }
            current = Vec::new();
            at_line_start = true;
            proof {
                assert(current@ =~= Seq::<char>::empty());
            }
        } else if eq_lit(&t, "...") {
            crate::chars::push_line(&mut current, line);
            let trimmed = crate::chars::trim_ws_chars(&current);
            let ghost od = docs;
            docs.push(trimmed);
            proof {
                crate::chars::lemma_deep_view_push_pub(od, docs, trimmed);
            }
            current = Vec::new();
            at_line_start = true;
            proof {
                assert(current@ =~= Seq::<char>::empty());
            }
        } else {
            crate::chars::push_line(&mut current, line);
            at_line_start = t.len() == 0;
        }
        i = i + 1;
    }
    let trimmed = crate::chars::trim_ws_chars(&current);
    if trimmed.len() > 0 {
        let ghost od = docs;
        docs.push(trimmed);
        proof {
            crate::chars::lemma_deep_view_push_pub(od, docs, trimmed);
        }
    }
    if docs.len() == 0 {
        let whole = crate::chars::trim_ws_chars(text);
        if whole.len() > 0 {
            let copy = subvec(text, 0, text.len());
            proof {
                assert(copy@ =~= text@);
            }
            let ghost od = docs;
            docs.push(copy);
            proof {
                crate::chars::lemma_deep_view_push_pub(od, docs, copy);
                assert(docs.deep_view() =~= seq![text@]);
            }
        }
    }
    docs
}

/// The joined text of several emitted documents: one document stands alone;
/// several are trimmed and separated by `---` lines.
pub open spec fn spec_combine_documents(docs: Seq<Seq<char>>) -> Seq<char> {
    if docs.len() == 0 {
        Seq::empty()
    } else if docs.len() == 1 {
        docs[0]
    } else {
        spec_combine_parts(docs, 0)
    }
}

pub open spec fn spec_combine_parts(docs: Seq<Seq<char>>, i: int) -> Seq<char>
    decreases docs.len() - i,
{
    if !(0 <= i < docs.len()) {
        Seq::empty()
    } else {
        (if i > 0 {
            "---\n"@
        } else {
            Seq::empty()
        }) + crate::chars::spec_trim_ws(docs[i]) + "\n"@ + spec_combine_parts(docs, i + 1)
    }
}

/// Join emitted documents, as `spec_combine_documents` describes.
pub fn combine_documents(docs: &Vec<Vec<char>>) -> (r: Vec<char>)
    ensures
        r@ == spec_combine_documents(docs.deep_view()),
{
    let ghost dv = docs.deep_view();
    proof {
        crate::chars::lemma_lines_deep_view(docs);
    }
    if docs.len() == 0 {
        let r: Vec<char> = Vec::new();
        proof {
            assert(r@ =~= spec_combine_documents(dv));
        }
        return r;
    }
    if docs.len() == 1 {
        let r = subvec(&docs[0], 0, docs[0].len());
        proof {
            assert(r@ =~= dv[0]);
        }
        return r;
    }
    let mut r: Vec<char> = Vec::new();
    let mut i: usize = 0;
    proof {
        assert(r@ + spec_combine_parts(dv, 0) =~= spec_combine_parts(dv, 0));
    }
    while i < docs.len()
        invariant
            0 <= i <= docs@.len(),
            dv == docs.deep_view(),
            dv.len() == docs@.len(),
            2 <= dv.len(),
            forall|j: int| 0 <= j < docs@.len() ==> #[trigger] docs.deep_view()[j] == docs@[j]@,
            r@ + spec_combine_parts(dv, i as int) == spec_combine_parts(dv, 0),
        decreases docs@.len() - i,
    {
        let ghost r0 = r@;
        if i > 0 {
            let sep = str_to_chars("---\n");
            crate::chars::append_to(&mut r, &sep);
        }
        let trimmed = crate::chars::trim_ws_chars(&docs[i]);
        crate::chars::append_to(&mut r, &trimmed);
        let nl = str_to_chars("\n");
        crate::chars::append_to(&mut r, &nl);
        proof {
            assert(r@ + spec_combine_parts(dv, i + 1) =~= r0 + spec_combine_parts(dv, i as int));
        }
        i = i + 1;
    }
    proof {
        assert(spec_combine_parts(dv, dv.len() as int) == Seq::<char>::empty());
        assert(r@ + Seq::<char>::empty() =~= r@);
    }
    r
}

/// The separator text for explicit document markers.
pub open spec fn spec_format_separator(explicit_start: bool, explicit_end: bool) -> Seq<char> {
    (if explicit_start {
        "---\n"@
    } else {
        Seq::empty()
    }) + (if explicit_end {
        "...\n"@
    } else {
        Seq::empty()
    })
}

/// Whether a text might hold several documents: it mentions a document
/// start or end marker anywhere.
pub fn is_multi_document(text: &str) -> (r: bool)
    ensures
        r == (crate::chars::spec_contains_seq(text@, "---"@) || crate::chars::spec_contains_seq(
            text@,
            "..."@,
        )),
{
    let chars = str_to_chars(text);
    crate::chars::contains_lit(&chars, "---") || crate::chars::contains_lit(&chars, "...")
}

/// Split a source text into its documents' texts.
pub fn split_yaml_documents(text: &str) -> (r: Vec<String>)
    ensures
        r.deep_view().len() == spec_split_yaml_string(text@).len(),
        forall|i: int|
            0 <= i < r.deep_view().len() ==> #[trigger] r.deep_view()[i]
                == spec_split_yaml_string(text@)[i],
{
    let chars = str_to_chars(text);
    let docs = split_yaml_string(&chars);
    let ghost dv = docs.deep_view();
    proof {
        crate::chars::lemma_lines_deep_view(&docs);
    }
    let mut r: Vec<String> = Vec::new();
    let mut i: usize = 0;
    while i < docs.len()
        invariant
            0 <= i <= docs@.len(),
            dv == docs.deep_view(),
            dv == spec_split_yaml_string(text@),
            dv.len() == docs@.len(),
            forall|j: int| 0 <= j < docs@.len() ==> #[trigger] docs.deep_view()[j] == docs@[j]@,
            r.deep_view().len() == i,
            forall|j: int| 0 <= j < i ==> #[trigger] r.deep_view()[j] == dv[j],
        decreases docs@.len() - i,
    {
        let s = chars_to_string(&docs[i]);
        let ghost orr = r;
        r.push(s);
        proof {
            assert(r.deep_view() =~= orr.deep_view().push(s@));
        }
        i = i + 1;
    }
    r
}

/// The per-document event streams parsed from a source text: each document
/// with content is built separately.
pub open spec fn spec_parse_multi_document(s: Seq<char>) -> Seq<Seq<EventV>> {
    spec_parse_docs(spec_split_yaml_string(s), 0)
}

pub open spec fn spec_parse_docs(docs: Seq<Seq<char>>, i: int) -> Seq<Seq<EventV>>
    decreases docs.len() - i,
{
    if !(0 <= i < docs.len()) {
        Seq::empty()
    } else {
        (if crate::chars::spec_trim_ws(docs[i]).len() == 0 {
            Seq::empty()
        } else {
            seq![spec_build_events(docs[i])]
        }) + spec_parse_docs(docs, i + 1)
    }
}

/// Build the event stream of every document of a source text, as
/// `spec_parse_multi_document` describes.
pub fn parse_multi_document(text: &str) -> (r: Result<Vec<Vec<Event>>, MultiDocumentError>)
    ensures
        r is Ok,
        r->Ok_0.deep_view() == spec_parse_multi_document(text@),
{
    let chars = str_to_chars(text);
    let docs = split_yaml_string(&chars);
    let ghost dv = docs.deep_view();
    proof {
        crate::chars::lemma_lines_deep_view(&docs);
    }
    let mut all: Vec<Vec<Event>> = Vec::new();
    let mut i: usize = 0;
    proof {
        assert(all.deep_view() + spec_parse_docs(dv, 0) =~= spec_parse_docs(dv, 0));
    }
    while i < docs.len()
        invariant
            0 <= i <= docs@.len(),
            dv == docs.deep_view(),
            dv == spec_split_yaml_string(text@),
            dv.len() == docs@.len(),
            forall|j: int| 0 <= j < docs@.len() ==> #[trigger] docs.deep_view()[j] == docs@[j]@,
            all.deep_view() + spec_parse_docs(dv, i as int) == spec_parse_docs(dv, 0),
        decreases docs@.len() - i,
    {
        let ghost a0 = all.deep_view();
        let trimmed = crate::chars::trim_ws_chars(&docs[i]);
        if trimmed.len() > 0 {
            let text_i = chars_to_string(&docs[i]);
            let events = build_events(text_i.as_str());
            let ghost oa = all;
            let ghost edv = events.deep_view();
            all.push(events);
            proof {
                assert(all.deep_view() =~= oa.deep_view().push(edv));
            }
        }
        proof {
            assert(all.deep_view() + spec_parse_docs(dv, i + 1) =~= a0 + spec_parse_docs(
                dv,
                i as int,
            ));
        }
        i = i + 1;
    }
    proof {
        assert(spec_parse_docs(dv, dv.len() as int) == Seq::<Seq<EventV>>::empty());
        assert(all.deep_view() + Seq::<Seq<EventV>>::empty() =~= all.deep_view());
    }
    Ok(all)
}

/// What loading one split document group yields: the composed root, or
/// nothing when composition fails.
pub open spec fn spec_load_one(group: Seq<EventV>) -> Option<NodeV> {
    match spec_compose_document(group) {
        DocRes::Done(n) => n,
        DocRes::Fail(_) => None,
    }
}

/// The documents loaded from a source text: blank input yields none; any
/// other input is built into events, split by documents, and each group is
/// composed independently, so one failing document does not lose the rest.
pub open spec fn spec_load_all(s: Seq<char>) -> Seq<Option<NodeV>> {
    if crate::chars::spec_trim_ws(s).len() == 0 {
        Seq::empty()
    } else {
        let groups = spec_split_events_by_documents(spec_build_events(s));
        Seq::new(groups.len(), |i: int| spec_load_one(groups[i]))
    }
}

/// Load every document of a source text into its node tree, as
/// `spec_load_all` describes.
pub fn load_all_rust(text: &str) -> (r: Vec<Option<Node>>)
    ensures
        r.deep_view().len() == spec_load_all(text@).len(),
        forall|i: int|
            0 <= i < r.deep_view().len() ==> #[trigger] r.deep_view()[i] == spec_load_all(
                text@,
            )[i],
{
    let chars = str_to_chars(text);
    let whole = crate::chars::trim_ws_chars(&chars);
    if whole.len() == 0 {
        let r: Vec<Option<Node>> = Vec::new();
        proof {
            assert(r.deep_view() =~= Seq::<Option<NodeV>>::empty());
        }
        return r;
    }
    let all_events = build_events(text);
    let groups = split_events_by_documents(&all_events);
    let ghost gv = groups.deep_view();
    let mut results: Vec<Option<Node>> = Vec::new();
    let mut i: usize = 0;
    while i < groups.len()
        invariant
            0 <= i <= groups@.len(),
            gv == groups.deep_view(),
            gv == spec_split_events_by_documents(spec_build_events(text@)),
            gv.len() == groups@.len(),
            forall|j: int| 0 <= j < groups@.len() ==> #[trigger] groups.deep_view()[j]
                == groups@[j].deep_view(),
            results.deep_view().len() == i,
            forall|j: int|
                0 <= j < i ==> #[trigger] results.deep_view()[j] == spec_load_one(gv[j]),
        decreases groups@.len() - i,
    {
        let node = compose_rust(&groups[i]);
        let ghost orr = results;
        let ghost nv = (match node {
            Some(ref n) => Some(crate::composer::view_node(*n)),
            None => None::<NodeV>,
        });
        results.push(node);
        proof {
            assert(results.deep_view() =~= orr.deep_view().push(nv));
            assert(nv == spec_load_one(gv[i as int]));
        }
        i = i + 1;
    }
    results
}

/// Emit every node to text and join the documents with separators.
pub fn dump_all_rust(nodes: &Vec<Node>) -> (r: String)
    ensures
        r@ == spec_combine_documents(
            Seq::new(
                nodes@.len(),
                |i: int|
                    crate::emitter::spec_emit_document(
                        crate::emitter::spec_default_cfg(),
                        crate::emitter::spec_fresh_state(),
                        crate::composer::view_node(nodes@[i]),
                        false,
                    ).out,
            ),
        ),
{
    let ghost target = Seq::new(
        nodes@.len(),
        |i: int|
            crate::emitter::spec_emit_document(
                crate::emitter::spec_default_cfg(),
                crate::emitter::spec_fresh_state(),
                crate::composer::view_node(nodes@[i]),
                false,
            ).out,
    );
    let mut texts: Vec<Vec<char>> = Vec::new();
    let mut i: usize = 0;
    while i < nodes.len()
        invariant
            0 <= i <= nodes@.len(),
            target == Seq::new(
                nodes@.len(),
                |k: int|
                    crate::emitter::spec_emit_document(
                        crate::emitter::spec_default_cfg(),
                        crate::emitter::spec_fresh_state(),
                        crate::composer::view_node(nodes@[k]),
                        false,
                    ).out,
            ),
            texts.deep_view().len() == i,
            forall|j: int| 0 <= j < i ==> #[trigger] texts.deep_view()[j] == target[j],
        decreases nodes@.len() - i,
    {
        let out = match crate::emitter::emit_to_string(&nodes[i]) {
            Ok(s) => s,
            Err(_) => String::new(),
        };
        let chars = str_to_chars(out.as_str());
        let ghost ot = texts;
        texts.push(chars);
        proof {
            crate::chars::lemma_deep_view_push_pub(ot, texts, chars);
        }
        i = i + 1;
    }
    let combined = combine_documents(&texts);
    proof {
        assert(texts.deep_view() =~= target);
    }
    chars_to_string(&combined)
}

} // verus!
