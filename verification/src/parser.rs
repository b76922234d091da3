//! The event builder: turns source lines into a well-nested event stream,
//! detecting multi-document input, the structural shape of each document
//! (mapping, sequence or single scalar), and explicit `!!` tags on values.
//! This layer raises no errors: malformed input yields a best-effort stream.

use vstd::prelude::*;
use crate::chars::{
    contains_char, eq_lit, find_from, chars_to_string, indent_of, spec_contains_char,
    spec_find_from, spec_indent, spec_split_lines, spec_starts_with, spec_trim, spec_trim_end,
    spec_trim_start, split_lines, starts_with_lit, str_to_chars, subvec, trim_chars,
    trim_end_chars,
};
use crate::event::{Event, EventV, ScalarImplicit};
use crate::mark::Mark;
use crate::tags::{
    tag_bool, tag_bool_string, tag_float, tag_float_string, tag_int, tag_int_string, tag_null,
    tag_null_string, tag_prefix, tag_str, tag_str_string, tag_with_prefix,
};

verus! {

/// The zero source position used by the line-oriented builder.
pub open spec fn zero_mark() -> Mark {
    Mark { line: 0, column: 0, index: 0 }
}

pub open spec fn stream_start_ev(encoding: Option<Seq<char>>) -> EventV {
    EventV::StreamStart { start_mark: zero_mark(), end_mark: zero_mark(), encoding }
}

pub open spec fn stream_end_ev() -> EventV {
    EventV::StreamEnd { start_mark: zero_mark(), end_mark: zero_mark() }
}

pub open spec fn doc_start_ev(explicit: bool) -> EventV {
    EventV::DocumentStart {
        start_mark: zero_mark(),
        end_mark: zero_mark(),
        explicit,
        version: None,
        tags: None,
    }
}

pub open spec fn doc_end_ev() -> EventV {
    EventV::DocumentEnd { start_mark: zero_mark(), end_mark: zero_mark(), explicit: false }
}

pub open spec fn scalar_ev(value: Seq<char>, tag: Option<Seq<char>>) -> EventV {
    EventV::Scalar {
        anchor: None,
        tag,
        implicit: ScalarImplicit { plain: true, quoted: false },
        value,
        start_mark: zero_mark(),
        end_mark: zero_mark(),
        style: None,
    }
}

pub open spec fn map_start_ev() -> EventV {
    EventV::MappingStart {
        anchor: None,
        tag: None,
        implicit: true,
        start_mark: zero_mark(),
        end_mark: zero_mark(),
        flow_style: false,
    }
}

pub open spec fn map_end_ev() -> EventV {
    EventV::MappingEnd { start_mark: zero_mark(), end_mark: zero_mark() }
}

pub open spec fn seq_start_ev() -> EventV {
    EventV::SequenceStart {
        anchor: None,
        tag: None,
        implicit: true,
        start_mark: zero_mark(),
        end_mark: zero_mark(),
        flow_style: false,
    }
}

pub open spec fn seq_end_ev() -> EventV {
    EventV::SequenceEnd { start_mark: zero_mark(), end_mark: zero_mark() }
}

fn mk_zero_mark() -> (r: Mark)
    ensures
        r == zero_mark(),
{
    Mark::new(0, 0, 0)
}

fn mk_stream_start(encoding: Option<String>) -> (r: Event)
    ensures
        r@ == stream_start_ev(crate::event::view_opt_string(encoding)),
{
    Event::StreamStart { start_mark: mk_zero_mark(), end_mark: mk_zero_mark(), encoding }
}

fn mk_stream_end() -> (r: Event)
    ensures
        r@ == stream_end_ev(),
{
    Event::StreamEnd { start_mark: mk_zero_mark(), end_mark: mk_zero_mark() }
}

fn mk_doc_start(explicit: bool) -> (r: Event)
    ensures
        r@ == doc_start_ev(explicit),
{
    Event::DocumentStart {
        start_mark: mk_zero_mark(),
        end_mark: mk_zero_mark(),
        explicit,
        version: None,
        tags: None,
    }
}

fn mk_doc_end() -> (r: Event)
    ensures
        r@ == doc_end_ev(),
{
    Event::DocumentEnd { start_mark: mk_zero_mark(), end_mark: mk_zero_mark(), explicit: false }
}

fn mk_scalar(value: String, tag: Option<String>) -> (r: Event)
    ensures
        r@ == scalar_ev(value@, crate::event::view_opt_string(tag)),
{
    Event::Scalar {
        anchor: None,
        tag,
        implicit: ScalarImplicit { plain: true, quoted: false },
        value,
        start_mark: mk_zero_mark(),
        end_mark: mk_zero_mark(),
        style: None,
    }
}

fn mk_map_start() -> (r: Event)
    ensures
        r@ == map_start_ev(),
{
    Event::MappingStart {
        anchor: None,
        tag: None,
        implicit: true,
        start_mark: mk_zero_mark(),
        end_mark: mk_zero_mark(),
        flow_style: false,
    }
}

fn mk_map_end() -> (r: Event)
    ensures
        r@ == map_end_ev(),
{
    Event::MappingEnd { start_mark: mk_zero_mark(), end_mark: mk_zero_mark() }
}

fn mk_seq_start() -> (r: Event)
    ensures
        r@ == seq_start_ev(),
{
    Event::SequenceStart {
        anchor: None,
        tag: None,
        implicit: true,
        start_mark: mk_zero_mark(),
        end_mark: mk_zero_mark(),
        flow_style: false,
    }
}

fn mk_seq_end() -> (r: Event)
    ensures
        r@ == seq_end_ev(),
{
    Event::SequenceEnd { start_mark: mk_zero_mark(), end_mark: mk_zero_mark() }
}

proof fn lemma_ev_deep_push(v: Vec<Event>, w: Vec<Event>, x: Event)
    requires
        w@ == v@.push(x),
    ensures
        w.deep_view() == v.deep_view().push(x@),
{
    assert(w.deep_view() =~= v.deep_view().push(x@));
}

/// `s` with one pair of fully surrounding single or double quotes removed,
/// after trimming.
pub open spec fn spec_clean(s: Seq<char>) -> Seq<char> {
    let t = spec_trim(s);
    if t.len() >= 2 && ((t[0] == '\'' && t[t.len() - 1] == '\'') || (t[0] == '"' && t[t.len() - 1]
        == '"')) {
        t.subrange(1, t.len() - 1)
    } else {
        t
    }
}

/// Strip surrounding quotes from a trimmed copy of `v`.
pub fn clean_yaml_string(v: &Vec<char>) -> (r: Vec<char>)
    ensures
        r@ == spec_clean(v@),
{
    let t = trim_chars(v);
    if t.len() >= 2 && ((t[0] == '\'' && t[t.len() - 1] == '\'') || (t[0] == '"' && t[t.len() - 1]
        == '"')) {
        subvec(&t, 1, t.len() - 1)
    } else {
        t
    }
}

/// The full tag URI that a `!!` short name resolves to: the five core schema
/// names map to their canonical URIs, anything else is passed through under
/// the core-schema prefix.
pub open spec fn spec_short_tag(short: Seq<char>) -> Seq<char> {
    if short == "bool"@ {
        tag_bool()
    } else if short == "int"@ {
        tag_int()
    } else if short == "float"@ {
        tag_float()
    } else if short == "str"@ {
        tag_str()
    } else if short == "null"@ {
        tag_null()
    } else {
        tag_prefix() + short
    }
}

fn short_tag(short: &Vec<char>) -> (r: String)
    ensures
        r@ == spec_short_tag(short@),
{
    if eq_lit(short, "bool") {
        tag_bool_string()
    } else if eq_lit(short, "int") {
        tag_int_string()
    } else if eq_lit(short, "float") {
        tag_float_string()
    } else if eq_lit(short, "str") {
        tag_str_string()
    } else if eq_lit(short, "null") {
        tag_null_string()
    } else {
        tag_with_prefix(short)
    }
}

/// What a raw value resolves to: its cleaned text, and the full tag if the
/// value carried an explicit `!!name ` prefix.
pub struct ValueParts {
    pub value: Seq<char>,
    pub tag: Option<Seq<char>>,
}

/// Resolve an explicit `!!name rest` tag prefix and clean the value.
pub open spec fn spec_process_value(s: Seq<char>) -> ValueParts {
    let t = spec_trim(s);
    let sp = spec_find_from(t, ' ', 0);
    if spec_starts_with(t, "!!"@) && 2 <= sp < t.len() {
        let short = t.subrange(2, sp);
        let rest = spec_trim(t.subrange(sp + 1, t.len() as int));
        ValueParts { value: spec_clean(rest), tag: Some(spec_short_tag(short)) }
    } else {
        ValueParts { value: spec_clean(t), tag: None }
    }
}

/// Resolve an explicit tag prefix and clean the value, as
/// `spec_process_value` describes.
pub fn process_yaml_value(v: &Vec<char>) -> (r: (Vec<char>, Option<String>))
    ensures
        r.0@ == spec_process_value(v@).value,
        crate::event::view_opt_string(r.1) == spec_process_value(v@).tag,
{
    let t = trim_chars(v);
    let tlen = t.len();
    if starts_with_lit(&t, "!!") {
        match find_from(&t, ' ', 0) {
            Some(sp) => {
                if sp >= 2 {
                    let short = subvec(&t, 2, sp);
                    let rest = trim_chars(&subvec(&t, sp + 1, tlen));
                    let tag = short_tag(&short);
                    (clean_yaml_string(&rest), Some(tag))
                } else {
                    (clean_yaml_string(&t), None)
                }
            },
            None => (clean_yaml_string(&t), None),
        }
    } else {
        (clean_yaml_string(&t), None)
    }
}

/// Whether the first non-blank character of `l` is a dash: the line is a
/// sequence entry.
pub open spec fn spec_line_dash(l: Seq<char>) -> bool {
    let t = spec_trim_start(l);
    t.len() > 0 && t[0] == '-'
}

fn line_dash(l: &Vec<char>) -> (r: bool)
    ensures
        r == spec_line_dash(l@),
{
    let i = indent_of(l);
    proof {
        crate::chars::lemma_trim_start_is_suffix(l@);
    }
    i < l.len() && l[i] == '-'
}

/// Whether `l` looks like a mapping line: it holds a colon and is not a
/// sequence entry.
pub open spec fn spec_line_mapping(l: Seq<char>) -> bool {
    spec_contains_char(l, ':') && !spec_line_dash(l)
}

fn line_mapping(l: &Vec<char>) -> (r: bool)
    ensures
        r == spec_line_mapping(l@),
{
    contains_char(l, ':') && !line_dash(l)
}

/// Whether any line of the document looks like a mapping line.
pub open spec fn spec_has_mapping(ls: Seq<Seq<char>>) -> bool {
    exists|i: int| 0 <= i < ls.len() && spec_line_mapping(#[trigger] ls[i])
}

fn has_mapping(ls: &Vec<Vec<char>>) -> (r: bool)
    ensures
        r == spec_has_mapping(ls.deep_view()),
{
    proof {
        crate::chars::lemma_lines_deep_view(ls);
    }
    let mut i: usize = 0;
    while i < ls.len()
        invariant
            0 <= i <= ls@.len(),
            ls.deep_view().len() == ls@.len(),
            forall|j: int| 0 <= j < ls@.len() ==> #[trigger] ls.deep_view()[j] == ls@[j]@,
            forall|j: int| 0 <= j < i ==> !spec_line_mapping(#[trigger] ls.deep_view()[j]),
        decreases ls@.len() - i,
    {
        if line_mapping(&ls[i]) {
            proof {
                assert(spec_line_mapping(ls.deep_view()[i as int]));
            }
            return true;
        }
        i = i + 1;
    }
    false
}

/// Whether any line of the document is a sequence entry.
pub open spec fn spec_has_sequence(ls: Seq<Seq<char>>) -> bool {
    exists|i: int| 0 <= i < ls.len() && spec_line_dash(#[trigger] ls[i])
}

fn has_sequence(ls: &Vec<Vec<char>>) -> (r: bool)
    ensures
        r == spec_has_sequence(ls.deep_view()),
{
    proof {
        crate::chars::lemma_lines_deep_view(ls);
    }
    let mut i: usize = 0;
    while i < ls.len()
        invariant
            0 <= i <= ls@.len(),
            ls.deep_view().len() == ls@.len(),
            forall|j: int| 0 <= j < ls@.len() ==> #[trigger] ls.deep_view()[j] == ls@[j]@,
            forall|j: int| 0 <= j < i ==> !spec_line_dash(#[trigger] ls.deep_view()[j]),
        decreases ls@.len() - i,
    {
        if line_dash(&ls[i]) {
            proof {
                assert(spec_line_dash(ls.deep_view()[i as int]));
            }
            return true;
        }
        i = i + 1;
    }
    false
}

/// Whether a line survives filtering: its trimmed form is non-empty and is
/// not a comment.
pub open spec fn spec_keep_line(l: Seq<char>) -> bool {
    let t = spec_trim(l);
    t.len() > 0 && t[0] != '#'
}

fn keep_line(l: &Vec<char>) -> (r: bool)
    ensures
        r == spec_keep_line(l@),
{
    let t = trim_chars(l);
    t.len() > 0 && t[0] != '#'
}

/// The lines that survive filtering, in order.
pub open spec fn spec_filter_lines(ls: Seq<Seq<char>>) -> Seq<Seq<char>>
    decreases ls.len(),
{
    if ls.len() == 0 {
        Seq::empty()
    } else {
        spec_filter_lines(ls.drop_last()) + (if spec_keep_line(ls.last()) {
            seq![ls.last()]
        } else {
            Seq::empty()
        })
    }
}

fn filter_lines(ls: &Vec<Vec<char>>) -> (r: Vec<Vec<char>>)
    ensures
        r.deep_view() == spec_filter_lines(ls.deep_view()),
{
    let ghost l = ls.deep_view();
    let mut r: Vec<Vec<char>> = Vec::new();
    let mut i: usize = 0;
    proof {
        crate::chars::lemma_lines_deep_view(ls);
        assert(l.subrange(0, 0) =~= Seq::<Seq<char>>::empty());
        assert(r.deep_view() =~= spec_filter_lines(l.subrange(0, 0)));
    }
    while i < ls.len()
        invariant
            0 <= i <= ls@.len(),
            l == ls.deep_view(),
            l.len() == ls@.len(),
            forall|j: int| 0 <= j < ls@.len() ==> #[trigger] ls.deep_view()[j] == ls@[j]@,
            r.deep_view() == spec_filter_lines(l.subrange(0, i as int)),
        decreases ls@.len() - i,
    {
        let ghost old_r = r;
        let ghost pre = l.subrange(0, i as int);
        let ghost post = l.subrange(0, i + 1);
        proof {
            assert(post.drop_last() =~= pre);
            assert(post.last() == l[i as int]);
        }
        if keep_line(&ls[i]) {
            let line = subvec(&ls[i], 0, ls[i].len());
            proof {
                assert(line@ =~= l[i as int]);
            }
            r.push(line);
            proof {
                crate::chars::lemma_deep_view_push_pub(old_r, r, line);
                assert(spec_filter_lines(post) =~= old_r.deep_view().push(line@));
            }
        } else {
            proof {
                assert(spec_filter_lines(post) =~= spec_filter_lines(pre));
            }
        }
        i = i + 1;
    }
    proof {
        assert(l.subrange(0, l.len() as int) =~= l);
    }
    r
}

/// Whether a line is a document boundary: its trimmed form is exactly `---`
/// or begins with `--- `.
pub open spec fn spec_is_boundary(l: Seq<char>) -> bool {
    spec_trim(l) == "---"@ || spec_starts_with(spec_trim(l), "--- "@)
}

fn is_boundary(l: &Vec<char>) -> (r: bool)
    ensures
        r == spec_is_boundary(l@),
{
    let t = trim_chars(l);
    eq_lit(&t, "---") || starts_with_lit(&t, "--- ")
}

/// The indices of the document-boundary lines, in order.
pub open spec fn spec_boundaries(ls: Seq<Seq<char>>) -> Seq<int>
    decreases ls.len(),
{
    if ls.len() == 0 {
        Seq::empty()
    } else {
        spec_boundaries(ls.drop_last()) + (if spec_is_boundary(ls.last()) {
            seq![ls.len() - 1]
        } else {
            Seq::empty()
        })
    }
}

fn boundaries(ls: &Vec<Vec<char>>) -> (r: Vec<usize>)
    ensures
        r@.map_values(|x: usize| x as int) == spec_boundaries(ls.deep_view()),
{
    let ghost l = ls.deep_view();
    let mut r: Vec<usize> = Vec::new();
    let mut i: usize = 0;
    proof {
        crate::chars::lemma_lines_deep_view(ls);
        assert(l.subrange(0, 0) =~= Seq::<Seq<char>>::empty());
        assert(r@.map_values(|x: usize| x as int) =~= spec_boundaries(l.subrange(0, 0)));
    }
    while i < ls.len()
        invariant
            0 <= i <= ls@.len(),
            l == ls.deep_view(),
            l.len() == ls@.len(),
            forall|j: int| 0 <= j < ls@.len() ==> #[trigger] ls.deep_view()[j] == ls@[j]@,
            r@.map_values(|x: usize| x as int) == spec_boundaries(l.subrange(0, i as int)),
        decreases ls@.len() - i,
    {
        let ghost old_r = r;
        let ghost pre = l.subrange(0, i as int);
        let ghost post = l.subrange(0, i + 1);
        proof {
            assert(post.drop_last() =~= pre);
            assert(post.last() == l[i as int]);
        }
        if is_boundary(&ls[i]) {
            r.push(i);
            proof {
                assert(r@.map_values(|x: usize| x as int) =~= old_r@.map_values(
                    |x: usize| x as int,
                ).push(i as int));
                assert(spec_boundaries(post) =~= old_r@.map_values(|x: usize| x as int).push(
                    i as int,
                ));
            }
        } else {
            proof {
                assert(spec_boundaries(post) =~= spec_boundaries(pre));
            }
        }
        i = i + 1;
    }
    proof {
        assert(l.subrange(0, l.len() as int) =~= l);
    }
    r
}

/// A copy of the line range `[from, to)`.
fn copy_lines(ls: &Vec<Vec<char>>, from: usize, to: usize) -> (r: Vec<Vec<char>>)
    requires
        from <= to <= ls@.len(),
    ensures
        r.deep_view() == ls.deep_view().subrange(from as int, to as int),
{
    let mut r: Vec<Vec<char>> = Vec::new();
    let mut i: usize = from;
    proof {
        crate::chars::lemma_lines_deep_view(ls);
        assert(r.deep_view() =~= ls.deep_view().subrange(from as int, from as int));
    }
    while i < to
        invariant
            from <= i <= to <= ls@.len(),
            ls.deep_view().len() == ls@.len(),
            forall|j: int| 0 <= j < ls@.len() ==> #[trigger] ls.deep_view()[j] == ls@[j]@,
            r.deep_view() == ls.deep_view().subrange(from as int, i as int),
        decreases to - i,
    {
        let ghost old_r = r;
        let line = subvec(&ls[i], 0, ls[i].len());
        proof {
            assert(line@ =~= ls.deep_view()[i as int]);
        }
        r.push(line);
        proof {
            crate::chars::lemma_deep_view_push_pub(old_r, r, line);
            assert(r.deep_view() =~= ls.deep_view().subrange(from as int, i + 1));
        }
        i = i + 1;
    }
    r
}

/// The first line index at or after `k` that ends a nested block opened at
/// indentation `cur`: its indentation is not deeper, or it is blank.
pub open spec fn spec_nested_end(ls: Seq<Seq<char>>, k: int, cur: int) -> int
    decreases ls.len() - k,
{
    if !(0 <= k < ls.len()) {
        ls.len() as int
    } else if spec_indent(ls[k]) > cur && spec_trim(ls[k]).len() > 0 {
        spec_nested_end(ls, k + 1, cur)
    } else {
        k
    }
}

fn nested_line(l: &Vec<char>, cur: usize) -> (r: bool)
    ensures
        r == (spec_indent(l@) > cur && spec_trim(l@).len() > 0),
{
    let ind = indent_of(l);
    let t = trim_chars(l);
    ind > cur && t.len() > 0
}

fn nested_end(ls: &Vec<Vec<char>>, k: usize, cur: usize) -> (r: usize)
    requires
        k <= ls@.len(),
    ensures
        k <= r <= ls@.len(),
        r == spec_nested_end(ls.deep_view(), k as int, cur as int),
{
    proof {
        crate::chars::lemma_lines_deep_view(ls);
    }
    let mut i: usize = k;
    while i < ls.len() && nested_line(&ls[i], cur)
        invariant
            k <= i <= ls@.len(),
            ls.deep_view().len() == ls@.len(),
            forall|j: int| 0 <= j < ls@.len() ==> #[trigger] ls.deep_view()[j] == ls@[j]@,
            spec_nested_end(ls.deep_view(), k as int, cur as int) == spec_nested_end(
                ls.deep_view(),
                i as int,
                cur as int,
            ),
        decreases ls@.len() - i,
    {
        i = i + 1;
    }
    i
}

/// The events emitted for the sequence lines from index `i` on: one scalar
/// per dash-prefixed line with a non-empty item, tags resolved.
pub open spec fn spec_seq_lines(ls: Seq<Seq<char>>, i: int) -> Seq<EventV>
    decreases ls.len() - i,
{
    if !(0 <= i < ls.len()) {
        Seq::empty()
    } else {
        let t = spec_trim(ls[i]);
        let step = if t.len() > 0 && t[0] == '-' {
            let item = spec_trim(t.subrange(1, t.len() as int));
            if item.len() > 0 {
                let vp = spec_process_value(item);
                seq![scalar_ev(vp.value, vp.tag)]
            } else {
                Seq::<EventV>::empty()
            }
        } else {
            Seq::<EventV>::empty()
        };
        step + spec_seq_lines(ls, i + 1)
    }
}

/// Emit one scalar event per sequence entry line, as `spec_seq_lines`
/// describes.
pub fn parse_sequence_lines(lines: &Vec<Vec<char>>, events: &mut Vec<Event>)
    ensures
        final(events).deep_view() == old(events).deep_view() + spec_seq_lines(
            lines.deep_view(),
            0,
        ),
{
    let ghost l = lines.deep_view();
    let ghost base = events.deep_view();
    proof {
        crate::chars::lemma_lines_deep_view(lines);
        assert(events.deep_view() + spec_seq_lines(l, 0) =~= base + spec_seq_lines(l, 0));
    }
    let mut i: usize = 0;
    while i < lines.len()
        invariant
            0 <= i <= lines@.len(),
            l == lines.deep_view(),
            l.len() == lines@.len(),
            forall|j: int| 0 <= j < lines@.len() ==> #[trigger] lines.deep_view()[j] == lines@[j]@,
            events.deep_view() + spec_seq_lines(l, i as int) == base + spec_seq_lines(l, 0),
        decreases lines@.len() - i,
    {
        let ghost pre = events.deep_view();
        let t = trim_chars(&lines[i]);
        if t.len() > 0 && t[0] == '-' {
            let item = trim_chars(&subvec(&t, 1, t.len()));
            if item.len() > 0 {
                let (cv, tag) = process_yaml_value(&item);
                let ev = mk_scalar(chars_to_string(&cv), tag);
                let ghost olds = *events;
                events.push(ev);
                proof {
                    lemma_ev_deep_push(olds, *events, ev);
                }
            }
        }
        proof {
            assert(events.deep_view() + spec_seq_lines(l, i + 1) =~= pre + spec_seq_lines(
                l,
                i as int,
            ));
        }
        i = i + 1;
    }
    proof {
        assert(spec_seq_lines(l, i as int) == Seq::<EventV>::empty());
        assert(events.deep_view() + Seq::<EventV>::empty() =~= events.deep_view());
        assert(base + Seq::<EventV>::empty() =~= base);
    }
}

/// The events emitted for the mapping lines from index `i` on. A `key:` line
/// with an inline value yields two scalar events; one with an empty value
/// collects the following deeper-indented lines as a nested block, classified
/// as mapping or sequence by the same rules. (The bound on `j` only serves
/// termination; the nested scan never leaves `[i + 1, len]`.)
pub open spec fn spec_map_lines(ls: Seq<Seq<char>>, i: int) -> Seq<EventV>
    decreases ls.len(), ls.len() - i,
{
    if !(0 <= i < ls.len()) {
        Seq::empty()
    } else {
        let t = spec_trim(ls[i]);
        let colon = spec_find_from(t, ':', 0);
        if !(0 <= colon < t.len()) {
            spec_map_lines(ls, i + 1)
        } else {
            let key = spec_clean(t.subrange(0, colon));
            let vpart = spec_trim(t.subrange(colon + 1, t.len() as int));
            if vpart.len() > 0 {
                let vp = spec_process_value(vpart);
                seq![scalar_ev(key, None), scalar_ev(vp.value, vp.tag)] + spec_map_lines(ls, i + 1)
            } else {
                let cur = spec_indent(ls[i]);
                let j0 = spec_nested_end(ls, i + 1, cur as int);
                let j = if j0 < i + 1 {
                    i + 1
                } else if j0 > ls.len() {
                    ls.len() as int
                } else {
                    j0
                };
                let nested = ls.subrange(i + 1, j);
                let body = if nested.len() == 0 {
                    Seq::<EventV>::empty()
                } else if spec_has_mapping(nested) {
                    seq![map_start_ev()] + spec_map_lines(nested, 0) + seq![map_end_ev()]
                } else if spec_has_sequence(nested) {
                    seq![seq_start_ev()] + spec_seq_lines(nested, 0) + seq![seq_end_ev()]
                } else {
                    Seq::<EventV>::empty()
                };
                seq![scalar_ev(key, None)] + body + spec_map_lines(ls, j)
            }
        }
    }
}

/// Emit the events of a block mapping, as `spec_map_lines` describes.
pub fn parse_mapping_lines(lines: &Vec<Vec<char>>, events: &mut Vec<Event>)
    ensures
        final(events).deep_view() == old(events).deep_view() + spec_map_lines(
            lines.deep_view(),
            0,
        ),
    decreases lines@.len(),
{
    let ghost l = lines.deep_view();
    let ghost base = events.deep_view();
    proof {
        crate::chars::lemma_lines_deep_view(lines);
        assert(events.deep_view() + spec_map_lines(l, 0) =~= base + spec_map_lines(l, 0));
    }
    let mut i: usize = 0;
    while i < lines.len()
        invariant
            0 <= i <= lines@.len(),
            l == lines.deep_view(),
            l.len() == lines@.len(),
            forall|j: int| 0 <= j < lines@.len() ==> #[trigger] lines.deep_view()[j] == lines@[j]@,
            events.deep_view() + spec_map_lines(l, i as int) == base + spec_map_lines(l, 0),
        decreases lines@.len() - i,
    {
        let ghost pre = events.deep_view();
        let t = trim_chars(&lines[i]);
        let tlen = t.len();
        match find_from(&t, ':', 0) {
            None => {
                proof {
                    assert(spec_map_lines(l, i as int) == spec_map_lines(l, i + 1));
                }
                i = i + 1;
            },
            Some(colon) => {
                let key_raw = subvec(&t, 0, colon);
                let key_clean = clean_yaml_string(&key_raw);
                let ev_key = mk_scalar(chars_to_string(&key_clean), None);
                let ghost olds = *events;
                events.push(ev_key);
                proof {
                    lemma_ev_deep_push(olds, *events, ev_key);
                }
                let vpart = trim_chars(&subvec(&t, colon + 1, tlen));
                if vpart.len() > 0 {
                    let (cv, tag) = process_yaml_value(&vpart);
                    let ev_val = mk_scalar(chars_to_string(&cv), tag);
                    let ghost olds2 = *events;
                    events.push(ev_val);
                    proof {
                        lemma_ev_deep_push(olds2, *events, ev_val);
                        assert(events.deep_view() + spec_map_lines(l, i + 1) =~= pre
                            + spec_map_lines(l, i as int));
                    }
                    i = i + 1;
                } else {
                    let cur = indent_of(&lines[i]);
                    let j = nested_end(lines, i + 1, cur);
                    let nested = copy_lines(lines, i + 1, j);
                    let ghost nv = nested.deep_view();
                    proof {
                        assert(nv == l.subrange(i + 1, j as int));
                        assert(nv.len() == j - i - 1);
                    }
                    if nested.len() > 0 {
                        if has_mapping(&nested) {
                            let ghost olds2 = *events;
                            let e1 = mk_map_start();
                            events.push(e1);
                            proof {
                                lemma_ev_deep_push(olds2, *events, e1);
                            }
                            parse_mapping_lines(&nested, events);
                            let ghost olds3 = *events;
                            let e2 = mk_map_end();
                            events.push(e2);
                            proof {
                                lemma_ev_deep_push(olds3, *events, e2);
                                assert(events.deep_view() + spec_map_lines(l, j as int) =~= pre
                                    + spec_map_lines(l, i as int));
                            }
                        } else if has_sequence(&nested) {
                            let ghost olds2 = *events;
                            let e1 = mk_seq_start();
                            events.push(e1);
                            proof {
                                lemma_ev_deep_push(olds2, *events, e1);
                            }
                            parse_sequence_lines(&nested, events);
                            let ghost olds3 = *events;
                            let e2 = mk_seq_end();
                            events.push(e2);
                            proof {
                                lemma_ev_deep_push(olds3, *events, e2);
                                assert(events.deep_view() + spec_map_lines(l, j as int) =~= pre
                                    + spec_map_lines(l, i as int));
                            }
                        } else {
                            proof {
                                assert(events.deep_view() + spec_map_lines(l, j as int) =~= pre
                                    + spec_map_lines(l, i as int));
                            }
                        }
                    } else {
                        proof {
                            assert(events.deep_view() + spec_map_lines(l, j as int) =~= pre
                                + spec_map_lines(l, i as int));
                        }
                    }
                    i = j;
                }
            },
        }
    }
    proof {
        assert(spec_map_lines(l, i as int) == Seq::<EventV>::empty());
        assert(events.deep_view() + Seq::<EventV>::empty() =~= events.deep_view());
        assert(base + Seq::<EventV>::empty() =~= base);
    }
}

/// The events of one document's content: a whole-document mapping if any
/// line looks like a mapping line, else a whole-document sequence if any
/// line is a sequence entry, else a single scalar if exactly one line
/// remains.
pub open spec fn spec_content(doc: Seq<Seq<char>>) -> Seq<EventV> {
    if doc.len() == 0 {
        Seq::empty()
    } else if spec_has_mapping(doc) {
        seq![map_start_ev()] + spec_map_lines(doc, 0) + seq![map_end_ev()]
    } else if spec_has_sequence(doc) {
        seq![seq_start_ev()] + spec_seq_lines(doc, 0) + seq![seq_end_ev()]
    } else if doc.len() == 1 {
        seq![scalar_ev(spec_trim(doc[0]), None)]
    } else {
        Seq::empty()
    }
}

/// Emit one document's content events, as `spec_content` describes.
pub fn process_document_content(doc: &Vec<Vec<char>>, events: &mut Vec<Event>)
    ensures
        final(events).deep_view() == old(events).deep_view() + spec_content(doc.deep_view()),
{
    let ghost base = events.deep_view();
    proof {
        crate::chars::lemma_lines_deep_view(doc);
    }
    if doc.len() == 0 {
        proof {
            assert(events.deep_view() + spec_content(doc.deep_view()) =~= base);
        }
        return ;
    }
    if has_mapping(doc) {
        let ghost o1 = *events;
        let e1 = mk_map_start();
        events.push(e1);
        proof {
            lemma_ev_deep_push(o1, *events, e1);
        }
        parse_mapping_lines(doc, events);
        let ghost o2 = *events;
        let e2 = mk_map_end();
        events.push(e2);
        proof {
            lemma_ev_deep_push(o2, *events, e2);
            assert(events.deep_view() =~= base + spec_content(doc.deep_view()));
        }
    } else if has_sequence(doc) {
        let ghost o1 = *events;
        let e1 = mk_seq_start();
        events.push(e1);
        proof {
            lemma_ev_deep_push(o1, *events, e1);
        }
        parse_sequence_lines(doc, events);
        let ghost o2 = *events;
        let e2 = mk_seq_end();
        events.push(e2);
        proof {
            lemma_ev_deep_push(o2, *events, e2);
            assert(events.deep_view() =~= base + spec_content(doc.deep_view()));
        }
    } else if doc.len() == 1 {
        let v = trim_chars(&doc[0]);
        let ev = mk_scalar(chars_to_string(&v), None);
        let ghost o1 = *events;
        events.push(ev);
        proof {
            lemma_ev_deep_push(o1, *events, ev);
            assert(events.deep_view() =~= base + spec_content(doc.deep_view()));
        }
    } else {
        proof {
            assert(events.deep_view() + spec_content(doc.deep_view()) =~= base);
        }
    }
}

/// The events of the document segment `[start, end)` of the line list: its
/// filtered lines, wrapped in document start and end events if any remain.
pub open spec fn spec_document_events(
    ls: Seq<Seq<char>>,
    start: int,
    end: int,
    explicit: bool,
) -> Seq<EventV> {
    if 0 <= start < end <= ls.len() {
        let doc = spec_filter_lines(ls.subrange(start, end));
        if doc.len() > 0 {
            seq![doc_start_ev(explicit)] + spec_content(doc) + seq![doc_end_ev()]
        } else {
            Seq::empty()
        }
    } else {
        Seq::empty()
    }
}

fn document_events(
    ls: &Vec<Vec<char>>,
    start: usize,
    end: usize,
    explicit: bool,
    events: &mut Vec<Event>,
)
    ensures
        final(events).deep_view() == old(events).deep_view() + spec_document_events(
            ls.deep_view(),
            start as int,
            end as int,
            explicit,
        ),
{
    let ghost base = events.deep_view();
    if start < end && end <= ls.len() {
        let seg = copy_lines(ls, start, end);
        let doc = filter_lines(&seg);
        if doc.len() > 0 {
            let ghost o1 = *events;
            let e1 = mk_doc_start(explicit);
            events.push(e1);
            proof {
                lemma_ev_deep_push(o1, *events, e1);
            }
            process_document_content(&doc, events);
            let ghost o2 = *events;
            let e2 = mk_doc_end();
            events.push(e2);
            proof {
                lemma_ev_deep_push(o2, *events, e2);
                assert(events.deep_view() =~= base + spec_document_events(
                    ls.deep_view(),
                    start as int,
                    end as int,
                    explicit,
                ));
            }
        } else {
            proof {
                assert(events.deep_view() + spec_document_events(
                    ls.deep_view(),
                    start as int,
                    end as int,
                    explicit,
                ) =~= base);
            }
        }
    } else {
        proof {
            assert(events.deep_view() + spec_document_events(
                ls.deep_view(),
                start as int,
                end as int,
                explicit,
            ) =~= base);
        }
    }
}

/// The events of all document segments cut by the boundary list `b`, which
/// ends with the sentinel `ls.len()`: segment `i` runs from just after the
/// previous boundary to boundary `i`, and every document after the first is
/// explicit.
pub open spec fn spec_segments(ls: Seq<Seq<char>>, b: Seq<int>, i: int) -> Seq<EventV>
    decreases b.len() - i,
{
    if !(0 <= i < b.len()) {
        Seq::empty()
    } else {
        let start = if i == 0 {
            0
        } else {
            b[i - 1] + 1
        };
        let end = if i == b.len() - 1 {
            ls.len() as int
        } else {
            b[i]
        };
        spec_document_events(ls, start, end, i > 0) + spec_segments(ls, b, i + 1)
    }
}

/// Every boundary index lies within the line list.
proof fn lemma_boundaries_bounds(ls: Seq<Seq<char>>)
    ensures
        forall|k: int|
            0 <= k < spec_boundaries(ls).len() ==> 0 <= #[trigger] spec_boundaries(ls)[k]
                < ls.len(),
    decreases ls.len(),
{
    if ls.len() > 0 {
        lemma_boundaries_bounds(ls.drop_last());
        let pre = spec_boundaries(ls.drop_last());
        assert forall|k: int|
            0 <= k < spec_boundaries(ls).len() implies 0 <= #[trigger] spec_boundaries(ls)[k]
            < ls.len() by {
            if k < pre.len() {
                assert(spec_boundaries(ls)[k] == pre[k]);
                assert(0 <= pre[k] < ls.drop_last().len());
            } else {
                assert(spec_boundaries(ls)[k] == ls.len() - 1);
            }
        }
    }
}

/// Whether the whole text is whitespace only.
pub open spec fn spec_text_blank(s: Seq<char>) -> bool {
    forall|i: int|
        0 <= i < s.len() ==> (#[trigger] s[i] == ' ' || s[i] == '\t' || s[i] == '\r' || s[i]
            == '\n')
}

fn text_blank(v: &Vec<char>) -> (r: bool)
    ensures
        r == spec_text_blank(v@),
{
    let mut i: usize = 0;
    while i < v.len()
        invariant
            0 <= i <= v@.len(),
            forall|j: int|
                0 <= j < i ==> (#[trigger] v@[j] == ' ' || v@[j] == '\t' || v@[j] == '\r' || v@[j]
                    == '\n'),
        decreases v@.len() - i,
    {
        let c = v[i];
        if !(c == ' ' || c == '\t' || c == '\r' || c == '\n') {
            return false;
        }
        i = i + 1;
    }
    true
}

/// The line list the builder works on: the source's lines, each with
/// trailing padding removed.
pub open spec fn spec_builder_lines(s: Seq<char>) -> Seq<Seq<char>> {
    spec_split_lines(s).map_values(|l: Seq<char>| spec_trim_end(l))
}

fn builder_lines(text: &Vec<char>) -> (r: Vec<Vec<char>>)
    ensures
        r.deep_view() == spec_builder_lines(text@),
{
    let raw = split_lines(text);
    proof {
        crate::chars::lemma_lines_deep_view(&raw);
    }
    let mut r: Vec<Vec<char>> = Vec::new();
    let mut i: usize = 0;
    while i < raw.len()
        invariant
            0 <= i <= raw@.len(),
            raw.deep_view() == spec_split_lines(text@),
            raw.deep_view().len() == raw@.len(),
            forall|j: int| 0 <= j < raw@.len() ==> #[trigger] raw.deep_view()[j] == raw@[j]@,
            r.deep_view().len() == i,
            forall|j: int|
                0 <= j < i ==> #[trigger] r.deep_view()[j] == spec_trim_end(raw.deep_view()[j]),
        decreases raw@.len() - i,
    {
        let ghost old_r = r;
        let line = trim_end_chars(&raw[i]);
        r.push(line);
        proof {
            crate::chars::lemma_deep_view_push_pub(old_r, r, line);
        }
        i = i + 1;
    }
    proof {
        assert(r.deep_view() =~= spec_builder_lines(text@));
    }
    r
}

/// The minimal event stream of an empty document.
pub open spec fn spec_empty_document_events() -> Seq<EventV> {
    seq![stream_start_ev(None), doc_start_ev(false), doc_end_ev(), stream_end_ev()]
}

/// The minimal four-event stream produced for empty or blank input.
pub fn create_empty_document_events() -> (r: Vec<Event>)
    ensures
        r.deep_view() == spec_empty_document_events(),
{
    let mut r: Vec<Event> = Vec::new();
    let ghost r0 = r;
    let e1 = mk_stream_start(None);
    r.push(e1);
    let ghost r1 = r;
    let e2 = mk_doc_start(false);
    r.push(e2);
    let ghost r2 = r;
    let e3 = mk_doc_end();
    r.push(e3);
    let ghost r3 = r;
    let e4 = mk_stream_end();
    r.push(e4);
    proof {
        lemma_ev_deep_push(r0, r1, e1);
        lemma_ev_deep_push(r1, r2, e2);
        lemma_ev_deep_push(r2, r3, e3);
        lemma_ev_deep_push(r3, r, e4);
        assert(r0.deep_view() =~= Seq::<EventV>::empty());
        assert(r.deep_view() =~= spec_empty_document_events());
    }
    r
}

/// The full event stream built from a source text: the minimal stream for
/// blank input, else `StreamStart`, the documents cut at `---` boundaries,
/// and `StreamEnd`.
pub open spec fn spec_build_events(s: Seq<char>) -> Seq<EventV> {
    if spec_text_blank(s) {
        spec_empty_document_events()
    } else {
        let lines = spec_builder_lines(s);
        seq![stream_start_ev(Some("utf-8"@))] + spec_segments(
            lines,
            spec_boundaries(lines).push(lines.len() as int),
            0,
        ) + seq![stream_end_ev()]
    }
}

/// Parse a source text into its event stream: the entry point callers use,
/// with the same contract as `build_events`.
pub fn parse_rust(text: &str) -> (r: Vec<Event>)
    ensures
        r.deep_view() == spec_build_events(text@),
{
    build_events(text)
}

/// Build the event stream of a source text, as `spec_build_events` describes.
pub fn build_events(text: &str) -> (r: Vec<Event>)
    ensures
        r.deep_view() == spec_build_events(text@),
{
    let chars = str_to_chars(text);
    if text_blank(&chars) {
        return create_empty_document_events();
    }
    let lines = builder_lines(&chars);
    let ghost lv = lines.deep_view();
    let mut b = boundaries(&lines);
    let ghost b0 = b@.map_values(|x: usize| x as int);
    b.push(lines.len());
    let ghost bv = b@.map_values(|x: usize| x as int);
    proof {
        assert(bv =~= b0.push(lv.len() as int));
        lemma_boundaries_bounds(lv);
    }
    let mut events: Vec<Event> = Vec::new();
    let ghost e0 = events;
    let es = mk_stream_start(Some(String::from_str("utf-8")));
    events.push(es);
    proof {
        lemma_ev_deep_push(e0, events, es);
        assert(events.deep_view() =~= seq![stream_start_ev(Some("utf-8"@))]);
    }
    let ghost head = events.deep_view();
    let mut i: usize = 0;
    while i < b.len()
        invariant
            0 <= i <= b@.len(),
            bv == b@.map_values(|x: usize| x as int),
            bv.len() == b@.len(),
            b@.len() >= 1,
            lv == lines.deep_view(),
            lv.len() == lines@.len(),
            b@[b@.len() - 1] == lines@.len(),
            forall|k: int| 0 <= k < bv.len() - 1 ==> 0 <= #[trigger] bv[k] < lv.len(),
            events.deep_view() + spec_segments(lv, bv, i as int) == head + spec_segments(lv, bv, 0),
        decreases b@.len() - i,
    {
        let ghost pre = events.deep_view();
        let start: usize = if i == 0 {
            0
        } else {
            b[i - 1] + 1
        };
        let end: usize = if i == b.len() - 1 {
            lines.len()
        } else {
            b[i]
        };
        proof {
            assert(bv[i as int] == b@[i as int]);
            if i > 0 {
                assert(bv[i - 1] == b@[i - 1]);
            }
        }
        document_events(&lines, start, end, i > 0, &mut events);
        proof {
            assert(events.deep_view() + spec_segments(lv, bv, i + 1) =~= pre + spec_segments(
                lv,
                bv,
                i as int,
            ));
        }
        i = i + 1;
    }
    let ghost o2 = *(&events);
    let ee = mk_stream_end();
    events.push(ee);
    proof {
        lemma_ev_deep_push(o2, events, ee);
        assert(spec_segments(lv, bv, i as int) == Seq::<EventV>::empty());
        assert(o2.deep_view() =~= head + spec_segments(lv, bv, 0));
        assert(events.deep_view() =~= spec_build_events(text@));
    }
    events
}

} // verus!
