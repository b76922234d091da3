//! Laws that tie the pipeline stages together: composing a plain scalar
//! document, emitting the tree it yields, and composing the emitted text
//! again restores the same tree.

use vstd::prelude::*;
use crate::chars::{
    is_blank, spec_contains_char, spec_contains_seq, spec_find_from, spec_split_lines,
    spec_starts_with, spec_trim, spec_trim_end, spec_trim_start,
};
use crate::composer::{
    spec_compose_document, spec_compose_node, spec_resolve_tag, DocRes, NodeRes, NodeStep, NodeV,
    NodeValueV,
};
use crate::emitter::{spec_analyze, spec_default_cfg, spec_emit_document, spec_fresh_state};
use crate::event::EventV;
use crate::parser::{
    doc_end_ev, doc_start_ev, scalar_ev, spec_boundaries, spec_build_events, spec_builder_lines,
    spec_content, spec_document_events, spec_filter_lines, spec_keep_line, spec_line_dash,
    spec_line_mapping, spec_segments, spec_text_blank, stream_end_ev, stream_start_ev,
};
use crate::tags::tag_str;

verus! {

/// A scalar text that stands alone as a plain one-line document: non-empty,
/// plain-eligible, free of colons, with firm edges, and not read as one of
/// the other core types.
pub open spec fn plain_document_scalar(s: Seq<char>) -> bool {
    &&& s.len() > 0
    &&& spec_analyze(s).allow_flow_plain
    &&& !spec_contains_char(s, ':')
    &&& !is_blank(s[0])
    &&& !is_blank(s[s.len() - 1])
    &&& spec_resolve_tag(s) == tag_str()
}

/// The node such a scalar composes to.
pub open spec fn plain_scalar_node(s: Seq<char>) -> NodeV {
    NodeV {
        tag: tag_str(),
        value: NodeValueV::Scalar(s),
        start_mark: crate::parser::zero_mark(),
        end_mark: crate::parser::zero_mark(),
        style: None,
        flow_style: None,
        anchor: None,
    }
}

/// The first occurrence of `c` in `w` is at `k` when everything before `k`
/// misses and `w[k]` hits.
proof fn lemma_find_first_at(w: Seq<char>, c: char, k: int)
    requires
        0 <= k < w.len(),
        w[k] == c,
        forall|j: int| 0 <= j < k ==> w[j] != c,
    ensures
        spec_find_from(w, c, 0) == k,
{
    lemma_find_first_from(w, c, 0, k);
}

proof fn lemma_find_first_from(w: Seq<char>, c: char, from: int, k: int)
    requires
        0 <= from <= k < w.len(),
        w[k] == c,
        forall|j: int| from <= j < k ==> w[j] != c,
    ensures
        spec_find_from(w, c, from) == k,
    decreases k - from,
{
    if from < k {
        lemma_find_first_from(w, c, from + 1, k);
    }
}

/// A character that occurs nowhere is found nowhere.
proof fn lemma_find_from_none(w: Seq<char>, c: char, from: int)
    requires
        0 <= from <= w.len(),
        forall|j: int| from <= j < w.len() ==> w[j] != c,
    ensures
        spec_find_from(w, c, from) == -1,
    decreases w.len() - from,
{
    if from < w.len() {
        lemma_find_from_none(w, c, from + 1);
    }
}

/// A needle holding a character the haystack lacks occurs nowhere in it.
proof fn lemma_contains_seq_absent_char(hay: Seq<char>, needle: Seq<char>, c: char, k: int)
    requires
        0 <= k < needle.len(),
        needle[k] == c,
        !spec_contains_char(hay, c),
    ensures
        !spec_contains_seq(hay, needle),
{
    assert forall|i: int|
        0 <= i && i + needle.len() <= hay.len() implies #[trigger] hay.subrange(
        i,
        i + needle.len(),
    ) != needle by {
        assert(hay.subrange(i, i + needle.len())[k] == hay[i + k]);
    }
}

/// The core-schema string tag holds no `i`, so neither block-style word
/// occurs in it.
proof fn lemma_str_tag_has_no_block_word()
    ensures
        !spec_contains_seq(tag_str(), "literal"@),
        !spec_contains_seq(tag_str(), "folded"@),
{
    reveal_strlit("tag:yaml.org,2002:str");
    reveal_strlit("literal");
    reveal_strlit("folded");
    assert(!spec_contains_char(tag_str(), 'i'));
    assert(!spec_contains_char(tag_str(), 'f'));
    lemma_contains_seq_absent_char(tag_str(), "literal"@, 'i', 1);
    lemma_contains_seq_absent_char(tag_str(), "folded"@, 'f', 0);
}

/// A plain document scalar has firm edges under trimming.
proof fn lemma_plain_scalar_trim(s: Seq<char>)
    requires
        plain_document_scalar(s),
    ensures
        spec_trim_start(s) == s,
        spec_trim_end(s) == s,
        spec_trim(s) == s,
{
}

/// The event stream built from a lone plain scalar text.
proof fn lemma_build_events_of_plain_scalar(s: Seq<char>)
    requires
        plain_document_scalar(s),
    ensures
        spec_build_events(s) == seq![
            stream_start_ev(Some("utf-8"@)),
            doc_start_ev(false),
            scalar_ev(s, None),
            doc_end_ev(),
            stream_end_ev(),
        ],
{
    lemma_plain_scalar_trim(s);
    assert(!spec_text_blank(s)) by {
        assert(!(s[0] == ' ' || s[0] == '\t' || s[0] == '\r' || s[0] == '\n')) by {
            assert(!is_blank(s[0]));
            if s[0] == '\n' {
                assert(spec_contains_char(s, '\n'));
            }
        }
    }
    assert(!spec_contains_char(s, '\n')) by {
        if spec_contains_char(s, '\n') {
            assert(spec_analyze(s).multiline);
        }
    }
    // One line, kept as it stands.
    lemma_find_from_none(s, '\n', 0);
    assert(spec_split_lines(s) =~= seq![s]) by {
        assert(crate::chars::spec_strip_cr(s) == s);
    }
    let lines = spec_builder_lines(s);
    assert(lines =~= seq![s]) by {
        assert(spec_split_lines(s).map_values(|l: Seq<char>| spec_trim_end(l)) =~= seq![s]);
    }
    // The line is no document boundary.
    reveal_strlit("---");
    reveal_strlit("--- ");
    assert(!crate::parser::spec_is_boundary(s)) by {
        assert("---"@.len() == 3 && "---"@[0] == '-');
        assert("--- "@.len() == 4 && "--- "@[0] == '-');
        assert(s[0] != '-');
        if spec_trim(s) == "---"@ {
            assert(s[0] == '-');
        }
        if spec_starts_with(spec_trim(s), "--- "@) {
            assert(s.subrange(0, 4)[0] == s[0]);
        }
    }
    assert(spec_boundaries(lines) =~= Seq::<int>::empty()) by {
        assert(lines.drop_last() =~= Seq::<Seq<char>>::empty());
        assert(spec_boundaries(Seq::<Seq<char>>::empty()) == Seq::<int>::empty());
        assert(lines.last() == s);
    }
    let b = spec_boundaries(lines).push(lines.len() as int);
    assert(b =~= seq![1int]);
    // One segment covering the single line.
    assert(spec_keep_line(s));
    assert(s[0] != '#');
    let seg = spec_document_events(lines, 0, 1, false);
    assert(lines.subrange(0, 1) =~= lines);
    assert(spec_filter_lines(lines) =~= seq![s]) by {
        assert(lines.drop_last() =~= Seq::<Seq<char>>::empty());
        assert(spec_filter_lines(Seq::<Seq<char>>::empty()) == Seq::<Seq<char>>::empty());
        assert(lines.last() == s);
    }
    let doc = spec_filter_lines(lines);
    assert(!spec_line_mapping(s)) by {
        assert(!spec_contains_char(s, ':'));
    }
    assert(!crate::parser::spec_has_mapping(doc)) by {
        assert forall|i: int| 0 <= i < doc.len() implies !spec_line_mapping(#[trigger] doc[i]) by {
            assert(doc[i] == s);
        }
    }
    assert(!spec_line_dash(s)) by {
        assert(spec_trim_start(s) == s);
        assert(s[0] != '-');
    }
    assert(!crate::parser::spec_has_sequence(doc)) by {
        assert forall|i: int| 0 <= i < doc.len() implies !spec_line_dash(#[trigger] doc[i]) by {
            assert(doc[i] == s);
        }
    }
    assert(spec_content(doc) =~= seq![scalar_ev(s, None)]) by {
        assert(doc[0] == s);
        assert(spec_trim(doc[0]) == s);
    }
    assert(seg =~= seq![doc_start_ev(false), scalar_ev(s, None), doc_end_ev()]);
    assert(spec_segments(lines, b, 1) =~= Seq::<EventV>::empty());
    assert(spec_segments(lines, b, 0) =~= seq![
        doc_start_ev(false),
        scalar_ev(s, None),
        doc_end_ev(),
    ]);
    assert(spec_build_events(s) =~= seq![
        stream_start_ev(Some("utf-8"@)),
        doc_start_ev(false),
        scalar_ev(s, None),
        doc_end_ev(),
        stream_end_ev(),
    ]);
}

/// Composing a stream whose content is one untagged scalar yields the
/// scalar node with its inferred tag.
proof fn lemma_compose_scalar_stream(s: Seq<char>, explicit: bool)
    requires
        spec_resolve_tag(s) == tag_str(),
    ensures
        spec_compose_document(
            seq![
                stream_start_ev(Some("utf-8"@)),
                doc_start_ev(explicit),
                scalar_ev(s, None),
                doc_end_ev(),
                stream_end_ev(),
            ],
        ) == DocRes::Done(Some(plain_scalar_node(s))),
{
    let events = seq![
        stream_start_ev(Some("utf-8"@)),
        doc_start_ev(explicit),
        scalar_ev(s, None),
        doc_end_ev(),
        stream_end_ev(),
    ];
    assert(events[0] is StreamStart);
    assert(events[1] is DocumentStart);
    assert(spec_compose_node(events, 2, Map::empty()) == NodeRes::Done(
        NodeStep { node: Some(plain_scalar_node(s)), next: 3, anchors: Map::empty() },
    ));
}

/// The text emitted for a plain string-tagged scalar: the document marker,
/// the bare scalar, and a closing line break.
proof fn lemma_emit_plain_scalar(s: Seq<char>)
    requires
        plain_document_scalar(s),
    ensures
        spec_emit_document(spec_default_cfg(), spec_fresh_state(), plain_scalar_node(s), false).out
            == "---\n"@ + s + "\n"@,
{
    let cfg = spec_default_cfg();
    let st0 = spec_fresh_state();
    reveal_strlit("---");
    reveal_strlit("\n");
    reveal_strlit("---\n");
    lemma_str_tag_has_no_block_word();
    let st1 = crate::emitter::spec_write_indicator(st0, "---"@, true, false);
    assert(st1.out =~= "---"@);
    let st2 = crate::emitter::spec_write_line_break(st1);
    assert(st2.out =~= "---\n"@);
    let st3 = crate::emitter::spec_emit_node(cfg, st2, plain_scalar_node(s), false);
    assert(st3 == crate::emitter::spec_emit_scalar(cfg, st2, tag_str(), s, false));
    assert(crate::emitter::spec_process_tag(st2, tag_str()) == st2);
    assert(crate::emitter::spec_choose_style(
        spec_analyze(s),
        tag_str(),
        false,
        false,
        st2.flow_level > 0,
    ) == crate::emitter::ScalarStyle::Plain);
    assert(st3.out =~= "---\n"@ + s);
    let st4 = crate::emitter::spec_write_line_break(st3);
    assert(st4.out =~= ("---\n"@ + s) + "\n"@);
    assert(("---\n"@ + s) + "\n"@ =~= "---\n"@ + s + "\n"@);
}

/// The event stream built from the emitted text: the marker line makes the
/// document explicit, and the scalar line survives unchanged.
proof fn lemma_build_events_of_emitted(s: Seq<char>)
    requires
        plain_document_scalar(s),
    ensures
        spec_build_events("---\n"@ + s + "\n"@) == seq![
            stream_start_ev(Some("utf-8"@)),
            doc_start_ev(true),
            scalar_ev(s, None),
            doc_end_ev(),
            stream_end_ev(),
        ],
{
    let out = "---\n"@ + s + "\n"@;
    reveal_strlit("---\n");
    reveal_strlit("---");
    reveal_strlit("--- ");
    reveal_strlit("\n");
    assert(!spec_contains_char(s, '\n')) by {
        if spec_contains_char(s, '\n') {
            assert(spec_analyze(s).multiline);
        }
    }
    assert(out.len() == s.len() + 5);
    assert(out[4] == s[0]);
    assert(!spec_text_blank(out)) by {
        assert(!is_blank(s[0]));
        assert(!(out[4] == ' ' || out[4] == '\t' || out[4] == '\r' || out[4] == '\n'));
    }
    // The lines split at the two line feeds.
    assert(out[0] == '-' && out[1] == '-' && out[2] == '-' && out[3] == '\n');
    lemma_find_first_at(out, '\n', 3);
    let rest = out.subrange(4, out.len() as int);
    assert(rest =~= s + "\n"@);
    lemma_find_first_at(rest, '\n', s.len() as int);
    let rest2 = rest.subrange(s.len() as int + 1, rest.len() as int);
    assert(rest2 =~= Seq::<char>::empty());
    assert(spec_split_lines(rest) =~= seq![s]) by {
        assert(rest.subrange(0, s.len() as int) =~= s);
        assert(crate::chars::spec_strip_cr(s) == s);
        assert(spec_split_lines(rest2) =~= Seq::<Seq<char>>::empty());
    }
    assert(spec_split_lines(out) =~= seq!["---"@, s]) by {
        assert(out.subrange(0, 3) =~= "---"@);
        assert(crate::chars::spec_strip_cr("---"@) == "---"@);
        assert(out.subrange(4, out.len() as int) == rest);
    }
    let lines = spec_builder_lines(out);
    assert(spec_trim_end("---"@) == "---"@);
    assert(spec_trim_end(s) == s);
    assert(lines =~= seq!["---"@, s]) by {
        assert(spec_split_lines(out).map_values(|l: Seq<char>| spec_trim_end(l)) =~= seq![
            "---"@,
            s,
        ]);
    }
    // The marker line is the only boundary.
    assert(spec_trim_start("---"@) == "---"@);
    assert(spec_trim_end("---"@) == "---"@);
    assert(crate::parser::spec_is_boundary("---"@));
    assert(!crate::parser::spec_is_boundary(s)) by {
        assert("--- "@[0] == '-');
        assert(s[0] != '-');
        if spec_trim(s) == "---"@ {
            assert(s[0] == '-');
        }
        if spec_starts_with(spec_trim(s), "--- "@) {
            assert(s.subrange(0, 4)[0] == s[0]);
        }
    }
    assert(spec_boundaries(lines) =~= seq![0int]) by {
        let pre = lines.drop_last();
        assert(pre =~= seq!["---"@]);
        assert(pre.drop_last() =~= Seq::<Seq<char>>::empty());
        assert(spec_boundaries(Seq::<Seq<char>>::empty()) == Seq::<int>::empty());
        assert(pre.last() == "---"@);
        assert(pre.len() == 1);
        assert(spec_boundaries(pre) =~= seq![0int]);
        assert(lines.last() == s);
        assert(lines.len() == 2);
    }
    let b = spec_boundaries(lines).push(lines.len() as int);
    assert(b =~= seq![0int, 2int]);
    // Segment zero is empty; segment one holds the scalar line.
    let seg0 = spec_document_events(lines, 0, 0, false);
    assert(seg0 =~= Seq::<EventV>::empty());
    let seg1 = spec_document_events(lines, 1, 2, true);
    let doc = spec_filter_lines(lines.subrange(1, 2));
    assert(lines.subrange(1, 2) =~= seq![s]);
    assert(spec_keep_line(s));
    assert(doc =~= seq![s]) by {
        let one = lines.subrange(1, 2);
        assert(one.drop_last() =~= Seq::<Seq<char>>::empty());
        assert(spec_filter_lines(Seq::<Seq<char>>::empty()) == Seq::<Seq<char>>::empty());
        assert(one.last() == s);
    }
    assert(!spec_line_mapping(s)) by {
        assert(!spec_contains_char(s, ':'));
    }
    assert(!crate::parser::spec_has_mapping(doc)) by {
        assert forall|i: int| 0 <= i < doc.len() implies !spec_line_mapping(#[trigger] doc[i]) by {
            assert(doc[i] == s);
        }
    }
    assert(!spec_line_dash(s)) by {
        assert(spec_trim_start(s) == s);
        assert(s[0] != '-');
    }
    assert(!crate::parser::spec_has_sequence(doc)) by {
        assert forall|i: int| 0 <= i < doc.len() implies !spec_line_dash(#[trigger] doc[i]) by {
            assert(doc[i] == s);
        }
    }
    assert(spec_content(doc) =~= seq![scalar_ev(s, None)]) by {
        assert(doc[0] == s);
        assert(spec_trim(doc[0]) == s);
    }
    assert(seg1 =~= seq![doc_start_ev(true), scalar_ev(s, None), doc_end_ev()]);
    assert(spec_segments(lines, b, 2) =~= Seq::<EventV>::empty());
    assert(spec_segments(lines, b, 1) =~= seg1);
    assert(spec_segments(lines, b, 0) =~= seg1);
    assert(spec_build_events(out) =~= seq![
        stream_start_ev(Some("utf-8"@)),
        doc_start_ev(true),
        scalar_ev(s, None),
        doc_end_ev(),
        stream_end_ev(),
    ]);
}

/// Law: the scalar round trip. A plain one-line scalar document composes
/// to a string-tagged scalar node; emitting that node and composing the
/// emitted text again restores the very same node — the same tag and the
/// same text.
pub proof fn lemma_plain_scalar_round_trip(s: Seq<char>)
    requires
        plain_document_scalar(s),
    ensures
        spec_compose_document(spec_build_events(s)) == DocRes::Done(Some(plain_scalar_node(s))),
        spec_compose_document(
            spec_build_events(
                spec_emit_document(
                    spec_default_cfg(),
                    spec_fresh_state(),
                    plain_scalar_node(s),
                    false,
                ).out,
            ),
        ) == DocRes::Done(Some(plain_scalar_node(s))),
{
    lemma_build_events_of_plain_scalar(s);
    lemma_compose_scalar_stream(s, false);
    lemma_emit_plain_scalar(s);
    lemma_build_events_of_emitted(s);
    lemma_compose_scalar_stream(s, true);
}

} // verus!
