//! Multi-document behavior: splitting text and event streams, loading all
//! documents, and joining emitted documents.

use yamlcore::composer::NodeValue;
use yamlcore::multi_document::{
    dump_all_rust, is_multi_document, load_all_rust, parse_multi_document,
    split_events_by_documents, split_yaml_documents, MultiDocumentProcessor,
};
use yamlcore::parser::build_events;

#[test]
fn two_documents_compose_independently() {
    let docs = load_all_rust("a: 1\n---\nb: 2");
    assert_eq!(docs.len(), 2);
    let first = docs[0].as_ref().expect("first document");
    let second = docs[1].as_ref().expect("second document");
    match (&first.value, &second.value) {
        (NodeValue::Mapping(p1), NodeValue::Mapping(p2)) => {
            assert_eq!(p1.len(), 1);
            assert_eq!(p2.len(), 1);
            match (&p1[0].0.value, &p2[0].0.value) {
                (NodeValue::Scalar(k1), NodeValue::Scalar(k2)) => {
                    assert_eq!(k1, "a");
                    assert_eq!(k2, "b");
                },
                _ => panic!("expected scalar keys"),
            }
        },
        _ => panic!("expected mappings"),
    }
}

#[test]
fn blank_input_loads_nothing() {
    assert_eq!(load_all_rust("  \n \n").len(), 0);
}

#[test]
fn single_document_loads_alone() {
    let docs = load_all_rust("only: doc");
    assert_eq!(docs.len(), 1);
    assert!(docs[0].is_some());
}

#[test]
fn split_events_by_documents_counts_documents() {
    let events = build_events("a: 1\n---\nb: 2\n---\nc: 3");
    let groups = split_events_by_documents(&events);
    assert_eq!(groups.len(), 3);
}

// The text splitter honors a marker only at a line start it believes in:
// after a blank line or at the head of the text.
#[test]
fn split_yaml_documents_cuts_at_markers() {
    let docs = split_yaml_documents("a: 1\n\n---\nb: 2");
    assert_eq!(docs.len(), 2);
    assert_eq!(docs[0], "a: 1");
    assert_eq!(docs[1], "b: 2");
}

#[test]
fn split_yaml_documents_keeps_inline_marker_lines() {
    let docs = split_yaml_documents("a: 1\n---\nb: 2");
    assert_eq!(docs.len(), 1);
}

#[test]
fn document_end_marker_closes_a_document() {
    let docs = split_yaml_documents("a: 1\n...\nb: 2");
    assert_eq!(docs.len(), 2);
    assert!(docs[0].contains("a: 1"));
    assert!(docs[0].contains("..."));
    assert_eq!(docs[1], "b: 2");
}

#[test]
fn text_without_markers_is_one_document() {
    let docs = split_yaml_documents("a: 1\nb: 2");
    assert_eq!(docs.len(), 1);
}

#[test]
fn is_multi_document_looks_for_markers() {
    assert!(is_multi_document("a: 1\n---\nb: 2"));
    assert!(is_multi_document("x\n..."));
    assert!(!is_multi_document("plain: mapping"));
}

#[test]
fn parse_multi_document_builds_each() {
    let groups = parse_multi_document("a: 1\n\n---\nb: 2").expect("parse");
    assert_eq!(groups.len(), 2);
    assert!(groups[0].len() >= 4);
    assert!(groups[1].len() >= 4);
}

#[test]
fn processor_splits_into_bare_groups() {
    let events = build_events("a: 1\n---\nb: 2");
    let mut processor = MultiDocumentProcessor::new();
    let groups = processor.split_events(&events).expect("split");
    // The stream-closing group is pushed at the end marker and again at the
    // close of the scan.
    assert_eq!(groups.len(), 3);
    assert_eq!(groups[1].len(), groups[2].len());
}

#[test]
fn processor_formats_separators() {
    let mut processor = MultiDocumentProcessor::new();
    assert_eq!(processor.format_document_separator(), "");
    processor.with_explicit_start(true);
    assert_eq!(processor.format_document_separator(), "---\n");
    processor.with_explicit_end(true);
    assert_eq!(processor.format_document_separator(), "---\n...\n");
}

#[test]
fn processor_combines_document_texts() {
    let processor = MultiDocumentProcessor::new();
    let joined = processor.combine_documents(&vec![
        String::from("a: 1\n"),
        String::from("b: 2\n"),
    ]);
    assert_eq!(joined, "a: 1\n---\nb: 2\n");
}

#[test]
fn dump_all_joins_with_separators() {
    let docs = load_all_rust("a: 1\n---\nb: 2");
    let nodes: Vec<_> = docs.into_iter().map(|d| d.expect("node")).collect();
    let out = dump_all_rust(&nodes);
    assert!(out.contains("---\n"), "a separator should join documents: {}", out);
    assert!(out.contains("'a':"), "keys are single-quoted in key position: {}", out);
    assert!(out.contains("'b':"), "keys are single-quoted in key position: {}", out);
}
