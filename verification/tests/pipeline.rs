//! End-to-end pipeline tests: text to tokens, events, nodes, and back.

use yamlcore::composer::{compose_rust, Composer, Node, NodeValue};
use yamlcore::event::Event;
use yamlcore::mark::Mark;
use yamlcore::emitter::emit_to_string;
use yamlcore::parser::build_events;
use yamlcore::scanner::{scan, scan_rust};
use yamlcore::token::TokenType;

fn compose_text(text: &str) -> Option<Node> {
    let events = build_events(text);
    compose_rust(&events)
}

fn scalar_text(node: &Node) -> &str {
    match &node.value {
        NodeValue::Scalar(s) => s.as_str(),
        _ => panic!("expected a scalar node"),
    }
}

#[test]
fn scan_produces_stream_markers() {
    let tokens = scan("key: value");
    assert!(tokens.len() >= 4);
    assert!(matches!(tokens[0].token_type, TokenType::StreamStart));
    assert!(matches!(tokens[tokens.len() - 1].token_type, TokenType::StreamEnd));
}

#[test]
fn scan_rust_renders_token_names() {
    let names = scan_rust("key: value");
    assert_eq!(names[0], "STREAM_START");
    assert_eq!(names[1], "SCALAR(key)");
    assert_eq!(names[2], "VALUE");
    assert_eq!(names[3], "SCALAR(value)");
    assert_eq!(names[names.len() - 1], "STREAM_END");
}

#[test]
fn scan_handles_flow_and_references() {
    let names = scan_rust("[a, b] {c: 1} &anc *anc !tag # note");
    assert!(names.contains(&String::from("FLOW_SEQUENCE_START")));
    assert!(names.contains(&String::from("FLOW_SEQUENCE_END")));
    assert!(names.contains(&String::from("FLOW_MAPPING_START")));
    assert!(names.contains(&String::from("FLOW_MAPPING_END")));
    assert!(names.contains(&String::from("FLOW_ENTRY")));
    assert!(names.contains(&String::from("ANCHOR(anc)")));
    assert!(names.contains(&String::from("ALIAS(anc)")));
    assert!(names.contains(&String::from("TAG(tag)")));
    assert!(!names.iter().any(|n| n.contains("note")));
}

#[test]
fn empty_input_yields_minimal_events() {
    let events = build_events("   \n  ");
    assert_eq!(events.len(), 4);
}

#[test]
fn mapping_document_composes() {
    let node = compose_text("a: 1\nb: hello").expect("a mapping should compose");
    assert_eq!(node.tag, "tag:yaml.org,2002:map");
    match &node.value {
        NodeValue::Mapping(pairs) => {
            assert_eq!(pairs.len(), 2);
            assert_eq!(scalar_text(&pairs[0].0), "a");
            assert_eq!(scalar_text(&pairs[0].1), "1");
            assert_eq!(pairs[0].1.tag, "tag:yaml.org,2002:int");
            assert_eq!(scalar_text(&pairs[1].1), "hello");
            assert_eq!(pairs[1].1.tag, "tag:yaml.org,2002:str");
        },
        _ => panic!("expected a mapping"),
    }
}

#[test]
fn sequence_document_composes() {
    let node = compose_text("- one\n- two").expect("a sequence should compose");
    assert_eq!(node.tag, "tag:yaml.org,2002:seq");
    match &node.value {
        NodeValue::Sequence(items) => {
            assert_eq!(items.len(), 2);
            assert_eq!(scalar_text(&items[0]), "one");
            assert_eq!(scalar_text(&items[1]), "two");
        },
        _ => panic!("expected a sequence"),
    }
}

#[test]
fn nested_mapping_composes() {
    let node = compose_text("outer:\n  inner: 5").expect("nesting should compose");
    match &node.value {
        NodeValue::Mapping(pairs) => {
            assert_eq!(pairs.len(), 1);
            match &pairs[0].1.value {
                NodeValue::Mapping(inner) => {
                    assert_eq!(inner.len(), 1);
                    assert_eq!(scalar_text(&inner[0].0), "inner");
                    assert_eq!(inner[0].1.tag, "tag:yaml.org,2002:int");
                },
                _ => panic!("expected a nested mapping"),
            }
        },
        _ => panic!("expected a mapping"),
    }
}

#[test]
fn plain_string_round_trip() {
    let node = compose_text("hello").expect("a scalar should compose");
    assert_eq!(node.tag, "tag:yaml.org,2002:str");
    let out = emit_to_string(&node).expect("emission cannot fail");
    assert_eq!(out, "---\nhello\n");
    let again = compose_text(&out).expect("the emitted text should compose");
    assert_eq!(again.tag, node.tag);
    assert_eq!(scalar_text(&again), "hello");
}

// A mapping of four pairs emits in block style, where every scalar value
// survives the round trip with its tag; smaller mappings emit in flow
// style, which the line-oriented builder does not read back.
#[test]
fn core_scalar_values_round_trip_through_block_mapping() {
    let text = "a: 42\nb: true\nc: ~\nd: 3.14";
    let node = compose_text(text).expect("compose");
    let out = emit_to_string(&node).expect("emit");
    let again = compose_text(&out).expect("recompose");
    let expected_tags = [
        "tag:yaml.org,2002:int",
        "tag:yaml.org,2002:bool",
        "tag:yaml.org,2002:null",
        "tag:yaml.org,2002:float",
    ];
    let expected_values = ["42", "true", "~", "3.14"];
    match (&node.value, &again.value) {
        (NodeValue::Mapping(p1), NodeValue::Mapping(p2)) => {
            assert_eq!(p1.len(), 4);
            assert_eq!(p2.len(), 4);
            for i in 0..4 {
                assert_eq!(p1[i].1.tag, expected_tags[i]);
                assert_eq!(p2[i].1.tag, expected_tags[i]);
                assert_eq!(scalar_text(&p2[i].1), expected_values[i]);
            }
        },
        _ => panic!("expected mappings"),
    }
}

#[test]
fn negative_integer_round_trip_through_block_mapping() {
    let text = "a: -42\nb: 0\nc: 1\nd: 2";
    let node = compose_text(text).expect("compose");
    let out = emit_to_string(&node).expect("emit");
    let again = compose_text(&out).expect("recompose");
    match (&node.value, &again.value) {
        (NodeValue::Mapping(p1), NodeValue::Mapping(p2)) => {
            assert_eq!(p1[0].1.tag, "tag:yaml.org,2002:int");
            assert_eq!(p2[0].1.tag, "tag:yaml.org,2002:int");
            assert_eq!(scalar_text(&p2[0].1), "-42");
        },
        _ => panic!("expected mappings"),
    }
}

#[test]
fn special_float_words_keep_their_text() {
    let text = "a: .inf\nb: -.inf\nc: .nan\nd: pad";
    let node = compose_text(text).expect("compose");
    let out = emit_to_string(&node).expect("emit");
    let again = compose_text(&out).expect("recompose");
    match (&node.value, &again.value) {
        (NodeValue::Mapping(p1), NodeValue::Mapping(p2)) => {
            for i in 0..3 {
                assert_eq!(p1[i].1.tag, p2[i].1.tag);
                assert_eq!(scalar_text(&p1[i].1), scalar_text(&p2[i].1));
            }
            assert_eq!(scalar_text(&p2[0].1), ".inf");
            assert_eq!(scalar_text(&p2[1].1), "-.inf");
            assert_eq!(scalar_text(&p2[2].1), ".nan");
        },
        _ => panic!("expected mappings"),
    }
}

#[test]
fn explicit_tag_overrides_inference() {
    let node = compose_text("a: !!str 42").expect("compose");
    match &node.value {
        NodeValue::Mapping(pairs) => {
            assert_eq!(pairs[0].1.tag, "tag:yaml.org,2002:str");
            assert_eq!(scalar_text(&pairs[0].1), "42");
        },
        _ => panic!("expected a mapping"),
    }
}

#[test]
fn composer_rejects_unterminated_sequence() {
    let zero = Mark::new(0, 0, 0);
    let events = vec![
        Event::StreamStart { start_mark: zero, end_mark: zero, encoding: None },
        Event::DocumentStart {
            start_mark: zero,
            end_mark: zero,
            explicit: false,
            version: None,
            tags: None,
        },
        Event::SequenceStart {
            anchor: None,
            tag: None,
            implicit: true,
            start_mark: zero,
            end_mark: zero,
            flow_style: false,
        },
        Event::StreamEnd { start_mark: zero, end_mark: zero },
    ];
    let mut composer = Composer::new();
    let err = composer.compose_document(&events).expect_err("must fail");
    assert_eq!(err.message, "Expected SequenceEnd event");
}

#[test]
fn composer_rejects_unterminated_mapping() {
    let zero = Mark::new(0, 0, 0);
    let events = vec![
        Event::MappingStart {
            anchor: None,
            tag: None,
            implicit: true,
            start_mark: zero,
            end_mark: zero,
            flow_style: false,
        },
    ];
    let mut composer = Composer::new();
    let err = composer.compose_document(&events).expect_err("must fail");
    assert_eq!(err.message, "Expected MappingEnd event");
}
