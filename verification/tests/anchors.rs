//! Anchor and alias behavior of the composer.

use yamlcore::composer::{Composer, NodeValue};
use yamlcore::event::Event;
use yamlcore::mark::Mark;

fn zero() -> Mark {
    Mark::new(0, 0, 0)
}

fn scalar_event(value: &str, anchor: Option<&str>) -> Event {
    Event::Scalar {
        anchor: anchor.map(|a| String::from(a)),
        tag: None,
        implicit: yamlcore::event::ScalarImplicit { plain: true, quoted: false },
        value: String::from(value),
        start_mark: zero(),
        end_mark: zero(),
        style: None,
    }
}

fn mapping_start() -> Event {
    Event::MappingStart {
        anchor: None,
        tag: None,
        implicit: true,
        start_mark: zero(),
        end_mark: zero(),
        flow_style: false,
    }
}

#[test]
fn alias_resolves_to_copy_of_anchored_node() {
    let events = vec![
        Event::StreamStart { start_mark: zero(), end_mark: zero(), encoding: None },
        Event::DocumentStart {
            start_mark: zero(),
            end_mark: zero(),
            explicit: false,
            version: None,
            tags: None,
        },
        mapping_start(),
        scalar_event("a", None),
        scalar_event("1", Some("x")),
        scalar_event("b", None),
        Event::Alias { anchor: String::from("x"), start_mark: zero(), end_mark: zero() },
        Event::MappingEnd { start_mark: zero(), end_mark: zero() },
        Event::DocumentEnd { start_mark: zero(), end_mark: zero(), explicit: false },
        Event::StreamEnd { start_mark: zero(), end_mark: zero() },
    ];
    let mut composer = Composer::new();
    let node = composer.compose_document(&events).expect("compose").expect("a node");
    match &node.value {
        NodeValue::Mapping(pairs) => {
            assert_eq!(pairs.len(), 2);
            let first = &pairs[0].1;
            let second = &pairs[1].1;
            assert_eq!(first.tag, "tag:yaml.org,2002:int");
            assert_eq!(second.tag, "tag:yaml.org,2002:int");
            match (&first.value, &second.value) {
                (NodeValue::Scalar(v1), NodeValue::Scalar(v2)) => {
                    assert_eq!(v1, "1");
                    assert_eq!(v2, "1");
                },
                _ => panic!("expected scalars"),
            }
        },
        _ => panic!("expected a mapping"),
    }
}

#[test]
fn unknown_alias_fails_with_its_name() {
    let events = vec![
        mapping_start(),
        scalar_event("a", None),
        Event::Alias { anchor: String::from("undefined"), start_mark: zero(), end_mark: zero() },
        Event::MappingEnd { start_mark: zero(), end_mark: zero() },
    ];
    let mut composer = Composer::new();
    let err = composer.compose_document(&events).expect_err("must fail");
    assert!(err.message.contains("undefined"));
    assert_eq!(err.message, "Alias 'undefined' not found");
}

#[test]
fn later_anchor_definition_wins() {
    let events = vec![
        mapping_start(),
        scalar_event("a", None),
        scalar_event("1", Some("x")),
        scalar_event("b", None),
        scalar_event("2", Some("x")),
        scalar_event("c", None),
        Event::Alias { anchor: String::from("x"), start_mark: zero(), end_mark: zero() },
        Event::MappingEnd { start_mark: zero(), end_mark: zero() },
    ];
    let mut composer = Composer::new();
    let node = composer.compose_document(&events).expect("compose").expect("a node");
    match &node.value {
        NodeValue::Mapping(pairs) => {
            match &pairs[2].1.value {
                NodeValue::Scalar(v) => assert_eq!(v, "2"),
                _ => panic!("expected a scalar"),
            }
        },
        _ => panic!("expected a mapping"),
    }
}

#[test]
fn anchor_table_does_not_cross_documents() {
    // A second document whose only content is an alias defined in the first
    // composes against a fresh table and must fail.
    let doc1 = vec![
        mapping_start(),
        scalar_event("a", None),
        scalar_event("1", Some("x")),
        Event::MappingEnd { start_mark: zero(), end_mark: zero() },
    ];
    let doc2 = vec![
        Event::Alias { anchor: String::from("x"), start_mark: zero(), end_mark: zero() },
    ];
    let mut composer = Composer::new();
    assert!(composer.compose_document(&doc1).expect("first document composes").is_some());
    let err = composer.compose_document(&doc2).expect_err("second document must fail");
    assert_eq!(err.message, "Alias 'x' not found");
}
