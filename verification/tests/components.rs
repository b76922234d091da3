//! Component-level tests: tokens, the serializer, the reader and error
//! reports.

use yamlcore::composer::Node;
use yamlcore::error::{create_yaml_error, YamlError, YamlErrorType};
use yamlcore::event::Event;
use yamlcore::mark::Mark;
use yamlcore::reader::{
    create_reader_from_string, detect_encoding, has_bom, strip_bom, AdvancedReader,
};
use yamlcore::serializer::{serialize_rust, serialize_with_options};
use yamlcore::token::{Token, TokenType};

#[test]
fn token_text_includes_payloads() {
    let t = Token {
        token_type: TokenType::Scalar,
        value: Some(String::from("x")),
        start: 0,
        end: 1,
    };
    assert_eq!(t.to_string(), "SCALAR(x)");
    let bare = Token { token_type: TokenType::Value, value: None, start: 0, end: 0 };
    assert_eq!(bare.to_string(), "VALUE");
    let anchor = Token {
        token_type: TokenType::Anchor,
        value: Some(String::from("name")),
        start: 0,
        end: 4,
    };
    assert_eq!(anchor.to_string(), "ANCHOR(name)");
}

#[test]
fn serializer_wraps_node_in_stream_and_document() {
    let zero = Mark::new(0, 0, 0);
    let node = Node::new_scalar(
        String::from("tag:yaml.org,2002:str"),
        String::from("hello"),
        zero,
        zero,
        None,
    );
    let events = serialize_rust(&node).expect("serialize");
    assert_eq!(events.len(), 5);
    assert!(matches!(events[0], Event::StreamStart { .. }));
    assert!(matches!(events[1], Event::DocumentStart { .. }));
    match &events[2] {
        Event::Scalar { value, tag, .. } => {
            assert_eq!(value, "hello");
            assert!(tag.is_none(), "the plain string tag stays implicit");
        },
        _ => panic!("expected a scalar event"),
    }
    assert!(matches!(events[3], Event::DocumentEnd { .. }));
    assert!(matches!(events[4], Event::StreamEnd { .. }));
}

#[test]
fn serializer_canonical_mode_writes_tags() {
    let zero = Mark::new(0, 0, 0);
    let node = Node::new_scalar(
        String::from("tag:yaml.org,2002:str"),
        String::from("hello"),
        zero,
        zero,
        None,
    );
    let events = serialize_with_options(&node, Some(true), None, None, None).expect("serialize");
    match &events[2] {
        Event::Scalar { tag, .. } => {
            assert_eq!(tag.as_deref(), Some("tag:yaml.org,2002:str"));
        },
        _ => panic!("expected a scalar event"),
    }
}

#[test]
fn serializer_round_trips_through_composer() {
    let events = yamlcore::parser::build_events("a: 1\nb: two");
    let node = yamlcore::composer::compose_rust(&events).expect("compose");
    let again = serialize_rust(&node).expect("serialize");
    let node2 = yamlcore::composer::compose_rust(&again).expect("recompose");
    assert_eq!(node2.tag, node.tag);
    match (&node.value, &node2.value) {
        (
            yamlcore::composer::NodeValue::Mapping(p1),
            yamlcore::composer::NodeValue::Mapping(p2),
        ) => {
            assert_eq!(p1.len(), p2.len());
        },
        _ => panic!("expected mappings"),
    }
}

#[test]
fn reader_walks_characters_and_lines() {
    let mut reader = create_reader_from_string("ab\ncd");
    assert_eq!(reader.read_all(), "ab\ncd");
    assert_eq!(reader.peek(2), "ab");
    assert_eq!(reader.read_char(), Some('a'));
    assert_eq!(reader.read_char(), Some('b'));
    assert_eq!(reader.read_line(), Some(String::from("\n")));
    assert_eq!(reader.read_line(), Some(String::from("cd")));
    assert_eq!(reader.read_line(), None);
    assert_eq!(reader.read_char(), None);
}

#[test]
fn reader_decodes_utf8_bytes() {
    let mut reader = AdvancedReader::new();
    let bytes: Vec<u8> = Vec::from("key: value".as_bytes());
    reader.load_from_bytes(&bytes).expect("decode");
    assert_eq!(reader.read_all(), "key: value");
}

#[test]
fn bom_detection_and_stripping() {
    let with_bom: Vec<u8> = vec![0xef, 0xbb, 0xbf, b'h', b'i'];
    assert!(has_bom(&with_bom));
    assert_eq!(strip_bom(&with_bom), vec![b'h', b'i']);
    let plain: Vec<u8> = vec![b'h', b'i'];
    assert!(!has_bom(&plain));
    assert_eq!(strip_bom(&plain), plain);
    assert_eq!(detect_encoding(&with_bom), "utf-8");
    let utf16: Vec<u8> = vec![0xfe, 0xff, 0x00, 0x41];
    assert_eq!(detect_encoding(&utf16), "utf-16be");
}

#[test]
fn reader_strips_bom_when_decoding() {
    let mut reader = AdvancedReader::new();
    let bytes: Vec<u8> = vec![0xef, 0xbb, 0xbf, b'h', b'i'];
    reader.load_from_bytes(&bytes).expect("decode");
    assert_eq!(reader.read_all(), "hi");
}

#[test]
fn reader_decodes_utf16_bytes() {
    let mut reader = AdvancedReader::new();
    let bytes: Vec<u8> = vec![0xfe, 0xff, 0x00, b'h', 0x00, b'i'];
    reader.load_from_bytes(&bytes).expect("decode");
    assert_eq!(reader.read_all(), "hi");
}

#[test]
fn error_report_carries_position() {
    let err = create_yaml_error(
        String::from("composer"),
        String::from("boom"),
        Some(1),
        Some(2),
    );
    assert_eq!(err.error_type, YamlErrorType::ComposerError);
    assert_eq!(err.format_message(), "ComposerError: boom\n  at line 2, column 3");
}

#[test]
fn error_report_lists_path_value_context_and_note() {
    let err = YamlError::new(YamlErrorType::UnknownAliasError, String::from("bad"))
        .with_yaml_path(vec![String::from("root"), String::from("items")])
        .with_problem_value(String::from("x"))
        .with_context(String::from("ctx"))
        .with_note(String::from("hint"));
    let text = err.format_message();
    assert_eq!(
        text,
        "UnknownAliasError: bad\n  in root -> items\n  problem value: \"x\"\n  context: ctx\n  note: hint",
    );
}

#[test]
fn error_kinds_pick_exception_families() {
    assert_eq!(YamlErrorType::ScannerError.to_python_exception_name(), "ValueError");
    assert_eq!(YamlErrorType::InvalidTagError.to_python_exception_name(), "TypeError");
    assert_eq!(YamlErrorType::EncodingError.to_python_exception_name(), "IOError");
    assert_eq!(YamlErrorType::InternalError.to_python_exception_name(), "RuntimeError");
}

#[test]
fn specific_error_builders_set_kinds() {
    let zero = Mark::new(3, 4, 0);
    let e = yamlcore::error::unknown_alias_error(String::from("ref"), zero);
    assert_eq!(e.error_type, YamlErrorType::UnknownAliasError);
    assert_eq!(e.message, "Unknown alias: 'ref'");
    let d = yamlcore::error::duplicate_anchor_error(String::from("a"), zero, Mark::new(1, 1, 0));
    assert_eq!(d.error_type, YamlErrorType::DuplicateAnchorError);
    assert!(d.context.as_deref().unwrap().contains("line 2"));
}
