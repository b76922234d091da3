//! Style selection: the flow/block auto-detection boundary and scalar
//! quoting choices.

use yamlcore::composer::Node;
use yamlcore::emitter::{emit_to_string, emit_to_string_with_options, ScalarAnalysis};
use yamlcore::mark::Mark;

fn zero() -> Mark {
    Mark::new(0, 0, 0)
}

fn str_scalar(text: &str) -> Node {
    Node::new_scalar(
        String::from("tag:yaml.org,2002:str"),
        String::from(text),
        zero(),
        zero(),
        None,
    )
}

fn int_scalar(text: &str) -> Node {
    Node::new_scalar(
        String::from("tag:yaml.org,2002:int"),
        String::from(text),
        zero(),
        zero(),
        None,
    )
}

fn seq_of(n: usize) -> Node {
    let mut items = Vec::new();
    for i in 0..n {
        items.push(int_scalar(&format!("{}", i)));
    }
    Node::new_sequence(String::from("tag:yaml.org,2002:seq"), items, zero(), zero(), false)
}

fn map_of(n: usize) -> Node {
    let mut pairs = Vec::new();
    for i in 0..n {
        pairs.push((str_scalar(&format!("k{}", i)), int_scalar(&format!("{}", i))));
    }
    Node::new_mapping(String::from("tag:yaml.org,2002:map"), pairs, zero(), zero(), false)
}

#[test]
fn five_scalar_sequence_is_flow() {
    let out = emit_to_string(&seq_of(5)).expect("emit");
    assert!(out.contains('['), "five scalars should auto-detect as flow: {}", out);
    assert!(out.contains(']'));
}

#[test]
fn six_scalar_sequence_is_block() {
    let out = emit_to_string(&seq_of(6)).expect("emit");
    assert!(!out.contains('['), "six scalars should auto-detect as block: {}", out);
    assert!(out.contains('-'));
}

#[test]
fn three_pair_mapping_is_flow() {
    let out = emit_to_string(&map_of(3)).expect("emit");
    assert!(out.contains('{'), "three pairs should auto-detect as flow: {}", out);
    assert!(out.contains('}'));
}

#[test]
fn four_pair_mapping_is_block() {
    let out = emit_to_string(&map_of(4)).expect("emit");
    assert!(!out.contains('{'), "four pairs should auto-detect as block: {}", out);
}

#[test]
fn empty_containers_are_flow() {
    let out = emit_to_string(&seq_of(0)).expect("emit");
    assert!(out.contains("[]"));
    let out = emit_to_string(&map_of(0)).expect("emit");
    assert!(out.contains("{}"));
}

#[test]
fn explicit_flow_preference_wins() {
    let out = emit_to_string_with_options(&seq_of(6), None, None, None, Some(true)).expect("emit");
    assert!(out.contains('['), "an explicit flow preference must win: {}", out);
}

#[test]
fn plain_scalar_emits_bare() {
    let out = emit_to_string(&str_scalar("hello")).expect("emit");
    assert_eq!(out, "---\nhello\n");
}

#[test]
fn canonical_mode_quotes_keyword_strings() {
    let out = emit_to_string_with_options(&str_scalar("true"), None, None, Some(true), None)
        .expect("emit");
    assert!(out.contains("\"true\""), "canonical mode must quote: {}", out);
    let default_out = emit_to_string(&str_scalar("true")).expect("emit");
    assert_eq!(default_out, "---\ntrue\n");
}

#[test]
fn multiline_scalar_uses_literal_block() {
    let out = emit_to_string(&str_scalar("line one\nline two")).expect("emit");
    assert!(out.contains('|'), "multiline content should use a literal block: {}", out);
    assert!(out.contains("line one"));
    assert!(out.contains("line two"));
}

#[test]
fn special_content_falls_back_to_quoting() {
    // Content with a special character but no quote takes single quotes.
    let out = emit_to_string(&str_scalar("#note")).expect("emit");
    assert!(out.contains("'#note'"), "special content takes single quotes: {}", out);
    // Content holding a quote falls back to double quotes.
    let out = emit_to_string(&str_scalar("it's got 'quotes'")).expect("emit");
    assert!(out.contains("\"it's got 'quotes'\""), "quoted content is double-quoted: {}", out);
}

#[test]
fn scalar_analysis_flags() {
    let empty = ScalarAnalysis::new(&Vec::new());
    assert!(empty.empty);
    assert!(!empty.allow_flow_plain);
    assert!(empty.allow_block_plain);
    assert!(empty.allow_single_quoted);
    assert!(empty.allow_double_quoted);
    assert!(!empty.allow_block);

    let plain = ScalarAnalysis::new(&"hello".chars().collect());
    assert!(plain.allow_flow_plain);
    assert!(!plain.multiline);

    let special = ScalarAnalysis::new(&"a#b".chars().collect());
    assert!(!special.allow_flow_plain);
    assert!(special.allow_double_quoted);

    let multiline = ScalarAnalysis::new(&"a\nb".chars().collect());
    assert!(multiline.multiline);
    assert!(multiline.allow_block);

    let edge_space = ScalarAnalysis::new(&" padded ".chars().collect());
    assert!(!edge_space.allow_flow_plain);
    assert!(!edge_space.allow_single_quoted);
    assert!(!edge_space.allow_block);
}

#[test]
fn indent_option_is_clamped() {
    let out = emit_to_string_with_options(&map_of(4), Some(1), None, None, None).expect("emit");
    // An indent of 1 is clamped to 2, and keys stand single-quoted.
    assert!(out.contains("  'k0'"), "clamped indent of two spaces expected: {}", out);
}

#[test]
fn tagged_scalar_writes_shorthand_tag() {
    let out = emit_to_string(&int_scalar("42")).expect("emit");
    assert!(out.contains("!!int"), "the core tag shorthand should appear: {}", out);
}
