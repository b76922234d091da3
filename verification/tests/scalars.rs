//! Scalar conversions and classification: integer base forms, booleans,
//! escaping, the extended-schema resolver, binary and timestamp values.

use yamlcore::emitter::{escape_double, escape_single, unescape_double};
use yamlcore::resolver::{
    check_type, construct_binary, construct_merge, construct_timestamp, parse_bool, parse_int,
    resolve_implicit_tag, ParsedTimestamp,
};

#[test]
fn integer_base_forms_parse() {
    assert_eq!(parse_int("0b101"), Some(5));
    assert_eq!(parse_int("0x1F"), Some(31));
    assert_eq!(parse_int("017"), Some(15));
    assert_eq!(parse_int("42"), Some(42));
    assert_eq!(parse_int("0"), Some(0));
}

#[test]
fn leading_minus_negates_each_base() {
    assert_eq!(parse_int("-42"), Some(-42));
    assert_eq!(parse_int("-0b101"), Some(-5));
    assert_eq!(parse_int("-0x1F"), Some(-31));
    assert_eq!(parse_int("-017"), Some(-15));
    assert_eq!(parse_int("+42"), Some(42));
}

#[test]
fn underscores_are_stripped_before_parsing() {
    assert_eq!(parse_int("1_000"), Some(1000));
    assert_eq!(parse_int("0b1_01"), Some(5));
}

#[test]
fn invalid_integers_parse_to_nothing() {
    assert_eq!(parse_int(""), None);
    assert_eq!(parse_int("-"), None);
    assert_eq!(parse_int("0b"), None);
    assert_eq!(parse_int("0b2"), None);
    assert_eq!(parse_int("089"), None);
    assert_eq!(parse_int("abc"), None);
    assert_eq!(parse_int("99999999999999999999999999"), None);
}

#[test]
fn booleans_read_case_insensitively() {
    assert!(parse_bool("true"));
    assert!(parse_bool("TRUE"));
    assert!(parse_bool("Yes"));
    assert!(parse_bool("on"));
    assert!(parse_bool("1"));
    assert!(parse_bool("  true  "));
    assert!(!parse_bool("false"));
    assert!(!parse_bool("no"));
    assert!(!parse_bool("other"));
}

#[test]
fn double_quote_escaping_round_trips() {
    let original: Vec<char> = "a\"b\\c\nd\re\tf\u{1}g".chars().collect();
    let escaped = escape_double(&original);
    let text: String = escaped.iter().collect();
    assert_eq!(text, "a\\\"b\\\\c\\nd\\re\\tf\\u0001g");
    let restored = unescape_double(&escaped).expect("unescape");
    assert_eq!(restored, original);
}

#[test]
fn unescape_rejects_malformed_escapes() {
    let dangling: Vec<char> = "abc\\".chars().collect();
    assert!(unescape_double(&dangling).is_none());
    let bad_letter: Vec<char> = "\\q".chars().collect();
    assert!(unescape_double(&bad_letter).is_none());
    let short_code: Vec<char> = "\\u12".chars().collect();
    assert!(unescape_double(&short_code).is_none());
    let bad_code: Vec<char> = "\\ud800abc".chars().collect();
    assert!(unescape_double(&bad_code).is_none());
}

#[test]
fn single_quote_escaping_doubles_quotes() {
    let original: Vec<char> = "it's".chars().collect();
    let escaped: String = escape_single(&original).iter().collect();
    assert_eq!(escaped, "it''s");
}

#[test]
fn resolver_classifies_extended_schema() {
    assert_eq!(resolve_implicit_tag("null"), "tag:yaml.org,2002:null");
    assert_eq!(resolve_implicit_tag(""), "tag:yaml.org,2002:null");
    assert_eq!(resolve_implicit_tag("yes"), "tag:yaml.org,2002:bool");
    assert_eq!(resolve_implicit_tag("Off"), "tag:yaml.org,2002:bool");
    assert_eq!(resolve_implicit_tag("2001-12-14"), "tag:yaml.org,2002:timestamp");
    assert_eq!(resolve_implicit_tag("2001-12-15T02:59:43.1Z"), "tag:yaml.org,2002:timestamp");
    assert_eq!(resolve_implicit_tag("42"), "tag:yaml.org,2002:int");
    assert_eq!(resolve_implicit_tag("0x1F"), "tag:yaml.org,2002:int");
    assert_eq!(resolve_implicit_tag("3.14"), "tag:yaml.org,2002:float");
    assert_eq!(resolve_implicit_tag(".inf"), "tag:yaml.org,2002:float");
    assert_eq!(resolve_implicit_tag("<<"), "tag:yaml.org,2002:merge");
    assert_eq!(resolve_implicit_tag("plain words"), "tag:yaml.org,2002:str");
}

#[test]
fn check_type_matches_each_class() {
    assert!(check_type("~", "null"));
    assert!(check_type("On", "bool"));
    assert!(check_type("-12", "int"));
    assert!(check_type("1.5e3", "float"));
    assert!(check_type("2001-12-14", "timestamp"));
    assert!(check_type("<<", "merge"));
    assert!(!check_type("hello", "int"));
    assert!(!check_type("hello", "unknown"));
}

#[test]
fn binary_scalars_decode_base64() {
    let decoded = construct_binary("aGVsbG8=").expect("valid base64");
    assert_eq!(decoded, b"hello");
    let spaced = construct_binary("aGVs\n bG8=").expect("whitespace is stripped");
    assert_eq!(spaced, b"hello");
    assert!(construct_binary("!!!not base64!!!").is_none());
}

#[test]
fn merge_keys_are_marked() {
    assert_eq!(construct_merge("<<"), "__MERGE_KEY__:<<");
}

#[test]
fn date_only_timestamps_construct() {
    match construct_timestamp("2002-12-14") {
        ParsedTimestamp::DateOnly(d) => {
            assert_eq!(d.year, 2002);
            assert_eq!(d.month, 12);
            assert_eq!(d.day, 14);
            assert!(!d.has_time);
        },
        _ => panic!("expected a date"),
    }
}

#[test]
fn rfc3339_timestamps_construct_in_utc() {
    match construct_timestamp("2001-12-15T02:59:43.1Z") {
        ParsedTimestamp::DateTime(t) => {
            assert_eq!(t.year, 2001);
            assert_eq!(t.month, 12);
            assert_eq!(t.day, 15);
            assert_eq!(t.hour, 2);
            assert_eq!(t.minute, 59);
            assert_eq!(t.second, 43);
            assert_eq!(t.microsecond, 100000);
            assert!(t.has_time);
        },
        _ => panic!("expected a datetime"),
    }
}

#[test]
fn unparsable_timestamps_stay_text() {
    assert!(matches!(construct_timestamp("not a date"), ParsedTimestamp::Unparsed));
}
