//! The advanced tag resolver: pattern-based implicit typing over the
//! extended schema (timestamps, binary, merge keys), and the scalar
//! conversions behind those tags. The pattern checks call into the regex
//! crate; each trusted wrapper states the exact language of its pattern.

use vstd::prelude::*;
use base64::Engine;
use chrono::{Datelike, Timelike};
use crate::chars::{spec_contains_seq, spec_starts_with, spec_trim, str_to_chars, trim_chars};
use crate::tags::{
    tag_bool, tag_bool_string, tag_float, tag_float_string, tag_int, tag_int_string, tag_merge,
    tag_merge_string, tag_null, tag_null_string, tag_str, tag_str_string, tag_timestamp,
    tag_timestamp_string,
};

verus! {

/// A resolution failure; kept for callers that match on it.
#[derive(Debug)]
pub struct ResolverError {
    pub message: String,
}

pub open spec fn is_digit_c(c: char) -> bool {
    '0' <= c && c <= '9'
}

pub open spec fn all_digits_c(s: Seq<char>) -> bool {
    forall|i: int| 0 <= i < s.len() ==> is_digit_c(#[trigger] s[i])
}

/// `s` with one leading `+` or `-` removed.
pub open spec fn strip_sign(s: Seq<char>) -> Seq<char> {
    if s.len() > 0 && (s[0] == '+' || s[0] == '-') {
        s.subrange(1, s.len() as int)
    } else {
        s
    }
}

/// The language of the decimal integer pattern: an optional sign and one or
/// more digits.
pub open spec fn spec_re_decimal_int(s: Seq<char>) -> bool {
    let b = strip_sign(s);
    b.len() > 0 && all_digits_c(b)
}

/// The language of the binary integer pattern: `0b` and one or more binary
/// digits or underscores.
pub open spec fn spec_re_binary_int(s: Seq<char>) -> bool {
    s.len() > 2 && s[0] == '0' && s[1] == 'b' && (forall|i: int|
        2 <= i < s.len() ==> (#[trigger] s[i] == '0' || s[i] == '1' || s[i] == '_'))
}

/// The language of the octal integer pattern: `0` and one or more octal
/// digits or underscores.
pub open spec fn spec_re_octal_int(s: Seq<char>) -> bool {
    s.len() > 1 && s[0] == '0' && (forall|i: int|
        1 <= i < s.len() ==> (('0' <= #[trigger] s[i] && s[i] <= '7') || s[i] == '_'))
}

pub open spec fn is_hex_c(c: char) -> bool {
    is_digit_c(c) || ('a' <= c && c <= 'f') || ('A' <= c && c <= 'F')
}

/// The language of the hexadecimal integer pattern: `0x` and one or more
/// hex digits or underscores.
pub open spec fn spec_re_hex_int(s: Seq<char>) -> bool {
    s.len() > 2 && s[0] == '0' && s[1] == 'x' && (forall|i: int|
        2 <= i < s.len() ==> (is_hex_c(#[trigger] s[i]) || s[i] == '_'))
}

/// The language of the underscored decimal pattern: an optional sign, a
/// leading nonzero digit, then digits or underscores.
pub open spec fn spec_re_underscore_int(s: Seq<char>) -> bool {
    let b = strip_sign(s);
    b.len() > 0 && '1' <= b[0] && b[0] <= '9' && (forall|i: int|
        1 <= i < b.len() ==> (is_digit_c(#[trigger] b[i]) || b[i] == '_'))
}

/// Whether the resolver classifies `s` as an integer: any of its integer
/// patterns matches.
pub open spec fn spec_resolver_int(s: Seq<char>) -> bool {
    spec_re_decimal_int(s) || spec_re_binary_int(s) || spec_re_octal_int(s) || spec_re_hex_int(s)
        || spec_re_underscore_int(s)
}

/// Relies on `regex::Regex::is_match` with the anchored pattern
/// `[-+]?[0-9]+`: it accepts exactly an optional sign followed by digits.
#[verifier::external_body]
fn re_decimal_int(s: &str) -> (r: bool)
    ensures
        r == spec_re_decimal_int(s@),
{
    regex::Regex::new(r"^[-+]?[0-9]+$").unwrap().is_match(s)
}

/// Relies on `regex::Regex::is_match` with the anchored pattern
/// `0b[01_]+`.
#[verifier::external_body]
fn re_binary_int(s: &str) -> (r: bool)
    ensures
        r == spec_re_binary_int(s@),
{
    regex::Regex::new(r"^0b[01_]+$").unwrap().is_match(s)
}

/// Relies on `regex::Regex::is_match` with the anchored pattern
/// `0[0-7_]+`.
#[verifier::external_body]
fn re_octal_int(s: &str) -> (r: bool)
    ensures
        r == spec_re_octal_int(s@),
{
    regex::Regex::new(r"^0[0-7_]+$").unwrap().is_match(s)
}

/// Relies on `regex::Regex::is_match` with the anchored pattern
/// `0x[0-9a-fA-F_]+`.
#[verifier::external_body]
fn re_hex_int(s: &str) -> (r: bool)
    ensures
        r == spec_re_hex_int(s@),
{
    regex::Regex::new(r"^0x[0-9a-fA-F_]+$").unwrap().is_match(s)
}

/// Relies on `regex::Regex::is_match` with the anchored pattern
/// `[-+]?[1-9][0-9_]*`.
#[verifier::external_body]
fn re_underscore_int(s: &str) -> (r: bool)
    ensures
        r == spec_re_underscore_int(s@),
{
    regex::Regex::new(r"^[-+]?[1-9][0-9_]*$").unwrap().is_match(s)
}

/// A mantissa of the first float pattern: `.digits` or `digits.digits?`.
pub open spec fn spec_float_mantissa_plain(s: Seq<char>) -> bool {
    (s.len() >= 2 && s[0] == '.' && all_digits_c(s.subrange(1, s.len() as int))) || (exists|d: int|
        0 < d < s.len() && #[trigger] s[d] == '.' && all_digits_c(s.subrange(0, d))
            && all_digits_c(s.subrange(d + 1, s.len() as int)))
}

/// An exponent part: `e` or `E`, an optional sign, then digits.
pub open spec fn spec_float_exp(s: Seq<char>) -> bool {
    s.len() >= 2 && (s[0] == 'e' || s[0] == 'E') && ({
        let b = strip_sign(s.subrange(1, s.len() as int));
        b.len() > 0 && all_digits_c(b)
    })
}

/// Split of a float literal at its exponent: either no `e`/`E` occurs and
/// the whole text is the mantissa, or the text splits at one into mantissa
/// and well-formed exponent.
pub open spec fn spec_float_with_exp(s: Seq<char>, mantissa: spec_fn(Seq<char>) -> bool) -> bool {
    exists|e: int|
        0 <= e <= s.len() && (#[trigger] mantissa(s.subrange(0, e))) && (e == s.len()
            || spec_float_exp(s.subrange(e, s.len() as int)))
}

/// The language of the first float pattern:
/// `[-+]?(\.[0-9]+|[0-9]+\.[0-9]*)([eE][-+]?[0-9]+)?`.
pub open spec fn spec_re_float_plain(s: Seq<char>) -> bool {
    spec_float_with_exp(strip_sign(s), |m: Seq<char>| spec_float_mantissa_plain(m))
}

/// A mantissa of the second float pattern: a digit, digits or underscores,
/// a point, then digits or underscores.
pub open spec fn spec_float_mantissa_underscore(s: Seq<char>) -> bool {
    exists|d: int|
        0 < d < s.len() && #[trigger] s[d] == '.' && is_digit_c(s[0]) && (forall|i: int|
            0 < i < d ==> (is_digit_c(#[trigger] s[i]) || s[i] == '_')) && (forall|i: int|
            d < i < s.len() ==> (is_digit_c(#[trigger] s[i]) || s[i] == '_'))
}

/// The language of the second float pattern:
/// `[-+]?[0-9][0-9_]*\.[0-9_]*([eE][-+]?[0-9]+)?`.
pub open spec fn spec_re_float_underscore(s: Seq<char>) -> bool {
    spec_float_with_exp(strip_sign(s), |m: Seq<char>| spec_float_mantissa_underscore(m))
        || (strip_sign(s).len() >= 2 && is_digit_c(strip_sign(s)[0]) && strip_sign(s).last() == '.'
        && (forall|i: int|
        0 < i < strip_sign(s).len() - 1 ==> (is_digit_c(#[trigger] strip_sign(s)[i])
            || strip_sign(s)[i] == '_')))
}

/// The language of the infinity pattern: `[-+]?\.(inf|Inf|INF)`.
pub open spec fn spec_re_float_inf(s: Seq<char>) -> bool {
    let b = strip_sign(s);
    b == ".inf"@ || b == ".Inf"@ || b == ".INF"@
}

/// The language of the not-a-number pattern `^\.nan|\.NaN|\.NAN$`: the
/// anchors bind only the outer alternatives, so the middle form may occur
/// anywhere.
pub open spec fn spec_re_float_nan(s: Seq<char>) -> bool {
    spec_starts_with(s, ".nan"@) || spec_contains_seq(s, ".NaN"@) || (s.len() >= 4 && s.subrange(
        s.len() - 4,
        s.len() as int,
    ) == ".NAN"@)
}

/// Whether the resolver classifies `s` as a float.
pub open spec fn spec_resolver_float(s: Seq<char>) -> bool {
    spec_re_float_plain(s) || spec_re_float_underscore(s) || spec_re_float_inf(s)
        || spec_re_float_nan(s)
}

/// Relies on `regex::Regex::is_match` with the anchored pattern
/// `[-+]?(\.[0-9]+|[0-9]+\.[0-9]*)([eE][-+]?[0-9]+)?`.
#[verifier::external_body]
fn re_float_plain(s: &str) -> (r: bool)
    ensures
        r == spec_re_float_plain(s@),
{
    regex::Regex::new(r"^[-+]?(\.[0-9]+|[0-9]+\.[0-9]*)([eE][-+]?[0-9]+)?$").unwrap().is_match(s)
}

/// Relies on `regex::Regex::is_match` with the anchored pattern
/// `[-+]?[0-9][0-9_]*\.[0-9_]*([eE][-+]?[0-9]+)?`.
#[verifier::external_body]
fn re_float_underscore(s: &str) -> (r: bool)
    ensures
        r == spec_re_float_underscore(s@),
{
    regex::Regex::new(r"^[-+]?[0-9][0-9_]*\.[0-9_]*([eE][-+]?[0-9]+)?$").unwrap().is_match(s)
}

/// Relies on `regex::Regex::is_match` with the anchored pattern
/// `[-+]?\.(inf|Inf|INF)`.
#[verifier::external_body]
fn re_float_inf(s: &str) -> (r: bool)
    ensures
        r == spec_re_float_inf(s@),
{
    regex::Regex::new(r"^[-+]?\.(inf|Inf|INF)$").unwrap().is_match(s)
}

/// Relies on `regex::Regex::is_match` with the pattern
/// `^\.nan|\.NaN|\.NAN$`, whose anchors bind only the outer alternatives.
#[verifier::external_body]
fn re_float_nan(s: &str) -> (r: bool)
    ensures
        r == spec_re_float_nan(s@),
{
    regex::Regex::new(r"^\.nan|\.NaN|\.NAN$").unwrap().is_match(s)
}

/// The language of the true-word pattern:
/// `(true|True|TRUE|yes|Yes|YES|on|On|ON)`.
pub open spec fn spec_re_bool_true(s: Seq<char>) -> bool {
    s == "true"@ || s == "True"@ || s == "TRUE"@ || s == "yes"@ || s == "Yes"@ || s == "YES"@ || s
        == "on"@ || s == "On"@ || s == "ON"@
}

/// The language of the false-word pattern:
/// `(false|False|FALSE|no|No|NO|off|Off|OFF)`.
pub open spec fn spec_re_bool_false(s: Seq<char>) -> bool {
    s == "false"@ || s == "False"@ || s == "FALSE"@ || s == "no"@ || s == "No"@ || s == "NO"@ || s
        == "off"@ || s == "Off"@ || s == "OFF"@
}

/// Whether `s` is one of the boolean words of the extended schema.
pub open spec fn spec_resolver_bool(s: Seq<char>) -> bool {
    spec_re_bool_true(s) || spec_re_bool_false(s)
}

/// Relies on `regex::Regex::is_match` with the anchored true-word pattern.
#[verifier::external_body]
fn re_bool_true(s: &str) -> (r: bool)
    ensures
        r == spec_re_bool_true(s@),
{
    regex::Regex::new(r"^(true|True|TRUE|yes|Yes|YES|on|On|ON)$").unwrap().is_match(s)
}

/// Relies on `regex::Regex::is_match` with the anchored false-word pattern.
#[verifier::external_body]
fn re_bool_false(s: &str) -> (r: bool)
    ensures
        r == spec_re_bool_false(s@),
{
    regex::Regex::new(r"^(false|False|FALSE|no|No|NO|off|Off|OFF)$").unwrap().is_match(s)
}

fn re_bool(s: &str) -> (r: bool)
    ensures
        r == spec_resolver_bool(s@),
{
    re_bool_true(s) || re_bool_false(s)
}

/// Whether `s` is one of the null words, or empty.
pub open spec fn spec_resolver_null(s: Seq<char>) -> bool {
    s == "null"@ || s == "Null"@ || s == "NULL"@ || s == "~"@ || s == Seq::<char>::empty()
}

/// Relies on `regex::Regex::is_match` with the anchored pattern
/// `(null|Null|NULL|~|)`, which also accepts the empty string.
#[verifier::external_body]
fn re_null(s: &str) -> (r: bool)
    ensures
        r == spec_resolver_null(s@),
{
    regex::Regex::new(r"^(null|Null|NULL|~|)$").unwrap().is_match(s)
}

/// Whether `s` is the merge key `<<`.
pub open spec fn spec_resolver_merge(s: Seq<char>) -> bool {
    s == "<<"@
}

/// Relies on `regex::Regex::is_match` with the anchored pattern `<<`.
#[verifier::external_body]
fn re_merge(s: &str) -> (r: bool)
    ensures
        r == spec_resolver_merge(s@),
{
    regex::Regex::new(r"^<<$").unwrap().is_match(s)
}

/// What the first timestamp pattern (full ISO 8601 with optional time and
/// zone) accepts; the language is left as the pattern's own.
pub uninterp spec fn matches_iso_timestamp(s: Seq<char>) -> bool;

/// Relies on `regex::Regex::is_match` with the ISO 8601 timestamp pattern;
/// the accepted language is named `matches_iso_timestamp`.
#[verifier::external_body]
fn re_timestamp_iso(s: &str) -> (r: bool)
    ensures
        r == matches_iso_timestamp(s@),
{
    regex::Regex::new(
        r"^[0-9]{4}-[0-9]{1,2}-[0-9]{1,2}[Tt]([0-9]{1,2}:[0-9]{2}:[0-9]{2}(\.[0-9]*)?)?([Zz]|[+-][0-9]{1,2}:[0-9]{2})?$",
    ).unwrap().is_match(s)
}

/// The language of the date-only timestamp pattern
/// `[0-9]{4}-[0-9]{1,2}-[0-9]{1,2}`.
pub open spec fn spec_re_date_only(s: Seq<char>) -> bool {
    exists|a: int, b: int|
        4 < a < b && b < s.len() && #[trigger] s[a] == '-' && #[trigger] s[b] == '-' && a == 4 && (
        b == a + 2 || b == a + 3) && (s.len() - b == 2 || s.len() - b == 3) && all_digits_c(
            s.subrange(0, 4),
        ) && all_digits_c(s.subrange(a + 1, b)) && all_digits_c(s.subrange(b + 1, s.len() as int))
}

/// Relies on `regex::Regex::is_match` with the anchored pattern
/// `[0-9]{4}-[0-9]{1,2}-[0-9]{1,2}`.
#[verifier::external_body]
fn re_date_only(s: &str) -> (r: bool)
    ensures
        r == spec_re_date_only(s@),
{
    regex::Regex::new(r"^[0-9]{4}-[0-9]{1,2}-[0-9]{1,2}$").unwrap().is_match(s)
}

/// What the canonical timestamp pattern (date, space, time, optional
/// fraction and hour offset) accepts; the language is left as the
/// pattern's own.
pub uninterp spec fn matches_canonical_timestamp(s: Seq<char>) -> bool;

/// Relies on `regex::Regex::is_match` with the canonical timestamp
/// pattern; the accepted language is named `matches_canonical_timestamp`.
#[verifier::external_body]
fn re_timestamp_canonical(s: &str) -> (r: bool)
    ensures
        r == matches_canonical_timestamp(s@),
{
    regex::Regex::new(
        r"^[0-9]{4}-[0-9]{1,2}-[0-9]{1,2} [0-9]{1,2}:[0-9]{2}:[0-9]{2}(\.[0-9]*)? ?([+-][0-9]{1,2})?$",
    ).unwrap().is_match(s)
}

/// Whether the resolver classifies `s` as a timestamp: any of its three
/// timestamp patterns matches.
pub open spec fn spec_resolver_timestamp(s: Seq<char>) -> bool {
    matches_iso_timestamp(s) || spec_re_date_only(s) || matches_canonical_timestamp(s)
}

/// The tag the resolver infers for an untagged scalar, over the trimmed
/// text: null words first, then booleans, timestamps, integers, floats and
/// the merge key, with the string tag as the fallback.
pub open spec fn spec_resolve_implicit(s: Seq<char>) -> Seq<char> {
    let t = spec_trim(s);
    if spec_resolver_null(t) {
        tag_null()
    } else if spec_resolver_bool(t) {
        tag_bool()
    } else if spec_resolver_timestamp(t) {
        tag_timestamp()
    } else if spec_resolver_int(t) {
        tag_int()
    } else if spec_resolver_float(t) {
        tag_float()
    } else if spec_resolver_merge(t) {
        tag_merge()
    } else {
        tag_str()
    }
}

/// Resolve the implicit tag of a scalar, as `spec_resolve_implicit`
/// describes.
pub fn resolve_implicit_tag(value: &str) -> (r: String)
    ensures
        r@ == spec_resolve_implicit(value@),
{
    let chars = str_to_chars(value);
    let t = trim_chars(&chars);
    let ts = crate::chars::chars_to_string(&t);
    if re_null(ts.as_str()) {
        tag_null_string()
    } else if re_bool(ts.as_str()) {
        tag_bool_string()
    } else if re_timestamp_iso(ts.as_str()) || re_date_only(ts.as_str()) || re_timestamp_canonical(
        ts.as_str(),
    ) {
        tag_timestamp_string()
    } else if re_decimal_int(ts.as_str()) || re_binary_int(ts.as_str()) || re_octal_int(
        ts.as_str(),
    ) || re_hex_int(ts.as_str()) || re_underscore_int(ts.as_str()) {
        tag_int_string()
    } else if re_float_plain(ts.as_str()) || re_float_underscore(ts.as_str()) || re_float_inf(
        ts.as_str(),
    ) || re_float_nan(ts.as_str()) {
        tag_float_string()
    } else if re_merge(ts.as_str()) {
        tag_merge_string()
    } else {
        tag_str_string()
    }
}

/// The tag resolved for a value: implicit resolution when asked, else the
/// plain string tag.
pub open spec fn spec_resolve(s: Seq<char>, implicit: bool) -> Seq<char> {
    if implicit {
        spec_resolve_implicit(s)
    } else {
        tag_str()
    }
}

/// The advanced resolver; it holds no state the contracts speak of, and
/// one instance serves any number of calls.
pub struct AdvancedResolver {}

impl AdvancedResolver {
    pub fn new() -> (r: AdvancedResolver) {
        AdvancedResolver {  }
    }

    /// Resolve a value's tag, as `spec_resolve` describes.
    pub fn resolve(&mut self, value: &str, implicit: bool) -> (r: String)
        ensures
            r@ == spec_resolve(value@, implicit),
    {
        if implicit {
            resolve_implicit_tag(value)
        } else {
            tag_str_string()
        }
    }
}

/// Whether a value belongs to a named extended-schema class.
pub fn check_type(value: &str, kind_name: &str) -> (r: bool)
    ensures
        kind_name@ == "null"@ ==> r == spec_resolver_null(value@),
        kind_name@ == "bool"@ ==> r == spec_resolver_bool(value@),
        kind_name@ == "int"@ ==> r == spec_resolver_int(value@),
        kind_name@ == "float"@ ==> r == spec_resolver_float(value@),
        kind_name@ == "timestamp"@ ==> r == spec_resolver_timestamp(value@),
        kind_name@ == "merge"@ ==> r == spec_resolver_merge(value@),
        (kind_name@ != "null"@ && kind_name@ != "bool"@ && kind_name@ != "int"@ && kind_name@
            != "float"@ && kind_name@ != "timestamp"@ && kind_name@ != "merge"@) ==> r == false,
{
    proof {
        broadcast use vstd::string::group_string_axioms;

        reveal_strlit("null");
        reveal_strlit("bool");
        reveal_strlit("int");
        reveal_strlit("float");
        reveal_strlit("timestamp");
        reveal_strlit("merge");
        assert("null"@[0] == 'n');
        assert("bool"@[0] == 'b');
        assert("int"@[0] == 'i');
        assert("float"@[0] == 'f');
        assert("timestamp"@[0] == 't');
        assert("merge"@[0] == 'm');
        assert("null"@ != "bool"@);
        assert("null"@ != "int"@);
        assert("null"@ != "float"@);
        assert("null"@ != "timestamp"@);
        assert("null"@ != "merge"@);
        assert("bool"@ != "int"@);
        assert("bool"@ != "float"@);
        assert("bool"@ != "timestamp"@);
        assert("bool"@ != "merge"@);
        assert("int"@ != "float"@);
        assert("int"@ != "timestamp"@);
        assert("int"@ != "merge"@);
        assert("float"@ != "timestamp"@);
        assert("float"@ != "merge"@);
        assert("timestamp"@ != "merge"@);
    }
    let tn = str_to_chars(kind_name);
    if crate::chars::eq_lit(&tn, "null") {
        re_null(value)
    } else if crate::chars::eq_lit(&tn, "bool") {
        re_bool(value)
    } else if crate::chars::eq_lit(&tn, "int") {
        re_decimal_int(value) || re_binary_int(value) || re_octal_int(value) || re_hex_int(value)
            || re_underscore_int(value)
    } else if crate::chars::eq_lit(&tn, "float") {
        re_float_plain(value) || re_float_underscore(value) || re_float_inf(value) || re_float_nan(
            value,
        )
    } else if crate::chars::eq_lit(&tn, "timestamp") {
        re_timestamp_iso(value) || re_date_only(value) || re_timestamp_canonical(value)
    } else if crate::chars::eq_lit(&tn, "merge") {
        re_merge(value)
    } else {
        false
    }
}

/// The value of one digit character, or -1 when it is none.
pub open spec fn spec_digit_val(c: char) -> int {
    if '0' <= c && c <= '9' {
        (c as u32) as int - ('0' as u32) as int
    } else if 'a' <= c && c <= 'f' {
        10 + (c as u32) as int - ('a' as u32) as int
    } else if 'A' <= c && c <= 'F' {
        10 + (c as u32) as int - ('A' as u32) as int
    } else {
        -1
    }
}

/// Every character of `s` is a digit of the base.
pub open spec fn spec_valid_digits(s: Seq<char>, base: int) -> bool {
    s.len() > 0 && forall|i: int|
        0 <= i < s.len() ==> 0 <= spec_digit_val(#[trigger] s[i]) < base
}

/// The numeric value of a digit string in the base.
pub open spec fn spec_digits_value(s: Seq<char>, base: int) -> int
    decreases s.len(),
{
    if s.len() == 0 {
        0
    } else {
        spec_digits_value(s.drop_last(), base) * base + spec_digit_val(s.last())
    }
}

proof fn lemma_digits_nonneg(s: Seq<char>, base: int)
    requires
        2 <= base,
        forall|i: int| 0 <= i < s.len() ==> spec_digit_val(#[trigger] s[i]) >= 0,
    ensures
        spec_digits_value(s, base) >= 0,
    decreases s.len(),
{
    if s.len() > 0 {
        lemma_digits_nonneg(s.drop_last(), base);
        let v = spec_digits_value(s.drop_last(), base);
        let d = spec_digit_val(s.last());
        assert(v * base + d >= 0) by (nonlinear_arith)
            requires
                v >= 0,
                base >= 2,
                d >= 0,
        ;
    }
}

/// The value of a digit-string prefix never exceeds the whole string's.
proof fn lemma_digits_prefix_le(s: Seq<char>, i: int, base: int)
    requires
        2 <= base,
        0 <= i <= s.len(),
        forall|j: int| 0 <= j < s.len() ==> spec_digit_val(#[trigger] s[j]) >= 0,
    ensures
        spec_digits_value(s.subrange(0, i), base) <= spec_digits_value(s, base),
    decreases s.len() - i,
{
    if i < s.len() {
        let pre = s.subrange(0, s.len() - 1);
        assert(pre == s.drop_last());
        assert forall|j: int| 0 <= j < pre.len() implies spec_digit_val(#[trigger] pre[j])
            >= 0 by {
            assert(pre[j] == s[j]);
        }
        assert(s.subrange(0, i) == pre.subrange(0, i));
        lemma_digits_prefix_le(pre, i, base);
        lemma_digits_nonneg(pre, base);
        let v = spec_digits_value(pre, base);
        let d = spec_digit_val(s.last());
        assert(v * base + d >= v) by (nonlinear_arith)
            requires
                v >= 0,
                base >= 2,
                d >= 0,
        ;
    } else {
        assert(s.subrange(0, s.len() as int) == s);
    }
}

fn digit_val(c: char) -> (r: i64)
    ensures
        r as int == spec_digit_val(c),
{
    if '0' <= c && c <= '9' {
        (c as u32 - '0' as u32) as i64
    } else if 'a' <= c && c <= 'f' {
        (10 + (c as u32 - 'a' as u32)) as i64
    } else if 'A' <= c && c <= 'F' {
        (10 + (c as u32 - 'A' as u32)) as i64
    } else {
        -1
    }
}

/// Parse a digit string in the base: the magnitude, when every character
/// is a digit of the base and the value fits a 64-bit signed integer.
fn parse_digits(v: &Vec<char>, from: usize, base: i64) -> (r: Option<i64>)
    requires
        from <= v@.len(),
        base == 2 || base == 8 || base == 10 || base == 16,
    ensures
        ({
            let digits = v@.subrange(from as int, v@.len() as int);
            match r {
                Some(n) => spec_valid_digits(digits, base as int) && n as int
                    == spec_digits_value(digits, base as int) && 0 <= n,
                None => !(spec_valid_digits(digits, base as int) && spec_digits_value(
                    digits,
                    base as int,
                ) <= i64::MAX),
            }
        }),
{
    let ghost digits = v@.subrange(from as int, v@.len() as int);
    if from >= v.len() {
        proof {
            assert(digits.len() == 0);
        }
        return None;
    }
    let mut value: i64 = 0;
    let mut i: usize = from;
    proof {
        assert(digits.subrange(0, 0) =~= Seq::<char>::empty());
    }
    while i < v.len()
        invariant
            from <= i <= v@.len(),
            digits == v@.subrange(from as int, v@.len() as int),
            digits.len() == v@.len() - from,
            0 <= value,
            value as int == spec_digits_value(digits.subrange(0, i - from), base as int),
            spec_valid_digits(digits.subrange(0, i - from), base as int) || i == from,
            forall|j: int| 0 <= j < i - from ==> 0 <= spec_digit_val(#[trigger] digits[j]) < base,
            base == 2 || base == 8 || base == 10 || base == 16,
        decreases v@.len() - i,
    {
        let c = v[i];
        let d = digit_val(c);
        proof {
            assert(digits[i - from] == v@[i as int]);
        }
        if d < 0 || d >= base {
            proof {
                assert(!(0 <= spec_digit_val(digits[i - from]) < base));
                assert(!spec_valid_digits(digits, base as int));
            }
            return None;
        }
        if value > (i64::MAX - d) / base {
            proof {
                let pre = digits.subrange(0, i - from);
                let post = digits.subrange(0, i - from + 1);
                assert(post.drop_last() =~= pre);
                assert(post.last() == digits[i - from]);
                let vv = value as int;
                let dd = d as int;
                let bb = base as int;
                assert(vv * bb + dd > i64::MAX) by (nonlinear_arith)
                    requires
                        vv > (i64::MAX - dd) / bb,
                        bb == 2 || bb == 8 || bb == 10 || bb == 16,
                        0 <= dd < bb,
                        vv >= 0,
                ;
                assert(spec_digits_value(post, bb) > i64::MAX);
                if spec_valid_digits(digits, bb) {
                    assert forall|j: int| 0 <= j < digits.len() implies spec_digit_val(
                        #[trigger] digits[j],
                    ) >= 0 by {
                        assert(0 <= spec_digit_val(digits[j]) < bb);
                    }
                    lemma_digits_prefix_le(digits, i - from + 1, bb);
                }
            }
            return None;
        }
        let ghost pre = digits.subrange(0, i - from);
        let ghost post = digits.subrange(0, i - from + 1);
        proof {
            let vv = value as int;
            let dd = d as int;
            let bb = base as int;
            assert(vv * bb + dd <= i64::MAX && vv * bb >= 0) by (nonlinear_arith)
                requires
                    vv <= (i64::MAX - dd) / bb,
                    bb == 2 || bb == 8 || bb == 10 || bb == 16,
                    0 <= dd < bb,
                    vv >= 0,
            ;
            assert(post.drop_last() =~= pre);
            assert(post.last() == digits[i - from]);
        }
        value = value * base + d;
        i = i + 1;
    }
    proof {
        assert(digits.subrange(0, digits.len() as int) == digits);
    }
    Some(value)
}

/// `s` with every underscore removed.
pub open spec fn spec_strip_underscores(s: Seq<char>) -> Seq<char>
    decreases s.len(),
{
    if s.len() == 0 {
        Seq::empty()
    } else {
        spec_strip_underscores(s.drop_last()) + (if s.last() == '_' {
            Seq::empty()
        } else {
            seq![s.last()]
        })
    }
}

fn strip_underscores(v: &Vec<char>) -> (r: Vec<char>)
    ensures
        r@ == spec_strip_underscores(v@),
{
    let mut r: Vec<char> = Vec::new();
    let mut i: usize = 0;
    proof {
        assert(v@.subrange(0, 0) =~= Seq::<char>::empty());
        assert(r@ =~= spec_strip_underscores(v@.subrange(0, 0)));
    }
    while i < v.len()
        invariant
            0 <= i <= v@.len(),
            r@ == spec_strip_underscores(v@.subrange(0, i as int)),
        decreases v@.len() - i,
    {
        let ghost pre = v@.subrange(0, i as int);
        let ghost post = v@.subrange(0, i + 1);
        proof {
            assert(post.drop_last() =~= pre);
            assert(post.last() == v@[i as int]);
        }
        let c = v[i];
        if c != '_' {
            r.push(c);
        }
        proof {
            assert(r@ =~= spec_strip_underscores(post));
        }
        i = i + 1;
    }
    proof {
        assert(v@.subrange(0, v@.len() as int) == v@);
    }
    r
}

/// What an integer scalar parses to: underscores are stripped and one sign
/// read; `0` is zero; `0b`, `0x` and a remaining leading zero select
/// binary, hexadecimal and octal; anything else is decimal. Digits outside
/// the base, an empty magnitude, or a magnitude over the signed 64-bit
/// maximum parse to nothing.
pub open spec fn spec_parse_int(s: Seq<char>) -> Option<int> {
    let u = spec_strip_underscores(s);
    let sign: int = if u.len() > 0 && u[0] == '-' {
        -1
    } else {
        1
    };
    let b = if u.len() > 0 && (u[0] == '-' || u[0] == '+') {
        u.subrange(1, u.len() as int)
    } else {
        u
    };
    if b == "0"@ {
        Some(0)
    } else if spec_starts_with(b, "0b"@) {
        let d = b.subrange(2, b.len() as int);
        if spec_valid_digits(d, 2) && spec_digits_value(d, 2) <= i64::MAX {
            Some(sign * spec_digits_value(d, 2))
        } else {
            None
        }
    } else if spec_starts_with(b, "0x"@) {
        let d = b.subrange(2, b.len() as int);
        if spec_valid_digits(d, 16) && spec_digits_value(d, 16) <= i64::MAX {
            Some(sign * spec_digits_value(d, 16))
        } else {
            None
        }
    } else if b.len() > 1 && b[0] == '0' {
        if spec_valid_digits(b, 8) && spec_digits_value(b, 8) <= i64::MAX {
            Some(sign * spec_digits_value(b, 8))
        } else {
            None
        }
    } else {
        if spec_valid_digits(b, 10) && spec_digits_value(b, 10) <= i64::MAX {
            Some(sign * spec_digits_value(b, 10))
        } else {
            None
        }
    }
}

/// Parse an integer scalar in any of its base forms, as `spec_parse_int`
/// describes.
#[verifier::rlimit(100)]
#[verifier::spinoff_prover]
pub fn parse_int(value: &str) -> (r: Option<i64>)
    ensures
        ({
            match r {
                Some(n) => spec_parse_int(value@) == Some(n as int),
                None => spec_parse_int(value@) is None,
            }
        }),
{
    let chars = str_to_chars(value);
    let u = strip_underscores(&chars);
    let negative = u.len() > 0 && u[0] == '-';
    let start: usize = if u.len() > 0 && (u[0] == '-' || u[0] == '+') {
        1
    } else {
        0
    };
    let b = crate::chars::subvec(&u, start, u.len());
    proof {
        let su = spec_strip_underscores(value@);
        assert(u@ == su);
        if start == 0 {
            assert(b@ =~= u@);
        } else {
            assert(b@ == su.subrange(1, su.len() as int));
        }
        assert(b@ == (if su.len() > 0 && (su[0] == '-' || su[0] == '+') {
            su.subrange(1, su.len() as int)
        } else {
            su
        }));
    }
    if crate::chars::eq_lit(&b, "0") {
        return Some(0);
    }
    let magnitude: Option<i64> = if crate::chars::starts_with_lit(&b, "0b") {
        proof {
            reveal_strlit("0b");
            assert("0b"@.len() == 2);
        }
        parse_digits(&b, 2, 2)
    } else if crate::chars::starts_with_lit(&b, "0x") {
        proof {
            reveal_strlit("0x");
            assert("0x"@.len() == 2);
        }
        parse_digits(&b, 2, 16)
    } else if b.len() > 1 && b[0] == '0' {
        let m = parse_digits(&b, 0, 8);
        proof {
            assert(b@.subrange(0, b@.len() as int) == b@);
        }
        m
    } else {
        let m = parse_digits(&b, 0, 10);
        proof {
            assert(b@.subrange(0, b@.len() as int) == b@);
        }
        m
    };
    match magnitude {
        None => {
            proof {
                assert(spec_parse_int(value@) is None);
            }
            None
        },
        Some(n) => {
            proof {
                assert(spec_parse_int(value@) == Some(
                    (if negative {
                        -1int
                    } else {
                        1int
                    }) * (n as int),
                ));
            }
            if negative {
                proof {
                    assert(0 <= n);
                }
                let neg = -n;
                proof {
                    assert(neg as int == -(n as int));
                    assert((-1int) * (n as int) == -(n as int)) by (nonlinear_arith);
                    assert(spec_parse_int(value@) == Some(neg as int));
                }
                Some(neg)
            } else {
                proof {
                    assert(1int * (n as int) == n as int);
                    assert(spec_parse_int(value@) == Some(n as int));
                }
                Some(n)
            }
        },
    }
}

/// A text without underscores passes through underscore stripping.
proof fn lemma_strip_underscores_id(s: Seq<char>)
    requires
        forall|i: int| 0 <= i < s.len() ==> s[i] != '_',
    ensures
        spec_strip_underscores(s) == s,
    decreases s.len(),
{
    if s.len() > 0 {
        lemma_strip_underscores_id(s.drop_last());
        assert(spec_strip_underscores(s) =~= s);
    }
}

/// Law: a leading minus negates the parsed magnitude. For an unsigned
/// integer text, parsing it with a minus in front yields exactly the
/// negation of parsing it bare — in every base form, and with failure
/// preserved.
pub proof fn lemma_parse_int_negates(s: Seq<char>)
    requires
        s.len() > 0,
        s[0] != '-',
        s[0] != '+',
        forall|i: int| 0 <= i < s.len() ==> s[i] != '_',
    ensures
        spec_parse_int(seq!['-'] + s) == (match spec_parse_int(s) {
            Some(n) => Some(-n),
            None => None::<int>,
        }),
{
    let neg = seq!['-'] + s;
    lemma_strip_underscores_id(s);
    assert(forall|i: int| 0 <= i < neg.len() ==> neg[i] != '_') by {
        assert(neg[0] == '-');
        assert(forall|i: int| 1 <= i < neg.len() ==> neg[i] == s[i - 1]);
    }
    lemma_strip_underscores_id(neg);
    assert(neg.subrange(1, neg.len() as int) =~= s);
}

/// Whether a boolean scalar reads as true: the words `true`, `yes`, `on`
/// and `1`, compared without regard to ASCII case, after trimming.
pub open spec fn spec_parse_bool(s: Seq<char>) -> bool {
    let t = spec_trim(s);
    spec_word_ascii_ci(t, "true"@) || spec_word_ascii_ci(t, "yes"@) || spec_word_ascii_ci(
        t,
        "on"@,
    ) || t == "1"@
}

/// ASCII-case-insensitive equality with a lowercase word.
pub open spec fn spec_word_ascii_ci(t: Seq<char>, w: Seq<char>) -> bool {
    t.len() == w.len() && forall|i: int|
        0 <= i < t.len() ==> spec_ascii_lower_eq(#[trigger] t[i], w[i])
}

pub open spec fn spec_ascii_lower_eq(c: char, l: char) -> bool {
    c == l || ('a' <= l && l <= 'z' && (c as u32) == (l as u32) - 32)
}

fn ascii_lower_eq(c: char, l: char) -> (r: bool)
    ensures
        r == spec_ascii_lower_eq(c, l),
{
    c == l || ('a' <= l && l <= 'z' && c as u32 == l as u32 - 32)
}

fn word_ascii_ci(t: &Vec<char>, w: &str) -> (r: bool)
    ensures
        r == spec_word_ascii_ci(t@, w@),
{
    let wlen = w.unicode_len();
    let tl = t.len();
    if tl != wlen {
        return false;
    }
    let mut i: usize = 0;
    while i < wlen
        invariant
            0 <= i <= wlen == w@.len(),
            tl == t@.len(),
            tl == wlen,
            forall|j: int| 0 <= j < i ==> spec_ascii_lower_eq(#[trigger] t@[j], w@[j]),
        decreases wlen - i,
    {
        if !ascii_lower_eq(t[i], w.get_char(i)) {
            return false;
        }
        i = i + 1;
    }
    true
}

/// Read a boolean scalar, as `spec_parse_bool` describes.
pub fn parse_bool(value: &str) -> (r: bool)
    ensures
        r == spec_parse_bool(value@),
{
    let chars = str_to_chars(value);
    let t = trim_chars(&chars);
    word_ascii_ci(&t, "true") || word_ascii_ci(&t, "yes") || word_ascii_ci(&t, "on")
        || crate::chars::eq_lit(&t, "1")
}

/// What the standard base64 alphabet decodes a text to, when it is valid.
pub uninterp spec fn base64_decode_of(s: Seq<char>) -> Option<Seq<u8>>;

/// Relies on `base64::engine::general_purpose::STANDARD.decode`: the
/// decoded bytes are a function of the input text alone, named
/// `base64_decode_of`.
#[verifier::external_body]
fn base64_decode(s: &str) -> (r: Option<Vec<u8>>)
    ensures
        match r {
            Some(v) => base64_decode_of(s@) == Some(v@),
            None => base64_decode_of(s@) is None,
        },
{
    match base64::engine::general_purpose::STANDARD.decode(s) {
        Ok(bytes) => Some(bytes),
        Err(_) => None,
    }
}

/// `s` with every whitespace character removed.
pub open spec fn spec_strip_whitespace(s: Seq<char>) -> Seq<char>
    decreases s.len(),
{
    if s.len() == 0 {
        Seq::empty()
    } else {
        spec_strip_whitespace(s.drop_last()) + (if crate::chars::is_wsnl(s.last()) {
            Seq::empty()
        } else {
            seq![s.last()]
        })
    }
}

/// Decode a binary scalar: whitespace is stripped, then the text is
/// decoded as standard base64; invalid text yields nothing.
pub fn construct_binary(value: &str) -> (r: Option<Vec<u8>>)
    ensures
        match r {
            Some(v) => base64_decode_of(spec_strip_whitespace(value@)) == Some(v@),
            None => base64_decode_of(spec_strip_whitespace(value@)) is None,
        },
{
    let chars = str_to_chars(value);
    let mut cleaned: Vec<char> = Vec::new();
    let mut i: usize = 0;
    proof {
        assert(chars@.subrange(0, 0) =~= Seq::<char>::empty());
        assert(cleaned@ =~= spec_strip_whitespace(chars@.subrange(0, 0)));
    }
    while i < chars.len()
        invariant
            0 <= i <= chars@.len(),
            chars@ == value@,
            cleaned@ == spec_strip_whitespace(chars@.subrange(0, i as int)),
        decreases chars@.len() - i,
    {
        let ghost pre = chars@.subrange(0, i as int);
        let ghost post = chars@.subrange(0, i + 1);
        proof {
            assert(post.drop_last() =~= pre);
            assert(post.last() == chars@[i as int]);
        }
        let c = chars[i];
        if !(c == ' ' || c == '\t' || c == '\r' || c == '\n') {
            cleaned.push(c);
        }
        proof {
            assert(cleaned@ =~= spec_strip_whitespace(post));
        }
        i = i + 1;
    }
    proof {
        assert(chars@.subrange(0, chars@.len() as int) == chars@);
    }
    let text = crate::chars::chars_to_string(&cleaned);
    base64_decode(text.as_str())
}

/// The marker text produced for a merge key.
pub fn construct_merge(value: &str) -> (r: String)
    ensures
        r@ == "__MERGE_KEY__:"@ + value@,
{
    String::from_str("__MERGE_KEY__:").concat(value)
}

/// A timestamp held as plain fields: the calendar date, and the time of
/// day where one was given.
#[derive(Debug, Clone, Copy, PartialEq, Eq, Structural)]
pub struct Timestamp {
    pub year: i32,
    pub month: u32,
    pub day: u32,
    pub hour: u32,
    pub minute: u32,
    pub second: u32,
    pub microsecond: u32,
    pub has_time: bool,
}

/// What an RFC 3339 text parses to in UTC, when it is valid.
pub uninterp spec fn rfc3339_utc_of(s: Seq<char>) -> Option<Timestamp>;

/// Relies on `chrono::DateTime::parse_from_rfc3339` and the accessors of
/// the UTC-converted result; the parsed fields are a function of the input
/// text alone, named `rfc3339_utc_of`.
#[verifier::external_body]
fn parse_rfc3339_utc(s: &str) -> (r: Option<Timestamp>)
    ensures
        match r {
            Some(t) => rfc3339_utc_of(s@) == Some(t),
            None => rfc3339_utc_of(s@) is None,
        },
{
    match chrono::DateTime::parse_from_rfc3339(s) {
        Ok(dt) => {
            let utc = dt.with_timezone(&chrono::Utc);
            Some(Timestamp {
                year: utc.year(), month: utc.month(), day: utc.day(),
                hour: utc.hour(), minute: utc.minute(), second: utc.second(),
                microsecond: utc.nanosecond() / 1000, has_time: true,
            })
        },
        Err(_) => None,
    }
}

/// What a `%Y-%m-%d` text parses to, when it names a valid calendar date.
pub uninterp spec fn date_ymd_of(s: Seq<char>) -> Option<Timestamp>;

/// Relies on `chrono::NaiveDate::parse_from_str` with the `%Y-%m-%d`
/// format and the date accessors; the parsed fields are a function of the
/// input text alone, named `date_ymd_of`.
#[verifier::external_body]
fn parse_date_ymd(s: &str) -> (r: Option<Timestamp>)
    ensures
        match r {
            Some(t) => date_ymd_of(s@) == Some(t),
            None => date_ymd_of(s@) is None,
        },
{
    match chrono::NaiveDate::parse_from_str(s, "%Y-%m-%d") {
        Ok(date) => Some(Timestamp {
            year: date.year(), month: date.month(), day: date.day(),
            hour: 0, minute: 0, second: 0, microsecond: 0, has_time: false,
        }),
        Err(_) => None,
    }
}

/// What a timestamp scalar constructs to.
pub enum ParsedTimestamp {
    DateTime(Timestamp),
    DateOnly(Timestamp),
    Unparsed,
}

/// Construct a timestamp from a scalar: an RFC 3339 text wins, then a bare
/// date; anything else is left unparsed for the caller to keep as text.
/// (The canonical space-separated form is matched by the resolver but has
/// no RFC 3339 zone designator, so it stays unparsed here as well unless
/// the caller rewrites it.)
pub fn construct_timestamp(value: &str) -> (r: ParsedTimestamp)
    ensures
        ({
            let t = spec_trim(value@);
            match rfc3339_utc_of(t) {
                Some(ts) => r == ParsedTimestamp::DateTime(ts),
                None => match date_ymd_of(t) {
                    Some(d) => r == ParsedTimestamp::DateOnly(d),
                    None => r == ParsedTimestamp::Unparsed,
                },
            }
        }),
{
    let chars = str_to_chars(value);
    let t = trim_chars(&chars);
    let ts = crate::chars::chars_to_string(&t);
    match parse_rfc3339_utc(ts.as_str()) {
        Some(dt) => ParsedTimestamp::DateTime(dt),
        None => match parse_date_ymd(ts.as_str()) {
            Some(d) => ParsedTimestamp::DateOnly(d),
            None => ParsedTimestamp::Unparsed,
        },
    }
}

} // verus!
