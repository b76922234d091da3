//! The canonical YAML core-schema tag identifiers used throughout the
//! pipeline, as spec-level character sequences with executable constructors.

use vstd::prelude::*;

verus! {

/// The common prefix of every core-schema tag.
pub open spec fn tag_prefix() -> Seq<char> {
    "tag:yaml.org,2002:"@
}

pub open spec fn tag_null() -> Seq<char> {
    "tag:yaml.org,2002:null"@
}

pub open spec fn tag_bool() -> Seq<char> {
    "tag:yaml.org,2002:bool"@
}

pub open spec fn tag_int() -> Seq<char> {
    "tag:yaml.org,2002:int"@
}

pub open spec fn tag_float() -> Seq<char> {
    "tag:yaml.org,2002:float"@
}

pub open spec fn tag_str() -> Seq<char> {
    "tag:yaml.org,2002:str"@
}

pub open spec fn tag_seq() -> Seq<char> {
    "tag:yaml.org,2002:seq"@
}

pub open spec fn tag_map() -> Seq<char> {
    "tag:yaml.org,2002:map"@
}

/// The synthetic tag carried by alias nodes.
pub open spec fn tag_alias() -> Seq<char> {
    "tag:yaml.org,2002:alias"@
}

pub open spec fn tag_timestamp() -> Seq<char> {
    "tag:yaml.org,2002:timestamp"@
}

pub open spec fn tag_binary() -> Seq<char> {
    "tag:yaml.org,2002:binary"@
}

pub open spec fn tag_merge() -> Seq<char> {
    "tag:yaml.org,2002:merge"@
}

pub fn tag_null_string() -> (r: String)
    ensures
        r@ == tag_null(),
{
    String::from_str("tag:yaml.org,2002:null")
}

pub fn tag_bool_string() -> (r: String)
    ensures
        r@ == tag_bool(),
{
    String::from_str("tag:yaml.org,2002:bool")
}

pub fn tag_int_string() -> (r: String)
    ensures
        r@ == tag_int(),
{
    String::from_str("tag:yaml.org,2002:int")
}

pub fn tag_float_string() -> (r: String)
    ensures
        r@ == tag_float(),
{
    String::from_str("tag:yaml.org,2002:float")
}

pub fn tag_str_string() -> (r: String)
    ensures
        r@ == tag_str(),
{
    String::from_str("tag:yaml.org,2002:str")
}

pub fn tag_seq_string() -> (r: String)
    ensures
        r@ == tag_seq(),
{
    String::from_str("tag:yaml.org,2002:seq")
}

pub fn tag_map_string() -> (r: String)
    ensures
        r@ == tag_map(),
{
    String::from_str("tag:yaml.org,2002:map")
}

pub fn tag_alias_string() -> (r: String)
    ensures
        r@ == tag_alias(),
{
    String::from_str("tag:yaml.org,2002:alias")
}

pub fn tag_timestamp_string() -> (r: String)
    ensures
        r@ == tag_timestamp(),
{
    String::from_str("tag:yaml.org,2002:timestamp")
}

pub fn tag_binary_string() -> (r: String)
    ensures
        r@ == tag_binary(),
{
    String::from_str("tag:yaml.org,2002:binary")
}

pub fn tag_merge_string() -> (r: String)
    ensures
        r@ == tag_merge(),
{
    String::from_str("tag:yaml.org,2002:merge")
}

/// A full tag built from the core-schema prefix and a short name.
pub fn tag_with_prefix(short: &Vec<char>) -> (r: String)
    ensures
        r@ == tag_prefix() + short@,
{
    let s = crate::chars::chars_to_string(short);
    String::from_str("tag:yaml.org,2002:").concat(s.as_str())
}

} // verus!
