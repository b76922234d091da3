//! Lexical tokens: the units the scanner produces.

use vstd::prelude::*;

verus! {

/// The kind of a lexical token.
#[derive(Debug, Clone, Copy, PartialEq, Eq, Structural)]
pub enum TokenType {
    StreamStart,
    StreamEnd,
    DocumentStart,
    DocumentEnd,
    Key,
    Value,
    Scalar,
    FlowSequenceStart,
    FlowSequenceEnd,
    FlowMappingStart,
    FlowMappingEnd,
    BlockEntry,
    FlowEntry,
    Anchor,
    Alias,
    Tag,
}

/// A lexical token: its kind, an optional text payload (present only for
/// Scalar, Anchor, Alias and Tag tokens), and the `[start, end)` span of
/// character offsets it covers in the source, for diagnostics.
#[derive(Debug, Clone)]
pub struct Token {
    pub token_type: TokenType,
    pub value: Option<String>,
    pub start: usize,
    pub end: usize,
}

/// The mathematical image of a token.
pub struct TokenV {
    pub token_type: TokenType,
    pub value: Option<Seq<char>>,
    pub start: int,
    pub end: int,
}

impl DeepView for Token {
    type V = TokenV;

    open spec fn deep_view(&self) -> TokenV {
        self.view()
    }
}

impl View for Token {
    type V = TokenV;

    open spec fn view(&self) -> TokenV {
        TokenV {
            token_type: self.token_type,
            value: match self.value {
                Some(ref s) => Some(s@),
                None => None,
            },
            start: self.start as int,
            end: self.end as int,
        }
    }
}

/// The display text of a token: the kind's name, with the payload in
/// parentheses where one is present.
pub open spec fn spec_token_text(t: TokenV) -> Seq<char> {
    match t.token_type {
        TokenType::StreamStart => "STREAM_START"@,
        TokenType::StreamEnd => "STREAM_END"@,
        TokenType::DocumentStart => "DOCUMENT_START"@,
        TokenType::DocumentEnd => "DOCUMENT_END"@,
        TokenType::Key => "KEY"@,
        TokenType::Value => "VALUE"@,
        TokenType::Scalar => match t.value {
            Some(v) => "SCALAR("@ + v + ")"@,
            None => "SCALAR"@,
        },
        TokenType::FlowSequenceStart => "FLOW_SEQUENCE_START"@,
        TokenType::FlowSequenceEnd => "FLOW_SEQUENCE_END"@,
        TokenType::FlowMappingStart => "FLOW_MAPPING_START"@,
        TokenType::FlowMappingEnd => "FLOW_MAPPING_END"@,
        TokenType::BlockEntry => "BLOCK_ENTRY"@,
        TokenType::FlowEntry => "FLOW_ENTRY"@,
        TokenType::Anchor => match t.value {
            Some(v) => "ANCHOR("@ + v + ")"@,
            None => "ANCHOR"@,
        },
        TokenType::Alias => match t.value {
            Some(v) => "ALIAS("@ + v + ")"@,
            None => "ALIAS"@,
        },
        TokenType::Tag => match t.value {
            Some(v) => "TAG("@ + v + ")"@,
            None => "TAG"@,
        },
    }
}

fn wrap_payload(prefix: &str, value: &Option<String>, bare: &str) -> (r: String)
    ensures
        value is Some ==> r@ == prefix@ + value->0@ + ")"@,
        value is None ==> r@ == bare@,
{
    match value {
        Some(v) => String::from_str(prefix).concat(v.as_str()).concat(")"),
        None => String::from_str(bare),
    }
}

impl Token {
    /// An equal copy of this token.
    pub fn duplicate(&self) -> (r: Token)
        ensures
            r@ == self@,
    {
        Token {
            token_type: self.token_type,
            value: match &self.value {
                Some(s) => Some(s.clone()),
                None => None,
            },
            start: self.start,
            end: self.end,
        }
    }

    /// The display form of this token, matching `spec_token_text`.
    pub fn to_string(&self) -> (r: String)
        ensures
            r@ == spec_token_text(self@),
    {
        match self.token_type {
            TokenType::StreamStart => String::from_str("STREAM_START"),
            TokenType::StreamEnd => String::from_str("STREAM_END"),
            TokenType::DocumentStart => String::from_str("DOCUMENT_START"),
            TokenType::DocumentEnd => String::from_str("DOCUMENT_END"),
            TokenType::Key => String::from_str("KEY"),
            TokenType::Value => String::from_str("VALUE"),
            TokenType::Scalar => wrap_payload("SCALAR(", &self.value, "SCALAR"),
            TokenType::FlowSequenceStart => String::from_str("FLOW_SEQUENCE_START"),
            TokenType::FlowSequenceEnd => String::from_str("FLOW_SEQUENCE_END"),
            TokenType::FlowMappingStart => String::from_str("FLOW_MAPPING_START"),
            TokenType::FlowMappingEnd => String::from_str("FLOW_MAPPING_END"),
            TokenType::BlockEntry => String::from_str("BLOCK_ENTRY"),
            TokenType::FlowEntry => String::from_str("FLOW_ENTRY"),
            TokenType::Anchor => wrap_payload("ANCHOR(", &self.value, "ANCHOR"),
            TokenType::Alias => wrap_payload("ALIAS(", &self.value, "ALIAS"),
            TokenType::Tag => wrap_payload("TAG(", &self.value, "TAG"),
        }
    }
}

} // verus!
