//! Structured error values: one kind per pipeline stage and semantic
//! failure, positions where known, and a readable multi-line report.

use vstd::prelude::*;
use crate::mark::Mark;

verus! {

/// The kinds of failure the pipeline can report.
#[derive(Debug, Clone, Copy, PartialEq, Eq, Structural)]
pub enum YamlErrorType {
    ScannerError,
    ParserError,
    ComposerError,
    ConstructorError,
    RepresenterError,
    EmitterError,
    SerializerError,
    ReaderError,
    EncodingError,
    DuplicateAnchorError,
    UnknownAliasError,
    CircularReferenceError,
    InvalidTagError,
    TypeMismatchError,
    InvalidDocumentError,
    MalformedYamlError,
    UnexpectedTokenError,
    MultiDocumentError,
    InternalError,
    ConfigurationError,
}

/// The display name of an error kind.
pub open spec fn spec_kind_text(k: YamlErrorType) -> Seq<char> {
    match k {
        YamlErrorType::ScannerError => "ScannerError"@,
        YamlErrorType::ParserError => "ParserError"@,
        YamlErrorType::ComposerError => "ComposerError"@,
        YamlErrorType::ConstructorError => "ConstructorError"@,
        YamlErrorType::RepresenterError => "RepresenterError"@,
        YamlErrorType::EmitterError => "EmitterError"@,
        YamlErrorType::SerializerError => "SerializerError"@,
        YamlErrorType::ReaderError => "ReaderError"@,
        YamlErrorType::EncodingError => "EncodingError"@,
        YamlErrorType::DuplicateAnchorError => "DuplicateAnchorError"@,
        YamlErrorType::UnknownAliasError => "UnknownAliasError"@,
        YamlErrorType::CircularReferenceError => "CircularReferenceError"@,
        YamlErrorType::InvalidTagError => "InvalidTagError"@,
        YamlErrorType::TypeMismatchError => "TypeMismatchError"@,
        YamlErrorType::InvalidDocumentError => "InvalidDocumentError"@,
        YamlErrorType::MalformedYamlError => "MalformedYamlError"@,
        YamlErrorType::UnexpectedTokenError => "UnexpectedTokenError"@,
        YamlErrorType::MultiDocumentError => "MultiDocumentError"@,
        YamlErrorType::InternalError => "InternalError"@,
        YamlErrorType::ConfigurationError => "ConfigurationError"@,
    }
}

impl YamlErrorType {
    /// The display name of this kind.
    pub fn kind_text(&self) -> (r: &'static str)
        ensures
            r@ == spec_kind_text(*self),
    {
        match self {
            YamlErrorType::ScannerError => "ScannerError",
            YamlErrorType::ParserError => "ParserError",
            YamlErrorType::ComposerError => "ComposerError",
            YamlErrorType::ConstructorError => "ConstructorError",
            YamlErrorType::RepresenterError => "RepresenterError",
            YamlErrorType::EmitterError => "EmitterError",
            YamlErrorType::SerializerError => "SerializerError",
            YamlErrorType::ReaderError => "ReaderError",
            YamlErrorType::EncodingError => "EncodingError",
            YamlErrorType::DuplicateAnchorError => "DuplicateAnchorError",
            YamlErrorType::UnknownAliasError => "UnknownAliasError",
            YamlErrorType::CircularReferenceError => "CircularReferenceError",
            YamlErrorType::InvalidTagError => "InvalidTagError",
            YamlErrorType::TypeMismatchError => "TypeMismatchError",
            YamlErrorType::InvalidDocumentError => "InvalidDocumentError",
            YamlErrorType::MalformedYamlError => "MalformedYamlError",
            YamlErrorType::UnexpectedTokenError => "UnexpectedTokenError",
            YamlErrorType::MultiDocumentError => "MultiDocumentError",
            YamlErrorType::InternalError => "InternalError",
            YamlErrorType::ConfigurationError => "ConfigurationError",
        }
    }

    /// The host exception family that suits this kind.
    pub fn to_python_exception_name(&self) -> (r: &'static str)
        ensures
            (*self == YamlErrorType::ScannerError || *self == YamlErrorType::ParserError || *self
                == YamlErrorType::MalformedYamlError || *self
                == YamlErrorType::UnexpectedTokenError) ==> r@ == "ValueError"@,
            (*self == YamlErrorType::TypeMismatchError || *self == YamlErrorType::InvalidTagError)
                ==> r@ == "TypeError"@,
            (*self == YamlErrorType::ReaderError || *self == YamlErrorType::EncodingError) ==> r@
                == "IOError"@,
    {
        match self {
            YamlErrorType::ScannerError => "ValueError",
            YamlErrorType::ParserError => "ValueError",
            YamlErrorType::MalformedYamlError => "ValueError",
            YamlErrorType::UnexpectedTokenError => "ValueError",
            YamlErrorType::TypeMismatchError => "TypeError",
            YamlErrorType::InvalidTagError => "TypeError",
            YamlErrorType::ReaderError => "IOError",
            YamlErrorType::EncodingError => "IOError",
            _ => "RuntimeError",
        }
    }
}

/// One decimal digit character.
pub open spec fn spec_digit_char(d: int) -> char {
    if d == 0 {
        '0'
    } else if d == 1 {
        '1'
    } else if d == 2 {
        '2'
    } else if d == 3 {
        '3'
    } else if d == 4 {
        '4'
    } else if d == 5 {
        '5'
    } else if d == 6 {
        '6'
    } else if d == 7 {
        '7'
    } else if d == 8 {
        '8'
    } else {
        '9'
    }
}

/// The decimal digits of a number, most significant first.
pub open spec fn spec_dec_digits(n: int) -> Seq<char>
    decreases n,
{
    if n < 10 {
        seq![spec_digit_char(if n < 0 {
            0
        } else {
            n
        })]
    } else {
        spec_dec_digits(n / 10) + seq![spec_digit_char(n % 10)]
    }
}

fn digit_char(d: u64) -> (r: char)
    requires
        d < 10,
    ensures
        r == spec_digit_char(d as int),
{
    if d == 0 {
        '0'
    } else if d == 1 {
        '1'
    } else if d == 2 {
        '2'
    } else if d == 3 {
        '3'
    } else if d == 4 {
        '4'
    } else if d == 5 {
        '5'
    } else if d == 6 {
        '6'
    } else if d == 7 {
        '7'
    } else if d == 8 {
        '8'
    } else {
        '9'
    }
}

/// The decimal text of a number, as `spec_dec_digits` describes.
pub fn dec_digits(n: u64) -> (r: Vec<char>)
    ensures
        r@ == spec_dec_digits(n as int),
    decreases n,
{
    if n < 10 {
        let mut r: Vec<char> = Vec::new();
        r.push(digit_char(n));
        proof {
            assert(r@ =~= spec_dec_digits(n as int));
        }
        r
    } else {
        let mut r = dec_digits(n / 10);
        r.push(digit_char(n % 10));
        proof {
            assert(r@ =~= spec_dec_digits(n as int));
        }
        r
    }
}

/// A number as decimal text.
pub fn number_text(n: u64) -> (r: String)
    ensures
        r@ == spec_dec_digits(n as int),
{
    crate::chars::chars_to_string(&dec_digits(n))
}

/// A complete error: its kind, message, positions where known, and the
/// optional context, note, problem value and path to the offending element.
#[derive(Debug)]
pub struct YamlError {
    pub error_type: YamlErrorType,
    pub message: String,
    pub start_mark: Option<Mark>,
    pub end_mark: Option<Mark>,
    pub context: Option<String>,
    pub note: Option<String>,
    pub problem_mark: Option<Mark>,
    pub problem_value: Option<String>,
    pub yaml_path: Vec<String>,
}

impl YamlError {
    /// A bare error of a kind with a message.
    pub fn new(error_type: YamlErrorType, message: String) -> (r: YamlError)
        ensures
            r.error_type == error_type,
            r.message@ == message@,
            r.start_mark is None,
            r.end_mark is None,
            r.context is None,
            r.note is None,
            r.problem_mark is None,
            r.problem_value is None,
            r.yaml_path@.len() == 0,
    {
        YamlError {
            error_type,
            message,
            start_mark: None,
            end_mark: None,
            context: None,
            note: None,
            problem_mark: None,
            problem_value: None,
            yaml_path: Vec::new(),
        }
    }

    /// An error pinned to one source position.
    pub fn with_mark(error_type: YamlErrorType, message: String, mark: Mark) -> (r: YamlError)
        ensures
            r.error_type == error_type,
            r.message@ == message@,
            r.start_mark == Some(mark),
            r.end_mark == Some(mark),
            r.problem_mark == Some(mark),
    {
        YamlError {
            error_type,
            message,
            start_mark: Some(mark),
            end_mark: Some(mark),
            context: None,
            note: None,
            problem_mark: Some(mark),
            problem_value: None,
            yaml_path: Vec::new(),
        }
    }

    /// An error spanning a source range.
    pub fn with_range(error_type: YamlErrorType, message: String, start: Mark, end: Mark) -> (r:
        YamlError)
        ensures
            r.error_type == error_type,
            r.message@ == message@,
            r.start_mark == Some(start),
            r.end_mark == Some(end),
            r.problem_mark == Some(start),
    {
        YamlError {
            error_type,
            message,
            start_mark: Some(start),
            end_mark: Some(end),
            context: None,
            note: None,
            problem_mark: Some(start),
            problem_value: None,
            yaml_path: Vec::new(),
        }
    }

    /// This error with added context.
    pub fn with_context(self, context: String) -> (r: YamlError)
        ensures
            r == (YamlError { context: Some(context), ..self }),
    {
        YamlError { context: Some(context), ..self }
    }

    /// This error with an explanatory note.
    pub fn with_note(self, note: String) -> (r: YamlError)
        ensures
            r == (YamlError { note: Some(note), ..self }),
    {
        YamlError { note: Some(note), ..self }
    }

    /// This error with the offending value attached.
    pub fn with_problem_value(self, value: String) -> (r: YamlError)
        ensures
            r == (YamlError { problem_value: Some(value), ..self }),
    {
        YamlError { problem_value: Some(value), ..self }
    }

    /// This error with the path to the offending element.
    pub fn with_yaml_path(self, path: Vec<String>) -> (r: YamlError)
        ensures
            r == (YamlError { yaml_path: path, ..self }),
    {
        YamlError { yaml_path: path, ..self }
    }

    /// The readable report: the kind and message, then one indented line
    /// for the position, path, problem value, context and note, where each
    /// is present.
    pub fn format_message(&self) -> (r: String) {
        let mut out: Vec<char> = Vec::new();
        crate::chars::append_to(&mut out, &crate::chars::str_to_chars(self.error_type.kind_text()));
        crate::chars::append_to(&mut out, &crate::chars::str_to_chars(": "));
        crate::chars::append_to(&mut out, &crate::chars::str_to_chars(self.message.as_str()));
        match &self.problem_mark {
            Some(mark) => {
                crate::chars::append_to(&mut out, &crate::chars::str_to_chars("\n  at line "));
                let line1: u64 = mark.line as u64;
                let col1: u64 = mark.column as u64;
                let lplus = if line1 < u64::MAX {
                    line1 + 1
                } else {
                    line1
                };
                let cplus = if col1 < u64::MAX {
                    col1 + 1
                } else {
                    col1
                };
                crate::chars::append_to(&mut out, &dec_digits(lplus));
                crate::chars::append_to(&mut out, &crate::chars::str_to_chars(", column "));
                crate::chars::append_to(&mut out, &dec_digits(cplus));
            },
            None => {},
        }
        if self.yaml_path.len() > 0 {
            crate::chars::append_to(&mut out, &crate::chars::str_to_chars("\n  in "));
            let mut i: usize = 0;
            while i < self.yaml_path.len()
                decreases self.yaml_path@.len() - i,
            {
                if i > 0 {
                    crate::chars::append_to(&mut out, &crate::chars::str_to_chars(" -> "));
                }
                crate::chars::append_to(
                    &mut out,
                    &crate::chars::str_to_chars(self.yaml_path[i].as_str()),
                );
                i = i + 1;
            }
        }
        match &self.problem_value {
            Some(value) => {
                crate::chars::append_to(
                    &mut out,
                    &crate::chars::str_to_chars("\n  problem value: \""),
                );
                let chars = crate::chars::str_to_chars(value.as_str());
                if chars.len() <= 100 {
                    crate::chars::append_to(&mut out, &chars);
                    crate::chars::append_to(&mut out, &crate::chars::str_to_chars("\""));
                } else {
                    let head = crate::chars::subvec(&chars, 0, 97);
                    crate::chars::append_to(&mut out, &head);
                    crate::chars::append_to(&mut out, &crate::chars::str_to_chars("...\""));
                }
            },
            None => {},
        }
        match &self.context {
            Some(context) => {
                crate::chars::append_to(&mut out, &crate::chars::str_to_chars("\n  context: "));
                crate::chars::append_to(&mut out, &crate::chars::str_to_chars(context.as_str()));
            },
            None => {},
        }
        match &self.note {
            Some(note) => {
                crate::chars::append_to(&mut out, &crate::chars::str_to_chars("\n  note: "));
                crate::chars::append_to(&mut out, &crate::chars::str_to_chars(note.as_str()));
            },
            None => {},
        }
        crate::chars::chars_to_string(&out)
    }
}

/// A step-by-step builder for complex errors.
pub struct YamlErrorBuilder {
    pub error: YamlError,
}

impl YamlErrorBuilder {
    pub fn new(error_type: YamlErrorType, message: String) -> (r: YamlErrorBuilder)
        ensures
            r.error.error_type == error_type,
            r.error.message@ == message@,
    {
        YamlErrorBuilder { error: YamlError::new(error_type, message) }
    }

    pub fn with_mark(self, mark: Mark) -> (r: YamlErrorBuilder)
        ensures
            r.error == (YamlError {
                start_mark: Some(mark),
                end_mark: Some(mark),
                problem_mark: Some(mark),
                ..self.error
            }),
    {
        let mut e = self.error;
        e.start_mark = Some(mark);
        e.end_mark = Some(mark);
        e.problem_mark = Some(mark);
        YamlErrorBuilder { error: e }
    }

    pub fn with_range(self, start: Mark, end: Mark) -> (r: YamlErrorBuilder)
        ensures
            r.error == (YamlError {
                start_mark: Some(start),
                end_mark: Some(end),
                problem_mark: Some(start),
                ..self.error
            }),
    {
        let mut e = self.error;
        e.start_mark = Some(start);
        e.end_mark = Some(end);
        e.problem_mark = Some(start);
        YamlErrorBuilder { error: e }
    }

    pub fn with_context(self, context: String) -> (r: YamlErrorBuilder)
        ensures
            r.error == (YamlError { context: Some(context), ..self.error }),
    {
        let mut e = self.error;
        e.context = Some(context);
        YamlErrorBuilder { error: e }
    }

    pub fn with_note(self, note: String) -> (r: YamlErrorBuilder)
        ensures
            r.error == (YamlError { note: Some(note), ..self.error }),
    {
        let mut e = self.error;
        e.note = Some(note);
        YamlErrorBuilder { error: e }
    }

    pub fn with_problem_value(self, value: String) -> (r: YamlErrorBuilder)
        ensures
            r.error == (YamlError { problem_value: Some(value), ..self.error }),
    {
        let mut e = self.error;
        e.problem_value = Some(value);
        YamlErrorBuilder { error: e }
    }

    pub fn with_yaml_path(self, path: Vec<String>) -> (r: YamlErrorBuilder)
        ensures
            r.error == (YamlError { yaml_path: path, ..self.error }),
    {
        let mut e = self.error;
        e.yaml_path = path;
        YamlErrorBuilder { error: e }
    }

    pub fn build(self) -> (r: YamlError)
        ensures
            r == self.error,
    {
        self.error
    }
}

/// A scanner failure at a position.
pub fn scanner_error(message: String, mark: Mark) -> (r: YamlError)
    ensures
        r.error_type == YamlErrorType::ScannerError,
        r.message@ == message@,
        r.problem_mark == Some(mark),
{
    YamlErrorBuilder::new(YamlErrorType::ScannerError, message).with_mark(mark).with_note(
        String::from_str("Check for invalid characters or malformed tokens"),
    ).build()
}

/// A parser failure at a position, with optional context.
pub fn parser_error(message: String, mark: Mark, context: Option<String>) -> (r: YamlError)
    ensures
        r.error_type == YamlErrorType::ParserError,
        r.message@ == message@,
        r.problem_mark == Some(mark),
{
    let builder = YamlErrorBuilder::new(YamlErrorType::ParserError, message).with_mark(
        mark,
    ).with_note(String::from_str("Check YAML syntax and structure"));
    match context {
        Some(ctx) => builder.with_context(ctx).build(),
        None => builder.build(),
    }
}

/// A composition failure, with the path walked so far.
pub fn composer_error(message: String, mark: Option<Mark>, yaml_path: Vec<String>) -> (r:
    YamlError)
    ensures
        r.error_type == YamlErrorType::ComposerError,
        r.message@ == message@,
{
    let builder = YamlErrorBuilder::new(YamlErrorType::ComposerError, message).with_yaml_path(
        yaml_path,
    ).with_note(String::from_str("Check document structure and references"));
    match mark {
        Some(m) => builder.with_mark(m).build(),
        None => builder.build(),
    }
}

/// The failure for an alias whose anchor was never defined.
pub fn unknown_alias_error(alias_name: String, mark: Mark) -> (r: YamlError)
    ensures
        r.error_type == YamlErrorType::UnknownAliasError,
        r.message@ == "Unknown alias: '"@ + alias_name@ + "'"@,
        r.problem_mark == Some(mark),
{
    let n2 = alias_name.clone();
    let n3 = alias_name.clone();
    let n4 = alias_name.clone();
    let message = String::from_str("Unknown alias: '").concat(alias_name.as_str()).concat("'");
    let note = String::from_str("Alias '").concat(n2.as_str()).concat(
        "' must be defined before use with &",
    ).concat(n3.as_str());
    YamlErrorBuilder::new(YamlErrorType::UnknownAliasError, message).with_mark(
        mark,
    ).with_problem_value(n4).with_note(note).build()
}

/// The failure for an anchor defined twice, with both positions.
pub fn duplicate_anchor_error(anchor_name: String, mark: Mark, previous_mark: Mark) -> (r:
    YamlError)
    ensures
        r.error_type == YamlErrorType::DuplicateAnchorError,
        r.problem_mark == Some(mark),
{
    let n2 = anchor_name.clone();
    let message = String::from_str("Duplicate anchor: '").concat(anchor_name.as_str()).concat("'");
    let pl: u64 = previous_mark.line as u64;
    let pc: u64 = previous_mark.column as u64;
    let lplus = if pl < u64::MAX {
        pl + 1
    } else {
        pl
    };
    let cplus = if pc < u64::MAX {
        pc + 1
    } else {
        pc
    };
    let context = String::from_str("Previous definition at line ").concat(
        number_text(lplus).as_str(),
    ).concat(", column ").concat(number_text(cplus).as_str());
    YamlErrorBuilder::new(YamlErrorType::DuplicateAnchorError, message).with_mark(
        mark,
    ).with_problem_value(n2).with_context(context).with_note(
        String::from_str("Each anchor must be unique within a document"),
    ).build()
}

/// The failure for a reference cycle.
pub fn circular_reference_error(path: Vec<String>, mark: Mark) -> (r: YamlError)
    ensures
        r.error_type == YamlErrorType::CircularReferenceError,
        r.problem_mark == Some(mark),
{
    YamlErrorBuilder::new(
        YamlErrorType::CircularReferenceError,
        String::from_str("Circular reference detected"),
    ).with_mark(mark).with_yaml_path(path).with_note(
        String::from_str("Remove circular references between anchors and aliases"),
    ).build()
}

/// The failure for a value whose kind does not match what was expected.
pub fn type_mismatch_error(expected: String, found: String, mark: Mark) -> (r: YamlError)
    ensures
        r.error_type == YamlErrorType::TypeMismatchError,
        r.problem_mark == Some(mark),
{
    let f2 = found.clone();
    let e2 = expected.clone();
    let message = String::from_str("Type mismatch: expected ").concat(expected.as_str()).concat(
        ", found ",
    ).concat(found.as_str());
    let note = String::from_str("Value should be of type ").concat(e2.as_str());
    YamlErrorBuilder::new(YamlErrorType::TypeMismatchError, message).with_mark(
        mark,
    ).with_problem_value(f2).with_note(note).build()
}

/// The failure for a document that cannot stand.
pub fn invalid_document_error(message: String, mark: Option<Mark>) -> (r: YamlError)
    ensures
        r.error_type == YamlErrorType::InvalidDocumentError,
        r.message@ == message@,
{
    let builder = YamlErrorBuilder::new(YamlErrorType::InvalidDocumentError, message).with_note(
        String::from_str("Check document structure and YAML version compatibility"),
    );
    match mark {
        Some(m) => builder.with_mark(m).build(),
        None => builder.build(),
    }
}

/// The failure for undecodable input.
pub fn encoding_error(message: String, encoding_name: String) -> (r: YamlError)
    ensures
        r.error_type == YamlErrorType::EncodingError,
        r.message@ == message@,
{
    let context = String::from_str("Encoding: ").concat(encoding_name.as_str());
    YamlErrorBuilder::new(YamlErrorType::EncodingError, message).with_context(context).with_note(
        String::from_str("Try specifying the correct encoding or check for BOM"),
    ).build()
}

/// Build an error from a kind name and an optional position.
pub fn create_yaml_error(
    error_type: String,
    message: String,
    line: Option<usize>,
    column: Option<usize>,
) -> (r: YamlError)
    ensures
        r.message@ == message@,
{
    let kind_chars = crate::chars::str_to_chars(error_type.as_str());
    let yaml_error_type = if crate::chars::eq_lit(&kind_chars, "scanner") {
        YamlErrorType::ScannerError
    } else if crate::chars::eq_lit(&kind_chars, "parser") {
        YamlErrorType::ParserError
    } else if crate::chars::eq_lit(&kind_chars, "composer") {
        YamlErrorType::ComposerError
    } else if crate::chars::eq_lit(&kind_chars, "constructor") {
        YamlErrorType::ConstructorError
    } else if crate::chars::eq_lit(&kind_chars, "representer") {
        YamlErrorType::RepresenterError
    } else if crate::chars::eq_lit(&kind_chars, "emitter") {
        YamlErrorType::EmitterError
    } else if crate::chars::eq_lit(&kind_chars, "serializer") {
        YamlErrorType::SerializerError
    } else if crate::chars::eq_lit(&kind_chars, "reader") {
        YamlErrorType::ReaderError
    } else if crate::chars::eq_lit(&kind_chars, "encoding") {
        YamlErrorType::EncodingError
    } else if crate::chars::eq_lit(&kind_chars, "duplicate_anchor") {
        YamlErrorType::DuplicateAnchorError
    } else if crate::chars::eq_lit(&kind_chars, "unknown_alias") {
        YamlErrorType::UnknownAliasError
    } else if crate::chars::eq_lit(&kind_chars, "circular_reference") {
        YamlErrorType::CircularReferenceError
    } else if crate::chars::eq_lit(&kind_chars, "invalid_tag") {
        YamlErrorType::InvalidTagError
    } else if crate::chars::eq_lit(&kind_chars, "type_mismatch") {
        YamlErrorType::TypeMismatchError
    } else if crate::chars::eq_lit(&kind_chars, "invalid_document") {
        YamlErrorType::InvalidDocumentError
    } else if crate::chars::eq_lit(&kind_chars, "malformed_yaml") {
        YamlErrorType::MalformedYamlError
    } else if crate::chars::eq_lit(&kind_chars, "unexpected_token") {
        YamlErrorType::UnexpectedTokenError
    } else if crate::chars::eq_lit(&kind_chars, "multi_document") {
        YamlErrorType::MultiDocumentError
    } else if crate::chars::eq_lit(&kind_chars, "configuration") {
        YamlErrorType::ConfigurationError
    } else {
        YamlErrorType::InternalError
    };
    let mut error = YamlError::new(yaml_error_type, message);
    match (line, column) {
        (Some(l), Some(c)) => {
            let mark = Mark::new(l, c, 0);
            error.start_mark = Some(mark);
            error.end_mark = Some(mark);
            error.problem_mark = Some(mark);
        },
        _ => {},
    }
    error
}

/// The readable report of an error.
pub fn format_error(error: &YamlError) -> (r: String) {
    error.format_message()
}

} // verus!
