//! The reader collaborator: byte-order-mark and encoding detection for raw
//! byte input, decoding through the encoding tables, and a character cursor
//! over the decoded text. The scanner itself always consumes decoded text.

use vstd::prelude::*;
use crate::chars::str_to_chars;

verus! {

/// A reading failure; kept for callers that match on it.
#[derive(Debug)]
pub struct ReaderError {
    pub message: String,
}

/// The encodings the reader can detect and decode.
#[derive(Debug, Clone, Copy, PartialEq, Eq, Structural)]
pub enum EncodingKind {
    Utf8,
    Utf16Be,
    Utf16Le,
}

/// What encoding detection found: the encoding, whether a byte order mark
/// was present and how long it was, and the confidence as a percentage.
#[derive(Debug, Clone, Copy, PartialEq, Eq, Structural)]
pub struct EncodingInfo {
    pub encoding: EncodingKind,
    pub has_bom: bool,
    pub bom_length: usize,
    pub confidence_pct: u8,
}

/// The byte order mark at the head of `b`, if one of the known marks is
/// there: the UTF-8 mark first, then the two UTF-16 marks.
pub open spec fn spec_detect_bom(b: Seq<u8>) -> Option<EncodingInfo> {
    if b.len() >= 3 && b[0] == 0xef && b[1] == 0xbb && b[2] == 0xbf {
        Some(
            EncodingInfo {
                encoding: EncodingKind::Utf8,
                has_bom: true,
                bom_length: 3,
                confidence_pct: 100,
            },
        )
    } else if b.len() >= 2 && b[0] == 0xfe && b[1] == 0xff {
        Some(
            EncodingInfo {
                encoding: EncodingKind::Utf16Be,
                has_bom: true,
                bom_length: 2,
                confidence_pct: 100,
            },
        )
    } else if b.len() >= 2 && b[0] == 0xff && b[1] == 0xfe {
        Some(
            EncodingInfo {
                encoding: EncodingKind::Utf16Le,
                has_bom: true,
                bom_length: 2,
                confidence_pct: 100,
            },
        )
    } else {
        None
    }
}

/// Inspect the head of `b` for a byte order mark, as `spec_detect_bom`
/// describes.
pub fn detect_bom(b: &Vec<u8>) -> (r: Option<EncodingInfo>)
    ensures
        r == spec_detect_bom(b@),
{
    if b.len() >= 3 && b[0] == 0xef && b[1] == 0xbb && b[2] == 0xbf {
        Some(
            EncodingInfo {
                encoding: EncodingKind::Utf8,
                has_bom: true,
                bom_length: 3,
                confidence_pct: 100,
            },
        )
    } else if b.len() >= 2 && b[0] == 0xfe && b[1] == 0xff {
        Some(
            EncodingInfo {
                encoding: EncodingKind::Utf16Be,
                has_bom: true,
                bom_length: 2,
                confidence_pct: 100,
            },
        )
    } else if b.len() >= 2 && b[0] == 0xff && b[1] == 0xfe {
        Some(
            EncodingInfo {
                encoding: EncodingKind::Utf16Le,
                has_bom: true,
                bom_length: 2,
                confidence_pct: 100,
            },
        )
    } else {
        None
    }
}

/// Whether a byte sequence is valid UTF-8.
pub uninterp spec fn utf8_valid(b: Seq<u8>) -> bool;

/// Relies on `core::str::from_utf8`: it accepts a byte slice exactly when
/// the bytes are valid UTF-8, named `utf8_valid`.
#[verifier::external_body]
fn is_valid_utf8(b: &[u8]) -> (r: bool)
    ensures
        r == utf8_valid(b@),
{
    core::str::from_utf8(b).is_ok()
}

/// Heuristic detection for input without a mark: a sample of at most 8192
/// bytes that is valid UTF-8 gives high confidence; anything else falls
/// back to UTF-8 with replacement at low confidence.
pub open spec fn spec_detect_heuristic(b: Seq<u8>) -> EncodingInfo {
    let sample = if b.len() <= 8192 {
        b
    } else {
        b.subrange(0, 8192)
    };
    EncodingInfo {
        encoding: EncodingKind::Utf8,
        has_bom: false,
        bom_length: 0,
        confidence_pct: if utf8_valid(sample) {
            90
        } else {
            50
        },
    }
}

fn detect_encoding_heuristic(b: &Vec<u8>) -> (r: EncodingInfo)
    ensures
        r == spec_detect_heuristic(b@),
{
    let sample_size = if b.len() <= 8192 {
        b.len()
    } else {
        8192
    };
    let sample = crate::chars::subvec_bytes(b, 0, sample_size);
    proof {
        if b@.len() <= 8192 {
            assert(sample@ =~= b@);
        }
    }
    let valid = is_valid_utf8(sample.as_slice());
    EncodingInfo {
        encoding: EncodingKind::Utf8,
        has_bom: false,
        bom_length: 0,
        confidence_pct: if valid {
            90
        } else {
            50
        },
    }
}

/// The detected encoding of a byte stream: the mark where one is present,
/// else the heuristic.
pub open spec fn spec_detect_encoding(b: Seq<u8>) -> EncodingInfo {
    match spec_detect_bom(b) {
        Some(info) => info,
        None => spec_detect_heuristic(b),
    }
}

/// Detect the encoding of a byte stream, as `spec_detect_encoding`
/// describes.
pub fn detect_encoding_from_bytes(b: &Vec<u8>) -> (r: EncodingInfo)
    ensures
        r == spec_detect_encoding(b@),
{
    match detect_bom(b) {
        Some(info) => info,
        None => detect_encoding_heuristic(b),
    }
}

/// What decoding a byte sequence under an encoding yields: the text, with
/// malformed sequences replaced, and whether any were found.
pub uninterp spec fn decode_of(kind: EncodingKind, b: Seq<u8>) -> (Seq<char>, bool);

/// Relies on `encoding_rs::Encoding::decode` for the UTF-8 and UTF-16
/// tables: the decoded text and the error flag are a function of the bytes
/// and the table alone, named `decode_of`.
#[verifier::external_body]
fn decode_bytes(kind: EncodingKind, b: &[u8]) -> (r: (String, bool))
    ensures
        (r.0@, r.1) == decode_of(kind, b@),
{
    let encoding = match kind {
        EncodingKind::Utf8 => encoding_rs::UTF_8,
        EncodingKind::Utf16Be => encoding_rs::UTF_16BE,
        EncodingKind::Utf16Le => encoding_rs::UTF_16LE,
    };
    let (decoded, _used, had_errors) = encoding.decode(b);
    (decoded.into_owned(), had_errors)
}

/// Whether `b` holds a byte order mark.
pub fn has_bom(b: &Vec<u8>) -> (r: bool)
    ensures
        r == (spec_detect_bom(b@) is Some),
{
    matches!(detect_bom(b), Some(_))
}

/// `b` without its byte order mark, when one is present.
pub fn strip_bom(b: &Vec<u8>) -> (r: Vec<u8>)
    ensures
        match spec_detect_bom(b@) {
            Some(info) => r@ == b@.subrange(info.bom_length as int, b@.len() as int),
            None => r@ == b@,
        },
{
    match detect_bom(b) {
        Some(info) => crate::chars::subvec_bytes(b, info.bom_length, b.len()),
        None => {
            let r = crate::chars::subvec_bytes(b, 0, b.len());
            proof {
                assert(r@ =~= b@);
            }
            r
        },
    }
}

/// The advanced reader: decoded text, detection settings, and a character
/// cursor with line and column tracking.
pub struct AdvancedReader {
    content: Vec<char>,
    detect_encoding: bool,
    strip_bom: bool,
    max_lookahead: usize,
    position: usize,
    line: usize,
    column: usize,
    encoding_info: Option<EncodingInfo>,
}

impl AdvancedReader {
    /// The decoded text this reader stands over.
    pub closed spec fn text(&self) -> Seq<char> {
        self.content@
    }

    /// The cursor's index into the text.
    pub closed spec fn cursor(&self) -> int {
        self.position as int
    }

    /// A fresh reader over no text, with detection on.
    pub fn new() -> (r: AdvancedReader)
        ensures
            r.text() == Seq::<char>::empty(),
            r.cursor() == 0,
    {
        AdvancedReader {
            content: Vec::new(),
            detect_encoding: true,
            strip_bom: true,
            max_lookahead: 1024,
            position: 0,
            line: 1,
            column: 1,
            encoding_info: None,
        }
    }

    pub fn with_encoding_detection(&mut self, detect: bool)
        ensures
            final(self).text() == old(self).text(),
            final(self).cursor() == old(self).cursor(),
    {
        self.detect_encoding = detect;
    }

    pub fn with_bom_stripping(&mut self, strip: bool)
        ensures
            final(self).text() == old(self).text(),
            final(self).cursor() == old(self).cursor(),
    {
        self.strip_bom = strip;
    }

    pub fn with_max_lookahead(&mut self, max: usize)
        ensures
            final(self).text() == old(self).text(),
            final(self).cursor() == old(self).cursor(),
    {
        self.max_lookahead = max;
    }

    /// Take already-decoded text and reset the cursor.
    pub fn load_from_string(&mut self, content: &str)
        ensures
            final(self).text() == content@,
            final(self).cursor() == 0,
    {
        self.content = str_to_chars(content);
        self.position = 0;
        self.line = 1;
        self.column = 1;
    }

    /// Decode raw bytes and take the text: the encoding comes from the
    /// mark or the heuristic when detection is on, the mark is stripped
    /// when configured, and decode errors are reported.
    pub fn load_from_bytes(&mut self, bytes: &Vec<u8>) -> (r: Result<(), ReaderError>)
        ensures
            ({
                let info = if old(self).spec_detecting() {
                    spec_detect_encoding(bytes@)
                } else {
                    EncodingInfo {
                        encoding: EncodingKind::Utf8,
                        has_bom: false,
                        bom_length: 0,
                        confidence_pct: 100,
                    }
                };
                let start: int = if old(self).spec_stripping() && info.has_bom {
                    info.bom_length as int
                } else {
                    0
                };
                let decoded = decode_of(info.encoding, bytes@.subrange(start, bytes@.len() as int));
                if decoded.1 {
                    r is Err
                } else {
                    r is Ok && final(self).text() == decoded.0 && final(self).cursor() == 0
                }
            }),
    {
        let info = if self.detect_encoding {
            detect_encoding_from_bytes(bytes)
        } else {
            EncodingInfo {
                encoding: EncodingKind::Utf8,
                has_bom: false,
                bom_length: 0,
                confidence_pct: 100,
            }
        };
        let start: usize = if self.strip_bom && info.has_bom {
            info.bom_length
        } else {
            0
        };
        proof {
            assert(start <= bytes@.len());
        }
        let tail = crate::chars::subvec_bytes(bytes, start, bytes.len());
        let (decoded, had_errors) = decode_bytes(info.encoding, tail.as_slice());
        if had_errors {
            return Err(
                ReaderError { message: String::from_str("Failed to decode content") },
            );
        }
        self.content = str_to_chars(decoded.as_str());
        self.encoding_info = Some(info);
        self.position = 0;
        self.line = 1;
        self.column = 1;
        Ok(())
    }

    pub closed spec fn spec_detecting(&self) -> bool {
        self.detect_encoding
    }

    pub closed spec fn spec_stripping(&self) -> bool {
        self.strip_bom
    }

    /// The whole decoded text.
    pub fn read_all(&self) -> (r: String)
        ensures
            r@ == self.text(),
    {
        crate::chars::chars_to_string(&self.content)
    }

    /// Up to `count` characters ahead of the cursor, without advancing.
    pub fn peek(&self, count: usize) -> (r: String)
        ensures
            ({
                let lo = self.cursor();
                let hi = if lo + count <= self.text().len() {
                    lo + count
                } else {
                    self.text().len() as int
                };
                if lo <= hi {
                    r@ == self.text().subrange(lo, hi)
                } else {
                    r@ == Seq::<char>::empty()
                }
            }),
    {
        if self.position >= self.content.len() {
            let r = String::new();
            proof {
                if self.cursor() <= self.text().len() {
                    assert(self.text().subrange(self.cursor(), self.text().len() as int)
                        =~= Seq::<char>::empty());
                }
            }
            return r;
        }
        let hi = if count <= self.content.len() - self.position {
            self.position + count
        } else {
            self.content.len()
        };
        let piece = crate::chars::subvec(&self.content, self.position, hi);
        crate::chars::chars_to_string(&piece)
    }

    /// Read one character and advance the cursor and the line and column
    /// counters.
    pub fn read_char(&mut self) -> (r: Option<char>)
        ensures
            final(self).text() == old(self).text(),
            old(self).cursor() < old(self).text().len() ==> r == Some(
                old(self).text()[old(self).cursor()],
            ) && final(self).cursor() == old(self).cursor() + 1,
            old(self).cursor() >= old(self).text().len() ==> r is None && final(self).cursor()
                == old(self).cursor(),
    {
        if self.position < self.content.len() {
            let ch = self.content[self.position];
            self.position = self.position + 1;
            if ch == '\n' {
                self.line = if self.line < usize::MAX {
                    self.line + 1
                } else {
                    self.line
                };
                self.column = 1;
            } else {
                self.column = if self.column < usize::MAX {
                    self.column + 1
                } else {
                    self.column
                };
            }
            Some(ch)
        } else {
            None
        }
    }

    /// Read characters through the next line feed; nothing at the end of
    /// the text.
    pub fn read_line(&mut self) -> (r: Option<String>)
        ensures
            final(self).text() == old(self).text(),
            old(self).cursor() >= old(self).text().len() ==> r is None,
            r is Some ==> r->0@.len() > 0,
    {
        if self.position >= self.content.len() {
            return None;
        }
        let mut line: Vec<char> = Vec::new();
        loop
            invariant
                self.text() == old(self).text(),
                self.cursor() <= self.text().len(),
                0 <= self.cursor(),
            decreases self.text().len() - self.cursor() + 1,
        {
            match self.read_char() {
                Some(ch) => {
                    line.push(ch);
                    if ch == '\n' {
                        break ;
                    }
                },
                None => {
                    break ;
                },
            }
        }
        if line.len() == 0 {
            None
        } else {
            Some(crate::chars::chars_to_string(&line))
        }
    }

    /// The line and column of the cursor, both 1-indexed.
    pub fn get_position(&self) -> (r: (usize, usize)) {
        (self.line, self.column)
    }

    /// The cursor's character offset.
    pub fn get_byte_position(&self) -> (r: usize)
        ensures
            r as int == self.cursor(),
    {
        self.position
    }
}

/// A reader over already-decoded text.
pub fn create_reader_from_string(content: &str) -> (r: AdvancedReader)
    ensures
        r.text() == content@,
        r.cursor() == 0,
{
    let mut reader = AdvancedReader::new();
    reader.load_from_string(content);
    reader
}

/// A reader over raw bytes, decoded with detection.
pub fn create_reader_from_bytes(bytes: &Vec<u8>) -> (r: Result<AdvancedReader, ReaderError>) {
    let mut reader = AdvancedReader::new();
    match reader.load_from_bytes(bytes) {
        Ok(()) => Ok(reader),
        Err(e) => Err(e),
    }
}

/// The name of the encoding detection reports for a byte stream.
pub fn detect_encoding(bytes: &Vec<u8>) -> (r: String)
    ensures
        spec_detect_encoding(bytes@).encoding == EncodingKind::Utf8 ==> r@ == "utf-8"@,
        spec_detect_encoding(bytes@).encoding == EncodingKind::Utf16Be ==> r@ == "utf-16be"@,
        spec_detect_encoding(bytes@).encoding == EncodingKind::Utf16Le ==> r@ == "utf-16le"@,
{
    let info = detect_encoding_from_bytes(bytes);
    match info.encoding {
        EncodingKind::Utf8 => String::from_str("utf-8"),
        EncodingKind::Utf16Be => String::from_str("utf-16be"),
        EncodingKind::Utf16Le => String::from_str("utf-16le"),
    }
}

} // verus!
