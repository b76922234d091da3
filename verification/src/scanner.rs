//! The lexical scanner: one forward pass over the source characters that
//! produces the token stream. Scanning is total: it never fails, emits
//! `StreamStart` first and `StreamEnd` last, and absorbs unrecognized
//! characters into plain scalars.

use vstd::prelude::*;
use crate::chars::{chars_to_string, spec_find_from, str_to_chars, subvec};
use crate::token::{Token, TokenType, TokenV};

verus! {

/// Horizontal whitespace skipped between tokens.
pub open spec fn is_ws(c: char) -> bool {
    c == ' ' || c == '\t'
}

/// Line break characters.
pub open spec fn is_break(c: char) -> bool {
    c == '\n' || c == '\r'
}

/// Characters that terminate a plain scalar.
pub open spec fn is_plain_terminator(c: char) -> bool {
    is_ws(c) || is_break(c) || c == ':' || c == '[' || c == ']' || c == '{' || c == '}' || c == ','
}

/// Characters allowed in anchor and alias names.
pub open spec fn is_name_char(c: char) -> bool {
    ('a' <= c && c <= 'z') || ('A' <= c && c <= 'Z') || ('0' <= c && c <= '9') || c == '_' || c
        == '-'
}

/// Characters allowed in tag names: name characters plus `/`, `:` and `.`.
pub open spec fn is_tag_char(c: char) -> bool {
    is_name_char(c) || c == '/' || c == ':' || c == '.'
}

/// The character classes the scanner takes greedy runs of.
#[derive(Clone, Copy)]
pub enum RunKind {
    Ws,
    NonBreak,
    Name,
    TagName,
    Plain,
}

/// Whether `c` belongs to the run class `k`.
pub open spec fn spec_run_pred(k: RunKind, c: char) -> bool {
    match k {
        RunKind::Ws => is_ws(c),
        RunKind::NonBreak => !is_break(c),
        RunKind::Name => is_name_char(c),
        RunKind::TagName => is_tag_char(c),
        RunKind::Plain => !is_plain_terminator(c),
    }
}

/// The first position at or after `pos` whose character leaves the class `k`,
/// or the end of the text.
pub open spec fn spec_run_end(s: Seq<char>, pos: int, k: RunKind) -> int
    decreases s.len() - pos,
{
    if !(0 <= pos < s.len()) {
        s.len() as int
    } else if spec_run_pred(k, s[pos]) {
        spec_run_end(s, pos + 1, k)
    } else {
        pos
    }
}

fn run_pred(k: RunKind, c: char) -> (r: bool)
    ensures
        r == spec_run_pred(k, c),
{
    match k {
        RunKind::Ws => c == ' ' || c == '\t',
        RunKind::NonBreak => !(c == '\n' || c == '\r'),
        RunKind::Name => ('a' <= c && c <= 'z') || ('A' <= c && c <= 'Z') || ('0' <= c && c <= '9')
            || c == '_' || c == '-',
        RunKind::TagName => ('a' <= c && c <= 'z') || ('A' <= c && c <= 'Z') || ('0' <= c && c
            <= '9') || c == '_' || c == '-' || c == '/' || c == ':' || c == '.',
        RunKind::Plain => !(c == ' ' || c == '\t' || c == '\n' || c == '\r' || c == ':' || c == '['
            || c == ']' || c == '{' || c == '}' || c == ','),
    }
}

fn run_end(v: &Vec<char>, pos: usize, k: RunKind) -> (r: usize)
    requires
        pos <= v@.len(),
    ensures
        pos <= r <= v@.len(),
        r == spec_run_end(v@, pos as int, k),
{
    let mut i: usize = pos;
    while i < v.len() && run_pred(k, v[i])
        invariant
            pos <= i <= v@.len(),
            spec_run_end(v@, pos as int, k) == spec_run_end(v@, i as int, k),
        decreases v@.len() - i,
    {
        i = i + 1;
    }
    i
}

/// Whether position `pos` is at the start of a line: the start of the text,
/// or just after a line break.
pub open spec fn spec_line_start(s: Seq<char>, pos: int) -> bool {
    pos == 0 || (0 < pos <= s.len() && is_break(s[pos - 1]))
}

/// The subrange `[a, b)` of `s`, or empty when the bounds are not a valid
/// range (a degenerate quoted scalar).
pub open spec fn slice_or_empty(s: Seq<char>, a: int, b: int) -> Seq<char> {
    if 0 <= a <= b <= s.len() {
        s.subrange(a, b)
    } else {
        Seq::empty()
    }
}

/// A token that carries no payload, spanning the single position `p`.
pub open spec fn indicator_tok(t: TokenType, p: int) -> TokenV {
    TokenV { token_type: t, value: None, start: p, end: p }
}

/// A token whose payload is the text of `s` over `[a, b)`.
pub open spec fn payload_tok(t: TokenType, s: Seq<char>, a: int, b: int) -> TokenV {
    TokenV { token_type: t, value: Some(slice_or_empty(s, a, b)), start: a, end: b }
}

/// What one dispatch step of the scanner does at a non-whitespace position:
/// the tokens it emits (possibly none) and the position it moves to.
pub struct ScanStep {
    pub toks: Seq<TokenV>,
    pub next: int,
}

/// One dispatch step of the scanner at position `pos`, which must hold a
/// non-whitespace character. Mirrors the scanner's dispatch order exactly.
pub open spec fn spec_scan_step(s: Seq<char>, pos: int) -> ScanStep
    recommends
        0 <= pos < s.len(),
        !is_ws(s[pos]),
{
    let c = s[pos];
    if c == ':' {
        ScanStep { toks: seq![indicator_tok(TokenType::Value, pos + 1)], next: pos + 1 }
    } else if c == '[' {
        ScanStep { toks: seq![indicator_tok(TokenType::FlowSequenceStart, pos + 1)], next: pos + 1 }
    } else if c == ']' {
        ScanStep { toks: seq![indicator_tok(TokenType::FlowSequenceEnd, pos + 1)], next: pos + 1 }
    } else if c == '{' {
        ScanStep { toks: seq![indicator_tok(TokenType::FlowMappingStart, pos + 1)], next: pos + 1 }
    } else if c == '}' {
        ScanStep { toks: seq![indicator_tok(TokenType::FlowMappingEnd, pos + 1)], next: pos + 1 }
    } else if c == ',' {
        ScanStep { toks: seq![indicator_tok(TokenType::FlowEntry, pos + 1)], next: pos + 1 }
    } else if c == '-' && spec_line_start(s, pos) && pos + 2 < s.len() && s[pos + 1] == '-' && s[pos
        + 2] == '-' {
        ScanStep { toks: seq![indicator_tok(TokenType::DocumentStart, pos + 3)], next: pos + 3 }
    } else if is_break(c) {
        ScanStep {
            toks: Seq::empty(),
            next: if c == '\r' && pos + 1 < s.len() && s[pos + 1] == '\n' {
                pos + 2
            } else {
                pos + 1
            },
        }
    } else if c == '#' {
        ScanStep { toks: Seq::empty(), next: spec_run_end(s, pos, RunKind::NonBreak) }
    } else if c == '"' {
        let f = spec_find_from(s, '"', pos + 1);
        let e = if f >= 0 {
            f + 1
        } else {
            s.len() as int
        };
        ScanStep { toks: seq![payload_tok(TokenType::Scalar, s, pos + 1, e - 1)], next: e }
    } else if c == '\'' {
        let f = spec_find_from(s, '\'', pos + 1);
        let e = if f >= 0 {
            f + 1
        } else {
            s.len() as int
        };
        ScanStep { toks: seq![payload_tok(TokenType::Scalar, s, pos + 1, e - 1)], next: e }
    } else if c == '&' {
        let e = spec_run_end(s, pos + 1, RunKind::Name);
        ScanStep {
            toks: if e > pos + 1 {
                seq![payload_tok(TokenType::Anchor, s, pos + 1, e)]
            } else {
                Seq::empty()
            },
            next: if e > pos + 1 {
                e
            } else {
                pos + 1
            },
        }
    } else if c == '*' {
        let e = spec_run_end(s, pos + 1, RunKind::Name);
        ScanStep {
            toks: if e > pos + 1 {
                seq![payload_tok(TokenType::Alias, s, pos + 1, e)]
            } else {
                Seq::empty()
            },
            next: if e > pos + 1 {
                e
            } else {
                pos + 1
            },
        }
    } else if c == '!' {
        let e = spec_run_end(s, pos + 1, RunKind::TagName);
        ScanStep {
            toks: if e > pos + 1 {
                seq![payload_tok(TokenType::Tag, s, pos + 1, e)]
            } else {
                Seq::empty()
            },
            next: if e > pos + 1 {
                e
            } else {
                pos + 1
            },
        }
    } else {
        let e = spec_run_end(s, pos, RunKind::Plain);
        ScanStep {
            toks: if e > pos {
                seq![payload_tok(TokenType::Scalar, s, pos, e)]
            } else {
                Seq::empty()
            },
            next: if e > pos {
                e
            } else {
                pos + 1
            },
        }
    }
}

/// The tokens scanned from position `pos` to the end of the text: whitespace
/// is skipped one character at a time, and each dispatch step contributes its
/// tokens. (The inner clamp only serves termination; every step moves
/// forward.)
pub open spec fn spec_scan_from(s: Seq<char>, pos: int) -> Seq<TokenV>
    decreases s.len() - pos,
{
    if !(0 <= pos < s.len()) {
        Seq::empty()
    } else if is_ws(s[pos]) {
        spec_scan_from(s, pos + 1)
    } else {
        let st = spec_scan_step(s, pos);
        st.toks + spec_scan_from(
            s,
            if st.next <= pos {
                pos + 1
            } else if st.next > s.len() {
                s.len() as int
            } else {
                st.next
            },
        )
    }
}

/// The full token stream of a text: `StreamStart`, the scanned tokens, and
/// `StreamEnd`.
pub open spec fn spec_scan(s: Seq<char>) -> Seq<TokenV> {
    seq![indicator_tok(TokenType::StreamStart, 0)] + spec_scan_from(s, 0) + seq![
        indicator_tok(TokenType::StreamEnd, s.len() as int),
    ]
}

proof fn lemma_tok_deep_push(v: Vec<Token>, w: Vec<Token>, x: Token)
    requires
        w@ == v@.push(x),
    ensures
        w.deep_view() == v.deep_view().push(x@),
{
    assert(w.deep_view() =~= v.deep_view().push(x@));
}

fn indicator(t: TokenType, p: usize) -> (r: Token)
    ensures
        r@ == indicator_tok(t, p as int),
{
    Token { token_type: t, value: None, start: p, end: p }
}

fn payload(t: TokenType, v: &Vec<char>, a: usize, b: usize) -> (r: Token)
    requires
        a <= v@.len(),
        b <= v@.len(),
    ensures
        r@ == payload_tok(t, v@, a as int, b as int),
{
    let text = if a <= b {
        subvec(v, a, b)
    } else {
        Vec::new()
    };
    proof {
        if a > b {
            assert(text@ =~= slice_or_empty(v@, a as int, b as int));
        }
    }
    Token { token_type: t, value: Some(chars_to_string(&text)), start: a, end: b }
}

/// Scan the body of the text: every token between `StreamStart` and
/// `StreamEnd`.
fn scan_body(text: &Vec<char>) -> (r: Vec<Token>)
    ensures
        r.deep_view() == spec_scan_from(text@, 0),
{
    let mut toks: Vec<Token> = Vec::new();
    let mut pos: usize = 0;
    proof {
        assert(toks.deep_view() =~= Seq::<TokenV>::empty());
        assert(Seq::<TokenV>::empty() + spec_scan_from(text@, 0) =~= spec_scan_from(text@, 0));
    }
    while pos < text.len()
        invariant
            0 <= pos <= text@.len(),
            toks.deep_view() + spec_scan_from(text@, pos as int) == spec_scan_from(text@, 0),
        decreases text@.len() - pos,
    {
        let ghost s = text@;
        let ghost p = pos as int;
        let c = text[pos];
        if c == ' ' || c == '\t' {
            pos = pos + 1;
        } else {
            let ghost st = spec_scan_step(s, p);
            let ghost old_toks = toks;
            let next: usize;
            if c == ':' {
                let t = indicator(TokenType::Value, pos + 1);
                toks.push(t);
                next = pos + 1;
                proof {
                    lemma_tok_deep_push(old_toks, toks, t);
                }
            } else if c == '[' {
                let t = indicator(TokenType::FlowSequenceStart, pos + 1);
                toks.push(t);
                next = pos + 1;
                proof {
                    lemma_tok_deep_push(old_toks, toks, t);
                }
            } else if c == ']' {
                let t = indicator(TokenType::FlowSequenceEnd, pos + 1);
                toks.push(t);
                next = pos + 1;
                proof {
                    lemma_tok_deep_push(old_toks, toks, t);
                }
            } else if c == '{' {
                let t = indicator(TokenType::FlowMappingStart, pos + 1);
                toks.push(t);
                next = pos + 1;
                proof {
                    lemma_tok_deep_push(old_toks, toks, t);
                }
            } else if c == '}' {
                let t = indicator(TokenType::FlowMappingEnd, pos + 1);
                toks.push(t);
                next = pos + 1;
                proof {
                    lemma_tok_deep_push(old_toks, toks, t);
                }
            } else if c == ',' {
                let t = indicator(TokenType::FlowEntry, pos + 1);
                toks.push(t);
                next = pos + 1;
                proof {
                    lemma_tok_deep_push(old_toks, toks, t);
                }
            } else if c == '-' && (pos == 0 || text[pos - 1] == '\n' || text[pos - 1] == '\r')
                && text.len() - pos > 2 && text[pos + 1] == '-' && text[pos + 2] == '-' {
                let t = indicator(TokenType::DocumentStart, pos + 3);
                toks.push(t);
                next = pos + 3;
                proof {
                    lemma_tok_deep_push(old_toks, toks, t);
                }
            } else if c == '\n' || c == '\r' {
                if c == '\r' && pos + 1 < text.len() && text[pos + 1] == '\n' {
                    next = pos + 2;
                } else {
                    next = pos + 1;
                }
            } else if c == '#' {
                let e = run_end(text, pos + 1, RunKind::NonBreak);
                proof {
                    assert(spec_run_end(s, p, RunKind::NonBreak) == spec_run_end(
                        s,
                        p + 1,
                        RunKind::NonBreak,
                    ));
                }
                next = e;
            } else if c == '"' {
                match crate::chars::find_from(text, '"', pos + 1) {
                    Some(f) => {
                        let t = payload(TokenType::Scalar, text, pos + 1, f);
                        toks.push(t);
                        next = f + 1;
                        proof {
                            lemma_tok_deep_push(old_toks, toks, t);
                        }
                    },
                    None => {
                        let e = text.len();
                        let t = if pos + 1 <= e - 1 {
                            payload(TokenType::Scalar, text, pos + 1, e - 1)
                        } else {
                            Token {
                                token_type: TokenType::Scalar,
                                value: Some(String::new()),
                                start: pos + 1,
                                end: e - 1,
                            }
                        };
                        toks.push(t);
                        next = e;
                        proof {
                            assert(t@ == payload_tok(TokenType::Scalar, s, p + 1, e - 1));
                            lemma_tok_deep_push(old_toks, toks, t);
                        }
                    },
                }
            } else if c == '\'' {
                match crate::chars::find_from(text, '\'', pos + 1) {
                    Some(f) => {
                        let t = payload(TokenType::Scalar, text, pos + 1, f);
                        toks.push(t);
                        next = f + 1;
                        proof {
                            lemma_tok_deep_push(old_toks, toks, t);
                        }
                    },
                    None => {
                        let e = text.len();
                        let t = if pos + 1 <= e - 1 {
                            payload(TokenType::Scalar, text, pos + 1, e - 1)
                        } else {
                            Token {
                                token_type: TokenType::Scalar,
                                value: Some(String::new()),
                                start: pos + 1,
                                end: e - 1,
                            }
                        };
                        toks.push(t);
                        next = e;
                        proof {
                            assert(t@ == payload_tok(TokenType::Scalar, s, p + 1, e - 1));
                            lemma_tok_deep_push(old_toks, toks, t);
                        }
                    },
                }
            } else if c == '&' {
                let e = run_end(text, pos + 1, RunKind::Name);
                if e > pos + 1 {
                    let t = payload(TokenType::Anchor, text, pos + 1, e);
                    toks.push(t);
                    proof {
                        lemma_tok_deep_push(old_toks, toks, t);
                    }
                    next = e;
                } else {
                    next = pos + 1;
                }
            } else if c == '*' {
                let e = run_end(text, pos + 1, RunKind::Name);
                if e > pos + 1 {
                    let t = payload(TokenType::Alias, text, pos + 1, e);
                    toks.push(t);
                    proof {
                        lemma_tok_deep_push(old_toks, toks, t);
                    }
                    next = e;
                } else {
                    next = pos + 1;
                }
            } else if c == '!' {
                let e = run_end(text, pos + 1, RunKind::TagName);
                if e > pos + 1 {
                    let t = payload(TokenType::Tag, text, pos + 1, e);
                    toks.push(t);
                    proof {
                        lemma_tok_deep_push(old_toks, toks, t);
                    }
                    next = e;
                } else {
                    next = pos + 1;
                }
            } else {
                proof {
                    assert(!is_plain_terminator(c));
                    assert(spec_run_end(s, p, RunKind::Plain) == spec_run_end(
                        s,
                        p + 1,
                        RunKind::Plain,
                    ));
                }
                let e = run_end(text, pos + 1, RunKind::Plain);
                let t = payload(TokenType::Scalar, text, pos, e);
                toks.push(t);
                proof {
                    lemma_tok_deep_push(old_toks, toks, t);
                }
                next = e;
            }
            proof {
                assert(next as int == (if st.next <= p {
                    p + 1
                } else if st.next > s.len() {
                    s.len() as int
                } else {
                    st.next
                }));
                assert(toks.deep_view() =~= old_toks.deep_view() + st.toks);
                assert(spec_scan_from(s, p) == st.toks + spec_scan_from(s, next as int));
                assert((old_toks.deep_view() + st.toks) + spec_scan_from(s, next as int)
                    =~= old_toks.deep_view() + (st.toks + spec_scan_from(s, next as int)));
            }
            pos = next;
        }
    }
    proof {
        assert(spec_scan_from(text@, pos as int) == Seq::<TokenV>::empty());
        assert(toks.deep_view() + Seq::<TokenV>::empty() =~= toks.deep_view());
    }
    toks
}

/// Scan a text into its full token stream.
pub fn scan(text: &str) -> (r: Vec<Token>)
    ensures
        r.deep_view() == spec_scan(text@),
{
    let chars = str_to_chars(text);
    let body = scan_body(&chars);
    let mut r: Vec<Token> = Vec::new();
    r.push(indicator(TokenType::StreamStart, 0));
    let mut i: usize = 0;
    while i < body.len()
        invariant
            0 <= i <= body@.len(),
            body.deep_view() == spec_scan_from(text@, 0),
            r.deep_view() == seq![indicator_tok(TokenType::StreamStart, 0)] + body.deep_view()
                .subrange(0, i as int),
        decreases body@.len() - i,
    {
        let ghost old_r = r;
        let t = body[i].duplicate();
        proof {
            assert(t@ == body.deep_view()[i as int]);
        }
        r.push(t);
        proof {
            lemma_tok_deep_push(old_r, r, t);
            assert(r.deep_view() =~= seq![indicator_tok(TokenType::StreamStart, 0)]
                + body.deep_view().subrange(0, i + 1));
        }
        i = i + 1;
    }
    let ghost old_r = r;
    let last = indicator(TokenType::StreamEnd, chars.len());
    r.push(last);
    proof {
        lemma_tok_deep_push(old_r, r, last);
        assert(body.deep_view().subrange(0, body.deep_view().len() as int) == body.deep_view());
        assert(r.deep_view() =~= spec_scan(text@));
    }
    r
}

/// The scanner as a stateful object: holds the text and, after `scan_all`,
/// its token stream.
pub struct Scanner {
    text: Vec<char>,
    tokens: Vec<Token>,
    flow_level: u8,
}

impl Scanner {
    /// The text this scanner stands over.
    pub closed spec fn spec_text(&self) -> Seq<char> {
        self.text@
    }

    /// The tokens scanned so far.
    pub closed spec fn spec_tokens(&self) -> Seq<TokenV> {
        self.tokens.deep_view()
    }

    /// A scanner over `input`.
    pub fn new(input: &str) -> (r: Scanner)
        ensures
            r.spec_text() == input@,
            r.spec_tokens().len() == 0,
    {
        let r = Scanner { text: str_to_chars(input), tokens: Vec::new(), flow_level: 0 };
        proof {
            assert(r.tokens.deep_view() =~= Seq::<TokenV>::empty());
        }
        r
    }

    /// Scan the whole text; the token stream is returned and kept.
    pub fn scan_all(&mut self) -> (r: Vec<Token>)
        ensures
            r.deep_view() == spec_scan(old(self).spec_text()),
            final(self).spec_text() == old(self).spec_text(),
            final(self).spec_tokens() == spec_scan(old(self).spec_text()),
    {
        let body = scan_body(&self.text);
        let mut r: Vec<Token> = Vec::new();
        r.push(indicator(TokenType::StreamStart, 0));
        let mut i: usize = 0;
        while i < body.len()
            invariant
                0 <= i <= body@.len(),
                body.deep_view() == spec_scan_from(self.text@, 0),
                r.deep_view() == seq![indicator_tok(TokenType::StreamStart, 0)] + body.deep_view()
                    .subrange(0, i as int),
            decreases body@.len() - i,
        {
            let ghost old_r = r;
            let t = body[i].duplicate();
            proof {
                assert(t@ == body.deep_view()[i as int]);
            }
            r.push(t);
            proof {
                lemma_tok_deep_push(old_r, r, t);
                assert(r.deep_view() =~= seq![indicator_tok(TokenType::StreamStart, 0)]
                    + body.deep_view().subrange(0, i + 1));
            }
            i = i + 1;
        }
        let ghost old_r = r;
        let last = indicator(TokenType::StreamEnd, self.text.len());
        r.push(last);
        proof {
            lemma_tok_deep_push(old_r, r, last);
            assert(body.deep_view().subrange(0, body.deep_view().len() as int)
                == body.deep_view());
            assert(r.deep_view() =~= spec_scan(self.text@));
        }
        let out = clone_tokens(&r);
        self.tokens = r;
        out
    }
}

fn clone_tokens(v: &Vec<Token>) -> (r: Vec<Token>)
    ensures
        r.deep_view() == v.deep_view(),
{
    let mut r: Vec<Token> = Vec::new();
    let mut i: usize = 0;
    while i < v.len()
        invariant
            0 <= i <= v@.len(),
            r.deep_view() == v.deep_view().subrange(0, i as int),
        decreases v@.len() - i,
    {
        let ghost old_r = r;
        let t = v[i].duplicate();
        proof {
            assert(t@ == v.deep_view()[i as int]);
        }
        r.push(t);
        proof {
            lemma_tok_deep_push(old_r, r, t);
            assert(r.deep_view() =~= v.deep_view().subrange(0, i + 1));
        }
        i = i + 1;
    }
    proof {
        assert(v.deep_view().subrange(0, v.deep_view().len() as int) == v.deep_view());
    }
    r
}

/// Scan a text and render each token's display form, in order.
pub fn scan_rust(text: &str) -> (r: Vec<String>)
    ensures
        r.deep_view().len() == spec_scan(text@).len(),
        forall|i: int|
            0 <= i < r.deep_view().len() ==> r.deep_view()[i] == crate::token::spec_token_text(
                spec_scan(text@)[i],
            ),
{
    let toks = scan(text);
    let mut r: Vec<String> = Vec::new();
    let mut i: usize = 0;
    while i < toks.len()
        invariant
            0 <= i <= toks@.len(),
            toks.deep_view() == spec_scan(text@),
            toks@.len() == spec_scan(text@).len(),
            r.deep_view().len() == i,
            forall|j: int|
                0 <= j < i ==> r.deep_view()[j] == crate::token::spec_token_text(
                    spec_scan(text@)[j],
                ),
        decreases toks@.len() - i,
    {
        let ghost old_r = r;
        let t = toks[i].to_string();
        proof {
            assert(toks@[i as int]@ == toks.deep_view()[i as int]);
        }
        r.push(t);
        proof {
            assert(r.deep_view() =~= old_r.deep_view().push(t@));
        }
        i = i + 1;
    }
    r
}

} // verus!
