//! The emitter: serializes a node tree to YAML text, choosing flow or block
//! container styles and plain, quoted, literal or folded scalar styles from
//! content analysis, with configurable indentation, width and canonical mode.

use vstd::prelude::*;
use crate::chars::{chars_to_string, spec_split_lines, str_to_chars};
use crate::composer::{Node, NodeV, NodeValue, NodeValueV};
use crate::tags::{tag_prefix, tag_str};

verus! {

/// An emission failure; the writer here is an in-memory buffer, so none
/// arise, but the shape is kept for callers that match on it.
#[derive(Debug)]
pub struct EmitterError {
    pub message: String,
}

/// Saturating addition, used for the column and line counters.
pub open spec fn sat_add(a: int, b: int) -> int {
    if a + b <= usize::MAX {
        a + b
    } else {
        usize::MAX as int
    }
}

fn sat_add_usize(a: usize, b: usize) -> (r: usize)
    ensures
        r as int == sat_add(a as int, b as int),
{
    if a <= usize::MAX - b {
        a + b
    } else {
        usize::MAX
    }
}

/// The mutable state of an emission: the output text, the position counters,
/// the indent stack, the flow nesting level and the whitespace flags.
pub struct EmitSt {
    pub out: Seq<char>,
    pub column: int,
    pub line: int,
    pub whitespace: bool,
    pub indention: bool,
    pub indents: Seq<int>,
    pub flow_level: int,
}

/// The fixed configuration of an emission.
pub struct EmitCfg {
    pub indent: int,
    pub width: int,
    pub canonical: bool,
    pub default_flow_style: Option<bool>,
}

/// Whether every character of `s` is a space.
pub open spec fn spec_all_spaces(s: Seq<char>) -> bool {
    forall|i: int| 0 <= i < s.len() ==> #[trigger] s[i] == ' '
}

/// `n` spaces.
pub open spec fn spec_spaces(n: int) -> Seq<char> {
    Seq::new(n as nat, |i: int| ' ')
}

/// Write an indicator: a separating space is inserted when the last output
/// character was not whitespace and the indicator asks for one.
pub open spec fn spec_write_indicator(
    st: EmitSt,
    indicator: Seq<char>,
    need_whitespace: bool,
    whitespace: bool,
) -> EmitSt {
    let data = if st.whitespace || !need_whitespace {
        indicator
    } else {
        " "@ + indicator
    };
    EmitSt {
        out: st.out + data,
        column: sat_add(st.column, data.len() as int),
        whitespace,
        indention: st.indention && spec_all_spaces(indicator),
        ..st
    }
}

/// Write raw text: the whitespace flag records whether it ends in a space.
pub open spec fn spec_write(st: EmitSt, data: Seq<char>) -> EmitSt {
    EmitSt {
        out: st.out + data,
        column: sat_add(st.column, data.len() as int),
        whitespace: data.len() > 0 && data[data.len() - 1] == ' ',
        ..st
    }
}

/// Write a line break and reset the column.
pub open spec fn spec_write_line_break(st: EmitSt) -> EmitSt {
    EmitSt {
        out: st.out + "\n"@,
        column: 0,
        line: sat_add(st.line, 1),
        whitespace: true,
        indention: true,
        ..st
    }
}

/// The indent level currently on top of the stack.
pub open spec fn spec_current_indent(st: EmitSt) -> int {
    if st.indents.len() > 0 {
        st.indents.last()
    } else {
        0
    }
}

/// Move to the current indent level: break the line if needed, then pad with
/// spaces up to the level.
pub open spec fn spec_write_indent(st: EmitSt) -> EmitSt {
    let indent = spec_current_indent(st);
    let st1 = if !st.indention || st.column > indent {
        spec_write_line_break(st)
    } else {
        st
    };
    if st1.column < indent {
        spec_write(st1, spec_spaces(indent - st1.column))
    } else {
        st1
    }
}

/// Push two indent levels: the saved current level, then the new deeper one
/// (a small fixed step in flow context, the configured width in block
/// context).
pub open spec fn spec_increase_indent(st: EmitSt, cfg: EmitCfg, flow: bool) -> EmitSt {
    let cur = spec_current_indent(st);
    let st1 = EmitSt { indents: st.indents.push(cur), ..st };
    let step: int = if flow {
        2
    } else {
        cfg.indent
    };
    EmitSt { indents: st1.indents.push(sat_add(cur, step)), ..st1 }
}

/// Pop one indent level.
pub open spec fn spec_decrease_indent(st: EmitSt) -> EmitSt {
    if st.indents.len() > 0 {
        EmitSt { indents: st.indents.drop_last(), ..st }
    } else {
        st
    }
}

/// The content analysis of one scalar, driving style selection.
#[derive(Debug, Clone, PartialEq, Eq, Structural)]
pub struct ScalarAnalysis {
    pub empty: bool,
    pub multiline: bool,
    pub allow_flow_plain: bool,
    pub allow_block_plain: bool,
    pub allow_single_quoted: bool,
    pub allow_double_quoted: bool,
    pub allow_block: bool,
}

/// The characters whose presence anywhere in a scalar forbids plain style.
pub open spec fn spec_special_char(c: char) -> bool {
    c == '#' || c == '[' || c == ']' || c == '{' || c == '}' || c == '&' || c == '*' || c == '!'
        || c == '|' || c == '>' || c == '\'' || c == '"' || c == '%' || c == '@' || c == '`'
}

/// The characters that forbid plain style when they open the scalar.
pub open spec fn spec_indicator_char(c: char) -> bool {
    spec_special_char(c) || c == '-' || c == '?' || c == ':' || c == ','
}

/// The analysis of a scalar's content: an empty scalar allows block-plain
/// and both quoted forms only; otherwise the flags follow from line breaks,
/// special characters, a leading indicator and edge spaces.
pub open spec fn spec_analyze(s: Seq<char>) -> ScalarAnalysis {
    if s.len() == 0 {
        ScalarAnalysis {
            empty: true,
            multiline: false,
            allow_flow_plain: false,
            allow_block_plain: true,
            allow_single_quoted: true,
            allow_double_quoted: true,
            allow_block: false,
        }
    } else {
        let multiline = crate::chars::spec_contains_char(s, '\n');
        let has_special = exists|i: int| 0 <= i < s.len() && spec_special_char(#[trigger] s[i]);
        let starts_ind = spec_indicator_char(s[0]);
        let edge_space = s[0] == ' ' || s[s.len() - 1] == ' ';
        let plain = !multiline && !has_special && !starts_ind && !edge_space;
        ScalarAnalysis {
            empty: false,
            multiline,
            allow_flow_plain: plain,
            allow_block_plain: plain,
            allow_single_quoted: !crate::chars::spec_contains_char(s, '\'') && !edge_space,
            allow_double_quoted: true,
            allow_block: !edge_space && multiline,
        }
    }
}

fn special_char(c: char) -> (r: bool)
    ensures
        r == spec_special_char(c),
{
    c == '#' || c == '[' || c == ']' || c == '{' || c == '}' || c == '&' || c == '*' || c == '!'
        || c == '|' || c == '>' || c == '\'' || c == '"' || c == '%' || c == '@' || c == '`'
}

fn has_special_char(v: &Vec<char>) -> (r: bool)
    ensures
        r == exists|i: int| 0 <= i < v@.len() && spec_special_char(#[trigger] v@[i]),
{
    let mut i: usize = 0;
    while i < v.len()
        invariant
            0 <= i <= v@.len(),
            forall|j: int| 0 <= j < i ==> !spec_special_char(#[trigger] v@[j]),
        decreases v@.len() - i,
    {
        if special_char(v[i]) {
            return true;
        }
        i = i + 1;
    }
    false
}

impl ScalarAnalysis {
    /// Analyze a scalar's content, as `spec_analyze` describes.
    pub fn new(scalar: &Vec<char>) -> (r: ScalarAnalysis)
        ensures
            r == spec_analyze(scalar@),
    {
        if scalar.len() == 0 {
            return ScalarAnalysis {
                empty: true,
                multiline: false,
                allow_flow_plain: false,
                allow_block_plain: true,
                allow_single_quoted: true,
                allow_double_quoted: true,
                allow_block: false,
            };
        }
        let multiline = crate::chars::contains_char(scalar, '\n');
        let has_special = has_special_char(scalar);
        let c0 = scalar[0];
        let starts_ind = special_char(c0) || c0 == '-' || c0 == '?' || c0 == ':' || c0 == ',';
        let edge_space = scalar[0] == ' ' || scalar[scalar.len() - 1] == ' ';
        let plain = !multiline && !has_special && !starts_ind && !edge_space;
        ScalarAnalysis {
            empty: false,
            multiline,
            allow_flow_plain: plain,
            allow_block_plain: plain,
            allow_single_quoted: !crate::chars::contains_char(scalar, '\'') && !edge_space,
            allow_double_quoted: true,
            allow_block: !edge_space && multiline,
        }
    }
}

/// The five scalar representation styles.
#[derive(Debug, Clone, Copy, PartialEq, Eq, Structural)]
pub enum ScalarStyle {
    Plain,
    SingleQuoted,
    DoubleQuoted,
    Literal,
    Folded,
}

/// The style chosen for a scalar, in priority order: canonical mode forces
/// double quotes; a tag naming a literal or folded block style wins next;
/// plain is preferred outside a key position; literal serves multiline
/// content outside flow context; single quotes come before the double-quote
/// fallback.
pub open spec fn spec_choose_style(
    a: ScalarAnalysis,
    tag: Seq<char>,
    canonical: bool,
    simple_key_context: bool,
    flow_active: bool,
) -> ScalarStyle {
    if canonical {
        ScalarStyle::DoubleQuoted
    } else if crate::chars::spec_contains_seq(tag, "literal"@) {
        ScalarStyle::Literal
    } else if crate::chars::spec_contains_seq(tag, "folded"@) {
        ScalarStyle::Folded
    } else if a.allow_flow_plain && !simple_key_context {
        ScalarStyle::Plain
    } else if a.multiline && a.allow_block && !flow_active && !simple_key_context {
        ScalarStyle::Literal
    } else if a.allow_single_quoted && !a.multiline {
        ScalarStyle::SingleQuoted
    } else {
        ScalarStyle::DoubleQuoted
    }
}

/// Whether a container is emitted in flow style: canonical mode forces
/// block; an explicit preference wins; otherwise empty containers, scalar
/// sequences of at most five items and scalar-to-scalar mappings of at most
/// three pairs auto-detect as flow.
pub open spec fn spec_flow_style(v: NodeValueV, cfg: EmitCfg) -> bool {
    if cfg.canonical {
        false
    } else {
        match cfg.default_flow_style {
            Some(d) => d,
            None => match v {
                NodeValueV::Sequence(items) => {
                    if items.len() == 0 {
                        true
                    } else {
                        items.len() <= 5 && (forall|i: int|
                            0 <= i < items.len() ==> (#[trigger] items[i].value) is Scalar)
                    }
                },
                NodeValueV::Mapping(pairs) => {
                    if pairs.len() == 0 {
                        true
                    } else {
                        pairs.len() <= 3 && (forall|i: int|
                            0 <= i < pairs.len() ==> (#[trigger] pairs[i].0.value) is Scalar
                                && pairs[i].1.value is Scalar)
                    }
                },
                NodeValueV::Scalar(_) => false,
            },
        }
    }
}

/// Whether a node is simple enough to stand inline after a key or a dash: a
/// short single-line scalar, or an empty container.
pub open spec fn spec_simple_node(n: NodeV) -> bool {
    match n.value {
        NodeValueV::Scalar(s) => s.len() < 64 && !crate::chars::spec_contains_char(s, '\n'),
        NodeValueV::Sequence(items) => items.len() == 0,
        NodeValueV::Mapping(pairs) => pairs.len() == 0,
    }
}

/// The tag text written before a value: empty tags and the plain string tag
/// are suppressed; the `!` handle passes through; a tag under a known prefix
/// is shortened to its handle; anything else is written verbatim.
pub open spec fn spec_prepare_tag(tag: Seq<char>) -> Seq<char> {
    if tag.len() == 0 {
        Seq::empty()
    } else if tag == "!"@ {
        tag
    } else if spec_starts_bang(tag) {
        tag
    } else if crate::chars::spec_starts_with(tag, tag_prefix()) && tag_prefix().len() < tag.len() {
        "!!"@ + tag.subrange(tag_prefix().len() as int, tag.len() as int)
    } else {
        "!<"@ + tag + ">"@
    }
}

/// Whether the tag begins with the generic `!` handle.
pub open spec fn spec_starts_bang(tag: Seq<char>) -> bool {
    tag.len() >= 1 && tag[0] == '!'
}

/// The escape of one character inside a double-quoted scalar.
pub open spec fn spec_escape_char(c: char) -> Seq<char> {
    if c == '"' {
        "\\\""@
    } else if c == '\\' {
        "\\\\"@
    } else if c == '\n' {
        "\\n"@
    } else if c == '\r' {
        "\\r"@
    } else if c == '\t' {
        "\\t"@
    } else if spec_is_control(c) {
        "\\u"@ + spec_hex4((c as u32) as int)
    } else {
        seq![c]
    }
}

/// Control characters escaped as `\uXXXX`: the two Unicode control blocks.
pub open spec fn spec_is_control(c: char) -> bool {
    (c as u32) < 0x20 || (0x7f <= (c as u32) && (c as u32) <= 0x9f)
}

/// One lowercase hex digit.
pub open spec fn spec_hex_digit(n: int) -> char {
    if n == 0 {
        '0'
    } else if n == 1 {
        '1'
    } else if n == 2 {
        '2'
    } else if n == 3 {
        '3'
    } else if n == 4 {
        '4'
    } else if n == 5 {
        '5'
    } else if n == 6 {
        '6'
    } else if n == 7 {
        '7'
    } else if n == 8 {
        '8'
    } else if n == 9 {
        '9'
    } else if n == 10 {
        'a'
    } else if n == 11 {
        'b'
    } else if n == 12 {
        'c'
    } else if n == 13 {
        'd'
    } else if n == 14 {
        'e'
    } else {
        'f'
    }
}

/// Four lowercase hex digits of a code point.
pub open spec fn spec_hex4(n: int) -> Seq<char> {
    seq![
        spec_hex_digit((n / 4096) % 16),
        spec_hex_digit((n / 256) % 16),
        spec_hex_digit((n / 16) % 16),
        spec_hex_digit(n % 16),
    ]
}

/// The double-quoted escape of a whole scalar.
pub open spec fn spec_escape_double(s: Seq<char>) -> Seq<char>
    decreases s.len(),
{
    if s.len() == 0 {
        Seq::empty()
    } else {
        spec_escape_double(s.drop_last()) + spec_escape_char(s.last())
    }
}

/// The single-quoted escape: every quote is doubled.
pub open spec fn spec_escape_single(s: Seq<char>) -> Seq<char>
    decreases s.len(),
{
    if s.len() == 0 {
        Seq::empty()
    } else {
        spec_escape_single(s.drop_last()) + (if s.last() == '\'' {
            "''"@
        } else {
            seq![s.last()]
        })
    }
}

fn hex_digit(n: u32) -> (r: char)
    requires
        n < 16,
    ensures
        r == spec_hex_digit(n as int),
{
    if n == 0 {
        '0'
    } else if n == 1 {
        '1'
    } else if n == 2 {
        '2'
    } else if n == 3 {
        '3'
    } else if n == 4 {
        '4'
    } else if n == 5 {
        '5'
    } else if n == 6 {
        '6'
    } else if n == 7 {
        '7'
    } else if n == 8 {
        '8'
    } else if n == 9 {
        '9'
    } else if n == 10 {
        'a'
    } else if n == 11 {
        'b'
    } else if n == 12 {
        'c'
    } else if n == 13 {
        'd'
    } else if n == 14 {
        'e'
    } else {
        'f'
    }
}

/// The double-quoted escape of a scalar, as `spec_escape_double` describes.
pub fn escape_double(v: &Vec<char>) -> (r: Vec<char>)
    ensures
        r@ == spec_escape_double(v@),
{
    let mut r: Vec<char> = Vec::new();
    let mut i: usize = 0;
    proof {
        assert(v@.subrange(0, 0) =~= Seq::<char>::empty());
    }
    while i < v.len()
        invariant
            0 <= i <= v@.len(),
            r@ == spec_escape_double(v@.subrange(0, i as int)),
        decreases v@.len() - i,
    {
        let ghost pre = v@.subrange(0, i as int);
        let ghost post = v@.subrange(0, i + 1);
        let ghost r0 = r@;
        let c = v[i];
        if c == '"' {
            r.push('\\');
            r.push('"');
        } else if c == '\\' {
            r.push('\\');
            r.push('\\');
        } else if c == '\n' {
            r.push('\\');
            r.push('n');
        } else if c == '\r' {
            r.push('\\');
            r.push('r');
        } else if c == '\t' {
            r.push('\\');
            r.push('t');
        } else {
            let code = c as u32;
            if code < 0x20 || (0x7f <= code && code <= 0x9f) {
                r.push('\\');
                r.push('u');
                r.push(hex_digit((code / 4096) % 16));
                r.push(hex_digit((code / 256) % 16));
                r.push(hex_digit((code / 16) % 16));
                r.push(hex_digit(code % 16));
            } else {
                r.push(c);
            }
        }
        proof {
            assert(post.drop_last() =~= pre);
            assert(post.last() == v@[i as int]);
            reveal_strlit("\\\"");
            reveal_strlit("\\\\");
            reveal_strlit("\\n");
            reveal_strlit("\\r");
            reveal_strlit("\\t");
            reveal_strlit("\\u");
            assert("\\\""@ =~= seq!['\\', '"']);
            assert("\\\\"@ =~= seq!['\\', '\\']);
            assert("\\n"@ =~= seq!['\\', 'n']);
            assert("\\r"@ =~= seq!['\\', 'r']);
            assert("\\t"@ =~= seq!['\\', 't']);
            assert("\\u"@ =~= seq!['\\', 'u']);
            assert(spec_escape_double(post) == spec_escape_double(pre) + spec_escape_char(
                post.last(),
            ));
            assert(r@ =~= r0 + spec_escape_char(post.last()));
            assert(r@ =~= spec_escape_double(post));
        }
        i = i + 1;
    }
    proof {
        assert(v@.subrange(0, v@.len() as int) == v@);
    }
    r
}

/// The single-quoted escape of a scalar, as `spec_escape_single` describes.
pub fn escape_single(v: &Vec<char>) -> (r: Vec<char>)
    ensures
        r@ == spec_escape_single(v@),
{
    let mut r: Vec<char> = Vec::new();
    let mut i: usize = 0;
    proof {
        assert(v@.subrange(0, 0) =~= Seq::<char>::empty());
    }
    while i < v.len()
        invariant
            0 <= i <= v@.len(),
            r@ == spec_escape_single(v@.subrange(0, i as int)),
        decreases v@.len() - i,
    {
        let ghost pre = v@.subrange(0, i as int);
        let ghost post = v@.subrange(0, i + 1);
        let c = v[i];
        if c == '\'' {
            r.push('\'');
            r.push('\'');
        } else {
            r.push(c);
        }
        proof {
            assert(post.drop_last() =~= pre);
            assert(post.last() == v@[i as int]);
            reveal_strlit("''");
            assert(r@ =~= spec_escape_single(post));
        }
        i = i + 1;
    }
    proof {
        assert(v@.subrange(0, v@.len() as int) == v@);
    }
    r
}

/// Write the tag of a node before its value: suppressed for empty tags and
/// the plain string tag, else the prepared form and a space.
pub open spec fn spec_process_tag(st: EmitSt, tag: Seq<char>) -> EmitSt {
    if tag.len() > 0 && tag != tag_str() {
        let pt = spec_prepare_tag(tag);
        if pt.len() > 0 {
            spec_write(spec_write_indicator(st, pt, true, false), " "@)
        } else {
            st
        }
    } else {
        st
    }
}

/// Emit one scalar: its tag, then its text in the chosen style.
pub open spec fn spec_emit_scalar(
    cfg: EmitCfg,
    st: EmitSt,
    tag: Seq<char>,
    s: Seq<char>,
    simple_key: bool,
) -> EmitSt {
    let st1 = spec_process_tag(st, tag);
    let a = spec_analyze(s);
    match spec_choose_style(a, tag, cfg.canonical, simple_key, st1.flow_level > 0) {
        ScalarStyle::Plain => spec_write(st1, s),
        ScalarStyle::SingleQuoted => spec_write_indicator(
            spec_write(spec_write_indicator(st1, "'"@, true, false), spec_escape_single(s)),
            "'"@,
            false,
            false,
        ),
        ScalarStyle::DoubleQuoted => spec_write_indicator(
            spec_write(spec_write_indicator(st1, "\""@, true, false), spec_escape_double(s)),
            "\""@,
            false,
            false,
        ),
        ScalarStyle::Literal => spec_write_block(st1, "|"@, s),
        ScalarStyle::Folded => spec_write_block(st1, ">"@, s),
    }
}

/// Emit a block scalar: the indicator, a line break, then each line of the
/// content indented on its own line.
pub open spec fn spec_write_block(st: EmitSt, indicator: Seq<char>, s: Seq<char>) -> EmitSt {
    let st1 = spec_write_line_break(spec_write_indicator(st, indicator, true, false));
    spec_write_block_lines(st1, spec_split_lines(s), 0)
}

pub open spec fn spec_write_block_lines(st: EmitSt, lines: Seq<Seq<char>>, i: int) -> EmitSt
    decreases lines.len() - i,
{
    if !(0 <= i < lines.len()) {
        st
    } else {
        let st1 = spec_write_line_break(spec_write(spec_write_indent(st), lines[i]));
        spec_write_block_lines(st1, lines, i + 1)
    }
}

/// Emit one node: dispatch on its content.
pub open spec fn spec_emit_node(cfg: EmitCfg, st: EmitSt, n: NodeV, simple_key: bool) -> EmitSt
    decreases n,
{
    spec_emit_value(cfg, st, n.tag, n.value, simple_key)
}

/// Emit a node's content: scalars in their chosen style, containers in flow
/// or block layout as `spec_flow_style` decides.
pub open spec fn spec_emit_value(
    cfg: EmitCfg,
    st: EmitSt,
    tag: Seq<char>,
    v: NodeValueV,
    simple_key: bool,
) -> EmitSt
    decreases v,
{
    match v {
        NodeValueV::Scalar(s) => spec_emit_scalar(cfg, st, tag, s, simple_key),
        NodeValueV::Sequence(items) => {
            if spec_flow_style(NodeValueV::Sequence(items), cfg) {
                spec_emit_flow_seq(cfg, st, items)
            } else {
                spec_emit_block_seq(cfg, st, items)
            }
        },
        NodeValueV::Mapping(pairs) => {
            if spec_flow_style(NodeValueV::Mapping(pairs), cfg) {
                spec_emit_flow_map(cfg, st, pairs)
            } else {
                spec_emit_block_map(cfg, st, pairs)
            }
        },
    }
}

/// Emit a flow sequence: `[`, the items separated by commas, `]`.
pub open spec fn spec_emit_flow_seq(cfg: EmitCfg, st: EmitSt, items: Seq<NodeV>) -> EmitSt
    decreases items, 1int,
{
    let st1 = spec_write_indicator(st, "["@, true, true);
    let st2 = EmitSt { flow_level: sat_add(st1.flow_level, 1), ..st1 };
    let st3 = spec_increase_indent(st2, cfg, true);
    let st4 = spec_emit_flow_seq_items(cfg, st3, items, 0);
    let st5 = EmitSt {
        flow_level: if st4.flow_level > 0 {
            st4.flow_level - 1
        } else {
            0
        },
        ..st4
    };
    let st6 = spec_decrease_indent(st5);
    spec_write_indicator(st6, "]"@, false, false)
}

pub open spec fn spec_emit_flow_seq_items(
    cfg: EmitCfg,
    st: EmitSt,
    items: Seq<NodeV>,
    i: int,
) -> EmitSt
    decreases items, 0int, items.len() - i,
{
    if !(0 <= i < items.len()) {
        st
    } else {
        let st1 = if i > 0 {
            let sta = spec_write_indicator(st, ","@, false, false);
            if cfg.canonical || sta.column > cfg.width {
                spec_write_indent(sta)
            } else {
                spec_write(sta, " "@)
            }
        } else {
            st
        };
        let st2 = spec_emit_node(cfg, st1, items[i], false);
        spec_emit_flow_seq_items(cfg, st2, items, i + 1)
    }
}

/// Emit a block sequence: one dash-led line per item; a simple item shares
/// the dash's line.
pub open spec fn spec_emit_block_seq(cfg: EmitCfg, st: EmitSt, items: Seq<NodeV>) -> EmitSt
    decreases items, 1int,
{
    let st1 = spec_increase_indent(st, cfg, false);
    let st2 = spec_emit_block_seq_items(cfg, st1, items, 0);
    spec_decrease_indent(st2)
}

pub open spec fn spec_emit_block_seq_items(
    cfg: EmitCfg,
    st: EmitSt,
    items: Seq<NodeV>,
    i: int,
) -> EmitSt
    decreases items, 0int, items.len() - i,
{
    if !(0 <= i < items.len()) {
        st
    } else {
        let st1 = spec_write_indicator(spec_write_indent(st), "-"@, true, false);
        let st2 = if spec_simple_node(items[i]) {
            spec_emit_node(cfg, spec_write(st1, " "@), items[i], false)
        } else {
            spec_emit_node(cfg, spec_write_line_break(st1), items[i], false)
        };
        spec_emit_block_seq_items(cfg, st2, items, i + 1)
    }
}

/// Emit one flow mapping pair: a simple key inline with a colon, a complex
/// key behind a `?` indicator.
pub open spec fn spec_emit_flow_pair(cfg: EmitCfg, st: EmitSt, p: (NodeV, NodeV)) -> EmitSt
    decreases p,
{
    if spec_simple_node(p.0) {
        let st1 = spec_emit_node(cfg, st, p.0, true);
        let st2 = spec_write(spec_write_indicator(st1, ":"@, false, false), " "@);
        spec_emit_node(cfg, st2, p.1, false)
    } else {
        let st1 = spec_write(spec_write_indicator(st, "?"@, true, false), " "@);
        let st2 = spec_emit_node(cfg, st1, p.0, false);
        let st3 = spec_write(
            spec_write_indicator(spec_write_indent(st2), ":"@, true, false),
            " "@,
        );
        spec_emit_node(cfg, st3, p.1, false)
    }
}

/// Emit a flow mapping: `{`, the pairs separated by commas, `}`.
pub open spec fn spec_emit_flow_map(cfg: EmitCfg, st: EmitSt, pairs: Seq<(NodeV, NodeV)>) -> EmitSt
    decreases pairs, 1int,
{
    let st1 = spec_write_indicator(st, "{"@, true, true);
    let st2 = EmitSt { flow_level: sat_add(st1.flow_level, 1), ..st1 };
    let st3 = spec_increase_indent(st2, cfg, true);
    let st4 = spec_emit_flow_map_pairs(cfg, st3, pairs, 0);
    let st5 = EmitSt {
        flow_level: if st4.flow_level > 0 {
            st4.flow_level - 1
        } else {
            0
        },
        ..st4
    };
    let st6 = spec_decrease_indent(st5);
    spec_write_indicator(st6, "}"@, false, false)
}

pub open spec fn spec_emit_flow_map_pairs(
    cfg: EmitCfg,
    st: EmitSt,
    pairs: Seq<(NodeV, NodeV)>,
    i: int,
) -> EmitSt
    decreases pairs, 0int, pairs.len() - i,
{
    if !(0 <= i < pairs.len()) {
        st
    } else {
        let st1 = if i > 0 {
            let sta = spec_write_indicator(st, ","@, false, false);
            if cfg.canonical || sta.column > cfg.width {
                spec_write_indent(sta)
            } else {
                spec_write(sta, " "@)
            }
        } else {
            st
        };
        let st2 = spec_emit_flow_pair(cfg, st1, pairs[i]);
        spec_emit_flow_map_pairs(cfg, st2, pairs, i + 1)
    }
}

/// Emit one block mapping pair, on its own indented line.
pub open spec fn spec_emit_block_pair(cfg: EmitCfg, st: EmitSt, p: (NodeV, NodeV)) -> EmitSt
    decreases p,
{
    let st0 = spec_write_indent(st);
    if spec_simple_node(p.0) {
        let st1 = spec_emit_node(cfg, st0, p.0, true);
        let st2 = spec_write_indicator(st1, ":"@, false, false);
        if spec_simple_node(p.1) {
            spec_emit_node(cfg, spec_write(st2, " "@), p.1, false)
        } else {
            spec_emit_node(cfg, spec_write_line_break(st2), p.1, false)
        }
    } else {
        let st1 = spec_write(spec_write_indicator(st0, "?"@, true, false), " "@);
        let st2 = spec_emit_node(cfg, st1, p.0, false);
        let st3 = spec_write(
            spec_write_indicator(spec_write_indent(st2), ":"@, true, false),
            " "@,
        );
        spec_emit_node(cfg, st3, p.1, false)
    }
}

/// Emit a block mapping: one `key: value` line per pair.
pub open spec fn spec_emit_block_map(cfg: EmitCfg, st: EmitSt, pairs: Seq<(NodeV, NodeV)>) -> EmitSt
    decreases pairs, 1int,
{
    let st1 = spec_increase_indent(st, cfg, false);
    let st2 = spec_emit_block_map_pairs(cfg, st1, pairs, 0);
    spec_decrease_indent(st2)
}

pub open spec fn spec_emit_block_map_pairs(
    cfg: EmitCfg,
    st: EmitSt,
    pairs: Seq<(NodeV, NodeV)>,
    i: int,
) -> EmitSt
    decreases pairs, 0int, pairs.len() - i,
{
    if !(0 <= i < pairs.len()) {
        st
    } else {
        let st1 = spec_emit_block_pair(cfg, st, pairs[i]);
        spec_emit_block_map_pairs(cfg, st1, pairs, i + 1)
    }
}

/// Emit one document: the `---` marker unless already in root context, the
/// node, and a final line break.
pub open spec fn spec_emit_document(cfg: EmitCfg, st: EmitSt, n: NodeV, root_context: bool) -> EmitSt {
    let st1 = if !root_context {
        spec_write_line_break(spec_write_indicator(st, "---"@, true, false))
    } else {
        st
    };
    let st2 = spec_emit_node(cfg, st1, n, false);
    spec_write_line_break(st2)
}

/// The state of a fresh emitter.
pub open spec fn spec_fresh_state() -> EmitSt {
    EmitSt {
        out: Seq::empty(),
        column: 0,
        line: 0,
        whitespace: true,
        indention: true,
        indents: Seq::empty(),
        flow_level: 0,
    }
}

/// The default configuration: two-space indent, eighty columns, no
/// canonical mode, auto-detected flow style.
pub open spec fn spec_default_cfg() -> EmitCfg {
    EmitCfg { indent: 2, width: 80, canonical: false, default_flow_style: None }
}

/// The emitter: an output buffer, formatting configuration, and the
/// position, indent and context bookkeeping that drives indicator placement.
pub struct Emitter {
    out: Vec<char>,
    indent: usize,
    width: usize,
    canonical: bool,
    allow_unicode: bool,
    default_flow_style: Option<bool>,
    indents: Vec<usize>,
    flow_level: usize,
    line: usize,
    column: usize,
    whitespace: bool,
    indention: bool,
    root_context: bool,
    sequence_context: bool,
    mapping_context: bool,
    simple_key_context: bool,
}

impl Emitter {
    /// The mutable emission state of this emitter.
    pub closed spec fn st(&self) -> EmitSt {
        EmitSt {
            out: self.out@,
            column: self.column as int,
            line: self.line as int,
            whitespace: self.whitespace,
            indention: self.indention,
            indents: self.indents@.map_values(|x: usize| x as int),
            flow_level: self.flow_level as int,
        }
    }

    /// The fixed configuration of this emitter.
    pub closed spec fn cfg(&self) -> EmitCfg {
        EmitCfg {
            indent: self.indent as int,
            width: self.width as int,
            canonical: self.canonical,
            default_flow_style: self.default_flow_style,
        }
    }

    /// Whether the emitter believes it stands in root context, which
    /// suppresses the document start marker.
    pub closed spec fn in_root_context(&self) -> bool {
        self.root_context
    }

    spec fn same_cfg(a: &Emitter, b: &Emitter) -> bool {
        &&& b.indent == a.indent
        &&& b.width == a.width
        &&& b.canonical == a.canonical
        &&& b.allow_unicode == a.allow_unicode
        &&& b.default_flow_style == a.default_flow_style
    }

    spec fn same_ctx(a: &Emitter, b: &Emitter) -> bool {
        &&& b.root_context == a.root_context
        &&& b.sequence_context == a.sequence_context
        &&& b.mapping_context == a.mapping_context
        &&& b.simple_key_context == a.simple_key_context
    }

    /// A fresh emitter with the default configuration.
    pub fn new() -> (r: Emitter)
        ensures
            r.st() == spec_fresh_state(),
            r.cfg() == spec_default_cfg(),
            !r.in_root_context(),
    {
        let r = Emitter {
            out: Vec::new(),
            indent: 2,
            width: 80,
            canonical: false,
            allow_unicode: true,
            default_flow_style: None,
            indents: Vec::new(),
            flow_level: 0,
            line: 0,
            column: 0,
            whitespace: true,
            indention: true,
            root_context: false,
            sequence_context: false,
            mapping_context: false,
            simple_key_context: false,
        };
        proof {
            assert(r.st().out =~= spec_fresh_state().out);
            assert(r.st().indents =~= spec_fresh_state().indents);
            assert(r.st() == spec_fresh_state());
        }
        r
    }

    /// Set the indentation width, clamped to 2 through 9.
    pub fn with_indent(self, indent: usize) -> (r: Emitter)
        ensures
            r.st() == self.st(),
            r.cfg() == (EmitCfg { indent: spec_clamp_indent(indent as int), ..self.cfg() }),
            r.in_root_context() == self.in_root_context(),
    {
        let mut e = self;
        e.indent = if indent < 2 {
            2
        } else if indent > 9 {
            9
        } else {
            indent
        };
        e
    }

    /// Set the maximum line width; a width not above twice the indent falls
    /// back to 80.
    pub fn with_width(self, width: usize) -> (r: Emitter)
        ensures
            r.st() == self.st(),
            r.cfg() == (EmitCfg {
                width: spec_pick_width(width as int, self.cfg().indent),
                ..self.cfg()
            }),
            r.in_root_context() == self.in_root_context(),
    {
        let mut e = self;
        let twice = sat_add_usize(e.indent, e.indent);
        e.width = if width > twice {
            width
        } else {
            80
        };
        e
    }

    /// Switch canonical mode, which forces double-quoted scalars and block
    /// containers.
    pub fn with_canonical(self, canonical: bool) -> (r: Emitter)
        ensures
            r.st() == self.st(),
            r.cfg() == (EmitCfg { canonical, ..self.cfg() }),
            r.in_root_context() == self.in_root_context(),
    {
        let mut e = self;
        e.canonical = canonical;
        e
    }

    /// Set the flow-style preference: `None` auto-detects per container.
    pub fn with_default_flow_style(self, flow_style: Option<bool>) -> (r: Emitter)
        ensures
            r.st() == self.st(),
            r.cfg() == (EmitCfg { default_flow_style: flow_style, ..self.cfg() }),
            r.in_root_context() == self.in_root_context(),
    {
        let mut e = self;
        e.default_flow_style = flow_style;
        e
    }

    fn push_out(&mut self, data: &Vec<char>)
        ensures
            final(self).out@ == old(self).out@ + data@,
            final(self).column as int == sat_add(old(self).column as int, data@.len() as int),
            final(self).line == old(self).line,
            final(self).whitespace == old(self).whitespace,
            final(self).indention == old(self).indention,
            final(self).indents == old(self).indents,
            final(self).flow_level == old(self).flow_level,
            Self::same_cfg(old(self), final(self)),
            Self::same_ctx(old(self), final(self)),
    {
        let ghost out0 = self.out@;
        let ghost d = data@;
        let mut i: usize = 0;
        proof {
            assert(out0 + d.subrange(0, 0) =~= out0);
        }
        while i < data.len()
            invariant
                0 <= i <= d.len(),
                d == data@,
                self.out@ == out0 + d.subrange(0, i as int),
                self.column == old(self).column,
                self.line == old(self).line,
                self.whitespace == old(self).whitespace,
                self.indention == old(self).indention,
                self.indents == old(self).indents,
                self.flow_level == old(self).flow_level,
                Self::same_cfg(old(self), self),
                Self::same_ctx(old(self), self),
            decreases d.len() - i,
        {
            self.out.push(data[i]);
            proof {
                assert(out0 + d.subrange(0, i + 1) =~= (out0 + d.subrange(0, i as int)).push(
                    d[i as int],
                ));
            }
            i = i + 1;
        }
        self.column = sat_add_usize(self.column, data.len());
        proof {
            assert(d.subrange(0, d.len() as int) == d);
        }
    }

    fn write_chars(&mut self, data: Vec<char>)
        ensures
            final(self).st() == spec_write(old(self).st(), data@),
            Self::same_cfg(old(self), final(self)),
            Self::same_ctx(old(self), final(self)),
    {
        let ends_space = data.len() > 0 && data[data.len() - 1] == ' ';
        self.push_out(&data);
        self.whitespace = ends_space;
    }

    fn write(&mut self, data: &str)
        ensures
            final(self).st() == spec_write(old(self).st(), data@),
            Self::same_cfg(old(self), final(self)),
            Self::same_ctx(old(self), final(self)),
    {
        let chars = str_to_chars(data);
        self.write_chars(chars);
    }

    fn write_indicator_chars(&mut self, indicator: Vec<char>, need_whitespace: bool, whitespace: bool)
        ensures
            final(self).st() == spec_write_indicator(
                old(self).st(),
                indicator@,
                need_whitespace,
                whitespace,
            ),
            Self::same_cfg(old(self), final(self)),
            Self::same_ctx(old(self), final(self)),
    {
        let ghost st0 = self.st();
        let all_sp = all_spaces_vec(&indicator);
        let mut data: Vec<char> = Vec::new();
        if !(self.whitespace || !need_whitespace) {
            data.push(' ');
        }
        crate::chars::append_to(&mut data, &indicator);
        proof {
            reveal_strlit(" ");
            if st0.whitespace || !need_whitespace {
                assert(data@ =~= indicator@);
            } else {
                assert(data@ =~= " "@ + indicator@);
            }
        }
        self.push_out(&data);
        self.whitespace = whitespace;
        self.indention = self.indention && all_sp;
        proof {
            assert(final(self).st() == spec_write_indicator(
                st0,
                indicator@,
                need_whitespace,
                whitespace,
            ));
        }
    }

    fn write_indicator(&mut self, indicator: &str, need_whitespace: bool, whitespace: bool)
        ensures
            final(self).st() == spec_write_indicator(
                old(self).st(),
                indicator@,
                need_whitespace,
                whitespace,
            ),
            Self::same_cfg(old(self), final(self)),
            Self::same_ctx(old(self), final(self)),
    {
        let chars = str_to_chars(indicator);
        self.write_indicator_chars(chars, need_whitespace, whitespace);
    }

    fn write_line_break(&mut self)
        ensures
            final(self).st() == spec_write_line_break(old(self).st()),
            Self::same_cfg(old(self), final(self)),
            Self::same_ctx(old(self), final(self)),
    {
        self.out.push('\n');
        self.whitespace = true;
        self.indention = true;
        self.line = sat_add_usize(self.line, 1);
        self.column = 0;
        proof {
            reveal_strlit("\n");
            assert(final(self).st().out =~= spec_write_line_break(old(self).st()).out);
        }
    }

    fn current_indent(&self) -> (r: usize)
        ensures
            r as int == spec_current_indent(self.st()),
    {
        if self.indents.len() > 0 {
            let ghost m = self.indents@.map_values(|x: usize| x as int);
            proof {
                assert(m.last() == self.indents@.last() as int);
            }
            self.indents[self.indents.len() - 1]
        } else {
            0
        }
    }

    fn write_indent(&mut self)
        ensures
            final(self).st() == spec_write_indent(old(self).st()),
            Self::same_cfg(old(self), final(self)),
            Self::same_ctx(old(self), final(self)),
    {
        let indent = self.current_indent();
        if !self.indention || self.column > indent {
            self.write_line_break();
        }
        if self.column < indent {
            let n = indent - self.column;
            let mut sp: Vec<char> = Vec::new();
            let mut i: usize = 0;
            while i < n
                invariant
                    0 <= i <= n,
                    sp@.len() == i,
                    forall|j: int| 0 <= j < i ==> #[trigger] sp@[j] == ' ',
                decreases n - i,
            {
                sp.push(' ');
                i = i + 1;
            }
            proof {
                assert(sp@ =~= spec_spaces(n as int));
            }
            self.write_chars(sp);
        }
    }

    fn increase_indent(&mut self, flow: bool)
        ensures
            final(self).st() == spec_increase_indent(old(self).st(), old(self).cfg(), flow),
            Self::same_cfg(old(self), final(self)),
            Self::same_ctx(old(self), final(self)),
    {
        let cur = self.current_indent();
        let ghost m0 = self.indents@.map_values(|x: usize| x as int);
        self.indents.push(cur);
        proof {
            assert(self.indents@.map_values(|x: usize| x as int) =~= m0.push(cur as int));
        }
        let step = if flow {
            2
        } else {
            self.indent
        };
        let deeper = sat_add_usize(cur, step);
        let ghost m1 = self.indents@.map_values(|x: usize| x as int);
        self.indents.push(deeper);
        proof {
            assert(self.indents@.map_values(|x: usize| x as int) =~= m1.push(deeper as int));
        }
    }

    fn decrease_indent(&mut self)
        ensures
            final(self).st() == spec_decrease_indent(old(self).st()),
            Self::same_cfg(old(self), final(self)),
            Self::same_ctx(old(self), final(self)),
    {
        if self.indents.len() > 0 {
            let ghost m0 = self.indents@.map_values(|x: usize| x as int);
            self.indents.pop();
            proof {
                assert(self.indents@.map_values(|x: usize| x as int) =~= m0.drop_last());
            }
        }
    }

    fn flow_level_active(&self) -> (r: bool)
        ensures
            r == (self.st().flow_level > 0),
    {
        self.flow_level > 0
    }
}

fn all_spaces_vec(v: &Vec<char>) -> (r: bool)
    ensures
        r == spec_all_spaces(v@),
{
    let mut i: usize = 0;
    while i < v.len()
        invariant
            0 <= i <= v@.len(),
            forall|j: int| 0 <= j < i ==> #[trigger] v@[j] == ' ',
        decreases v@.len() - i,
    {
        if v[i] != ' ' {
            return false;
        }
        i = i + 1;
    }
    true
}

/// The tag text to write for a node, as `spec_prepare_tag` describes.
fn prepare_tag(tag: &Vec<char>) -> (r: Vec<char>)
    ensures
        r@ == spec_prepare_tag(tag@),
{
    if tag.len() == 0 {
        return Vec::new();
    }
    if crate::chars::eq_lit(tag, "!") {
        return crate::chars::subvec(tag, 0, tag.len());
    }
    if tag[0] == '!' {
        proof {
            assert(tag@.subrange(0, tag@.len() as int) == tag@);
        }
        return crate::chars::subvec(tag, 0, tag.len());
    }
    let prefix_len = "tag:yaml.org,2002:".unicode_len();
    if crate::chars::starts_with_lit(tag, "tag:yaml.org,2002:") && prefix_len < tag.len() {
        let suffix = crate::chars::subvec(tag, prefix_len, tag.len());
        let mut r = crate::chars::str_to_chars("!!");
        crate::chars::append_to(&mut r, &suffix);
        proof {
            assert(r@ == "!!"@ + tag@.subrange(tag_prefix().len() as int, tag@.len() as int));
        }
        r
    } else {
        let mut r = crate::chars::str_to_chars("!<");
        crate::chars::append_to(&mut r, &crate::chars::subvec(tag, 0, tag.len()));
        let close = crate::chars::str_to_chars(">");
        crate::chars::append_to(&mut r, &close);
        proof {
            assert(tag@.subrange(0, tag@.len() as int) == tag@);
            assert(r@ == "!<"@ + tag@ + ">"@);
        }
        r
    }
}

impl Emitter {
    fn process_tag(&mut self, node: &Node) -> (r: Result<(), EmitterError>)
        ensures
            r is Ok,
            final(self).st() == spec_process_tag(old(self).st(), node.tag@),
            Self::same_cfg(old(self), final(self)),
            Self::same_ctx(old(self), final(self)),
    {
        let tag_chars = str_to_chars(node_tag_str(node));
        if tag_chars.len() > 0 && !crate::chars::eq_lit(&tag_chars, "tag:yaml.org,2002:str") {
            let prepared = prepare_tag(&tag_chars);
            if prepared.len() > 0 {
                self.write_indicator_chars(prepared, true, false);
                self.write(" ");
            }
        }
        Ok(())
    }

    fn choose_scalar_style(&self, analysis: &ScalarAnalysis, node: &Node) -> (r: ScalarStyle)
        ensures
            r == spec_choose_style(
                *analysis,
                node.tag@,
                self.cfg().canonical,
                self.simple_key_context,
                self.st().flow_level > 0,
            ),
    {
        if self.canonical {
            return ScalarStyle::DoubleQuoted;
        }
        let tag_chars = str_to_chars(node_tag_str(node));
        if crate::chars::contains_lit(&tag_chars, "literal") {
            return ScalarStyle::Literal;
        }
        if crate::chars::contains_lit(&tag_chars, "folded") {
            return ScalarStyle::Folded;
        }
        if analysis.allow_flow_plain && !self.simple_key_context {
            return ScalarStyle::Plain;
        }
        if analysis.multiline && analysis.allow_block && !self.flow_level_active()
            && !self.simple_key_context {
            return ScalarStyle::Literal;
        }
        if analysis.allow_single_quoted && !analysis.multiline {
            return ScalarStyle::SingleQuoted;
        }
        ScalarStyle::DoubleQuoted
    }

    fn determine_flow_style(&self, node: &Node) -> (r: bool)
        ensures
            r == spec_flow_style(node@.value, self.cfg()),
    {
        if self.canonical {
            return false;
        }
        match self.default_flow_style {
            Some(d) => d,
            None => {
                match &node.value {
                    NodeValue::Sequence(nodes) => {
                        proof {
                            crate::composer::lemma_view_items_index(nodes@);
                        }
                        if nodes.len() == 0 {
                            return true;
                        }
                        if nodes.len() > 5 {
                            proof {
                                assert(!spec_flow_style(node@.value, self.cfg()));
                            }
                            return false;
                        }
                        let mut i: usize = 0;
                        while i < nodes.len()
                            invariant
                                0 <= i <= nodes@.len(),
                                node.value is Sequence,
                                nodes@ == node.value->Sequence_0@,
                                !self.canonical,
                                self.default_flow_style is None,
                                1 <= nodes@.len() <= 5,
                                crate::composer::view_items(nodes@).len() == nodes@.len(),
                                forall|j: int|
                                    0 <= j < i ==> (#[trigger] crate::composer::view_items(
                                        nodes@,
                                    )[j].value) is Scalar,
                                forall|j: int|
                                    0 <= j < nodes@.len()
                                        ==> #[trigger] crate::composer::view_items(nodes@)[j]
                                        == crate::composer::view_node(nodes@[j]),
                            decreases nodes@.len() - i,
                        {
                            let is_scalar = matches!(&nodes[i].value, NodeValue::Scalar(_));
                            if !is_scalar {
                                proof {
                                    let vi = crate::composer::view_items(nodes@)[i as int];
                                    assert(!(vi.value is Scalar));
                                }
                                return false;
                            }
                            i = i + 1;
                        }
                        true
                    },
                    NodeValue::Mapping(pairs) => {
                        proof {
                            crate::composer::lemma_view_pairs_index(pairs@);
                        }
                        if pairs.len() == 0 {
                            return true;
                        }
                        if pairs.len() > 3 {
                            return false;
                        }
                        let mut i: usize = 0;
                        while i < pairs.len()
                            invariant
                                0 <= i <= pairs@.len(),
                                node.value is Mapping,
                                pairs@ == node.value->Mapping_0@,
                                !self.canonical,
                                self.default_flow_style is None,
                                1 <= pairs@.len() <= 3,
                                crate::composer::view_pairs(pairs@).len() == pairs@.len(),
                                forall|j: int|
                                    0 <= j < i ==> (#[trigger] crate::composer::view_pairs(
                                        pairs@,
                                    )[j].0.value) is Scalar && crate::composer::view_pairs(
                                        pairs@,
                                    )[j].1.value is Scalar,
                                forall|j: int|
                                    0 <= j < pairs@.len()
                                        ==> #[trigger] crate::composer::view_pairs(pairs@)[j] == (
                                        crate::composer::view_node(pairs@[j].0),
                                        crate::composer::view_node(pairs@[j].1),
                                    ),
                            decreases pairs@.len() - i,
                        {
                            let k_scalar = matches!(&pairs[i].0.value, NodeValue::Scalar(_));
                            let v_scalar = matches!(&pairs[i].1.value, NodeValue::Scalar(_));
                            if !(k_scalar && v_scalar) {
                                proof {
                                    let vp = crate::composer::view_pairs(pairs@)[i as int];
                                    assert(!(vp.0.value is Scalar && vp.1.value is Scalar));
                                }
                                return false;
                            }
                            i = i + 1;
                        }
                        true
                    },
                    NodeValue::Scalar(_) => false,
                }
            },
        }
    }

    fn check_simple_node(&self, node: &Node) -> (r: bool)
        ensures
            r == spec_simple_node(node@),
    {
        match &node.value {
            NodeValue::Scalar(value) => {
                let chars = str_to_chars(value.as_str());
                chars.len() < 64 && !crate::chars::contains_char(&chars, '\n')
            },
            NodeValue::Sequence(nodes) => {
                proof {
                    crate::composer::lemma_view_items_index(nodes@);
                }
                nodes.len() == 0
            },
            NodeValue::Mapping(pairs) => {
                proof {
                    crate::composer::lemma_view_pairs_index(pairs@);
                }
                pairs.len() == 0
            },
        }
    }
}

fn node_tag_str(node: &Node) -> (r: &str)
    ensures
        r@ == node.tag@,
{
    node.tag.as_str()
}

impl Emitter {
    fn write_plain(&mut self, text: Vec<char>)
        ensures
            final(self).st() == spec_write(old(self).st(), text@),
            Self::same_cfg(old(self), final(self)),
            Self::same_ctx(old(self), final(self)),
    {
        self.write_chars(text);
    }

    fn write_single_quoted(&mut self, text: &Vec<char>)
        ensures
            final(self).st() == spec_write_indicator(
                spec_write(
                    spec_write_indicator(old(self).st(), "'"@, true, false),
                    spec_escape_single(text@),
                ),
                "'"@,
                false,
                false,
            ),
            Self::same_cfg(old(self), final(self)),
            Self::same_ctx(old(self), final(self)),
    {
        self.write_indicator("'", true, false);
        let escaped = escape_single(text);
        self.write_chars(escaped);
        self.write_indicator("'", false, false);
    }

    fn write_double_quoted(&mut self, text: &Vec<char>)
        ensures
            final(self).st() == spec_write_indicator(
                spec_write(
                    spec_write_indicator(old(self).st(), "\""@, true, false),
                    spec_escape_double(text@),
                ),
                "\""@,
                false,
                false,
            ),
            Self::same_cfg(old(self), final(self)),
            Self::same_ctx(old(self), final(self)),
    {
        self.write_indicator("\"", true, false);
        let escaped = escape_double(text);
        self.write_chars(escaped);
        self.write_indicator("\"", false, false);
    }

    fn write_block(&mut self, indicator: &str, text: &Vec<char>)
        ensures
            final(self).st() == spec_write_block(old(self).st(), indicator@, text@),
            Self::same_cfg(old(self), final(self)),
            Self::same_ctx(old(self), final(self)),
    {
        self.write_indicator(indicator, true, false);
        self.write_line_break();
        let lines = crate::chars::split_lines(text);
        let ghost lv = lines.deep_view();
        proof {
            crate::chars::lemma_lines_deep_view(&lines);
        }
        let mut i: usize = 0;
        while i < lines.len()
            invariant
                0 <= i <= lines@.len(),
                lv == lines.deep_view(),
                lv.len() == lines@.len(),
                forall|j: int| 0 <= j < lines@.len() ==> #[trigger] lines.deep_view()[j]
                    == lines@[j]@,
                spec_write_block_lines(self.st(), lv, i as int) == spec_write_block(
                    old(self).st(),
                    indicator@,
                    text@,
                ),
                Self::same_cfg(old(self), self),
                Self::same_ctx(old(self), self),
            decreases lines@.len() - i,
        {
            self.write_indent();
            let line = crate::chars::subvec(&lines[i], 0, lines[i].len());
            proof {
                assert(line@ =~= lv[i as int]);
            }
            self.write_chars(line);
            self.write_line_break();
            i = i + 1;
        }
    }

    fn emit_scalar(&mut self, node: &Node, value: &String) -> (r: Result<(), EmitterError>)
        requires
            node@.value == NodeValueV::Scalar(value@),
        ensures
            r is Ok,
            final(self).st() == spec_emit_scalar(
                old(self).cfg(),
                old(self).st(),
                node.tag@,
                value@,
                old(self).simple_key_context,
            ),
            Self::same_cfg(old(self), final(self)),
            Self::same_ctx(old(self), final(self)),
    {
        let res = self.process_tag(node);
        match res {
            Ok(()) => {},
            Err(e) => {
                return Err(e);
            },
        }
        let chars = str_to_chars(value.as_str());
        let analysis = ScalarAnalysis::new(&chars);
        let style = self.choose_scalar_style(&analysis, node);
        match style {
            ScalarStyle::Plain => self.write_plain(chars),
            ScalarStyle::SingleQuoted => self.write_single_quoted(&chars),
            ScalarStyle::DoubleQuoted => self.write_double_quoted(&chars),
            ScalarStyle::Literal => self.write_block("|", &chars),
            ScalarStyle::Folded => self.write_block(">", &chars),
        }
        Ok(())
    }

    /// Emit one node in the given contexts; the output follows
    /// `spec_emit_node` exactly.
    fn emit_node_internal(
        &mut self,
        node: &Node,
        root: bool,
        sequence: bool,
        mapping: bool,
        simple_key: bool,
    ) -> (r: Result<(), EmitterError>)
        ensures
            r is Ok,
            final(self).st() == spec_emit_node(
                old(self).cfg(),
                old(self).st(),
                node@,
                simple_key,
            ),
            Self::same_cfg(old(self), final(self)),
        decreases *node, 1int,
    {
        self.root_context = root;
        self.sequence_context = sequence;
        self.mapping_context = mapping;
        self.simple_key_context = simple_key;
        match &node.value {
            NodeValue::Scalar(value) => self.emit_scalar(node, value),
            NodeValue::Sequence(nodes) => {
                let flow_style = self.determine_flow_style(node);
                proof {
                    assert(decreases_to!(*node => node.value));
                    assert(decreases_to!(node.value => node.value->Sequence_0));
                    assert(decreases_to!(node.value->Sequence_0 => node.value->Sequence_0@));
                }
                if flow_style {
                    self.emit_flow_sequence(nodes)
                } else {
                    self.emit_block_sequence(nodes)
                }
            },
            NodeValue::Mapping(pairs) => {
                let flow_style = self.determine_flow_style(node);
                proof {
                    assert(decreases_to!(*node => node.value));
                    assert(decreases_to!(node.value => node.value->Mapping_0));
                    assert(decreases_to!(node.value->Mapping_0 => node.value->Mapping_0@));
                }
                if flow_style {
                    self.emit_flow_mapping(pairs)
                } else {
                    self.emit_block_mapping(pairs)
                }
            },
        }
    }

    fn emit_flow_sequence(&mut self, nodes: &Vec<Node>) -> (r: Result<(), EmitterError>)
        ensures
            r is Ok,
            final(self).st() == spec_emit_flow_seq(
                old(self).cfg(),
                old(self).st(),
                crate::composer::view_items(nodes@),
            ),
            Self::same_cfg(old(self), final(self)),
        decreases nodes@, 0int,
    {
        let ghost cfg = self.cfg();
        let ghost items = crate::composer::view_items(nodes@);
        proof {
            crate::composer::lemma_view_items_index(nodes@);
        }
        self.write_indicator("[", true, true);
        self.flow_level = sat_add_usize(self.flow_level, 1);
        proof {
            assert(self.st() == (EmitSt { flow_level: self.st().flow_level, ..self.st() }));
        }
        let ghost st2 = self.st();
        self.increase_indent(true);
        let ghost st3 = self.st();
        let mut i: usize = 0;
        while i < nodes.len()
            invariant
                0 <= i <= nodes@.len(),
                cfg == self.cfg(),
                items == crate::composer::view_items(nodes@),
                items.len() == nodes@.len(),
                forall|j: int|
                    0 <= j < nodes@.len() ==> #[trigger] crate::composer::view_items(nodes@)[j]
                        == crate::composer::view_node(nodes@[j]),
                spec_emit_flow_seq_items(cfg, self.st(), items, i as int)
                    == spec_emit_flow_seq_items(cfg, st3, items, 0),
                Self::same_cfg(old(self), self),
            decreases nodes@.len() - i,
        {
            if i > 0 {
                self.write_indicator(",", false, false);
                if self.canonical || self.column > self.width {
                    self.write_indent();
                } else {
                    self.write(" ");
                }
            }
            proof {
                assert(decreases_to!(nodes@ => nodes@[i as int]));
            }
            let res = self.emit_node_internal(&nodes[i], false, true, false, false);
            proof {
                assert(res is Ok);
            }
            i = i + 1;
        }
        self.flow_level = if self.flow_level > 0 {
            self.flow_level - 1
        } else {
            0
        };
        self.decrease_indent();
        self.write_indicator("]", false, false);
        Ok(())
    }

    fn emit_block_sequence(&mut self, nodes: &Vec<Node>) -> (r: Result<(), EmitterError>)
        ensures
            r is Ok,
            final(self).st() == spec_emit_block_seq(
                old(self).cfg(),
                old(self).st(),
                crate::composer::view_items(nodes@),
            ),
            Self::same_cfg(old(self), final(self)),
        decreases nodes@, 0int,
    {
        let ghost cfg = self.cfg();
        let ghost items = crate::composer::view_items(nodes@);
        proof {
            crate::composer::lemma_view_items_index(nodes@);
        }
        self.increase_indent(false);
        let ghost st1 = self.st();
        let mut i: usize = 0;
        while i < nodes.len()
            invariant
                0 <= i <= nodes@.len(),
                cfg == self.cfg(),
                items == crate::composer::view_items(nodes@),
                items.len() == nodes@.len(),
                forall|j: int|
                    0 <= j < nodes@.len() ==> #[trigger] crate::composer::view_items(nodes@)[j]
                        == crate::composer::view_node(nodes@[j]),
                spec_emit_block_seq_items(cfg, self.st(), items, i as int)
                    == spec_emit_block_seq_items(cfg, st1, items, 0),
                Self::same_cfg(old(self), self),
            decreases nodes@.len() - i,
        {
            self.write_indent();
            self.write_indicator("-", true, false);
            let simple = self.check_simple_node(&nodes[i]);
            proof {
                assert(decreases_to!(nodes@ => nodes@[i as int]));
            }
            if simple {
                self.write(" ");
                let res = self.emit_node_internal(&nodes[i], false, true, false, false);
                proof {
                    assert(res is Ok);
                }
            } else {
                self.write_line_break();
                let res = self.emit_node_internal(&nodes[i], false, true, false, false);
                proof {
                    assert(res is Ok);
                }
            }
            i = i + 1;
        }
        self.decrease_indent();
        Ok(())
    }

    fn emit_flow_mapping(&mut self, pairs: &Vec<(Node, Node)>) -> (r: Result<(), EmitterError>)
        ensures
            r is Ok,
            final(self).st() == spec_emit_flow_map(
                old(self).cfg(),
                old(self).st(),
                crate::composer::view_pairs(pairs@),
            ),
            Self::same_cfg(old(self), final(self)),
        decreases pairs@, 1int,
    {
        let ghost cfg = self.cfg();
        let ghost pv = crate::composer::view_pairs(pairs@);
        proof {
            crate::composer::lemma_view_pairs_index(pairs@);
        }
        self.write_indicator("{", true, true);
        self.flow_level = sat_add_usize(self.flow_level, 1);
        self.increase_indent(true);
        let ghost st3 = self.st();
        let mut i: usize = 0;
        while i < pairs.len()
            invariant
                0 <= i <= pairs@.len(),
                cfg == self.cfg(),
                pv == crate::composer::view_pairs(pairs@),
                pv.len() == pairs@.len(),
                forall|j: int|
                    0 <= j < pairs@.len() ==> #[trigger] crate::composer::view_pairs(pairs@)[j]
                        == (
                        crate::composer::view_node(pairs@[j].0),
                        crate::composer::view_node(pairs@[j].1),
                    ),
                spec_emit_flow_map_pairs(cfg, self.st(), pv, i as int) == spec_emit_flow_map_pairs(
                    cfg,
                    st3,
                    pv,
                    0,
                ),
                Self::same_cfg(old(self), self),
            decreases pairs@.len() - i,
        {
            if i > 0 {
                self.write_indicator(",", false, false);
                if self.canonical || self.column > self.width {
                    self.write_indent();
                } else {
                    self.write(" ");
                }
            }
            proof {
                assert(decreases_to!(pairs@ => pairs@[i as int]));
            }
            let res = self.emit_flow_pair(&pairs[i]);
            proof {
                assert(res is Ok);
            }
            i = i + 1;
        }
        self.flow_level = if self.flow_level > 0 {
            self.flow_level - 1
        } else {
            0
        };
        self.decrease_indent();
        self.write_indicator("}", false, false);
        Ok(())
    }

    fn emit_flow_pair(&mut self, pair: &(Node, Node)) -> (r: Result<(), EmitterError>)
        ensures
            r is Ok,
            final(self).st() == spec_emit_flow_pair(
                old(self).cfg(),
                old(self).st(),
                (crate::composer::view_node(pair.0), crate::composer::view_node(pair.1)),
            ),
            Self::same_cfg(old(self), final(self)),
        decreases *pair, 0int,
    {
        let simple = self.check_simple_node(&pair.0);
        proof {
            assert(decreases_to!(*pair => pair.0));
            assert(decreases_to!(*pair => pair.1));
        }
        if simple {
            let r1 = self.emit_node_internal(&pair.0, false, false, true, true);
            self.write_indicator(":", false, false);
            self.write(" ");
            let r2 = self.emit_node_internal(&pair.1, false, false, true, false);
            proof {
                assert(r1 is Ok && r2 is Ok);
            }
        } else {
            self.write_indicator("?", true, false);
            self.write(" ");
            let r1 = self.emit_node_internal(&pair.0, false, false, true, false);
            self.write_indent();
            self.write_indicator(":", true, false);
            self.write(" ");
            let r2 = self.emit_node_internal(&pair.1, false, false, true, false);
            proof {
                assert(r1 is Ok && r2 is Ok);
            }
        }
        Ok(())
    }

    fn emit_block_mapping(&mut self, pairs: &Vec<(Node, Node)>) -> (r: Result<(), EmitterError>)
        ensures
            r is Ok,
            final(self).st() == spec_emit_block_map(
                old(self).cfg(),
                old(self).st(),
                crate::composer::view_pairs(pairs@),
            ),
            Self::same_cfg(old(self), final(self)),
        decreases pairs@, 1int,
    {
        let ghost cfg = self.cfg();
        let ghost pv = crate::composer::view_pairs(pairs@);
        proof {
            crate::composer::lemma_view_pairs_index(pairs@);
        }
        self.increase_indent(false);
        let ghost st1 = self.st();
        let mut i: usize = 0;
        while i < pairs.len()
            invariant
                0 <= i <= pairs@.len(),
                cfg == self.cfg(),
                pv == crate::composer::view_pairs(pairs@),
                pv.len() == pairs@.len(),
                forall|j: int|
                    0 <= j < pairs@.len() ==> #[trigger] crate::composer::view_pairs(pairs@)[j]
                        == (
                        crate::composer::view_node(pairs@[j].0),
                        crate::composer::view_node(pairs@[j].1),
                    ),
                spec_emit_block_map_pairs(cfg, self.st(), pv, i as int)
                    == spec_emit_block_map_pairs(cfg, st1, pv, 0),
                Self::same_cfg(old(self), self),
            decreases pairs@.len() - i,
        {
            proof {
                assert(decreases_to!(pairs@ => pairs@[i as int]));
            }
            let res = self.emit_block_pair(&pairs[i]);
            proof {
                assert(res is Ok);
            }
            i = i + 1;
        }
        self.decrease_indent();
        Ok(())
    }

    fn emit_block_pair(&mut self, pair: &(Node, Node)) -> (r: Result<(), EmitterError>)
        ensures
            r is Ok,
            final(self).st() == spec_emit_block_pair(
                old(self).cfg(),
                old(self).st(),
                (crate::composer::view_node(pair.0), crate::composer::view_node(pair.1)),
            ),
            Self::same_cfg(old(self), final(self)),
        decreases *pair, 0int,
    {
        self.write_indent();
        let simple = self.check_simple_node(&pair.0);
        proof {
            assert(decreases_to!(*pair => pair.0));
            assert(decreases_to!(*pair => pair.1));
        }
        if simple {
            let r1 = self.emit_node_internal(&pair.0, false, false, true, true);
            self.write_indicator(":", false, false);
            let vsimple = self.check_simple_node(&pair.1);
            if vsimple {
                self.write(" ");
                let r2 = self.emit_node_internal(&pair.1, false, false, true, false);
                proof {
                    assert(r1 is Ok && r2 is Ok);
                }
            } else {
                self.write_line_break();
                let r2 = self.emit_node_internal(&pair.1, false, false, true, false);
                proof {
                    assert(r1 is Ok && r2 is Ok);
                }
            }
        } else {
            self.write_indicator("?", true, false);
            self.write(" ");
            let r1 = self.emit_node_internal(&pair.0, false, false, true, false);
            self.write_indent();
            self.write_indicator(":", true, false);
            self.write(" ");
            let r2 = self.emit_node_internal(&pair.1, false, false, true, false);
            proof {
                assert(r1 is Ok && r2 is Ok);
            }
        }
        Ok(())
    }

    /// Emit a whole document for `node`: the stream start (a no-op), the
    /// document marker unless in root context, the node, and the closing
    /// line break.
    pub fn emit_node(&mut self, node: &Node) -> (r: Result<(), EmitterError>)
        ensures
            r is Ok,
            final(self).st() == spec_emit_document(
                old(self).cfg(),
                old(self).st(),
                node@,
                old(self).in_root_context(),
            ),
    {
        if !self.root_context {
            self.write_indicator("---", true, false);
            self.write_line_break();
        }
        let res = self.emit_node_internal(node, true, false, false, false);
        proof {
            assert(res is Ok);
        }
        self.write_line_break();
        Ok(())
    }

    /// The text produced so far.
    pub fn output(&self) -> (r: String)
        ensures
            r@ == self.st().out,
    {
        chars_to_string(&self.out)
    }
}

/// Serialize one node to YAML text with the default configuration.
pub fn emit_to_string(node: &Node) -> (r: Result<String, EmitterError>)
    ensures
        r is Ok,
        r->Ok_0@ == spec_emit_document(spec_default_cfg(), spec_fresh_state(), node@, false).out,
{
    let mut emitter = Emitter::new();
    let res = emitter.emit_node(node);
    proof {
        assert(res is Ok);
    }
    Ok(emitter.output())
}

/// The configuration built from optional overrides, applied in the same
/// order as the builder chain: indent first, then width (which reads the
/// chosen indent), then canonical mode and flow preference.
pub open spec fn spec_cfg_with(
    indent: Option<usize>,
    width: Option<usize>,
    canonical: Option<bool>,
    default_flow_style: Option<bool>,
) -> EmitCfg {
    let c0 = spec_default_cfg();
    let c1 = match indent {
        Some(n) => EmitCfg { indent: spec_clamp_indent(n as int), ..c0 },
        None => c0,
    };
    let c2 = match width {
        Some(w) => EmitCfg { width: spec_pick_width(w as int, c1.indent), ..c1 },
        None => c1,
    };
    let c3 = match canonical {
        Some(b) => EmitCfg { canonical: b, ..c2 },
        None => c2,
    };
    match default_flow_style {
        Some(b) => EmitCfg { default_flow_style: Some(b), ..c3 },
        None => c3,
    }
}

/// Serialize one node with optional overrides for indentation, width,
/// canonical mode and flow-style preference.
pub fn emit_to_string_with_options(
    node: &Node,
    indent: Option<usize>,
    width: Option<usize>,
    canonical: Option<bool>,
    default_flow_style: Option<bool>,
) -> (r: Result<String, EmitterError>)
    ensures
        r is Ok,
        r->Ok_0@ == spec_emit_document(
            spec_cfg_with(indent, width, canonical, default_flow_style),
            spec_fresh_state(),
            node@,
            false,
        ).out,
{
    let mut emitter = Emitter::new();
    match indent {
        Some(n) => {
            emitter = emitter.with_indent(n);
        },
        None => {},
    }
    match width {
        Some(w) => {
            emitter = emitter.with_width(w);
        },
        None => {},
    }
    match canonical {
        Some(b) => {
            emitter = emitter.with_canonical(b);
        },
        None => {},
    }
    match default_flow_style {
        Some(b) => {
            emitter = emitter.with_default_flow_style(Some(b));
        },
        None => {},
    }
    let res = emitter.emit_node(node);
    proof {
        assert(res is Ok);
    }
    Ok(emitter.output())
}

/// Law: the flow-style boundary under auto-detection. A sequence of
/// scalars auto-detects as flow exactly up to five items, and a mapping of
/// scalar pairs exactly up to three; one more of either is block.
pub proof fn lemma_flow_style_boundary(
    items: Seq<NodeV>,
    pairs: Seq<(NodeV, NodeV)>,
    cfg: EmitCfg,
)
    requires
        !cfg.canonical,
        cfg.default_flow_style is None,
        forall|i: int| 0 <= i < items.len() ==> (#[trigger] items[i].value) is Scalar,
        forall|i: int|
            0 <= i < pairs.len() ==> (#[trigger] pairs[i].0.value) is Scalar && pairs[i].1.value
                is Scalar,
    ensures
        items.len() <= 5 ==> spec_flow_style(NodeValueV::Sequence(items), cfg),
        items.len() > 5 ==> !spec_flow_style(NodeValueV::Sequence(items), cfg),
        pairs.len() <= 3 ==> spec_flow_style(NodeValueV::Mapping(pairs), cfg),
        pairs.len() > 3 ==> !spec_flow_style(NodeValueV::Mapping(pairs), cfg),
{
}

/// Law: canonical mode never emits a bare scalar. Whatever the content and
/// context, the style chosen under canonical mode is double-quoted, so
/// even a scalar that spells a keyword is emitted inside quotes.
pub proof fn lemma_canonical_always_quotes(
    a: ScalarAnalysis,
    tag: Seq<char>,
    simple_key: bool,
    flow_active: bool,
)
    ensures
        spec_choose_style(a, tag, true, simple_key, flow_active) == ScalarStyle::DoubleQuoted,
{
}

/// Law: a plain-eligible scalar outside a key position is emitted bare.
/// Under a non-canonical configuration, a tag naming no block style, and
/// content whose analysis allows plain flow, the chosen style is plain,
/// and the text is written unchanged.
pub proof fn lemma_plain_scalar_is_bare(
    s: Seq<char>,
    tag: Seq<char>,
    canonical: bool,
    flow_active: bool,
)
    requires
        !canonical,
        !crate::chars::spec_contains_seq(tag, "literal"@),
        !crate::chars::spec_contains_seq(tag, "folded"@),
        spec_analyze(s).allow_flow_plain,
    ensures
        spec_choose_style(spec_analyze(s), tag, canonical, false, flow_active)
            == ScalarStyle::Plain,
{
}

/// The value of one lowercase or uppercase hex digit, or -1.
pub open spec fn spec_hex_val(c: char) -> int {
    if '0' <= c && c <= '9' {
        (c as u32) as int - ('0' as u32) as int
    } else if 'a' <= c && c <= 'f' {
        10 + (c as u32) as int - ('a' as u32) as int
    } else if 'A' <= c && c <= 'F' {
        10 + (c as u32) as int - ('A' as u32) as int
    } else {
        -1
    }
}

/// Whether a code point is a Unicode scalar value, representable as a
/// character.
pub open spec fn spec_scalar_code(n: int) -> bool {
    (0 <= n < 0xd800) || (0xe000 <= n <= 0x10ffff)
}

/// The inverse of double-quote escaping: unescape the five named escapes
/// and `\uXXXX` code points; a dangling backslash, a bad escape letter, a
/// short or non-hex code, or a non-scalar code yields nothing.
pub open spec fn spec_unescape_double(s: Seq<char>) -> Option<Seq<char>>
    decreases s.len(), 0int,
{
    if s.len() == 0 {
        Some(Seq::empty())
    } else if s[0] == '\\' {
        if s.len() >= 2 {
            let c = s[1];
            if c == '"' {
                spec_unescape_cons('"', s.subrange(2, s.len() as int))
            } else if c == '\\' {
                spec_unescape_cons('\\', s.subrange(2, s.len() as int))
            } else if c == 'n' {
                spec_unescape_cons('\n', s.subrange(2, s.len() as int))
            } else if c == 'r' {
                spec_unescape_cons('\r', s.subrange(2, s.len() as int))
            } else if c == 't' {
                spec_unescape_cons('\t', s.subrange(2, s.len() as int))
            } else if c == 'u' {
                if s.len() >= 6 && spec_hex_val(s[2]) >= 0 && spec_hex_val(s[3]) >= 0
                    && spec_hex_val(s[4]) >= 0 && spec_hex_val(s[5]) >= 0 {
                    let code = spec_hex_val(s[2]) * 4096 + spec_hex_val(s[3]) * 256 + spec_hex_val(
                        s[4],
                    ) * 16 + spec_hex_val(s[5]);
                    if spec_scalar_code(code) {
                        spec_unescape_cons(
                            ((code as u32) as char),
                            s.subrange(6, s.len() as int),
                        )
                    } else {
                        None
                    }
                } else {
                    None
                }
            } else {
                None
            }
        } else {
            None
        }
    } else {
        spec_unescape_cons(s[0], s.subrange(1, s.len() as int))
    }
}

pub open spec fn spec_unescape_cons(c: char, rest: Seq<char>) -> Option<Seq<char>>
    decreases rest.len(), 1int,
{
    match spec_unescape_double(rest) {
        Some(r) => Some(seq![c] + r),
        None => None,
    }
}

fn hex_val(c: char) -> (r: i64)
    ensures
        r as int == spec_hex_val(c),
{
    if '0' <= c && c <= '9' {
        (c as u32 - '0' as u32) as i64
    } else if 'a' <= c && c <= 'f' {
        (10 + (c as u32 - 'a' as u32)) as i64
    } else if 'A' <= c && c <= 'F' {
        (10 + (c as u32 - 'A' as u32)) as i64
    } else {
        -1
    }
}

/// Relies on `char::from_u32`: it yields a character exactly for Unicode
/// scalar values, and that character casts back to the same code point.
#[verifier::external_body]
fn char_from_code(u: u32) -> (r: Option<char>)
    ensures
        r is Some <==> spec_scalar_code(u as int),
        r is Some ==> (r->0 as u32) == u,
{
    char::from_u32(u)
}

/// Undo double-quote escaping, as `spec_unescape_double` describes.
#[verifier::rlimit(100)]
pub fn unescape_double(v: &Vec<char>) -> (r: Option<Vec<char>>)
    ensures
        match r {
            Some(out) => spec_unescape_double(v@) == Some(out@),
            None => spec_unescape_double(v@) is None,
        },
{
    let mut out: Vec<char> = Vec::new();
    let mut i: usize = 0;
    proof {
        assert(v@.subrange(0, v@.len() as int) == v@);
    }
    let n = v.len();
    while i < n
        invariant
            0 <= i <= v@.len(),
            n == v@.len(),
            spec_unescape_double(v@) == (match spec_unescape_double(
                v@.subrange(i as int, v@.len() as int),
            ) {
                Some(rest) => Some(out@ + rest),
                None => None::<Seq<char>>,
            }),
        decreases v@.len() - i,
    {
        let ghost rest = v@.subrange(i as int, v@.len() as int);
        let ghost out0 = out@;
        let c = v[i];
        proof {
            assert(rest[0] == v@[i as int]);
        }
        if c == '\\' {
            if n - i < 2 {
                return None;
            }
            let e = v[i + 1];
            proof {
                assert(rest[1] == v@[i + 1]);
            }
            if e == '"' || e == '\\' || e == 'n' || e == 'r' || e == 't' {
                let decoded = if e == '"' {
                    '"'
                } else if e == '\\' {
                    '\\'
                } else if e == 'n' {
                    '\n'
                } else if e == 'r' {
                    '\r'
                } else {
                    '\t'
                };
                out.push(decoded);
                proof {
                    let next = v@.subrange(i + 2, v@.len() as int);
                    assert(rest.subrange(2, rest.len() as int) =~= next);
                    assert(spec_unescape_double(rest) == spec_unescape_cons(decoded, next));
                    match spec_unescape_double(next) {
                        Some(r) => {
                            assert(out0 + (seq![decoded] + r) =~= out@ + r);
                        },
                        None => {},
                    }
                }
                i = i + 2;
            } else if e == 'u' {
                if n - i < 6 {
                    proof {
                        assert(rest.len() < 6);
                    }
                    return None;
                }
                let h1 = hex_val(v[i + 2]);
                let h2 = hex_val(v[i + 3]);
                let h3 = hex_val(v[i + 4]);
                let h4 = hex_val(v[i + 5]);
                proof {
                    assert(rest[2] == v@[i + 2]);
                    assert(rest[3] == v@[i + 3]);
                    assert(rest[4] == v@[i + 4]);
                    assert(rest[5] == v@[i + 5]);
                }
                if h1 < 0 || h2 < 0 || h3 < 0 || h4 < 0 {
                    return None;
                }
                let code: u32 = (h1 as u32) * 4096 + (h2 as u32) * 256 + (h3 as u32) * 16 + (
                h4 as u32);
                match char_from_code(code) {
                    Some(decoded) => {
                        out.push(decoded);
                        proof {
                            let next = v@.subrange(i + 6, v@.len() as int);
                            assert(rest.subrange(6, rest.len() as int) =~= next);
                            vstd::utf8::char_u32_cast(decoded, code);
                            assert(((code as u32) as char) == decoded);
                            assert(spec_unescape_double(rest) == spec_unescape_cons(
                                decoded,
                                next,
                            ));
                            match spec_unescape_double(next) {
                                Some(r) => {
                                    assert(out0 + (seq![decoded] + r) =~= out@ + r);
                                },
                                None => {},
                            }
                        }
                        i = i + 6;
                    },
                    None => {
                        return None;
                    },
                }
            } else {
                return None;
            }
        } else {
            out.push(c);
            proof {
                let next = v@.subrange(i + 1, v@.len() as int);
                assert(rest.subrange(1, rest.len() as int) =~= next);
                assert(spec_unescape_double(rest) == spec_unescape_cons(c, next));
                match spec_unescape_double(next) {
                    Some(r) => {
                        assert(out0 + (seq![c] + r) =~= out@ + r);
                    },
                    None => {},
                }
            }
            i = i + 1;
        }
    }
    proof {
        assert(v@.subrange(i as int, v@.len() as int) =~= Seq::<char>::empty());
        assert(out@ + Seq::<char>::empty() =~= out@);
    }
    Some(out)
}

/// Escaping distributes over concatenation.
proof fn lemma_escape_concat(a: Seq<char>, b: Seq<char>)
    ensures
        spec_escape_double(a + b) == spec_escape_double(a) + spec_escape_double(b),
    decreases b.len(),
{
    if b.len() == 0 {
        assert(a + b =~= a);
        assert(spec_escape_double(a) + spec_escape_double(b) =~= spec_escape_double(a));
    } else {
        lemma_escape_concat(a, b.drop_last());
        assert((a + b).drop_last() =~= a + b.drop_last());
        assert((a + b).last() == b.last());
        assert(spec_escape_double(a) + spec_escape_double(b) =~= (spec_escape_double(a)
            + spec_escape_double(b.drop_last())) + spec_escape_char(b.last()));
    }
}

/// Escaping a single character is its escape.
proof fn lemma_escape_single_char(c: char)
    ensures
        spec_escape_double(seq![c]) == spec_escape_char(c),
{
    assert(seq![c].len() == 1);
    assert(seq![c].drop_last() =~= Seq::<char>::empty());
    assert(seq![c].last() == c);
    assert(spec_escape_double(Seq::<char>::empty()) == Seq::<char>::empty());
    assert(spec_escape_double(seq![c]) == spec_escape_double(seq![c].drop_last())
        + spec_escape_char(seq![c].last()));
    assert(Seq::<char>::empty() + spec_escape_char(c) =~= spec_escape_char(c));
}

/// Unescaping one escaped character at the head of a text picks that
/// character off.
proof fn lemma_unescape_step(c: char, w: Seq<char>)
    ensures
        spec_unescape_double(spec_escape_char(c) + w) == spec_unescape_cons(c, w),
{
    let s = spec_escape_char(c) + w;
    reveal_strlit("\\\"");
    reveal_strlit("\\\\");
    reveal_strlit("\\n");
    reveal_strlit("\\r");
    reveal_strlit("\\t");
    reveal_strlit("\\u");
    assert("\\\""@ =~= seq!['\\', '"']);
    assert("\\\\"@ =~= seq!['\\', '\\']);
    assert("\\n"@ =~= seq!['\\', 'n']);
    assert("\\r"@ =~= seq!['\\', 'r']);
    assert("\\t"@ =~= seq!['\\', 't']);
    assert("\\u"@ =~= seq!['\\', 'u']);
    if c == '"' || c == '\\' || c == '\n' || c == '\r' || c == '\t' {
        assert(s.subrange(2, s.len() as int) =~= w);
    } else if spec_is_control(c) {
        let n = (c as u32) as int;
        vstd::utf8::char_is_scalar(c);
        assert(0 <= n <= 0x9f);
        let h = spec_hex4(n);
        assert(s.len() == 6 + w.len());
        assert(s[0] == '\\' && s[1] == 'u');
        assert(s[2] == h[0] && s[3] == h[1] && s[4] == h[2] && s[5] == h[3]);
        lemma_hex_digit_val((n / 4096) % 16);
        lemma_hex_digit_val((n / 256) % 16);
        lemma_hex_digit_val((n / 16) % 16);
        lemma_hex_digit_val(n % 16);
        assert(spec_hex_val(h[0]) == (n / 4096) % 16);
        assert(spec_hex_val(h[1]) == (n / 256) % 16);
        assert(spec_hex_val(h[2]) == (n / 16) % 16);
        assert(spec_hex_val(h[3]) == n % 16);
        assert(n / 4096 == 0 && n / 256 == 0);
        assert((n / 16) % 16 == n / 16);
        assert(n / 16 * 16 + n % 16 == n);
        assert(spec_hex_val(h[0]) * 4096 + spec_hex_val(h[1]) * 256 + spec_hex_val(h[2]) * 16
            + spec_hex_val(h[3]) == n);
        assert(spec_scalar_code(n));
        vstd::utf8::char_u32_cast(c, c as u32);
        assert(((n as u32) as char) == c);
        assert(s.subrange(6, s.len() as int) =~= w);
    } else {
        assert(spec_escape_char(c) =~= seq![c]);
        assert(s[0] == c);
        assert(c != '\\');
        assert(s.subrange(1, s.len() as int) =~= w);
    }
}

/// A hex digit character carries its value.
proof fn lemma_hex_digit_val(d: int)
    requires
        0 <= d < 16,
    ensures
        spec_hex_val(spec_hex_digit(d)) == d,
{
}

/// Law: double-quote escaping and unescaping form a round trip. For every
/// text, escaping it and unescaping the result restores the original
/// exactly, covering the named escapes and the `\uXXXX` form alike.
pub proof fn lemma_escape_unescape_round_trip(s: Seq<char>)
    ensures
        spec_unescape_double(spec_escape_double(s)) == Some(s),
    decreases s.len(),
{
    if s.len() == 0 {
        assert(spec_escape_double(s) =~= Seq::<char>::empty());
    } else {
        let c = s[0];
        let rest = s.subrange(1, s.len() as int);
        assert(s =~= seq![c] + rest);
        lemma_escape_concat(seq![c], rest);
        lemma_escape_single_char(c);
        lemma_escape_unescape_round_trip(rest);
        lemma_unescape_step(c, spec_escape_double(rest));
        assert(seq![c] + rest =~= s);
    }
}

/// The clamp applied to a configured indent width.
pub open spec fn spec_clamp_indent(n: int) -> int {
    if n < 2 {
        2
    } else if n > 9 {
        9
    } else {
        n
    }
}

/// The width actually used for a configured maximum line width.
pub open spec fn spec_pick_width(w: int, indent: int) -> int {
    if w > sat_add(indent, indent) {
        w
    } else {
        80
    }
}

} // verus!
