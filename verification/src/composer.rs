//! The composer: folds an event stream into a node tree, resolving anchors
//! and aliases and assigning a core-schema tag to every untagged scalar.
//! Aliases have copy semantics: resolving one yields an equal copy of the
//! anchored node, not a shared reference.

use vstd::prelude::*;
use crate::chars::spec_contains_char;
use crate::event::{Event, EventV};
use crate::mark::Mark;
use crate::tags::{
    tag_alias, tag_alias_string, tag_bool, tag_bool_string, tag_float, tag_float_string, tag_int,
    tag_int_string, tag_map, tag_map_string, tag_null, tag_null_string, tag_seq, tag_seq_string,
    tag_str, tag_str_string,
};

verus! {

/// The three kinds of content a node can hold. A mapping keeps its pairs in
/// first-seen order; order is semantically significant.
#[derive(Debug)]
pub enum NodeValue {
    Scalar(String),
    Sequence(Vec<Node>),
    Mapping(Vec<(Node, Node)>),
}

/// A composed node: content plus its resolved tag, source span, an optional
/// scalar style hint, an optional flow-style flag (containers only), and an
/// optional anchor name.
#[derive(Debug)]
pub struct Node {
    pub tag: String,
    pub value: NodeValue,
    pub start_mark: Mark,
    pub end_mark: Mark,
    pub style: Option<char>,
    pub flow_style: Option<bool>,
    pub anchor: Option<String>,
}

/// The mathematical image of a node's content.
pub enum NodeValueV {
    Scalar(Seq<char>),
    Sequence(Seq<NodeV>),
    Mapping(Seq<(NodeV, NodeV)>),
}

/// The mathematical image of a node.
pub struct NodeV {
    pub tag: Seq<char>,
    pub value: NodeValueV,
    pub start_mark: Mark,
    pub end_mark: Mark,
    pub style: Option<char>,
    pub flow_style: Option<bool>,
    pub anchor: Option<Seq<char>>,
}

/// The image of a node, defined structurally.
pub open spec fn view_node(n: Node) -> NodeV
    decreases n,
{
    NodeV {
        tag: n.tag@,
        value: view_value(n.value),
        start_mark: n.start_mark,
        end_mark: n.end_mark,
        style: n.style,
        flow_style: n.flow_style,
        anchor: match n.anchor {
            Some(a) => Some(a@),
            None => None,
        },
    }
}

/// The image of a node's content.
pub open spec fn view_value(v: NodeValue) -> NodeValueV
    decreases v,
{
    match v {
        NodeValue::Scalar(s) => NodeValueV::Scalar(s@),
        NodeValue::Sequence(items) => NodeValueV::Sequence(view_items(items@)),
        NodeValue::Mapping(pairs) => NodeValueV::Mapping(view_pairs(pairs@)),
    }
}

/// The images of a sequence's items, in order.
pub open spec fn view_items(s: Seq<Node>) -> Seq<NodeV>
    decreases s,
{
    if s.len() == 0 {
        Seq::empty()
    } else {
        view_items(s.drop_last()).push(view_node(s.last()))
    }
}

/// The images of a mapping's pairs, in order.
pub open spec fn view_pairs(s: Seq<(Node, Node)>) -> Seq<(NodeV, NodeV)>
    decreases s,
{
    if s.len() == 0 {
        Seq::empty()
    } else {
        view_pairs(s.drop_last()).push((view_node(s.last().0), view_node(s.last().1)))
    }
}

/// `view_items` indexes pointwise.
pub proof fn lemma_view_items_index(s: Seq<Node>)
    ensures
        view_items(s).len() == s.len(),
        forall|i: int| 0 <= i < s.len() ==> #[trigger] view_items(s)[i] == view_node(s[i]),
    decreases s.len(),
{
    if s.len() > 0 {
        lemma_view_items_index(s.drop_last());
        assert forall|i: int| 0 <= i < s.len() implies #[trigger] view_items(s)[i] == view_node(
            s[i],
        ) by {
            if i < s.len() - 1 {
                assert(s.drop_last()[i] == s[i]);
            }
        }
    }
}

/// `view_pairs` indexes pointwise.
pub proof fn lemma_view_pairs_index(s: Seq<(Node, Node)>)
    ensures
        view_pairs(s).len() == s.len(),
        forall|i: int|
            0 <= i < s.len() ==> #[trigger] view_pairs(s)[i] == (
                view_node(s[i].0),
                view_node(s[i].1),
            ),
    decreases s.len(),
{
    if s.len() > 0 {
        lemma_view_pairs_index(s.drop_last());
        assert forall|i: int| 0 <= i < s.len() implies #[trigger] view_pairs(s)[i] == (
            view_node(s[i].0),
            view_node(s[i].1),
        ) by {
            if i < s.len() - 1 {
                assert(s.drop_last()[i] == s[i]);
            }
        }
    }
}

impl View for Node {
    type V = NodeV;

    open spec fn view(&self) -> NodeV {
        view_node(*self)
    }
}

impl DeepView for Node {
    type V = NodeV;

    open spec fn deep_view(&self) -> NodeV {
        view_node(*self)
    }
}

pub open spec fn view_opt_chars(o: Option<String>) -> Option<Seq<char>> {
    match o {
        Some(s) => Some(s@),
        None => None,
    }
}

impl Node {
    /// A scalar node.
    pub fn new_scalar(
        tag: String,
        value: String,
        start_mark: Mark,
        end_mark: Mark,
        style: Option<char>,
    ) -> (r: Node)
        ensures
            r@ == (NodeV {
                tag: tag@,
                value: NodeValueV::Scalar(value@),
                start_mark,
                end_mark,
                style,
                flow_style: None,
                anchor: None,
            }),
    {
        Node { tag, value: NodeValue::Scalar(value), start_mark, end_mark, style, flow_style: None, anchor: None }
    }

    /// A sequence node; containers always carry a flow-style flag.
    pub fn new_sequence(
        tag: String,
        items: Vec<Node>,
        start_mark: Mark,
        end_mark: Mark,
        flow_style: bool,
    ) -> (r: Node)
        ensures
            r@ == (NodeV {
                tag: tag@,
                value: NodeValueV::Sequence(view_items(items@)),
                start_mark,
                end_mark,
                style: None,
                flow_style: Some(flow_style),
                anchor: None,
            }),
    {
        Node {
            tag,
            value: NodeValue::Sequence(items),
            start_mark,
            end_mark,
            style: None,
            flow_style: Some(flow_style),
            anchor: None,
        }
    }

    /// A mapping node; pair order is preserved.
    pub fn new_mapping(
        tag: String,
        pairs: Vec<(Node, Node)>,
        start_mark: Mark,
        end_mark: Mark,
        flow_style: bool,
    ) -> (r: Node)
        ensures
            r@ == (NodeV {
                tag: tag@,
                value: NodeValueV::Mapping(view_pairs(pairs@)),
                start_mark,
                end_mark,
                style: None,
                flow_style: Some(flow_style),
                anchor: None,
            }),
    {
        Node {
            tag,
            value: NodeValue::Mapping(pairs),
            start_mark,
            end_mark,
            style: None,
            flow_style: Some(flow_style),
            anchor: None,
        }
    }

    /// An alias node: it carries the referenced name as its text and the
    /// synthetic alias tag.
    pub fn new_alias(anchor: String, start_mark: Mark, end_mark: Mark) -> (r: Node)
        ensures
            r@ == (NodeV {
                tag: tag_alias(),
                value: NodeValueV::Scalar(anchor@),
                start_mark,
                end_mark,
                style: None,
                flow_style: None,
                anchor: Some(anchor@),
            }),
    {
        let a2 = anchor.clone();
        Node {
            tag: tag_alias_string(),
            value: NodeValue::Scalar(a2),
            start_mark,
            end_mark,
            style: None,
            flow_style: None,
            anchor: Some(anchor),
        }
    }

    /// The node's kind as a short word.
    pub fn id(&self) -> (r: &'static str)
        ensures
            (self@.value is Scalar) ==> r@ == "scalar"@,
            (self@.value is Sequence) ==> r@ == "sequence"@,
            (self@.value is Mapping) ==> r@ == "mapping"@,
    {
        match &self.value {
            NodeValue::Scalar(_) => "scalar",
            NodeValue::Sequence(_) => "sequence",
            NodeValue::Mapping(_) => "mapping",
        }
    }

    /// A structurally equal copy of this node.
    pub fn duplicate(&self) -> (r: Node)
        ensures
            r@ == self@,
        decreases *self,
    {
        let tag = self.tag.clone();
        let start_mark = self.start_mark;
        let end_mark = self.end_mark;
        let style = self.style;
        let flow_style = self.flow_style;
        let anchor = match &self.anchor {
            Some(a) => Some(a.clone()),
            None => None,
        };
        let value = match &self.value {
            NodeValue::Scalar(s) => NodeValue::Scalar(s.clone()),
            NodeValue::Sequence(items) => {
                let mut out: Vec<Node> = Vec::new();
                let mut i: usize = 0;
                while i < items.len()
                    invariant
                        0 <= i <= items@.len(),
                        self.value is Sequence,
                        items@ == self.value->Sequence_0@,
                        out@.len() == i,
                        forall|j: int| 0 <= j < i ==> #[trigger] view_node(out@[j]) == view_node(items@[j]),
                    decreases items@.len() - i,
                {
                    proof {
                        assert(decreases_to!(*self => self.value));
                        assert(decreases_to!(self.value => self.value->Sequence_0));
                        assert(decreases_to!(self.value->Sequence_0 => self.value->Sequence_0@));
                        assert(items@ == self.value->Sequence_0@);
                        assert(decreases_to!(items@ => items@[i as int]));
                        assert(decreases_to!(*self => items@[i as int]));
                    }
                    let d = items[i].duplicate();
                    out.push(d);
                    i = i + 1;
                }
                proof {
                    lemma_view_items_index(items@);
                    lemma_view_items_index(out@);
                    assert(view_items(out@) =~= view_items(items@));
                }
                NodeValue::Sequence(out)
            },
            NodeValue::Mapping(pairs) => {
                let mut out: Vec<(Node, Node)> = Vec::new();
                let mut i: usize = 0;
                while i < pairs.len()
                    invariant
                        0 <= i <= pairs@.len(),
                        self.value is Mapping,
                        pairs@ == self.value->Mapping_0@,
                        out@.len() == i,
                        forall|j: int|
                            0 <= j < i ==> #[trigger] view_node(out@[j].0) == view_node(pairs@[j].0)
                                && view_node(out@[j].1) == view_node(pairs@[j].1),
                    decreases pairs@.len() - i,
                {
                    proof {
                        assert(decreases_to!(*self => self.value));
                        assert(decreases_to!(self.value => self.value->Mapping_0));
                        assert(decreases_to!(self.value->Mapping_0 => self.value->Mapping_0@));
                        assert(pairs@ == self.value->Mapping_0@);
                        assert(decreases_to!(pairs@ => pairs@[i as int]));
                        assert(decreases_to!(*self => pairs@[i as int].0));
                        assert(decreases_to!(*self => pairs@[i as int].1));
                    }
                    let k = pairs[i].0.duplicate();
                    let v = pairs[i].1.duplicate();
                    out.push((k, v));
                    i = i + 1;
                }
                proof {
                    lemma_view_pairs_index(pairs@);
                    lemma_view_pairs_index(out@);
                    assert(view_pairs(out@) =~= view_pairs(pairs@));
                }
                NodeValue::Mapping(out)
            },
        };
        let r = Node { tag, value, start_mark, end_mark, style, flow_style, anchor };
        r
    }
}

/// ASCII decimal digits.
pub open spec fn is_digit(c: char) -> bool {
    '0' <= c && c <= '9'
}

/// Every character of `s` is a decimal digit.
pub open spec fn spec_all_digits(s: Seq<char>) -> bool {
    forall|i: int| 0 <= i < s.len() ==> is_digit(#[trigger] s[i])
}

fn all_digits(v: &Vec<char>, from: usize, to: usize) -> (r: bool)
    requires
        from <= to <= v@.len(),
    ensures
        r == spec_all_digits(v@.subrange(from as int, to as int)),
{
    let ghost sub = v@.subrange(from as int, to as int);
    let mut i: usize = from;
    while i < to
        invariant
            from <= i <= to <= v@.len(),
            sub == v@.subrange(from as int, to as int),
            forall|j: int| 0 <= j < i - from ==> is_digit(#[trigger] sub[j]),
        decreases to - i,
    {
        let c = v[i];
        if !('0' <= c && c <= '9') {
            proof {
                assert(sub[i - from] == v@[i as int]);
            }
            return false;
        }
        i = i + 1;
    }
    true
}

/// Whether `s` is an integer literal for tag inference: a single digit, or
/// an optional leading minus followed by one or more digits.
pub open spec fn spec_is_int(s: Seq<char>) -> bool {
    if s.len() == 0 {
        false
    } else if s.len() == 1 {
        is_digit(s[0])
    } else {
        let start: int = if s[0] == '-' {
            1
        } else {
            0
        };
        start < s.len() && spec_all_digits(s.subrange(start, s.len() as int))
    }
}

/// Integer test mirroring `spec_is_int`.
pub fn is_int_chars(v: &Vec<char>) -> (r: bool)
    ensures
        r == spec_is_int(v@),
{
    if v.len() == 0 {
        false
    } else if v.len() == 1 {
        let c = v[0];
        '0' <= c && c <= '9'
    } else {
        let start: usize = if v[0] == '-' {
            1
        } else {
            0
        };
        all_digits(v, start, v.len())
    }
}

/// Case-insensitive match of one character against a lowercase letter of the
/// special float words.
pub open spec fn spec_ci(c: char, l: char) -> bool {
    if l == 'i' {
        c == 'i' || c == 'I'
    } else if l == 'n' {
        c == 'n' || c == 'N'
    } else if l == 'f' {
        c == 'f' || c == 'F'
    } else if l == 'a' {
        c == 'a' || c == 'A'
    } else if l == 't' {
        c == 't' || c == 'T'
    } else if l == 'y' {
        c == 'y' || c == 'Y'
    } else {
        c == l
    }
}

fn ci(c: char, l: char) -> (r: bool)
    ensures
        r == spec_ci(c, l),
{
    if l == 'i' {
        c == 'i' || c == 'I'
    } else if l == 'n' {
        c == 'n' || c == 'N'
    } else if l == 'f' {
        c == 'f' || c == 'F'
    } else if l == 'a' {
        c == 'a' || c == 'A'
    } else if l == 't' {
        c == 't' || c == 'T'
    } else if l == 'y' {
        c == 'y' || c == 'Y'
    } else {
        c == l
    }
}

/// Case-insensitive match of `t` (from index `from`) against a lowercase word.
pub open spec fn spec_word_ci(t: Seq<char>, from: int, w: Seq<char>) -> bool {
    t.len() - from == w.len() && from >= 0 && forall|i: int|
        0 <= i < w.len() ==> spec_ci(#[trigger] t[from + i], w[i])
}

fn word_ci(t: &Vec<char>, from: usize, w: &str) -> (r: bool)
    requires
        from <= t@.len(),
    ensures
        r == spec_word_ci(t@, from as int, w@),
{
    let wlen = w.unicode_len();
    let tl = t.len();
    if tl - from != wlen {
        return false;
    }
    let mut i: usize = 0;
    while i < wlen
        invariant
            0 <= i <= wlen == w@.len(),
            tl == t@.len(),
            from + wlen == tl,
            forall|j: int| 0 <= j < i ==> spec_ci(#[trigger] t@[from + j], w@[j]),
        decreases wlen - i,
    {
        if !ci(t[from + i], w.get_char(i)) {
            return false;
        }
        i = i + 1;
    }
    true
}

/// The special float words `inf`, `infinity` and `nan`, case-insensitive.
pub open spec fn spec_float_word(t: Seq<char>, from: int) -> bool {
    spec_word_ci(t, from, "inf"@) || spec_word_ci(t, from, "infinity"@) || spec_word_ci(
        t,
        from,
        "nan"@,
    )
}

/// The first position at or after `from` holding `e` or `E`, or -1.
pub open spec fn spec_find_exp(s: Seq<char>, from: int) -> int
    decreases s.len() - from,
{
    if from < 0 || from >= s.len() {
        -1
    } else if s[from] == 'e' || s[from] == 'E' {
        from
    } else {
        spec_find_exp(s, from + 1)
    }
}

fn find_exp(v: &Vec<char>, from: usize) -> (r: Option<usize>)
    requires
        from <= v@.len(),
    ensures
        r is Some ==> r->0 == spec_find_exp(v@, from as int) && from <= r->0 < v@.len(),
        r is None ==> spec_find_exp(v@, from as int) == -1,
{
    let mut i: usize = from;
    while i < v.len()
        invariant
            from <= i,
            spec_find_exp(v@, from as int) == spec_find_exp(v@, i as int),
        decreases v@.len() - i,
    {
        if v[i] == 'e' || v[i] == 'E' {
            return Some(i);
        }
        i = i + 1;
    }
    None
}

/// A float mantissa over `[from, to)`: digits with at most one decimal point
/// and at least one digit.
pub open spec fn spec_mantissa(s: Seq<char>, from: int, to: int) -> bool {
    let sub = s.subrange(from, to);
    let d = crate::chars::spec_find_from(sub, '.', 0);
    if !(0 <= d < sub.len()) {
        sub.len() > 0 && spec_all_digits(sub)
    } else {
        spec_all_digits(sub.subrange(0, d)) && spec_all_digits(
            sub.subrange(d + 1, sub.len() as int),
        ) && sub.len() > 1
    }
}

fn mantissa(v: &Vec<char>, from: usize, to: usize) -> (r: bool)
    requires
        from <= to <= v@.len(),
    ensures
        r == spec_mantissa(v@, from as int, to as int),
{
    let sub = crate::chars::subvec(v, from, to);
    proof {
        assert(sub@.subrange(0, sub@.len() as int) == sub@);
    }
    match crate::chars::find_from(&sub, '.', 0) {
        None => sub.len() > 0 && all_digits(&sub, 0, sub.len()),
        Some(d) => {
            let left = all_digits(&sub, 0, d);
            let right = all_digits(&sub, d + 1, sub.len());
            left && right && sub.len() > 1
        },
    }
}

/// A float exponent over `[from, to)`: `e` or `E`, an optional sign, then
/// one or more digits.
pub open spec fn spec_exponent(s: Seq<char>, from: int, to: int) -> bool {
    let sub = s.subrange(from, to);
    sub.len() >= 2 && (sub[0] == 'e' || sub[0] == 'E') && ({
        let t = if sub[1] == '+' || sub[1] == '-' {
            sub.subrange(2, sub.len() as int)
        } else {
            sub.subrange(1, sub.len() as int)
        };
        t.len() > 0 && spec_all_digits(t)
    })
}

fn exponent(v: &Vec<char>, from: usize, to: usize) -> (r: bool)
    requires
        from <= to <= v@.len(),
    ensures
        r == spec_exponent(v@, from as int, to as int),
{
    let sub = crate::chars::subvec(v, from, to);
    if sub.len() < 2 {
        return false;
    }
    if !(sub[0] == 'e' || sub[0] == 'E') {
        return false;
    }
    let start: usize = if sub[1] == '+' || sub[1] == '-' {
        2
    } else {
        1
    };
    proof {
        if sub@[1] == '+' || sub@[1] == '-' {
            assert(sub@.subrange(2, sub@.len() as int) == v@.subrange(
                from as int,
                to as int,
            ).subrange(2, to - from));
        }
    }
    let r = sub.len() > start && all_digits(&sub, start, sub.len());
    proof {
        let whole = v@.subrange(from as int, to as int);
        assert(sub@ == whole);
        assert(sub@.subrange(start as int, sub@.len() as int) == whole.subrange(
            start as int,
            whole.len() as int,
        ));
    }
    r
}

/// Whether the text from `from` on is a number the float parser accepts: a
/// mantissa, optionally followed by an exponent, split at the first `e`/`E`.
pub open spec fn spec_float_number(s: Seq<char>, from: int) -> bool {
    let e = spec_find_exp(s, from);
    if !(from <= e < s.len()) {
        spec_mantissa(s, from, s.len() as int)
    } else {
        spec_mantissa(s, from, e) && spec_exponent(s, e, s.len() as int)
    }
}

/// Whether `s` is accepted by the 64-bit float parser: an optional sign,
/// then one of the special words or a number, per the documented grammar.
pub open spec fn spec_f64_syntax(s: Seq<char>) -> bool {
    let from: int = if s.len() > 0 && (s[0] == '+' || s[0] == '-') {
        1
    } else {
        0
    };
    from < s.len() && (spec_float_word(s, from) || spec_float_number(s, from))
}

/// Whether a scalar is classified as a float: it must contain `.`, `e` or
/// `E`, and be accepted by the float grammar.
pub open spec fn spec_is_float(s: Seq<char>) -> bool {
    s.len() > 0 && (spec_contains_char(s, '.') || spec_contains_char(s, 'e') || spec_contains_char(
        s,
        'E',
    )) && spec_f64_syntax(s)
}

/// Float test mirroring `spec_is_float`. The acceptance test follows the
/// grammar that `str::parse` documents for 64-bit floats.
pub fn is_float_chars(v: &Vec<char>) -> (r: bool)
    ensures
        r == spec_is_float(v@),
{
    if v.len() == 0 {
        return false;
    }
    if !(crate::chars::contains_char(v, '.') || crate::chars::contains_char(v, 'e')
        || crate::chars::contains_char(v, 'E')) {
        return false;
    }
    let from: usize = if v[0] == '+' || v[0] == '-' {
        1
    } else {
        0
    };
    if from >= v.len() {
        return false;
    }
    if word_ci(v, from, "inf") || word_ci(v, from, "infinity") || word_ci(v, from, "nan") {
        return true;
    }
    match find_exp(v, from) {
        None => mantissa(v, from, v.len()),
        Some(e) => {
            let m = mantissa(v, from, e);
            let x = exponent(v, e, v.len());
            m && x
        },
    }
}

/// The core-schema tag inferred for an untagged scalar: exact boolean and
/// null word forms first, then the integer test, then the float test, then
/// the string fallback.
pub open spec fn spec_resolve_tag(s: Seq<char>) -> Seq<char> {
    if s == "true"@ || s == "True"@ || s == "TRUE"@ || s == "false"@ || s == "False"@ || s
        == "FALSE"@ {
        tag_bool()
    } else if s == "null"@ || s == "Null"@ || s == "NULL"@ || s == "~"@ || s == Seq::<
        char,
    >::empty() {
        tag_null()
    } else if spec_is_int(s) {
        tag_int()
    } else if spec_is_float(s) {
        tag_float()
    } else {
        tag_str()
    }
}

/// Resolve the tag of an untagged scalar, as `spec_resolve_tag` describes.
pub fn resolve_scalar_tag(v: &Vec<char>) -> (r: String)
    ensures
        r@ == spec_resolve_tag(v@),
{
    if crate::chars::eq_lit(v, "true") || crate::chars::eq_lit(v, "True") || crate::chars::eq_lit(
        v,
        "TRUE",
    ) || crate::chars::eq_lit(v, "false") || crate::chars::eq_lit(v, "False")
        || crate::chars::eq_lit(v, "FALSE") {
        tag_bool_string()
    } else if crate::chars::eq_lit(v, "null") || crate::chars::eq_lit(v, "Null")
        || crate::chars::eq_lit(v, "NULL") || crate::chars::eq_lit(v, "~") || v.len() == 0 {
        proof {
            if v@.len() == 0 {
                assert(v@ =~= Seq::<char>::empty());
            }
        }
        tag_null_string()
    } else if is_int_chars(v) {
        tag_int_string()
    } else if is_float_chars(v) {
        tag_float_string()
    } else {
        tag_str_string()
    }
}

/// A composition failure: a message and, where available, the source
/// position of the construct that failed.
#[derive(Debug)]
pub struct ComposerError {
    pub message: String,
    pub mark: Option<Mark>,
}

/// The mathematical image of a composition failure.
pub struct ErrV {
    pub message: Seq<char>,
    pub mark: Option<Mark>,
}

impl View for ComposerError {
    type V = ErrV;

    open spec fn view(&self) -> ErrV {
        ErrV { message: self.message@, mark: self.mark }
    }
}

/// The failure raised for an alias whose name is not in the anchor table.
pub open spec fn alias_err(a: Seq<char>) -> ErrV {
    ErrV { message: "Alias '"@ + a + "' not found"@, mark: None }
}

/// The failure raised for a sequence that the event stream never closes.
pub open spec fn seq_end_err(m: Mark) -> ErrV {
    ErrV { message: "Expected SequenceEnd event"@, mark: Some(m) }
}

/// The failure raised for a mapping that the event stream never closes.
pub open spec fn map_end_err(m: Mark) -> ErrV {
    ErrV { message: "Expected MappingEnd event"@, mark: Some(m) }
}

/// The anchor table of an association list: later entries overwrite earlier
/// ones with the same name.
pub open spec fn anchors_map(v: Seq<(String, Node)>) -> Map<Seq<char>, NodeV>
    decreases v.len(),
{
    if v.len() == 0 {
        Map::empty()
    } else {
        anchors_map(v.drop_last()).insert(v.last().0@, view_node(v.last().1))
    }
}

spec fn spec_lookup(v: Seq<(String, Node)>, k: Seq<char>) -> Option<NodeV>
    decreases v.len(),
{
    if v.len() == 0 {
        None
    } else if v.last().0@ == k {
        Some(view_node(v.last().1))
    } else {
        spec_lookup(v.drop_last(), k)
    }
}

proof fn lemma_lookup_matches_map(v: Seq<(String, Node)>, k: Seq<char>)
    ensures
        spec_lookup(v, k) == (if anchors_map(v).contains_key(k) {
            Some(anchors_map(v)[k])
        } else {
            None::<NodeV>
        }),
    decreases v.len(),
{
    if v.len() > 0 {
        lemma_lookup_matches_map(v.drop_last(), k);
    }
}

/// What one composition step yields: the composed node (or none at a
/// terminator), the next event index, and the updated anchor table.
pub struct NodeStep {
    pub node: Option<NodeV>,
    pub next: int,
    pub anchors: Map<Seq<char>, NodeV>,
}

pub enum NodeRes {
    Done(NodeStep),
    Fail(ErrV),
}

/// What composing a sequence body yields: the items, the closing event's end
/// mark, the index past the close, and the updated anchor table.
pub struct ItemsStep {
    pub items: Seq<NodeV>,
    pub end_mark: Mark,
    pub next: int,
    pub anchors: Map<Seq<char>, NodeV>,
}

pub enum ItemsRes {
    Done(ItemsStep),
    Fail(ErrV),
}

/// What composing a mapping body yields.
pub struct PairsStep {
    pub pairs: Seq<(NodeV, NodeV)>,
    pub end_mark: Mark,
    pub next: int,
    pub anchors: Map<Seq<char>, NodeV>,
}

pub enum PairsRes {
    Done(PairsStep),
    Fail(ErrV),
}

/// An index clamped into `[lo, len]`; composition steps always move forward,
/// so the clamp is the identity wherever it is applied.
pub open spec fn clamp_idx(next: int, lo: int, len: int) -> int {
    if next < lo {
        lo
    } else if next > len {
        len
    } else {
        next
    }
}

/// One composition step at event index `i` with anchor table `a`: scalars
/// resolve their tag and may define an anchor; aliases copy the anchored
/// node or fail; container starts compose their body; stream and document
/// ends yield no node; any other event is skipped.
pub open spec fn spec_compose_node(s: Seq<EventV>, i: int, a: Map<Seq<char>, NodeV>) -> NodeRes
    decreases s.len() - i, 0int,
{
    if !(0 <= i < s.len()) {
        NodeRes::Done(NodeStep { node: None, next: i, anchors: a })
    } else {
        match s[i] {
            EventV::Scalar { anchor, tag, value, start_mark, end_mark, style, .. } => {
                let rt = match tag {
                    Some(t) => t,
                    None => spec_resolve_tag(value),
                };
                let node = NodeV {
                    tag: rt,
                    value: NodeValueV::Scalar(value),
                    start_mark,
                    end_mark,
                    style,
                    flow_style: None,
                    anchor: None,
                };
                let a2 = match anchor {
                    Some(nm) => a.insert(nm, node),
                    None => a,
                };
                NodeRes::Done(NodeStep { node: Some(node), next: i + 1, anchors: a2 })
            },
            EventV::Alias { anchor, .. } => {
                if a.contains_key(anchor) {
                    NodeRes::Done(NodeStep { node: Some(a[anchor]), next: i + 1, anchors: a })
                } else {
                    NodeRes::Fail(alias_err(anchor))
                }
            },
            EventV::SequenceStart { start_mark, flow_style, anchor, .. } => {
                match spec_compose_items(s, i + 1, a, start_mark) {
                    ItemsRes::Fail(e) => NodeRes::Fail(e),
                    ItemsRes::Done(st) => {
                        let node = NodeV {
                            tag: tag_seq(),
                            value: NodeValueV::Sequence(st.items),
                            start_mark,
                            end_mark: st.end_mark,
                            style: None,
                            flow_style: Some(flow_style),
                            anchor: None,
                        };
                        let a2 = match anchor {
                            Some(nm) => st.anchors.insert(nm, node),
                            None => st.anchors,
                        };
                        NodeRes::Done(NodeStep { node: Some(node), next: st.next, anchors: a2 })
                    },
                }
            },
            EventV::MappingStart { start_mark, flow_style, anchor, .. } => {
                match spec_compose_pairs(s, i + 1, a, start_mark) {
                    PairsRes::Fail(e) => NodeRes::Fail(e),
                    PairsRes::Done(st) => {
                        let node = NodeV {
                            tag: tag_map(),
                            value: NodeValueV::Mapping(st.pairs),
                            start_mark,
                            end_mark: st.end_mark,
                            style: None,
                            flow_style: Some(flow_style),
                            anchor: None,
                        };
                        let a2 = match anchor {
                            Some(nm) => st.anchors.insert(nm, node),
                            None => st.anchors,
                        };
                        NodeRes::Done(NodeStep { node: Some(node), next: st.next, anchors: a2 })
                    },
                }
            },
            EventV::StreamEnd { .. } => NodeRes::Done(NodeStep { node: None, next: i, anchors: a }),
            EventV::DocumentEnd { .. } => NodeRes::Done(
                NodeStep { node: None, next: i, anchors: a },
            ),
            _ => NodeRes::Done(NodeStep { node: None, next: i + 1, anchors: a }),
        }
    }
}

/// Compose the items of a sequence opened at `start_mark` until its
/// `SequenceEnd`; running out of events, or hitting a stream or document
/// end, is the unterminated-sequence failure.
pub open spec fn spec_compose_items(
    s: Seq<EventV>,
    i: int,
    a: Map<Seq<char>, NodeV>,
    start_mark: Mark,
) -> ItemsRes
    decreases s.len() - i, 1int,
{
    if !(0 <= i < s.len()) {
        ItemsRes::Fail(seq_end_err(start_mark))
    } else {
        match s[i] {
            EventV::SequenceEnd { end_mark, .. } => ItemsRes::Done(
                ItemsStep { items: Seq::empty(), end_mark, next: i + 1, anchors: a },
            ),
            EventV::StreamEnd { .. } => ItemsRes::Fail(seq_end_err(start_mark)),
            EventV::DocumentEnd { .. } => ItemsRes::Fail(seq_end_err(start_mark)),
            _ => match spec_compose_node(s, i, a) {
                NodeRes::Fail(e) => ItemsRes::Fail(e),
                NodeRes::Done(st) => {
                    let j = clamp_idx(st.next, i + 1, s.len() as int);
                    match spec_compose_items(s, j, st.anchors, start_mark) {
                        ItemsRes::Fail(e) => ItemsRes::Fail(e),
                        ItemsRes::Done(rest) => ItemsRes::Done(
                            ItemsStep {
                                items: (match st.node {
                                    Some(n) => seq![n],
                                    None => Seq::empty(),
                                }) + rest.items,
                                end_mark: rest.end_mark,
                                next: rest.next,
                                anchors: rest.anchors,
                            },
                        ),
                    }
                },
            },
        }
    }
}

/// Compose the pairs of a mapping opened at `start_mark` until its
/// `MappingEnd`: keys and values alternate, and a pair joins the mapping
/// only when both composed to a node.
pub open spec fn spec_compose_pairs(
    s: Seq<EventV>,
    i: int,
    a: Map<Seq<char>, NodeV>,
    start_mark: Mark,
) -> PairsRes
    decreases s.len() - i, 1int,
{
    if !(0 <= i < s.len()) {
        PairsRes::Fail(map_end_err(start_mark))
    } else {
        match s[i] {
            EventV::MappingEnd { end_mark, .. } => PairsRes::Done(
                PairsStep { pairs: Seq::empty(), end_mark, next: i + 1, anchors: a },
            ),
            EventV::StreamEnd { .. } => PairsRes::Fail(map_end_err(start_mark)),
            EventV::DocumentEnd { .. } => PairsRes::Fail(map_end_err(start_mark)),
            _ => match spec_compose_node(s, i, a) {
                NodeRes::Fail(e) => PairsRes::Fail(e),
                NodeRes::Done(kst) => {
                    let j1 = clamp_idx(kst.next, i, s.len() as int);
                    match spec_compose_node(s, j1, kst.anchors) {
                        NodeRes::Fail(e) => PairsRes::Fail(e),
                        NodeRes::Done(vst) => {
                            let j2 = clamp_idx(vst.next, i + 1, s.len() as int);
                            match spec_compose_pairs(s, j2, vst.anchors, start_mark) {
                                PairsRes::Fail(e) => PairsRes::Fail(e),
                                PairsRes::Done(rest) => PairsRes::Done(
                                    PairsStep {
                                        pairs: (match (kst.node, vst.node) {
                                            (Some(k), Some(v)) => seq![(k, v)],
                                            _ => Seq::empty(),
                                        }) + rest.pairs,
                                        end_mark: rest.end_mark,
                                        next: rest.next,
                                        anchors: rest.anchors,
                                    },
                                ),
                            }
                        },
                    }
                },
            },
        }
    }
}

pub enum DocRes {
    Done(Option<NodeV>),
    Fail(ErrV),
}

/// Compose one document from an event stream: a leading `StreamStart` and
/// `DocumentStart` are skipped, the root node is composed with an empty
/// anchor table, and the anchor table does not survive the call.
pub open spec fn spec_compose_document(s: Seq<EventV>) -> DocRes {
    let i0: int = if s.len() > 0 && (s[0] is StreamStart) {
        1
    } else {
        0
    };
    let i1: int = if i0 < s.len() && (s[i0] is DocumentStart) {
        i0 + 1
    } else {
        i0
    };
    match spec_compose_node(s, i1, Map::empty()) {
        NodeRes::Done(st) => DocRes::Done(st.node),
        NodeRes::Fail(e) => DocRes::Fail(e),
    }
}

pub open spec fn view_opt_node(o: Option<Node>) -> Option<NodeV> {
    match o {
        Some(n) => Some(view_node(n)),
        None => None,
    }
}

fn mk_alias_err(name: &String) -> (r: ComposerError)
    ensures
        r@ == alias_err(name@),
{
    ComposerError {
        message: String::from_str("Alias '").concat(name.as_str()).concat("' not found"),
        mark: None,
    }
}

fn mk_seq_end_err(m: Mark) -> (r: ComposerError)
    ensures
        r@ == seq_end_err(m),
{
    ComposerError { message: String::from_str("Expected SequenceEnd event"), mark: Some(m) }
}

fn mk_map_end_err(m: Mark) -> (r: ComposerError)
    ensures
        r@ == map_end_err(m),
{
    ComposerError { message: String::from_str("Expected MappingEnd event"), mark: Some(m) }
}

/// The composition engine: an anchor table scoped to one document, kept as
/// an association list whose later entries win.
pub struct Composer {
    anchors: Vec<(String, Node)>,
}

impl Composer {
    /// The current anchor table, as a map from names to node images.
    pub closed spec fn table(&self) -> Map<Seq<char>, NodeV> {
        anchors_map(self.anchors@)
    }

    /// A composer with an empty anchor table.
    pub fn new() -> (r: Composer)
        ensures
            r.table() == Map::<Seq<char>, NodeV>::empty(),
    {
        Composer { anchors: Vec::new() }
    }

    /// Empty the anchor table.
    pub fn clear(&mut self)
        ensures
            final(self).table() == Map::<Seq<char>, NodeV>::empty(),
    {
        self.anchors = Vec::new();
    }

    fn lookup(&self, name: &String) -> (r: Option<Node>)
        ensures
            match r {
                Some(n) => anchors_map(self.anchors@).contains_key(name@) && n@ == anchors_map(
                    self.anchors@,
                )[name@],
                None => !anchors_map(self.anchors@).contains_key(name@),
            },
    {
        proof {
            lemma_lookup_matches_map(self.anchors@, name@);
        }
        let v = &self.anchors;
        let mut i: usize = v.len();
        proof {
            assert(v@.subrange(0, i as int) == v@);
        }
        while i > 0
            invariant
                0 <= i <= v@.len(),
                v@ == self.anchors@,
                spec_lookup(v@, name@) == spec_lookup(v@.subrange(0, i as int), name@),
            decreases i,
        {
            let ghost pre = v@.subrange(0, i as int);
            i = i - 1;
            proof {
                assert(pre.drop_last() =~= v@.subrange(0, i as int));
                assert(pre.last() == v@[i as int]);
            }
            if v[i].0 == *name {
                proof {
                    assert(v@[i as int].0@ == name@);
                    assert(pre.last().0@ == name@);
                    assert(spec_lookup(pre, name@) == Some(view_node(v@[i as int].1)));
                    assert(spec_lookup(v@, name@) == Some(view_node(v@[i as int].1)));
                    lemma_lookup_matches_map(v@, name@);
                    assert(anchors_map(v@).contains_key(name@));
                    assert(anchors_map(v@)[name@] == view_node(v@[i as int].1));
                }
                let node = v[i].1.duplicate();
                proof {
                    assert(node@ == view_node(v@[i as int].1));
                }
                return Some(node);
            }
        }
        proof {
            assert(v@.subrange(0, 0) =~= Seq::<(String, Node)>::empty());
            lemma_lookup_matches_map(v@, name@);
        }
        None
    }

    fn store_anchor(&mut self, name: String, node: Node)
        ensures
            anchors_map(final(self).anchors@) == anchors_map(old(self).anchors@).insert(
                name@,
                view_node(node),
            ),
    {
        let ghost oldv = self.anchors@;
        self.anchors.push((name, node));
        proof {
            assert(self.anchors@.drop_last() =~= oldv);
        }
    }

    /// Compose one node starting at `event_index`, as `spec_compose_node`
    /// describes.
    pub fn compose_node(&mut self, events: &Vec<Event>, event_index: usize) -> (r: Result<
        (Option<Node>, usize),
        ComposerError,
    >)
        ensures
            match spec_compose_node(
                events.deep_view(),
                event_index as int,
                old(self).table(),
            ) {
                NodeRes::Done(st) => r is Ok && view_opt_node(r->Ok_0.0) == st.node
                    && r->Ok_0.1 as int == st.next && final(self).table() == st.anchors,
                NodeRes::Fail(e) => r is Err && r->Err_0@ == e,
            },
        decreases events@.len() - event_index, 1int,
    {
        let ghost s = events.deep_view();
        let ghost a0 = anchors_map(self.anchors@);
        if event_index >= events.len() {
            return Ok((None, event_index));
        }
        match &events[event_index] {
            Event::Scalar { value, start_mark, end_mark, style, anchor, tag, .. } => {
                let value_chars = crate::chars::str_to_chars(value.as_str());
                let resolved_tag = match tag {
                    Some(t) => t.clone(),
                    None => resolve_scalar_tag(&value_chars),
                };
                let node = Node::new_scalar(
                    resolved_tag,
                    value.clone(),
                    *start_mark,
                    *end_mark,
                    *style,
                );
                match anchor {
                    Some(anchor_name) => {
                        let dup = node.duplicate();
                        self.store_anchor(anchor_name.clone(), dup);
                    },
                    None => {},
                }
                Ok((Some(node), event_index + 1))
            },
            Event::Alias { anchor, .. } => {
                match self.lookup(anchor) {
                    Some(node) => Ok((Some(node), event_index + 1)),
                    None => Err(mk_alias_err(anchor)),
                }
            },
            Event::SequenceStart { start_mark, flow_style, anchor, .. } => {
                let sm = *start_mark;
                let fs = *flow_style;
                let anchor2 = match anchor {
                    Some(a) => Some(a.clone()),
                    None => None,
                };
                let result = self.compose_sequence_node(events, event_index, sm, fs);
                match result {
                    Ok((node, next)) => {
                        match (&node, anchor2) {
                            (Some(n), Some(anchor_name)) => {
                                let dup = n.duplicate();
                                self.store_anchor(anchor_name, dup);
                            },
                            _ => {},
                        }
                        Ok((node, next))
                    },
                    Err(e) => Err(e),
                }
            },
            Event::MappingStart { start_mark, flow_style, anchor, .. } => {
                let sm = *start_mark;
                let fs = *flow_style;
                let anchor2 = match anchor {
                    Some(a) => Some(a.clone()),
                    None => None,
                };
                let result = self.compose_mapping_node(events, event_index, sm, fs);
                match result {
                    Ok((node, next)) => {
                        match (&node, anchor2) {
                            (Some(n), Some(anchor_name)) => {
                                let dup = n.duplicate();
                                self.store_anchor(anchor_name, dup);
                            },
                            _ => {},
                        }
                        Ok((node, next))
                    },
                    Err(e) => Err(e),
                }
            },
            Event::StreamEnd { .. } => Ok((None, event_index)),
            Event::DocumentEnd { .. } => Ok((None, event_index)),
            _ => Ok((None, event_index + 1)),
        }
    }

    /// Compose a sequence node from its `SequenceStart` at `event_index` to
    /// its matching `SequenceEnd`.
    fn compose_sequence_node(
        &mut self,
        events: &Vec<Event>,
        event_index: usize,
        start_mark: Mark,
        flow_style: bool,
    ) -> (r: Result<(Option<Node>, usize), ComposerError>)
        requires
            event_index < events@.len(),
        ensures
            match spec_compose_items(
                events.deep_view(),
                event_index + 1,
                anchors_map(old(self).anchors@),
                start_mark,
            ) {
                ItemsRes::Done(st) => r is Ok && r->Ok_0.0 is Some && view_node(r->Ok_0.0->0)
                    == (NodeV {
                    tag: tag_seq(),
                    value: NodeValueV::Sequence(st.items),
                    start_mark,
                    end_mark: st.end_mark,
                    style: None,
                    flow_style: Some(flow_style),
                    anchor: None,
                }) && r->Ok_0.1 as int == st.next && anchors_map(final(self).anchors@)
                    == st.anchors,
                ItemsRes::Fail(e) => r is Err && r->Err_0@ == e,
            },
        decreases events@.len() - event_index, 0int,
    {
        let ghost s = events.deep_view();
        let n = events.len();
        let mut cur = event_index + 1;
        let mut items: Vec<Node> = Vec::new();
        let ghost start0 = cur as int;
        let ghost a0 = anchors_map(self.anchors@);
        proof {
            assert(view_items(items@) =~= Seq::<NodeV>::empty());
            let r0 = spec_compose_items(s, start0, a0, start_mark);
            match r0 {
                ItemsRes::Done(st) => {
                    assert(Seq::<NodeV>::empty() + st.items =~= st.items);
                },
                ItemsRes::Fail(_) => {},
            }
        }
        while cur < events.len()
            invariant
                event_index + 1 == start0,
                start0 <= cur as int <= events@.len(),
                n == events@.len(),
                s == events.deep_view(),
                s.len() == events@.len(),
                a0 == anchors_map(old(self).anchors@),
                spec_compose_items(s, start0, a0, start_mark) == items_with_prefix(
                    view_items(items@),
                    spec_compose_items(
                        s,
                        cur as int,
                        anchors_map(self.anchors@),
                        start_mark,
                    ),
                ),
            decreases events@.len() - cur,
        {
            let ghost gcur = cur as int;
            let ghost acur = anchors_map(self.anchors@);
            let is_end = matches!(&events[cur], Event::SequenceEnd { .. });
            if is_end {
                match &events[cur] {
                    Event::SequenceEnd { end_mark, .. } => {
                        let tag = tag_seq_string();
                        let ghost items_snap = items@;
                        let node = Node::new_sequence(
                            tag,
                            items,
                            start_mark,
                            *end_mark,
                            flow_style,
                        );
                        proof {
                            assert(view_items(items_snap) + Seq::<NodeV>::empty() =~= view_items(
                                items_snap,
                            ));
                        }
                        return Ok((Some(node), cur + 1));
                    },
                    _ => {
                        proof {
                            assert(false);
                        }
                        return Err(mk_seq_end_err(start_mark));
                    },
                }
            }
            let is_stream_end = matches!(
                &events[cur],
                Event::StreamEnd { .. } | Event::DocumentEnd { .. }
            );
            if is_stream_end {
                return Err(mk_seq_end_err(start_mark));
            }
            let step = self.compose_node(events, cur);
            match step {
                Err(e) => {
                    return Err(e);
                },
                Ok((item_node, next)) => {
                    let j: usize = if next < cur + 1 {
                        cur + 1
                    } else if next > n {
                        n
                    } else {
                        next
                    };
                    let ghost items_pre = items@;
                    match item_node {
                        Some(item) => {
                            items.push(item);
                            proof {
                                assert(items@.drop_last() =~= items_pre);
                            }
                        },
                        None => {},
                    }
                    proof {
                        lemma_items_prefix_assoc(
                            s,
                            start0,
                            a0,
                            start_mark,
                            items_pre,
                            items@,
                            gcur,
                            j as int,
                            acur,
                            anchors_map(self.anchors@),
                        );
                    }
                    cur = j;
                },
            }
        }
        Err(mk_seq_end_err(start_mark))
    }

    /// Compose a mapping node from its `MappingStart` at `event_index` to
    /// its matching `MappingEnd`.
    fn compose_mapping_node(
        &mut self,
        events: &Vec<Event>,
        event_index: usize,
        start_mark: Mark,
        flow_style: bool,
    ) -> (r: Result<(Option<Node>, usize), ComposerError>)
        requires
            event_index < events@.len(),
        ensures
            match spec_compose_pairs(
                events.deep_view(),
                event_index + 1,
                anchors_map(old(self).anchors@),
                start_mark,
            ) {
                PairsRes::Done(st) => r is Ok && r->Ok_0.0 is Some && view_node(r->Ok_0.0->0)
                    == (NodeV {
                    tag: tag_map(),
                    value: NodeValueV::Mapping(st.pairs),
                    start_mark,
                    end_mark: st.end_mark,
                    style: None,
                    flow_style: Some(flow_style),
                    anchor: None,
                }) && r->Ok_0.1 as int == st.next && anchors_map(final(self).anchors@)
                    == st.anchors,
                PairsRes::Fail(e) => r is Err && r->Err_0@ == e,
            },
        decreases events@.len() - event_index, 0int,
    {
        let ghost s = events.deep_view();
        let n = events.len();
        let mut cur = event_index + 1;
        let mut pairs: Vec<(Node, Node)> = Vec::new();
        let ghost start0 = cur as int;
        let ghost a0 = anchors_map(self.anchors@);
        proof {
            assert(view_pairs(pairs@) =~= Seq::<(NodeV, NodeV)>::empty());
            let r0 = spec_compose_pairs(s, start0, a0, start_mark);
            match r0 {
                PairsRes::Done(st) => {
                    assert(Seq::<(NodeV, NodeV)>::empty() + st.pairs =~= st.pairs);
                },
                PairsRes::Fail(_) => {},
            }
        }
        while cur < events.len()
            invariant
                event_index + 1 == start0,
                start0 <= cur as int <= events@.len(),
                n == events@.len(),
                s == events.deep_view(),
                s.len() == events@.len(),
                a0 == anchors_map(old(self).anchors@),
                spec_compose_pairs(s, start0, a0, start_mark) == pairs_with_prefix(
                    view_pairs(pairs@),
                    spec_compose_pairs(
                        s,
                        cur as int,
                        anchors_map(self.anchors@),
                        start_mark,
                    ),
                ),
            decreases events@.len() - cur,
        {
            let ghost gcur = cur as int;
            let ghost acur = anchors_map(self.anchors@);
            let is_end = matches!(&events[cur], Event::MappingEnd { .. });
            if is_end {
                match &events[cur] {
                    Event::MappingEnd { end_mark, .. } => {
                        let tag = tag_map_string();
                        let ghost pairs_snap = pairs@;
                        let node = Node::new_mapping(tag, pairs, start_mark, *end_mark, flow_style);
                        proof {
                            assert(view_pairs(pairs_snap) + Seq::<(NodeV, NodeV)>::empty()
                                =~= view_pairs(pairs_snap));
                        }
                        return Ok((Some(node), cur + 1));
                    },
                    _ => {
                        proof {
                            assert(false);
                        }
                        return Err(mk_map_end_err(start_mark));
                    },
                }
            }
            let is_stream_end = matches!(
                &events[cur],
                Event::StreamEnd { .. } | Event::DocumentEnd { .. }
            );
            if is_stream_end {
                return Err(mk_map_end_err(start_mark));
            }
            let kstep = self.compose_node(events, cur);
            match kstep {
                Err(e) => {
                    return Err(e);
                },
                Ok((key_node, n1)) => {
                    let j1: usize = if n1 < cur {
                        cur
                    } else if n1 > n {
                        n
                    } else {
                        n1
                    };
                    let ghost a1 = anchors_map(self.anchors@);
                    let vstep = self.compose_node(events, j1);
                    match vstep {
                        Err(e) => {
                            return Err(e);
                        },
                        Ok((value_node, n2)) => {
                            let j2: usize = if n2 < cur + 1 {
                                cur + 1
                            } else if n2 > n {
                                n
                            } else {
                                n2
                            };
                            let ghost pairs_pre = pairs@;
                            match (key_node, value_node) {
                                (Some(k), Some(v)) => {
                                    pairs.push((k, v));
                                    proof {
                                        assert(pairs@.drop_last() =~= pairs_pre);
                                    }
                                },
                                _ => {},
                            }
                            proof {
                                lemma_pairs_prefix_assoc(
                                    s,
                                    start0,
                                    a0,
                                    start_mark,
                                    pairs_pre,
                                    pairs@,
                                    gcur,
                                    j2 as int,
                                    acur,
                                    anchors_map(self.anchors@),
                                );
                            }
                            cur = j2;
                        },
                    }
                },
            }
        }
        Err(mk_map_end_err(start_mark))
    }

    /// Compose one document, as `spec_compose_document` describes; the
    /// anchor table is cleared on success.
    pub fn compose_document(&mut self, events: &Vec<Event>) -> (r: Result<
        Option<Node>,
        ComposerError,
    >)
        requires
            old(self).table() == Map::<Seq<char>, NodeV>::empty(),
        ensures
            match spec_compose_document(events.deep_view()) {
                DocRes::Done(n) => r is Ok && view_opt_node(r->Ok_0) == n
                    && final(self).table() == Map::<Seq<char>, NodeV>::empty(),
                DocRes::Fail(e) => r is Err && r->Err_0@ == e,
            },
    {
        let mut event_index: usize = 0;
        if events.len() > 0 {
            let is_ss = matches!(&events[0], Event::StreamStart { .. });
            if is_ss {
                event_index = 1;
            }
        }
        if event_index < events.len() {
            let is_ds = matches!(&events[event_index], Event::DocumentStart { .. });
            if is_ds {
                event_index = event_index + 1;
            }
        }
        match self.compose_node(events, event_index) {
            Ok((node, _next_index)) => {
                self.clear();
                Ok(node)
            },
            Err(e) => Err(e),
        }
    }
}

/// An items result with `prefix` prepended to its item list.
pub open spec fn items_with_prefix(prefix: Seq<NodeV>, r: ItemsRes) -> ItemsRes {
    match r {
        ItemsRes::Done(st) => ItemsRes::Done(
            ItemsStep {
                items: prefix + st.items,
                end_mark: st.end_mark,
                next: st.next,
                anchors: st.anchors,
            },
        ),
        ItemsRes::Fail(e) => ItemsRes::Fail(e),
    }
}

/// A pairs result with `prefix` prepended to its pair list.
pub open spec fn pairs_with_prefix(prefix: Seq<(NodeV, NodeV)>, r: PairsRes) -> PairsRes {
    match r {
        PairsRes::Done(st) => PairsRes::Done(
            PairsStep {
                pairs: prefix + st.pairs,
                end_mark: st.end_mark,
                next: st.next,
                anchors: st.anchors,
            },
        ),
        PairsRes::Fail(e) => PairsRes::Fail(e),
    }
}

/// One loop step of sequence composition preserves the prefix invariant.
proof fn lemma_items_prefix_assoc(
    s: Seq<EventV>,
    start0: int,
    a0: Map<Seq<char>, NodeV>,
    start_mark: Mark,
    items_pre: Seq<Node>,
    items_post: Seq<Node>,
    cur: int,
    j: int,
    acur: Map<Seq<char>, NodeV>,
    apost: Map<Seq<char>, NodeV>,
)
    requires
        0 <= cur < s.len(),
        !(s[cur] is SequenceEnd),
        !(s[cur] is StreamEnd),
        !(s[cur] is DocumentEnd),
        spec_compose_node(s, cur, acur) is Done,
        ({
            let st = spec_compose_node(s, cur, acur)->Done_0;
            &&& j == clamp_idx(st.next, cur + 1, s.len() as int)
            &&& apost == st.anchors
            &&& (match st.node {
                Some(n) => view_items(items_post) == view_items(items_pre).push(n),
                None => items_post == items_pre,
            })
        }),
        spec_compose_items(s, start0, a0, start_mark) == items_with_prefix(
            view_items(items_pre),
            spec_compose_items(s, cur, acur, start_mark),
        ),
    ensures
        spec_compose_items(s, start0, a0, start_mark) == items_with_prefix(
            view_items(items_post),
            spec_compose_items(s, j, apost, start_mark),
        ),
{
    let st = spec_compose_node(s, cur, acur)->Done_0;
    let inner = spec_compose_items(s, j, apost, start_mark);
    match inner {
        ItemsRes::Fail(e) => {
            assert(spec_compose_items(s, cur, acur, start_mark) == ItemsRes::Fail(e));
        },
        ItemsRes::Done(rest) => {
            let head = match st.node {
                Some(n) => seq![n],
                None => Seq::<NodeV>::empty(),
            };
            assert(spec_compose_items(s, cur, acur, start_mark) == ItemsRes::Done(
                ItemsStep {
                    items: head + rest.items,
                    end_mark: rest.end_mark,
                    next: rest.next,
                    anchors: rest.anchors,
                },
            ));
            assert(view_items(items_pre) + (head + rest.items) =~= view_items(items_post)
                + rest.items);
        },
    }
}

/// One loop step of mapping composition preserves the prefix invariant.
proof fn lemma_pairs_prefix_assoc(
    s: Seq<EventV>,
    start0: int,
    a0: Map<Seq<char>, NodeV>,
    start_mark: Mark,
    pairs_pre: Seq<(Node, Node)>,
    pairs_post: Seq<(Node, Node)>,
    cur: int,
    j2: int,
    acur: Map<Seq<char>, NodeV>,
    apost: Map<Seq<char>, NodeV>,
)
    requires
        0 <= cur < s.len(),
        !(s[cur] is MappingEnd),
        !(s[cur] is StreamEnd),
        !(s[cur] is DocumentEnd),
        spec_compose_node(s, cur, acur) is Done,
        ({
            let kst = spec_compose_node(s, cur, acur)->Done_0;
            let j1 = clamp_idx(kst.next, cur, s.len() as int);
            &&& spec_compose_node(s, j1, kst.anchors) is Done
            &&& ({
                let vst = spec_compose_node(s, j1, kst.anchors)->Done_0;
                &&& j2 == clamp_idx(vst.next, cur + 1, s.len() as int)
                &&& apost == vst.anchors
                &&& (match (kst.node, vst.node) {
                    (Some(k), Some(v)) => view_pairs(pairs_post) == view_pairs(pairs_pre).push(
                        (k, v),
                    ),
                    _ => pairs_post == pairs_pre,
                })
            })
        }),
        spec_compose_pairs(s, start0, a0, start_mark) == pairs_with_prefix(
            view_pairs(pairs_pre),
            spec_compose_pairs(s, cur, acur, start_mark),
        ),
    ensures
        spec_compose_pairs(s, start0, a0, start_mark) == pairs_with_prefix(
            view_pairs(pairs_post),
            spec_compose_pairs(s, j2, apost, start_mark),
        ),
{
    let kst = spec_compose_node(s, cur, acur)->Done_0;
    let j1 = clamp_idx(kst.next, cur, s.len() as int);
    let vst = spec_compose_node(s, j1, kst.anchors)->Done_0;
    let inner = spec_compose_pairs(s, j2, apost, start_mark);
    match inner {
        PairsRes::Fail(e) => {
            assert(spec_compose_pairs(s, cur, acur, start_mark) == PairsRes::Fail(e));
        },
        PairsRes::Done(rest) => {
            let head = match (kst.node, vst.node) {
                (Some(k), Some(v)) => seq![(k, v)],
                _ => Seq::<(NodeV, NodeV)>::empty(),
            };
            assert(spec_compose_pairs(s, cur, acur, start_mark) == PairsRes::Done(
                PairsStep {
                    pairs: head + rest.pairs,
                    end_mark: rest.end_mark,
                    next: rest.next,
                    anchors: rest.anchors,
                },
            ));
            assert(view_pairs(pairs_pre) + (head + rest.pairs) =~= view_pairs(pairs_post)
                + rest.pairs);
        },
    }
}

/// Law: resolving an alias copies the anchored node. Composing at an alias
/// event whose name the anchor table holds yields exactly the node stored
/// under that name — the same tag and the same content — and moves past the
/// one event; the table itself is unchanged.
pub proof fn lemma_alias_resolves_to_copy(
    s: Seq<EventV>,
    i: int,
    a: Map<Seq<char>, NodeV>,
    name: Seq<char>,
)
    requires
        0 <= i < s.len(),
        s[i] matches EventV::Alias { anchor, .. } && anchor == name,
        a.contains_key(name),
    ensures
        spec_compose_node(s, i, a) == NodeRes::Done(
            NodeStep { node: Some(a[name]), next: i + 1, anchors: a },
        ),
{
}

/// Law: an alias whose name is absent from the anchor table fails
/// composition, and the failure's message carries that name.
pub proof fn lemma_unknown_alias_fails(
    s: Seq<EventV>,
    i: int,
    a: Map<Seq<char>, NodeV>,
    name: Seq<char>,
)
    requires
        0 <= i < s.len(),
        s[i] matches EventV::Alias { anchor, .. } && anchor == name,
        !a.contains_key(name),
    ensures
        spec_compose_node(s, i, a) == NodeRes::Fail(alias_err(name)),
        crate::chars::spec_contains_seq(alias_err(name).message, name),
{
    reveal_strlit("Alias '");
    assert("Alias '"@.len() == 7);
    let m = alias_err(name).message;
    assert(m.subrange(7, 7 + name.len() as int) =~= name);
}

/// Law: each document is composed against an empty anchor table, so an
/// anchor defined in an earlier document is not visible: a document whose
/// root is an alias always fails with that alias unknown.
pub proof fn lemma_documents_isolate_anchors(s: Seq<EventV>, name: Seq<char>)
    requires
        ({
            let i0: int = if s.len() > 0 && (s[0] is StreamStart) {
                1
            } else {
                0
            };
            let i1: int = if i0 < s.len() && (s[i0] is DocumentStart) {
                i0 + 1
            } else {
                i0
            };
            0 <= i1 < s.len() && (s[i1] matches EventV::Alias { anchor, .. } && anchor == name)
        }),
    ensures
        spec_compose_document(s) == DocRes::Fail(alias_err(name)),
{
    let i0: int = if s.len() > 0 && (s[0] is StreamStart) {
        1
    } else {
        0
    };
    let i1: int = if i0 < s.len() && (s[i0] is DocumentStart) {
        i0 + 1
    } else {
        i0
    };
    lemma_unknown_alias_fails(s, i1, Map::empty(), name);
}

/// Compose the first document of an event stream, yielding `None` when
/// composition fails (matching the lenient top-level entry point).
pub fn compose_rust(events: &Vec<Event>) -> (r: Option<Node>)
    ensures
        match spec_compose_document(events.deep_view()) {
            DocRes::Done(n) => view_opt_node(r) == n,
            DocRes::Fail(e) => r is None,
        },
{
    if events.len() == 0 {
        proof {
            let s = events.deep_view();
            assert(s.len() == 0);
        }
        return None;
    }
    let mut composer = Composer::new();
    match composer.compose_document(events) {
        Ok(node) => node,
        Err(_) => None,
    }
}

/// Compose one document from an event stream (an alias of `compose_rust`
/// kept for the same callers).
pub fn compose_document_rust(events: &Vec<Event>) -> (r: Option<Node>)
    ensures
        match spec_compose_document(events.deep_view()) {
            DocRes::Done(n) => view_opt_node(r) == n,
            DocRes::Fail(e) => r is None,
        },
{
    compose_rust(events)
}

} // verus!
