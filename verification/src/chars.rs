//! Character-level utilities: the whole pipeline works over `Vec<char>`
//! internally, and these helpers give it trimming, searching and line
//! splitting with exact specifications.

use vstd::prelude::*;

verus! {

/// Characters treated as horizontal padding when trimming and measuring
/// indentation: space, tab and carriage return.
pub open spec fn is_blank(c: char) -> bool {
    c == ' ' || c == '\t' || c == '\r'
}

/// Exec test mirroring `is_blank`.
pub fn blank_char(c: char) -> (r: bool)
    ensures
        r == is_blank(c),
{
    c == ' ' || c == '\t' || c == '\r'
}

/// What remains of `s` after removing every leading blank character.
pub open spec fn spec_trim_start(s: Seq<char>) -> Seq<char>
    decreases s.len(),
{
    if s.len() > 0 && is_blank(s[0]) {
        spec_trim_start(s.drop_first())
    } else {
        s
    }
}

/// What remains of `s` after removing every trailing blank character.
pub open spec fn spec_trim_end(s: Seq<char>) -> Seq<char>
    decreases s.len(),
{
    if s.len() > 0 && is_blank(s[s.len() - 1]) {
        spec_trim_end(s.drop_last())
    } else {
        s
    }
}

/// `s` with blank characters removed from both ends.
pub open spec fn spec_trim(s: Seq<char>) -> Seq<char> {
    spec_trim_end(spec_trim_start(s))
}

/// The number of leading blank characters of `s` (its indentation).
pub open spec fn spec_indent(s: Seq<char>) -> nat
    decreases s.len(),
{
    if s.len() > 0 && is_blank(s[0]) {
        1 + spec_indent(s.drop_first())
    } else {
        0
    }
}

proof fn lemma_trim_start_subrange(s: Seq<char>, i: int)
    requires
        0 <= i <= s.len(),
        forall|j: int| 0 <= j < i ==> is_blank(s[j]),
    ensures
        spec_trim_start(s) == spec_trim_start(s.subrange(i, s.len() as int)),
    decreases i,
{
    if i > 0 {
        assert(is_blank(s[0]));
        let tail = s.subrange(1, s.len() as int);
        assert(s.drop_first() == tail);
        assert forall|j: int| 0 <= j < i - 1 implies is_blank(tail[j]) by {
            assert(tail[j] == s[j + 1]);
        }
        lemma_trim_start_subrange(tail, i - 1);
        assert(tail.subrange(i - 1, tail.len() as int) == s.subrange(i, s.len() as int));
    } else {
        assert(s.subrange(0, s.len() as int) == s);
    }
}

/// `spec_trim_start(s)` is exactly the suffix that starts at `spec_indent(s)`.
pub proof fn lemma_trim_start_is_suffix(s: Seq<char>)
    ensures
        spec_indent(s) <= s.len(),
        spec_trim_start(s) == s.subrange(spec_indent(s) as int, s.len() as int),
    decreases s.len(),
{
    if s.len() > 0 && is_blank(s[0]) {
        lemma_trim_start_is_suffix(s.drop_first());
        assert(s.drop_first() == s.subrange(1, s.len() as int));
        assert(s.drop_first().subrange(
            spec_indent(s.drop_first()) as int,
            s.drop_first().len() as int,
        ) == s.subrange(spec_indent(s) as int, s.len() as int));
    } else {
        assert(s.subrange(0, s.len() as int) == s);
    }
}

proof fn lemma_trim_end_subrange(s: Seq<char>, i: int)
    requires
        0 <= i <= s.len(),
        forall|j: int| i <= j < s.len() ==> is_blank(s[j]),
    ensures
        spec_trim_end(s) == spec_trim_end(s.subrange(0, i)),
    decreases s.len() - i,
{
    if i < s.len() {
        assert(s.drop_last() == s.subrange(0, s.len() - 1));
        assert(s.subrange(0, s.len() - 1).subrange(0, i) == s.subrange(0, i));
        lemma_trim_end_subrange(s.subrange(0, s.len() - 1), i);
    } else {
        assert(s.subrange(0, s.len() as int) == s);
    }
}

/// The number of leading blank characters, by a forward scan.
pub fn indent_of(v: &Vec<char>) -> (r: usize)
    ensures
        r == spec_indent(v@),
        r <= v@.len(),
{
    let mut i: usize = 0;
    proof {
        assert(v@.subrange(0, v@.len() as int) == v@);
    }
    while i < v.len() && blank_char(v[i])
        invariant
            0 <= i <= v@.len(),
            forall|j: int| 0 <= j < i ==> is_blank(v@[j]),
            spec_indent(v@) == i + spec_indent(v@.subrange(i as int, v@.len() as int)),
        decreases v@.len() - i,
    {
        proof {
            let rest = v@.subrange(i as int, v@.len() as int);
            assert(rest[0] == v@[i as int]);
            assert(rest.drop_first() == v@.subrange(i + 1, v@.len() as int));
        }
        i = i + 1;
    }
    proof {
        let rest = v@.subrange(i as int, v@.len() as int);
        if i < v@.len() {
            assert(rest[0] == v@[i as int]);
        }
        assert(spec_indent(rest) == 0);
    }
    i
}

/// `v` with blank characters removed from both ends.
pub fn trim_chars(v: &Vec<char>) -> (r: Vec<char>)
    ensures
        r@ == spec_trim(v@),
{
    let start = indent_of(v);
    proof {
        lemma_trim_start_is_suffix(v@);
    }
    let mut end: usize = v.len();
    while end > start && blank_char(v[end - 1])
        invariant
            start <= end <= v@.len(),
            start == spec_indent(v@),
            forall|j: int| end <= j < v@.len() ==> is_blank(v@[j]),
        decreases end,
    {
        end = end - 1;
    }
    let mut r: Vec<char> = Vec::new();
    let mut i: usize = start;
    while i < end
        invariant
            start <= i <= end <= v@.len(),
            r@ == v@.subrange(start as int, i as int),
        decreases end - i,
    {
        r.push(v[i]);
        proof {
            assert(v@.subrange(start as int, i + 1) == v@.subrange(start as int, i as int).push(
                v@[i as int],
            ));
        }
        i = i + 1;
    }
    proof {
        let ts = spec_trim_start(v@);
        lemma_trim_start_is_suffix(v@);
        lemma_trim_end_subrange(ts, end - start);
        assert(ts.subrange(0, end - start) == v@.subrange(start as int, end as int));
        let tail = ts.subrange(0, end - start);
        if end > start {
            assert(tail[tail.len() - 1] == v@[end - 1]);
            assert(!is_blank(tail[tail.len() - 1]));
        }
        assert(spec_trim_end(tail) == tail);
    }
    r
}

/// `v` with blank characters removed from the end only.
pub fn trim_end_chars(v: &Vec<char>) -> (r: Vec<char>)
    ensures
        r@ == spec_trim_end(v@),
{
    let mut end: usize = v.len();
    while end > 0 && blank_char(v[end - 1])
        invariant
            0 <= end <= v@.len(),
            forall|j: int| end <= j < v@.len() ==> is_blank(v@[j]),
        decreases end,
    {
        end = end - 1;
    }
    let mut r: Vec<char> = Vec::new();
    let mut i: usize = 0;
    while i < end
        invariant
            0 <= i <= end <= v@.len(),
            r@ == v@.subrange(0, i as int),
        decreases end - i,
    {
        r.push(v[i]);
        proof {
            assert(v@.subrange(0, i + 1) == v@.subrange(0, i as int).push(v@[i as int]));
        }
        i = i + 1;
    }
    proof {
        lemma_trim_end_subrange(v@, end as int);
        let tail = v@.subrange(0, end as int);
        if end > 0 {
            assert(tail[tail.len() - 1] == v@[end - 1]);
        }
        assert(spec_trim_end(tail) == tail);
    }
    r
}

/// Characters treated as whitespace when trimming whole documents: the
/// blank characters and the line feed.
pub open spec fn is_wsnl(c: char) -> bool {
    is_blank(c) || c == '\n'
}

/// What remains of `s` after removing every leading whitespace character.
pub open spec fn spec_trim_start_ws(s: Seq<char>) -> Seq<char>
    decreases s.len(),
{
    if s.len() > 0 && is_wsnl(s[0]) {
        spec_trim_start_ws(s.drop_first())
    } else {
        s
    }
}

/// What remains of `s` after removing every trailing whitespace character.
pub open spec fn spec_trim_end_ws(s: Seq<char>) -> Seq<char>
    decreases s.len(),
{
    if s.len() > 0 && is_wsnl(s[s.len() - 1]) {
        spec_trim_end_ws(s.drop_last())
    } else {
        s
    }
}

/// `s` with whitespace, line feeds included, removed from both ends.
pub open spec fn spec_trim_ws(s: Seq<char>) -> Seq<char> {
    spec_trim_end_ws(spec_trim_start_ws(s))
}

proof fn lemma_trim_start_ws_subrange(s: Seq<char>, i: int)
    requires
        0 <= i <= s.len(),
        forall|j: int| 0 <= j < i ==> is_wsnl(s[j]),
    ensures
        spec_trim_start_ws(s) == spec_trim_start_ws(s.subrange(i, s.len() as int)),
    decreases i,
{
    if i > 0 {
        assert(is_wsnl(s[0]));
        let tail = s.subrange(1, s.len() as int);
        assert(s.drop_first() == tail);
        assert forall|j: int| 0 <= j < i - 1 implies is_wsnl(tail[j]) by {
            assert(tail[j] == s[j + 1]);
        }
        lemma_trim_start_ws_subrange(tail, i - 1);
        assert(tail.subrange(i - 1, tail.len() as int) == s.subrange(i, s.len() as int));
    } else {
        assert(s.subrange(0, s.len() as int) == s);
    }
}

proof fn lemma_trim_end_ws_subrange(s: Seq<char>, i: int)
    requires
        0 <= i <= s.len(),
        forall|j: int| i <= j < s.len() ==> is_wsnl(s[j]),
    ensures
        spec_trim_end_ws(s) == spec_trim_end_ws(s.subrange(0, i)),
    decreases s.len() - i,
{
    if i < s.len() {
        assert(s.drop_last() == s.subrange(0, s.len() - 1));
        assert(s.subrange(0, s.len() - 1).subrange(0, i) == s.subrange(0, i));
        lemma_trim_end_ws_subrange(s.subrange(0, s.len() - 1), i);
    } else {
        assert(s.subrange(0, s.len() as int) == s);
    }
}

fn wsnl_char(c: char) -> (r: bool)
    ensures
        r == is_wsnl(c),
{
    c == ' ' || c == '\t' || c == '\r' || c == '\n'
}

/// `v` with whitespace, line feeds included, removed from both ends.
pub fn trim_ws_chars(v: &Vec<char>) -> (r: Vec<char>)
    ensures
        r@ == spec_trim_ws(v@),
{
    let mut start: usize = 0;
    while start < v.len() && wsnl_char(v[start])
        invariant
            0 <= start <= v@.len(),
            forall|j: int| 0 <= j < start ==> is_wsnl(v@[j]),
        decreases v@.len() - start,
    {
        start = start + 1;
    }
    proof {
        lemma_trim_start_ws_subrange(v@, start as int);
        let rest = v@.subrange(start as int, v@.len() as int);
        if start < v@.len() {
            assert(rest[0] == v@[start as int]);
        }
        assert(spec_trim_start_ws(rest) == rest);
    }
    let mut end: usize = v.len();
    while end > start && wsnl_char(v[end - 1])
        invariant
            start <= end <= v@.len(),
            forall|j: int| end <= j < v@.len() ==> is_wsnl(v@[j]),
        decreases end,
    {
        end = end - 1;
    }
    let r = subvec(v, start, end);
    proof {
        let ts = spec_trim_start_ws(v@);
        assert(ts == v@.subrange(start as int, v@.len() as int));
        assert forall|j: int| end - start <= j < ts.len() implies is_wsnl(ts[j]) by {
            assert(ts[j] == v@[start + j]);
        }
        lemma_trim_end_ws_subrange(ts, end - start);
        assert(ts.subrange(0, end - start) == v@.subrange(start as int, end as int));
        let tail = ts.subrange(0, end - start);
        if end > start {
            assert(tail[tail.len() - 1] == v@[end - 1]);
        }
        assert(spec_trim_end_ws(tail) == tail);
    }
    r
}

/// The first index at or after `from` where `c` occurs in `s`, or -1.
pub open spec fn spec_find_from(s: Seq<char>, c: char, from: int) -> int
    decreases s.len() - from,
{
    if from < 0 || from >= s.len() {
        -1
    } else if s[from] == c {
        from
    } else {
        spec_find_from(s, c, from + 1)
    }
}

/// Forward scan for a character, mirroring `spec_find_from`.
pub fn find_from(v: &Vec<char>, c: char, from: usize) -> (r: Option<usize>)
    ensures
        r is Some ==> r->0 == spec_find_from(v@, c, from as int) && from <= r->0 < v@.len()
            && v@[r->0 as int] == c,
        r is None ==> spec_find_from(v@, c, from as int) == -1,
{
    let mut i: usize = from;
    while i < v.len()
        invariant
            from <= i,
            spec_find_from(v@, c, from as int) == spec_find_from(v@, c, i as int),
        decreases v@.len() - i,
    {
        if v[i] == c {
            return Some(i);
        }
        i = i + 1;
    }
    None
}

/// Whether `c` occurs anywhere in `s`.
pub open spec fn spec_contains_char(s: Seq<char>, c: char) -> bool {
    exists|i: int| 0 <= i < s.len() && s[i] == c
}

/// Whether `c` occurs anywhere in `v`.
pub fn contains_char(v: &Vec<char>, c: char) -> (r: bool)
    ensures
        r == spec_contains_char(v@, c),
{
    let mut i: usize = 0;
    while i < v.len()
        invariant
            0 <= i <= v@.len(),
            forall|j: int| 0 <= j < i ==> v@[j] != c,
        decreases v@.len() - i,
    {
        if v[i] == c {
            return true;
        }
        i = i + 1;
    }
    false
}

/// Whether `s` begins with the pattern `w`.
pub open spec fn spec_starts_with(s: Seq<char>, w: Seq<char>) -> bool {
    s.len() >= w.len() && s.subrange(0, w.len() as int) == w
}

/// Whether `v` begins with the literal `w`.
pub fn starts_with_lit(v: &Vec<char>, w: &str) -> (r: bool)
    ensures
        r == spec_starts_with(v@, w@),
{
    let wlen = w.unicode_len();
    if v.len() < wlen {
        proof {
            assert(!spec_starts_with(v@, w@));
        }
        return false;
    }
    let mut i: usize = 0;
    while i < wlen
        invariant
            0 <= i <= wlen == w@.len() <= v@.len(),
            forall|j: int| 0 <= j < i ==> v@[j] == w@[j],
        decreases wlen - i,
    {
        if v[i] != w.get_char(i) {
            proof {
                assert(v@.subrange(0, w@.len() as int)[i as int] != w@[i as int]);
            }
            return false;
        }
        i = i + 1;
    }
    proof {
        assert(v@.subrange(0, w@.len() as int) =~= w@);
    }
    true
}

/// Whether the characters of `v` are exactly those of `w`.
pub fn eq_lit(v: &Vec<char>, w: &str) -> (r: bool)
    ensures
        r == (v@ == w@),
{
    let wlen = w.unicode_len();
    if v.len() != wlen {
        return false;
    }
    let mut i: usize = 0;
    while i < wlen
        invariant
            0 <= i <= wlen == w@.len() == v@.len(),
            forall|j: int| 0 <= j < i ==> v@[j] == w@[j],
        decreases wlen - i,
    {
        if v[i] != w.get_char(i) {
            return false;
        }
        i = i + 1;
    }
    proof {
        assert(v@ =~= w@);
    }
    true
}

/// Whether `needle` occurs as a contiguous run inside `hay`.
pub open spec fn spec_contains_seq(hay: Seq<char>, needle: Seq<char>) -> bool {
    exists|i: int|
        0 <= i && i + needle.len() <= hay.len() && #[trigger] hay.subrange(i, i + needle.len())
            == needle
}

/// Substring search for a literal pattern.
pub fn contains_lit(v: &Vec<char>, w: &str) -> (r: bool)
    ensures
        r == spec_contains_seq(v@, w@),
{
    let wlen = w.unicode_len();
    if wlen > v.len() {
        return false;
    }
    if wlen == 0 {
        proof {
            let n = w@.len() as int;
            assert(v@.subrange(0, 0 + n) =~= w@);
        }
        return true;
    }
    let vlen = v.len();
    let last = vlen - wlen;
    let mut i: usize = 0;
    while i <= last
        invariant
            0 <= i <= last + 1,
            vlen == v@.len(),
            last == v@.len() - wlen,
            1 <= wlen,
            wlen == w@.len() <= v@.len(),
            forall|k: int|
                0 <= k < i ==> #[trigger] v@.subrange(k, k + w@.len()) != w@,
        decreases last + 1 - i,
    {
        let mut j: usize = 0;
        let mut all: bool = true;
        while j < wlen
            invariant
                0 <= j <= wlen == w@.len(),
                i <= last,
                1 <= wlen,
                vlen == v@.len(),
                last == v@.len() - wlen,
                all ==> forall|m: int| 0 <= m < j ==> v@[i + m] == w@[m],
                !all ==> v@.subrange(i as int, i + w@.len()) != w@,
            decreases wlen - j,
        {
            if v[i + j] != w.get_char(j) {
                proof {
                    assert(v@.subrange(i as int, i + w@.len())[j as int] != w@[j as int]);
                }
                all = false;
                j = wlen;
            } else {
                j = j + 1;
            }
        }
        if all {
            proof {
                assert(v@.subrange(i as int, i + w@.len()) =~= w@);
            }
            return true;
        }
        i = i + 1;
    }
    proof {
        assert forall|k: int| 0 <= k && k + w@.len() <= v@.len() implies #[trigger] v@.subrange(
            k,
            k + w@.len(),
        ) != w@ by {
            assert(k < i);
        }
    }
    false
}

/// Append the characters of `src` to `dst`.
pub fn append_to(dst: &mut Vec<char>, src: &Vec<char>)
    ensures
        final(dst)@ == old(dst)@ + src@,
{
    let ghost d0 = dst@;
    let mut i: usize = 0;
    proof {
        assert(d0 + src@.subrange(0, 0) =~= d0);
    }
    while i < src.len()
        invariant
            0 <= i <= src@.len(),
            dst@ == d0 + src@.subrange(0, i as int),
        decreases src@.len() - i,
    {
        dst.push(src[i]);
        proof {
            assert(d0 + src@.subrange(0, i + 1) =~= (d0 + src@.subrange(0, i as int)).push(
                src@[i as int],
            ));
        }
        i = i + 1;
    }
    proof {
        assert(src@.subrange(0, src@.len() as int) == src@);
    }
}

/// Append a line and a line feed to `dst`.
pub fn push_line(dst: &mut Vec<char>, line: &Vec<char>)
    ensures
        final(dst)@ == old(dst)@ + line@ + "\n"@,
{
    append_to(dst, line);
    let ghost mid = dst@;
    dst.push('\n');
    proof {
        reveal_strlit("\n");
        assert(dst@ =~= mid + "\n"@);
    }
}

/// A sub-vector copy of `v` over `[from, to)`.
pub fn subvec(v: &Vec<char>, from: usize, to: usize) -> (r: Vec<char>)
    requires
        from <= to <= v@.len(),
    ensures
        r@ == v@.subrange(from as int, to as int),
{
    let mut r: Vec<char> = Vec::new();
    let mut i: usize = from;
    while i < to
        invariant
            from <= i <= to <= v@.len(),
            r@ == v@.subrange(from as int, i as int),
        decreases to - i,
    {
        r.push(v[i]);
        proof {
            assert(v@.subrange(from as int, i + 1) == v@.subrange(from as int, i as int).push(
                v@[i as int],
            ));
        }
        i = i + 1;
    }
    r
}

/// A sub-vector copy of a byte vector over `[from, to)`.
pub fn subvec_bytes(v: &Vec<u8>, from: usize, to: usize) -> (r: Vec<u8>)
    requires
        from <= to <= v@.len(),
    ensures
        r@ == v@.subrange(from as int, to as int),
{
    let mut r: Vec<u8> = Vec::new();
    let mut i: usize = from;
    while i < to
        invariant
            from <= i <= to <= v@.len(),
            r@ == v@.subrange(from as int, i as int),
        decreases to - i,
    {
        r.push(v[i]);
        proof {
            assert(v@.subrange(from as int, i + 1) == v@.subrange(from as int, i as int).push(
                v@[i as int],
            ));
        }
        i = i + 1;
    }
    r
}

/// The characters of `s`, as a vector.
pub fn str_to_chars(s: &str) -> (v: Vec<char>)
    ensures
        v@ == s@,
{
    let n = s.unicode_len();
    let mut v: Vec<char> = Vec::new();
    let mut i: usize = 0;
    while i < n
        invariant
            0 <= i <= n == s@.len(),
            v@ == s@.subrange(0, i as int),
        decreases n - i,
    {
        v.push(s.get_char(i));
        proof {
            assert(s@.subrange(0, i + 1) == s@.subrange(0, i as int).push(s@[i as int]));
        }
        i = i + 1;
    }
    proof {
        assert(s@.subrange(0, s@.len() as int) == s@);
    }
    v
}

/// Relies on `String`'s `FromIterator<char>` impl: collecting chars yields a
/// string whose characters are exactly those collected, in order.
#[verifier::external_body]
pub fn chars_to_string(v: &Vec<char>) -> (s: String)
    ensures
        s@ == v@,
{
    v.iter().collect()
}

/// The lines of `s`: split at every `'\n'`, one trailing `'\r'` removed from
/// each piece, and no final empty piece when `s` ends with a newline.
pub open spec fn spec_split_lines(s: Seq<char>) -> Seq<Seq<char>>
    decreases s.len(),
{
    if s.len() == 0 {
        Seq::empty()
    } else {
        let i = spec_find_from(s, '\n', 0);
        if !(0 <= i < s.len()) {
            seq![spec_strip_cr(s)]
        } else {
            seq![spec_strip_cr(s.subrange(0, i))] + spec_split_lines(
                s.subrange(i + 1, s.len() as int),
            )
        }
    }
}

/// `s` without a single trailing carriage return, if present.
pub open spec fn spec_strip_cr(s: Seq<char>) -> Seq<char> {
    if s.len() > 0 && s[s.len() - 1] == '\r' {
        s.drop_last()
    } else {
        s
    }
}

proof fn lemma_find_from_bounds(s: Seq<char>, c: char, from: int)
    requires
        0 <= from <= s.len(),
    ensures
        spec_find_from(s, c, from) == -1 || from <= spec_find_from(s, c, from) < s.len(),
    decreases s.len() - from,
{
    if from < s.len() && s[from] != c {
        lemma_find_from_bounds(s, c, from + 1);
    }
}

fn strip_cr(v: Vec<char>) -> (r: Vec<char>)
    ensures
        r@ == spec_strip_cr(v@),
{
    let mut v = v;
    if v.len() > 0 && v[v.len() - 1] == '\r' {
        v.pop();
    }
    v
}

/// The deep view of a `Vec<char>` is its view.
pub proof fn lemma_deep_view_chars(x: Vec<char>)
    ensures
        x.deep_view() == x@,
{
    assert(x.deep_view() =~= x@);
}

/// Pushing a line extends the deep view by the line's characters.
pub proof fn lemma_deep_view_push_pub(v: Vec<Vec<char>>, w: Vec<Vec<char>>, x: Vec<char>)
    requires
        w@ == v@.push(x),
    ensures
        w.deep_view() == v.deep_view().push(x@),
{
    lemma_deep_view_chars(x);
    assert(w.deep_view() =~= v.deep_view().push(x@));
}

/// The deep view of a vector of lines indexes to each line's characters.
pub proof fn lemma_lines_deep_view(ls: &Vec<Vec<char>>)
    ensures
        ls.deep_view().len() == ls@.len(),
        forall|i: int| 0 <= i < ls@.len() ==> #[trigger] ls.deep_view()[i] == ls@[i]@,
{
    assert forall|i: int| 0 <= i < ls@.len() implies #[trigger] ls.deep_view()[i] == ls@[i]@ by {
        lemma_deep_view_chars(ls@[i]);
    }
}

/// Split `text` into its lines, as `spec_split_lines` describes.
pub fn split_lines(text: &Vec<char>) -> (r: Vec<Vec<char>>)
    ensures
        r.deep_view() == spec_split_lines(text@),
{
    let mut r: Vec<Vec<char>> = Vec::new();
    let mut start: usize = 0;
    proof {
        assert(text@.subrange(0, text@.len() as int) == text@);
        assert(r.deep_view() =~= Seq::<Seq<char>>::empty());
        assert(Seq::<Seq<char>>::empty() + spec_split_lines(text@) =~= spec_split_lines(text@));
    }
    while start < text.len()
        invariant
            0 <= start <= text@.len(),
            r.deep_view() + spec_split_lines(text@.subrange(start as int, text@.len() as int))
                == spec_split_lines(text@),
        decreases text@.len() - start,
    {
        let ghost rest = text@.subrange(start as int, text@.len() as int);
        let ghost old_r = r;
        match find_from(text, '\n', start) {
            Some(i) => {
                let piece = subvec(text, start, i);
                let line = strip_cr(piece);
                r.push(line);
                proof {
                    lemma_find_offset(text@, '\n', start as int, start as int);
                    assert(spec_find_from(rest, '\n', 0) == i - start);
                    assert(rest.subrange(0, i - start) == text@.subrange(start as int, i as int));
                    assert(rest.subrange(i - start + 1, rest.len() as int) == text@.subrange(
                        i + 1,
                        text@.len() as int,
                    ));
                    lemma_deep_view_push_pub(old_r, r, line);
                    assert(spec_split_lines(rest) == seq![line@] + spec_split_lines(
                        text@.subrange(i + 1, text@.len() as int),
                    ));
                    assert(old_r.deep_view().push(line@) + spec_split_lines(
                        text@.subrange(i + 1, text@.len() as int),
                    ) =~= old_r.deep_view() + spec_split_lines(rest));
                }
                start = i + 1;
            },
            None => {
                let piece = subvec(text, start, text.len());
                let line = strip_cr(piece);
                r.push(line);
                proof {
                    lemma_find_offset(text@, '\n', start as int, start as int);
                    lemma_find_from_bounds(rest, '\n', 0);
                    assert(spec_find_from(rest, '\n', 0) == -1);
                    assert(rest.subrange(0, rest.len() as int) == rest);
                    lemma_deep_view_push_pub(old_r, r, line);
                    assert(spec_split_lines(rest) == seq![line@]);
                    assert(text@.subrange(text@.len() as int, text@.len() as int)
                        =~= Seq::<char>::empty());
                    assert(spec_split_lines(Seq::<char>::empty()) == Seq::<Seq<char>>::empty());
                    assert(old_r.deep_view().push(line@) + Seq::<Seq<char>>::empty()
                        =~= old_r.deep_view() + spec_split_lines(rest));
                }
                start = text.len();
            },
        }
    }
    proof {
        assert(text@.subrange(start as int, text@.len() as int) =~= Seq::<char>::empty());
        assert(spec_split_lines(text@.subrange(start as int, text@.len() as int))
            == Seq::<Seq<char>>::empty());
        assert(r.deep_view() + Seq::<Seq<char>>::empty() =~= r.deep_view());
    }
    r
}

/// Searching `s` from `from` matches searching the suffix of `s` at `off`
/// from `from - off`, shifted back by `off`.
proof fn lemma_find_offset(s: Seq<char>, c: char, off: int, from: int)
    requires
        0 <= off <= from <= s.len(),
    ensures
        ({
            let sub = s.subrange(off, s.len() as int);
            let r = spec_find_from(sub, c, from - off);
            spec_find_from(s, c, from) == (if r == -1 {
                -1int
            } else {
                r + off
            })
        }),
    decreases s.len() - from,
{
    let sub = s.subrange(off, s.len() as int);
    if from < s.len() {
        assert(sub[from - off] == s[from]);
        if s[from] != c {
            lemma_find_offset(s, c, off, from + 1);
        }
    }
}

} // verus!
