//! Character-level text operations with their mathematical meaning.
//!
//! Strings are handled through their view, a `Seq<char>`; positions are
//! character positions.
use vstd::prelude::*;

verus! {

/// Relies on `String::push`: the character is appended at the end.
pub assume_specification[ String::push ](s: &mut String, ch: char)
    ensures
        final(s)@ == old(s)@.push(ch),
;

/// What `str::to_uppercase` makes of a text; it depends on the characters
/// alone.
pub uninterp spec fn upper_of(s: Seq<char>) -> Seq<char>;

/// What `str::to_lowercase` makes of a text; it depends on the characters
/// alone.
pub uninterp spec fn lower_of(s: Seq<char>) -> Seq<char>;

/// Relies on `str::to_uppercase`: the Unicode upper case of the text.
#[verifier::external_body]
pub(crate) fn uppercase(s: &str) -> (r: String)
    ensures
        r@ == upper_of(s@),
{
    s.to_uppercase()
}

/// Relies on `str::to_lowercase`: the Unicode lower case of the text.
#[verifier::external_body]
pub(crate) fn lowercase(s: &str) -> (r: String)
    ensures
        r@ == lower_of(s@),
{
    s.to_lowercase()
}

/// The Unicode `White_Space` property, the set of characters that
/// `char::is_whitespace` accepts.
pub open spec fn is_white_space(c: char) -> bool {
    ||| ('\u{9}' <= c && c <= '\u{d}')
    ||| c == ' '
    ||| c == '\u{85}'
    ||| c == '\u{a0}'
    ||| c == '\u{1680}'
    ||| ('\u{2000}' <= c && c <= '\u{200a}')
    ||| c == '\u{2028}'
    ||| c == '\u{2029}'
    ||| c == '\u{202f}'
    ||| c == '\u{205f}'
    ||| c == '\u{3000}'
}

pub fn white_space(c: char) -> (r: bool)
    ensures
        r == is_white_space(c),
{
    ('\u{9}' <= c && c <= '\u{d}') || c == ' ' || c == '\u{85}' || c == '\u{a0}' || c == '\u{1680}'
        || ('\u{2000}' <= c && c <= '\u{200a}') || c == '\u{2028}' || c == '\u{2029}' || c
        == '\u{202f}' || c == '\u{205f}' || c == '\u{3000}'
}

/// The characters that edge trimming removes: white space, or the
/// characters that a file name must not start or end with.
#[derive(Clone, Copy, PartialEq, Eq)]
pub enum Edge {
    WhiteSpace,
    FileName,
}

pub open spec fn is_edge_char(edge: Edge, c: char) -> bool {
    match edge {
        Edge::WhiteSpace => is_white_space(c),
        Edge::FileName => c == '_' || c == ' ' || c == '.',
    }
}

fn edge_char(edge: Edge, c: char) -> (r: bool)
    ensures
        r == is_edge_char(edge, c),
{
    match edge {
        Edge::WhiteSpace => white_space(c),
        Edge::FileName => c == '_' || c == ' ' || c == '.',
    }
}

/// `s` without its leading edge characters.
pub open spec fn strip_front(edge: Edge, s: Seq<char>) -> Seq<char>
    decreases s.len(),
{
    if s.len() > 0 && is_edge_char(edge, s[0]) {
        strip_front(edge, s.drop_first())
    } else {
        s
    }
}

/// `s` without its trailing edge characters.
pub open spec fn strip_back(edge: Edge, s: Seq<char>) -> Seq<char>
    decreases s.len(),
{
    if s.len() > 0 && is_edge_char(edge, s.last()) {
        strip_back(edge, s.drop_last())
    } else {
        s
    }
}

/// `s` without edge characters at either end.
pub open spec fn strip(edge: Edge, s: Seq<char>) -> Seq<char> {
    strip_back(edge, strip_front(edge, s))
}

/// `s` without leading and trailing white space, as `str::trim` gives it.
pub open spec fn trim(s: Seq<char>) -> Seq<char> {
    strip(Edge::WhiteSpace, s)
}

proof fn lemma_strip_front_at(edge: Edge, s: Seq<char>, lo: int)
    requires
        0 <= lo <= s.len(),
        forall|k: int| 0 <= k < lo ==> is_edge_char(edge, #[trigger] s[k]),
        lo == s.len() || !is_edge_char(edge, s[lo]),
    ensures
        strip_front(edge, s) == s.subrange(lo, s.len() as int),
    decreases lo,
{
    if lo == 0 {
        assert(s.subrange(0, s.len() as int) =~= s);
    } else {
        let t = s.drop_first();
        assert forall|k: int| 0 <= k < lo - 1 implies is_edge_char(edge, #[trigger] t[k]) by {
            assert(t[k] == s[k + 1]);
        }
        lemma_strip_front_at(edge, t, lo - 1);
        assert(t.subrange(lo - 1, t.len() as int) =~= s.subrange(lo, s.len() as int));
    }
}

proof fn lemma_strip_back_at(edge: Edge, s: Seq<char>, hi: int)
    requires
        0 <= hi <= s.len(),
        forall|k: int| hi <= k < s.len() ==> is_edge_char(edge, #[trigger] s[k]),
        hi == 0 || !is_edge_char(edge, s[hi - 1]),
    ensures
        strip_back(edge, s) == s.subrange(0, hi),
    decreases s.len() - hi,
{
    if hi == s.len() {
        assert(s.subrange(0, s.len() as int) =~= s);
    } else {
        let t = s.drop_last();
        assert forall|k: int| hi <= k < t.len() implies is_edge_char(edge, #[trigger] t[k]) by {
            assert(t[k] == s[k]);
        }
        lemma_strip_back_at(edge, t, hi);
        assert(t.subrange(0, hi) =~= s.subrange(0, hi));
    }
}

/// A text that starts and ends with no edge character is left as it is.
pub proof fn lemma_strip_noop(edge: Edge, r: Seq<char>)
    requires
        r.len() == 0 || (!is_edge_char(edge, r[0]) && !is_edge_char(edge, r.last())),
    ensures
        strip(edge, r) == r,
{
    assert forall|k: int| 0 <= k < 0 implies is_edge_char(edge, #[trigger] r[k]) by {}
    lemma_strip_front_at(edge, r, 0);
    assert(r.subrange(0, r.len() as int) =~= r);
    assert forall|k: int| r.len() <= k < r.len() implies is_edge_char(edge, #[trigger] r[k]) by {}
    lemma_strip_back_at(edge, r, r.len() as int);
}

/// The first position that stripping keeps, and one past the last.
pub open spec fn strip_bounds_spec(edge: Edge, s: Seq<char>) -> (int, int) {
    let lo = s.len() - strip_front(edge, s).len();
    let hi = lo + strip(edge, s).len();
    (lo, hi)
}

proof fn lemma_strip_front_suffix(edge: Edge, s: Seq<char>)
    ensures
        strip_front(edge, s).len() <= s.len(),
        strip_front(edge, s) == s.subrange(s.len() - strip_front(edge, s).len(), s.len() as int),
        forall|k: int|
            0 <= k < s.len() - strip_front(edge, s).len() ==> is_edge_char(edge, #[trigger] s[k]),
        strip_front(edge, s).len() == 0 || !is_edge_char(edge, strip_front(edge, s)[0]),
    decreases s.len(),
{
    if s.len() > 0 && is_edge_char(edge, s[0]) {
        let t = s.drop_first();
        lemma_strip_front_suffix(edge, t);
        assert(t.subrange(t.len() - strip_front(edge, t).len(), t.len() as int) =~= s.subrange(
            s.len() - strip_front(edge, t).len(),
            s.len() as int,
        ));
        assert forall|k: int|
            0 <= k < s.len() - strip_front(edge, s).len() implies is_edge_char(
            edge,
            #[trigger] s[k],
        ) by {
            if k > 0 {
                assert(s[k] == t[k - 1]);
            }
        }
    } else {
        assert(s.subrange(0, s.len() as int) =~= s);
    }
}

proof fn lemma_strip_back_prefix(edge: Edge, s: Seq<char>)
    ensures
        strip_back(edge, s).len() <= s.len(),
        strip_back(edge, s) == s.subrange(0, strip_back(edge, s).len() as int),
        forall|k: int|
            strip_back(edge, s).len() <= k < s.len() ==> is_edge_char(edge, #[trigger] s[k]),
        strip_back(edge, s).len() == 0 || !is_edge_char(edge, strip_back(edge, s).last()),
    decreases s.len(),
{
    if s.len() > 0 && is_edge_char(edge, s.last()) {
        let t = s.drop_last();
        lemma_strip_back_prefix(edge, t);
        assert(t.subrange(0, strip_back(edge, t).len() as int) =~= s.subrange(
            0,
            strip_back(edge, t).len() as int,
        ));
        assert forall|k: int| strip_back(edge, s).len() <= k < s.len() implies is_edge_char(
            edge,
            #[trigger] s[k],
        ) by {
            if k < s.len() - 1 {
                assert(s[k] == t[k]);
            }
        }
    } else {
        assert(s.subrange(0, s.len() as int) =~= s);
    }
}

/// The stripped text is the range `lo..hi` of the whole text, where `lo` and
/// `hi` are the first and one past the last non-edge position.
pub proof fn lemma_strip_bounds(edge: Edge, s: Seq<char>)
    ensures
        0 <= strip_bounds_spec(edge, s).0 <= strip_bounds_spec(edge, s).1 <= s.len(),
        strip(edge, s) == s.subrange(strip_bounds_spec(edge, s).0, strip_bounds_spec(edge, s).1),
        strip(edge, s).len() == 0 || (!is_edge_char(edge, strip(edge, s)[0])
            && !is_edge_char(edge, strip(edge, s).last())),
{
    let f = strip_front(edge, s);
    lemma_strip_front_suffix(edge, s);
    lemma_strip_back_prefix(edge, f);
    let lo = s.len() - f.len();
    let r = strip_back(edge, f);
    assert(r =~= s.subrange(lo, lo + r.len()));
    if r.len() > 0 {
        assert(r[0] == f[0]);
    }
}

/// The bounds of the stripped text, found by scanning from both ends.
pub fn strip_range(edge: Edge, v: &Vec<char>) -> (r: (usize, usize))
    ensures
        r.0 <= r.1 <= v.len(),
        v@.subrange(r.0 as int, r.1 as int) == strip(edge, v@),
{
    let n = v.len();
    let mut lo: usize = 0;
    while lo < n && edge_char(edge, v[lo])
        invariant
            lo <= n == v.len(),
            forall|k: int| 0 <= k < lo ==> is_edge_char(edge, #[trigger] v@[k]),
        decreases n - lo,
    {
        lo = lo + 1;
    }
    proof {
        lemma_strip_front_at(edge, v@, lo as int);
    }
    let ghost f = v@.subrange(lo as int, n as int);
    let mut hi: usize = n;
    while hi > lo && edge_char(edge, v[hi - 1])
        invariant
            lo <= hi <= n == v.len(),
            f == v@.subrange(lo as int, n as int),
            forall|k: int| hi <= k < n ==> is_edge_char(edge, #[trigger] v@[k]),
        decreases hi - lo,
    {
        hi = hi - 1;
    }
    proof {
        assert forall|k: int| hi - lo <= k < f.len() implies is_edge_char(edge, #[trigger] f[k]) by {
            assert(f[k] == v@[k + lo]);
        }
        if hi > lo {
            assert(f[hi - lo - 1] == v@[hi - 1]);
        }
        lemma_strip_back_at(edge, f, hi - lo);
        assert(f.subrange(0, hi - lo) =~= v@.subrange(lo as int, hi as int));
    }
    (lo, hi)
}

/// The characters of a string slice, in order.
pub fn chars_of(s: &str) -> (r: Vec<char>)
    ensures
        r@ == s@,
{
    let mut r: Vec<char> = Vec::new();
    for c in it: s.chars()
        invariant
            r@ == it.seq().take(it.index() as int),
    {
        r.push(c);
    }
    r
}

/// A new string holding the characters `lo..hi` of `v`.
pub fn string_of(v: &Vec<char>, lo: usize, hi: usize) -> (r: String)
    requires
        lo <= hi <= v.len(),
    ensures
        r@ == v@.subrange(lo as int, hi as int),
{
    let mut r = String::new();
    let mut i: usize = lo;
    while i < hi
        invariant
            lo <= i <= hi <= v.len(),
            r@ == v@.subrange(lo as int, i as int),
        decreases hi - i,
    {
        r.push(v[i]);
        assert(v@.subrange(lo as int, i + 1) =~= v@.subrange(lo as int, i as int).push(v@[i as int]));
        i = i + 1;
    }
    r
}

/// A new string with the characters of `s`.
pub fn string_from(s: &str) -> (r: String)
    ensures
        r@ == s@,
{
    let v = chars_of(s);
    let r = string_of(&v, 0, v.len());
    assert(v@.subrange(0, v@.len() as int) =~= v@);
    r
}

/// `a` followed by `b`, as a new string.
pub fn concat(a: &str, b: &str) -> (r: String)
    ensures
        r@ == a@ + b@,
{
    let mut r = string_from(a);
    let v = chars_of(b);
    let mut i: usize = 0;
    while i < v.len()
        invariant
            i <= v.len(),
            v@ == b@,
            r@ == a@ + b@.take(i as int),
        decreases v.len() - i,
    {
        r.push(v[i]);
        assert(b@.take(i + 1) =~= b@.take(i as int).push(b@[i as int]));
        i = i + 1;
    }
    assert(b@.take(v.len() as int) =~= b@);
    r
}

/// `s` without leading and trailing white space, as a new string.
pub fn trimmed(s: &str) -> (r: String)
    ensures
        r@ == trim(s@),
{
    let v = chars_of(s);
    let (lo, hi) = strip_range(Edge::WhiteSpace, &v);
    string_of(&v, lo, hi)
}

/// Whether two texts are equal.
pub fn text_eq(a: &str, b: &str) -> (r: bool)
    ensures
        r == (a@ == b@),
{
    let x = chars_of(a);
    let y = chars_of(b);
    if x.len() != y.len() {
        return false;
    }
    let mut i: usize = 0;
    while i < x.len()
        invariant
            x.len() == y.len(),
            x@ == a@,
            y@ == b@,
            i <= x.len(),
            forall|k: int| 0 <= k < i ==> x@[k] == y@[k],
        decreases x.len() - i,
    {
        if x[i] != y[i] {
            return false;
        }
        i = i + 1;
    }
    assert(x@ =~= y@);
    true
}

/// The texts of a sequence of strings.
pub open spec fn texts(v: Seq<String>) -> Seq<Seq<char>> {
    v.map_values(|s: String| s@)
}

/// Appends a copy of `s` to a list of strings.
pub fn push_text(v: &mut Vec<String>, s: &str)
    ensures
        texts(final(v)@) == texts(old(v)@).push(s@),
{
    v.push(string_from(s));
    assert(texts(v@) =~= texts(old(v)@).push(s@));
}

/// `pat` stands in `s` at position `i`.
pub open spec fn occurs_at(s: Seq<char>, pat: Seq<char>, i: int) -> bool {
    0 <= i && i + pat.len() <= s.len() && s.subrange(i, i + pat.len()) == pat
}

/// `pat` stands somewhere in `s`.
pub open spec fn contains(s: Seq<char>, pat: Seq<char>) -> bool {
    exists|i: int| occurs_at(s, pat, i)
}

/// The first position at or after `i` where `pat` stands in `s`.
pub open spec fn find_from(s: Seq<char>, pat: Seq<char>, i: int) -> Option<int>
    decreases s.len() + 1 - i,
    when i >= 0
{
    if i + pat.len() > s.len() {
        None
    } else if occurs_at(s, pat, i) {
        Some(i)
    } else {
        find_from(s, pat, i + 1)
    }
}

pub proof fn lemma_find_from(s: Seq<char>, pat: Seq<char>, i: int)
    requires
        0 <= i,
    ensures
        find_from(s, pat, i) matches Some(j) ==> i <= j && occurs_at(s, pat, j) && forall|k: int|
            i <= k < j ==> !occurs_at(s, pat, k),
        find_from(s, pat, i) is None ==> forall|k: int| i <= k ==> !occurs_at(s, pat, k),
    decreases s.len() + 1 - i,
{
    if i + pat.len() > s.len() {
    } else if occurs_at(s, pat, i) {
    } else {
        lemma_find_from(s, pat, i + 1);
    }
}

/// `find_from` from the start answers whether `pat` stands in `s` at all.
pub proof fn lemma_find_contains(s: Seq<char>, pat: Seq<char>)
    ensures
        find_from(s, pat, 0) is Some <==> contains(s, pat),
{
    lemma_find_from(s, pat, 0);
    if find_from(s, pat, 0) is Some {
        assert(occurs_at(s, pat, find_from(s, pat, 0)->0));
    }
}

fn occurs_at_exec(v: &Vec<char>, p: &Vec<char>, i: usize) -> (r: bool)
    requires
        i + p.len() <= v.len(),
    ensures
        r == occurs_at(v@, p@, i as int),
{
    let mut k: usize = 0;
    while k < p.len()
        invariant
            i + p.len() <= v.len(),
            k <= p.len(),
            forall|m: int| 0 <= m < k ==> v@[i + m] == p@[m],
        decreases p.len() - k,
    {
        if v[i + k] != p[k] {
            assert(v@.subrange(i as int, i + p@.len())[k as int] != p@[k as int]);
            return false;
        }
        k = k + 1;
    }
    assert(v@.subrange(i as int, i + p@.len()) =~= p@);
    true
}

/// The first position at or after `from` where `p` stands in `v`.
pub fn find_chars(v: &Vec<char>, p: &Vec<char>, from: usize) -> (r: Option<usize>)
    ensures
        r matches Some(j) ==> find_from(v@, p@, from as int) == Some(j as int),
        r is None ==> find_from(v@, p@, from as int) is None,
{
    if p.len() > v.len() {
        return None;
    }
    let last = v.len() - p.len();
    if from > last {
        return None;
    }
    let mut i: usize = from;
    loop
        invariant
            last + p.len() == v.len(),
            from <= i <= last,
            find_from(v@, p@, from as int) == find_from(v@, p@, i as int),
        decreases last - i,
    {
        if occurs_at_exec(v, p, i) {
            return Some(i);
        }
        if i == last {
            assert(find_from(v@, p@, i + 1) is None);
            return None;
        }
        i = i + 1;
    }
}

/// Whether `p` stands anywhere in `v`.
pub fn contains_chars(v: &Vec<char>, p: &Vec<char>) -> (r: bool)
    ensures
        r == contains(v@, p@),
{
    proof {
        lemma_find_contains(v@, p@);
    }
    find_chars(v, p, 0).is_some()
}

} // verus!
