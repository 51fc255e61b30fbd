//! File-system paths held as text, with `/` as the separator.
use vstd::prelude::*;
use crate::text::{chars_of, concat, string_from, string_of};

verus! {

/// A path is absolute when it starts at the root.
pub open spec fn is_absolute(p: Seq<char>) -> bool {
    p.len() > 0 && p[0] == '/'
}

/// `part` appended to `base` the way `PathBuf::push` does it on Unix: an
/// absolute `part` replaces `base`; otherwise one separator goes between
/// them unless `base` is empty or already ends with one.
pub open spec fn joined(base: Seq<char>, part: Seq<char>) -> Seq<char> {
    if is_absolute(part) {
        part
    } else if base.len() == 0 || base.last() == '/' {
        base + part
    } else {
        base + seq!['/'] + part
    }
}

pub fn join_path(base: &str, part: &str) -> (r: String)
    ensures
        r@ == joined(base@, part@),
{
    let b = chars_of(base);
    let p = chars_of(part);
    if p.len() > 0 && p[0] == '/' {
        string_from(part)
    } else if b.len() == 0 || b[b.len() - 1] == '/' {
        concat(base, part)
    } else {
        let with_sep = concat(base, "/");
        proof {
            reveal_strlit("/");
        }
        concat(with_sep.as_str(), part)
    }
}

/// The part `lo..hi` of `p` is one whole component: it is bounded by
/// separators or by the ends of the path.
pub open spec fn is_component(p: Seq<char>, lo: int, hi: int) -> bool {
    0 <= lo <= hi <= p.len() && (lo == 0 || p[lo - 1] == '/') && (hi == p.len() || p[hi] == '/')
        && forall|k: int| lo <= k < hi ==> p[k] != '/'
}

/// Some component of `p` is `..`.
pub open spec fn has_parent_component(p: Seq<char>) -> bool {
    exists|lo: int| is_component(p, lo, lo + 2) && #[trigger] p[lo] == '.' && p[lo + 1] == '.'
}

/// A subfolder stays inside the download root: it is relative and never
/// steps up a level.
pub open spec fn is_safe_subfolder(p: Seq<char>) -> bool {
    !is_absolute(p) && !has_parent_component(p)
}

/// Whether a subfolder stays inside the download root.
pub fn subfolder_is_safe(sub: &str) -> (r: bool)
    ensures
        r == is_safe_subfolder(sub@),
{
    let p = chars_of(sub);
    if p.len() > 0 && p[0] == '/' {
        return false;
    }
    let n = p.len();
    let mut i: usize = 0;
    while i < n
        invariant
            n == p.len(),
            p@ == sub@,
            i <= n,
            forall|lo: int|
                0 <= lo < i ==> !(is_component(p@, lo, lo + 2) && #[trigger] p@[lo] == '.' && p@[lo
                    + 1] == '.'),
        decreases n - i,
    {
        if i + 1 < n && p[i] == '.' && p[i + 1] == '.' && (i == 0 || p[i - 1] == '/') && (i + 2 == n
            || p[i + 2] == '/') {
            assert(is_component(p@, i as int, i + 2));
            return false;
        }
        i = i + 1;
    }
    true
}

/// The position of the last `c` in `s`, if any.
pub open spec fn last_index_of(s: Seq<char>, c: char) -> Option<int>
    decreases s.len(),
{
    if s.len() == 0 {
        None
    } else if s.last() == c {
        Some(s.len() - 1)
    } else {
        last_index_of(s.drop_last(), c)
    }
}

proof fn lemma_last_index_of(s: Seq<char>, c: char)
    ensures
        last_index_of(s, c) matches Some(k) ==> 0 <= k < s.len() && s[k] == c && forall|m: int|
            k < m < s.len() ==> s[m] != c,
        last_index_of(s, c) is None ==> forall|m: int| 0 <= m < s.len() ==> s[m] != c,
    decreases s.len(),
{
    if s.len() > 0 && s.last() != c {
        let t = s.drop_last();
        lemma_last_index_of(t, c);
        assert forall|m: int| 0 <= m < t.len() implies t[m] == s[m] by {}
    }
}

fn last_index_exec(v: &Vec<char>, c: char) -> (r: Option<usize>)
    ensures
        r matches Some(k) ==> last_index_of(v@, c) == Some(k as int) && k < v.len(),
        r is None ==> last_index_of(v@, c) is None,
{
    proof {
        lemma_last_index_of(v@, c);
    }
    let mut i: usize = v.len();
    assert(v@.take(i as int) =~= v@);
    while i > 0
        invariant
            i <= v.len(),
            last_index_of(v@, c) == last_index_of(v@.take(i as int), c),
        decreases i,
    {
        assert(v@.take(i as int).drop_last() =~= v@.take(i - 1));
        if v[i - 1] == c {
            return Some(i - 1);
        }
        i = i - 1;
    }
    None
}

/// Where the file name starts: just after the last separator.
pub open spec fn name_start(p: Seq<char>) -> int {
    match last_index_of(p, '/') {
        Some(k) => k + 1,
        None => 0,
    }
}

/// The extension of a file name as `Path::extension` finds it: what follows
/// the last `.`, unless that `.` is the first character or there is none.
pub open spec fn extension_of(name: Seq<char>) -> Option<Seq<char>> {
    match last_index_of(name, '.') {
        Some(k) => if k > 0 {
            Some(name.subrange(k + 1, name.len() as int))
        } else {
            None
        },
        None => None,
    }
}

/// The file name without its extension, as `Path::file_stem` finds it.
pub open spec fn stem_of(name: Seq<char>) -> Seq<char> {
    match last_index_of(name, '.') {
        Some(k) => if k > 0 {
            name.take(k)
        } else {
            name
        },
        None => name,
    }
}

/// `p` with the extension of its file name replaced by `ext`.
pub open spec fn with_extension(p: Seq<char>, ext: Seq<char>) -> Seq<char> {
    let start = name_start(p);
    p.take(start) + stem_of(p.subrange(start, p.len() as int)) + seq!['.'] + ext
}

/// Two characters are the same letter in either ASCII case, or equal.
pub open spec fn same_ignoring_ascii_case(x: char, y: char) -> bool {
    ||| x == y
    ||| ('A' <= x && x <= 'Z' && y as u32 == x as u32 + 32)
    ||| ('A' <= y && y <= 'Z' && x as u32 == y as u32 + 32)
}

/// Two texts are equal when ASCII letters are compared without case.
pub open spec fn eq_ignore_ascii_case(a: Seq<char>, b: Seq<char>) -> bool {
    a.len() == b.len() && forall|k: int|
        0 <= k < a.len() ==> same_ignoring_ascii_case(#[trigger] a[k], b[k])
}

fn same_ignoring_ascii_case_exec(x: char, y: char) -> (r: bool)
    ensures
        r == same_ignoring_ascii_case(x, y),
{
    let a = x as u32;
    let b = y as u32;
    a == b || ('A' <= x && x <= 'Z' && b == a + 32) || ('A' <= y && y <= 'Z' && a == b + 32)
}

/// Whether a file name has the given extension, ASCII case ignored.
pub fn has_extension(name: &str, ext: &str) -> (r: bool)
    ensures
        r == (extension_of(name@) matches Some(e) && eq_ignore_ascii_case(e, ext@)),
{
    let v = chars_of(name);
    let x = chars_of(ext);
    match last_index_exec(&v, '.') {
        Some(k) => {
            if k == 0 {
                return false;
            }
            let ghost e = v@.subrange(k + 1, v@.len() as int);
            if v.len() - (k + 1) != x.len() {
                return false;
            }
            assert(extension_of(name@) == Some(e));
            let mut i: usize = 0;
            while i < x.len()
                invariant
                    extension_of(name@) == Some(e),
                    v@ == name@,
                    k + 1 + x.len() == v.len(),
                    e == v@.subrange(k + 1, v@.len() as int),
                    x@ == ext@,
                    i <= x.len(),
                    forall|m: int| 0 <= m < i ==> same_ignoring_ascii_case(#[trigger] e[m], x@[m]),
                decreases x.len() - i,
            {
                if !same_ignoring_ascii_case_exec(v[k + 1 + i], x[i]) {
                    assert(e[i as int] == v@[k + 1 + i]);
                    assert(!same_ignoring_ascii_case(e[i as int], ext@[i as int]));
                    assert(extension_of(name@) == Some(e));
                    assert(!eq_ignore_ascii_case(e, ext@));
                    return false;
                }
                assert(e[i as int] == v@[k + 1 + i]);
                i = i + 1;
            }
            true
        },
        None => false,
    }
}

/// `p` with the extension of its file name replaced by `ext`.
pub fn replace_extension(p: &str, ext: &str) -> (r: String)
    ensures
        r@ == with_extension(p@, ext@),
{
    let v = chars_of(p);
    let start: usize = match last_index_exec(&v, '/') {
        Some(k) => k + 1,
        None => 0,
    };
    proof {
        lemma_last_index_of(v@, '/');
    }
    let name = string_of(&v, start, v.len());
    let nv = chars_of(name.as_str());
    let stem_end: usize = match last_index_exec(&nv, '.') {
        Some(k) => if k > 0 {
            k
        } else {
            nv.len()
        },
        None => nv.len(),
    };
    proof {
        lemma_last_index_of(nv@, '.');
        assert(nv@.take(nv@.len() as int) =~= nv@);
    }
    let dir = string_of(&v, 0, start);
    let stem = string_of(&nv, 0, stem_end);
    let head = concat(dir.as_str(), stem.as_str());
    let dotted = concat(head.as_str(), ".");
    proof {
        reveal_strlit(".");
        assert(nv@.subrange(0, stem_end as int) =~= stem_of(nv@));
        assert(v@.subrange(0, start as int) =~= v@.take(start as int));
    }
    concat(dotted.as_str(), ext)
}

/// A path named by the download tool, taken against the job's directory
/// when it is relative.
pub fn resolve_against(dir: &str, p: &str) -> (r: String)
    ensures
        r@ == (if is_absolute(p@) {
            p@
        } else {
            joined(dir@, p@)
        }),
{
    let v = chars_of(p);
    if v.len() > 0 && v[0] == '/' {
        string_from(p)
    } else {
        join_path(dir, p)
    }
}

} // verus!
