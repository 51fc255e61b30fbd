//! Turning a user-chosen title into a safe file base name.
use vstd::prelude::*;
use crate::text::{chars_of, lemma_strip_bounds, lemma_strip_noop, string_from, string_of, strip, strip_range, Edge};

verus! {

/// The longest base name kept, in characters.
pub const MAX_TITLE_CHARS: usize = 100;

/// The base name used when nothing of the title is left.
pub open spec fn placeholder_name() -> Seq<char> {
    "Unknown_Video"@
}

/// Characters that file systems reserve.
pub open spec fn is_reserved(c: char) -> bool {
    c == '<' || c == '>' || c == ':' || c == '"' || c == '/' || c == '\\' || c == '|' || c == '?'
        || c == '*'
}

/// Letters with diacritics and the ASCII letter that stands for each;
/// every other character stands for itself.
pub open spec fn transliterate(c: char) -> char {
    if c == 'ą' || c == 'Ą' || c == 'à' || c == 'á' || c == 'â' || c == 'ã' || c == 'ä' || c == 'å' {
        'a'
    } else if c == 'ć' || c == 'Ć' {
        'c'
    } else if c == 'ę' || c == 'Ę' || c == 'è' || c == 'é' || c == 'ê' || c == 'ë' {
        'e'
    } else if c == 'ł' || c == 'Ł' {
        'l'
    } else if c == 'ń' || c == 'Ń' {
        'n'
    } else if c == 'ó' || c == 'Ó' || c == 'ò' || c == 'ô' || c == 'õ' || c == 'ö' {
        'o'
    } else if c == 'ś' || c == 'Ś' {
        's'
    } else if c == 'ż' || c == 'Ż' || c == 'ź' || c == 'Ź' {
        'z'
    } else if c == 'ì' || c == 'í' || c == 'î' || c == 'ï' {
        'i'
    } else if c == 'ù' || c == 'ú' || c == 'û' || c == 'ü' {
        'u'
    } else if c == 'ý' || c == 'ÿ' {
        'y'
    } else {
        c
    }
}

/// A reserved character becomes `_`; any other is transliterated.
pub open spec fn safe_char(c: char) -> char {
    if is_reserved(c) {
        '_'
    } else {
        transliterate(c)
    }
}

/// The sanitized base name of a title: each character made safe, the
/// first `MAX_TITLE_CHARS` kept, `_`, space and `.` trimmed from both ends,
/// and the placeholder where nothing is left.
pub open spec fn clean_name(title: Seq<char>) -> Seq<char> {
    let safe = title.map_values(|c: char| safe_char(c));
    let kept = if safe.len() > MAX_TITLE_CHARS {
        safe.take(MAX_TITLE_CHARS as int)
    } else {
        safe
    };
    let trimmed = strip(Edge::FileName, kept);
    if trimmed.len() == 0 {
        placeholder_name()
    } else {
        trimmed
    }
}

fn safe_char_exec(c: char) -> (r: char)
    ensures
        r == safe_char(c),
{
    if c == '<' || c == '>' || c == ':' || c == '"' || c == '/' || c == '\\' || c == '|' || c == '?'
        || c == '*' {
        '_'
    } else if c == 'ą' || c == 'Ą' || c == 'à' || c == 'á' || c == 'â' || c == 'ã' || c == 'ä' || c
        == 'å' {
        'a'
    } else if c == 'ć' || c == 'Ć' {
        'c'
    } else if c == 'ę' || c == 'Ę' || c == 'è' || c == 'é' || c == 'ê' || c == 'ë' {
        'e'
    } else if c == 'ł' || c == 'Ł' {
        'l'
    } else if c == 'ń' || c == 'Ń' {
        'n'
    } else if c == 'ó' || c == 'Ó' || c == 'ò' || c == 'ô' || c == 'õ' || c == 'ö' {
        'o'
    } else if c == 'ś' || c == 'Ś' {
        's'
    } else if c == 'ż' || c == 'Ż' || c == 'ź' || c == 'Ź' {
        'z'
    } else if c == 'ì' || c == 'í' || c == 'î' || c == 'ï' {
        'i'
    } else if c == 'ù' || c == 'ú' || c == 'û' || c == 'ü' {
        'u'
    } else if c == 'ý' || c == 'ÿ' {
        'y'
    } else {
        c
    }
}

/// The sanitized file base name for a title.
pub fn clean_filename(title: &str) -> (r: String)
    ensures
        r@ == clean_name(title@),
{
    let chars = chars_of(title);
    let n = if chars.len() > MAX_TITLE_CHARS {
        MAX_TITLE_CHARS
    } else {
        chars.len()
    };
    let ghost safe = title@.map_values(|c: char| safe_char(c));
    let mut kept: Vec<char> = Vec::new();
    let mut i: usize = 0;
    while i < n
        invariant
            n <= chars.len(),
            chars@ == title@,
            i <= n,
            kept@ == safe.take(i as int),
            safe == title@.map_values(|c: char| safe_char(c)),
        decreases n - i,
    {
        kept.push(safe_char_exec(chars[i]));
        assert(safe.take(i + 1) =~= safe.take(i as int).push(safe[i as int]));
        i = i + 1;
    }
    assert(kept@ =~= (if safe.len() > MAX_TITLE_CHARS {
        safe.take(MAX_TITLE_CHARS as int)
    } else {
        safe
    }));
    let (lo, hi) = strip_range(Edge::FileName, &kept);
    if lo == hi {
        string_from("Unknown_Video")
    } else {
        string_of(&kept, lo, hi)
    }
}

proof fn lemma_safe_char_stable(c: char)
    ensures
        safe_char(safe_char(c)) == safe_char(c),
{
}

/// Sanitizing is idempotent: a sanitized name comes back unchanged.
pub proof fn lemma_clean_name_idempotent(title: Seq<char>)
    ensures
        clean_name(clean_name(title)) == clean_name(title),
{
    let r = clean_name(title);
    let safe = title.map_values(|c: char| safe_char(c));
    let kept = if safe.len() > MAX_TITLE_CHARS {
        safe.take(MAX_TITLE_CHARS as int)
    } else {
        safe
    };
    lemma_strip_bounds(Edge::FileName, kept);
    let t = strip(Edge::FileName, kept);
    // Every character of the result is already safe.
    assert forall|k: int| 0 <= k < r.len() implies safe_char(#[trigger] r[k]) == r[k] by {
        if t.len() == 0 {
            reveal_strlit("Unknown_Video");
        } else {
            let (lo, hi) = crate::text::strip_bounds_spec(Edge::FileName, kept);
            assert(r[k] == kept[lo + k]);
            lemma_safe_char_stable(title[lo + k]);
        }
    }
    let safe2 = r.map_values(|c: char| safe_char(c));
    assert(safe2 =~= r);
    if t.len() == 0 {
        reveal_strlit("Unknown_Video");
        assert(r.len() == 13);
    } else {
        assert(r.len() <= kept.len());
    }
    assert(r.len() <= MAX_TITLE_CHARS);
    if t.len() == 0 {
        reveal_strlit("Unknown_Video");
        assert(r[0] == 'U' && r.last() == 'o');
    }
    lemma_strip_noop(Edge::FileName, r);
}

/// An empty title gives the placeholder name.
pub proof fn lemma_clean_name_empty()
    ensures
        clean_name(Seq::<char>::empty()) == placeholder_name(),
{
    let e = Seq::<char>::empty();
    assert(e.map_values(|c: char| safe_char(c)) =~= e);
    lemma_strip_noop(Edge::FileName, e);
}

} // verus!
