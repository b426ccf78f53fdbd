//! File-name sanitization: what a name may not hold is replaced, what
//! surrounds it is trimmed.

use vstd::prelude::*;
use crate::text::{chars_of, is_blank, string_of, trim_bounds, trim_end, trim_start, trimmed};

verus! {

/// The characters that no file name may hold: `/ \ : * ? " < > |`.
pub open spec fn is_reserved(c: char) -> bool {
    c == '/' || c == '\\' || c == ':' || c == '*' || c == '?' || c == '"' || c == '<' || c == '>'
        || c == '|'
}

/// The control characters: U+0000 to U+001F and U+007F to U+009F.
pub open spec fn is_control(c: char) -> bool {
    c as u32 <= 0x1f || 0x7f <= c as u32 <= 0x9f
}

/// A character as it stands in a sanitized name.
pub open spec fn safe_char(c: char) -> char {
    if is_reserved(c) || is_control(c) {
        '-'
    } else {
        c
    }
}

/// A text with each reserved or control character replaced by `-`.
pub open spec fn replaced(s: Seq<char>) -> Seq<char> {
    s.map_values(|c: char| safe_char(c))
}

/// A text made fit for a file name: replaced, then trimmed.
pub open spec fn sanitized(s: Seq<char>) -> Seq<char> {
    trimmed(replaced(s))
}

/// The character that stands for `c` in a sanitized name.
pub fn replace_unsafe(c: char) -> (r: char)
    ensures
        r == safe_char(c),
{
    if c == '/' || c == '\\' || c == ':' || c == '*' || c == '?' || c == '"' || c == '<'
        || c == '>' || c == '|' {
        '-'
    } else if c <= '\u{1f}' || ('\u{7f}' <= c && c <= '\u{9f}') {
        '-'
    } else {
        c
    }
}

/// Replaces each of `/ \ : * ? " < > |` and each control character by `-`,
/// then removes leading and trailing white space.
pub fn sanitize_filename(input: &str) -> (out: String)
    ensures
        out@ == sanitized(input@),
{
    let chars = chars_of(input);
    let mut mapped: Vec<char> = Vec::new();
    let mut i: usize = 0;
    while i < chars.len()
        invariant
            i <= chars.len(),
            chars@ == input@,
            mapped@ == replaced(chars@.take(i as int)),
        decreases chars.len() - i,
    {
        mapped.push(replace_unsafe(chars[i]));
        i += 1;
    }
    assert(chars@.take(i as int) =~= chars@);
    let (start, end) = trim_bounds(&mapped);
    string_of(&mapped, start, end)
}

proof fn lemma_trim_start_is_suffix(s: Seq<char>)
    ensures
        trim_start(s).len() <= s.len(),
        trim_start(s) == s.skip(s.len() - trim_start(s).len()),
        trim_start(s).len() == 0 || !is_blank(trim_start(s)[0]),
    decreases s.len(),
{
    if s.len() > 0 && is_blank(s[0]) {
        let rest = s.drop_first();
        lemma_trim_start_is_suffix(rest);
    } else {
    }
}

proof fn lemma_trim_end_is_prefix(s: Seq<char>)
    ensures
        trim_end(s).len() <= s.len(),
        trim_end(s) == s.take(trim_end(s).len() as int),
        trim_end(s).len() == 0 || !is_blank(trim_end(s).last()),
        s.len() > 0 && !is_blank(s[0]) ==> trim_end(s).len() > 0,
    decreases s.len(),
{
    if s.len() > 0 && is_blank(s.last()) {
        let rest = s.drop_last();
        lemma_trim_end_is_prefix(rest);
    } else {
    }
}

/// A trimmed text is a contiguous part of the text it came from, and has no
/// white space at either end.
pub proof fn lemma_trimmed_shape(s: Seq<char>)
    ensures
        exists|a: int, b: int|
            0 <= a <= b <= s.len() && #[trigger] s.subrange(a, b) == trimmed(s),
        trimmed(s).len() == 0 || (!is_blank(trimmed(s)[0]) && !is_blank(
            trimmed(s).last(),
        )),
{
    let u = trim_start(s);
    let t = trim_end(u);
    lemma_trim_start_is_suffix(s);
    lemma_trim_end_is_prefix(u);
    let a = s.len() - u.len();
    let b = a + t.len();
    assert(s.subrange(a, b) =~= t);
}

/// Trimming a trimmed text changes nothing.
pub proof fn lemma_trim_idempotent(s: Seq<char>)
    ensures
        trimmed(trimmed(s)) == trimmed(s),
{
    lemma_trimmed_shape(s);
}

/// A text that neither begins nor ends with white space is sanitized in
/// place: the result is as long as the text, a reserved or control
/// character is replaced by `-`, and every other character is kept where it
/// stands.
pub proof fn lemma_sanitize_in_place(s: Seq<char>)
    requires
        s.len() == 0 || (!is_blank(s[0]) && !is_blank(s.last())),
    ensures
        sanitized(s) == replaced(s),
        sanitized(s).len() == s.len(),
        forall|i: int| 0 <= i < s.len() ==> #[trigger] sanitized(s)[i] == safe_char(s[i]),
{
    assert(!is_blank('-'));
}

/// Sanitization is idempotent: a sanitized text is its own sanitization.
pub proof fn lemma_sanitize_idempotent(s: Seq<char>)
    ensures
        sanitized(sanitized(s)) == sanitized(s),
{
    let r = replaced(s);
    lemma_trimmed_shape(r);
    let (a, b) = choose|a: int, b: int|
        0 <= a <= b <= r.len() && #[trigger] r.subrange(a, b) == trimmed(r);
    lemma_trim_idempotent(r);
}

} // verus!
