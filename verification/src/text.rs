//! Small operations on text that the commands share.

use vstd::prelude::*;
use vstd::string::StrSliceExecFns;

verus! {

/// What `str::to_lowercase` gives for `text`.
pub uninterp spec fn lowercase(text: Seq<char>) -> Seq<char>;

/// `str::to_lowercase`: the lower-case form of `text`.
#[verifier::external_body]
pub(crate) fn to_lowercase(text: &str) -> (r: String)
    ensures
        r@ == lowercase(text@),
{
    text.to_lowercase()
}

/// Whether `c` is one of the five ASCII white-space characters.
pub open spec fn is_ascii_space(c: char) -> bool {
    c == ' ' || c == '\t' || c == '\n' || c == '\x0C' || c == '\r'
}

/// The first place from `from` on where `text` has no white space, or the
/// end of `text`.
pub open spec fn spaces_end(text: Seq<char>, from: int) -> int
    decreases text.len() - from,
{
    if 0 <= from < text.len() && is_ascii_space(text[from]) {
        spaces_end(text, from + 1)
    } else {
        from
    }
}

/// The first place from `from` on where `text` has white space, or the end
/// of `text`.
pub open spec fn word_end(text: Seq<char>, from: int) -> int
    decreases text.len() - from,
{
    if 0 <= from < text.len() && !is_ascii_space(text[from]) {
        word_end(text, from + 1)
    } else {
        from
    }
}

/// The second of the words that white space parts `text` into, if there
/// are two.
pub open spec fn second_word(text: Seq<char>) -> Option<Seq<char>> {
    let first = spaces_end(text, 0);
    let second = spaces_end(text, word_end(text, first));
    if second < word_end(text, second) {
        Some(text.subrange(second, word_end(text, second)))
    } else {
        None
    }
}

/// Whether `text` starts with `prefix`.
pub fn has_prefix(text: &str, prefix: &str) -> (r: bool)
    ensures
        r == prefix@.is_prefix_of(text@),
{
    let n = prefix.unicode_len();
    if text.unicode_len() < n {
        return false;
    }
    let mut i: usize = 0;
    while i < n
        invariant
            i <= n,
            n == prefix@.len(),
            n <= text@.len(),
            forall|j: int| 0 <= j < i ==> text@[j] == prefix@[j],
        decreases n - i,
    {
        if text.get_char(i) != prefix.get_char(i) {
            assert(text@.subrange(0, n as int)[i as int] != prefix@[i as int]);
            return false;
        }
        i += 1;
    }
    assert(prefix@ =~= text@.subrange(0, n as int));
    true
}

/// Whether `a` and `b` are the same text.
pub fn same_text(a: &str, b: &str) -> (r: bool)
    ensures
        r == (a@ == b@),
{
    if a.unicode_len() != b.unicode_len() {
        return false;
    }
    let r = has_prefix(a, b);
    assert(b@.is_prefix_of(a@) <==> a@ =~= b@);
    r
}

/// The place where the white space that starts at `from` ends.
fn skip_spaces(text: &str, from: usize) -> (r: usize)
    requires
        from <= text@.len(),
    ensures
        r == spaces_end(text@, from as int),
        from <= r <= text@.len(),
{
    let n = text.unicode_len();
    let mut i: usize = from;
    while i < n && is_space(text.get_char(i))
        invariant
            from <= i <= n,
            n == text@.len(),
            spaces_end(text@, from as int) == spaces_end(text@, i as int),
        decreases n - i,
    {
        i += 1;
    }
    i
}

/// The place where the word that starts at `from` ends.
fn skip_word(text: &str, from: usize) -> (r: usize)
    requires
        from <= text@.len(),
    ensures
        r == word_end(text@, from as int),
        from <= r <= text@.len(),
{
    let n = text.unicode_len();
    let mut i: usize = from;
    while i < n && !is_space(text.get_char(i))
        invariant
            from <= i <= n,
            n == text@.len(),
            word_end(text@, from as int) == word_end(text@, i as int),
        decreases n - i,
    {
        i += 1;
    }
    i
}

/// Whether `c` is ASCII white space.
fn is_space(c: char) -> (r: bool)
    ensures
        r == is_ascii_space(c),
{
    c == ' ' || c == '\t' || c == '\n' || c == '\x0C' || c == '\r'
}

/// The second word of `text`, if it has two.
pub fn find_second_word(text: &str) -> (r: Option<&str>)
    ensures
        match r {
            Some(word) => second_word(text@) == Some(word@),
            None => second_word(text@) is None,
        },
{
    let first = skip_spaces(text, 0);
    let gap = skip_word(text, first);
    let second = skip_spaces(text, gap);
    let end = skip_word(text, second);
    if second < end {
        Some(text.substring_char(second, end))
    } else {
        None
    }
}

} // verus!
