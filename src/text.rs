//! Text helpers: normalisation, prefix tests and the typing delta.

use vstd::prelude::*;
use vstd::string::*;

verus! {

/// The reserved phrase that switches between listening and dictation.
pub open spec fn toggle_phrase_spec() -> Seq<char> {
    seq!['t', 'y', 'p', 'e']
}

/// Returns the reserved mode-toggle phrase.
pub fn toggle_phrase() -> (r: String)
    ensures
        r@ == toggle_phrase_spec(),
{
    let s = String::from_str("type");
    proof {
        reveal_strlit("type");
    }
    assert(s@ =~= toggle_phrase_spec());
    s
}

/// A character with the Unicode `White_Space` property.
pub open spec fn is_white_space(c: char) -> bool {
    let u = c as u32;
    (0x09 <= u <= 0x0d) || u == 0x20 || u == 0x85 || u == 0xa0 || u == 0x1680 || (0x2000 <= u
        <= 0x200a) || u == 0x2028 || u == 0x2029 || u == 0x202f || u == 0x205f || u == 0x3000
}

/// The number of white-space characters at the start of `s`.
pub open spec fn leading_white(s: Seq<char>) -> nat
    decreases s.len(),
{
    if s.len() == 0 || !is_white_space(s[0]) {
        0
    } else {
        1 + leading_white(s.drop_first())
    }
}

/// The number of white-space characters at the end of `s`.
pub open spec fn trailing_white(s: Seq<char>) -> nat
    decreases s.len(),
{
    if s.len() == 0 || !is_white_space(s.last()) {
        0
    } else {
        1 + trailing_white(s.drop_last())
    }
}

/// `s` without its leading and trailing white space.
pub open spec fn trimmed_of(s: Seq<char>) -> Seq<char> {
    if leading_white(s) >= s.len() {
        Seq::empty()
    } else {
        s.subrange(leading_white(s) as int, s.len() - trailing_white(s))
    }
}

/// What `str::to_lowercase` returns for a string with these characters.
pub uninterp spec fn lowercase_of(s: Seq<char>) -> Seq<char>;

/// Relies on `str::trim`: leading and trailing characters with the Unicode
/// `White_Space` property are removed.
#[verifier::external_body]
fn trim(s: &str) -> (r: String)
    ensures
        r@ == trimmed_of(s@),
{
    s.trim().to_string()
}

/// Relies on `str::to_lowercase`: Unicode lower-case mapping, whose result
/// depends on the characters of `s` alone.
#[verifier::external_body]
fn lowercase(s: &str) -> (r: String)
    ensures
        r@ == lowercase_of(s@),
{
    s.to_lowercase()
}

/// The normal form of a phrase or a hypothesis: trimmed, then case-folded.
pub open spec fn normalized(s: Seq<char>) -> Seq<char> {
    lowercase_of(trimmed_of(s))
}

/// Trims and lower-cases `s`.
pub fn normalize(s: &str) -> (r: String)
    ensures
        r@ == normalized(s@),
{
    let t = trim(s);
    lowercase(t.as_str())
}

/// `p` is a prefix of `s` (possibly all of it).
pub open spec fn is_prefix_of(p: Seq<char>, s: Seq<char>) -> bool {
    p.len() <= s.len() && s.subrange(0, p.len() as int) == p
}

/// `p` is a prefix of `s` and shorter than it.
pub open spec fn is_strict_prefix_of(p: Seq<char>, s: Seq<char>) -> bool {
    p.len() < s.len() && is_prefix_of(p, s)
}

/// Whether `s` begins with `p`.
pub fn starts_with(s: &str, p: &str) -> (r: bool)
    ensures
        r == is_prefix_of(p@, s@),
{
    let n = p.unicode_len();
    let m = s.unicode_len();
    if n > m {
        return false;
    }
    let mut i: usize = 0;
    while i < n
        invariant
            n == p@.len(),
            m == s@.len(),
            n <= m,
            i <= n,
            forall|k: int| 0 <= k < i ==> s@[k] == p@[k],
        decreases n - i,
    {
        if s.get_char(i) != p.get_char(i) {
            assert(s@.subrange(0, n as int)[i as int] != p@[i as int]);
            return false;
        }
        i += 1;
    }
    assert(s@.subrange(0, n as int) =~= p@);
    true
}

/// The text still to be typed when the hypothesis moves from `prev` to `cur`:
/// the continuation when `cur` extends `prev`, else all of `cur`.
pub open spec fn typing_delta_spec(prev: Seq<char>, cur: Seq<char>) -> Seq<char> {
    if is_prefix_of(prev, cur) {
        cur.subrange(prev.len() as int, cur.len() as int)
    } else {
        cur
    }
}

/// Computes the text to type for a new hypothesis `cur` after `prev`.
pub fn typing_delta(prev: &str, cur: &str) -> (r: String)
    ensures
        r@ == typing_delta_spec(prev@, cur@),
{
    if starts_with(cur, prev) {
        let n = prev.unicode_len();
        let m = cur.unicode_len();
        String::from_str(cur.substring_char(n, m))
    } else {
        String::from_str(cur)
    }
}

} // verus!
