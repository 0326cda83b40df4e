//! Character-level specifications, and the few calls into std's string
//! functions that the picker's logic relies on.

use vstd::prelude::*;

verus! {

/// Whether `c` has the Unicode `White_Space` property, as `char::is_whitespace`
/// defines it.
pub open spec fn is_ws(c: char) -> bool {
    ('\u{9}' <= c && c <= '\u{d}') || c == ' ' || c == '\u{85}' || c == '\u{a0}'
        || c == '\u{1680}' || ('\u{2000}' <= c && c <= '\u{200a}') || c == '\u{2028}'
        || c == '\u{2029}' || c == '\u{202f}' || c == '\u{205f}' || c == '\u{3000}'
}

/// `s` without its leading and trailing whitespace.
pub open spec fn trim_seq(s: Seq<char>) -> Seq<char>
    decreases s.len(),
{
    if s.len() == 0 {
        s
    } else if is_ws(s[0]) {
        trim_seq(s.drop_first())
    } else if is_ws(s.last()) {
        trim_seq(s.drop_last())
    } else {
        s
    }
}

/// Whether `needle` occurs as a contiguous run of characters in `hay`.
pub open spec fn contains_seq(hay: Seq<char>, needle: Seq<char>) -> bool {
    exists|i: int|
        0 <= i && i + needle.len() <= hay.len() && #[trigger] hay.subrange(i, i + needle.len())
            == needle
}

/// Index of the first `':'` in `s`, or -1 when there is none.
pub open spec fn colon_at(s: Seq<char>) -> int
    decreases s.len(),
{
    if s.len() == 0 {
        -1
    } else if s[0] == ':' {
        0
    } else {
        let r = colon_at(s.drop_first());
        if r < 0 {
            -1
        } else {
            r + 1
        }
    }
}

/// What `str::to_lowercase` makes of a string of characters.
pub uninterp spec fn lower_of(s: Seq<char>) -> Seq<char>;

/// `colon_at` finds the separator of any split whose left side holds no colon.
pub proof fn lemma_colon_at_split(a: Seq<char>, b: Seq<char>)
    requires
        !a.contains(':'),
    ensures
        colon_at(a + seq![':'] + b) == a.len(),
    decreases a.len(),
{
    let s = a + seq![':'] + b;
    if a.len() == 0 {
        assert(s[0] == ':');
    } else {
        assert(a[0] != ':') by {
            assert(a.contains(a[0]) ==> a[0] != ':');
        }
        assert(s[0] == a[0]);
        let a2 = a.drop_first();
        assert(!a2.contains(':')) by {
            if a2.contains(':') {
                let j = choose|j: int| 0 <= j < a2.len() && a2[j] == ':';
                assert(a[j + 1] == ':');
            }
        }
        assert(s.drop_first() =~= a2 + seq![':'] + b);
        lemma_colon_at_split(a2, b);
    }
}

/// A string without a colon has no separator.
pub proof fn lemma_colon_at_none(s: Seq<char>)
    requires
        !s.contains(':'),
    ensures
        colon_at(s) == -1,
    decreases s.len(),
{
    if s.len() > 0 {
        assert(s[0] != ':') by {
            assert(s.contains(s[0]) ==> s[0] != ':');
        }
        let s2 = s.drop_first();
        assert(!s2.contains(':')) by {
            if s2.contains(':') {
                let j = choose|j: int| 0 <= j < s2.len() && s2[j] == ':';
                assert(s[j + 1] == ':');
            }
        }
        lemma_colon_at_none(s2);
    }
}

/// Relies on `str::trim`: leading and trailing `White_Space` characters are removed.
#[verifier::external_body]
pub(crate) fn trim_str(s: &str) -> (r: String)
    ensures
        r@ == trim_seq(s@),
{
    s.trim().to_string()
}

/// Relies on `str::split_once`: the text before and after the first `':'`, or
/// `None` when there is no `':'`.
#[verifier::external_body]
pub(crate) fn split_on_colon(s: &str) -> (r: Option<(String, String)>)
    ensures
        match r {
            None => !s@.contains(':'),
            Some((a, b)) => s@ == a@ + seq![':'] + b@ && !a@.contains(':'),
        },
{
    s.split_once(':').map(|(a, b)| (a.to_string(), b.to_string()))
}

/// Relies on `str::to_lowercase`: the result depends on the characters alone,
/// and an empty string stays empty.
#[verifier::external_body]
pub(crate) fn lowercase(s: &str) -> (r: String)
    ensures
        r@ == lower_of(s@),
        s@.len() == 0 ==> r@.len() == 0,
{
    s.to_lowercase()
}

/// Relies on `str::contains` with a `&str` pattern: whether `needle` occurs in `hay`.
#[verifier::external_body]
pub(crate) fn str_contains(hay: &str, needle: &str) -> (r: bool)
    ensures
        r == contains_seq(hay@, needle@),
{
    hay.contains(needle)
}

} // verus!
