//! Character-level helpers over `str`, stated over `Seq<char>`.
use vstd::prelude::*;
use vstd::string::StrSliceExecFns;

verus! {

/// Whether a character beyond ASCII has the Unicode White_Space property.
pub uninterp spec fn wide_white_space(c: char) -> bool;

/// The Unicode White_Space property. Its ASCII members are U+0009 to U+000D
/// and the space.
pub open spec fn white_space(c: char) -> bool {
    if (c as u32) < 128 {
        c == ' ' || ('\t' <= c && c <= '\r')
    } else {
        wide_white_space(c)
    }
}

/// Relies on `char::is_whitespace`: whether `c` has the White_Space property.
#[verifier::external_body]
pub(crate) fn is_white_space(c: char) -> (r: bool)
    ensures
        r == white_space(c),
        (c as u32) >= 128 ==> r == wide_white_space(c),
{
    c.is_whitespace()
}

/// Whether `p` is a prefix of `s`.
pub open spec fn has_prefix(s: Seq<char>, p: Seq<char>) -> bool {
    p.len() <= s.len() && s.subrange(0, p.len() as int) == p
}

/// Decides `has_prefix(s@, p@)`.
pub fn starts_with(s: &str, p: &str) -> (r: bool)
    ensures
        r == has_prefix(s@, p@),
{
    let n = s.unicode_len();
    let m = p.unicode_len();
    if m > n {
        return false;
    }
    let mut i: usize = 0;
    while i < m
        invariant
            m == p@.len(),
            n == s@.len(),
            m <= n,
            i <= m,
            forall|j: int| 0 <= j < i ==> s@[j] == p@[j],
        decreases m - i,
    {
        if s.get_char(i) != p.get_char(i) {
            assert(s@.subrange(0, m as int)[i as int] != p@[i as int]);
            return false;
        }
        i = i + 1;
    }
    assert(s@.subrange(0, m as int) =~= p@);
    true
}

/// Whether `a` and `b` hold the same characters.
pub fn same_text(a: &str, b: &str) -> (r: bool)
    ensures
        r == (a@ == b@),
{
    let r = a.unicode_len() == b.unicode_len() && starts_with(a, b);
    proof {
        assert(a@.subrange(0, a@.len() as int) =~= a@);
    }
    r
}

/// First index `j >= i` with `s[j] == c` (or `s.len()` when there is none).
pub open spec fn find_char(s: Seq<char>, c: char, i: int) -> int
    decreases s.len() - i,
{
    if i < 0 || i >= s.len() {
        s.len() as int
    } else if s[i] == c {
        i
    } else {
        find_char(s, c, i + 1)
    }
}

/// Index of the first `c` in `s` (or its length).
pub fn position_of(s: &str, c: char) -> (r: usize)
    ensures
        r as int == find_char(s@, c, 0),
        r <= s@.len(),
{
    let n = s.unicode_len();
    let mut j: usize = 0;
    while j < n && s.get_char(j) != c
        invariant
            n == s@.len(),
            j <= n,
            find_char(s@, c, j as int) == find_char(s@, c, 0),
        decreases n - j,
    {
        j = j + 1;
    }
    j
}

/// First index at or after `i` that is not white space (or `s.len()`).
pub open spec fn skip_ws(s: Seq<char>, i: int) -> int
    decreases s.len() - i,
{
    if 0 <= i < s.len() && white_space(s[i]) {
        skip_ws(s, i + 1)
    } else {
        i
    }
}

/// End of `s[lo..j]` once trailing white space is dropped.
pub open spec fn back_ws(s: Seq<char>, lo: int, j: int) -> int
    decreases j - lo,
{
    if lo < j && j <= s.len() && white_space(s[j - 1]) {
        back_ws(s, lo, j - 1)
    } else {
        j
    }
}

/// `s` without leading white space.
pub open spec fn trim_start_text(s: Seq<char>) -> Seq<char> {
    s.subrange(skip_ws(s, 0), s.len() as int)
}

/// `s` without leading and trailing white space.
pub open spec fn trim_text(s: Seq<char>) -> Seq<char> {
    let a = skip_ws(s, 0);
    s.subrange(a, back_ws(s, a, s.len() as int))
}

pub proof fn lemma_back_ws_bounds(s: Seq<char>, lo: int, j: int)
    requires
        0 <= lo <= j <= s.len(),
    ensures
        lo <= back_ws(s, lo, j) <= j,
    decreases j - lo,
{
    if lo < j && white_space(s[j - 1]) {
        lemma_back_ws_bounds(s, lo, j - 1);
    }
}

/// Index of the first character of `s` that is not white space.
fn first_non_ws(s: &str) -> (r: usize)
    ensures
        r as int == skip_ws(s@, 0),
        r <= s@.len(),
{
    let n = s.unicode_len();
    let mut i: usize = 0;
    while i < n && is_white_space(s.get_char(i))
        invariant
            n == s@.len(),
            i <= n,
            skip_ws(s@, i as int) == skip_ws(s@, 0),
        decreases n - i,
    {
        i = i + 1;
    }
    i
}

/// Returns `s` without its leading white space.
pub fn trim_start(s: &str) -> (r: String)
    ensures
        r@ == trim_start_text(s@),
{
    let a = first_non_ws(s);
    s.substring_char(a, s.unicode_len()).to_owned()
}

/// Returns `s` without its leading and trailing white space.
pub fn trim(s: &str) -> (r: String)
    ensures
        r@ == trim_text(s@),
{
    let a = first_non_ws(s);
    let n = s.unicode_len();
    let mut j: usize = n;
    proof {
        lemma_back_ws_bounds(s@, a as int, n as int);
    }
    while a < j && is_white_space(s.get_char(j - 1))
        invariant
            n == s@.len(),
            a <= j <= n,
            back_ws(s@, a as int, j as int) == back_ws(s@, a as int, n as int),
        decreases j,
    {
        j = j - 1;
    }
    s.substring_char(a, j).to_owned()
}

} // verus!
