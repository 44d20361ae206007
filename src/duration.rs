//! Recognition of the text of a decimal floating-point number, in the
//! grammar that `f64`'s `FromStr` accepts:
//!
//! ```text
//! Float  ::= Sign? ( 'inf' | 'infinity' | 'nan' | Number )
//! Number ::= ( Digit+ | Digit+ '.' Digit* | Digit* '.' Digit+ ) Exp?
//! Exp    ::= 'e' Sign? Digit+
//! Sign   ::= [+-]
//! Digit  ::= [0-9]
//! ```
//!
//! Letters match in either case.
use vstd::prelude::*;
use vstd::string::StrSliceExecFns;

verus! {

pub open spec fn is_digit(c: char) -> bool {
    '0' <= c && c <= '9'
}

pub open spec fn is_sign(c: char) -> bool {
    c == '+' || c == '-'
}

/// Whether `c` is `w`, or the upper-case form of the ASCII letter `w`.
pub open spec fn same_letter(c: char, w: char) -> bool {
    c == w || ('a' <= w && w <= 'z' && (c as u32) == (w as u32) - 32)
}

/// End of the run of digits that starts at `i`.
pub open spec fn digit_end(s: Seq<char>, i: int) -> int
    decreases s.len() - i,
{
    if 0 <= i < s.len() && is_digit(s[i]) {
        digit_end(s, i + 1)
    } else {
        i
    }
}

/// Whether `s[i..]` is `w`, ignoring ASCII case.
pub open spec fn word_from(s: Seq<char>, i: int, w: Seq<char>) -> bool {
    s.len() - i == w.len() && forall|j: int| 0 <= j < w.len() ==> same_letter(s[i + j], w[j])
}

/// Whether `s[b..]` is empty or an exponent.
pub open spec fn exponent_from(s: Seq<char>, b: int) -> bool {
    b == s.len() || (b < s.len() && (s[b] == 'e' || s[b] == 'E') && {
        let c = if b + 1 < s.len() && is_sign(s[b + 1]) {
            b + 2
        } else {
            b + 1
        };
        c < s.len() && digit_end(s, c) == s.len()
    })
}

/// Whether `s[i..]` is a `Number` of the grammar.
pub open spec fn number_from(s: Seq<char>, i: int) -> bool {
    let a = digit_end(s, i);
    if a < s.len() && s[a] == '.' {
        let b = digit_end(s, a + 1);
        (a - i) + (b - (a + 1)) > 0 && exponent_from(s, b)
    } else {
        a - i > 0 && exponent_from(s, a)
    }
}

/// Whether `s` is the text of a floating-point number.
pub open spec fn float_text(s: Seq<char>) -> bool {
    let i = if s.len() > 0 && is_sign(s[0]) {
        1int
    } else {
        0int
    };
    word_from(s, i, seq!['i', 'n', 'f']) || word_from(
        s,
        i,
        seq!['i', 'n', 'f', 'i', 'n', 'i', 't', 'y'],
    ) || word_from(s, i, seq!['n', 'a', 'n']) || number_from(s, i)
}

fn is_digit_exec(c: char) -> (r: bool)
    ensures
        r == is_digit(c),
{
    '0' <= c && c <= '9'
}

fn is_sign_exec(c: char) -> (r: bool)
    ensures
        r == is_sign(c),
{
    c == '+' || c == '-'
}

fn same_letter_exec(c: char, w: char) -> (r: bool)
    ensures
        r == same_letter(c, w),
{
    c == w || ('a' <= w && w <= 'z' && (c as u32) == (w as u32) - 32)
}

fn digit_end_exec(s: &str, i: usize) -> (r: usize)
    requires
        i <= s@.len(),
    ensures
        r as int == digit_end(s@, i as int),
        i <= r <= s@.len(),
{
    let n = s.unicode_len();
    let mut j: usize = i;
    while j < n && is_digit_exec(s.get_char(j))
        invariant
            n == s@.len(),
            i <= j <= n,
            digit_end(s@, j as int) == digit_end(s@, i as int),
        decreases n - j,
    {
        j = j + 1;
    }
    j
}

fn word_from_exec(s: &str, i: usize, w: &str) -> (r: bool)
    requires
        i <= s@.len(),
    ensures
        r == word_from(s@, i as int, w@),
{
    let n = s.unicode_len();
    let m = w.unicode_len();
    if n - i != m {
        return false;
    }
    let mut j: usize = 0;
    while j < m
        invariant
            n == s@.len(),
            m == w@.len(),
            n - i == m,
            j <= m,
            forall|t: int| 0 <= t < j ==> same_letter(s@[i + t], w@[t]),
        decreases m - j,
    {
        if !same_letter_exec(s.get_char(i + j), w.get_char(j)) {
            return false;
        }
        j = j + 1;
    }
    true
}

fn exponent_from_exec(s: &str, b: usize) -> (r: bool)
    requires
        b <= s@.len(),
    ensures
        r == exponent_from(s@, b as int),
{
    let n = s.unicode_len();
    if b == n {
        return true;
    }
    let e = s.get_char(b);
    if e != 'e' && e != 'E' {
        return false;
    }
    let c = if b + 1 < n && is_sign_exec(s.get_char(b + 1)) {
        b + 2
    } else {
        b + 1
    };
    c < n && digit_end_exec(s, c) == n
}

fn number_from_exec(s: &str, i: usize) -> (r: bool)
    requires
        i <= s@.len(),
    ensures
        r == number_from(s@, i as int),
{
    let n = s.unicode_len();
    let a = digit_end_exec(s, i);
    if a < n && s.get_char(a) == '.' {
        let b = digit_end_exec(s, a + 1);
        (a - i) + (b - (a + 1)) > 0 && exponent_from_exec(s, b)
    } else {
        a - i > 0 && exponent_from_exec(s, a)
    }
}

/// Whether `s` is the text of a floating-point number.
pub fn is_float_text(s: &str) -> (r: bool)
    ensures
        r == float_text(s@),
{
    let n = s.unicode_len();
    let i: usize = if n > 0 && is_sign_exec(s.get_char(0)) {
        1
    } else {
        0
    };
    proof {
        reveal_strlit("inf");
        reveal_strlit("infinity");
        reveal_strlit("nan");
        assert("inf"@ =~= seq!['i', 'n', 'f']);
        assert("infinity"@ =~= seq!['i', 'n', 'f', 'i', 'n', 'i', 't', 'y']);
        assert("nan"@ =~= seq!['n', 'a', 'n']);
    }
    word_from_exec(s, i, "inf") || word_from_exec(s, i, "infinity") || word_from_exec(s, i, "nan")
        || number_from_exec(s, i)
}

} // verus!
