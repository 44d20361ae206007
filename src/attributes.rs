//! Extraction of `key="value"` pairs from a text fragment.
use vstd::hash_map::StringHashMap;
use vstd::prelude::*;
use vstd::string::StrSliceExecFns;

use crate::text::{is_white_space, white_space};

verus! {

/// A character that may stand in an attribute key.
pub open spec fn key_char(c: char) -> bool {
    !white_space(c) && c != '=' && c != '"'
}

/// First `j >= i` where `="` starts (or `s.len()` when there is none).
pub open spec fn find_open(s: Seq<char>, i: int) -> int
    decreases s.len() - i,
{
    if i < 0 || i + 1 >= s.len() {
        s.len() as int
    } else if s[i] == '=' && s[i + 1] == '"' {
        i
    } else {
        find_open(s, i + 1)
    }
}

/// First `j >= i` with `s[j] == '"'` (or `s.len()` when there is none).
pub open spec fn find_quote(s: Seq<char>, i: int) -> int
    decreases s.len() - i,
{
    if i < 0 || i >= s.len() {
        s.len() as int
    } else if s[i] == '"' {
        i
    } else {
        find_quote(s, i + 1)
    }
}

/// Start of the longest run of key characters that ends at `j`, not before `lo`.
pub open spec fn key_start(s: Seq<char>, lo: int, j: int) -> int
    decreases j - lo,
{
    if lo < j && j <= s.len() && key_char(s[j - 1]) {
        key_start(s, lo, j - 1)
    } else {
        j
    }
}

pub proof fn lemma_find_open_bounds(s: Seq<char>, i: int)
    requires
        0 <= i,
    ensures
        i <= find_open(s, i) <= s.len() || (i >= s.len() && find_open(s, i) == s.len()),
        find_open(s, i) < s.len() ==> find_open(s, i) + 1 < s.len()
            && s[find_open(s, i)] == '=' && s[find_open(s, i) + 1] == '"',
    decreases s.len() - i,
{
    if i + 1 < s.len() && !(s[i] == '=' && s[i + 1] == '"') {
        lemma_find_open_bounds(s, i + 1);
    }
}

pub proof fn lemma_find_quote_bounds(s: Seq<char>, i: int)
    requires
        0 <= i,
    ensures
        i <= find_quote(s, i) <= s.len() || (i >= s.len() && find_quote(s, i) == s.len()),
        find_quote(s, i) < s.len() ==> s[find_quote(s, i)] == '"',
    decreases s.len() - i,
{
    if i < s.len() && s[i] != '"' {
        lemma_find_quote_bounds(s, i + 1);
    }
}

pub proof fn lemma_key_start_bounds(s: Seq<char>, lo: int, j: int)
    requires
        0 <= lo <= j <= s.len(),
    ensures
        lo <= key_start(s, lo, j) <= j,
    decreases j - lo,
{
    if lo < j && key_char(s[j - 1]) {
        lemma_key_start_bounds(s, lo, j - 1);
    }
}

/// The pairs found in `s` from index `i` on, left to right. A match with an
/// empty key is passed over; an opening quote with no closing one ends the scan.
pub open spec fn pairs_from(s: Seq<char>, i: int) -> Seq<(Seq<char>, Seq<char>)>
    decreases s.len() - i,
    via pairs_from_decreases
{
    if i < 0 || i >= s.len() {
        Seq::empty()
    } else {
        let j = find_open(s, i);
        if j >= s.len() {
            Seq::empty()
        } else {
            let k = find_quote(s, j + 2);
            if k >= s.len() {
                Seq::empty()
            } else {
                let key = s.subrange(key_start(s, i, j), j);
                let rest = pairs_from(s, k + 1);
                if key.len() > 0 {
                    seq![(key, s.subrange(j + 2, k))] + rest
                } else {
                    rest
                }
            }
        }
    }
}

#[via_fn]
proof fn pairs_from_decreases(s: Seq<char>, i: int) {
    if 0 <= i < s.len() {
        lemma_find_open_bounds(s, i);
        let j = find_open(s, i);
        if j < s.len() {
            lemma_find_quote_bounds(s, j + 2);
        }
    }
}

/// All pairs of `s`, in the order in which they occur.
pub open spec fn attribute_pairs(s: Seq<char>) -> Seq<(Seq<char>, Seq<char>)> {
    pairs_from(s, 0)
}

/// `m` with each pair of `ps` inserted in turn: a later pair overwrites an
/// earlier one with the same key.
pub open spec fn merge_pairs(
    m: Map<Seq<char>, Seq<char>>,
    ps: Seq<(Seq<char>, Seq<char>)>,
) -> Map<Seq<char>, Seq<char>>
    decreases ps.len(),
{
    if ps.len() == 0 {
        m
    } else {
        merge_pairs(m, ps.drop_last()).insert(ps.last().0, ps.last().1)
    }
}

/// Whether some pair of `ps` has key `k`.
pub open spec fn has_key(ps: Seq<(Seq<char>, Seq<char>)>, k: Seq<char>) -> bool {
    exists|i: int| 0 <= i < ps.len() && ps[i].0 == k
}

/// Keys that no pair mentions keep what `m` had for them.
pub proof fn lemma_merge_other_keys(
    m: Map<Seq<char>, Seq<char>>,
    ps: Seq<(Seq<char>, Seq<char>)>,
    k: Seq<char>,
)
    requires
        !has_key(ps, k),
    ensures
        merge_pairs(m, ps).contains_key(k) == m.contains_key(k),
        m.contains_key(k) ==> merge_pairs(m, ps)[k] == m[k],
    decreases ps.len(),
{
    if ps.len() > 0 {
        let q = ps.drop_last();
        assert forall|i: int| 0 <= i < q.len() implies q[i].0 != k by {
            assert(ps[i] == q[i]);
        }
        assert(ps[ps.len() - 1].0 != k);
        lemma_merge_other_keys(m, q, k);
    }
}

/// A key that some pair mentions gets the value of the last such pair,
/// whatever the map it is merged into.
pub proof fn lemma_merge_last_wins(
    m: Map<Seq<char>, Seq<char>>,
    ps: Seq<(Seq<char>, Seq<char>)>,
    i: int,
)
    requires
        0 <= i < ps.len(),
        forall|j: int| i < j < ps.len() ==> ps[j].0 != ps[i].0,
    ensures
        merge_pairs(m, ps).contains_key(ps[i].0),
        merge_pairs(m, ps)[ps[i].0] == ps[i].1,
    decreases ps.len(),
{
    if i < ps.len() - 1 {
        let q = ps.drop_last();
        assert(q[i] == ps[i]);
        assert forall|j: int| i < j < q.len() implies q[j].0 != q[i].0 by {
            assert(q[j] == ps[j]);
        }
        lemma_merge_last_wins(m, q, i);
    }
}

/// A key that some pair mentions gets the same value whatever map the pairs
/// are merged into.
pub proof fn lemma_merge_keys_of_pairs(
    m1: Map<Seq<char>, Seq<char>>,
    m2: Map<Seq<char>, Seq<char>>,
    ps: Seq<(Seq<char>, Seq<char>)>,
    k: Seq<char>,
)
    requires
        has_key(ps, k),
    ensures
        merge_pairs(m1, ps).contains_key(k),
        merge_pairs(m2, ps).contains_key(k),
        merge_pairs(m1, ps)[k] == merge_pairs(m2, ps)[k],
    decreases ps.len(),
{
    let q = ps.drop_last();
    if ps.last().0 != k {
        let i = choose|i: int| 0 <= i < ps.len() && ps[i].0 == k;
        assert(q[i] == ps[i]);
        lemma_merge_keys_of_pairs(m1, m2, q, k);
    }
}

/// Merging the same pairs a second time changes nothing.
pub proof fn lemma_merge_idempotent(
    m: Map<Seq<char>, Seq<char>>,
    ps: Seq<(Seq<char>, Seq<char>)>,
)
    ensures
        merge_pairs(merge_pairs(m, ps), ps) == merge_pairs(m, ps),
{
    let once = merge_pairs(m, ps);
    let twice = merge_pairs(once, ps);
    assert forall|k: Seq<char>| #[trigger] twice.contains_key(k) == once.contains_key(k)
        && (once.contains_key(k) ==> twice[k] == once[k]) by {
        if has_key(ps, k) {
            lemma_merge_keys_of_pairs(once, m, ps, k);
        } else {
            lemma_merge_other_keys(once, ps, k);
        }
    }
    assert(twice =~= once);
}

/// Extracting the attributes of a text into a map that already holds them
/// changes nothing.
pub proof fn lemma_extraction_idempotent(m: Map<Seq<char>, Seq<char>>, s: Seq<char>)
    ensures
        merge_pairs(merge_pairs(m, attribute_pairs(s)), attribute_pairs(s))
            == merge_pairs(m, attribute_pairs(s)),
{
    lemma_merge_idempotent(m, attribute_pairs(s));
}

/// Extraction keeps, for each key, the value of its last pair in the text.
pub proof fn lemma_extraction_last_wins(s: Seq<char>, i: int)
    requires
        0 <= i < attribute_pairs(s).len(),
        forall|j: int|
            i < j < attribute_pairs(s).len() ==> attribute_pairs(s)[j].0
                != attribute_pairs(s)[i].0,
    ensures
        attribute_map(s).contains_key(attribute_pairs(s)[i].0),
        attribute_map(s)[attribute_pairs(s)[i].0] == attribute_pairs(s)[i].1,
{
    lemma_merge_last_wins(Map::empty(), attribute_pairs(s), i);
}

/// The map that extraction yields for `s` on its own.
pub open spec fn attribute_map(s: Seq<char>) -> Map<Seq<char>, Seq<char>> {
    merge_pairs(Map::empty(), attribute_pairs(s))
}

/// The contents of a string-keyed map of strings, as character sequences.
pub open spec fn text_map(m: Map<Seq<char>, String>) -> Map<Seq<char>, Seq<char>> {
    Map::new(|k: Seq<char>| m.contains_key(k), |k: Seq<char>| m[k]@)
}

pub proof fn lemma_text_map_insert(m: Map<Seq<char>, String>, k: Seq<char>, v: String)
    ensures
        text_map(m.insert(k, v)) == text_map(m).insert(k, v@),
{
    assert(text_map(m.insert(k, v)) =~= text_map(m).insert(k, v@));
}

fn find_open_exec(s: &str, i: usize) -> (r: usize)
    requires
        i <= s@.len(),
    ensures
        r as int == find_open(s@, i as int),
{
    let n = s.unicode_len();
    let mut j: usize = i;
    while j < n && j + 1 < n && !(s.get_char(j) == '=' && s.get_char(j + 1) == '"')
        invariant
            n == s@.len(),
            i <= j <= n,
            find_open(s@, j as int) == find_open(s@, i as int),
        decreases n - j,
    {
        j = j + 1;
    }
    if j >= n || j + 1 >= n {
        n
    } else {
        j
    }
}

fn find_quote_exec(s: &str, i: usize) -> (r: usize)
    requires
        i <= s@.len(),
    ensures
        r as int == find_quote(s@, i as int),
{
    let n = s.unicode_len();
    let mut j: usize = i;
    while j < n && s.get_char(j) != '"'
        invariant
            n == s@.len(),
            i <= j <= n,
            find_quote(s@, j as int) == find_quote(s@, i as int),
        decreases n - j,
    {
        j = j + 1;
    }
    j
}

fn is_key_char(c: char) -> (r: bool)
    ensures
        r == key_char(c),
{
    !is_white_space(c) && c != '=' && c != '"'
}

fn key_start_exec(s: &str, lo: usize, j: usize) -> (r: usize)
    requires
        lo <= j <= s@.len(),
    ensures
        r as int == key_start(s@, lo as int, j as int),
        lo <= r <= j,
{
    let mut k: usize = j;
    proof {
        lemma_key_start_bounds(s@, lo as int, j as int);
    }
    while lo < k && is_key_char(s.get_char(k - 1))
        invariant
            lo <= k <= j <= s@.len(),
            key_start(s@, lo as int, k as int) == key_start(s@, lo as int, j as int),
        decreases k,
    {
        k = k - 1;
    }
    k
}

/// Inserts every pair found in `input` into `map`, left to right, so that
/// the last pair with a given key wins.
pub fn extend_attributes(map: &mut StringHashMap<String>, input: &str)
    ensures
        text_map(final(map)@) == merge_pairs(text_map(old(map)@), attribute_pairs(input@)),
{
    let ghost s = input@;
    let ghost m0 = text_map(map@);
    let ghost mut done: Seq<(Seq<char>, Seq<char>)> = Seq::empty();
    let n = input.unicode_len();
    let mut i: usize = 0;
    while i < n
        invariant
            s == input@,
            n == s.len(),
            i <= n,
            attribute_pairs(s) == done + pairs_from(s, i as int),
            text_map(map@) == merge_pairs(m0, done),
        decreases n - i,
    {
        let j = find_open_exec(input, i);
        proof {
            lemma_find_open_bounds(s, i as int);
        }
        if j >= n {
            assert(pairs_from(s, i as int) =~= Seq::empty());
            assert(done + pairs_from(s, i as int) =~= done);
            i = n;
        } else {
            let k = find_quote_exec(input, j + 2);
            proof {
                lemma_find_quote_bounds(s, j + 2);
            }
            if k >= n {
                assert(pairs_from(s, i as int) =~= Seq::empty());
                assert(done + pairs_from(s, i as int) =~= done);
                i = n;
            } else {
                let a = key_start_exec(input, i, j);
                let ghost rest = pairs_from(s, k + 1);
                if a < j {
                    let key = input.substring_char(a, j).to_owned();
                    let value = input.substring_char(j + 2, k).to_owned();
                    let ghost p = (key@, value@);
                    proof {
                        lemma_text_map_insert(map@, key@, value);
                        assert((done + seq![p]).drop_last() =~= done);
                        assert(done + pairs_from(s, i as int) =~= (done + seq![p]) + rest);
                        done = done + seq![p];
                    }
                    map.insert(key, value);
                } else {
                    assert(key_start(s, i as int, j as int) == j as int);
                }
                i = k + 1;
            }
        }
    }
    assert(pairs_from(s, n as int) =~= Seq::empty());
    assert(done + pairs_from(s, n as int) =~= done);
}

/// The map of all `key="value"` pairs of `input`; a later pair overwrites an
/// earlier one with the same key.
pub fn parse_attributes(input: &str) -> (r: StringHashMap<String>)
    ensures
        text_map(r@) == attribute_map(input@),
{
    let mut m: StringHashMap<String> = StringHashMap::new();
    assert(text_map(m@) =~= Map::empty());
    extend_attributes(&mut m, input);
    m
}

} // verus!
