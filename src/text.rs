use vstd::prelude::*;
use vstd::string::*;

verus! {

pub open spec fn is_space(c: char) -> bool {
    c == ' ' || c == '\t' || c == '\n' || c == '\r'
}

/// The first position from `i` on that holds no whitespace (or the end).
pub open spec fn skip_space(s: Seq<char>, i: int) -> int
    decreases s.len() - i,
{
    if 0 <= i < s.len() && is_space(s[i]) {
        skip_space(s, i + 1)
    } else {
        i
    }
}

/// The first position from `i` on that holds whitespace (or the end).
pub open spec fn skip_word(s: Seq<char>, i: int) -> int
    decreases s.len() - i,
{
    if 0 <= i < s.len() && !is_space(s[i]) {
        skip_word(s, i + 1)
    } else {
        i
    }
}

/// The whitespace-separated token that starts at or after `i` (empty when none is left).
pub open spec fn token_from(s: Seq<char>, i: int) -> Seq<char> {
    let b = skip_space(s, i);
    s.subrange(b, skip_word(s, b))
}

/// The end of the token that starts at or after `i`.
pub open spec fn token_end(s: Seq<char>, i: int) -> int {
    skip_word(s, skip_space(s, i))
}

/// Token 0 of `s`.
pub open spec fn first_token(s: Seq<char>) -> Seq<char> {
    token_from(s, 0)
}

/// Whether `s` holds more than one whitespace-separated token.
pub open spec fn has_many_tokens(s: Seq<char>) -> bool {
    skip_space(s, token_end(s, 0)) < s.len()
}

pub open spec fn is_ascii_upper(c: char) -> bool {
    'A' <= c && c <= 'Z'
}

/// Two characters equal up to ASCII case.
pub open spec fn char_eq_ignore_case(x: char, y: char) -> bool {
    x == y || (is_ascii_upper(x) && x as u32 + 32 == y as u32) || (is_ascii_upper(y) && y as u32
        + 32 == x as u32)
}

/// Two texts equal up to ASCII case.
pub open spec fn eq_ignore_case(a: Seq<char>, b: Seq<char>) -> bool {
    a.len() == b.len() && forall|i: int| 0 <= i < a.len() ==> char_eq_ignore_case(#[trigger] a[i], b[i])
}

/// Whether `p` occurs in `t` at position `k`.
pub open spec fn occurs_at(t: Seq<char>, p: Seq<char>, k: int) -> bool {
    0 <= k && k + p.len() <= t.len() && t.subrange(k, k + p.len()) == p
}

/// Whether `p` occurs in `t`.
pub open spec fn contains(t: Seq<char>, p: Seq<char>) -> bool {
    exists|k: int| occurs_at(t, p, k)
}

pub proof fn lemma_skip_space(s: Seq<char>, i: int)
    requires
        0 <= i <= s.len(),
    ensures
        i <= skip_space(s, i) <= s.len(),
        skip_space(s, i) < s.len() ==> !is_space(s[skip_space(s, i)]),
    decreases s.len() - i,
{
    if i < s.len() && is_space(s[i]) {
        lemma_skip_space(s, i + 1);
    }
}

pub proof fn lemma_skip_word(s: Seq<char>, i: int)
    requires
        0 <= i <= s.len(),
    ensures
        i <= skip_word(s, i) <= s.len(),
        i < s.len() && !is_space(s[i]) ==> i < skip_word(s, i),
    decreases s.len() - i,
{
    if i < s.len() && !is_space(s[i]) {
        lemma_skip_word(s, i + 1);
    }
}

/// Exec form of `skip_space`.
pub fn skip_space_at(s: &str, i: usize) -> (r: usize)
    requires
        i <= s@.len(),
    ensures
        r == skip_space(s@, i as int),
        i <= r <= s@.len(),
{
    proof {
        lemma_skip_space(s@, i as int);
    }
    let n = s.unicode_len();
    let mut j = i;
    while j < n && is_space_char(s.get_char(j))
        invariant
            n == s@.len(),
            i <= j <= n,
            skip_space(s@, i as int) == skip_space(s@, j as int),
        decreases n - j,
    {
        j = j + 1;
    }
    j
}

/// Exec form of `skip_word`.
pub fn skip_word_at(s: &str, i: usize) -> (r: usize)
    requires
        i <= s@.len(),
    ensures
        r == skip_word(s@, i as int),
        i <= r <= s@.len(),
{
    let n = s.unicode_len();
    let mut j = i;
    while j < n && !is_space_char(s.get_char(j))
        invariant
            n == s@.len(),
            i <= j <= n,
            skip_word(s@, i as int) == skip_word(s@, j as int),
        decreases n - j,
    {
        j = j + 1;
    }
    j
}

fn is_space_char(c: char) -> (r: bool)
    ensures
        r == is_space(c),
{
    c == ' ' || c == '\t' || c == '\n' || c == '\r'
}

fn char_eq_ignore_case_exec(x: char, y: char) -> (r: bool)
    ensures
        r == char_eq_ignore_case(x, y),
{
    let a = x as u32;
    let b = y as u32;
    a == b || ('A' <= x && x <= 'Z' && a + 32 == b) || ('A' <= y && y <= 'Z' && b + 32 == a)
}

/// Whether the characters of `s` in `[b, e)` equal `w` up to ASCII case.
pub fn range_eq_ignore_case(s: &str, b: usize, e: usize, w: &str) -> (r: bool)
    requires
        b <= e <= s@.len(),
    ensures
        r == eq_ignore_case(s@.subrange(b as int, e as int), w@),
{
    let ghost t = s@.subrange(b as int, e as int);
    let m = w.unicode_len();
    if e - b != m {
        return false;
    }
    let mut k: usize = 0;
    while k < m
        invariant
            m == w@.len(),
            e - b == m,
            b <= e <= s@.len(),
            t == s@.subrange(b as int, e as int),
            k <= m,
            forall|q: int| 0 <= q < k ==> char_eq_ignore_case(#[trigger] t[q], w@[q]),
        decreases m - k,
    {
        if !char_eq_ignore_case_exec(s.get_char(b + k), w.get_char(k)) {
            assert(!char_eq_ignore_case(t[k as int], w@[k as int]));
            return false;
        }
        k = k + 1;
    }
    true
}

/// Whether `p` occurs among the characters of `s` in `[b, e)`.
pub fn range_contains(s: &str, b: usize, e: usize, p: &str) -> (r: bool)
    requires
        b <= e <= s@.len(),
    ensures
        r == contains(s@.subrange(b as int, e as int), p@),
{
    let ghost t = s@.subrange(b as int, e as int);
    let m = p.unicode_len();
    if m > e - b {
        assert forall|k: int| !occurs_at(t, p@, k) by {}
        return false;
    }
    let last = e - b - m;
    let mut k: usize = 0;
    while k <= last
        invariant
            m == p@.len(),
            b <= e <= s@.len(),
            last == e - b - m,
            t == s@.subrange(b as int, e as int),
            forall|q: int| 0 <= q < k ==> !#[trigger] occurs_at(t, p@, q),
        decreases last + 1 - k,
    {
        let mut j: usize = 0;
        while j < m && s.get_char(b + k + j) == p.get_char(j)
            invariant
                m == p@.len(),
                b <= e <= s@.len(),
                k <= last,
                last == e - b - m,
                t == s@.subrange(b as int, e as int),
                j <= m,
                forall|q: int| 0 <= q < j ==> t[k + q] == p@[q],
            decreases m - j,
        {
            j = j + 1;
        }
        if j == m {
            assert(t.subrange(k as int, k + m) =~= p@);
            assert(occurs_at(t, p@, k as int));
            return true;
        }
        assert(!occurs_at(t, p@, k as int)) by {
            assert(t.subrange(k as int, k + m)[j as int] != p@[j as int]);
        }
        k = k + 1;
    }
    assert forall|q: int| !occurs_at(t, p@, q) by {
        if 0 <= q && q < k {
            assert(!occurs_at(t, p@, q));
        }
    }
    false
}

} // verus!
