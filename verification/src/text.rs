//! Character-level text model: whitespace trimming, prefix and suffix tests
//! and substring search, stated over `Seq<char>` and implemented over the
//! characters of a line held in a `Vec<char>`.

use vstd::prelude::*;

verus! {

/// The Unicode `White_Space` property, which `char::is_whitespace` (and so
/// `str::trim`) uses.
pub open spec fn white(c: char) -> bool {
    ||| ('\u{9}' <= c && c <= '\u{d}')
    ||| c == ' '
    ||| c == '\u{85}'
    ||| c == '\u{a0}'
    ||| c == '\u{1680}'
    ||| ('\u{2000}' <= c && c <= '\u{200a}')
    ||| c == '\u{2028}'
    ||| c == '\u{2029}'
    ||| c == '\u{202f}'
    ||| c == '\u{205f}'
    ||| c == '\u{3000}'
}

/// First position at or after `i` that does not hold white space.
pub open spec fn skip_white(s: Seq<char>, i: int) -> int
    decreases s.len() - i,
{
    if 0 <= i < s.len() && white(s[i]) {
        skip_white(s, i + 1)
    } else {
        i
    }
}

/// Walking back from `j`, never below `lo`, the end of the text once
/// characters equal to `c` (or, with `c == None`, white space) are dropped.
pub open spec fn back_over(s: Seq<char>, c: Option<char>, lo: int, j: int) -> int
    decreases j - lo,
{
    if lo < j && j <= s.len() && dropped(s[j - 1], c) {
        back_over(s, c, lo, j - 1)
    } else {
        j
    }
}

/// Whether `back_over` drops the character `x`.
pub open spec fn dropped(x: char, c: Option<char>) -> bool {
    match c {
        Some(c) => x == c,
        None => white(x),
    }
}

/// `str::trim_start`.
pub open spec fn trim_start(s: Seq<char>) -> Seq<char> {
    s.skip(skip_white(s, 0))
}

/// `str::trim_end`.
pub open spec fn trim_end(s: Seq<char>) -> Seq<char> {
    s.take(back_over(s, None, 0, s.len() as int))
}

/// `str::trim_end_matches` with a single character.
pub open spec fn trim_end_char(s: Seq<char>, c: char) -> Seq<char> {
    s.take(back_over(s, Some(c), 0, s.len() as int))
}

/// `str::trim`.
pub open spec fn trim(s: Seq<char>) -> Seq<char> {
    trim_end(trim_start(s))
}

/// `str::starts_with`.
pub open spec fn starts_with(s: Seq<char>, p: Seq<char>) -> bool {
    p.len() <= s.len() && s.take(p.len() as int) == p
}

/// `str::ends_with`.
pub open spec fn ends_with(s: Seq<char>, p: Seq<char>) -> bool {
    p.len() <= s.len() && s.skip(s.len() - p.len()) == p
}

/// `p` occurs in `s` at position `i`.
pub open spec fn matches_at(s: Seq<char>, p: Seq<char>, i: int) -> bool {
    0 <= i && i + p.len() <= s.len() && s.subrange(i, i + p.len()) == p
}

/// `str::contains`.
pub open spec fn contains(s: Seq<char>, p: Seq<char>) -> bool {
    exists|i: int| matches_at(s, p, i)
}

/// First occurrence of `p` in `s` at or after `i`.
pub open spec fn find_from(s: Seq<char>, p: Seq<char>, i: int) -> Option<int>
    decreases s.len() + 1 - i,
{
    if i < 0 || i + p.len() > s.len() {
        None
    } else if matches_at(s, p, i) {
        Some(i)
    } else {
        find_from(s, p, i + 1)
    }
}

/// `str::find` (positions counted in characters).
pub open spec fn find(s: Seq<char>, p: Seq<char>) -> Option<int> {
    find_from(s, p, 0)
}

pub proof fn lemma_skip_white_bounds(s: Seq<char>, i: int)
    requires
        0 <= i <= s.len(),
    ensures
        i <= skip_white(s, i) <= s.len(),
        forall|k: int| i <= k < skip_white(s, i) ==> white(#[trigger] s[k]),
        skip_white(s, i) < s.len() ==> !white(s[skip_white(s, i)]),
    decreases s.len() - i,
{
    if i < s.len() && white(s[i]) {
        lemma_skip_white_bounds(s, i + 1);
    }
}

pub proof fn lemma_back_over_bounds(s: Seq<char>, c: Option<char>, lo: int, j: int)
    requires
        0 <= lo <= j <= s.len(),
    ensures
        lo <= back_over(s, c, lo, j) <= j,
        forall|k: int| back_over(s, c, lo, j) <= k < j ==> dropped(#[trigger] s[k], c),
        back_over(s, c, lo, j) > lo ==> !dropped(s[back_over(s, c, lo, j) - 1], c),
    decreases j - lo,
{
    if lo < j && dropped(s[j - 1], c) {
        lemma_back_over_bounds(s, c, lo, j - 1);
    }
}

/// Walking back over a suffix of `s` gives the same end whether the text
/// is first cut at `a` or not.
pub proof fn lemma_back_over_skip(s: Seq<char>, c: Option<char>, a: int, j: int)
    requires
        0 <= a <= j <= s.len(),
    ensures
        back_over(s.skip(a), c, 0, j - a) == back_over(s, c, a, j) - a,
    decreases j - a,
{
    if a < j && dropped(s[j - 1], c) {
        assert(s.skip(a)[j - a - 1] == s[j - 1]);
        lemma_back_over_skip(s, c, a, j - 1);
    }
}

/// The cut of `trim` in terms of positions of the untrimmed text.
pub proof fn lemma_trim_bounds(s: Seq<char>)
    ensures
        0 <= skip_white(s, 0) <= back_over(s, None, skip_white(s, 0), s.len() as int) <= s.len(),
        trim(s) == s.subrange(
            skip_white(s, 0),
            back_over(s, None, skip_white(s, 0), s.len() as int),
        ),
        trim_start(s) == s.skip(skip_white(s, 0)),
{
    let a = skip_white(s, 0);
    lemma_skip_white_bounds(s, 0);
    lemma_back_over_bounds(s, None, a, s.len() as int);
    lemma_back_over_skip(s, None, a, s.len() as int);
    let b = back_over(s, None, a, s.len() as int);
    assert(trim(s) =~= s.subrange(a, b));
}

pub proof fn lemma_find_from(s: Seq<char>, p: Seq<char>, i: int)
    requires
        0 <= i,
    ensures
        match find_from(s, p, i) {
            Some(k) => i <= k && matches_at(s, p, k) && forall|j: int|
                i <= j < k ==> !#[trigger] matches_at(s, p, j),
            None => forall|j: int| i <= j ==> !#[trigger] matches_at(s, p, j),
        },
    decreases s.len() + 1 - i,
{
    if i + p.len() > s.len() {
    } else if matches_at(s, p, i) {
    } else {
        lemma_find_from(s, p, i + 1);
    }
}

/// `find` gives the first occurrence, and finds one exactly when `contains`.
pub proof fn lemma_find(s: Seq<char>, p: Seq<char>)
    ensures
        find(s, p) is Some <==> contains(s, p),
        match find(s, p) {
            Some(k) => matches_at(s, p, k) && forall|j: int|
                0 <= j < k ==> !#[trigger] matches_at(s, p, j),
            None => forall|j: int| !#[trigger] matches_at(s, p, j),
        },
{
    lemma_find_from(s, p, 0);
    if let Some(k) = find(s, p) {
        assert(matches_at(s, p, k));
    }
}

/// `char::is_whitespace`.
pub fn is_white(c: char) -> (r: bool)
    ensures
        r == white(c),
{
    ('\u{9}' <= c && c <= '\u{d}') || c == ' ' || c == '\u{85}' || c == '\u{a0}' || c
        == '\u{1680}' || ('\u{2000}' <= c && c <= '\u{200a}') || c == '\u{2028}' || c
        == '\u{2029}' || c == '\u{202f}' || c == '\u{205f}' || c == '\u{3000}'
}

/// Whether `back_over` drops the character `x`.
pub fn drops(x: char, c: Option<char>) -> (r: bool)
    ensures
        r == dropped(x, c),
{
    match c {
        Some(c) => x == c,
        None => is_white(x),
    }
}

/// The characters of a string slice.
pub fn chars_of(s: &str) -> (v: Vec<char>)
    ensures
        v@ == s@,
{
    broadcast use vstd::string::group_string_axioms;

    let mut v: Vec<char> = Vec::new();
    for c in it: s.chars()
        invariant
            v@ == it.seq().take(it.index() as int),
            it.seq() == s@,
    {
        v.push(c);
    }
    v
}

/// First position at or after `i` without white space.
pub fn skip_white_in(v: &Vec<char>, i: usize) -> (r: usize)
    requires
        i <= v@.len(),
    ensures
        r == skip_white(v@, i as int),
        i <= r <= v@.len(),
{
    let mut k = i;
    while k < v.len() && is_white(v[k])
        invariant
            i <= k <= v@.len(),
            skip_white(v@, i as int) == skip_white(v@, k as int),
        decreases v@.len() - k,
    {
        k = k + 1;
    }
    proof {
        lemma_skip_white_bounds(v@, i as int);
    }
    k
}

/// `back_over` computed on a character vector.
pub fn back_over_in(v: &Vec<char>, c: Option<char>, lo: usize, hi: usize) -> (r: usize)
    requires
        lo <= hi <= v@.len(),
    ensures
        r == back_over(v@, c, lo as int, hi as int),
        lo <= r <= hi,
{
    let mut j = hi;
    while lo < j && drops(v[j - 1], c)
        invariant
            lo <= j <= hi,
            hi <= v@.len(),
            back_over(v@, c, lo as int, hi as int) == back_over(v@, c, lo as int, j as int),
        decreases j,
    {
        j = j - 1;
    }
    proof {
        lemma_back_over_bounds(v@, c, lo as int, hi as int);
    }
    j
}

/// The bounds, in `v`, of `trim(v@)`.
pub fn trim_bounds(v: &Vec<char>) -> (r: (usize, usize))
    ensures
        r.0 <= r.1 <= v@.len(),
        trim(v@) == v@.subrange(r.0 as int, r.1 as int),
        r.0 == skip_white(v@, 0),
        trim_start(v@) == v@.skip(r.0 as int),
{
    let a = skip_white_in(v, 0);
    let b = back_over_in(v, None, a, v.len());
    proof {
        lemma_trim_bounds(v@);
    }
    (a, b)
}

/// Whether `p` occurs in `v` at position `i`.
pub fn matches_at_in(v: &Vec<char>, p: &Vec<char>, i: usize) -> (r: bool)
    ensures
        r == matches_at(v@, p@, i as int),
{
    if i > v.len() || p.len() > v.len() - i {
        return false;
    }
    let vl = v.len();
    let mut k: usize = 0;
    while k < p.len()
        invariant
            vl == v@.len(),
            k <= p@.len(),
            i <= v@.len(),
            i + p@.len() <= v@.len(),
            forall|j: int| 0 <= j < k ==> v@[i + j] == p@[j],
        decreases p@.len() - k,
    {
        if v[i + k] != p[k] {
            assert(v@.subrange(i as int, i + p@.len())[k as int] != p@[k as int]);
            return false;
        }
        k = k + 1;
    }
    assert(v@.subrange(i as int, i + p@.len()) =~= p@);
    true
}

/// Whether the region `lo..hi` of `v` equals the text `p`.
pub fn region_is(v: &Vec<char>, lo: usize, hi: usize, p: &str) -> (r: bool)
    requires
        lo <= hi <= v@.len(),
    ensures
        r == (v@.subrange(lo as int, hi as int) == p@),
{
    let pv = chars_of(p);
    if hi - lo != pv.len() {
        return false;
    }
    let r = matches_at_in(v, &pv, lo);
    proof {
        if r {
            assert(v@.subrange(lo as int, hi as int) =~= pv@);
        }
    }
    r
}

/// Whether the region `lo..hi` of `v` starts with the text `p`.
pub fn region_starts_with(v: &Vec<char>, lo: usize, hi: usize, p: &str) -> (r: bool)
    requires
        lo <= hi <= v@.len(),
    ensures
        r == starts_with(v@.subrange(lo as int, hi as int), p@),
{
    let pv = chars_of(p);
    if hi - lo < pv.len() {
        return false;
    }
    let r = matches_at_in(v, &pv, lo);
    proof {
        let s = v@.subrange(lo as int, hi as int);
        assert(s.take(pv@.len() as int) =~= v@.subrange(lo as int, lo + pv@.len()));
    }
    r
}

/// Whether the region `lo..hi` of `v` ends with the text `p`.
pub fn region_ends_with(v: &Vec<char>, lo: usize, hi: usize, p: &str) -> (r: bool)
    requires
        lo <= hi <= v@.len(),
    ensures
        r == ends_with(v@.subrange(lo as int, hi as int), p@),
{
    let pv = chars_of(p);
    if hi - lo < pv.len() {
        return false;
    }
    let r = matches_at_in(v, &pv, hi - pv.len());
    proof {
        let s = v@.subrange(lo as int, hi as int);
        assert(s.skip(s.len() - pv@.len()) =~= v@.subrange(hi - pv@.len(), hi as int));
    }
    r
}

/// First occurrence of the text `p` in the region `lo..hi` of `v`, as a
/// position within the region.
pub fn region_find(v: &Vec<char>, lo: usize, hi: usize, p: &str) -> (r: Option<usize>)
    requires
        lo <= hi <= v@.len(),
    ensures
        match r {
            Some(k) => find(v@.subrange(lo as int, hi as int), p@) == Some(k as int),
            None => find(v@.subrange(lo as int, hi as int), p@) is None,
        },
{
    let pv = chars_of(p);
    let ghost s = v@.subrange(lo as int, hi as int);
    if pv.len() > hi - lo {
        proof {
            lemma_find_from(s, p@, 0);
        }
        return None;
    }
    let last = hi - lo - pv.len();
    let mut i: usize = 0;
    loop
        invariant
            lo <= hi <= v@.len(),
            s == v@.subrange(lo as int, hi as int),
            pv@ == p@,
            last == hi - lo - pv@.len(),
            i <= last,
            find(s, p@) == find_from(s, p@, i as int),
        decreases last - i,
    {
        let m = matches_at_in(v, &pv, lo + i);
        assert(m == matches_at(s, p@, i as int)) by {
            assert(s.subrange(i as int, i + pv@.len()) =~= v@.subrange(
                lo + i,
                lo + i + pv@.len(),
            ));
        }
        if m {
            return Some(i);
        }
        if i == last {
            assert(find_from(s, p@, i + 1) is None);
            return None;
        }
        i = i + 1;
    }
}

/// A copy of the region `lo..hi` of `v`.
pub fn slice_vec(v: &Vec<char>, lo: usize, hi: usize) -> (r: Vec<char>)
    requires
        lo <= hi <= v@.len(),
    ensures
        r@ == v@.subrange(lo as int, hi as int),
{
    let mut r: Vec<char> = Vec::new();
    let mut k = lo;
    while k < hi
        invariant
            lo <= k <= hi <= v@.len(),
            r@ == v@.subrange(lo as int, k as int),
        decreases hi - k,
    {
        r.push(v[k]);
        k = k + 1;
        assert(r@ =~= v@.subrange(lo as int, k as int));
    }
    r
}

/// A `String` holding the given characters, in order.
///
/// Trusted: the body is `String`'s `FromIterator<&char>`, documented as
/// collecting the characters into a string; the contract claims the
/// string's characters are exactly those of `chars`.
#[verifier::external_body]
pub(crate) fn text_of(chars: &Vec<char>) -> (r: String)
    ensures
        r@ == chars@,
{
    chars.iter().collect()
}

/// The digit character for `d < 10`.
pub open spec fn digit_char(d: nat) -> char {
    ((d + 48) as u8) as char
}

/// Decimal notation of `n`, without leading zeros (`Display` for integers).
pub open spec fn decimal(n: nat) -> Seq<char>
    decreases n,
{
    if n < 10 {
        seq![digit_char(n)]
    } else {
        decimal(n / 10).push(digit_char(n % 10))
    }
}

/// Value of a sequence of decimal digits.
pub open spec fn digits_value(s: Seq<char>) -> nat
    decreases s.len(),
{
    if s.len() == 0 {
        0
    } else {
        digits_value(s.drop_last()) * 10 + ((s.last() as int - 48) as nat)
    }
}

/// Every character is an ASCII decimal digit (`char::is_ascii_digit`).
pub open spec fn all_digits(s: Seq<char>) -> bool {
    forall|i: int| 0 <= i < s.len() ==> '0' <= #[trigger] s[i] && s[i] <= '9'
}

/// `usize::from_str` on a nonempty string of ASCII digits: the value, or
/// `None` where it does not fit.
pub open spec fn parse_digits(s: Seq<char>) -> Option<usize> {
    if digits_value(s) <= usize::MAX {
        Some(digits_value(s) as usize)
    } else {
        None
    }
}

/// Longer prefixes of a digit string have no smaller value.
pub proof fn lemma_digits_value_grows(s: Seq<char>, k: int, m: int)
    requires
        0 <= k <= m <= s.len(),
        all_digits(s),
    ensures
        digits_value(s.take(k)) <= digits_value(s.take(m)),
    decreases m - k,
{
    if k < m {
        lemma_digits_value_grows(s, k, m - 1);
        assert(s.take(m).drop_last() =~= s.take(m - 1));
    }
}

/// The decimal characters of `n`.
pub fn decimal_chars(n: usize) -> (r: Vec<char>)
    ensures
        r@ == decimal(n as nat),
    decreases n,
{
    let d = ((n % 10) as u8 + 48u8) as char;
    if n < 10 {
        let mut r: Vec<char> = Vec::new();
        r.push(d);
        assert(r@ =~= decimal(n as nat));
        r
    } else {
        let mut r = decimal_chars(n / 10);
        r.push(d);
        r
    }
}

/// `usize::from_str` on the digits `v`, all ASCII decimal digits.
pub fn parse_digits_in(v: &Vec<char>) -> (r: Option<usize>)
    requires
        all_digits(v@),
    ensures
        r == parse_digits(v@),
{
    let mut acc: usize = 0;
    let mut k: usize = 0;
    while k < v.len()
        invariant
            k <= v@.len(),
            all_digits(v@),
            acc as nat == digits_value(v@.take(k as int)),
        decreases v@.len() - k,
    {
        let c = v[k];
        assert('0' <= v@[k as int] <= '9');
        let d = (c as u32 - 48) as usize;
        assert(v@.take(k + 1).drop_last() =~= v@.take(k as int));
        match acc.checked_mul(10) {
            Some(m) => match m.checked_add(d) {
                Some(a) => {
                    acc = a;
                },
                None => {
                    proof {
                        lemma_digits_value_grows(v@, k + 1, v@.len() as int);
                        assert(v@.take(v@.len() as int) =~= v@);
                    }
                    return None;
                },
            },
            None => {
                proof {
                    lemma_digits_value_grows(v@, k + 1, v@.len() as int);
                    assert(v@.take(v@.len() as int) =~= v@);
                }
                return None;
            },
        }
        k = k + 1;
    }
    assert(v@.take(v@.len() as int) =~= v@);
    Some(acc)
}

/// Whether `v` is the whole of `p`, as characters.
pub fn is_exactly(v: &Vec<char>, p: &str) -> (r: bool)
    ensures
        r == (v@ == p@),
{
    let r = region_is(v, 0, v.len(), p);
    assert(v@.subrange(0, v@.len() as int) =~= v@);
    r
}

/// Whether `v` starts with `p`.
pub fn has_prefix(v: &Vec<char>, p: &str) -> (r: bool)
    ensures
        r == starts_with(v@, p@),
{
    let r = region_starts_with(v, 0, v.len(), p);
    assert(v@.subrange(0, v@.len() as int) =~= v@);
    r
}

/// Whether `p` occurs in `v`.
pub fn has_part(v: &Vec<char>, p: &str) -> (r: bool)
    ensures
        r == contains(v@, p@),
{
    let r = region_find(v, 0, v.len(), p);
    assert(v@.subrange(0, v@.len() as int) =~= v@);
    proof {
        lemma_find(v@, p@);
    }
    r.is_some()
}

} // verus!
