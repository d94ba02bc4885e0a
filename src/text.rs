//! Character-level helpers over `Seq<char>` used by the parsers.
use vstd::prelude::*;

verus! {

/// Whether `c` is an ASCII decimal digit.
pub open spec fn is_digit(c: char) -> bool {
    '0' <= c && c <= '9'
}

/// Numeric value of a digit character.
pub open spec fn digit_value(c: char) -> nat {
    (c as u32 - '0' as u32) as nat
}

/// Whether `s` is a non-empty run of decimal digits.
pub open spec fn all_digits(s: Seq<char>) -> bool {
    s.len() > 0 && forall|i: int| 0 <= i < s.len() ==> is_digit(#[trigger] s[i])
}

/// The number written by the digits of `s` (most significant first).
pub open spec fn digits_value(s: Seq<char>) -> nat
    decreases s.len(),
{
    if s.len() == 0 {
        0
    } else {
        digits_value(s.drop_last()) * 10 + digit_value(s.last())
    }
}

/// The value of `s` read as an unsigned decimal that fits in `bound`,
/// or `None` when `s` is empty, holds another character, or is too large.
pub open spec fn decimal_of(s: Seq<char>, bound: nat) -> Option<nat> {
    if all_digits(s) && digits_value(s) <= bound {
        Some(digits_value(s))
    } else {
        None
    }
}

/// Decimal rendering of a natural number, without leading zeros.
pub open spec fn decimal_text(n: nat) -> Seq<char>
    decreases n,
{
    if n < 10 {
        seq![digit_char(n)]
    } else {
        decimal_text(n / 10).push(digit_char(n % 10))
    }
}

/// The digit character for `d < 10`.
pub open spec fn digit_char(d: nat) -> char {
    if d == 0 {
        '0'
    } else if d == 1 {
        '1'
    } else if d == 2 {
        '2'
    } else if d == 3 {
        '3'
    } else if d == 4 {
        '4'
    } else if d == 5 {
        '5'
    } else if d == 6 {
        '6'
    } else if d == 7 {
        '7'
    } else if d == 8 {
        '8'
    } else {
        '9'
    }
}

/// Index of the first occurrence of `p` in `s` at or after `from`.
pub open spec fn find_from(s: Seq<char>, p: Seq<char>, from: int) -> Option<int>
    decreases s.len() + 1 - from,
{
    if from < 0 || from + p.len() > s.len() {
        None
    } else if s.subrange(from, from + p.len()) == p {
        Some(from)
    } else {
        find_from(s, p, from + 1)
    }
}

/// Index of the first occurrence of `p` in `s`.
pub open spec fn find(s: Seq<char>, p: Seq<char>) -> Option<int> {
    find_from(s, p, 0)
}

/// Whether `s` begins with `p`.
pub open spec fn starts_with(s: Seq<char>, p: Seq<char>) -> bool {
    p.len() <= s.len() && s.subrange(0, p.len() as int) == p
}

/// The text before the first `p` in `s` (all of `s` when there is none).
pub open spec fn before(s: Seq<char>, p: Seq<char>) -> Seq<char> {
    match find(s, p) {
        Some(i) => s.subrange(0, i),
        None => s,
    }
}

/// The second piece of `s` split at `p`: the text between the first and
/// the second occurrence of `p` (or the end), `None` when `p` is absent.
pub open spec fn second_piece(s: Seq<char>, p: Seq<char>) -> Option<Seq<char>> {
    match find(s, p) {
        Some(i) => Some(before(s.subrange(i + p.len(), s.len() as int), p)),
        None => None,
    }
}

proof fn lemma_digits_value_prefix_grows(s: Seq<char>, i: int, j: int)
    requires
        0 <= i <= j <= s.len(),
        forall|k: int| 0 <= k < s.len() ==> is_digit(#[trigger] s[k]),
    ensures
        digits_value(s.subrange(0, i)) <= digits_value(s.subrange(0, j)),
    decreases j - i,
{
    if i < j {
        lemma_digits_value_prefix_grows(s, i, j - 1);
        assert(s.subrange(0, j).drop_last() == s.subrange(0, j - 1));
    }
}

/// The characters of `s`, one per element.
pub fn chars_of(s: &str) -> (r: Vec<char>)
    ensures
        r@ == s@,
{
    let n = s.unicode_len();
    let mut r: Vec<char> = Vec::new();
    let mut i: usize = 0;
    while i < n
        invariant
            n == s@.len(),
            i <= n,
            r@ == s@.subrange(0, i as int),
        decreases n - i,
    {
        r.push(s.get_char(i));
        i = i + 1;
    }
    assert(r@ == s@);
    r
}

/// Reads `v[start..end]` as an unsigned decimal no larger than `bound`.
pub fn decimal_in(v: &Vec<char>, start: usize, end: usize, bound: u64) -> (r: Option<u64>)
    requires
        start <= end <= v@.len(),
        bound >= 9,
    ensures
        r == (match decimal_of(v@.subrange(start as int, end as int), bound as nat) {
            Some(n) => Some(n as u64),
            None => None,
        }),
{
    let ghost s = v@.subrange(start as int, end as int);
    if start == end {
        return None;
    }
    let mut acc: u64 = 0;
    let mut i: usize = start;
    while i < end
        invariant
            start <= i <= end <= v@.len(),
            s == v@.subrange(start as int, end as int),
            forall|k: int| 0 <= k < i - start ==> is_digit(#[trigger] s[k]),
            acc as nat == digits_value(s.subrange(0, i - start)),
            acc <= bound,
            bound >= 9,
        decreases end - i,
    {
        let c = v[i];
        if !('0' <= c && c <= '9') {
            assert(!is_digit(s[i - start]));
            return None;
        }
        let d = (c as u32 - '0' as u32) as u64;
        assert(s.subrange(0, i + 1 - start).drop_last() == s.subrange(0, i - start));
        if acc > (bound - d) / 10 {
            proof {
                assert(forall|k: int| 0 <= k < i + 1 - start ==> is_digit(#[trigger] s[k]));
                assert(digits_value(s.subrange(0, i + 1 - start)) > bound) by (nonlinear_arith)
                    requires
                        digits_value(s.subrange(0, i + 1 - start)) == acc * 10 + d,
                        acc > (bound - d) / 10,
                        d <= 9,
                        bound >= 9,
                ;
                if all_digits(s) {
                    lemma_digits_value_prefix_grows(s, i + 1 - start, s.len() as int);
                    assert(s.subrange(0, s.len() as int) == s);
                }
            }
            return None;
        }
        acc = acc * 10 + d;
        i = i + 1;
    }
    assert(s.subrange(0, s.len() as int) == s);
    Some(acc)
}


/// Whether `v[j..j + p.len()]` equals `p`.
pub fn matches_at(v: &Vec<char>, j: usize, p: &Vec<char>) -> (r: bool)
    requires
        j + p@.len() <= v@.len(),
    ensures
        r == (v@.subrange(j as int, j + p@.len()) == p@),
{
    let n = v.len();
    let mut k: usize = 0;
    while k < p.len()
        invariant
            n == v@.len(),
            j + p@.len() <= v@.len(),
            k <= p@.len(),
            v@.subrange(j as int, j + k) == p@.subrange(0, k as int),
        decreases p@.len() - k,
    {
        if v[j + k] != p[k] {
            assert(v@.subrange(j as int, j + p@.len())[k as int] != p@[k as int]);
            return false;
        }
        assert(v@.subrange(j as int, j + k + 1) == p@.subrange(0, k + 1));
        k = k + 1;
    }
    assert(p@.subrange(0, p@.len() as int) == p@);
    true
}

/// Whether `v[a..b]` begins with `p`.
pub fn starts_with_in(v: &Vec<char>, a: usize, b: usize, p: &Vec<char>) -> (r: bool)
    requires
        a <= b <= v@.len(),
    ensures
        r == starts_with(v@.subrange(a as int, b as int), p@),
{
    if p.len() > b - a {
        return false;
    }
    let r = matches_at(v, a, p);
    assert(v@.subrange(a as int, b as int).subrange(0, p@.len() as int) == v@.subrange(
        a as int,
        a + p@.len(),
    ));
    r
}

/// Position in `v` of the first `p` inside `v[a..b]`.
pub fn find_in(v: &Vec<char>, a: usize, b: usize, p: &Vec<char>) -> (r: Option<usize>)
    requires
        a <= b <= v@.len(),
    ensures
        match find(v@.subrange(a as int, b as int), p@) {
            Some(i) => r == Some((a + i) as usize),
            None => r is None,
        },
{
    let ghost s = v@.subrange(a as int, b as int);
    if p.len() > b - a {
        assert(find_from(s, p@, 0) is None);
        return None;
    }
    if p.len() == 0 {
        assert(s.subrange(0, 0) =~= p@);
        return Some(a);
    }
    let n = v.len();
    let last = b - p.len();
    let mut j: usize = a;
    while j <= last
        invariant
            n == v@.len(),
            p@.len() >= 1,
            a <= j <= last + 1,
            last + p@.len() == b,
            b <= v@.len(),
            s == v@.subrange(a as int, b as int),
            find(s, p@) == find_from(s, p@, j - a),
        decreases last + 1 - j,
    {
        let m = matches_at(v, j, p);
        assert(s.subrange(j - a, j - a + p@.len()) == v@.subrange(j as int, j + p@.len()));
        if m {
            return Some(j);
        }
        j = j + 1;
    }
    None
}

/// Bounds in `v` of `before(v[a..b], p)`.
pub fn before_in(v: &Vec<char>, a: usize, b: usize, p: &Vec<char>) -> (r: usize)
    requires
        a <= b <= v@.len(),
    ensures
        a <= r <= b,
        v@.subrange(a as int, r as int) == before(v@.subrange(a as int, b as int), p@),
{
    proof {
        lemma_find_bounds(v@.subrange(a as int, b as int), p@, 0);
    }
    match find_in(v, a, b, p) {
        Some(i) => {
            assert(v@.subrange(a as int, i as int) =~= v@.subrange(a as int, b as int).subrange(
                0,
                i - a,
            ));
            i
        },
        None => {
            b
        },
    }
}

/// Bounds in `v` of `second_piece(v[a..b], p)`.
pub fn second_piece_in(v: &Vec<char>, a: usize, b: usize, p: &Vec<char>) -> (r: Option<
    (usize, usize),
>)
    requires
        a <= b <= v@.len(),
    ensures
        match second_piece(v@.subrange(a as int, b as int), p@) {
            Some(x) => r matches Some((c, d)) && a <= c <= d <= b && v@.subrange(
                c as int,
                d as int,
            ) == x,
            None => r is None,
        },
{
    let ghost s = v@.subrange(a as int, b as int);
    match find_in(v, a, b, p) {
        Some(i) => {
            proof {
                lemma_find_bounds(s, p@, 0);
            }
            let c = i + p.len();
            assert(s.subrange(i - a + p@.len(), s.len() as int) == v@.subrange(
                c as int,
                b as int,
            ));
            let d = before_in(v, c, b, p);
            Some((c, d))
        },
        None => None,
    }
}

proof fn lemma_find_bounds(s: Seq<char>, p: Seq<char>, from: int)
    ensures
        find_from(s, p, from) matches Some(i) ==> from <= i && i + p.len() <= s.len()
            && s.subrange(i, i + p.len()) == p,
    decreases s.len() + 1 - from,
{
    if !(from < 0 || from + p.len() > s.len()) && s.subrange(from, from + p.len()) != p {
        lemma_find_bounds(s, p, from + 1);
    }
}

} // verus!
