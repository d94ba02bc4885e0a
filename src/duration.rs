//! Durations as whole minutes, and their `h:mm` text form.
use vstd::prelude::*;
use crate::text::{
    all_digits, before, before_in, chars_of, decimal_in, decimal_of, decimal_text, digit_char,
    digit_value, digits_value, find_from, is_digit, second_piece, second_piece_in,
};

verus! {

/// `n` written with at least two digits.
pub open spec fn two_digit_text(n: nat) -> Seq<char> {
    if n < 10 {
        seq!['0'] + decimal_text(n)
    } else {
        decimal_text(n)
    }
}

/// The `h:mm` text of a duration of `minutes` minutes.
pub open spec fn duration_text(minutes: nat) -> Seq<char> {
    decimal_text(minutes / 60) + seq![':'] + two_digit_text(minutes % 60)
}

/// The value of one `h:mm` field; a field that is not a decimal number
/// (or is larger than 32 bits) counts as zero.
pub open spec fn field_value(s: Seq<char>) -> nat {
    match decimal_of(s, u32::MAX as nat) {
        Some(n) => n,
        None => 0,
    }
}

/// The number of minutes that the text `s` (`h`, `h:mm` or empty) stands for.
pub open spec fn duration_minutes(s: Seq<char>) -> nat {
    if s.len() == 0 {
        0
    } else {
        let hours = field_value(before(s, ":"@));
        let minutes = match second_piece(s, ":"@) {
            Some(m) => field_value(m),
            None => 0,
        };
        hours * 60 + minutes
    }
}

/// The text of the digit `d`.
fn digit_str(d: u64) -> (r: &'static str)
    requires
        d < 10,
    ensures
        r@ == seq![digit_char(d as nat)],
{
    proof {
        reveal_strlit("0");
        reveal_strlit("1");
        reveal_strlit("2");
        reveal_strlit("3");
        reveal_strlit("4");
        reveal_strlit("5");
        reveal_strlit("6");
        reveal_strlit("7");
        reveal_strlit("8");
        reveal_strlit("9");
    }
    if d == 0 {
        "0"
    } else if d == 1 {
        "1"
    } else if d == 2 {
        "2"
    } else if d == 3 {
        "3"
    } else if d == 4 {
        "4"
    } else if d == 5 {
        "5"
    } else if d == 6 {
        "6"
    } else if d == 7 {
        "7"
    } else if d == 8 {
        "8"
    } else {
        "9"
    }
}

/// The decimal digits of `n`, without leading zeros.
fn decimal_string(n: u64) -> (r: String)
    ensures
        r@ == decimal_text(n as nat),
    decreases n,
{
    let mut r = if n < 10 {
        String::new()
    } else {
        decimal_string(n / 10)
    };
    r.append(digit_str(n % 10));
    r
}

/// The `h:mm` text of a duration given in whole minutes: hours without
/// leading zeros, then minutes as two digits.
pub fn minutes_to_duration_str(minutes: u64) -> (r: String)
    ensures
        r@ == duration_text(minutes as nat),
{
    let hours = decimal_string(minutes / 60);
    let rest = minutes % 60;
    let mut r = hours;
    r.append(":");
    if rest < 10 {
        r.append("0");
    }
    let tail = decimal_string(rest);
    r.append(tail.as_str());
    proof {
        reveal_strlit(":");
        reveal_strlit("0");
        assert(r@ =~= duration_text(minutes as nat));
    }
    r
}

/// Value of the field `v[a..b]`.
fn field_in(v: &Vec<char>, a: usize, b: usize) -> (r: u64)
    requires
        a <= b <= v@.len(),
    ensures
        r == field_value(v@.subrange(a as int, b as int)),
        r <= u32::MAX,
{
    match decimal_in(v, a, b, u32::MAX as u64) {
        Some(n) => n,
        None => 0,
    }
}

/// The number of minutes that `h:mm` text stands for. Empty text is zero
/// minutes, a missing minutes field is zero, and a field that is not a
/// decimal number counts as zero.
pub fn duration_str_to_minutes(duration: &str) -> (r: u64)
    ensures
        r == duration_minutes(duration@),
{
    let v = chars_of(duration);
    if v.len() == 0 {
        return 0;
    }
    let colon = chars_of(":");
    let n = v.len();
    assert(v@.subrange(0, n as int) == duration@);
    let h_end = before_in(&v, 0, n, &colon);
    let hours = field_in(&v, 0, h_end);
    let minutes = match second_piece_in(&v, 0, n, &colon) {
        Some((c, d)) => field_in(&v, c, d),
        None => 0,
    };
    hours * 60 + minutes
}

/// The minutes field of a formatted duration is always below sixty, so a
/// duration never reads as `h:60`: a full hour is carried into the hours.
pub proof fn lemma_duration_text_carries(minutes: nat)
    ensures
        duration_text(minutes) == decimal_text(minutes / 60) + seq![':'] + two_digit_text(
            minutes % 60,
        ),
        minutes % 60 < 60,
        duration_text(minutes + 60) == decimal_text(minutes / 60 + 1) + seq![':']
            + two_digit_text(minutes % 60),
{
    assert((minutes + 60) / 60 == minutes / 60 + 1);
    assert((minutes + 60) % 60 == minutes % 60);
}

proof fn lemma_digit_char(d: nat)
    requires
        d < 10,
    ensures
        is_digit(digit_char(d)),
        digit_value(digit_char(d)) == d,
{
    assert('0' as u32 == 48 && '9' as u32 == 57);
    assert('1' as u32 == 49 && '2' as u32 == 50 && '3' as u32 == 51 && '4' as u32 == 52);
    assert('5' as u32 == 53 && '6' as u32 == 54 && '7' as u32 == 55 && '8' as u32 == 56);
}

proof fn lemma_decimal_text_digits(n: nat)
    ensures
        decimal_text(n).len() >= 1,
        forall|i: int| 0 <= i < decimal_text(n).len() ==> is_digit(#[trigger] decimal_text(n)[i]),
        digits_value(decimal_text(n)) == n,
    decreases n,
{
    lemma_digit_char(n % 10);
    if n >= 10 {
        lemma_decimal_text_digits(n / 10);
        assert(decimal_text(n).drop_last() == decimal_text(n / 10));
        assert(decimal_text(n).last() == digit_char(n % 10));
        assert(n == (n / 10) * 10 + n % 10) by (nonlinear_arith);
        assert(digits_value(decimal_text(n)) == n);
    } else {
        assert(seq![digit_char(n)].drop_last() =~= Seq::<char>::empty());
        assert(digits_value(Seq::<char>::empty()) == 0);
        assert(digits_value(decimal_text(n)) == digits_value(Seq::<char>::empty()) * 10
            + digit_value(digit_char(n)));
    }
}

proof fn lemma_leading_zero(x: Seq<char>)
    ensures
        digits_value(seq!['0'] + x) == digits_value(x),
    decreases x.len(),
{
    if x.len() == 0 {
        assert(seq!['0'] + x =~= seq!['0']);
        assert(seq!['0'].drop_last() =~= Seq::<char>::empty());
        assert(digits_value(Seq::<char>::empty()) == 0);
        assert(digit_value('0') == 0);
        assert(digits_value(seq!['0']) == digits_value(Seq::<char>::empty()) * 10 + digit_value('0'));
    } else {
        lemma_leading_zero(x.drop_last());
        assert((seq!['0'] + x).drop_last() =~= seq!['0'] + x.drop_last());
        assert((seq!['0'] + x).last() == x.last());
    }
}

proof fn lemma_two_digit_text(m: nat)
    requires
        m < 60,
    ensures
        all_digits(two_digit_text(m)),
        digits_value(two_digit_text(m)) == m,
{
    lemma_decimal_text_digits(m);
    if m < 10 {
        lemma_leading_zero(decimal_text(m));
        let t = seq!['0'] + decimal_text(m);
        assert forall|i: int| 0 <= i < t.len() implies is_digit(#[trigger] t[i]) by {
            if i > 0 {
                assert(t[i] == decimal_text(m)[i - 1]);
            }
        }
    }
}

/// A run of digits followed by `:` has its first `:` right after the digits.
proof fn lemma_find_colon(d: Seq<char>, t: Seq<char>, i: int)
    requires
        0 <= i <= d.len(),
        forall|k: int| 0 <= k < d.len() ==> is_digit(#[trigger] d[k]),
    ensures
        find_from(d + seq![':'] + t, ":"@, i) == Some(d.len() as int),
    decreases d.len() - i,
{
    reveal_strlit(":");
    assert(":"@ =~= seq![':']);
    let s = d + seq![':'] + t;
    if i < d.len() {
        assert(s.subrange(i, i + 1)[0] == d[i]);
        assert(s.subrange(i, i + 1) != ":"@);
        lemma_find_colon(d, t, i + 1);
    } else {
        assert(s.subrange(i, i + 1) =~= seq![':']);
    }
}

/// Text made of digits has no `:`.
proof fn lemma_no_colon(t: Seq<char>, i: int)
    requires
        0 <= i <= t.len(),
        forall|k: int| 0 <= k < t.len() ==> is_digit(#[trigger] t[k]),
    ensures
        find_from(t, ":"@, i) is None,
    decreases t.len() + 1 - i,
{
    reveal_strlit(":");
    assert(":"@ =~= seq![':']);
    if i + 1 <= t.len() {
        assert(t.subrange(i, i + 1)[0] == t[i]);
        assert(t.subrange(i, i + 1) != ":"@);
        lemma_no_colon(t, i + 1);
    }
}

/// Duration text and minutes convert into each other without loss: the
/// `h:mm` text of `hours` and `minutes` (below sixty) reads as
/// `hours * 60 + minutes` minutes, and those minutes are written back as the
/// same text.
pub proof fn lemma_duration_round_trip(hours: nat, minutes: nat)
    requires
        hours <= u32::MAX,
        minutes < 60,
    ensures
        duration_minutes(decimal_text(hours) + seq![':'] + two_digit_text(minutes)) == hours * 60
            + minutes,
        duration_text(hours * 60 + minutes) == decimal_text(hours) + seq![':'] + two_digit_text(
            minutes,
        ),
        duration_text(duration_minutes(decimal_text(hours) + seq![':'] + two_digit_text(minutes)))
            == decimal_text(hours) + seq![':'] + two_digit_text(minutes),
        duration_minutes(duration_text(hours * 60 + minutes)) == hours * 60 + minutes,
{
    let d = decimal_text(hours);
    let t = two_digit_text(minutes);
    let s = d + seq![':'] + t;
    lemma_decimal_text_digits(hours);
    lemma_two_digit_text(minutes);
    reveal_strlit(":");
    lemma_find_colon(d, t, 0);
    assert(s.subrange(0, d.len() as int) =~= d);
    assert(s.subrange(d.len() + 1 as int, s.len() as int) =~= t);
    lemma_no_colon(t, 0);
    assert(before(t, ":"@) == t);
    assert(second_piece(s, ":"@) == Some(t));
    assert(before(s, ":"@) == d);
    assert(all_digits(d));
    assert((hours * 60 + minutes) / 60 == hours) by (nonlinear_arith)
        requires
            minutes < 60,
    ;
    assert((hours * 60 + minutes) % 60 == minutes) by (nonlinear_arith)
        requires
            minutes < 60,
    ;
}

} // verus!
