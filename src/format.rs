//! Writing fixed-point numbers and counts as decimal text.
use vstd::prelude::*;
use crate::number::pow10;

verus! {

pub open spec fn digit_char(d: nat) -> char {
    if d == 0 {
        '0'
    } else if d == 1 {
        '1'
    } else if d == 2 {
        '2'
    } else if d == 3 {
        '3'
    } else if d == 4 {
        '4'
    } else if d == 5 {
        '5'
    } else if d == 6 {
        '6'
    } else if d == 7 {
        '7'
    } else if d == 8 {
        '8'
    } else {
        '9'
    }
}

/// The decimal digits of `n`, without leading zeros.
pub open spec fn nat_text(n: nat) -> Seq<char>
    decreases n,
{
    if n < 10 {
        seq![digit_char(n)]
    } else {
        nat_text(n / 10).push(digit_char(n % 10))
    }
}

/// The last `w` decimal digits of `n`, with leading zeros.
pub open spec fn padded(n: nat, w: nat) -> Seq<char>
    decreases w,
{
    if w == 0 {
        Seq::empty()
    } else {
        padded(n / 10, (w - 1) as nat).push(digit_char(n % 10))
    }
}

/// `s` without its trailing zero digits.
pub open spec fn strip_zeros(s: Seq<char>) -> Seq<char>
    decreases s.len(),
{
    if s.len() > 0 && s.last() == '0' {
        strip_zeros(s.drop_last())
    } else {
        s
    }
}

pub open spec fn abs(v: int) -> nat {
    if v < 0 {
        (-v) as nat
    } else {
        v as nat
    }
}

pub open spec fn sign_text(v: int) -> Seq<char> {
    if v < 0 {
        seq!['-']
    } else {
        Seq::empty()
    }
}

/// `v / 10^drop` rounded to the nearest integer, halves away from zero.
pub open spec fn round_spec(v: int, drop: nat) -> int {
    let d = pow10(drop) as int;
    if v >= 0 {
        (v + d / 2) / d
    } else {
        -((-v + d / 2) / d)
    }
}

/// The number `v / 10^places` written with exactly `places` decimals.
pub open spec fn fixed_text(v: int, places: nat) -> Seq<char> {
    let p = pow10(places);
    let m = abs(v);
    sign_text(v) + nat_text(m / p) + if places == 0 {
        Seq::empty()
    } else {
        seq!['.'] + padded(m % p, places)
    }
}

/// The number `v / 10^places` written with as few decimals as it needs.
pub open spec fn plain_text(v: int, places: nat) -> Seq<char> {
    let p = pow10(places);
    let m = abs(v);
    sign_text(v) + nat_text(m / p) + if m % p == 0 {
        Seq::empty()
    } else {
        seq!['.'] + strip_zeros(padded(m % p, places))
    }
}

proof fn lemma_pow10_positive(n: nat)
    ensures
        pow10(n) >= 1,
    decreases n,
{
    if n > 0 {
        lemma_pow10_positive((n - 1) as nat);
    }
}

fn pow10_u128(n: u32) -> (r: u128)
    requires
        n <= 18,
    ensures
        r == pow10(n as nat),
        1 <= r <= 1_000_000_000_000_000_000,
{
    let mut r: u128 = 1;
    let mut i: u32 = 0;
    proof {
        lemma_pow10_monotone(0, 18);
        reveal_with_fuel(pow10, 1);
    }
    while i < n
        invariant
            i <= n <= 18,
            r == pow10(i as nat),
            1 <= r <= pow10(18),
        decreases n - i,
    {
        proof {
            lemma_pow10_monotone((i + 1) as nat, 18);
            reveal_with_fuel(pow10, 19);
        }
        r = r * 10;
        i = i + 1;
    }
    proof {
        reveal_with_fuel(pow10, 19);
    }
    r
}

proof fn lemma_pow10_monotone(a: nat, b: nat)
    requires
        a <= b,
    ensures
        pow10(a) <= pow10(b),
    decreases b,
{
    if a < b {
        lemma_pow10_monotone(a, (b - 1) as nat);
        lemma_pow10_positive((b - 1) as nat);
    }
}

fn push_digit(s: &mut String, d: u128)
    requires
        d < 10,
    ensures
        final(s)@ == old(s)@.push(digit_char(d as nat)),
{
    let c = if d == 0 {
        '0'
    } else if d == 1 {
        '1'
    } else if d == 2 {
        '2'
    } else if d == 3 {
        '3'
    } else if d == 4 {
        '4'
    } else if d == 5 {
        '5'
    } else if d == 6 {
        '6'
    } else if d == 7 {
        '7'
    } else if d == 8 {
        '8'
    } else {
        '9'
    };
    s.push(c);
}

fn push_nat(s: &mut String, n: u128)
    ensures
        final(s)@ == old(s)@ + nat_text(n as nat),
    decreases n,
{
    if n < 10 {
        push_digit(s, n);
        assert(nat_text(n as nat) == seq![digit_char(n as nat)]);
        assert(old(s)@.push(digit_char(n as nat)) =~= old(s)@ + seq![digit_char(n as nat)]);
    } else {
        push_nat(s, n / 10);
        push_digit(s, n % 10);
        assert(s@ =~= old(s)@ + nat_text(n as nat));
    }
}

fn push_padded(s: &mut String, n: u128, w: u32)
    ensures
        final(s)@ == old(s)@ + padded(n as nat, w as nat),
    decreases w,
{
    if w == 0 {
        assert(old(s)@ + padded(n as nat, 0) =~= old(s)@);
    } else {
        push_padded(s, n / 10, w - 1);
        push_digit(s, n % 10);
        assert(s@ =~= old(s)@ + padded(n as nat, w as nat));
    }
}

fn magnitude(v: i128) -> (r: u128)
    ensures
        r == abs(v as int),
{
    if v < 0 {
        ((-(v + 1)) as u128) + 1
    } else {
        v as u128
    }
}

/// The decimal text of a count.
pub fn count_text(n: usize) -> (r: String)
    ensures
        r@ == nat_text(n as nat),
{
    let mut s = String::new();
    push_nat(&mut s, n as u128);
    assert(s@ =~= nat_text(n as nat));
    s
}

/// Writes `v / 10^places` with exactly `places` decimals.
pub fn fixed_to_text(v: i128, places: u32) -> (r: String)
    requires
        places <= 18,
    ensures
        r@ == fixed_text(v as int, places as nat),
{
    let p = pow10_u128(places);
    proof {
        lemma_pow10_positive(places as nat);
    }
    let m = magnitude(v);
    let mut s = String::new();
    if v < 0 {
        s.push('-');
    }
    assert(s@ =~= sign_text(v as int));
    push_nat(&mut s, m / p);
    if places > 0 {
        s.push('.');
        push_padded(&mut s, m % p, places);
        assert(s@ =~= fixed_text(v as int, places as nat));
    } else {
        assert(s@ =~= fixed_text(v as int, places as nat));
    }
    s
}

/// Writes `v / 10^places` with as few decimals as it needs.
pub fn plain_to_text(v: i128, places: u32) -> (r: String)
    requires
        places <= 18,
    ensures
        r@ == plain_text(v as int, places as nat),
{
    let p = pow10_u128(places);
    proof {
        lemma_pow10_positive(places as nat);
    }
    let m = magnitude(v);
    let mut s = String::new();
    if v < 0 {
        s.push('-');
    }
    assert(s@ =~= sign_text(v as int));
    push_nat(&mut s, m / p);
    let mut f = m % p;
    if f == 0 {
        assert(s@ =~= plain_text(v as int, places as nat));
        return s;
    }
    s.push('.');
    let mut w: u32 = places;
    while f % 10 == 0
        invariant
            0 < f < pow10(w as nat),
            w <= places,
            strip_zeros(padded((m % p) as nat, places as nat)) == strip_zeros(
                padded(f as nat, w as nat),
            ),
        decreases w,
    {
        proof {
            if w == 0 {
                assert(pow10(0) == 1);
            }
            reveal_with_fuel(pow10, 1);
            assert(f / 10 < pow10((w - 1) as nat));
            assert(padded(f as nat, w as nat).drop_last() == padded((f / 10) as nat, (w - 1) as nat));
            assert(padded(f as nat, w as nat).last() == '0');
        }
        f = f / 10;
        w = w - 1;
    }
    proof {
        if w == 0 {
            assert(pow10(0) == 1);
        }
        assert(padded(f as nat, w as nat).last() != '0');
    }
    push_padded(&mut s, f, w);
    assert(s@ =~= plain_text(v as int, places as nat));
    s
}

/// `v / 10^drop` rounded to the nearest integer, halves away from zero.
pub fn round_scaled(v: i128, drop: u32) -> (r: i128)
    requires
        1 <= drop <= 18,
    ensures
        r == round_spec(v as int, drop as nat),
{
    let d = pow10_u128(drop);
    proof {
        lemma_pow10_monotone(1, drop as nat);
        reveal_with_fuel(pow10, 2);
    }
    let m = magnitude(v);
    let x = m + d / 2;
    let q = x / d;
    proof {
        vstd::arithmetic::div_mod::lemma_div_is_ordered_by_denominator(x as int, 10, d as int);
    }
    if v < 0 {
        -(q as i128)
    } else {
        q as i128
    }
}

} // verus!
