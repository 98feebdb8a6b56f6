//! Exact fixed-point numbers read from and written to cell text.
//!
//! A quantity, a carbon factor or an engineering volume is held as an integer
//! count of millionths (`SCALE`). Emissions, products of two such numbers, are
//! counted in millionths of millionths. Arithmetic on them is exact.
use vstd::prelude::*;

verus! {

/// Units of the fixed-point representation: one unit is `1 / SCALE`.
pub const SCALE: i64 = 1_000_000;

/// One million, as a spec integer.
pub open spec fn scale() -> int {
    1_000_000
}

pub open spec fn pow10(n: nat) -> nat
    decreases n,
{
    if n == 0 {
        1
    } else {
        10 * pow10((n - 1) as nat)
    }
}

pub open spec fn is_digit(c: char) -> bool {
    48 <= (c as u32) && (c as u32) <= 57
}

pub open spec fn digit_value(c: char) -> nat {
    ((c as u32) - 48) as nat
}

pub open spec fn all_digits(s: Seq<char>) -> bool {
    forall|i: int| 0 <= i < s.len() ==> is_digit(#[trigger] s[i])
}

/// The number that a string of decimal digits denotes.
pub open spec fn digits_value(s: Seq<char>) -> nat
    decreases s.len(),
{
    if s.len() == 0 {
        0
    } else {
        digits_value(s.drop_last()) * 10 + digit_value(s.last())
    }
}

/// `b` is digits, a point at `k`, and digits after it, with at least one
/// digit in all.
pub open spec fn point_at(b: Seq<char>, k: int) -> bool {
    &&& 0 <= k < b.len()
    &&& b[k] == '.'
    &&& all_digits(b.subrange(0, k))
    &&& all_digits(b.subrange(k + 1, b.len() as int))
    &&& b.len() >= 2
}

/// The value, in millionths, of the integer digits `whole` and the decimals
/// `frac`, rounded to the nearest millionth with halves rounded up: the
/// digits up to the sixth decimal, plus one when the seventh decimal is 5
/// or more. Up to six decimals the value is exact.
pub open spec fn point_value(whole: Seq<char>, frac: Seq<char>) -> int {
    if frac.len() <= 6 {
        digits_value(whole) * scale() + digits_value(frac) * pow10((6 - frac.len()) as nat)
    } else {
        digits_value(whole) * scale() + digits_value(frac.subrange(0, 6)) + if digit_value(frac[6])
            >= 5 {
            1int
        } else {
            0int
        }
    }
}

/// The value, in millionths, of an unsigned decimal numeral: digits with an
/// optional point and decimals after it (see `point_value`).
pub open spec fn unsigned_decimal(b: Seq<char>) -> Option<int> {
    if b.len() > 0 && all_digits(b) {
        Some(digits_value(b) * scale())
    } else if exists|k: int| point_at(b, k) {
        let k = choose|k: int| point_at(b, k);
        Some(point_value(b.subrange(0, k), b.subrange(k + 1, b.len() as int)))
    } else {
        None
    }
}

/// The value, in millionths, of a decimal numeral with an optional sign; a
/// negative numeral rounds as its magnitude does, so halves go away from zero.
pub open spec fn decimal_value(s: Seq<char>) -> Option<int> {
    if s.len() > 0 && s[0] == '-' {
        match unsigned_decimal(s.drop_first()) {
            Some(v) => Some(-v),
            None => None,
        }
    } else if s.len() > 0 && s[0] == '+' {
        unsigned_decimal(s.drop_first())
    } else {
        unsigned_decimal(s)
    }
}

/// What `parse_fixed` reads from `s`: its decimal value when that is a numeral
/// whose magnitude fits in an `i64` count of millionths, else nothing.
pub open spec fn parse_fixed_spec(s: Seq<char>) -> Option<int> {
    match decimal_value(s) {
        Some(v) => if -(i64::MAX as int) <= v <= i64::MAX as int {
            Some(v)
        } else {
            None
        },
        None => None,
    }
}

proof fn lemma_pow10_split(f: nat)
    requires
        f <= 6,
    ensures
        pow10(f) * pow10((6 - f) as nat) == 1_000_000,
        pow10((6 - f) as nat) >= 1,
{
    reveal_with_fuel(pow10, 7);
    assert(pow10(0) == 1);
    assert(pow10(1) == 10);
    assert(pow10(2) == 100);
    assert(pow10(3) == 1000);
    assert(pow10(4) == 10000);
    assert(pow10(5) == 100000);
    assert(pow10(6) == 1000000);
    if f == 0 {
        assert(pow10(f) * pow10((6 - f) as nat) == 1 * 1000000);
    } else if f == 1 {
        assert(pow10(f) * pow10((6 - f) as nat) == 10 * 100000);
    } else if f == 2 {
        assert(pow10(f) * pow10((6 - f) as nat) == 100 * 10000);
    } else if f == 3 {
        assert(pow10(f) * pow10((6 - f) as nat) == 1000 * 1000);
    } else if f == 4 {
        assert(pow10(f) * pow10((6 - f) as nat) == 10000 * 100);
    } else if f == 5 {
        assert(pow10(f) * pow10((6 - f) as nat) == 100000 * 10);
    } else {
        assert(pow10(f) * pow10((6 - f) as nat) == 1000000 * 1);
    }
}

/// Within `b`, the only point is at `d`, so `point_at` can only hold there.
proof fn lemma_point_unique(b: Seq<char>, d: int, k: int)
    requires
        0 <= d < b.len(),
        b[d] == '.',
        point_at(b, k),
    ensures
        k == d,
{
    if k < d {
        assert(b.subrange(k + 1, b.len() as int)[d - k - 1] == b[d]);
    } else if k > d {
        assert(b.subrange(0, k)[d] == b[d]);
    }
}

/// A character that is neither a digit nor a point makes `b` no numeral.
proof fn lemma_stray_char(b: Seq<char>, j: int)
    requires
        0 <= j < b.len(),
        !is_digit(b[j]),
        b[j] != '.',
    ensures
        unsigned_decimal(b) is None,
{
    assert(!all_digits(b));
    assert forall|k: int| !point_at(b, k) by {
        if point_at(b, k) {
            if j < k {
                assert(b.subrange(0, k)[j] == b[j]);
            } else if j > k {
                assert(b.subrange(k + 1, b.len() as int)[j - k - 1] == b[j]);
            }
        }
    }
}

/// Two points make `b` no numeral.
proof fn lemma_two_points(b: Seq<char>, d: int, j: int)
    requires
        0 <= d < j < b.len(),
        b[d] == '.',
        b[j] == '.',
    ensures
        unsigned_decimal(b) is None,
{
    assert(!is_digit(b[d]));
    assert(!all_digits(b));
    assert forall|k: int| !point_at(b, k) by {
        if point_at(b, k) {
            lemma_point_unique(b, d, k);
            lemma_point_unique(b, j, k);
        }
    }
}

/// Extending a run of digits by one more digit.
proof fn lemma_digits_extend(b: Seq<char>, lo: int, hi: int)
    requires
        0 <= lo <= hi < b.len(),
        all_digits(b.subrange(lo, hi)),
        is_digit(b[hi]),
    ensures
        all_digits(b.subrange(lo, hi + 1)),
        digits_value(b.subrange(lo, hi + 1)) == digits_value(b.subrange(lo, hi)) * 10
            + digit_value(b[hi]),
{
    let p = b.subrange(lo, hi + 1);
    assert(p.drop_last() =~= b.subrange(lo, hi));
    assert forall|k: int| 0 <= k < p.len() implies is_digit(#[trigger] p[k]) by {
        if k < p.len() - 1 {
            assert(p[k] == b.subrange(lo, hi)[k]);
        }
    }
}

const CAP: u128 = 9_223_372_036_854_775_808;

fn pow10_exec(n: usize) -> (r: u128)
    requires
        n <= 6,
    ensures
        r == pow10(n as nat),
        1 <= r <= 1_000_000,
{
    reveal_with_fuel(pow10, 7);
    if n == 0 {
        1
    } else if n == 1 {
        10
    } else if n == 2 {
        100
    } else if n == 3 {
        1000
    } else if n == 4 {
        10000
    } else if n == 5 {
        100000
    } else {
        1000000
    }
}

/// Reads a decimal numeral (optional sign, digits, optional point followed by
/// decimals) as a count of millionths: exact up to six decimals, rounded to
/// the nearest millionth beyond that (halves away from zero). Exponents,
/// `inf`, `NaN`, surrounding spaces and magnitudes beyond `i64` are not
/// numbers here.
pub fn parse_fixed(s: &str) -> (r: Option<i64>)
    ensures
        r matches Some(v) ==> parse_fixed_spec(s@) == Some(v as int),
        r is None ==> parse_fixed_spec(s@) is None,
{
    let n = s.unicode_len();
    let mut start: usize = 0;
    let mut neg = false;
    if n > 0 {
        let c0 = s.get_char(0);
        if c0 == '-' {
            neg = true;
            start = 1;
        } else if c0 == '+' {
            start = 1;
        }
    }
    let ghost b = s@.subrange(start as int, n as int);
    proof {
        if start == 1 {
            assert(b =~= s@.drop_first());
        } else {
            assert(b =~= s@);
        }
    }
    assert(decimal_value(s@) == if neg {
        match unsigned_decimal(b) {
            Some(v) => Some(-v),
            None => None,
        }
    } else {
        unsigned_decimal(b)
    });
    let mut acc: u128 = 0;
    let mut seen_dot = false;
    let mut dot: usize = 0;
    let mut frac: usize = 0;
    let mut up = false;
    let ghost mut exact: int = 0;
    let mut i: usize = start;
    while i < n
        invariant
            n == s@.len(),
            start <= i <= n,
            start <= 1,
            b == s@.subrange(start as int, n as int),
            unsigned_decimal(b) is None ==> parse_fixed_spec(s@) is None,
            unsigned_decimal(b) is Some ==> decimal_value(s@) == Some(
                if neg {
                    -(unsigned_decimal(b)->0)
                } else {
                    unsigned_decimal(b)->0
                },
            ),
            exact >= 0,
            exact < CAP ==> acc == exact,
            exact >= CAP ==> acc == CAP,
            !seen_dot ==> all_digits(b.subrange(0, i - start)) && exact == digits_value(
                b.subrange(0, i - start),
            ),
            seen_dot ==> {
                &&& start <= dot < i
                &&& b[dot - start] == '.'
                &&& i - dot - 1 <= 6 ==> frac == i - dot - 1
                &&& i - dot - 1 > 6 ==> frac == 6
                &&& frac <= 6
                &&& all_digits(b.subrange(0, dot - start))
                &&& all_digits(b.subrange(dot - start + 1, i - start))
                &&& exact == digits_value(b.subrange(0, dot - start)) * pow10(frac as nat)
                    + digits_value(b.subrange(dot - start + 1, dot - start + 1 + frac))
                &&& i - dot - 1 > 6 ==> up == (digit_value(b[dot - start + 7]) >= 5)
            },
        decreases n - i,
    {
        let c = s.get_char(i);
        assert(b[i - start] == c);
        if c == '.' {
            if seen_dot {
                proof {
                    lemma_two_points(b, dot - start, i - start);
                }
                return None;
            }
            seen_dot = true;
            dot = i;
            frac = 0;
            assert(b.subrange(dot - start + 1, i + 1 - start) =~= Seq::<char>::empty());
            proof {
                reveal_with_fuel(pow10, 1);
                assert(digits_value(Seq::<char>::empty()) == 0);
                assert(pow10(0) == 1);
                assert(exact == digits_value(b.subrange(0, dot - start)) * pow10(frac as nat)
                    + digits_value(b.subrange(dot - start + 1, dot - start + 1 + frac)));
            }
        } else if 48 <= (c as u32) && (c as u32) <= 57 {
            let d = ((c as u32) - 48) as u128;
            if seen_dot && frac == 6 {
                proof {
                    lemma_digits_extend(b, dot - start + 1, i - start);
                }
                if i - dot - 1 == 6 {
                    up = d >= 5;
                }
                i = i + 1;
                continue;
            }
            proof {
                if !seen_dot {
                    lemma_digits_extend(b, 0, i - start);
                } else {
                    lemma_digits_extend(b, dot - start + 1, i - start);
                    let x = digits_value(b.subrange(0, dot - start));
                    let y = digits_value(b.subrange(dot - start + 1, i - start));
                    let pf = pow10(frac as nat);
                    assert(pow10((frac + 1) as nat) == 10 * pf);
                    assert((x * pf + y) * 10 + d == x * (10 * pf) + (y * 10 + d))
                        by (nonlinear_arith);
                }
                exact = exact * 10 + d;
            }
            if seen_dot {
                frac = frac + 1;
            }
            acc = acc * 10 + d;
            if acc > CAP {
                acc = CAP;
            }
        } else {
            proof {
                lemma_stray_char(b, i - start);
            }
            return None;
        }
        i = i + 1;
    }
    assert(b.subrange(0, n - start) =~= b);
    if n - start == 0 || (seen_dot && n - start == 1) {
        proof {
            if n - start == 1 {
                assert forall|k: int| !point_at(b, k) by {}
                assert(!is_digit(b[0]));
            }
        }
        return None;
    }
    let long = seen_dot && n - dot - 1 > 6;
    let mut shift: usize = 6;
    if seen_dot {
        shift = 6 - frac;
    }
    let bump: u128 = if long && up {
        1
    } else {
        0
    };
    let ghost value: int;
    proof {
        if seen_dot {
            let k = dot - start;
            assert(point_at(b, k));
            let kk = choose|kk: int| point_at(b, kk);
            lemma_point_unique(b, k, kk);
            assert(!all_digits(b)) by {
                assert(!is_digit(b[k]));
            }
            let fr = b.subrange(k + 1, b.len() as int);
            let x = digits_value(b.subrange(0, k));
            lemma_pow10_split(frac as nat);
            let pf = pow10(frac as nat);
            let ps = pow10((6 - frac) as nat);
            if long {
                assert(fr.subrange(0, 6) =~= b.subrange(k + 1, k + 7));
                assert(fr[6] == b[k + 7]);
                assert(frac == 6);
                assert(ps == 1);
                assert(pf == 1_000_000);
                assert(fr.len() > 6);
                value = exact + bump;
                assert(value == point_value(b.subrange(0, k), fr));
            } else {
                assert(fr =~= b.subrange(k + 1, k + 1 + frac));
                let y = digits_value(fr);
                assert((x * pf + y) * ps == x * (pf * ps) + y * ps) by (nonlinear_arith);
                value = exact * ps;
                assert(fr.len() == frac);
                assert(value == point_value(b.subrange(0, k), fr));
            }
            assert(kk == k);
            assert(unsigned_decimal(b) == Some(value));
        } else {
            reveal_with_fuel(pow10, 7);
            value = exact * 1_000_000;
            assert(unsigned_decimal(b) == Some(value));
        }
    }
    let p = pow10_exec(shift);
    proof {
        if seen_dot {
            lemma_pow10_split(frac as nat);
        } else {
            reveal_with_fuel(pow10, 7);
        }
        assert(value == exact * p + bump);
    }
    if acc == CAP {
        proof {
            assert(exact >= CAP);
            assert(exact * p + bump >= exact) by (nonlinear_arith)
                requires
                    p >= 1,
                    exact >= 0,
                    bump >= 0,
            ;
        }
        return None;
    }
    assert(acc * p <= CAP * 1_000_000) by (nonlinear_arith)
        requires
            acc < CAP,
            p <= 1_000_000,
    ;
    let v = acc * p + bump;
    if v > 9_223_372_036_854_775_807 {
        return None;
    }
    let w = v as i64;
    if neg {
        Some(-w)
    } else {
        Some(w)
    }
}

} // verus!
