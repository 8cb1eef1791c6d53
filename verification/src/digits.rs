//! Decimal digit streams.
//!
//! Spec-level descriptions of the decimal rendering of an integer and of the
//! truncated digit stream of a fraction `r / d`, together with executable
//! string builders proved against them. All executable arithmetic is exact
//! integer arithmetic: the fraction digits are obtained by repeated
//! multiply-by-ten and division, so no digit is ever rounded.

use vstd::prelude::*;

verus! {

/// The character for a single decimal digit.
pub open spec fn digit_char(d: nat) -> char {
    if d == 0 {
        '0'
    } else if d == 1 {
        '1'
    } else if d == 2 {
        '2'
    } else if d == 3 {
        '3'
    } else if d == 4 {
        '4'
    } else if d == 5 {
        '5'
    } else if d == 6 {
        '6'
    } else if d == 7 {
        '7'
    } else if d == 8 {
        '8'
    } else {
        '9'
    }
}

/// The decimal rendering of `n`, most significant digit first.
pub open spec fn dec_digits(n: nat) -> Seq<char>
    decreases n,
{
    if n < 10 {
        seq![digit_char(n)]
    } else {
        dec_digits(n / 10).push(digit_char(n % 10))
    }
}

/// The first `k` digits after the decimal point of the fraction `r / d`,
/// obtained by truncation: digits beyond position `k` are simply dropped and
/// never influence an earlier digit.
pub open spec fn frac_digits(r: nat, d: nat, k: nat) -> Seq<char>
    decreases k,
{
    if k == 0 {
        Seq::empty()
    } else {
        seq![digit_char(r * 10 / d)] + frac_digits(r * 10 % d, d, (k - 1) as nat)
    }
}

/// Exponent of the largest power of ten that is at most `n` (for `n >= 1`).
pub open spec fn log10_floor(n: nat) -> nat
    decreases n,
{
    if n < 10 {
        0
    } else {
        1 + log10_floor(n / 10)
    }
}

/// `10^e`.
pub open spec fn pow10(e: nat) -> nat
    decreases e,
{
    if e == 0 {
        1
    } else {
        10 * pow10((e - 1) as nat)
    }
}

pub proof fn lemma_pow10_pos(e: nat)
    ensures
        pow10(e) >= 1,
    decreases e,
{
    if e > 0 {
        lemma_pow10_pos((e - 1) as nat);
    }
}

pub proof fn lemma_pow10_increases(e1: nat, e2: nat)
    requires
        e1 <= e2,
    ensures
        pow10(e1) <= pow10(e2),
    decreases e2,
{
    if e1 < e2 {
        lemma_pow10_increases(e1, (e2 - 1) as nat);
        lemma_pow10_pos((e2 - 1) as nat);
    }
}

/// Quotients are bounded by the scaled divisor: `x < d * b` forces `x / d < b`.
pub proof fn lemma_div_below(x: nat, d: nat, b: nat)
    requires
        d >= 1,
        x < d * b,
    ensures
        x / d < b,
{
    vstd::arithmetic::div_mod::lemma_fundamental_div_mod(x as int, d as int);
    assert(d * (x / d) < d * b ==> x / d < b) by (nonlinear_arith);
    assert(d * (x / d) <= x) by {
        assert(x == d * (x as int / d as int) + x as int % d as int);
        vstd::arithmetic::div_mod::lemma_mod_division_less_than_divisor(x as int, d as int);
    }
}

/// Every fraction digit stream has exactly the requested length and consists
/// of decimal digit characters.
pub proof fn lemma_frac_digits_props(r: nat, d: nat, k: nat)
    requires
        d >= 1,
    ensures
        frac_digits(r, d, k).len() == k,
        forall|j: int|
            0 <= j < k ==> '0' <= #[trigger] frac_digits(r, d, k)[j] <= '9',
    decreases k,
{
    if k > 0 {
        lemma_frac_digits_props(r * 10 % d, d, (k - 1) as nat);
        assert(frac_digits(r, d, k) == seq![digit_char(r * 10 / d)] + frac_digits(
            r * 10 % d,
            d,
            (k - 1) as nat,
        ));
        assert forall|j: int| 0 <= j < k implies '0' <= #[trigger] frac_digits(r, d, k)[j]
            <= '9' by {
            if j == 0 {
                assert(frac_digits(r, d, k)[0] == digit_char(r * 10 / d));
            } else {
                assert(frac_digits(r, d, k)[j] == frac_digits(r * 10 % d, d, (k - 1) as nat)[j
                    - 1]);
            }
        }
    }
}

/// A zero remainder yields only zero digits.
pub proof fn lemma_frac_digits_zero(d: nat, k: nat)
    requires
        d >= 1,
    ensures
        frac_digits(0, d, k) == Seq::new(k, |j: int| '0'),
    decreases k,
{
    if k > 0 {
        lemma_frac_digits_zero(d, (k - 1) as nat);
        assert(0 as nat * 10 == 0);
        vstd::arithmetic::div_mod::lemma_div_of0(d as int);
        vstd::arithmetic::div_mod::lemma_small_mod(0, d);
        assert(frac_digits(0, d, k) =~= Seq::new(k, |j: int| '0'));
    } else {
        assert(frac_digits(0, d, k) =~= Seq::new(k, |j: int| '0'));
    }
}

/// Asking for fewer digits yields a prefix of the longer stream: extending the
/// precision only reveals further digits and never changes earlier ones.
pub proof fn lemma_frac_digits_prefix(r: nat, d: nat, k1: nat, k2: nat)
    requires
        d >= 1,
        k1 <= k2,
    ensures
        frac_digits(r, d, k1) == frac_digits(r, d, k2).take(k1 as int),
    decreases k1,
{
    lemma_frac_digits_props(r, d, k1);
    lemma_frac_digits_props(r, d, k2);
    if k1 > 0 {
        lemma_frac_digits_prefix(r * 10 % d, d, (k1 - 1) as nat, (k2 - 1) as nat);
        lemma_frac_digits_props(r * 10 % d, d, (k1 - 1) as nat);
        lemma_frac_digits_props(r * 10 % d, d, (k2 - 1) as nat);
        assert(frac_digits(r, d, k1) == seq![digit_char(r * 10 / d)] + frac_digits(
            r * 10 % d,
            d,
            (k1 - 1) as nat,
        ));
        assert(frac_digits(r, d, k2) == seq![digit_char(r * 10 / d)] + frac_digits(
            r * 10 % d,
            d,
            (k2 - 1) as nat,
        ));
        assert forall|j: int| 0 <= j < k1 implies frac_digits(r, d, k1)[j] == frac_digits(
            r,
            d,
            k2,
        ).take(k1 as int)[j] by {
            if j > 0 {
                assert(frac_digits(r, d, k1)[j] == frac_digits(r * 10 % d, d, (k1 - 1) as nat)[j
                    - 1]);
                assert(frac_digits(r, d, k2)[j] == frac_digits(r * 10 % d, d, (k2 - 1) as nat)[j
                    - 1]);
                assert(frac_digits(r * 10 % d, d, (k1 - 1) as nat)[j - 1] == frac_digits(
                    r * 10 % d,
                    d,
                    (k2 - 1) as nat,
                ).take((k1 - 1) as int)[j - 1]);
            }
        }
        assert(frac_digits(r, d, k1) =~= frac_digits(r, d, k2).take(k1 as int));
    } else {
        assert(frac_digits(r, d, k1) =~= frac_digits(r, d, k2).take(k1 as int));
    }
}

/// Each digit of the truncated stream is determined by the fraction alone:
/// digit `j` is the tenths digit of `r * 10^(j+1) / d`. In particular no digit
/// is ever influenced (rounded up) by the digits that follow it.
pub proof fn lemma_frac_digit_at(r: nat, d: nat, k: nat)
    requires
        d >= 1,
        r < d,
    ensures
        frac_digits(r, d, k).len() == k,
        forall|j: int|
            0 <= j < k ==> #[trigger] frac_digits(r, d, k)[j] == digit_char(
                r * pow10((j + 1) as nat) / d % 10,
            ),
    decreases k,
{
    lemma_frac_digits_props(r, d, k);
    if k > 0 {
        let m = r * 10 / d;
        let s = r * 10 % d;
        vstd::arithmetic::div_mod::lemma_fundamental_div_mod(r as int * 10, d as int);
        lemma_frac_digit_at(s, d, (k - 1) as nat);
        // Digit 0: since r < d, the quotient r * 10 / d is below ten, so
        // taking it modulo ten changes nothing.
        assert(r * 10 < d * 10) by (nonlinear_arith)
            requires
                r < d,
        ;
        lemma_div_below(r * 10, d, 10);
        vstd::arithmetic::div_mod::lemma_small_mod(m, 10);
        assert(pow10(1) == 10) by {
            reveal_with_fuel(pow10, 2);
        }
        assert(frac_digits(r, d, k)[0] == digit_char(r * pow10(1) / d % 10));
        // Digit j >= 1 equals digit j - 1 of the stream that starts one
        // multiply-by-ten step later.
        assert forall|j: int| 1 <= j < k implies #[trigger] frac_digits(r, d, k)[j] == digit_char(
            r * pow10((j + 1) as nat) / d % 10,
        ) by {
            let p = pow10(j as nat) as int;
            let pprev = pow10((j - 1) as nat) as int;
            let ri = r as int;
            let di = d as int;
            let si = s as int;
            let mi = m as int;
            lemma_pow10_pos((j - 1) as nat);
            assert(p == 10 * pprev);
            assert(pow10((j + 1) as nat) == 10 * p);
            assert(frac_digits(r, d, k)[j] == frac_digits(s, d, (k - 1) as nat)[j - 1]);
            assert(frac_digits(s, d, (k - 1) as nat)[j - 1] == digit_char(
                s * pow10(j as nat) / d % 10,
            ));
            // s * p + (m * p) * d == (10 * r) * p, so dividing by d hoists
            // the multiple m * p out of the quotient.
            assert(si * p + (mi * p) * di == (10 * ri) * p) by (nonlinear_arith)
                requires
                    si == 10 * ri - di * mi,
            ;
            vstd::arithmetic::div_mod::lemma_hoist_over_denominator(si * p, mi * p, d);
            assert(si * p / di + mi * p == (10 * ri) * p / di);
            assert(ri * (10 * p) == (10 * ri) * p) by (nonlinear_arith);
            // m * p is a multiple of ten, so it vanishes modulo ten.
            assert(mi * p == 10 * (mi * pprev)) by (nonlinear_arith)
                requires
                    p == 10 * pprev,
            ;
            vstd::arithmetic::div_mod::lemma_mod_multiples_vanish(
                -(mi * pprev),
                (10 * ri) * p / di,
                10,
            );
            assert(si * p / di % 10 == ri * pow10((j + 1) as nat) / di % 10);
        }
    }
}

/// `pow10(log10_floor(n))` brackets `n` from below.
pub proof fn lemma_log10_floor_bounds(n: nat)
    requires
        n >= 1,
    ensures
        pow10(log10_floor(n)) <= n < pow10(log10_floor(n) + 1),
    decreases n,
{
    if n < 10 {
        assert(pow10(1) == 10) by {
            reveal_with_fuel(pow10, 2);
        }
    } else {
        lemma_log10_floor_bounds(n / 10);
        let l = log10_floor(n / 10);
        vstd::arithmetic::div_mod::lemma_fundamental_div_mod(n as int, 10);
        assert(pow10(l + 1) == 10 * pow10(l));
        assert(pow10(l + 2) == 10 * pow10(l + 1));
        assert(10 * pow10(l) <= 10 * (n / 10));
        assert(n / 10 + 1 <= pow10(l + 1));
        assert(10 * (n / 10 + 1) <= 10 * pow10(l + 1));
    }
}

/// The exponent bracketing `n` between consecutive powers of ten is unique.
pub proof fn lemma_log10_floor_unique(n: nat, e: nat)
    requires
        n >= 1,
        pow10(e) <= n < pow10(e + 1),
    ensures
        e == log10_floor(n),
{
    let l = log10_floor(n);
    lemma_log10_floor_bounds(n);
    if e < l {
        lemma_pow10_increases(e + 1, l);
        assert(false);
    }
    if e > l {
        lemma_pow10_increases(l + 1, e);
        assert(false);
    }
}

/// Ten to the fortieth power exceeds the 128-bit range.
proof fn lemma_pow10_40_large()
    ensures
        pow10(40) > u128::MAX,
{
    reveal_with_fuel(pow10, 41);
}

/// `10^e`, exactly, as a 128-bit integer.
pub fn pow10_exec(e: u32) -> (r: u128)
    requires
        pow10(e as nat) <= u128::MAX,
    ensures
        r as nat == pow10(e as nat),
{
    let mut p: u128 = 1;
    let mut i: u32 = 0;
    while i < e
        invariant
            i <= e,
            p as nat == pow10(i as nat),
            pow10(e as nat) <= u128::MAX,
        decreases e - i,
    {
        proof {
            lemma_pow10_increases((i + 1) as nat, e as nat);
            assert(pow10((i + 1) as nat) == 10 * pow10(i as nat));
        }
        p = p * 10;
        i = i + 1;
    }
    p
}

/// Splits off the decimal magnitude of `v`: returns `(10^e, e)` with
/// `10^e <= v < 10^(e+1)`.
pub fn sci_split(v: u128) -> (res: (u128, u32))
    requires
        v >= 1,
    ensures
        res.1 as nat == log10_floor(v as nat),
        res.0 as nat == pow10(res.1 as nat),
        res.0 <= v,
{
    let mut p: u128 = 1;
    let mut e: u32 = 0;
    while v / p >= 10
        invariant
            v >= 1,
            p >= 1,
            p as nat == pow10(e as nat),
            p <= v,
            e <= 39,
        decreases v - p,
    {
        proof {
            vstd::arithmetic::div_mod::lemma_fundamental_div_mod(v as int, p as int);
            assert(p * (v / p) >= p * 10) by (nonlinear_arith)
                requires
                    v / p >= 10,
                    p >= 1,
            ;
            assert(pow10((e + 1) as nat) == 10 * pow10(e as nat));
            if e + 1 >= 40 {
                lemma_pow10_40_large();
                lemma_pow10_increases(40, (e + 1) as nat);
                assert(false);
            }
        }
        p = p * 10;
        e = e + 1;
    }
    proof {
        vstd::arithmetic::div_mod::lemma_fundamental_div_mod(v as int, p as int);
        vstd::arithmetic::div_mod::lemma_mod_division_less_than_divisor(v as int, p as int);
        assert(p * (v / p) <= p * 9) by (nonlinear_arith)
            requires
                v / p <= 9,
                p >= 1,
        ;
        assert(pow10((e + 1) as nat) == 10 * pow10(e as nat));
        lemma_log10_floor_unique(v as nat, e as nat);
    }
    (p, e)
}

/// Every character of a decimal rendering is a digit.
pub proof fn lemma_dec_digits_are_digits(n: nat)
    ensures
        dec_digits(n).len() >= 1,
        forall|j: int|
            0 <= j < dec_digits(n).len() ==> '0' <= #[trigger] dec_digits(n)[j] <= '9',
    decreases n,
{
    if n >= 10 {
        lemma_dec_digits_are_digits(n / 10);
    }
}

/// The string for a single decimal digit.
fn digit_to_str(d: u128) -> (r: &'static str)
    requires
        d < 10,
    ensures
        r@ == seq![digit_char(d as nat)],
{
    proof {
        reveal_strlit("0");
        reveal_strlit("1");
        reveal_strlit("2");
        reveal_strlit("3");
        reveal_strlit("4");
        reveal_strlit("5");
        reveal_strlit("6");
        reveal_strlit("7");
        reveal_strlit("8");
        reveal_strlit("9");
    }
    let r = if d == 0 {
        "0"
    } else if d == 1 {
        "1"
    } else if d == 2 {
        "2"
    } else if d == 3 {
        "3"
    } else if d == 4 {
        "4"
    } else if d == 5 {
        "5"
    } else if d == 6 {
        "6"
    } else if d == 7 {
        "7"
    } else if d == 8 {
        "8"
    } else {
        "9"
    };
    proof {
        assert(r@ =~= seq![digit_char(d as nat)]);
    }
    r
}

/// Splits `10 * r` into quotient and remainder by `d` without ever forming
/// `10 * r` (which could exceed the integer width): one addition of `r` per
/// step, reducing modulo `d` as it goes.
fn mul10_div(r: u128, d: u128) -> (res: (u128, u128))
    requires
        r < d,
    ensures
        res.0 * d + res.1 == 10 * r,
        res.1 < d,
        res.0 < 10,
{
    let mut q: u128 = 0;
    let mut rem: u128 = 0;
    let mut i: usize = 0;
    while i < 10
        invariant
            q * d + rem == i * r,
            rem < d,
            q <= i,
            i <= 10,
            r < d,
        decreases 10 - i,
    {
        proof {
            assert((i + 1) * r == i * r + r) by (nonlinear_arith);
        }
        if rem >= d - r {
            proof {
                assert((q + 1) * d == q * d + d) by (nonlinear_arith);
            }
            rem = rem - (d - r);
            q = q + 1;
        } else {
            rem = rem + r;
        }
        i = i + 1;
    }
    proof {
        assert(q < 10) by (nonlinear_arith)
            requires
                q * d + rem == 10 * r,
                rem < d,
                r < d,
                0 <= q,
                0 <= rem,
        ;
    }
    (q, rem)
}

/// Appends the first `k` truncated fraction digits of `r / d` to `out`.
pub fn push_frac(out: &mut String, r: u128, d: u128, k: usize)
    requires
        r < d,
    ensures
        final(out)@ == old(out)@ + frac_digits(r as nat, d as nat, k as nat),
    decreases k,
{
    if k == 0 {
        proof {
            assert(final(out)@ =~= old(out)@ + frac_digits(r as nat, d as nat, 0));
        }
    } else {
        let (q, rem) = mul10_div(r, d);
        proof {
            vstd::arithmetic::div_mod::lemma_fundamental_div_mod_converse(
                10 * (r as int),
                d as int,
                q as int,
                rem as int,
            );
        }
        out.append(digit_to_str(q));
        push_frac(out, rem, d, k - 1);
        proof {
            assert(final(out)@ =~= old(out)@ + frac_digits(r as nat, d as nat, k as nat));
        }
    }
}

/// Appends the decimal rendering of `n` to `out`.
pub fn push_dec(out: &mut String, n: u128)
    ensures
        final(out)@ == old(out)@ + dec_digits(n as nat),
    decreases n,
{
    if n < 10 {
        out.append(digit_to_str(n));
        proof {
            assert(final(out)@ =~= old(out)@ + dec_digits(n as nat));
        }
    } else {
        push_dec(out, n / 10);
        out.append(digit_to_str(n % 10));
        proof {
            assert(final(out)@ =~= old(out)@ + dec_digits(n as nat));
        }
    }
}

} // verus!
