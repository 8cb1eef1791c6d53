//! The library's laws: what the rendering guarantees, stated and proved over
//! the specification functions that the public contracts use.

use vstd::prelude::*;

use crate::digits::{
    dec_digits, digit_char, frac_digits, lemma_dec_digits_are_digits, lemma_div_below,
    lemma_frac_digit_at, lemma_frac_digits_prefix, lemma_frac_digits_props,
    lemma_frac_digits_zero, lemma_log10_floor_bounds, lemma_pow10_pos, log10_floor, pow10,
};
use crate::format::{
    formatted_model, spec_decompose, spec_resolve, lemma_resolve_from_props, FormatterModel,
};
use crate::formatted::{
    frac_seq, mantissa_part, sign_seq, spec_render, suffix_seq, DecompModel, FormattedModel,
};
use crate::unit::{lemma_table_bounds_increase, table_base, table_wf, TierModel};

verus! {

/// In a well-formed table, a value at or above the boundary of tier `i - 1`
/// and below the boundary of tier `i` resolves exactly to tier `i`.
proof fn lemma_resolve_exact(tiers: Seq<TierModel>, v: nat, i: int)
    requires
        table_wf(tiers),
        1 <= i < tiers.len(),
        tiers[i - 1].bound <= v < tiers[i].bound,
    ensures
        spec_resolve(tiers, v) == Some(i),
{
    lemma_table_bounds_increase(tiers);
    lemma_resolve_from_props(tiers, v, 0);
    match spec_resolve(tiers, v) {
        Some(t) => {
            if t < i {
                assert(tiers[t].bound <= tiers[i - 1].bound);
                assert(false);
            }
            if t > i {
                assert(tiers[i].bound <= v);
                assert(false);
            }
        },
        None => {
            assert(tiers[i].bound <= v);
            assert(false);
        },
    }
}

/// Values below the first boundary render as the bare decimal integer: no
/// sign, no decimal point, no unit, when no custom unit is configured.
pub proof fn lemma_plain_below_base(ft: FormatterModel, v: nat, dp: nat)
    requires
        table_wf(ft.tiers),
        ft.custom_unit is None,
        v < table_base(ft.tiers),
    ensures
        spec_render(formatted_model(ft, true, v, dp)) == dec_digits(v),
        forall|j: int|
            0 <= j < dec_digits(v).len() ==> '0' <= #[trigger] dec_digits(v)[j] <= '9',
{
    assert(spec_resolve(ft.tiers, v) == Some(0int));
    lemma_dec_digits_are_digits(v);
    assert(spec_render(formatted_model(ft, true, v, dp)) =~= dec_digits(v));
}

/// Within tier `i`, the rendered integer part is exactly the quotient of the
/// value by the previous tier's boundary, and the rendered fraction is the
/// truncation of the remainder over that boundary to the requested digits.
pub proof fn lemma_tier_exact(ft: FormatterModel, v: nat, i: int, dp: nat)
    requires
        table_wf(ft.tiers),
        1 <= i < ft.tiers.len(),
        ft.tiers[i - 1].bound <= v < ft.tiers[i].bound,
    ensures
        spec_decompose(ft.tiers, true, v) == (DecompModel::Scaled {
            positive: true,
            integer_part: v / ft.tiers[i - 1].bound,
            remainder: v % ft.tiers[i - 1].bound,
            divisor: ft.tiers[i - 1].bound,
            label: ft.tiers[i].label,
        }),
        spec_render(formatted_model(ft, true, v, dp)) == dec_digits(v / ft.tiers[i - 1].bound)
            + frac_seq(v % ft.tiers[i - 1].bound, ft.tiers[i - 1].bound, dp) + suffix_seq(
            ft.separator,
            ft.tiers[i].label,
            ft.custom_unit,
        ),
{
    lemma_resolve_exact(ft.tiers, v, i);
    assert(spec_render(formatted_model(ft, true, v, dp)) =~= dec_digits(
        v / ft.tiers[i - 1].bound,
    ) + frac_seq(v % ft.tiers[i - 1].bound, ft.tiers[i - 1].bound, dp) + suffix_seq(
        ft.separator,
        ft.tiers[i].label,
        ft.custom_unit,
    ));
}

/// A value exactly at a boundary belongs to the tier above it and renders
/// with integer part one and an all-zero fraction — never as
/// `999.99...` of the tier below.
pub proof fn lemma_boundary_exact(ft: FormatterModel, i: int, dp: nat)
    requires
        table_wf(ft.tiers),
        1 <= i < ft.tiers.len(),
    ensures
        spec_decompose(ft.tiers, true, ft.tiers[i - 1].bound) == (DecompModel::Scaled {
            positive: true,
            integer_part: 1,
            remainder: 0,
            divisor: ft.tiers[i - 1].bound,
            label: ft.tiers[i].label,
        }),
        mantissa_part(spec_decompose(ft.tiers, true, ft.tiers[i - 1].bound), dp) == seq!['1']
            + frac_seq(0, ft.tiers[i - 1].bound, dp),
        frac_digits(0, ft.tiers[i - 1].bound, dp) == Seq::new(dp, |j: int| '0'),
{
    let b = ft.tiers[i - 1].bound;
    lemma_table_bounds_increase(ft.tiers);
    lemma_tier_exact(ft, b, i, dp);
    vstd::arithmetic::div_mod::lemma_div_by_self(b as int);
    vstd::arithmetic::div_mod::lemma_mod_self_0(b as int);
    lemma_frac_digits_zero(b, dp);
    assert(dec_digits(1) == seq![digit_char(1)]);
    assert(mantissa_part(spec_decompose(ft.tiers, true, b), dp) =~= seq!['1'] + frac_seq(
        0,
        b,
        dp,
    ));
}

/// No rounding, ever: each rendered fraction digit is the exact truncated
/// digit of the remainder over the divisor at its position, whatever digits
/// follow it.
pub proof fn lemma_no_rounding(ft: FormatterModel, v: nat, i: int, dp: nat)
    requires
        table_wf(ft.tiers),
        1 <= i < ft.tiers.len(),
        ft.tiers[i - 1].bound <= v < ft.tiers[i].bound,
    ensures
        spec_decompose(ft.tiers, true, v) matches DecompModel::Scaled {
            remainder,
            divisor,
            ..
        } && remainder == v % ft.tiers[i - 1].bound && divisor == ft.tiers[i - 1].bound,
        forall|j: int|
            0 <= j < dp ==> #[trigger] frac_digits(
                v % ft.tiers[i - 1].bound,
                ft.tiers[i - 1].bound,
                dp,
            )[j] == digit_char(
                (v % ft.tiers[i - 1].bound) * pow10((j + 1) as nat) / ft.tiers[i - 1].bound % 10,
            ),
{
    let b = ft.tiers[i - 1].bound;
    lemma_table_bounds_increase(ft.tiers);
    lemma_tier_exact(ft, v, i, dp);
    vstd::arithmetic::div_mod::lemma_mod_division_less_than_divisor(v as int, b as int);
    lemma_frac_digit_at(v % b, b, dp);
}

/// The rendering of a negative value is exactly a minus sign followed by the
/// rendering of the same magnitude with a positive sign.
pub proof fn lemma_sign_prefix(ft: FormatterModel, v: nat, dp: nat)
    ensures
        spec_render(formatted_model(ft, false, v, dp)) == seq!['-'] + spec_render(
            formatted_model(ft, true, v, dp),
        ),
{
    assert(spec_render(formatted_model(ft, false, v, dp)) =~= seq!['-'] + spec_render(
        formatted_model(ft, true, v, dp),
    ));
}

/// A rendering with a positive sign carries no sign at all: its first
/// character is a decimal digit.
pub proof fn lemma_positive_unsigned(ft: FormatterModel, v: nat, dp: nat)
    ensures
        spec_render(formatted_model(ft, true, v, dp)).len() >= 1,
        '0' <= spec_render(formatted_model(ft, true, v, dp))[0] <= '9',
{
    let n = spec_decompose(ft.tiers, true, v);
    match n {
        DecompModel::Plain { integer, .. } => {
            lemma_dec_digits_are_digits(integer);
            assert(spec_render(formatted_model(ft, true, v, dp))[0] == dec_digits(integer)[0]);
        },
        DecompModel::Scaled { integer_part, .. } => {
            lemma_dec_digits_are_digits(integer_part);
            assert(spec_render(formatted_model(ft, true, v, dp))[0] == dec_digits(
                integer_part,
            )[0]);
        },
        DecompModel::Scientific { mantissa, exponent, .. } => {
            lemma_dec_digits_are_digits(mantissa / pow10(exponent));
            assert(spec_render(formatted_model(ft, true, v, dp))[0] == dec_digits(
                mantissa / pow10(exponent),
            )[0]);
        },
    }
}

/// Scientific notation applies exactly to the values at or beyond the last
/// boundary, and there the coefficient always lies in `[1, 10)`: the leading
/// digit of the mantissa is never zero.
pub proof fn lemma_scientific_threshold(ft: FormatterModel, v: nat)
    requires
        table_wf(ft.tiers),
    ensures
        (spec_decompose(ft.tiers, true, v) is Scientific) <==> v >= ft.tiers[ft.tiers.len()
            - 1].bound,
        v >= ft.tiers[ft.tiers.len() - 1].bound ==> {
            &&& spec_decompose(ft.tiers, true, v) == (DecompModel::Scientific {
                positive: true,
                mantissa: v,
                exponent: log10_floor(v),
            })
            &&& pow10(log10_floor(v)) <= v < pow10(log10_floor(v) + 1)
            &&& 1 <= v / pow10(log10_floor(v)) <= 9
        },
{
    lemma_table_bounds_increase(ft.tiers);
    lemma_resolve_from_props(ft.tiers, v, 0);
    let last = ft.tiers.len() - 1;
    match spec_resolve(ft.tiers, v) {
        Some(t) => {
            assert(v < ft.tiers[t].bound);
            assert(ft.tiers[t].bound <= ft.tiers[last].bound);
        },
        None => {
            assert(ft.tiers[last].bound <= v);
            assert(v >= 2);
            lemma_log10_floor_bounds(v);
            let e = log10_floor(v);
            let p = pow10(e);
            lemma_pow10_pos(e);
            vstd::arithmetic::div_mod::lemma_div_is_ordered(p as int, v as int, p as int);
            vstd::arithmetic::div_mod::lemma_div_by_self(p as int);
            assert(pow10(e + 1) == 10 * p);
            lemma_div_below(v, p, 10);
        },
    }
}

/// Raising the decimal-place count only reveals further truncated digits:
/// the numeric text under a smaller count is a prefix of the numeric text
/// under a larger one, and earlier digits never change.
pub proof fn lemma_precision_prefix(n: DecompModel, dp1: nat, dp2: nat)
    requires
        dp1 <= dp2,
        n.wf(),
    ensures
        mantissa_part(n, dp1).len() <= mantissa_part(n, dp2).len(),
        mantissa_part(n, dp1) == mantissa_part(n, dp2).take(mantissa_part(n, dp1).len() as int),
{
    match n {
        DecompModel::Plain { .. } => {
            assert(mantissa_part(n, dp1) =~= mantissa_part(n, dp2).take(
                mantissa_part(n, dp1).len() as int,
            ));
        },
        DecompModel::Scaled { positive, integer_part, remainder, divisor, .. } => {
            lemma_precision_prefix_frac(
                sign_seq(positive) + dec_digits(integer_part),
                remainder,
                divisor,
                dp1,
                dp2,
            );
        },
        DecompModel::Scientific { positive, mantissa, exponent } => {
            lemma_pow10_pos(exponent);
            vstd::arithmetic::div_mod::lemma_mod_division_less_than_divisor(
                mantissa as int,
                pow10(exponent) as int,
            );
            lemma_precision_prefix_frac(
                sign_seq(positive) + dec_digits(mantissa / pow10(exponent)),
                mantissa % pow10(exponent),
                pow10(exponent),
                dp1,
                dp2,
            );
        },
    }
}

/// The prefix property for a head followed by a truncated fraction.
proof fn lemma_precision_prefix_frac(head: Seq<char>, r: nat, d: nat, dp1: nat, dp2: nat)
    requires
        dp1 <= dp2,
        d >= 1,
    ensures
        (head + frac_seq(r, d, dp1)).len() <= (head + frac_seq(r, d, dp2)).len(),
        head + frac_seq(r, d, dp1) == (head + frac_seq(r, d, dp2)).take(
            (head + frac_seq(r, d, dp1)).len() as int,
        ),
{
    lemma_frac_digits_props(r, d, dp1);
    lemma_frac_digits_props(r, d, dp2);
    if dp1 == 0 {
        assert(head + frac_seq(r, d, dp1) =~= (head + frac_seq(r, d, dp2)).take(
            (head + frac_seq(r, d, dp1)).len() as int,
        ));
    } else {
        lemma_frac_digits_prefix(r, d, dp1, dp2);
        assert(head + frac_seq(r, d, dp1) =~= (head + frac_seq(r, d, dp2)).take(
            (head + frac_seq(r, d, dp1)).len() as int,
        ));
    }
}

} // verus!
