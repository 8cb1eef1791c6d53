//! Formatting configurations and the magnitude-selection algorithm.

mod preset;

use vstd::arithmetic::power::pow;
use vstd::prelude::*;

use crate::digits::{log10_floor, sci_split};
use crate::formatted::{Decomposition, DecompModel, Formatted, FormattedModel};
use crate::humat::Humat;
use crate::unit::{table_base, table_wf, lemma_table_bounds_increase, RangedUnit, TierModel};

pub use preset::{preset_base, preset_label, Preset};

verus! {

/// The largest number of decimal places a configuration may ask for.
///
/// Beyond this bound a fraction of a 64-bit floating value carries no
/// trustworthy digits, so larger requests are rejected as a configuration
/// error rather than silently rendered.
pub const MAX_DECIMAL_PLACES: usize = 15;

/// An invalid configuration, reported when the configuration is built and
/// never during formatting.
#[derive(Debug, Clone, Copy, PartialEq, Eq, Structural)]
pub enum ConfigError {
    /// A tier boundary `base^(k+1)` exceeds the 128-bit magnitude width.
    Overflow,
    /// More decimal places were requested than [`MAX_DECIMAL_PLACES`].
    InvalidDecimalPlaces,
}

/// A collection of ranged units together with the output options: the
/// separator, an optional custom unit, and the decimal-place count.
///
/// A formatter is immutable once built; the builder methods return a new
/// value. Formatting itself never fails: every number, however large, has a
/// rendering (scientific notation once the tiers run out).
#[derive(Debug)]
pub struct Formatter {
    /// Separator between the number and the units.
    ///
    /// Defaults to " " (space).
    pub separator: String,
    /// The ordered magnitude tiers.
    ///
    /// If a number is too large for every tier, scientific notation like
    /// `1.84e19` is used.
    pub ranged_units: Vec<RangedUnit>,
    /// The custom unit attached after the tier unit.
    pub custom_unit: Option<String>,
    /// How many fraction digits to render.
    ///
    /// Defaults to 2.
    pub decimal_places: usize,
}

/// The mathematical content of a [`Formatter`].
pub ghost struct FormatterModel {
    pub tiers: Seq<TierModel>,
    pub separator: Seq<char>,
    pub custom_unit: Option<Seq<char>>,
    pub decimal_places: nat,
}

impl FormatterModel {
    /// A valid configuration: a well-formed tier table and a decimal-place
    /// count within the supported budget.
    pub open spec fn wf(self) -> bool {
        &&& table_wf(self.tiers)
        &&& self.decimal_places <= MAX_DECIMAL_PLACES
    }
}

impl View for Formatter {
    type V = FormatterModel;

    open spec fn view(&self) -> FormatterModel {
        FormatterModel {
            tiers: self.ranged_units@.map_values(|u: RangedUnit| u@),
            separator: self.separator@,
            custom_unit: match self.custom_unit {
                Some(ref u) => Some(u@),
                None => None,
            },
            decimal_places: self.decimal_places as nat,
        }
    }
}

/// The first tier at or after `i` whose boundary lies above `v`.
pub open spec fn spec_resolve_from(tiers: Seq<TierModel>, v: nat, i: int) -> Option<int>
    decreases tiers.len() - i,
{
    if i < 0 || i >= tiers.len() {
        None
    } else if v < tiers[i].bound {
        Some(i)
    } else {
        spec_resolve_from(tiers, v, i + 1)
    }
}

/// The tier `v` falls into: the least `i` with `v < tiers[i].bound`, or
/// `None` when `v` lies at or beyond the last boundary.
pub open spec fn spec_resolve(tiers: Seq<TierModel>, v: nat) -> Option<int> {
    spec_resolve_from(tiers, v, 0)
}

/// What `spec_resolve_from` finds: the first boundary above `v`, every
/// earlier one being at most `v`.
pub proof fn lemma_resolve_from_props(tiers: Seq<TierModel>, v: nat, i: int)
    requires
        0 <= i <= tiers.len(),
    ensures
        match spec_resolve_from(tiers, v, i) {
            Some(t) => {
                &&& i <= t < tiers.len()
                &&& v < tiers[t].bound
                &&& forall|j: int| i <= j < t ==> #[trigger] tiers[j].bound <= v
            },
            None => forall|j: int| i <= j < tiers.len() ==> #[trigger] tiers[j].bound <= v,
        },
    decreases tiers.len() - i,
{
    if i < tiers.len() && v >= tiers[i].bound {
        lemma_resolve_from_props(tiers, v, i + 1);
    }
}

/// The magnitude `v` (with its sign kept aside) decomposed against a tier
/// table: the raw integer below the first boundary, an exact
/// quotient-and-remainder split within a tier, and a decimal mantissa and
/// exponent beyond the last boundary.
pub open spec fn spec_decompose(tiers: Seq<TierModel>, positive: bool, v: nat) -> DecompModel {
    match spec_resolve(tiers, v) {
        Some(i) => {
            if i == 0 {
                DecompModel::Plain { positive, integer: v }
            } else {
                DecompModel::Scaled {
                    positive,
                    integer_part: v / tiers[i - 1].bound,
                    remainder: v % tiers[i - 1].bound,
                    divisor: tiers[i - 1].bound,
                    label: tiers[i].label,
                }
            }
        },
        None => DecompModel::Scientific { positive, mantissa: v, exponent: log10_floor(v) },
    }
}

/// The formatted value that a configuration produces for a signed magnitude.
pub open spec fn formatted_model(
    ft: FormatterModel,
    positive: bool,
    v: nat,
    dp: nat,
) -> FormattedModel {
    FormattedModel {
        number: spec_decompose(ft.tiers, positive, v),
        separator: ft.separator,
        custom_unit: ft.custom_unit,
        decimal_places: dp,
    }
}

/// The magnitude of a signed value.
pub open spec fn abs_mag(x: int) -> nat {
    if x >= 0 {
        x as nat
    } else {
        (-x) as nat
    }
}

/// The decomposition ignores the sign: decomposing with one sign and
/// replacing it afterwards is decomposing with the other sign.
pub proof fn lemma_decompose_sign(tiers: Seq<TierModel>, v: nat, positive: bool)
    ensures
        spec_decompose(tiers, true, v).with_sign_model(positive) == spec_decompose(
            tiers,
            positive,
            v,
        ),
{
}

impl Formatter {
    /// A valid formatter: well-formed tier table, decimal places in budget.
    pub open spec fn wf(&self) -> bool {
        self@.wf()
    }

    /// Builds a formatter from a scaling base and the unit labels of the
    /// tiers above the first. Tier zero is implicit and unlabeled: values
    /// below `base` render as plain integers. Tier `k` spans
    /// `[base^k, base^(k+1))` and carries `labels[k - 1]`.
    ///
    /// Fails with [`ConfigError::Overflow`] exactly when the last boundary
    /// `base^(N+1)` exceeds the 128-bit magnitude width.
    pub fn custom(base: u128, labels: Vec<String>) -> (r: Result<Formatter, ConfigError>)
        requires
            base >= 2,
        ensures
            match r {
                Ok(f) => {
                    &&& pow(base as int, (labels@.len() + 1) as nat) <= u128::MAX
                    &&& f.wf()
                    &&& f@.tiers.len() == labels@.len() + 1
                    &&& table_base(f@.tiers) == base
                    &&& f@.tiers[0].label is None
                    &&& forall|i: int|
                        1 <= i < f@.tiers.len() ==> #[trigger] f@.tiers[i].label == Some(
                            labels@[i - 1]@,
                        )
                    &&& f@.separator == " "@
                    &&& f@.custom_unit is None
                    &&& f@.decimal_places == 2
                },
                Err(e) => {
                    &&& e == ConfigError::Overflow
                    &&& pow(base as int, (labels@.len() + 1) as nat) > u128::MAX
                },
            },
    {
        let mut units: Vec<RangedUnit> = Vec::new();
        units.push(RangedUnit { range_max: base, unit: None });
        proof {
            vstd::arithmetic::power::lemma_pow1(base as int);
        }
        let mut boundary: u128 = base;
        let mut i: usize = 0;
        let n = labels.len();
        while i < n
            invariant
                base >= 2,
                i <= n,
                n == labels@.len(),
                boundary as int == pow(base as int, (i + 1) as nat),
                units@.len() == i + 1,
                forall|j: int|
                    0 <= j <= i ==> #[trigger] units@[j]@.bound == pow(
                        base as int,
                        (j + 1) as nat,
                    ),
                units@[0]@.label is None,
                forall|j: int|
                    1 <= j <= i ==> #[trigger] units@[j]@.label == Some(labels@[j - 1]@),
            decreases n - i,
        {
            proof {
                vstd::arithmetic::power::lemma_pow_adds(base as int, (i + 1) as nat, 1);
                vstd::arithmetic::power::lemma_pow1(base as int);
                assert(pow(base as int, (i + 2) as nat) == pow(base as int, (i + 1) as nat) * base);
            }
            if boundary > u128::MAX / base {
                // The next boundary would overflow, and with it every later
                // one, the last included.
                proof {
                    let bi = base as int;
                    let m = u128::MAX as int;
                    assert(m / bi * bi + m % bi == m) by {
                        vstd::arithmetic::div_mod::lemma_fundamental_div_mod(m, bi);
                    }
                    assert(boundary * bi >= (m / bi + 1) * bi) by (nonlinear_arith)
                        requires
                            boundary as int > m / bi,
                            bi >= 2,
                    ;
                    assert((m / bi + 1) * bi == m / bi * bi + bi) by (nonlinear_arith);
                    vstd::arithmetic::div_mod::lemma_mod_division_less_than_divisor(m, bi);
                    assert(pow(bi, (i + 2) as nat) > m);
                    vstd::arithmetic::power::lemma_pow_increases(
                        base as nat,
                        (i + 2) as nat,
                        (n + 1) as nat,
                    );
                }
                return Err(ConfigError::Overflow);
            }
            proof {
                let bi = base as int;
                let m = u128::MAX as int;
                assert(m / bi * bi <= m) by {
                    vstd::arithmetic::div_mod::lemma_fundamental_div_mod(m, bi);
                    vstd::arithmetic::div_mod::lemma_mod_division_less_than_divisor(m, bi);
                }
                assert(boundary * bi <= m / bi * bi) by (nonlinear_arith)
                    requires
                        boundary as int <= m / bi,
                        bi >= 2,
                ;
            }
            boundary = boundary * base;
            units.push(RangedUnit { range_max: boundary, unit: Some(labels[i].clone()) });
            i = i + 1;
        }
        let f = Formatter {
            separator: String::from_str(" "),
            ranged_units: units,
            custom_unit: None,
            decimal_places: 2,
        };
        proof {
            assert(f@.tiers.len() == n + 1);
            assert(forall|j: int|
                0 <= j < f@.tiers.len() ==> #[trigger] f@.tiers[j] == units@[j]@);
            assert(table_base(f@.tiers) == base);
            assert(table_wf(f@.tiers));
        }
        Ok(f)
    }

    /// Builds a formatter directly from a tier table that the caller has
    /// already made well-formed: each boundary the matching power of the
    /// base, tier zero unlabeled.
    pub fn custom_unchecked(ranged_units: Vec<RangedUnit>) -> (r: Formatter)
        requires
            table_wf(ranged_units@.map_values(|u: RangedUnit| u@)),
        ensures
            r.wf(),
            r@ == (FormatterModel {
                tiers: ranged_units@.map_values(|u: RangedUnit| u@),
                separator: " "@,
                custom_unit: None,
                decimal_places: 2 as nat,
            }),
    {
        Formatter {
            separator: String::from_str(" "),
            ranged_units,
            custom_unit: None,
            decimal_places: 2,
        }
    }

    /// Sets the separator between the number and the units.
    pub fn with_separator(self, separator: &str) -> (r: Formatter)
        ensures
            r@ == (FormatterModel { separator: separator@, ..self@ }),
    {
        Formatter { separator: String::from_str(separator), ..self }
    }

    /// Sets the custom unit attached after the tier unit.
    pub fn with_custom_unit(self, custom_unit: &str) -> (r: Formatter)
        ensures
            r@ == (FormatterModel { custom_unit: Some(custom_unit@), ..self@ }),
    {
        Formatter { custom_unit: Some(String::from_str(custom_unit)), ..self }
    }

    /// Sets how many fraction digits `format` renders. Requests beyond
    /// [`MAX_DECIMAL_PLACES`] are a configuration error, rejected here and
    /// never at formatting time.
    pub fn with_decimal_places(self, decimal_places: usize) -> (r: Result<Formatter, ConfigError>)
        ensures
            match r {
                Ok(f) => {
                    &&& decimal_places <= MAX_DECIMAL_PLACES
                    &&& f@ == (FormatterModel {
                        decimal_places: decimal_places as nat,
                        ..self@
                    })
                },
                Err(e) => {
                    &&& e == ConfigError::InvalidDecimalPlaces
                    &&& decimal_places > MAX_DECIMAL_PLACES
                },
            },
    {
        if decimal_places > MAX_DECIMAL_PLACES {
            Err(ConfigError::InvalidDecimalPlaces)
        } else {
            Ok(Formatter { decimal_places, ..self })
        }
    }

    /// Finds the tier `value` falls into: the least `i` with
    /// `value < boundary[i]`, so a value exactly at a boundary belongs to the
    /// next tier. `None` means every tier is exceeded and scientific
    /// notation applies.
    pub fn resolve(&self, value: u128) -> (r: Option<usize>)
        requires
            self.wf(),
        ensures
            match r {
                Some(i) => spec_resolve(self@.tiers, value as nat) == Some(i as int),
                None => spec_resolve(self@.tiers, value as nat) is None,
            },
    {
        let n = self.ranged_units.len();
        let mut idx: usize = 0;
        while idx < n
            invariant
                idx <= n,
                n == self.ranged_units@.len(),
                n == self@.tiers.len(),
                spec_resolve(self@.tiers, value as nat) == spec_resolve_from(
                    self@.tiers,
                    value as nat,
                    idx as int,
                ),
            decreases n - idx,
        {
            proof {
                assert(self@.tiers[idx as int] == self.ranged_units@[idx as int]@);
            }
            if value < self.ranged_units[idx].range_max {
                return Some(idx);
            }
            idx = idx + 1;
        }
        None
    }

    /// Decomposes `value` against the tier table, the sign kept aside.
    /// Within a tier the split is exact integer division by the previous
    /// boundary; beyond the last tier the scientific fallback takes over.
    pub fn decompose(&self, positive: bool, value: u128) -> (r: Decomposition)
        requires
            self.wf(),
        ensures
            r@ == spec_decompose(self@.tiers, positive, value as nat),
            r@.wf(),
    {
        proof {
            lemma_resolve_from_props(self@.tiers, value as nat, 0);
            lemma_table_bounds_increase(self@.tiers);
        }
        match self.resolve(value) {
            Some(idx) => {
                if idx == 0 {
                    Decomposition::PlainInteger { positive, integer: value }
                } else {
                    proof {
                        assert(self@.tiers[idx - 1] == self.ranged_units@[idx - 1]@);
                        assert(self@.tiers[idx as int] == self.ranged_units@[idx as int]@);
                    }
                    let divisor = self.ranged_units[idx - 1].range_max;
                    let unit: Option<String> = match &self.ranged_units[idx].unit {
                        Some(u) => Some(u.clone()),
                        None => None,
                    };
                    Decomposition::Scaled {
                        positive,
                        integer_part: value / divisor,
                        remainder: value % divisor,
                        divisor,
                        unit,
                    }
                }
            },
            None => {
                // Every boundary, the first included, is at most the value,
                // and boundaries are at least two, so the value is positive.
                assert(value >= 1);
                scientific(positive, value)
            },
        }
    }

    /// Formats a number with the configured decimal places.
    ///
    /// Any number type that implements the [`Humat`] trait is supported.
    pub fn format<T: Humat>(&self, target: T) -> (r: Formatted)
        requires
            self.wf(),
        ensures
            r@ == formatted_model(
                self@,
                target.is_nonneg(),
                target.magnitude(),
                self@.decimal_places,
            ),
            r@.wf(),
    {
        target.humat(self)
    }

    /// Formats a number with the given number of decimal places.
    ///
    /// Any number type that implements the [`Humat`] trait is supported.
    pub fn format_fixed_dp<T: Humat>(&self, target: T, decimal_places: usize) -> (r: Formatted)
        requires
            self.wf(),
            decimal_places <= MAX_DECIMAL_PLACES,
        ensures
            r@ == formatted_model(
                self@,
                target.is_nonneg(),
                target.magnitude(),
                decimal_places as nat,
            ),
            r@.wf(),
    {
        target.humat_fixed_dp(self, decimal_places)
    }

    /// Formats an unsigned integer with the configured decimal places.
    pub fn format_uint(&self, target: u128) -> (r: Formatted)
        requires
            self.wf(),
        ensures
            r@ == formatted_model(self@, true, target as nat, self@.decimal_places),
            r@.wf(),
    {
        self.format_uint_fixed_dp(target, self.decimal_places)
    }

    /// Formats an unsigned integer with the given number of decimal places.
    pub fn format_uint_fixed_dp(&self, target: u128, decimal_places: usize) -> (r: Formatted)
        requires
            self.wf(),
            decimal_places <= MAX_DECIMAL_PLACES,
        ensures
            r@ == formatted_model(self@, true, target as nat, decimal_places as nat),
            r@.wf(),
    {
        Formatted {
            number: self.decompose(true, target),
            separator: self.separator.clone(),
            custom_unit: match &self.custom_unit {
                Some(u) => Some(u.clone()),
                None => None,
            },
            decimal_places,
        }
    }

    /// Formats a signed integer with the configured decimal places.
    pub fn format_int(&self, target: i128) -> (r: Formatted)
        requires
            self.wf(),
        ensures
            r@ == formatted_model(self@, target >= 0, abs_mag(target as int), self@.decimal_places),
            r@.wf(),
    {
        self.format_int_fixed_dp(target, self.decimal_places)
    }

    /// Formats a signed integer with the given number of decimal places.
    ///
    /// The magnitude is decomposed as an unsigned value; the sign is applied
    /// only in the rendering.
    pub fn format_int_fixed_dp(&self, target: i128, decimal_places: usize) -> (r: Formatted)
        requires
            self.wf(),
            decimal_places <= MAX_DECIMAL_PLACES,
        ensures
            r@ == formatted_model(self@, target >= 0, abs_mag(target as int), decimal_places as nat),
            r@.wf(),
    {
        proof {
            lemma_decompose_sign(self@.tiers, abs_mag(target as int), target >= 0);
        }
        let magnitude = int_abs(target);
        self.format_uint_fixed_dp(magnitude, decimal_places).with_sign(target >= 0)
    }
}

/// The absolute value of a signed 128-bit integer, as an unsigned one.
fn int_abs(target: i128) -> (r: u128)
    ensures
        r as nat == abs_mag(target as int),
{
    if target >= 0 {
        target as u128
    } else if target == i128::MIN {
        (i128::MAX as u128) + 1
    } else {
        (-target) as u128
    }
}

/// The scientific fallback for a value beyond every tier: the exponent is the
/// true decimal magnitude of the value, computed by exact integer division,
/// never through a lossy floating conversion.
pub fn scientific(positive: bool, value: u128) -> (r: Decomposition)
    requires
        value >= 1,
    ensures
        r@ == (DecompModel::Scientific {
            positive,
            mantissa: value as nat,
            exponent: log10_floor(value as nat),
        }),
        r@.wf(),
{
    let (_p, e) = sci_split(value);
    Decomposition::Scientific { positive, mantissa: value, exponent: e }
}

} // verus!
