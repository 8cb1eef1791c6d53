//! Formatted values and their renderer.
//!
//! A [`Formatted`] value holds the exact numeric decomposition of one
//! formatting call together with the output configuration, and renders it on
//! demand. Rendering truncates the fraction to the requested number of
//! decimal places; it never rounds.

use vstd::prelude::*;

use crate::digits::{
    dec_digits, frac_digits, lemma_log10_floor_bounds, lemma_pow10_pos, log10_floor, pow10,
    pow10_exec, push_dec, push_frac,
};
use crate::format::MAX_DECIMAL_PLACES;

verus! {

/// The exact numeric decomposition of a formatted number.
///
/// The sign is kept apart from the magnitude, which is always the absolute
/// value; it is applied only when rendering.
#[derive(Debug)]
pub enum Decomposition {
    /// The value lies below the first tier boundary: the raw integer is
    /// rendered with no fraction and no tier unit.
    PlainInteger {
        /// Whether the number is non-negative.
        positive: bool,
        /// The magnitude itself.
        integer: u128,
    },
    /// The value falls within a tier: it splits exactly into
    /// `integer_part * divisor + remainder` with `remainder < divisor`,
    /// where `divisor` is the previous tier's boundary.
    Scaled {
        /// Whether the number is non-negative.
        positive: bool,
        /// The exact quotient by the tier divisor.
        integer_part: u128,
        /// The exact remainder; the rendered fraction is `remainder / divisor`.
        remainder: u128,
        /// The previous tier's boundary.
        divisor: u128,
        /// The tier's unit label.
        unit: Option<String>,
    },
    /// The value exceeds every tier: it is rendered as a decimal coefficient
    /// in `[1, 10)` followed by a power-of-ten exponent.
    Scientific {
        /// Whether the number is non-negative.
        positive: bool,
        /// The full magnitude; the coefficient's digits are its digits.
        mantissa: u128,
        /// The decimal exponent: the largest `e` with `10^e <= mantissa`.
        exponent: u32,
    },
}

/// The mathematical content of a [`Decomposition`].
pub ghost enum DecompModel {
    Plain { positive: bool, integer: nat },
    Scaled {
        positive: bool,
        integer_part: nat,
        remainder: nat,
        divisor: nat,
        label: Option<Seq<char>>,
    },
    Scientific { positive: bool, mantissa: nat, exponent: nat },
}

impl View for Decomposition {
    type V = DecompModel;

    open spec fn view(&self) -> DecompModel {
        match self {
            Decomposition::PlainInteger { positive, integer } => DecompModel::Plain {
                positive: *positive,
                integer: *integer as nat,
            },
            Decomposition::Scaled { positive, integer_part, remainder, divisor, unit } => {
                DecompModel::Scaled {
                    positive: *positive,
                    integer_part: *integer_part as nat,
                    remainder: *remainder as nat,
                    divisor: *divisor as nat,
                    label: match unit {
                        Some(u) => Some(u@),
                        None => None,
                    },
                }
            },
            Decomposition::Scientific { positive, mantissa, exponent } => {
                DecompModel::Scientific {
                    positive: *positive,
                    mantissa: *mantissa as nat,
                    exponent: *exponent as nat,
                }
            },
        }
    }
}

impl DecompModel {
    /// Validity of a decomposition: the remainder of a scaled value lies
    /// below its divisor, and a scientific exponent is the true decimal
    /// magnitude of the mantissa.
    pub open spec fn wf(self) -> bool {
        match self {
            DecompModel::Plain { .. } => true,
            DecompModel::Scaled { remainder, divisor, .. } => divisor >= 1 && remainder < divisor,
            DecompModel::Scientific { mantissa, exponent, .. } => mantissa >= 1 && exponent
                == log10_floor(mantissa),
        }
    }

    /// The same decomposition with the sign replaced.
    pub open spec fn with_sign_model(self, positive: bool) -> DecompModel {
        match self {
            DecompModel::Plain { integer, .. } => DecompModel::Plain { positive, integer },
            DecompModel::Scaled { integer_part, remainder, divisor, label, .. } => {
                DecompModel::Scaled { positive, integer_part, remainder, divisor, label }
            },
            DecompModel::Scientific { mantissa, exponent, .. } => {
                DecompModel::Scientific { positive, mantissa, exponent }
            },
        }
    }
}

/// The mathematical content of a [`Formatted`] value.
pub ghost struct FormattedModel {
    pub number: DecompModel,
    pub separator: Seq<char>,
    pub custom_unit: Option<Seq<char>>,
    pub decimal_places: nat,
}

impl FormattedModel {
    pub open spec fn wf(self) -> bool {
        self.number.wf()
    }
}

/// A leading minus sign, or nothing.
pub open spec fn sign_seq(positive: bool) -> Seq<char> {
    if positive {
        Seq::empty()
    } else {
        seq!['-']
    }
}

/// A decimal point followed by the first `dp` truncated digits of `r / d`,
/// or nothing when no decimal places were requested.
pub open spec fn frac_seq(r: nat, d: nat, dp: nat) -> Seq<char> {
    if dp == 0 {
        Seq::empty()
    } else {
        seq!['.'] + frac_digits(r, d, dp)
    }
}

/// The numeric text of a decomposition: sign, integer digits and truncated
/// fraction digits, without the exponent and unit suffixes.
pub open spec fn mantissa_part(n: DecompModel, dp: nat) -> Seq<char> {
    match n {
        DecompModel::Plain { positive, integer } => sign_seq(positive) + dec_digits(integer),
        DecompModel::Scaled { positive, integer_part, remainder, divisor, .. } => {
            sign_seq(positive) + dec_digits(integer_part) + frac_seq(remainder, divisor, dp)
        },
        DecompModel::Scientific { positive, mantissa, exponent } => {
            sign_seq(positive) + dec_digits(mantissa / pow10(exponent)) + frac_seq(
                mantissa % pow10(exponent),
                pow10(exponent),
                dp,
            )
        },
    }
}

/// The exponent marker of a scientific rendering, empty otherwise.
pub open spec fn exp_part(n: DecompModel) -> Seq<char> {
    match n {
        DecompModel::Scientific { exponent, .. } => seq!['e'] + dec_digits(exponent),
        _ => Seq::empty(),
    }
}

/// The tier unit that the suffix shows, if any.
pub open spec fn tier_label(n: DecompModel) -> Option<Seq<char>> {
    match n {
        DecompModel::Scaled { label, .. } => label,
        _ => None,
    }
}

/// The unit suffix: when a tier unit or a custom unit is present, the
/// separator followed by both units directly concatenated; otherwise nothing.
pub open spec fn suffix_seq(
    sep: Seq<char>,
    label: Option<Seq<char>>,
    custom: Option<Seq<char>>,
) -> Seq<char> {
    if label is None && custom is None {
        Seq::empty()
    } else {
        sep + (match label {
            Some(u) => u,
            None => Seq::empty(),
        }) + (match custom {
            Some(u) => u,
            None => Seq::empty(),
        })
    }
}

/// The full rendering of a formatted value.
pub open spec fn spec_render(m: FormattedModel) -> Seq<char> {
    mantissa_part(m.number, m.decimal_places) + exp_part(m.number) + suffix_seq(
        m.separator,
        tier_label(m.number),
        m.custom_unit,
    )
}

/// A formatted number: the decomposition of one formatting call together
/// with the output configuration it was made under.
#[derive(Debug)]
pub struct Formatted {
    /// The number's exact decomposition.
    pub number: Decomposition,
    /// Separator between the number and the units.
    pub separator: String,
    /// The custom unit attached after the tier unit.
    pub custom_unit: Option<String>,
    /// How many fraction digits to render.
    pub decimal_places: usize,
}

impl View for Formatted {
    type V = FormattedModel;

    open spec fn view(&self) -> FormattedModel {
        FormattedModel {
            number: self.number@,
            separator: self.separator@,
            custom_unit: match self.custom_unit {
                Some(ref u) => Some(u@),
                None => None,
            },
            decimal_places: self.decimal_places as nat,
        }
    }
}

impl Formatted {
    /// Replaces the sign of the held number.
    pub(crate) fn with_sign(self, positive: bool) -> (r: Formatted)
        ensures
            r@ == (FormattedModel { number: self@.number.with_sign_model(positive), ..self@ }),
    {
        let number = match self.number {
            Decomposition::PlainInteger { integer, .. } => Decomposition::PlainInteger {
                positive,
                integer,
            },
            Decomposition::Scaled { integer_part, remainder, divisor, unit, .. } => {
                Decomposition::Scaled { positive, integer_part, remainder, divisor, unit }
            },
            Decomposition::Scientific { mantissa, exponent, .. } => Decomposition::Scientific {
                positive,
                mantissa,
                exponent,
            },
        };
        Formatted { number, ..self }
    }

    /// Sets the number of decimal places for the rendering, reusing the
    /// stored decomposition: nothing is recomputed.
    pub fn with_decimal_places(self, decimal_places: usize) -> (r: Formatted)
        requires
            decimal_places <= MAX_DECIMAL_PLACES,
        ensures
            r@ == (FormattedModel { decimal_places: decimal_places as nat, ..self@ }),
    {
        Formatted { decimal_places, ..self }
    }

    /// Returns the separator between the number and the units.
    pub fn separator(&self) -> (r: &str)
        ensures
            r@ == self@.separator,
    {
        self.separator.as_str()
    }

    /// Returns the custom unit attached after the tier unit.
    pub fn custom_unit(&self) -> (r: Option<&str>)
        ensures
            match r {
                Some(u) => self@.custom_unit == Some(u@),
                None => self@.custom_unit is None,
            },
    {
        match &self.custom_unit {
            Some(u) => Some(u.as_str()),
            None => None,
        }
    }

    /// Renders the value: sign, integer digits, the requested number of
    /// truncated fraction digits, the exponent for out-of-range values, and
    /// the unit suffix.
    pub fn render(&self) -> (r: String)
        requires
            self@.wf(),
        ensures
            r@ == spec_render(self@),
    {
        let mut out = String::new();
        proof {
            reveal_strlit("-");
            reveal_strlit(".");
            reveal_strlit("e");
        }
        match &self.number {
            Decomposition::PlainInteger { positive, integer } => {
                if !*positive {
                    out.append("-");
                }
                push_dec(&mut out, *integer);
            },
            Decomposition::Scaled { positive, integer_part, remainder, divisor, .. } => {
                if !*positive {
                    out.append("-");
                }
                push_dec(&mut out, *integer_part);
                if self.decimal_places > 0 {
                    out.append(".");
                    push_frac(&mut out, *remainder, *divisor, self.decimal_places);
                }
            },
            Decomposition::Scientific { positive, mantissa, exponent } => {
                proof {
                    lemma_log10_floor_bounds(*mantissa as nat);
                    lemma_pow10_pos(*exponent as nat);
                }
                if !*positive {
                    out.append("-");
                }
                let p = pow10_exec(*exponent);
                push_dec(&mut out, *mantissa / p);
                if self.decimal_places > 0 {
                    out.append(".");
                    push_frac(&mut out, *mantissa % p, p, self.decimal_places);
                }
                out.append("e");
                push_dec(&mut out, *exponent as u128);
            },
        }
        proof {
            assert(out@ =~= mantissa_part(self@.number, self@.decimal_places) + exp_part(
                self@.number,
            ));
        }
        let unit: Option<&String> = match &self.number {
            Decomposition::Scaled { unit: Some(u), .. } => Some(u),
            _ => None,
        };
        if unit.is_some() || self.custom_unit.is_some() {
            out.append(self.separator.as_str());
            if let Some(u) = unit {
                out.append(u.as_str());
            }
            if let Some(cu) = &self.custom_unit {
                out.append(cu.as_str());
            }
        }
        proof {
            assert(out@ =~= spec_render(self@));
        }
        out
    }
}

} // verus!
