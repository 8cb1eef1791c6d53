//! Ready-made unit tables.

use vstd::prelude::*;

use crate::format::Formatter;
use crate::unit::table_base;

verus! {

/// The built-in unit tables.
#[derive(Debug, Clone, Copy, PartialEq, Eq, Structural)]
pub enum Preset {
    /// Decimal units: base 1000, labels `K`, `M`, `G`, `T`, `P`, `E`, `Z`, `Y`.
    Si,
    /// Binary units: base 1024, labels `Ki`, `Mi`, `Gi`, `Ti`, `Pi`, `Ei`,
    /// `Zi`, `Yi`.
    Binary,
    /// Chinese units: base 10000, labels `万`, `亿`, `兆`, `京`, `垓`, `秭`,
    /// `穰`, `沟`.
    Chinese,
}

/// The scaling base of a preset.
pub open spec fn preset_base(p: Preset) -> nat {
    match p {
        Preset::Si => 1000,
        Preset::Binary => 1024,
        Preset::Chinese => 10000,
    }
}

pub open spec fn si_label(i: int) -> Seq<char> {
    if i == 1 {
        "K"@
    } else if i == 2 {
        "M"@
    } else if i == 3 {
        "G"@
    } else if i == 4 {
        "T"@
    } else if i == 5 {
        "P"@
    } else if i == 6 {
        "E"@
    } else if i == 7 {
        "Z"@
    } else {
        "Y"@
    }
}

pub open spec fn binary_label(i: int) -> Seq<char> {
    if i == 1 {
        "Ki"@
    } else if i == 2 {
        "Mi"@
    } else if i == 3 {
        "Gi"@
    } else if i == 4 {
        "Ti"@
    } else if i == 5 {
        "Pi"@
    } else if i == 6 {
        "Ei"@
    } else if i == 7 {
        "Zi"@
    } else {
        "Yi"@
    }
}

pub open spec fn chinese_label(i: int) -> Seq<char> {
    if i == 1 {
        "万"@
    } else if i == 2 {
        "亿"@
    } else if i == 3 {
        "兆"@
    } else if i == 4 {
        "京"@
    } else if i == 5 {
        "垓"@
    } else if i == 6 {
        "秭"@
    } else if i == 7 {
        "穰"@
    } else {
        "沟"@
    }
}

/// The unit label of tier `i` (for `1 <= i <= 8`) in a preset.
pub open spec fn preset_label(p: Preset, i: int) -> Seq<char> {
    match p {
        Preset::Si => si_label(i),
        Preset::Binary => binary_label(i),
        Preset::Chinese => chinese_label(i),
    }
}

fn si_labels() -> (r: Vec<String>)
    ensures
        r@.len() == 8,
        forall|i: int| 0 <= i < 8 ==> (#[trigger] r@[i])@ == si_label(i + 1),
{
    let mut v: Vec<String> = Vec::new();
    v.push(String::from_str("K"));
    v.push(String::from_str("M"));
    v.push(String::from_str("G"));
    v.push(String::from_str("T"));
    v.push(String::from_str("P"));
    v.push(String::from_str("E"));
    v.push(String::from_str("Z"));
    v.push(String::from_str("Y"));
    v
}

fn binary_labels() -> (r: Vec<String>)
    ensures
        r@.len() == 8,
        forall|i: int| 0 <= i < 8 ==> (#[trigger] r@[i])@ == binary_label(i + 1),
{
    let mut v: Vec<String> = Vec::new();
    v.push(String::from_str("Ki"));
    v.push(String::from_str("Mi"));
    v.push(String::from_str("Gi"));
    v.push(String::from_str("Ti"));
    v.push(String::from_str("Pi"));
    v.push(String::from_str("Ei"));
    v.push(String::from_str("Zi"));
    v.push(String::from_str("Yi"));
    v
}

fn chinese_labels() -> (r: Vec<String>)
    ensures
        r@.len() == 8,
        forall|i: int| 0 <= i < 8 ==> (#[trigger] r@[i])@ == chinese_label(i + 1),
{
    let mut v: Vec<String> = Vec::new();
    v.push(String::from_str("万"));
    v.push(String::from_str("亿"));
    v.push(String::from_str("兆"));
    v.push(String::from_str("京"));
    v.push(String::from_str("垓"));
    v.push(String::from_str("秭"));
    v.push(String::from_str("穰"));
    v.push(String::from_str("沟"));
    v
}

impl Formatter {
    /// A ready-made formatter: nine tiers of the preset's base, tier zero
    /// unlabeled, separator " ", no custom unit, two decimal places.
    pub fn preset(p: Preset) -> (r: Formatter)
        ensures
            r.wf(),
            r@.tiers.len() == 9,
            table_base(r@.tiers) == preset_base(p),
            r@.tiers[0].label is None,
            forall|i: int| 1 <= i < 9 ==> #[trigger] r@.tiers[i].label == Some(preset_label(p, i)),
            r@.separator == " "@,
            r@.custom_unit is None,
            r@.decimal_places == 2,
    {
        let base: u128 = match p {
            Preset::Si => 1000,
            Preset::Binary => 1024,
            Preset::Chinese => 10000,
        };
        let labels = match p {
            Preset::Si => si_labels(),
            Preset::Binary => binary_labels(),
            Preset::Chinese => chinese_labels(),
        };
        proof {
            // The ninth power of each preset base fits well within 128 bits.
            reveal_with_fuel(vstd::arithmetic::power::pow, 10);
        }
        match Formatter::custom(base, labels) {
            Ok(f) => f,
            Err(_) => unreached(),
        }
    }
}

} // verus!
