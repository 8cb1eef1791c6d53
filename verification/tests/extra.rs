//! Further tests: binary units, signs, precision, errors and accessors.

use humat::{ConfigError, Formatter, Preset, RangedUnit};

#[test]
fn test_binary_preset() {
    let f = Formatter::preset(Preset::Binary);
    assert_eq!("0", f.format_uint(0).render());
    assert_eq!("512", f.format_uint(512).render());
    assert_eq!("1023", f.format_uint(1023).render());
    // Boundary exactness: 1024 belongs to the Ki tier.
    assert_eq!("1.00 Ki", f.format_uint(1024).render());
    assert_eq!("1.50 Ki", f.format_uint(1536).render());
    assert_eq!("1.00 Mi", f.format_uint(1024 * 1024).render());
    // Truncation, not rounding: u64::MAX is 15 EiB and change.
    assert_eq!("15.99 Ei", f.format_uint(u64::MAX as u128).render());
}

#[test]
fn test_sign_rendering() {
    let f = Formatter::preset(Preset::Si);
    assert_eq!("-5", f.format_int(-5).render());
    assert_eq!("5", f.format_int(5).render());
    assert_eq!("-1.50 K", f.format_int(-1500).render());
    assert_eq!("1.50 K", f.format_int(1500).render());
    // Zero carries no sign.
    assert_eq!("0", f.format_int(0).render());
    // The most negative 128-bit value still renders, in scientific notation.
    assert_eq!("-1.70e38", f.format_int(i128::MIN).render());
}

#[test]
fn test_scientific_fallback() {
    let f = Formatter::custom(
        1000,
        vec![String::from("K"), String::from("M"), String::from("G")],
    )
    .unwrap();
    // The last boundary is 1000^4; exactly reaching it activates the fallback.
    assert_eq!("999.99 G", f.format_uint(999_999_999_999).render());
    assert_eq!("1.00e12", f.format_uint(1_000_000_000_000).render());
    // Coefficient keeps a single leading digit.
    assert_eq!("3.40e38", f.format_uint(u128::MAX).render());
    assert_eq!("9.99e12", f.format_uint(9_999_999_999_999).render());
}

#[test]
fn test_precision_prefix_stability() {
    let f = Formatter::preset(Preset::Si);
    assert_eq!("123 K", f.format_uint_fixed_dp(123_456, 0).render());
    assert_eq!("123.4 K", f.format_uint_fixed_dp(123_456, 1).render());
    assert_eq!("123.45 K", f.format_uint_fixed_dp(123_456, 2).render());
    assert_eq!("123.456 K", f.format_uint_fixed_dp(123_456, 3).render());
    // Further precision only reveals zeros; earlier digits never change.
    assert_eq!("123.4560 K", f.format_uint_fixed_dp(123_456, 4).render());
    assert_eq!("1.234567 M", f.format_uint_fixed_dp(1_234_567, 6).render());
}

#[test]
fn test_formatted_with_decimal_places() {
    let f = Formatter::preset(Preset::Si);
    let formatted = f.format_uint(123_456);
    assert_eq!("123.45 K", formatted.render());
    // Re-render the stored decomposition under another precision.
    let wider = formatted.with_decimal_places(4);
    assert_eq!("123.4560 K", wider.render());
    let narrower = wider.with_decimal_places(1);
    assert_eq!("123.4 K", narrower.render());
}

#[test]
fn test_config_errors() {
    // 10^20 squared no longer fits into 128 bits.
    let too_big = Formatter::custom(100_000_000_000_000_000_000, vec![String::from("A")]);
    assert_eq!(too_big.err(), Some(ConfigError::Overflow));
    // Thirty-eight tiers of base two are fine; sixty-four are not.
    let labels = |n: usize| (0..n).map(|i| format!("t{i}")).collect::<Vec<String>>();
    assert!(Formatter::custom(2, labels(38)).is_ok());
    assert_eq!(
        Formatter::custom(2, labels(130)).err(),
        Some(ConfigError::Overflow)
    );
    // The decimal-place budget is checked at configuration time.
    assert!(Formatter::preset(Preset::Si).with_decimal_places(15).is_ok());
    assert_eq!(
        Formatter::preset(Preset::Si).with_decimal_places(16).err(),
        Some(ConfigError::InvalidDecimalPlaces)
    );
}

#[test]
fn test_separator_and_custom_unit() {
    let f = Formatter::preset(Preset::Si).with_custom_unit("B");
    // The custom unit applies even below the first tier.
    assert_eq!("5 B", f.format_uint(5).render());
    // Tier unit and custom unit concatenate with no separator between them.
    assert_eq!("1.50 KB", f.format_uint(1500).render());
    let tight = Formatter::preset(Preset::Si)
        .with_custom_unit("B")
        .with_separator("");
    assert_eq!("1.50KB", tight.format_uint(1500).render());
    // In scientific notation only the custom unit follows the separator.
    let three = Formatter::custom(1000, vec![String::from("K")])
        .unwrap()
        .with_custom_unit("B");
    assert_eq!("1.00e6 B", three.format_uint(1_000_000).render());
    // Without any unit there is no separator at all.
    let plain = Formatter::preset(Preset::Si).with_separator("_");
    assert_eq!("999", plain.format_uint(999).render());
    assert_eq!("1.00_K", plain.format_uint(1000).render());
}

#[test]
fn test_accessors() {
    let f = Formatter::preset(Preset::Si).with_custom_unit("B");
    let formatted = f.format_uint(1500);
    assert_eq!(" ", formatted.separator());
    assert_eq!(Some("B"), formatted.custom_unit());
    let bare = Formatter::preset(Preset::Si).format_uint(7);
    assert_eq!(None, bare.custom_unit());
}

#[test]
fn test_generic_format() {
    let f = Formatter::preset(Preset::Si);
    assert_eq!("5", f.format(5u8).render());
    assert_eq!("2.50 K", f.format(2500u32).render());
    assert_eq!("-42", f.format(-42i64).render());
    assert_eq!("-9.99 K", f.format(-9999i32).render());
    assert_eq!("9.999 K", f.format_fixed_dp(9999u64, 3).render());
    assert_eq!("-9.9 K", f.format_int_fixed_dp(-9999, 1).render());
    assert_eq!("18.44 E", f.format(u64::MAX).render());
}

#[test]
fn test_custom_unchecked() {
    let units = vec![
        RangedUnit {
            range_max: 1000,
            unit: None,
        },
        RangedUnit {
            range_max: 1_000_000,
            unit: Some(String::from("X")),
        },
    ];
    let f = Formatter::custom_unchecked(units);
    assert_eq!("2.00 X", f.format_uint(2000).render());
    assert_eq!("999", f.format_uint(999).render());
    assert_eq!("1.00e6", f.format_uint(1_000_000).render());
}

#[test]
fn test_empty_label_table() {
    // No labels at all is legal: everything at or above the base goes
    // scientific.
    let f = Formatter::custom(1000, Vec::new()).unwrap();
    assert_eq!("999", f.format_uint(999).render());
    assert_eq!("1.00e3", f.format_uint(1000).render());
}
