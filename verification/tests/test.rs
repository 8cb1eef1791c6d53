//! Tests

use humat::{Formatter, Preset};

#[test]
fn test_si() {
    assert_eq!(
        "0",
        Formatter::preset(Preset::Si)
            .with_decimal_places(2)
            .unwrap()
            .format_uint(0)
            .render()
    );
    assert_eq!(
        "1",
        Formatter::preset(Preset::Si)
            .with_decimal_places(2)
            .unwrap()
            .format_uint(1)
            .render()
    );
    assert_eq!(
        "2",
        Formatter::preset(Preset::Si)
            .with_decimal_places(2)
            .unwrap()
            .format_uint(2)
            .render()
    );
    assert_eq!(
        "999",
        Formatter::preset(Preset::Si)
            .with_decimal_places(2)
            .unwrap()
            .format_uint(999)
            .render()
    );
    assert_eq!(
        "1.00 K",
        Formatter::preset(Preset::Si)
            .with_decimal_places(2)
            .unwrap()
            .format_uint(1_000)
            .render()
    );
    // No rounding
    assert_eq!(
        "1.00 K",
        Formatter::preset(Preset::Si)
            .with_decimal_places(2)
            .unwrap()
            .format_uint(1_009)
            .render()
    );
    assert_eq!(
        "9.00 K",
        Formatter::preset(Preset::Si)
            .with_decimal_places(2)
            .unwrap()
            .format_uint(9_009)
            .render()
    );
    assert_eq!(
        "9.99 K",
        Formatter::preset(Preset::Si)
            .with_decimal_places(2)
            .unwrap()
            .format_uint(9_999)
            .render()
    );
    assert_eq!(
        "99.00 K",
        Formatter::preset(Preset::Si)
            .with_decimal_places(2)
            .unwrap()
            .format_uint(99_009)
            .render()
    );
    assert_eq!(
        "99.99 K",
        Formatter::preset(Preset::Si)
            .with_decimal_places(2)
            .unwrap()
            .format_uint(99_999)
            .render()
    );
    assert_eq!(
        "999.00 K",
        Formatter::preset(Preset::Si)
            .with_decimal_places(2)
            .unwrap()
            .format_uint(999_009)
            .render()
    );
    assert_eq!(
        "999.99 K",
        Formatter::preset(Preset::Si)
            .with_decimal_places(2)
            .unwrap()
            .format_uint(999_999)
            .render()
    );
    assert_eq!(
        "1.00 M",
        Formatter::preset(Preset::Si)
            .with_decimal_places(2)
            .unwrap()
            .format_uint(1_000_000)
            .render()
    );
    assert_eq!(
        "1.00 M",
        Formatter::preset(Preset::Si)
            .with_decimal_places(2)
            .unwrap()
            .format_uint(1_009_999)
            .render()
    );
    // Test usize::MAX
    assert_eq!(
        "18.44 E",
        Formatter::preset(Preset::Si)
            .with_decimal_places(2)
            .unwrap()
            .format_uint(usize::MAX as u128)
            .render()
    );
}

fn si_test() -> Formatter {
    Formatter::custom(
        1000,
        vec![String::from("K"), String::from("M"), String::from("G")],
    )
    .unwrap()
}

#[test]
fn test_si_test() {
    assert_eq!("0", si_test().format_uint(0).render());
    assert_eq!(
        "1",
        si_test().with_decimal_places(2).unwrap().format_uint(1).render()
    );
    assert_eq!(
        "2",
        si_test().with_decimal_places(2).unwrap().format_uint(2).render()
    );
    assert_eq!(
        "999",
        si_test()
            .with_decimal_places(2)
            .unwrap()
            .format_uint(999)
            .render()
    );
    assert_eq!(
        "1.00 K",
        si_test()
            .with_decimal_places(2)
            .unwrap()
            .format_uint(1_000)
            .render()
    );
    // No rounding
    assert_eq!(
        "1.00 K",
        si_test()
            .with_decimal_places(2)
            .unwrap()
            .format_uint(1_009)
            .render()
    );
    assert_eq!(
        "9.00 K",
        si_test()
            .with_decimal_places(2)
            .unwrap()
            .format_uint(9_009)
            .render()
    );
    assert_eq!(
        "9.99 K",
        si_test()
            .with_decimal_places(2)
            .unwrap()
            .format_uint(9_999)
            .render()
    );
    assert_eq!(
        "99.00 K",
        si_test()
            .with_decimal_places(2)
            .unwrap()
            .format_uint(99_009)
            .render()
    );
    assert_eq!(
        "99.99 K",
        si_test()
            .with_decimal_places(2)
            .unwrap()
            .format_uint(99_999)
            .render()
    );
    assert_eq!(
        "999.00 K",
        si_test()
            .with_decimal_places(2)
            .unwrap()
            .format_uint(999_009)
            .render()
    );
    assert_eq!(
        "999.99 K",
        si_test()
            .with_decimal_places(2)
            .unwrap()
            .format_uint(999_999)
            .render()
    );
    assert_eq!(
        "1.00 M",
        si_test()
            .with_decimal_places(2)
            .unwrap()
            .format_uint(1_000_000)
            .render()
    );
    assert_eq!(
        "1.00 M",
        si_test()
            .with_decimal_places(2)
            .unwrap()
            .format_uint(1_009_999)
            .render()
    );
    // Test usize::MAX, too large and no corresponding unit, use scientific notation
    assert_eq!(
        "1.84e19",
        si_test()
            .with_decimal_places(2)
            .unwrap()
            .format_uint(usize::MAX as u128)
            .render()
    );
}

#[test]
fn test_chinese() {
    assert_eq!(
        "0",
        Formatter::preset(Preset::Chinese)
            .with_decimal_places(2)
            .unwrap()
            .format_uint(0)
            .render()
    );
    assert_eq!(
        "1",
        Formatter::preset(Preset::Chinese)
            .with_decimal_places(2)
            .unwrap()
            .format_uint(1)
            .render()
    );
    assert_eq!(
        "2",
        Formatter::preset(Preset::Chinese)
            .with_decimal_places(2)
            .unwrap()
            .format_uint(2)
            .render()
    );
    assert_eq!(
        "9999",
        Formatter::preset(Preset::Chinese)
            .with_decimal_places(2)
            .unwrap()
            .format_uint(9999)
            .render()
    );
    assert_eq!(
        "1.00 万",
        Formatter::preset(Preset::Chinese)
            .with_decimal_places(2)
            .unwrap()
            .format_uint(1_0000)
            .render()
    );
    // No rounding
    assert_eq!(
        "1.00 万",
        Formatter::preset(Preset::Chinese)
            .with_decimal_places(2)
            .unwrap()
            .format_uint(1_0099)
            .render()
    );
    assert_eq!(
        "99.00 万",
        Formatter::preset(Preset::Chinese)
            .with_decimal_places(2)
            .unwrap()
            .format_uint(99_0099)
            .render()
    );
    assert_eq!(
        "99.99 万",
        Formatter::preset(Preset::Chinese)
            .with_decimal_places(2)
            .unwrap()
            .format_uint(99_9999)
            .render()
    );
    assert_eq!(
        "999.00 万",
        Formatter::preset(Preset::Chinese)
            .with_decimal_places(2)
            .unwrap()
            .format_uint(999_0099)
            .render()
    );
    assert_eq!(
        "999.99 万",
        Formatter::preset(Preset::Chinese)
            .with_decimal_places(2)
            .unwrap()
            .format_uint(999_9999)
            .render()
    );
    assert_eq!(
        "9999.00 万",
        Formatter::preset(Preset::Chinese)
            .with_decimal_places(2)
            .unwrap()
            .format_uint(9999_0099)
            .render()
    );
    assert_eq!(
        "9999.99 万",
        Formatter::preset(Preset::Chinese)
            .with_decimal_places(2)
            .unwrap()
            .format_uint(9999_9999)
            .render()
    );
    assert_eq!(
        "1.00 亿",
        Formatter::preset(Preset::Chinese)
            .with_decimal_places(2)
            .unwrap()
            .format_uint(1_0000_0000)
            .render()
    );
    assert_eq!(
        "1.00 亿",
        Formatter::preset(Preset::Chinese)
            .with_decimal_places(2)
            .unwrap()
            .format_uint(1_0099_9999)
            .render()
    );
    // Test usize::MAX
    assert_eq!(
        "1844.67 京",
        Formatter::preset(Preset::Chinese)
            .with_decimal_places(2)
            .unwrap()
            .format_uint(usize::MAX as u128)
            .render()
    );
}
