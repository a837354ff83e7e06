use paylink::amount::{canonical_text, check_amount, normalize_amount, ExactDecimal};
use paylink::error::LinkError;

fn decimal(mantissa: i128, scale: u32) -> ExactDecimal {
    ExactDecimal { negative: mantissa < 0, mantissa, scale }
}

#[test]
fn keeps_the_digits_that_were_supplied() {
    assert_eq!(normalize_amount("1.5", None), Ok("1.5".to_string()));
    assert_eq!(normalize_amount("1.50", None), Ok("1.50".to_string()));
    assert_eq!(normalize_amount("1.0", None), Ok("1.0".to_string()));
    assert_eq!(normalize_amount("1", None), Ok("1".to_string()));
    assert_eq!(normalize_amount("0", None), Ok("0".to_string()));
    assert_eq!(normalize_amount("0.001", None), Ok("0.001".to_string()));
    assert_eq!(normalize_amount("0.00", None), Ok("0.00".to_string()));
    assert_eq!(normalize_amount("12.34", Some(6)), Ok("12.34".to_string()));
    assert_eq!(
        normalize_amount("79228162514264337593543950335", None),
        Ok("79228162514264337593543950335".to_string())
    );
    assert_eq!(
        normalize_amount("0.0000000000000000000000000001", None),
        Ok("0.0000000000000000000000000001".to_string())
    );
}

#[test]
fn writes_other_spellings_in_canonical_form() {
    assert_eq!(normalize_amount("+1.5", None), Ok("1.5".to_string()));
    assert_eq!(normalize_amount("007", None), Ok("7".to_string()));
    assert_eq!(normalize_amount("00.50", None), Ok("0.50".to_string()));
    assert_eq!(normalize_amount(".5", None), Ok("0.5".to_string()));
    assert_eq!(normalize_amount("5.", None), Ok("5".to_string()));
    assert_eq!(normalize_amount("1_000.25", None), Ok("1000.25".to_string()));
    assert_eq!(normalize_amount("-0", None), Ok("0".to_string()));
}

#[test]
fn refuses_what_is_no_exact_decimal() {
    for text in ["", "abc", "1e5", "1E5", "1.2.3", "1,5", " 1", "1 ", "0x10", "-", "+", ".", "_1", "NaN", "١"] {
        assert_eq!(normalize_amount(text, None), Err(LinkError::InvalidAmount), "{:?}", text);
        assert_eq!(normalize_amount(text, Some(9)), Err(LinkError::InvalidAmount), "{:?}", text);
    }
    assert_eq!(
        normalize_amount("79228162514264337593543950336", None),
        Err(LinkError::InvalidAmount)
    );
    assert_eq!(
        normalize_amount("0.00000000000000000000000000001", None),
        Err(LinkError::InvalidAmount)
    );
}

#[test]
fn refuses_negative_amounts() {
    assert_eq!(normalize_amount("-1", None), Err(LinkError::InvalidAmount));
    assert_eq!(normalize_amount("-0.001", None), Err(LinkError::InvalidAmount));
    assert_eq!(normalize_amount("-1", Some(0)), Err(LinkError::InvalidAmount));
    assert_eq!(normalize_amount("-0.001", Some(9)), Err(LinkError::InvalidAmount));
    assert_eq!(normalize_amount("-0.001", Some(2)), Err(LinkError::InvalidAmount));
}

#[test]
fn refuses_more_fractional_digits_than_allowed() {
    assert_eq!(
        normalize_amount("1.23456789", Some(6)),
        Err(LinkError::TooManyDecimals { scale: 8, max: 6 })
    );
    assert_eq!(
        normalize_amount("0.1", Some(0)),
        Err(LinkError::TooManyDecimals { scale: 1, max: 0 })
    );
    assert_eq!(
        normalize_amount("1.000", Some(2)),
        Err(LinkError::TooManyDecimals { scale: 3, max: 2 })
    );
}

#[test]
fn accepts_as_many_fractional_digits_as_allowed() {
    assert_eq!(normalize_amount("1.234567", Some(6)), Ok("1.234567".to_string()));
    assert_eq!(normalize_amount("1.23456", Some(6)), Ok("1.23456".to_string()));
    assert_eq!(normalize_amount("1", Some(0)), Ok("1".to_string()));
    assert_eq!(normalize_amount("1.123456789", Some(9)), Ok("1.123456789".to_string()));
    assert_eq!(normalize_amount("1.23456789", None), Ok("1.23456789".to_string()));
    assert_eq!(normalize_amount("1.5", Some(u32::MAX)), Ok("1.5".to_string()));
}

#[test]
fn judges_a_parsed_amount() {
    assert_eq!(check_amount(None, None), Err(LinkError::InvalidAmount));
    assert_eq!(check_amount(None, Some(3)), Err(LinkError::InvalidAmount));
    assert_eq!(check_amount(Some(decimal(15, 1)), None), Ok(decimal(15, 1)));
    assert_eq!(check_amount(Some(decimal(15, 1)), Some(1)), Ok(decimal(15, 1)));
    assert_eq!(
        check_amount(Some(decimal(15, 1)), Some(0)),
        Err(LinkError::TooManyDecimals { scale: 1, max: 0 })
    );
    assert_eq!(check_amount(Some(decimal(-15, 1)), None), Err(LinkError::InvalidAmount));
    assert_eq!(check_amount(Some(decimal(-15, 1)), Some(0)), Err(LinkError::InvalidAmount));
    assert_eq!(check_amount(Some(decimal(0, 0)), Some(0)), Ok(decimal(0, 0)));
}

#[test]
fn writes_a_decimal_from_its_parts() {
    assert_eq!(canonical_text(&decimal(0, 0)), "0");
    assert_eq!(canonical_text(&decimal(0, 2)), "0.00");
    assert_eq!(canonical_text(&decimal(5, 0)), "5");
    assert_eq!(canonical_text(&decimal(5, 3)), "0.005");
    assert_eq!(canonical_text(&decimal(15, 1)), "1.5");
    assert_eq!(canonical_text(&decimal(1234, 2)), "12.34");
    assert_eq!(canonical_text(&decimal(1200, 2)), "12.00");
    assert_eq!(canonical_text(&decimal(123, 3)), "0.123");
    assert_eq!(canonical_text(&decimal(1, 28)), "0.0000000000000000000000000001");
    assert_eq!(
        canonical_text(&decimal(79228162514264337593543950335, 28)),
        "7.9228162514264337593543950335"
    );
}

#[test]
fn the_canonical_text_is_numerically_equal_to_the_input() {
    let inputs = [
        "1.5", "1.50", "+1.5", "007", "00.50", ".5", "5.", "1_000.25", "0", "-0", "0.000",
        "123456789.123456789", "79228162514264337593543950335", "0.0000000000000000000000000001",
        "7.9228162514264337593543950335",
    ];
    for input in inputs {
        let output = normalize_amount(input, None).unwrap();
        let before = rust_decimal::Decimal::from_str_exact(input).unwrap();
        let after = rust_decimal::Decimal::from_str_exact(&output).unwrap();
        assert_eq!(before, after, "{}", input);
        assert_eq!(before.scale(), after.scale(), "{}", input);
        assert_eq!(before.mantissa(), after.mantissa(), "{}", input);
        assert!(output.bytes().all(|b| b.is_ascii_digit() || b == b'.'), "{}", output);
        assert_eq!(normalize_amount(&output, None), Ok(output.clone()));
    }
}

#[test]
fn the_canonical_text_reads_back_digit_for_digit() {
    for (mantissa, scale) in [(0i128, 0u32), (0, 5), (7, 0), (7, 1), (7, 9), (1234567, 3), (10, 1), (100, 2), (1, 28)] {
        let text = canonical_text(&decimal(mantissa, scale));
        let (whole, fraction) = match text.split_once('.') {
            Some((whole, fraction)) => (whole.to_string(), fraction.to_string()),
            None => (text.clone(), String::new()),
        };
        assert!(!whole.is_empty(), "{}", text);
        assert_eq!(fraction.len(), scale as usize, "{}", text);
        let digits = format!("{}{}", whole, fraction);
        assert_eq!(digits.parse::<i128>().unwrap(), mantissa, "{}", text);
    }
}
