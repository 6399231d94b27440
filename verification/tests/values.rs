//! Label parsing, decimal rendering, diagnostics, and the parity check.
use artifact_post_action::convert_label_to_integer;
use artifact_post_action::decimal::i128_to_decimal;
use artifact_post_action::decimal::u128_to_decimal;
use artifact_post_action::extract_ordinal;
use artifact_post_action::find_value_matching_label;
use artifact_post_action::is_odd;
use artifact_post_action::model::ExtractError;
use artifact_post_action::model::FieldValue;
use artifact_post_action::model::ListValue;
use artifact_post_action::model::ResolveError;
use artifact_post_action::model::RuleError;

#[test]
fn test_is_odd() {
    assert_eq!(true, is_odd(1));
    assert_eq!(false, is_odd(2));
}

#[test]
fn is_odd_on_negative_numbers() {
    assert_eq!(true, is_odd(-3));
    assert_eq!(false, is_odd(-4));
    assert_eq!(false, is_odd(0));
}

#[test]
fn labels_parse_as_signed_integers() {
    assert_eq!(convert_label_to_integer(String::from("6")), Ok(6));
    assert_eq!(convert_label_to_integer(String::from("-12")), Ok(-12));
    assert_eq!(convert_label_to_integer(String::from("+7")), Ok(7));
    assert_eq!(convert_label_to_integer(String::from("06")), Ok(6));
    assert_eq!(convert_label_to_integer(String::from("0")), Ok(0));
    assert_eq!(convert_label_to_integer(String::from("-0")), Ok(0));
}

#[test]
fn bad_labels_fail_to_parse() {
    let err: Result<i64, ExtractError> = Err(ExtractError::NotAnInteger);
    assert_eq!(convert_label_to_integer(String::from("")), err);
    assert_eq!(convert_label_to_integer(String::from("-")), err);
    assert_eq!(convert_label_to_integer(String::from("+")), err);
    assert_eq!(convert_label_to_integer(String::from("high")), err);
    assert_eq!(convert_label_to_integer(String::from("6.0")), err);
    assert_eq!(convert_label_to_integer(String::from(" 6")), err);
    assert_eq!(convert_label_to_integer(String::from("1 2")), err);
    assert_eq!(convert_label_to_integer(String::from("--5")), err);
}

#[test]
fn parse_respects_i64_range() {
    assert_eq!(
        convert_label_to_integer(String::from("9223372036854775807")),
        Ok(i64::MAX)
    );
    assert_eq!(
        convert_label_to_integer(String::from("-9223372036854775808")),
        Ok(i64::MIN)
    );
    assert_eq!(
        convert_label_to_integer(String::from("9223372036854775808")),
        Err(ExtractError::NotAnInteger)
    );
    assert_eq!(
        convert_label_to_integer(String::from("-9223372036854775809")),
        Err(ExtractError::NotAnInteger)
    );
    assert_eq!(
        convert_label_to_integer(String::from("00000000000000000000000000009")),
        Ok(9)
    );
}

#[test]
fn decimal_rendering_is_canonical() {
    assert_eq!(u128_to_decimal(0), String::from("0"));
    assert_eq!(u128_to_decimal(6), String::from("6"));
    assert_eq!(u128_to_decimal(12345678901234567890), String::from("12345678901234567890"));
    assert_eq!(i128_to_decimal(-45), String::from("-45"));
    assert_eq!(i128_to_decimal(0), String::from("0"));
    assert_eq!(
        i128_to_decimal(i64::MAX as i128 * i64::MAX as i128),
        String::from("85070591730234615847396907784232501249")
    );
}

#[test]
fn extraction_distinguishes_its_outcomes() {
    let empty = FieldValue::SelectBox {
        field_id: 1,
        label: String::from("Severity"),
        values: Vec::new(),
        bind_value_ids: Vec::new(),
    };
    assert_eq!(extract_ordinal(&empty), Ok(None));
    let stat = FieldValue::SelectBox {
        field_id: 1,
        label: String::from("Severity"),
        values: vec![ListValue::StaticValue {
            id: 3,
            label: String::from("4"),
            color: None,
            tlp_color: None,
        }],
        bind_value_ids: Vec::new(),
    };
    assert_eq!(extract_ordinal(&stat), Ok(Some(4)));
    assert_eq!(find_value_matching_label(&stat), Ok(Some(String::from("4"))));
    let user = FieldValue::SelectBox {
        field_id: 1,
        label: String::from("Severity"),
        values: vec![ListValue::UserValue { id: Some(9), real_name: None }],
        bind_value_ids: Vec::new(),
    };
    assert_eq!(extract_ordinal(&user), Err(ExtractError::NotAStaticOption));
    let text = FieldValue::Text { field_id: 2 };
    assert_eq!(extract_ordinal(&text), Ok(None));
}

#[test]
fn diagnostics_carry_the_original_texts() {
    assert_eq!(
        RuleError::Extract(ExtractError::NotAnInteger).message(),
        String::from("Label is invalid integer")
    );
    assert_eq!(
        RuleError::Resolve(ResolveError::FieldNotFound(String::from("Residual risk level")))
            .message(),
        String::from("Cannot find field Residual risk level")
    );
    assert_eq!(
        RuleError::Resolve(ResolveError::NoConfiguredOptions).message(),
        String::from("Cannot find risk field values")
    );
    assert_eq!(
        RuleError::Resolve(ResolveError::NoMatchingOption(6)).message(),
        String::from("Cannot find matching Risk value")
    );
}
