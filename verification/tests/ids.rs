use gads::error::GoogleAdsError;
use gads::ids::{normalize_customer_id, normalize_customer_id_impl, parse_customer_id_arg};

#[test]
fn validates_digits_only() {
    assert_eq!(normalize_customer_id_impl("1234567890").unwrap(), "1234567890");
    assert!(normalize_customer_id_impl("123-456-7890").is_err());
    assert!(normalize_customer_id_impl(" ").is_err());
    assert!(normalize_customer_id_impl("abc").is_err());
}

#[test]
fn customer_id_is_trimmed_and_error_text_exact() {
    assert_eq!(normalize_customer_id_impl("  987 \t").unwrap(), "987");
    assert_eq!(
        normalize_customer_id_impl("").unwrap_err(),
        "customer ID must be digits only (no hyphens), e.g. 1234567890"
    );
    assert_eq!(parse_customer_id_arg(" 42 ").unwrap(), "42");
    assert!(parse_customer_id_arg("4 2").is_err());
}

#[test]
fn normalize_reports_field_and_raw_value() {
    assert_eq!(normalize_customer_id(" 123 ", "customer_id").unwrap(), "123");
    let err = normalize_customer_id("12-3", "login_customer_id").unwrap_err();
    assert!(matches!(
        &err,
        GoogleAdsError::InvalidCustomerId { field: "login_customer_id", value } if value == "12-3"
    ));
    assert_eq!(
        err.to_string(),
        "invalid customer id for login_customer_id: 12-3 (expected digits only, no hyphens)"
    );
}
