use gads::client::{
    list_accessible_customers_url, mutate_url, normalize_mutate_service,
    parse_accessible_customers, read_quota_project_id, resolve_developer_token,
    resolve_login_customer_id, resolve_quota_project_id, search_stream_url,
    strip_prefix_or_keep, ClientConfig,
};
use gads::error::GoogleAdsError;
use gads::json::JsonValue;

fn s(x: &str) -> JsonValue {
    JsonValue::String(x.to_string())
}

#[test]
fn mutate_service_names() {
    assert_eq!(normalize_mutate_service(" campaigns ").unwrap(), "campaigns");
    assert_eq!(
        normalize_mutate_service(" ").unwrap_err().to_string(),
        "invalid argument: mutate service must not be empty"
    );
    assert_eq!(
        normalize_mutate_service("ad-groups").unwrap_err().to_string(),
        "invalid argument: invalid mutate service 'ad-groups' (expected something like campaigns, adGroups, adGroupAds)"
    );
}

#[test]
fn developer_token_from_env_then_profile() {
    assert_eq!(resolve_developer_token(Some(" t "), Some("saved".to_string())).unwrap(), "t");
    assert_eq!(resolve_developer_token(Some(" "), Some("saved".to_string())).unwrap(), "saved");
    let err = resolve_developer_token(None, None).unwrap_err();
    assert_eq!(
        err.to_string(),
        "missing environment variable: GOOGLE_ADS_DEVELOPER_TOKEN (or set via `gads config set developer-token <TOKEN>`)"
    );
}

#[test]
fn login_customer_id_from_env_then_profile() {
    assert_eq!(resolve_login_customer_id(Some(" 12 "), None).unwrap(), Some("12".to_string()));
    assert_eq!(
        resolve_login_customer_id(Some(""), Some("34".to_string())).unwrap(),
        Some("34".to_string())
    );
    assert_eq!(resolve_login_customer_id(None, None).unwrap(), None);
    assert!(matches!(
        resolve_login_customer_id(Some("1-2"), None),
        Err(GoogleAdsError::InvalidCustomerId { .. })
    ));
    assert!(matches!(
        resolve_login_customer_id(None, Some("x".to_string())),
        Err(GoogleAdsError::InvalidCustomerId { .. })
    ));
}

#[test]
fn quota_project_from_credentials_text() {
    assert_eq!(
        read_quota_project_id(r#"{"quota_project_id": " my-proj ", "type": "authorized_user"}"#),
        Some("my-proj".to_string())
    );
    assert_eq!(read_quota_project_id(r#"{"quota_project_id": "  "}"#), None);
    assert_eq!(read_quota_project_id(r#"{"quota_project_id": 3}"#), None);
    assert_eq!(read_quota_project_id("not json"), None);
    assert_eq!(
        resolve_quota_project_id(None, Some(" p "), Some("a".to_string()), None),
        Some("p".to_string())
    );
    assert_eq!(
        resolve_quota_project_id(None, None, None, Some("d".to_string())),
        Some("d".to_string())
    );
}

#[test]
fn client_config_and_headers() {
    let c = ClientConfig::resolve(None, Some("tok"), None, Some("111"), None, Some("q".to_string()))
        .unwrap();
    let h = c.headers(true);
    assert_eq!(
        h,
        vec![
            ("developer-token".to_string(), "tok".to_string()),
            ("login-customer-id".to_string(), "111".to_string()),
            ("x-goog-user-project".to_string(), "q".to_string()),
        ]
    );
    assert_eq!(c.headers(false).len(), 2);
    let c = ClientConfig::resolve(Some(None), Some("tok"), None, Some("bad-id"), None, None).unwrap();
    assert_eq!(c.login_customer_id, None);
    assert!(ClientConfig::resolve(None, None, None, None, None, None).is_err());
    assert!(ClientConfig::resolve(None, Some("tok"), None, Some("bad-id"), None, None).is_err());
}

#[test]
fn request_urls() {
    assert_eq!(
        search_stream_url(" 123 ").unwrap(),
        "https://googleads.googleapis.com/v21/customers/123/googleAds:searchStream"
    );
    assert_eq!(
        search_stream_url("12-3").unwrap_err().to_string(),
        "invalid customer id for customer_id: 12-3 (expected digits only, no hyphens)"
    );
    assert_eq!(
        mutate_url("123", "campaigns").unwrap(),
        "https://googleads.googleapis.com/v21/customers/123/campaigns:mutate"
    );
    assert!(matches!(
        mutate_url("123", "bad service"),
        Err(GoogleAdsError::InvalidArgument(_))
    ));
    assert!(matches!(
        mutate_url("x", "campaigns"),
        Err(GoogleAdsError::InvalidCustomerId { .. })
    ));
    assert_eq!(
        list_accessible_customers_url(),
        "https://googleads.googleapis.com/v21/customers:listAccessibleCustomers"
    );
}

#[test]
fn accessible_customers_reply() {
    let reply = JsonValue::Object(vec![(
        "resourceNames".to_string(),
        JsonValue::Array(vec![s("customers/1"), JsonValue::Null, s("2")]),
    )]);
    assert_eq!(parse_accessible_customers(&reply).unwrap(), vec!["1", "2"]);
    let err = parse_accessible_customers(&JsonValue::Object(vec![])).unwrap_err();
    assert_eq!(err.to_string(), "invalid response: missing resourceNames array");
    assert_eq!(strip_prefix_or_keep("customers/9", "customers/"), "9");
    assert_eq!(strip_prefix_or_keep("cust", "customers/"), "cust");
}
