use gads::error::{hint_for_error, summarize_api_error, truncate, GoogleAdsError};

#[test]
fn summarizes_google_ads_failure_array_shape() {
    let body = r#"[{
      "error": {
        "code": 403,
        "message": "The caller does not have permission",
        "status": "PERMISSION_DENIED",
        "details": [{
          "@type": "type.googleapis.com/google.ads.googleads.v21.errors.GoogleAdsFailure",
          "errors": [{
            "errorCode": {
              "authorizationError": "USER_PERMISSION_DENIED"
            }
          }],
          "requestId": "abc-123"
        }]
      }
    }]"#;

    let summary = summarize_api_error(403, body);
    assert!(summary.contains("HTTP 403 PERMISSION_DENIED"));
    assert!(summary.contains("USER_PERMISSION_DENIED"));
    assert!(summary.contains("request_id=abc-123"));
}

#[test]
fn summarizes_quota_project_hint() {
    let body = r#"{
      "error": {
        "code": 403,
        "message": "The googleads.googleapis.com API requires a quota project, which is not set by default.",
        "status": "PERMISSION_DENIED",
        "details": []
      }
    }"#;

    let summary = summarize_api_error(403, body);
    assert!(summary.contains("quota project"));
    assert!(summary.contains("GOOGLE_CLOUD_QUOTA_PROJECT"));
}

#[test]
fn summary_of_unparsable_body_is_truncated() {
    let body = "x".repeat(400);
    let summary = summarize_api_error(500, &body);
    assert_eq!(summary, format!("HTTP 500: {}...", "x".repeat(320)));
    assert_eq!(summarize_api_error(502, "Bad Gateway"), "HTTP 502: Bad Gateway");
}

#[test]
fn summary_of_json_without_error_object_is_raw() {
    assert_eq!(summarize_api_error(404, "{\"a\":1}"), "HTTP 404: {\"a\":1}");
}

#[test]
fn truncate_counts_characters() {
    assert_eq!(truncate("  abc  ", 10), "abc");
    assert_eq!(truncate("abcdef", 3), "abc...");
    assert_eq!(truncate("ééé", 2), "éé...");
}

#[test]
fn hints_by_code_and_message() {
    assert!(hint_for_error(Some("INVALID_LOGIN_CUSTOMER_ID"), None).is_some());
    assert!(hint_for_error(None, Some("Requires A Quota Project")).is_some());
    assert!(hint_for_error(None, Some("something else")).is_none());
    assert!(hint_for_error(None, None).is_none());
}

#[test]
fn every_error_variant_displays_its_message() {
    assert_eq!(
        GoogleAdsError::Auth("no token".to_string()).to_string(),
        "authentication failed: no token"
    );
    assert_eq!(
        GoogleAdsError::Http("timeout".to_string()).to_string(),
        "HTTP request failed: timeout"
    );
    assert_eq!(
        GoogleAdsError::Api { status: 403, message: "denied".to_string() }.to_string(),
        "API error (status 403): denied"
    );
    assert_eq!(
        GoogleAdsError::MissingEnvVar("GOOGLE_ADS_DEVELOPER_TOKEN".to_string()).to_string(),
        "missing environment variable: GOOGLE_ADS_DEVELOPER_TOKEN"
    );
    assert_eq!(
        GoogleAdsError::InvalidResponse("bad".to_string()).to_string(),
        "invalid response: bad"
    );
    assert_eq!(
        GoogleAdsError::QueryBuild("resource is required".to_string()).to_string(),
        "query build error: resource is required"
    );
    assert_eq!(
        GoogleAdsError::InvalidArgument("service".to_string()).to_string(),
        "invalid argument: service"
    );
}

#[test]
fn api_error_carries_summary() {
    let err = GoogleAdsError::api(401, "unauthorized".to_string());
    assert_eq!(err.to_string(), "API error (status 401): HTTP 401: unauthorized");
}

#[test]
fn summary_lists_status_message_code_request_id_and_hint() {
    let body = r#"{"error":{"status":"PERMISSION_DENIED","message":"denied","details":[{"requestId":"r1"},{"errors":[{"errorCode":{"b":"USER_PERMISSION_DENIED","a":7}}],"requestId":"r2"}]}}"#;
    assert_eq!(
        summarize_api_error(403, body),
        "HTTP 403 PERMISSION_DENIED: denied [code=USER_PERMISSION_DENIED] [request_id=r1] Hint: If this is a direct account, unset login-customer-id. If it's an MCC path, use a linked manager account."
    );
}
