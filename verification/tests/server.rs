use gads::server::{
    accessible_customers_text, prepare_search, search_description, search_result_text,
    SearchParams,
};
use gads::error::GoogleAdsError;
use gads::json::JsonValue;

fn params(customer_id: &str, fields: &[&str], resource: &str) -> SearchParams {
    SearchParams {
        customer_id: customer_id.to_string(),
        fields: fields.iter().map(|f| f.to_string()).collect(),
        resource: resource.to_string(),
        conditions: None,
        orderings: None,
        limit: None,
    }
}

#[test]
fn search_tool_builds_query_then_checks_customer() {
    let mut p = params(" 123 ", &["campaign.id"], "campaign");
    p.conditions = Some(vec!["campaign.status = 'ENABLED'".to_string()]);
    p.limit = Some(5);
    let (q, id) = prepare_search(&p).unwrap();
    assert_eq!(
        q,
        "SELECT campaign.id FROM campaign WHERE campaign.status = 'ENABLED' LIMIT 5"
    );
    assert_eq!(id, "123");
    let err = prepare_search(&params("12-3", &[], "campaign")).unwrap_err();
    assert_eq!(err.to_string(), "query build error: at least one field is required");
    let err = prepare_search(&params("12-3", &["campaign.id"], "campaign")).unwrap_err();
    assert!(matches!(err, GoogleAdsError::InvalidCustomerId { field: "customer_id", .. }));
}

#[test]
fn search_tool_answer_text() {
    let response = JsonValue::Array(vec![JsonValue::Object(vec![
        ("fieldMask".to_string(), JsonValue::String("campaign.id".to_string())),
        (
            "results".to_string(),
            JsonValue::Array(vec![JsonValue::Object(vec![(
                "campaign".to_string(),
                JsonValue::Object(vec![("id".to_string(), JsonValue::String("9".to_string()))]),
            )])]),
        ),
    ])]);
    assert_eq!(search_result_text(&response).unwrap(), "campaign.id: 9");
    let err = search_result_text(&JsonValue::Null).unwrap_err();
    assert_eq!(err.to_string(), "invalid response: searchStream response is not an array");
}

#[test]
fn accessible_customers_answer_text() {
    assert_eq!(accessible_customers_text(&[]), "No accessible customers found.");
    assert_eq!(
        accessible_customers_text(&["1".to_string(), "2".to_string()]),
        "1\n2"
    );
}

#[test]
fn search_tool_description() {
    let d = search_description("RESOURCES");
    assert!(d.starts_with("Fetches data from the Google Ads API using GAQL"));
    assert!(d.ends_with("prefixed with the resource being searched.\nRESOURCES"));
}
