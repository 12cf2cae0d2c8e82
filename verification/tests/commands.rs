use gads::cli::DeliveryStatus;
use gads::commands::{
    ad_group_resource_name, ad_groups_query, ad_resource_name, ads_query, apply_mutate_flags,
    campaign_resource_name, campaigns_query, check_mutate_payload, creatives_query,
    current_customer_message, customer_query, mutate_body_source, mutate_output,
    parse_mutate_payload, probe_query, query_output, saved_customer_message, search_gaql,
    status_update_payload, MutateBodySource,
};
use gads::format::format_value;
use gads::json::{JsonNumber, JsonValue};

fn s(x: &str) -> JsonValue {
    JsonValue::String(x.to_string())
}

fn keys(v: &JsonValue) -> Vec<String> {
    match v {
        JsonValue::Object(m) => m.iter().map(|(k, _)| k.clone()).collect(),
        _ => vec![],
    }
}

#[test]
fn search_raw_gaql_kept_and_limit_appended() {
    assert_eq!(
        search_gaql("SELECT campaign.id FROM campaign", Some(5)).unwrap(),
        "SELECT campaign.id FROM campaign LIMIT 5"
    );
    assert_eq!(
        search_gaql("  select campaign.id from campaign limit 3", Some(5)).unwrap(),
        "  select campaign.id from campaign limit 3"
    );
    assert_eq!(
        search_gaql("select campaign.id from campaign", None).unwrap(),
        "select campaign.id from campaign"
    );
}

#[test]
fn search_shorthand_builds_query() {
    assert_eq!(
        search_gaql("campaign campaign.id, campaign.name", Some(10)).unwrap(),
        "SELECT campaign.id, campaign.name FROM campaign LIMIT 10"
    );
    assert_eq!(
        search_gaql("campaign", None).unwrap(),
        "SELECT campaign.resource_name FROM campaign"
    );
    let err = search_gaql("", None).unwrap_err();
    assert_eq!(err.to_string(), "query build error: resource is required");
    let err = search_gaql(" campaign.id", None).unwrap_err();
    assert_eq!(err.to_string(), "query build error: resource is required");
}

#[test]
fn list_queries_end_with_limit() {
    assert_eq!(
        campaigns_query(100),
        "SELECT campaign.id, campaign.name, campaign.status, campaign.advertising_channel_type, campaign.start_date, campaign.end_date FROM campaign WHERE campaign.status != 'REMOVED' ORDER BY campaign.id DESC LIMIT 100"
    );
    assert!(ad_groups_query(200).ends_with("ORDER BY ad_group.id DESC LIMIT 200"));
    assert!(ads_query(7).starts_with("SELECT campaign.id, campaign.name, ad_group.id"));
    assert!(ads_query(7).ends_with("FROM ad_group_ad WHERE ad_group_ad.status != 'REMOVED' ORDER BY ad_group_ad.ad.id DESC LIMIT 7"));
    assert!(creatives_query(0).contains("ad_group_ad.ad.responsive_search_ad.headlines"));
    assert!(creatives_query(0).ends_with("LIMIT 0"));
    assert_eq!(
        customer_query(),
        "SELECT customer.id, customer.descriptive_name, customer.manager FROM customer LIMIT 1"
    );
    assert_eq!(probe_query(), "SELECT customer.id FROM customer LIMIT 1");
}

#[test]
fn resource_names() {
    assert_eq!(campaign_resource_name("123", "45"), "customers/123/campaigns/45");
    assert_eq!(ad_group_resource_name("123", "67"), "customers/123/adGroups/67");
    assert_eq!(ad_resource_name("123", "67", "89"), "customers/123/adGroupAds/67~89");
}

#[test]
fn status_payload_shape() {
    let p = status_update_payload("customers/1/campaigns/2", DeliveryStatus::Paused, true);
    assert_eq!(
        format_value(&p),
        r#"{"operations":[{"update":{"resourceName":"customers/1/campaigns/2","status":"PAUSED"},"updateMask":"status"}],"validateOnly":true}"#
    );
    let p = status_update_payload("r", DeliveryStatus::Enabled, false);
    assert!(format_value(&p).contains(r#""status":"ENABLED""#));
    assert!(format_value(&p).ends_with(r#""validateOnly":false}"#));
}

#[test]
fn mutate_body_source_needs_exactly_one() {
    assert!(matches!(
        mutate_body_source(Some("{}".to_string()), None),
        Ok(MutateBodySource::Inline(b)) if b == "{}"
    ));
    assert!(matches!(
        mutate_body_source(None, Some("body.json".to_string())),
        Ok(MutateBodySource::File(p)) if p == "body.json"
    ));
    let msg = "either --body or --body-file must be provided (and not both)";
    assert!(matches!(mutate_body_source(None, None), Err(m) if m == msg));
    assert!(matches!(
        mutate_body_source(Some("{}".to_string()), Some("f".to_string())),
        Err(m) if m == msg
    ));
}

#[test]
fn mutate_payload_must_be_an_object() {
    let v = parse_mutate_payload(r#"{"operations":[]}"#).unwrap();
    assert_eq!(keys(&v), vec!["operations".to_string()]);
    assert_eq!(
        parse_mutate_payload("[1,2]").unwrap_err(),
        "mutate body must be a JSON object"
    );
    let err = parse_mutate_payload("{oops").unwrap_err();
    assert!(err.starts_with("invalid JSON mutate body: "));
    assert!(err.len() > "invalid JSON mutate body: ".len());
}

#[test]
fn check_mutate_payload_cases() {
    assert!(check_mutate_payload(Ok(JsonValue::Object(vec![]))).is_ok());
    assert_eq!(
        check_mutate_payload(Ok(JsonValue::Null)).unwrap_err(),
        "mutate body must be a JSON object"
    );
    assert_eq!(
        check_mutate_payload(Err("EOF while parsing".to_string())).unwrap_err(),
        "invalid JSON mutate body: EOF while parsing"
    );
}

#[test]
fn mutate_flags_are_inserted_in_key_order() {
    let body = JsonValue::Object(vec![
        ("operations".to_string(), JsonValue::Array(vec![])),
        ("validateOnly".to_string(), JsonValue::Bool(false)),
    ]);
    let v = apply_mutate_flags(body, true, true).unwrap();
    assert_eq!(
        format_value(&v),
        r#"{"operations":[],"partialFailure":true,"validateOnly":true}"#
    );
    let v = apply_mutate_flags(JsonValue::Object(vec![]), false, false).unwrap();
    assert_eq!(format_value(&v), "{}");
    assert_eq!(
        apply_mutate_flags(s("x"), true, false).unwrap_err(),
        "mutate body must be a JSON object"
    );
}

#[test]
fn query_output_empty_and_rows() {
    assert_eq!(query_output(vec![]), "[]");
    let rows = vec![JsonValue::Object(vec![(
        "campaign.id".to_string(),
        JsonValue::Number(JsonNumber::PosInt(1)),
    )])];
    assert_eq!(query_output(rows), "[\n  {\n    \"campaign.id\": 1\n  }\n]");
    assert_eq!(mutate_output(&s("ok")), "\"ok\"");
}

#[test]
fn use_messages() {
    assert_eq!(
        saved_customer_message("123", "/home/u/.config/gads/profile.json"),
        "Saved default customer ID: 123 (/home/u/.config/gads/profile.json)"
    );
    assert_eq!(current_customer_message(Some("123")), "123");
    assert_eq!(
        current_customer_message(None),
        "No default customer ID. Run `gads use <CUSTOMER_ID>` first."
    );
}
