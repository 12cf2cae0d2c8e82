use gads::format::{flatten_search_response, format_rows_as_text, format_value, resolve_path};
use gads::json::{JsonNumber, JsonValue};

fn s(x: &str) -> JsonValue {
    JsonValue::String(x.to_string())
}

fn obj(members: Vec<(&str, JsonValue)>) -> JsonValue {
    JsonValue::Object(members.into_iter().map(|(k, v)| (k.to_string(), v)).collect())
}

fn str_at<'a>(row: &'a JsonValue, key: &str) -> Option<&'a str> {
    row.get(key).and_then(|v| v.as_str())
}

#[test]
fn flatten_single_batch() {
    let response = JsonValue::Array(vec![obj(vec![
        ("fieldMask", s("campaign.id,campaign.name")),
        (
            "results",
            JsonValue::Array(vec![obj(vec![(
                "campaign",
                obj(vec![("id", s("123")), ("name", s("Test Campaign"))]),
            )])]),
        ),
    ])]);
    let rows = flatten_search_response(&response).unwrap();
    assert_eq!(rows.len(), 1);
    assert_eq!(str_at(&rows[0], "campaign.id"), Some("123"));
    assert_eq!(str_at(&rows[0], "campaign.name"), Some("Test Campaign"));
}

#[test]
fn flatten_multiple_batches() {
    let row = |id: &str| obj(vec![("campaign", obj(vec![("id", s(id))]))]);
    let response = JsonValue::Array(vec![
        obj(vec![
            ("fieldMask", s("campaign.id")),
            ("results", JsonValue::Array(vec![row("1")])),
        ]),
        obj(vec![
            ("fieldMask", s("campaign.id")),
            ("results", JsonValue::Array(vec![row("2"), row("3")])),
        ]),
    ]);
    let rows = flatten_search_response(&response).unwrap();
    assert_eq!(rows.len(), 3);
    assert_eq!(str_at(&rows[0], "campaign.id"), Some("1"));
    assert_eq!(str_at(&rows[1], "campaign.id"), Some("2"));
    assert_eq!(str_at(&rows[2], "campaign.id"), Some("3"));
}

#[test]
fn flatten_empty_results() {
    let response = JsonValue::Array(vec![obj(vec![
        ("fieldMask", s("campaign.id")),
        ("results", JsonValue::Array(vec![])),
    ])]);
    let rows = flatten_search_response(&response).unwrap();
    assert!(rows.is_empty());
}

#[test]
fn flatten_no_results_key() {
    let response = JsonValue::Array(vec![obj(vec![("fieldMask", s("campaign.id"))])]);
    let rows = flatten_search_response(&response).unwrap();
    assert!(rows.is_empty());
}

#[test]
fn not_array_error() {
    let response = obj(vec![("error", s("bad"))]);
    let err = flatten_search_response(&response).unwrap_err();
    assert!(err.to_string().contains("not an array"));
}

#[test]
fn resolve_nested_path() {
    let row = obj(vec![("campaign", obj(vec![("name", s("Hello"))]))]);
    assert_eq!(resolve_path(&row, "campaign.name").as_str(), Some("Hello"));
}

#[test]
fn resolve_missing_path() {
    let row = obj(vec![("campaign", obj(vec![("name", s("Hello"))]))]);
    assert!(matches!(resolve_path(&row, "campaign.missing"), JsonValue::Null));
}

#[test]
fn resolve_deeply_nested() {
    let row = obj(vec![(
        "ad_group",
        obj(vec![(
            "criterion",
            obj(vec![("keyword", obj(vec![("text", s("buy"))]))]),
        )]),
    )]);
    assert_eq!(
        resolve_path(&row, "ad_group.criterion.keyword.text").as_str(),
        Some("buy")
    );
}

#[test]
fn format_text_basic() {
    let rows = vec![
        obj(vec![("campaign.id", s("123")), ("campaign.name", s("Test"))]),
        obj(vec![("campaign.id", s("456")), ("campaign.name", s("Other"))]),
    ];
    let text = format_rows_as_text(&rows);
    assert!(text.contains("campaign.id: 123"));
    assert!(text.contains("campaign.name: Test"));
    assert!(text.contains("campaign.id: 456"));
    assert!(text.contains('\n'));
}

#[test]
fn format_text_empty() {
    let rows: Vec<JsonValue> = vec![];
    assert_eq!(format_rows_as_text(&rows), "No results found.");
}

#[test]
fn format_value_types() {
    assert_eq!(format_value(&s("hello")), "hello");
    assert_eq!(format_value(&JsonValue::Number(JsonNumber::PosInt(42))), "42");
    assert_eq!(format_value(&JsonValue::Bool(true)), "true");
    assert_eq!(format_value(&JsonValue::Null), "null");
    assert_eq!(
        format_value(&obj(vec![("a", JsonValue::Number(JsonNumber::PosInt(1)))])),
        r#"{"a":1}"#
    );
}

#[test]
fn format_text_exact_layout() {
    let rows = vec![
        obj(vec![
            ("a", JsonValue::Number(JsonNumber::NegInt(-5))),
            ("b", JsonValue::Bool(false)),
        ]),
        s("not an object"),
        obj(vec![("c", JsonValue::Null)]),
    ];
    assert_eq!(format_rows_as_text(&rows), "a: -5, b: false\n\nc: null");
}

#[test]
fn flatten_row_maps_every_path_and_missing_to_null() {
    let response = JsonValue::Array(vec![
        obj(vec![
            ("fieldMask", s("metrics.clicks,campaign.name")),
            (
                "results",
                JsonValue::Array(vec![obj(vec![(
                    "metrics",
                    obj(vec![("clicks", JsonValue::Number(JsonNumber::PosInt(7)))]),
                )])]),
            ),
        ]),
        obj(vec![
            ("fieldMask", s("")),
            ("results", JsonValue::Array(vec![obj(vec![])])),
        ]),
    ]);
    let rows = flatten_search_response(&response).unwrap();
    assert_eq!(rows.len(), 2);
    assert_eq!(format_rows_as_text(&rows), "campaign.name: null, metrics.clicks: 7\n");
    assert!(matches!(rows[0].get("campaign.name"), Some(JsonValue::Null)));
    assert!(matches!(&rows[1], JsonValue::Object(m) if m.is_empty()));
}

#[test]
fn format_value_of_array_and_float() {
    let v = JsonValue::Array(vec![
        JsonValue::Number(JsonNumber::Float("1.5".to_string())),
        s("x"),
        JsonValue::Null,
    ]);
    assert_eq!(format_value(&v), r#"[1.5,"x",null]"#);
    assert_eq!(format_value(&JsonValue::Number(JsonNumber::Float("2.25".to_string()))), "2.25");
}
