use gads::cli::{
    check_query_skipped, customers_listing, detect_quota_project_source, doctor_failure,
    gcloud_login_args, login_query_wanted, DoctorAction, DoctorCheck, DoctorEvent,
    DoctorReport, DoctorRun, DoctorStatus,
};
use gads::client::{quota_project_in, resolve_quota_project_id, search_request_body};
use gads::commands::build_search_gaql;
use gads::error::{api_error_fields, summarize_parsed_error};
use gads::format::{format_value, resolve_path};
use gads::ids::normalize_customer_id_impl;
use gads::json::{JsonNumber, JsonValue};
use gads::server::server_instructions;

fn s(x: &str) -> JsonValue {
    JsonValue::String(x.to_string())
}

fn obj(members: Vec<(&str, JsonValue)>) -> JsonValue {
    JsonValue::Object(members.into_iter().map(|(k, v)| (k.to_string(), v)).collect())
}

#[test]
fn normalizing_twice_is_normalizing_once() {
    for raw in [" 123 ", "\t42\n", "7"] {
        let once = normalize_customer_id_impl(raw).unwrap();
        assert_eq!(normalize_customer_id_impl(&once).unwrap(), once);
    }
}

#[test]
fn resolving_a_dotted_path_step_by_step() {
    let row = obj(vec![(
        "a",
        obj(vec![("b", obj(vec![("c", JsonValue::Number(JsonNumber::PosInt(5)))]))]),
    )]);
    let whole = resolve_path(&row, "a.b.c");
    let stepwise = resolve_path(&resolve_path(&row, "a"), "b.c");
    assert_eq!(format_value(&whole), "5");
    assert_eq!(format_value(&stepwise), "5");
    let missing = resolve_path(&resolve_path(&row, "x"), "b");
    assert!(matches!(missing, JsonValue::Null));
    assert!(matches!(resolve_path(&row, "x.b"), JsonValue::Null));
}

#[test]
fn doctor_report_fails_when_a_check_fails() {
    let mut report = DoctorReport::new();
    report.record(
        "developer token",
        DoctorCheck { status: DoctorStatus::Pass, detail: "set (***)".to_string() },
    );
    report.record_quota_project(None);
    let (lines, ok) = report.finish();
    assert!(ok);
    assert_eq!(
        lines,
        vec![
            "gads doctor",
            "-----------",
            "[OK] developer token      set (***)",
            "[WARN] quota project        not found (ADC user creds may fail without this)",
            "",
            "Hint:",
            "  gcloud auth application-default set-quota-project <PROJECT_ID>",
            "  export GOOGLE_CLOUD_QUOTA_PROJECT=<PROJECT_ID>",
            "",
            "Result: OK"
        ]
    );

    let mut report = DoctorReport::new();
    report.record("auth/bootstrap", DoctorCheck { status: DoctorStatus::Fail, detail: "x".to_string() });
    report.record("query (with login)", check_query_skipped());
    report.record_quota_project(Some(("p".to_string(), "env:GOOGLE_CLOUD_PROJECT".to_string())));
    let (lines, ok) = report.finish();
    assert!(!ok);
    assert_eq!(lines[3], "[WARN] query (with login)   skipped (no accessible customers)");
    assert_eq!(lines.last().unwrap(), "Result: FAIL");
    assert_eq!(doctor_failure(), "doctor found blocking issues");
    assert!(login_query_wanted(Some(" 1 ")));
    assert!(!login_query_wanted(Some(" ")));
    assert!(!login_query_wanted(None));
}

#[test]
fn customers_listing_before_inspection() {
    assert_eq!(
        customers_listing(&[], false),
        Some(vec!["No accessible customers found.".to_string()])
    );
    assert_eq!(
        customers_listing(&["1".to_string(), "2".to_string()], true),
        Some(vec!["1".to_string(), "2".to_string()])
    );
    assert_eq!(customers_listing(&["1".to_string()], false), None);
}

#[test]
fn login_arguments_and_instructions() {
    assert_eq!(
        gcloud_login_args(),
        vec![
            "auth",
            "application-default",
            "login",
            "--scopes",
            "openid,https://www.googleapis.com/auth/userinfo.email,https://www.googleapis.com/auth/adwords"
        ]
    );
    assert_eq!(
        server_instructions(),
        "Google Ads MCP Server. Query Google Ads data using GAQL and list accessible customer accounts."
    );
}

#[test]
fn search_body_and_quota_project_of_parsed_file() {
    assert_eq!(format_value(&search_request_body("SELECT a FROM b")), r#"{"query":"SELECT a FROM b"}"#);
    assert_eq!(
        quota_project_in(&obj(vec![("quota_project_id", s(" p1 "))])),
        Some("p1".to_string())
    );
    assert_eq!(quota_project_in(&JsonValue::Null), None);
}

#[test]
fn search_gaql_from_given_upper_case_forms() {
    assert_eq!(
        build_search_gaql("select a from b", "SELECT A FROM B", "SELECT A FROM B", Some(3)).unwrap(),
        "select a from b LIMIT 3"
    );
    assert_eq!(
        build_search_gaql("select a from b", "select a from b", "select a from b", None).unwrap(),
        "SELECT a from b FROM select"
    );
}

#[test]
fn summaries_from_parsed_bodies() {
    assert_eq!(
        summarize_parsed_error(500, "  oops  ", Err("expected value".to_string())),
        "HTTP 500: oops"
    );
    let body = obj(vec![(
        "error",
        obj(vec![("message", s("m")), ("status", s("NOT_FOUND"))]),
    )]);
    assert_eq!(
        summarize_parsed_error(404, "ignored", Ok(body)),
        "HTTP 404 NOT_FOUND: m"
    );
    assert!(api_error_fields(&JsonValue::Array(vec![])).is_none());
    let fields = api_error_fields(&JsonValue::Array(vec![obj(vec![(
        "error",
        obj(vec![("status", s("X"))]),
    )])]))
    .unwrap();
    assert_eq!(fields.status.as_deref(), Some("X"));
    assert_eq!(fields.message, None);
}

#[test]
fn doctor_run_sequence_with_login() {
    let (mut run, action) = DoctorRun::start(Some("abcdefgh"), Some("123"), Ok(None), None);
    assert!(matches!(action, DoctorAction::MakeInspectClient));
    let action = run.step(DoctorEvent::Made(Ok(())));
    assert!(matches!(action, DoctorAction::ListCustomers));
    let action = run.step(DoctorEvent::Listed(Ok(vec!["9".to_string(), "8".to_string()])));
    assert!(matches!(&action, DoctorAction::Query { customer_id, with_login: false } if customer_id == "9"));
    let action = run.step(DoctorEvent::Queried(Err("HTTP 403".to_string())));
    assert!(matches!(action, DoctorAction::MakeLoginClient));
    let action = run.step(DoctorEvent::Made(Ok(())));
    assert!(matches!(&action, DoctorAction::Query { customer_id, with_login: true } if customer_id == "9"));
    let action = run.step(DoctorEvent::Queried(Ok(())));
    assert!(matches!(action, DoctorAction::Done));
    let (lines, ok) = run.finish();
    assert!(!ok);
    assert_eq!(
        lines,
        vec![
            "gads doctor",
            "-----------",
            "[OK] developer token      set (***efgh)",
            "[OK] login customer id    123",
            "[WARN] default customer     unset (`gads use <CUSTOMER_ID>` to save)",
            "[WARN] quota project        not found (ADC user creds may fail without this)",
            "[OK] auth/bootstrap       client init (no-login mode)",
            "[OK] accessible customers 2 found",
            "[FAIL] query (no-login)     HTTP 403",
            "[OK] query (with login)   customer 9",
            "",
            "Hint:",
            "  gcloud auth application-default set-quota-project <PROJECT_ID>",
            "  export GOOGLE_CLOUD_QUOTA_PROJECT=<PROJECT_ID>",
            "",
            "Result: FAIL"
        ]
    );
}

#[test]
fn doctor_run_skips_what_cannot_run() {
    let (mut run, _) = DoctorRun::start(
        Some("tok"),
        None,
        Ok(Some("1".to_string())),
        Some(("p".to_string(), "env:GOOGLE_CLOUD_PROJECT".to_string())),
    );
    let action = run.step(DoctorEvent::Made(Err("no credentials".to_string())));
    assert!(matches!(action, DoctorAction::Done));
    let (lines, ok) = run.finish();
    assert!(!ok);
    assert_eq!(lines[6], "[FAIL] auth/bootstrap       no credentials");
    assert_eq!(lines.len(), 9);

    let (mut run, _) = DoctorRun::start(Some("tok"), Some("5"), Ok(None), None);
    run.step(DoctorEvent::Made(Ok(())));
    let action = run.step(DoctorEvent::Listed(Ok(vec![])));
    assert!(matches!(action, DoctorAction::MakeLoginClient));
    let unexpected = run.step(DoctorEvent::Queried(Ok(())));
    assert!(matches!(unexpected, DoctorAction::MakeLoginClient));
    let action = run.step(DoctorEvent::Made(Ok(())));
    assert!(matches!(action, DoctorAction::Done));
    assert_eq!(
        run.report.lines.last().unwrap(),
        "[WARN] query (with login)   skipped (no accessible customers)"
    );
    assert!(!run.report.has_fail);
}

#[test]
fn doctor_and_requests_agree_on_the_quota_project() {
    let adc = Some("/k.json");
    let adc_quota = Some("from-file".to_string());
    let doctor = detect_quota_project_source(None, None, adc, adc_quota.clone(), None, None);
    let request = resolve_quota_project_id(None, None, adc_quota, None);
    assert_eq!(doctor.map(|(p, _)| p), request);
}
