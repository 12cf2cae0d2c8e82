use gads::cli::{
    check_accessible_customers, check_bootstrap, check_default_customer, check_developer_token,
    check_login_customer_id, check_query, check_quota_project, customer_table_lines,
    customer_tree_lines, default_adc_path, detect_quota_project_source, doctor_end, doctor_line,
    fetch_customer_relations, inspect_customer, login_customer_id_override, marker_suffix,
    mask_secret, normalized_env_customer_id, parse_mutate_service_arg, parse_resource_id_arg,
    render_name, resolve_customer_id, role_label, sort_summaries, suggested_next_step,
    value_as_string, CustomerSummary, DeliveryStatus, DoctorStatus,
};
use gads::json::{JsonNumber, JsonValue};

fn s(x: &str) -> JsonValue {
    JsonValue::String(x.to_string())
}

fn obj(members: Vec<(&str, JsonValue)>) -> JsonValue {
    JsonValue::Object(members.into_iter().map(|(k, v)| (k.to_string(), v)).collect())
}

fn summary(id: &str, name: Option<&str>, is_manager: Option<bool>) -> CustomerSummary {
    CustomerSummary {
        id: id.to_string(),
        name: name.map(|n| n.to_string()),
        is_manager,
    }
}

fn response(mask: &str, rows: Vec<JsonValue>) -> JsonValue {
    JsonValue::Array(vec![obj(vec![
        ("fieldMask", s(mask)),
        ("results", JsonValue::Array(rows)),
    ])])
}

#[test]
fn status_names() {
    assert_eq!(DeliveryStatus::Enabled.as_api_status(), "ENABLED");
    assert_eq!(DeliveryStatus::Paused.as_api_status(), "PAUSED");
    assert_eq!(DoctorStatus::Pass.as_str(), "OK");
    assert_eq!(DoctorStatus::Warn.as_str(), "WARN");
    assert_eq!(DoctorStatus::Fail.as_str(), "FAIL");
    assert_eq!(role_label(Some(true)), "MCC");
    assert_eq!(role_label(Some(false)), "ACCOUNT");
    assert_eq!(role_label(None), "UNKNOWN");
}

#[test]
fn names_and_markers() {
    assert_eq!(render_name(Some("Acme")), " (Acme)");
    assert_eq!(render_name(Some("  ")), "");
    assert_eq!(render_name(None), "");
    assert_eq!(marker_suffix("1", Some("1"), Some("1")), " [LOGIN,DEFAULT]");
    assert_eq!(marker_suffix("1", None, Some("1")), " [DEFAULT]");
    assert_eq!(marker_suffix("1", Some("1"), Some("2")), " [LOGIN]");
    assert_eq!(marker_suffix("1", Some("2"), None), "");
}

#[test]
fn secrets_are_masked() {
    assert_eq!(mask_secret("abcdef"), "***");
    assert_eq!(mask_secret("abcdefg"), "***defg");
    assert_eq!(mask_secret(""), "***");
}

#[test]
fn target_resolution() {
    assert_eq!(login_customer_id_override(true, Some("1".to_string())), Some(None));
    assert_eq!(
        login_customer_id_override(false, Some("1".to_string())),
        Some(Some("1".to_string()))
    );
    assert_eq!(login_customer_id_override(false, None), None);
    assert_eq!(
        resolve_customer_id(Some("1".to_string()), Some("2".to_string())).unwrap(),
        "1"
    );
    assert_eq!(resolve_customer_id(None, Some("2".to_string())).unwrap(), "2");
    assert_eq!(
        resolve_customer_id(None, None).unwrap_err(),
        "customer ID is required. Pass --customer-id or run `gads use <CUSTOMER_ID>`."
    );
}

#[test]
fn argument_parsers() {
    assert_eq!(parse_resource_id_arg(" 42 ").unwrap(), "42");
    assert_eq!(
        parse_resource_id_arg("4-2").unwrap_err(),
        "must be digits only (no hyphens), e.g. 1234567890"
    );
    assert!(parse_resource_id_arg("").is_err());
    assert_eq!(parse_mutate_service_arg(" adGroupAds ").unwrap(), "adGroupAds");
    assert_eq!(parse_mutate_service_arg("  ").unwrap_err(), "service must not be empty");
    assert_eq!(
        parse_mutate_service_arg("1campaigns").unwrap_err(),
        "service must be an API service name like campaigns, adGroups, adGroupAds"
    );
    assert!(parse_mutate_service_arg("ad_groups").is_err());
}

#[test]
fn values_as_text() {
    assert_eq!(value_as_string(Some(&s("x"))), Some("x".to_string()));
    assert_eq!(
        value_as_string(Some(&JsonValue::Number(JsonNumber::NegInt(-3)))),
        Some("-3".to_string())
    );
    assert_eq!(
        value_as_string(Some(&JsonValue::Number(JsonNumber::PosInt(u64::MAX)))),
        Some("18446744073709551615".to_string())
    );
    assert_eq!(value_as_string(Some(&JsonValue::Bool(true))), None);
    assert_eq!(value_as_string(None), None);
    assert_eq!(normalized_env_customer_id(Some(" 12 ")), Some("12".to_string()));
    assert_eq!(normalized_env_customer_id(Some("1-2")), None);
    assert_eq!(normalized_env_customer_id(None), None);
}

#[test]
fn summaries_sorted_by_id_stably() {
    let sorted = sort_summaries(vec![
        summary("3", Some("c"), None),
        summary("1", Some("a"), None),
        summary("3", Some("d"), None),
        summary("10", None, None),
    ]);
    let got: Vec<(String, Option<String>)> =
        sorted.into_iter().map(|c| (c.id, c.name)).collect();
    assert_eq!(
        got,
        vec![
            ("1".to_string(), Some("a".to_string())),
            ("10".to_string(), None),
            ("3".to_string(), Some("c".to_string())),
            ("3".to_string(), Some("d".to_string())),
        ]
    );
}

#[test]
fn inspect_customer_reads_first_row() {
    let r = response(
        "customer.id,customer.descriptiveName,customer.manager",
        vec![obj(vec![(
            "customer",
            obj(vec![
                ("descriptiveName", s("Acme")),
                ("id", JsonValue::Number(JsonNumber::PosInt(123))),
                ("manager", JsonValue::Bool(true)),
            ]),
        )])],
    );
    let c = inspect_customer("999", Some(&r));
    assert_eq!(c.id, "123");
    assert_eq!(c.name.as_deref(), Some("Acme"));
    assert_eq!(c.is_manager, Some(true));

    let c = inspect_customer("999", None);
    assert_eq!((c.id.as_str(), c.name, c.is_manager), ("999", None, None));
    let c = inspect_customer("999", Some(&response("customer.id", vec![])));
    assert_eq!((c.id.as_str(), c.name, c.is_manager), ("999", None, None));
    let blank = response(
        "customer.descriptiveName",
        vec![obj(vec![("customer", obj(vec![("descriptiveName", s("  "))]))])],
    );
    let c = inspect_customer("5", Some(&blank));
    assert_eq!((c.id.as_str(), c.name, c.is_manager), ("5", None, None));
}

#[test]
fn relations_keep_level_one_children() {
    let row = |level: u64, id: Option<&str>, rn: &str, name: &str, manager: bool| {
        let mut cc = vec![
            ("clientCustomer", s(rn)),
            ("descriptiveName", s(name)),
            ("level", JsonValue::Number(JsonNumber::PosInt(level))),
            ("manager", JsonValue::Bool(manager)),
        ];
        if let Some(id) = id {
            cc.push(("id", s(id)));
        }
        obj(vec![("customerClient", obj(cc))])
    };
    let r = response(
        "customerClient.level,customerClient.id,customerClient.clientCustomer,customerClient.descriptiveName,customerClient.manager",
        vec![
            row(0, Some("1"), "customers/1", "Self", true),
            row(1, Some("2"), "customers/2", "Child", false),
            row(1, None, "customers/3", "", true),
        ],
    );
    let rel = fetch_customer_relations(Some(&r));
    assert_eq!(rel.len(), 2);
    assert_eq!(rel[0].child.id, "2");
    assert_eq!(rel[0].child.name.as_deref(), Some("Child"));
    assert_eq!(rel[0].child.is_manager, Some(false));
    assert_eq!(rel[1].child.id, "3");
    assert_eq!(rel[1].child.name, None);
    assert_eq!(rel[1].child.is_manager, Some(true));
    assert!(fetch_customer_relations(None).is_empty());
}

#[test]
fn next_step_advice() {
    let lines = suggested_next_step(&[
        summary("1", None, Some(true)),
        summary("2", None, Some(false)),
    ]);
    assert_eq!(
        lines,
        vec![
            "",
            "Suggested next step:",
            "  export GOOGLE_ADS_LOGIN_CUSTOMER_ID=1",
            "  gads use 2"
        ]
    );
    let lines = suggested_next_step(&[summary("1", None, None)]);
    assert_eq!(lines, vec!["", "Could not classify MCC vs account for any customer."]);
    let lines = suggested_next_step(&[
        summary("1", None, Some(true)),
        summary("2", None, Some(true)),
    ]);
    assert_eq!(
        lines,
        vec![
            "",
            "Suggested next step:",
            "  Multiple MCCs found. Pick one and set:",
            "  export GOOGLE_ADS_LOGIN_CUSTOMER_ID=<MCC_ID>"
        ]
    );
    let lines = suggested_next_step(&[
        summary("2", None, Some(false)),
        summary("3", None, Some(false)),
    ]);
    assert_eq!(
        lines,
        vec![
            "",
            "Suggested next step:",
            "  No MCC detected. Use direct account mode:",
            "  unset GOOGLE_ADS_LOGIN_CUSTOMER_ID",
            "  Then pick one account ID and run: gads use <ACCOUNT_ID>"
        ]
    );
}

#[test]
fn table_of_customers() {
    let lines = customer_table_lines(&[
        summary("1", Some("Acme"), Some(true)),
        summary("2", None, None),
    ]);
    assert_eq!(
        lines,
        vec![
            "Accessible customers:",
            "ID\tROLE\tNAME",
            "1\tMCC\tAcme",
            "2\tUNKNOWN\t-"
        ]
    );
}

#[test]
fn tree_of_customers() {
    let summaries = vec![
        summary("1", Some("Mgr"), Some(true)),
        summary("2", None, Some(false)),
        summary("4", Some("Solo"), Some(false)),
        summary("5", None, Some(true)),
    ];
    let relations = vec![
        (
            "1".to_string(),
            vec![summary("3", None, Some(false)), summary("2", Some("Kid"), Some(false))],
        ),
        ("5".to_string(), vec![]),
    ];
    let lines = customer_tree_lines(&summaries, &relations, Some("1"), Some("2"));
    assert_eq!(
        lines,
        vec![
            "Accessible customers (tree):",
            "MCC 1 (Mgr) [LOGIN]",
            "  - ACCOUNT 2 (Kid) [DEFAULT]",
            "  - ACCOUNT 3",
            "MCC 5",
            "  - (no visible child accounts)",
            "",
            "Directly accessible accounts:",
            "- ACCOUNT 4 (Solo)"
        ]
    );
}

#[test]
fn doctor_lines_are_padded() {
    assert_eq!(
        doctor_line(DoctorStatus::Pass, "developer token", "set (***1234)"),
        "[OK] developer token      set (***1234)"
    );
    assert_eq!(
        doctor_line(DoctorStatus::Fail, "a name longer than twenty", "x"),
        "[FAIL] a name longer than twenty x"
    );
}

#[test]
fn doctor_checks() {
    let c = check_developer_token(Some("  secret-token  "));
    assert_eq!((c.status, c.detail.as_str()), (DoctorStatus::Pass, "set (***oken)"));
    let c = check_developer_token(Some(" "));
    assert_eq!(
        (c.status, c.detail.as_str()),
        (DoctorStatus::Fail, "missing GOOGLE_ADS_DEVELOPER_TOKEN")
    );
    let c = check_login_customer_id(None);
    assert_eq!(
        (c.status, c.detail.as_str()),
        (DoctorStatus::Warn, "unset (direct-account mode only)")
    );
    let c = check_login_customer_id(Some(""));
    assert_eq!((c.status, c.detail.as_str()), (DoctorStatus::Warn, "set but empty (ignored)"));
    let c = check_login_customer_id(Some(" 123 "));
    assert_eq!((c.status, c.detail.as_str()), (DoctorStatus::Pass, "123"));
    let c = check_login_customer_id(Some("1-2"));
    assert_eq!(
        (c.status, c.detail.as_str()),
        (
            DoctorStatus::Fail,
            "invalid customer id for GOOGLE_ADS_LOGIN_CUSTOMER_ID: 1-2 (expected digits only, no hyphens)"
        )
    );
    let c = check_default_customer(Ok(Some("7".to_string())));
    assert_eq!((c.status, c.detail.as_str()), (DoctorStatus::Pass, "7 (from gads use)"));
    let c = check_default_customer(Ok(None));
    assert_eq!(
        (c.status, c.detail.as_str()),
        (DoctorStatus::Warn, "unset (`gads use <CUSTOMER_ID>` to save)")
    );
    let c = check_default_customer(Err("bad json".to_string()));
    assert_eq!(
        (c.status, c.detail.as_str()),
        (DoctorStatus::Warn, "failed to read profile: bad json")
    );
    let c = check_quota_project(Some(("p".to_string(), "env:GOOGLE_CLOUD_PROJECT".to_string())));
    assert_eq!((c.status, c.detail.as_str()), (DoctorStatus::Pass, "p (env:GOOGLE_CLOUD_PROJECT)"));
    let c = check_quota_project(None);
    assert_eq!(
        (c.status, c.detail.as_str()),
        (DoctorStatus::Warn, "not found (ADC user creds may fail without this)")
    );
    let c = check_bootstrap(Ok(()));
    assert_eq!((c.status, c.detail.as_str()), (DoctorStatus::Pass, "client init (no-login mode)"));
    let c = check_bootstrap(Err("no creds".to_string()));
    assert_eq!((c.status, c.detail.as_str()), (DoctorStatus::Fail, "no creds"));
    let c = check_accessible_customers(Ok(0));
    assert_eq!((c.status, c.detail.as_str()), (DoctorStatus::Warn, "0 found"));
    let c = check_accessible_customers(Ok(12));
    assert_eq!((c.status, c.detail.as_str()), (DoctorStatus::Pass, "12 found"));
    let c = check_query("42", Ok(()));
    assert_eq!((c.status, c.detail.as_str()), (DoctorStatus::Pass, "customer 42"));
    let c = check_query("42", Err("HTTP 403".to_string()));
    assert_eq!((c.status, c.detail.as_str()), (DoctorStatus::Fail, "HTTP 403"));
}

#[test]
fn doctor_closing_lines() {
    assert_eq!(doctor_end(false, false), vec!["", "Result: OK"]);
    assert_eq!(
        doctor_end(true, true),
        vec![
            "",
            "Hint:",
            "  gcloud auth application-default set-quota-project <PROJECT_ID>",
            "  export GOOGLE_CLOUD_QUOTA_PROJECT=<PROJECT_ID>",
            "",
            "Result: FAIL"
        ]
    );
}

#[test]
fn quota_project_sources() {
    assert_eq!(
        default_adc_path("/home/u"),
        "/home/u/.config/gcloud/application_default_credentials.json"
    );
    assert_eq!(
        detect_quota_project_source(Some(" q "), Some("p"), None, None, None, None),
        Some(("q".to_string(), "env:GOOGLE_CLOUD_QUOTA_PROJECT".to_string()))
    );
    assert_eq!(
        detect_quota_project_source(Some(""), Some("p"), None, None, None, None),
        Some(("p".to_string(), "env:GOOGLE_CLOUD_PROJECT".to_string()))
    );
    assert_eq!(
        detect_quota_project_source(None, None, Some(" /k.json "), Some("a".to_string()), None, None),
        Some(("a".to_string(), "adc:/k.json".to_string()))
    );
    assert_eq!(
        detect_quota_project_source(
            None,
            None,
            Some("/k.json"),
            None,
            Some("/h/d.json".to_string()),
            Some("d".to_string())
        ),
        Some(("d".to_string(), "adc:/h/d.json".to_string()))
    );
    assert_eq!(detect_quota_project_source(None, None, None, None, None, None), None);
}
