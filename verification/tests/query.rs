use gads::query::GaqlQuery;

#[test]
fn basic_select() {
    let fields: Vec<String> = vec!["campaign.id".into(), "campaign.name".into()];
    let q = GaqlQuery {
        fields: &fields,
        resource: "campaign",
        conditions: None,
        orderings: None,
        limit: None,
    };
    assert_eq!(
        q.build().unwrap(),
        "SELECT campaign.id, campaign.name FROM campaign"
    );
}

#[test]
fn with_conditions() {
    let fields: Vec<String> = vec!["campaign.id".into()];
    let conditions: Vec<String> = vec![
        "campaign.status = 'ENABLED'".into(),
        "metrics.clicks > 0".into(),
    ];
    let q = GaqlQuery {
        fields: &fields,
        resource: "campaign",
        conditions: Some(&conditions),
        orderings: None,
        limit: None,
    };
    assert_eq!(
        q.build().unwrap(),
        "SELECT campaign.id FROM campaign WHERE campaign.status = 'ENABLED' AND metrics.clicks > 0"
    );
}

#[test]
fn with_orderings() {
    let fields: Vec<String> = vec!["campaign.id".into(), "metrics.clicks".into()];
    let orderings: Vec<String> = vec!["metrics.clicks DESC".into()];
    let q = GaqlQuery {
        fields: &fields,
        resource: "campaign",
        conditions: None,
        orderings: Some(&orderings),
        limit: None,
    };
    assert_eq!(
        q.build().unwrap(),
        "SELECT campaign.id, metrics.clicks FROM campaign ORDER BY metrics.clicks DESC"
    );
}

#[test]
fn with_limit() {
    let fields: Vec<String> = vec!["campaign.id".into()];
    let q = GaqlQuery {
        fields: &fields,
        resource: "campaign",
        conditions: None,
        orderings: None,
        limit: Some(100),
    };
    assert_eq!(q.build().unwrap(), "SELECT campaign.id FROM campaign LIMIT 100");
}

#[test]
fn full_query() {
    let fields: Vec<String> = vec![
        "campaign.id".into(),
        "campaign.name".into(),
        "metrics.clicks".into(),
    ];
    let conditions: Vec<String> = vec!["campaign.status = 'ENABLED'".into()];
    let orderings: Vec<String> = vec!["metrics.clicks DESC".into()];
    let q = GaqlQuery {
        fields: &fields,
        resource: "campaign",
        conditions: Some(&conditions),
        orderings: Some(&orderings),
        limit: Some(50),
    };
    assert_eq!(
        q.build().unwrap(),
        "SELECT campaign.id, campaign.name, metrics.clicks FROM campaign WHERE campaign.status = 'ENABLED' ORDER BY metrics.clicks DESC LIMIT 50"
    );
}

#[test]
fn empty_fields_error() {
    let fields: Vec<String> = vec![];
    let q = GaqlQuery {
        fields: &fields,
        resource: "campaign",
        conditions: None,
        orderings: None,
        limit: None,
    };
    let err = q.build().unwrap_err();
    assert!(err.to_string().contains("at least one field"));
}

#[test]
fn empty_resource_error() {
    let fields: Vec<String> = vec!["campaign.id".into()];
    let q = GaqlQuery {
        fields: &fields,
        resource: "",
        conditions: None,
        orderings: None,
        limit: None,
    };
    let err = q.build().unwrap_err();
    assert!(err.to_string().contains("resource is required"));
}

#[test]
fn empty_conditions_ignored() {
    let fields: Vec<String> = vec!["campaign.id".into()];
    let conditions: Vec<String> = vec![];
    let q = GaqlQuery {
        fields: &fields,
        resource: "campaign",
        conditions: Some(&conditions),
        orderings: None,
        limit: None,
    };
    assert_eq!(q.build().unwrap(), "SELECT campaign.id FROM campaign");
}

#[test]
fn empty_orderings_ignored_and_limit_zero_kept() {
    let fields: Vec<String> = vec!["ad_group.id".into()];
    let orderings: Vec<String> = vec![];
    let q = GaqlQuery {
        fields: &fields,
        resource: "ad_group",
        conditions: None,
        orderings: Some(&orderings),
        limit: Some(0),
    };
    assert_eq!(q.build().unwrap(), "SELECT ad_group.id FROM ad_group LIMIT 0");
}

#[test]
fn empty_fields_checked_before_resource() {
    let fields: Vec<String> = vec![];
    let q = GaqlQuery {
        fields: &fields,
        resource: "",
        conditions: None,
        orderings: None,
        limit: None,
    };
    assert_eq!(
        q.build().unwrap_err().to_string(),
        "query build error: at least one field is required"
    );
}
