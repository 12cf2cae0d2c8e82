use gads::profile::{
    join_path, load_customer_id, load_developer_token, load_login_customer_id, profile_path,
    save_customer_id, save_developer_token, save_login_customer_id, Profile,
};

#[test]
fn saved_values_load_back() {
    let mut p = Profile::new();
    assert_eq!(load_customer_id(&p), None);
    save_customer_id(&mut p, "123");
    save_developer_token(&mut p, "tok");
    save_login_customer_id(&mut p, Some("456"));
    assert_eq!(load_customer_id(&p), Some("123".to_string()));
    assert_eq!(load_developer_token(&p), Some("tok".to_string()));
    assert_eq!(load_login_customer_id(&p), Some("456".to_string()));
    save_login_customer_id(&mut p, None);
    assert_eq!(load_login_customer_id(&p), None);
    assert_eq!(load_customer_id(&p), Some("123".to_string()));
}

#[test]
fn blank_values_load_as_unset() {
    let mut p = Profile::default();
    save_customer_id(&mut p, "  ");
    assert_eq!(load_customer_id(&p), None);
    assert_eq!(p.customer_id.as_deref(), Some("  "));
}

#[test]
fn profile_file_location() {
    assert_eq!(
        profile_path(Some(" /cfg "), Some("/xdg"), Some("/home/u")),
        Some("/cfg/profile.json".to_string())
    );
    assert_eq!(
        profile_path(Some(" "), Some("/xdg/"), Some("/home/u")),
        Some("/xdg/gads/profile.json".to_string())
    );
    assert_eq!(
        profile_path(None, None, Some("/home/u")),
        Some("/home/u/.config/gads/profile.json".to_string())
    );
    assert_eq!(profile_path(None, Some(""), None), None);
    assert_eq!(join_path("", "a"), "a");
    assert_eq!(join_path("/", "a"), "/a");
}
