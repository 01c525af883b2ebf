use codex_plus_core::manager_navigation::{same_navigation, validate, ManagerNavigationIntent};

#[test]
fn rejects_unknown_navigation_targets() {
    let error = validate(&ManagerNavigationIntent {
        page: "settings".to_string(),
        section: Some("unknown".to_string()),
    })
    .unwrap_err();
    assert!(error.message().contains("不支持的管理工具导航"));
}

#[test]
fn accepts_settings_and_its_stepwise_section() {
    assert!(validate(&ManagerNavigationIntent { page: "settings".to_string(), section: None }).is_ok());
    assert!(validate(&ManagerNavigationIntent {
        page: "settings".to_string(),
        section: Some("stepwise".to_string())
    })
    .is_ok());
    let error = validate(&ManagerNavigationIntent { page: "home".to_string(), section: None }).unwrap_err();
    assert_eq!(error.message(), "不支持的管理工具导航：home/");
}

#[test]
fn same_navigation_compares_page_and_section() {
    let a = ManagerNavigationIntent { page: "settings".to_string(), section: Some("stepwise".to_string()) };
    let b = ManagerNavigationIntent { page: "settings".to_string(), section: None };
    assert!(same_navigation(&a, &a.clone()));
    assert!(!same_navigation(&a, &b));
}
