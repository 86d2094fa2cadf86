use conventional_prs::Config;

#[test]
fn test_default_config() {
    let config = Config::default();
    assert_eq!(config.enabled, true);
    assert_eq!(config.title_only, false);
    assert_eq!(config.types.len(), 11);
    assert!(config.types.contains(&"feat".to_string()));
    assert!(config.scopes.is_none());
}
