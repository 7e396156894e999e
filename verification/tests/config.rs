use gnezdo::config::{
    default_chromium_path, default_max_consecutive_no_next, default_max_pages,
    default_profile_dir, default_result_dir, default_search_queries, load_config, Config,
    ConfigFile,
};

#[test]
fn defaults_are_the_documented_values() {
    assert_eq!(default_profile_dir(), "chromium/profile");
    assert_eq!(default_chromium_path(), "chromium/chrome.exe");
    assert_eq!(default_result_dir(), "result");
    assert_eq!(default_max_pages(), 10);
    assert_eq!(default_max_consecutive_no_next(), 2);
    assert_eq!(default_search_queries(), vec!["1".to_string(), "2".to_string(), "3".to_string()]);
}

#[test]
fn default_config_holds_every_default() {
    let config = Config::default();
    assert_eq!(config.profile_dir, "chromium/profile");
    assert_eq!(config.chromium_path, "chromium/chrome.exe");
    assert_eq!(config.result_dir, "result");
    assert_eq!(config.max_pages, 10);
    assert_eq!(config.max_consecutive_no_next, 2);
    assert_eq!(config.search_queries, vec!["1".to_string(), "2".to_string(), "3".to_string()]);
}

#[test]
fn missing_file_gives_the_defaults() {
    let config = load_config(None);
    assert_eq!(config.profile_dir, "chromium/profile");
    assert_eq!(config.max_pages, 10);
    assert_eq!(config.search_queries.len(), 3);
}

#[test]
fn file_settings_override_defaults_one_by_one() {
    let file = ConfigFile {
        profile_dir: None,
        chromium_path: Some("bin/chromium".to_string()),
        result_dir: None,
        max_pages: Some(3),
        max_consecutive_no_next: None,
        search_queries: Some(vec!["rust".to_string()]),
    };
    let config = load_config(Some(file));
    assert_eq!(config.profile_dir, "chromium/profile");
    assert_eq!(config.chromium_path, "bin/chromium");
    assert_eq!(config.result_dir, "result");
    assert_eq!(config.max_pages, 3);
    assert_eq!(config.max_consecutive_no_next, 2);
    assert_eq!(config.search_queries, vec!["rust".to_string()]);
}

#[test]
fn empty_file_gives_the_defaults() {
    let file = ConfigFile {
        profile_dir: None,
        chromium_path: None,
        result_dir: None,
        max_pages: None,
        max_consecutive_no_next: None,
        search_queries: None,
    };
    let config = Config::from_file(file);
    assert_eq!(config.result_dir, "result");
    assert_eq!(config.max_consecutive_no_next, 2);
    assert_eq!(config.search_queries, vec!["1".to_string(), "2".to_string(), "3".to_string()]);
}

#[test]
fn file_may_hold_no_query() {
    let file = ConfigFile {
        profile_dir: None,
        chromium_path: None,
        result_dir: None,
        max_pages: Some(0),
        max_consecutive_no_next: Some(0),
        search_queries: Some(Vec::new()),
    };
    let config = Config::from_file(file);
    assert_eq!(config.max_pages, 0);
    assert_eq!(config.max_consecutive_no_next, 0);
    assert!(config.search_queries.is_empty());
}
