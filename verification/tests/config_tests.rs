use augmcp::config::{apply_overrides, normalize_path, Config, Settings};

fn sample_config() -> Config {
    Config {
        settings: Settings::default(),
        root_dir: "/home/dev/.augmcp".to_string(),
        data_dir: "/home/dev/.augmcp/data".to_string(),
        settings_path: "/home/dev/.augmcp/settings.toml".to_string(),
    }
}

#[test]
fn defaults_match_the_documented_values() {
    let s = Settings::default();
    assert_eq!(s.batch_size, 10);
    assert_eq!(s.max_lines_per_blob, 800);
    assert_eq!(s.base_url, "https://api.example.com");
    assert_eq!(s.token, "your-token-here");
    assert_eq!(s.text_extensions.len(), 28);
    assert!(s.text_extensions.contains(&".rs".to_string()));
    assert!(s.text_extensions.contains(&".py".to_string()));
    assert_eq!(s.exclude_patterns.len(), 31);
    assert!(s.exclude_patterns.contains(&"node_modules".to_string()));
    assert!(s.exclude_patterns.contains(&"*.pyc".to_string()));
    assert_eq!(s.max_output_length, 0);
    assert!(!s.disable_codebase_retrieval);
    assert!(!s.enable_commit_retrieval);
}

#[test]
fn overrides_take_priority_when_given() {
    let mut s = Settings::default();
    apply_overrides(&mut s, Some("http://cli".to_string()), Some("CLI".to_string()));
    assert_eq!(s.base_url, "http://cli");
    assert_eq!(s.token, "CLI");
    assert_eq!(s.batch_size, 10, "unrelated settings stay");
}

#[test]
fn absent_overrides_keep_the_loaded_values() {
    let mut s = Settings::default();
    s.base_url = "http://env".to_string();
    s.token = "ENV".to_string();
    apply_overrides(&mut s, None, None);
    assert_eq!(s.base_url, "http://env");
    assert_eq!(s.token, "ENV");
    apply_overrides(&mut s, Some("http://cli".to_string()), None);
    assert_eq!(s.base_url, "http://cli");
    assert_eq!(s.token, "ENV");
}

#[test]
fn derived_file_locations() {
    let cfg = sample_config();
    assert_eq!(cfg.projects_file(), "/home/dev/.augmcp/data/projects.json");
    assert_eq!(cfg.log_dir(), "/home/dev/.augmcp/log");
    assert_eq!(cfg.aliases_file(), "/home/dev/.augmcp/aliases.json");
}

#[test]
fn text_extensions_set_copies_the_allow_list() {
    let cfg = sample_config();
    let set = cfg.text_extensions_set();
    assert_eq!(set, cfg.settings.text_extensions);
}

#[test]
fn normalize_path_resolves_and_uses_forward_slashes() {
    let root = normalize_path("/").unwrap();
    assert!(!root.contains('\\'));
    assert!(root.starts_with('/'));
    assert!(normalize_path("/this/path/does/not/exist/anywhere").is_err());
}
