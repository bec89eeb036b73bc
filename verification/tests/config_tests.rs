use mf::config::{apply_partial, merge_configs, Config, PartialConfig};

#[test]
fn test_default_config() {
    let config = Config::default();
    assert_eq!(config.core.default_encoding, "utf8");
    assert!(config.core.confirm_overwrite);
    assert_eq!(config.core.clipboard_timeout_ms, 2000);
    assert_eq!(config.core.max_file_size_mb, 100);
    assert_eq!(config.encodings.bat, "gbk");
    assert_eq!(config.encodings.ps1, "utf8bom");
    assert!(config.matching.warn_on_mismatch);
    assert!(!config.matching.auto_correct_ext);
    assert_eq!(config.behaviour.default_on_conflict, "ask");
}

#[test]
fn test_merge_configs_overlay_overrides_base() {
    let base = Config::default();
    let mut overlay = Config::default();
    overlay.core.default_encoding = "utf16le".to_string();
    overlay.core.confirm_overwrite = false;
    overlay.encodings.bat = "utf8".to_string();
    overlay.encodings.custom.insert("a".to_string(), "1".to_string());
    overlay.encodings.custom.insert("b".to_string(), "2".to_string());
    let merged = merge_configs(base, overlay);

    assert_eq!(merged.core.default_encoding, "utf16le");
    assert!(!merged.core.confirm_overwrite);
    assert_eq!(merged.core.clipboard_timeout_ms, 2000);
    assert_eq!(merged.core.max_file_size_mb, 100);
    assert_eq!(merged.encodings.bat, "utf8");
    assert_eq!(merged.encodings.custom.len(), 2);
}

#[test]
fn test_merge_custom_encoding_maps() {
    let mut base = Config::default();
    base.encodings.custom.insert("a".to_string(), "1".to_string());
    base.encodings.custom.insert("b".to_string(), "2".to_string());
    let mut overlay = Config::default();
    overlay.encodings.custom.insert("b".to_string(), "overridden".to_string());
    overlay.encodings.custom.insert("c".to_string(), "3".to_string());
    let merged = merge_configs(base, overlay);

    assert_eq!(merged.encodings.custom.get("a").unwrap(), "1");
    assert_eq!(merged.encodings.custom.get("b").unwrap(), "overridden");
    assert_eq!(merged.encodings.custom.get("c").unwrap(), "3");
    assert_eq!(merged.encodings.custom.len(), 3);
}

#[test]
fn test_load_graceful_no_config_files() {
    let config = Config::load(PartialConfig::default(), PartialConfig::default());
    assert_eq!(config.core.default_encoding, "utf8");
}

#[test]
fn project_config_wins_over_user_config() {
    let mut user = PartialConfig::default();
    user.core.default_encoding = Some("gbk".to_string());
    user.core.max_file_size_mb = Some(5);
    user.encodings.custom.insert("x".to_string(), "gbk".to_string());
    user.encodings.custom.insert("y".to_string(), "gbk".to_string());
    let mut project = PartialConfig::default();
    project.core.default_encoding = Some("utf16le".to_string());
    project.encodings.custom.insert("y".to_string(), "utf8".to_string());
    let config = Config::load(user, project);
    assert_eq!(config.core.default_encoding, "utf16le");
    assert_eq!(config.core.max_file_size_mb, 5);
    assert_eq!(config.core.clipboard_timeout_ms, 2000);
    assert_eq!(config.encodings.custom.get("x").unwrap(), "gbk");
    assert_eq!(config.encodings.custom.get("y").unwrap(), "utf8");
}

#[test]
fn user_setting_survives_a_project_file_without_it() {
    let mut user = PartialConfig::default();
    user.core.max_file_size_mb = Some(7);
    user.matching.auto_correct_ext = Some(true);
    let mut project = PartialConfig::default();
    project.behaviour.default_on_conflict = Some("overwrite".to_string());
    let config = Config::load(user, project);
    assert_eq!(config.core.max_file_size_mb, 7);
    assert!(config.matching.auto_correct_ext);
    assert_eq!(config.behaviour.default_on_conflict, "overwrite");
    assert_eq!(config.behaviour.default_on_mismatch, "ask");
}

#[test]
fn user_config_alone_applies() {
    let mut user = PartialConfig::default();
    user.encodings.ps1 = Some("utf8".to_string());
    let config = Config::load(user, PartialConfig::default());
    assert_eq!(config.encodings.ps1, "utf8");
    assert_eq!(config.encodings.bat, "gbk");
}

#[test]
fn apply_partial_keeps_unset_settings() {
    let mut overlay = PartialConfig::default();
    overlay.encodings.bat = Some("utf8".to_string());
    let config = apply_partial(Config::default(), overlay);
    assert_eq!(config.encodings.bat, "utf8");
    assert_eq!(config.encodings.ps1, "utf8bom");
    assert_eq!(config.core.default_encoding, "utf8");
}
