use mf::file_ops::{backup_path, register_temp_file, temp_path_for, unregister_temp_file, validate_path, TempRegistry};
use mf::error::MfError;

#[test]
fn test_validate_path_rejection() {
    assert!(validate_path("normal.txt").is_ok());
    assert!(validate_path("dir/file.txt").is_ok());
    assert!(validate_path("/absolute/path").is_ok());

    assert!(validate_path("../escape.txt").is_err());
    assert!(validate_path("dir/../../bad.txt").is_err());
    assert!(validate_path("..").is_err());
}

#[test]
fn test_temp_file_registration() {
    let mut registry = TempRegistry::new();
    let p = "test_tmp_123.tmp".to_string();
    register_temp_file(&mut registry, p.clone());
    assert!(registry.contains(&p));
    unregister_temp_file(&mut registry, &p);
    assert!(!registry.contains(&p));
}

#[test]
fn test_cleanup_temp_files() {
    let mut registry = TempRegistry::new();
    register_temp_file(&mut registry, "cleanup_test_1.tmp".to_string());
    register_temp_file(&mut registry, "cleanup_test_2.tmp".to_string());
    let drained = registry.drain();
    assert_eq!(drained, vec!["cleanup_test_1.tmp".to_string(), "cleanup_test_2.tmp".to_string()]);
    assert_eq!(registry.len(), 0);
}

#[test]
fn dotdot_message() {
    match validate_path("a/../b") {
        Err(MfError::InvalidArgument(m)) => assert_eq!(m, "Path 'a/../b' contains '..' which is not allowed"),
        _ => panic!("expected an invalid-argument error"),
    }
}

#[test]
fn backup_and_temp_names() {
    assert_eq!(backup_path("dir/a.txt"), "dir/a.txt.bak");
    assert_eq!(temp_path_for("dir/a.txt", 42), "dir/.mf_tmp_42");
    assert_eq!(temp_path_for("a.txt", 7), ".mf_tmp_7");
    assert_eq!(temp_path_for("/a.txt", 7), "/.mf_tmp_7");
}

#[test]
fn unregister_keeps_other_entries_in_order() {
    let mut registry = TempRegistry::new();
    register_temp_file(&mut registry, "a".to_string());
    register_temp_file(&mut registry, "b".to_string());
    register_temp_file(&mut registry, "a".to_string());
    register_temp_file(&mut registry, "c".to_string());
    unregister_temp_file(&mut registry, "a");
    assert_eq!(registry.drain(), vec!["b".to_string(), "c".to_string()]);
}
