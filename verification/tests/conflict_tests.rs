use mf::conflict::{
    conflict_options, conflict_prompt, needs_prompt, rename_candidate, resolve_conflict, resolve_rename,
    ConflictAction, ConflictMode, RenameStep,
};
use mf::error::MfError;

fn probe(step: RenameStep) -> (u64, String) {
    match step {
        RenameStep::Probe { index, candidate } => (index, candidate),
        RenameStep::UseTimestamp => panic!("expected a candidate"),
    }
}

#[test]
fn test_resolve_rename_basic() {
    let path = "dir/test.txt";
    let (_, renamed) = probe(resolve_rename(path, None));
    assert_ne!(renamed, path);
    assert!(renamed.contains("test_"));
    assert!(renamed.ends_with(".txt"));
}

#[test]
fn test_resolve_rename_increment() {
    let path = "dir/test.txt";
    let (i1, r1) = probe(resolve_rename(path, None));
    let (_, r2) = probe(resolve_rename(path, Some(i1)));
    assert_ne!(r1, r2);
}

#[test]
fn test_resolve_rename_no_ext() {
    let (_, renamed) = probe(resolve_rename("dir/Makefile", None));
    assert!(renamed.contains("Makefile_"));
}

#[test]
fn test_resolve_conflict_not_exists() {
    let r = resolve_conflict(false, ConflictMode::Interactive, false, None).unwrap();
    assert!(matches!(r.action, ConflictAction::Overwrite));
}

#[test]
fn test_resolve_conflict_no_clobber() {
    let r = resolve_conflict(true, ConflictMode::NoClobber, false, None).unwrap();
    assert!(matches!(r.action, ConflictAction::Skip));
}

#[test]
fn test_resolve_conflict_force() {
    let r = resolve_conflict(true, ConflictMode::Force, false, None).unwrap();
    assert!(matches!(r.action, ConflictAction::Overwrite));
    assert!(!r.backup_first);
}

#[test]
fn test_resolve_conflict_force_with_backup() {
    let r = resolve_conflict(true, ConflictMode::Force, true, None).unwrap();
    assert!(matches!(r.action, ConflictAction::Overwrite));
    assert!(r.backup_first);
}

#[test]
fn test_resolve_conflict_append_mode() {
    let r = resolve_conflict(true, ConflictMode::Append, false, None).unwrap();
    assert!(matches!(r.action, ConflictAction::Append));
}

#[test]
fn test_resolve_conflict_rename_mode() {
    let r = resolve_conflict(true, ConflictMode::Rename, false, None).unwrap();
    assert!(matches!(r.action, ConflictAction::Rename));
}

#[test]
fn interactive_choices() {
    assert!(needs_prompt(true, ConflictMode::Interactive));
    assert!(!needs_prompt(false, ConflictMode::Interactive));
    assert!(!needs_prompt(true, ConflictMode::Force));
    let r = resolve_conflict(true, ConflictMode::Interactive, true, Some(0)).unwrap();
    assert_eq!(r.action, ConflictAction::Overwrite);
    assert!(r.backup_first);
    let r = resolve_conflict(true, ConflictMode::Interactive, true, Some(1)).unwrap();
    assert_eq!(r.action, ConflictAction::Skip);
    assert!(!r.backup_first);
    let r = resolve_conflict(true, ConflictMode::Interactive, false, Some(2)).unwrap();
    assert_eq!(r.action, ConflictAction::Append);
    let r = resolve_conflict(true, ConflictMode::Interactive, false, Some(3)).unwrap();
    assert_eq!(r.action, ConflictAction::Rename);
    assert!(matches!(
        resolve_conflict(true, ConflictMode::Interactive, false, Some(4)),
        Err(MfError::UserCancelled)
    ));
    assert!(matches!(
        resolve_conflict(true, ConflictMode::Interactive, false, None),
        Err(MfError::UserCancelled)
    ));
}

#[test]
fn rename_candidates() {
    assert_eq!(rename_candidate("dir/test.txt", 7), "dir/test_7.txt");
    assert_eq!(rename_candidate("Makefile", 12), "Makefile_12");
    assert_eq!(rename_candidate("/a/b.tar.gz", 3), "/a/b.tar_3.gz");
    assert_eq!(rename_candidate("..", 1), "file_1");
}

#[test]
fn rename_search_ends_with_timestamp() {
    let (i, c) = probe(resolve_rename("x.md", Some(998)));
    assert_eq!(i, 999);
    assert_eq!(c, "x_999.md");
    assert_eq!(resolve_rename("x.md", Some(999)), RenameStep::UseTimestamp);
}

#[test]
fn conflict_prompt_and_options() {
    assert_eq!(conflict_prompt("a.txt"), "文件已存在: a.txt，请选择:");
    let opts = conflict_options();
    assert_eq!(opts.len(), 4);
    assert_eq!(opts[0], ("覆盖".to_string(), "覆盖现有文件".to_string()));
    assert_eq!(opts[3], ("重命名".to_string(), "自动生成新名称".to_string()));
}
