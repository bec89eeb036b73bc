use mf::ui::{answer_for, menu_hint, menu_lines, on_key, parse_usize, preview, Key, KeyStep};

#[test]
fn test_preview_short() {
    let result = preview("hello", 10);
    assert_eq!(result, "hello");
}

#[test]
fn test_preview_truncated() {
    let result = preview("hello world this is a long string", 10);
    assert!(result.starts_with("hello worl"));
    assert!(result.contains("[已截断，共 "));
    assert!(result.contains("字符]"));
}

#[test]
fn test_preview_empty() {
    let result = preview("", 10);
    assert_eq!(result, "");
}

#[test]
fn test_preview_exact() {
    let result = preview("exactly", 7);
    assert_eq!(result, "exactly");
}

#[test]
fn preview_limit_counts_characters() {
    assert_eq!(preview("中文", 2), "中文");
    assert_eq!(preview("中文", 1), "中\n[已截断，共 2 字符]");
    assert_eq!(preview("hello world", 5), "hello\n[已截断，共 11 字符]");
    assert_eq!(preview("hello world this is a long string", 10), "hello worl\n[已截断，共 33 字符]");
}

#[test]
fn parse_numbers() {
    assert_eq!(parse_usize("42"), Some(42));
    assert_eq!(parse_usize("+7"), Some(7));
    assert_eq!(parse_usize("007"), Some(7));
    assert_eq!(parse_usize(""), None);
    assert_eq!(parse_usize("+"), None);
    assert_eq!(parse_usize("-1"), None);
    assert_eq!(parse_usize("1a"), None);
    assert_eq!(parse_usize("18446744073709551616"), None);
    assert_eq!(parse_usize("18446744073709551615"), Some(usize::MAX));
}

#[test]
fn answers() {
    assert_eq!(answer_for("", 4, Some(1)), Some(1));
    assert_eq!(answer_for("  \n", 4, None), None);
    assert_eq!(answer_for(" 3 ", 4, Some(1)), Some(2));
    assert_eq!(answer_for("4", 4, None), Some(3));
    assert_eq!(answer_for("5", 4, Some(1)), None);
    assert_eq!(answer_for("0", 4, Some(1)), None);
    assert_eq!(answer_for("x", 4, Some(1)), None);
}

#[test]
fn keys() {
    let mut typed: Vec<char> = Vec::new();
    assert_eq!(on_key(&mut typed, Key::Char('a'), 3, Some(2)), KeyStep::Ignore);
    assert_eq!(on_key(&mut typed, Key::Enter, 3, Some(2)), KeyStep::Answer(Some(2)));
    assert_eq!(on_key(&mut typed, Key::Char('1'), 3, Some(2)), KeyStep::Echo('1'));
    assert_eq!(on_key(&mut typed, Key::Char('2'), 3, Some(2)), KeyStep::Echo('2'));
    assert_eq!(on_key(&mut typed, Key::Backspace, 3, Some(2)), KeyStep::Erase);
    assert_eq!(typed, vec!['1']);
    assert_eq!(on_key(&mut typed, Key::Enter, 3, Some(2)), KeyStep::Answer(Some(0)));
    assert_eq!(on_key(&mut typed, Key::Escape, 3, Some(2)), KeyStep::Cancelled);
    assert_eq!(on_key(&mut typed, Key::Interrupt, 3, Some(2)), KeyStep::Interrupted);
    let mut empty: Vec<char> = Vec::new();
    assert_eq!(on_key(&mut empty, Key::Backspace, 3, None), KeyStep::Ignore);
    assert_eq!(on_key(&mut empty, Key::Other, 3, None), KeyStep::Ignore);
}

#[test]
fn menus() {
    let options = vec![
        ("继续保存".to_string(), "使用原扩展名".to_string()),
        ("取消".to_string(), "放弃操作".to_string()),
    ];
    let lines = menu_lines(&options, Some(1));
    assert_eq!(lines, vec!["  1. 继续保存 - 使用原扩展名".to_string(), "  2. 取消 - 放弃操作 [默认]".to_string()]);
    assert_eq!(menu_hint(2, Some(1)), "请选择 (1-2/Enter=默认[2]/ESC=取消): ");
    assert_eq!(menu_hint(4, None), "请选择 (1-4/ESC=取消): ");
}
