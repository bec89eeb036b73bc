use mf::content_type::{check_match, detect, detect_enhanced, suggest_extension, ContentType};

#[test]
fn test_detect_empty() {
    assert_eq!(detect(""), ContentType::PlainText);
    assert_eq!(detect("   "), ContentType::PlainText);
}

#[test]
fn test_detect_json_object() {
    assert_eq!(detect(r#"{"key": "value"}"#), ContentType::Json);
}

#[test]
fn test_detect_json_array() {
    assert_eq!(detect("[1,2,3]"), ContentType::Json);
}

#[test]
fn test_detect_xml() {
    assert_eq!(detect("<root>text</root>"), ContentType::Xml);

    let pseudo_xml = "<user>John</user> said <message>Hello</message>";
    let result = detect(pseudo_xml);
    assert_eq!(result, ContentType::PlainText);
}

#[test]
fn test_detect_html() {
    assert_eq!(detect("<html><body></body></html>"), ContentType::Html);
    assert_eq!(detect("<!DOCTYPE html><html></html>"), ContentType::Html);
}

#[test]
fn test_detect_html_fragment() {
    assert_eq!(
        detect("<div class=\"container\">\n  <p>Hello</p>\n</div>"),
        ContentType::Html
    );
}

#[test]
fn test_detect_python() {
    assert_eq!(detect("def main():\n    pass"), ContentType::Python);
    assert_eq!(detect("import os"), ContentType::Python);
}

#[test]
fn test_detect_python_shebang() {
    assert_eq!(detect("#!/usr/bin/env python3\nprint('hi')"), ContentType::Python);
    assert_eq!(detect("#!/usr/bin/python\nprint('hi')"), ContentType::Python);
}

#[test]
fn test_detect_javascript() {
    assert_eq!(detect("function foo() {}"), ContentType::JavaScript);
    assert_eq!(detect("const x = 1;"), ContentType::JavaScript);
}

#[test]
fn test_detect_node_shebang() {
    assert_eq!(detect("#!/usr/bin/env node\nconsole.log('hi')"), ContentType::JavaScript);
}

#[test]
fn test_detect_typescript() {
    assert_eq!(detect("const x: string = 'hello'"), ContentType::TypeScript);
    assert_eq!(detect("interface Foo { bar: string }"), ContentType::TypeScript);
}

#[test]
fn test_detect_rust() {
    assert_eq!(
        detect("fn main() {\n    println!(\"Hello\");\n}"),
        ContentType::Rust
    );
}

#[test]
fn test_detect_go() {
    assert_eq!(
        detect("package main\n\nimport \"fmt\"\n\nfunc main() {\n    fmt.Println(\"hello\")\n}"),
        ContentType::Go
    );
}

#[test]
fn test_detect_java() {
    assert_eq!(
        detect("public class Main {\n    public static void main(String[] args) {\n    }\n}"),
        ContentType::Java
    );
}

#[test]
fn test_detect_sql() {
    assert_eq!(detect("SELECT * FROM users"), ContentType::Sql);
}

#[test]
fn test_detect_yaml() {
    assert_eq!(detect("---\nkey: value"), ContentType::Yaml);

    let multi_doc = "---\ndebug: true\nlevel: info\n---\ntest: value";
    let result = detect(multi_doc);
    assert_eq!(result, ContentType::Yaml);

    let pseudo_yaml = "---\n[10:55:57.046] activate_window: 0.000s\n";
    let pseudo_result = detect(pseudo_yaml);
    assert_eq!(pseudo_result, ContentType::PlainText);
}

#[test]
fn test_detect_toml() {
    assert_eq!(detect("[section]\nkey = \"value\""), ContentType::Toml);
}

#[test]
fn test_detect_csv() {
    assert_eq!(detect("name,age\nAlice,30"), ContentType::Csv);
}

#[test]
fn test_detect_markdown() {
    assert_eq!(detect("# Title\n\nSome text"), ContentType::Markdown);
}

#[test]
fn test_detect_binary() {
    assert_eq!(detect("hello\0world"), ContentType::Binary);
}

#[test]
fn test_powershell_not_mistaken_as_javascript() {
    let ps_script = r#"
# PowerShell script
Write-Host "Hello"
$var = Get-Process
"#;
    assert_eq!(detect(ps_script), ContentType::PowerShell);
}

#[test]
fn test_markdown_with_code_block() {
    let md_content = "# Title\n\n```javascript\nconst x = 1;\n```\n\nSome text";
    assert_eq!(detect(md_content), ContentType::Markdown);
}

#[test]
fn test_ruby_not_mistaken_as_python() {
    let ruby_code = "def greet(name)\n  puts \"Hello #{name}\"\nend";
    assert_eq!(detect(ruby_code), ContentType::Ruby);
}

#[test]
fn test_php_not_mistaken_as_javascript() {
    let php_code = "<?php\nfunction hello($name) {\n    echo \"Hello $name\";\n}\n?>";
    assert_eq!(detect(php_code), ContentType::Php);
}

#[test]
fn test_batch_file_detection() {
    assert_eq!(detect("@echo off\necho Hello World"), ContentType::Batch);
}

#[test]
fn test_shell_script_detection() {
    assert_eq!(detect("#!/bin/bash\necho 'Hello World'"), ContentType::Shell);
}

#[test]
fn test_csharp_detection() {
    assert_eq!(
        detect("using System;\nclass Program {\n    static void Main(string[] args) {}\n}"),
        ContentType::CSharp
    );
}

#[test]
fn test_c_detection() {
    assert_eq!(
        detect("#include <stdio.h>\nint main() {\n    return 0;\n}"),
        ContentType::C
    );
}

#[test]
fn test_cpp_detection() {
    assert_eq!(
        detect("#include <iostream>\nint main() {\n    std::cout << \"Hello\";\n    return 0;\n}"),
        ContentType::Cpp
    );
}

#[test]
fn test_check_match_similar_text_formats() {
    let ct_plain = ContentType::PlainText;
    let ct_md = ContentType::Markdown;
    assert!(check_match(&ct_plain, "test.log").is_ok());
    assert!(check_match(&ct_plain, "test.txt").is_ok());
    assert!(check_match(&ct_md, "test.log").is_ok());
    assert!(check_match(&ct_md, "test.txt").is_ok());
}

#[test]
fn test_check_match_different_formats_still_warn() {
    let ct_json = ContentType::Json;
    let ct_xml = ContentType::Xml;
    assert!(check_match(&ct_json, "test.txt").is_err());
    assert!(check_match(&ct_xml, "data.json").is_err());
}

#[test]
fn detect_enhanced_agrees_with_detect_on_text() {
    let samples = ["fn main() {}", "# Title", "{\"a\": 1}", "plain words", "SELECT * FROM t"];
    for s in samples.iter() {
        assert_eq!(detect_enhanced(s, Some("out.txt")), detect(s));
    }
}

#[test]
fn suggest_extension_takes_the_first() {
    assert_eq!(suggest_extension(&ContentType::Cpp), Some("cpp"));
    assert_eq!(suggest_extension(&ContentType::Binary), None);
    assert_eq!(ContentType::PlainText.suggested_extensions(), vec!["txt", "md"]);
    assert_eq!(ContentType::Cpp.name(), "C++");
}

#[test]
fn check_match_messages() {
    match check_match(&ContentType::Json, "a/b.txt") {
        Err(mf::error::MfError::InvalidArgument(m)) => {
            assert_eq!(m, "文件扩展名 '.txt' 与检测到的内容类型不匹配。建议扩展名: json");
        }
        _ => panic!("expected a mismatch"),
    }
    match check_match(&ContentType::Binary, "x.bin") {
        Err(mf::error::MfError::InvalidArgument(m)) => assert_eq!(m, "检测到二进制数据，无法处理"),
        _ => panic!("expected the binary message"),
    }
    assert!(check_match(&ContentType::Xml, "page.svg").is_ok());
    assert!(check_match(&ContentType::Json, "Makefile").is_ok());
    assert!(check_match(&ContentType::Markdown, "NOTES.TXT").is_ok());
}
