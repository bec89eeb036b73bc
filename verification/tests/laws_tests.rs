use mf::cli::auto_correct_extension;
use mf::content_type::{check_match, detect, detect_enhanced, ContentType};
use mf::encoding::{decode_to_string, encode_string};
use mf::file_ops::{register_temp_file, unregister_temp_file, TempRegistry};

#[test]
fn encode_then_decode_gives_the_text_back() {
    for enc in ["utf8", "utf8bom", "utf16le", "utf16be", "utf-8"] {
        let bytes = encode_string("Grüße, 世界!", enc).unwrap();
        assert_eq!(decode_to_string(&bytes).unwrap(), "Grüße, 世界!");
    }
}

#[test]
fn register_then_unregister_restores_the_registry() {
    let mut registry = TempRegistry::new();
    register_temp_file(&mut registry, "keep.tmp".to_string());
    register_temp_file(&mut registry, "x.tmp".to_string());
    unregister_temp_file(&mut registry, "x.tmp");
    assert!(!registry.contains("x.tmp"));
    assert_eq!(registry.drain(), vec!["keep.tmp".to_string()]);
}

#[test]
fn corrected_name_passes_the_check() {
    for (name, ct) in [
        ("a.txt", ContentType::Json),
        ("dir/b", ContentType::Python),
        ("c.tar.gz", ContentType::Yaml),
        (".hidden", ContentType::Rust),
    ] {
        let fixed = auto_correct_extension(name, &ct).unwrap();
        assert!(check_match(&ct, &fixed).is_ok(), "{}", fixed);
    }
}

#[test]
fn correction_is_none_exactly_for_the_same_path() {
    assert_eq!(auto_correct_extension("data.json", &ContentType::Json), None);
    assert_eq!(auto_correct_extension("data.json/", &ContentType::Json), None);
    assert_eq!(auto_correct_extension("data.JSON", &ContentType::Json), Some("data.json".to_string()));
    assert_eq!(auto_correct_extension("/", &ContentType::Json), None);
}

#[test]
fn enhanced_detection_is_detection() {
    for s in ["{\"a\": 1}", "#!/usr/bin/env python3\nprint(1)", "a\0b", "plain words", "fn main() {}"] {
        assert_eq!(detect_enhanced(s, Some("x.txt")), detect(s));
    }
}

#[test]
fn blank_is_plain_text_and_nul_is_binary() {
    assert_eq!(detect(" \t\n"), ContentType::PlainText);
    assert_eq!(detect("a\0b"), ContentType::Binary);
}

#[test]
fn rename_candidate_is_not_the_path() {
    for p in ["test.txt", "dir/a_1.txt", "Makefile", "", "/", "..", "x.txt//", "a/."] {
        for n in [1u64, 7, 999] {
            assert_ne!(mf::conflict::rename_candidate(p, n), p);
        }
    }
}
