use encoding_rs::{GBK, UTF_8};
use mf::encoding::{choose_encoding, convert_bytes_to, decode_to_string, detect_from_bytes, encode_string, resolve_encoding, EncodingId};
use mf::error::MfError;

#[test]
fn test_choose_encoding_bat() {
    assert_eq!(choose_encoding("script.bat"), "gbk");
    assert_eq!(choose_encoding("install.cmd"), "gbk");
}

#[test]
fn test_choose_encoding_ps1() {
    assert_eq!(choose_encoding("deploy.ps1"), "utf8bom");
}

#[test]
fn test_choose_encoding_other() {
    assert_eq!(choose_encoding("readme.txt"), "utf8");
    assert_eq!(choose_encoding("main.rs"), "utf8");
    assert_eq!(choose_encoding("config.json"), "utf8");
}

#[test]
fn test_encode_utf8() {
    let result = encode_string("Hello", "utf8").unwrap();
    assert_eq!(result, b"Hello");
}

#[test]
fn test_encode_utf8bom() {
    let result = encode_string("Hello", "utf8bom").unwrap();
    let mut expected = vec![0xEF, 0xBB, 0xBF];
    expected.extend_from_slice(b"Hello");
    assert_eq!(result, expected);
}

#[test]
fn test_encode_gbk() {
    let input = "中文";
    let encoded = encode_string(input, "gbk").unwrap();
    let (decoded, _, _) = GBK.decode(&encoded);
    assert_eq!(decoded.as_ref(), input);
}

#[test]
fn test_detect_utf8bom() {
    let mut data = vec![0xEF, 0xBB, 0xBF];
    data.extend_from_slice(b"Hello");
    assert_eq!(detect_from_bytes(&data), "utf8bom");
}

#[test]
fn test_detect_utf16le() {
    let data = [0xFF, 0xFE, b'H', 0x00, b'i', 0x00];
    assert_eq!(detect_from_bytes(&data), "utf16le");
}

#[test]
fn test_roundtrip_utf16le() {
    let input = "Hello 中文 🎉";
    let encoded = encode_string(input, "utf16le").unwrap();
    let decoded = decode_to_string(&encoded).unwrap();
    assert_eq!(decoded, input);
}

#[test]
fn test_invalid_encoding_name() {
    let result = encode_string("test", "invalid-encoding");
    assert!(result.is_err());
    match result {
        Err(MfError::Encoding(msg)) => {
            assert!(msg.contains("invalid-encoding"));
        }
        _ => panic!("Expected MfError::Encoding"),
    }
}

#[test]
fn test_encode_large_text() {
    let input = "a".repeat(10_000);
    let result = encode_string(&input, "utf8").unwrap();
    assert_eq!(result.len(), 10_000);
    assert_eq!(result, input.as_bytes());
}

#[test]
fn test_convert_bytes_utf8_to_gbk() {
    let data = "中文测试".as_bytes();
    let result = convert_bytes_to(data, "gbk").unwrap();
    let (decoded, _, _) = GBK.decode(&result);
    assert_eq!(decoded.as_ref(), "中文测试");
}

#[test]
fn test_convert_bytes_detect_and_convert() {
    let text = "Hello 中文";
    let utf16le_bytes = encode_string(text, "utf16le").unwrap();
    let result = convert_bytes_to(&utf16le_bytes, "utf8").unwrap();
    let decoded = String::from_utf8(result).unwrap();
    assert_eq!(decoded, text);
}

#[test]
fn test_convert_bytes_roundtrip_utf16le_to_utf8bom() {
    let text = "Hello world";
    let utf16le_bytes = encode_string(text, "utf16le").unwrap();
    let result = convert_bytes_to(&utf16le_bytes, "utf8bom").unwrap();
    assert!(result.starts_with(&[0xEF, 0xBB, 0xBF]));
    let (decoded, _, _) = UTF_8.decode(&result[3..]);
    assert_eq!(decoded.as_ref(), text);
}

#[test]
fn test_encode_empty_string() {
    let result = encode_string("", "utf8").unwrap();
    assert!(result.is_empty());
}

#[test]
fn test_encode_very_large_string() {
    let large = "Hello World! ".repeat(50_000);
    let result = encode_string(&large, "utf8").unwrap();
    assert_eq!(result.len(), large.len());
}

#[test]
fn test_encode_gbk_chinese() {
    let result = encode_string("中文测试", "gbk").unwrap();
    assert_eq!(result.len(), 8);
}

#[test]
fn test_detect_from_bytes_plain_utf8() {
    let data = b"Hello, UTF-8 without BOM";
    assert_eq!(detect_from_bytes(data), "utf8");
}

#[test]
fn test_decode_to_string_utf16be() {
    let text = "Test!";
    let encoded = encode_string(text, "utf16be").unwrap();
    assert_eq!(decode_to_string(&encoded).unwrap(), text);
}

#[test]
fn test_convert_bytes_roundtrip() {
    let original = "Hello 中文";
    let utf8_bytes = original.as_bytes();
    let converted = convert_bytes_to(utf8_bytes, "utf16le").unwrap();
    let decoded = decode_to_string(&converted).unwrap();
    assert_eq!(decoded, original);
}

#[test]
fn test_chardetng_on_gbk_bytes() {
    let data = &[0xC4u8, 0xE3, 0xB9, 0xFE, 0x0A];
    let enc = encoding_rs::Encoding::for_label(b"gbk").unwrap();
    let (cow, _, had_errors) = enc.decode(data);
    assert!(!had_errors);
    assert_eq!(cow.as_ref(), "你哈\n");
}

#[test]
fn encoding_names_resolve() {
    assert_eq!(resolve_encoding("utf8").unwrap(), EncodingId::Utf8);
    assert_eq!(resolve_encoding("utf-8").unwrap(), EncodingId::Utf8);
    assert_eq!(resolve_encoding("utf8bom").unwrap(), EncodingId::Utf8);
    assert_eq!(resolve_encoding("gb2312").unwrap(), EncodingId::Gbk);
    assert_eq!(resolve_encoding("utf-16le").unwrap(), EncodingId::Utf16Le);
    assert_eq!(resolve_encoding("utf16be").unwrap(), EncodingId::Utf16Be);
    match resolve_encoding("latin1") {
        Err(MfError::Encoding(m)) => assert_eq!(m, "Unknown encoding: latin1"),
        _ => panic!("expected an encoding error"),
    }
}

#[test]
fn utf8bom_is_not_doubled() {
    let result = encode_string("\u{feff}x", "utf8bom").unwrap();
    assert_eq!(result, vec![0xEF, 0xBB, 0xBF, b'x']);
}

#[test]
fn utf16_is_written_as_utf16_with_bom() {
    assert_eq!(encode_string("Hi", "utf16le").unwrap(), vec![0xFF, 0xFE, 0x48, 0x00, 0x69, 0x00]);
    assert_eq!(encode_string("Hi", "utf16be").unwrap(), vec![0xFE, 0xFF, 0x00, 0x48, 0x00, 0x69]);
    assert_eq!(encode_string("中", "utf-16le").unwrap(), vec![0xFF, 0xFE, 0x2D, 0x4E]);
    assert_eq!(
        encode_string("🎉", "utf16le").unwrap(),
        vec![0xFF, 0xFE, 0x3C, 0xD8, 0x89, 0xDF]
    );
    assert_eq!(
        encode_string("🎉", "utf16be").unwrap(),
        vec![0xFE, 0xFF, 0xD8, 0x3C, 0xDF, 0x89]
    );
}

#[test]
fn utf16_keeps_a_leading_bom_char() {
    let encoded = encode_string("\u{feff}abc", "utf16le").unwrap();
    assert_eq!(decode_to_string(&encoded).unwrap(), "\u{feff}abc");
}

#[test]
fn detect_utf16be_by_bom() {
    assert_eq!(detect_from_bytes(&[0xFE, 0xFF, 0x00, b'a']), "utf16be");
}

#[test]
fn utf8bom_roundtrip() {
    let encoded = encode_string("Hello 中文", "utf8bom").unwrap();
    assert_eq!(decode_to_string(&encoded).unwrap(), "Hello 中文");
}

#[test]
fn text_starting_with_bom_char_loses_it() {
    let encoded = encode_string("\u{feff}abc", "utf8").unwrap();
    assert_eq!(decode_to_string(&encoded).unwrap(), "abc");
}

#[test]
fn malformed_utf16le_is_an_error() {
    let data = [0xFF, 0xFE, 0x00];
    match decode_to_string(&data) {
        Err(MfError::Encoding(m)) => assert_eq!(m, "Failed to decode as utf16le"),
        other => panic!("expected an encoding error, got {:?}", other.is_ok()),
    }
}
