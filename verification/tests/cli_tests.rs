use mf::cli::{
    after_preview, after_preview_options, auto_correct_extension, check_size, decode_piped_input, detected_type,
    encoding_for, image_kind_for, mismatch_options, mismatch_outcome, mismatch_warning, prepare_image,
    encode_image, resolve_conflict_mode, resolve_encoding, write_action, content_sources, Args, ContentSource,
    ImageKind, MismatchOutcome, WriteAction,
};
use mf::clipboard::ClipboardImage;
use mf::config::Config;
use mf::conflict::ConflictMode;
use mf::content_type::ContentType;
use mf::error::MfError;

fn args() -> Args {
    Args {
        files: vec!["out.txt".to_string()],
        from_clipboard: false,
        append: false,
        open: false,
        force: false,
        no_clobber: false,
        backup: false,
        conflict: None,
        encoding: None,
        from_file: None,
        detect_encoding: false,
        verbose: false,
        debug: false,
        quiet: false,
        help_encoding: false,
        examples: false,
        help_config: false,
        max_size: None,
    }
}

#[test]
fn test_auto_correct_extension_python_to_py() {
    let ct = ContentType::Python;
    let result = auto_correct_extension("script.js", &ct);
    assert_eq!(result, Some("script.py".to_string()));
}

#[test]
fn test_auto_correct_extension_already_correct() {
    let ct = ContentType::Json;
    let result = auto_correct_extension("data.json", &ct);
    assert_eq!(result, None);
}

#[test]
fn test_auto_correct_extension_no_suggested() {
    let ct = ContentType::Binary;
    let result = auto_correct_extension("file.bin", &ct);
    assert_eq!(result, None);
}

#[test]
fn auto_correct_edge_cases() {
    assert_eq!(auto_correct_extension("dir/notes", &ContentType::Markdown), Some("dir/notes.md".to_string()));
    assert_eq!(auto_correct_extension("data.json/", &ContentType::Json), None);
    assert_eq!(auto_correct_extension("..", &ContentType::Json), None);
    assert_eq!(auto_correct_extension("a.JSON", &ContentType::Json), Some("a.json".to_string()));
}

#[test]
fn conflict_mode_precedence() {
    let mut a = args();
    assert_eq!(resolve_conflict_mode(&a), ConflictMode::Interactive);
    a.no_clobber = true;
    assert_eq!(resolve_conflict_mode(&a), ConflictMode::NoClobber);
    a.force = true;
    assert_eq!(resolve_conflict_mode(&a), ConflictMode::Force);
    a.conflict = Some("append".to_string());
    assert_eq!(resolve_conflict_mode(&a), ConflictMode::Append);
    a.conflict = Some("rename".to_string());
    assert_eq!(resolve_conflict_mode(&a), ConflictMode::Rename);
    a.conflict = Some("skip".to_string());
    assert_eq!(resolve_conflict_mode(&a), ConflictMode::NoClobber);
    a.conflict = Some("overwrite".to_string());
    assert_eq!(resolve_conflict_mode(&a), ConflictMode::Force);
    a.conflict = Some("other".to_string());
    assert_eq!(resolve_conflict_mode(&a), ConflictMode::Interactive);
}

#[test]
fn encodings_by_extension() {
    let mut config = Config::default();
    config.encodings.custom.insert("log".to_string(), "utf16le".to_string());
    assert_eq!(resolve_encoding("run.BAT", &config), "gbk");
    assert_eq!(resolve_encoding("run.cmd", &config), "gbk");
    assert_eq!(resolve_encoding("x.Ps1", &config), "utf8bom");
    assert_eq!(resolve_encoding("app.LOG", &config), "utf16le");
    assert_eq!(resolve_encoding("notes.txt", &config), "utf8");
    assert_eq!(resolve_encoding("Makefile", &config), "utf8");
    let mut a = args();
    assert_eq!(encoding_for(&a, "run.bat", &config), "gbk");
    a.encoding = Some("utf16be".to_string());
    assert_eq!(encoding_for(&a, "run.bat", &config), "utf16be");
}

#[test]
fn size_limit() {
    let config = Config::default();
    let mut a = args();
    a.max_size = Some(0);
    assert!(check_size(&a, &config, "").is_ok());
    match check_size(&a, &config, "x") {
        Err(MfError::InvalidArgument(m)) => {
            assert_eq!(m, "内容超过大小限制 (0 MB)，请使用 --max-size 增加限制或 --force 跳过")
        }
        _ => panic!("expected a size error"),
    }
    a.max_size = Some(1);
    let exact = "a".repeat(1024 * 1024);
    assert!(check_size(&a, &config, &exact).is_ok());
    let over = "a".repeat(1024 * 1024 + 1);
    assert!(check_size(&a, &config, &over).is_err());
    a.max_size = None;
    assert!(check_size(&a, &config, &over).is_ok());
    a.max_size = Some(u64::MAX);
    assert!(check_size(&a, &config, &over).is_ok());
}

#[test]
fn mismatch_flow() {
    assert_eq!(detected_type("   ", "a.txt"), None);
    assert_eq!(detected_type(r#"{"k": 1}"#, "a.txt"), Some(ContentType::Json));
    let mut a = args();
    match mismatch_warning(&a, &ContentType::Json, "a.txt") {
        Some(MfError::InvalidArgument(m)) => {
            assert_eq!(m, "文件扩展名 '.txt' 与检测到的内容类型不匹配。建议扩展名: json")
        }
        _ => panic!("expected a warning"),
    }
    assert!(mismatch_warning(&a, &ContentType::Json, "a.json").is_none());
    a.force = true;
    assert!(mismatch_warning(&a, &ContentType::Json, "a.txt").is_none());
    a.force = false;
    a.conflict = Some("skip".to_string());
    assert!(mismatch_warning(&a, &ContentType::Json, "a.txt").is_none());

    let opts = mismatch_options(&ContentType::Json);
    assert_eq!(opts.len(), 4);
    assert_eq!(opts[1], ("自动修正".to_string(), "改为 .json".to_string()));
    assert_eq!(mismatch_options(&ContentType::Binary).len(), 3);
    assert_eq!(after_preview_options().len(), 2);

    assert!(matches!(mismatch_outcome(&ContentType::Json, "a.txt", Some(0)), MismatchOutcome::Proceed));
    match mismatch_outcome(&ContentType::Json, "a.txt", Some(1)) {
        MismatchOutcome::Retarget(p) => assert_eq!(p, "a.json"),
        _ => panic!("expected a retarget"),
    }
    assert!(matches!(mismatch_outcome(&ContentType::Json, "a.txt", Some(2)), MismatchOutcome::Preview));
    assert!(matches!(mismatch_outcome(&ContentType::Json, "a.txt", Some(3)), MismatchOutcome::Cancel));
    assert!(matches!(mismatch_outcome(&ContentType::Json, "a.txt", None), MismatchOutcome::Cancel));
    assert!(matches!(mismatch_outcome(&ContentType::Binary, "a.txt", Some(1)), MismatchOutcome::Preview));
    assert!(matches!(mismatch_outcome(&ContentType::Binary, "a.txt", Some(2)), MismatchOutcome::Cancel));
    assert!(after_preview(Some(0)).is_ok());
    assert!(matches!(after_preview(Some(1)), Err(MfError::UserCancelled)));
    assert!(matches!(after_preview(None), Err(MfError::UserCancelled)));
}

#[test]
fn write_actions() {
    let mut a = args();
    assert_eq!(write_action(&a, true), WriteAction::Write);
    assert_eq!(write_action(&a, false), WriteAction::CreateEmpty);
    a.append = true;
    assert_eq!(write_action(&a, true), WriteAction::Append);
    a.from_clipboard = true;
    assert_eq!(write_action(&a, false), WriteAction::SaveImage);
    a.detect_encoding = true;
    assert_eq!(write_action(&a, true), WriteAction::ShowEncoding);
    assert_eq!(write_action(&a, false), WriteAction::ShowEncoding);
}

#[test]
fn image_kinds() {
    assert_eq!(image_kind_for("shot").unwrap(), ImageKind::Png);
    assert_eq!(image_kind_for("shot.JPEG").unwrap(), ImageKind::Jpeg);
    assert_eq!(image_kind_for("shot.jpg").unwrap(), ImageKind::Jpeg);
    assert_eq!(image_kind_for("a/b.webp").unwrap(), ImageKind::WebP);
    assert_eq!(image_kind_for("b.ico").unwrap(), ImageKind::Ico);
    assert_eq!(image_kind_for("b.gif").unwrap(), ImageKind::Gif);
    assert_eq!(image_kind_for("b.bmp").unwrap(), ImageKind::Bmp);
    match image_kind_for("b.TIFF") {
        Err(MfError::InvalidArgument(m)) => {
            assert_eq!(m, "不支持的图片格式: .tiff，支持: png, jpg, bmp, gif, ico, webp")
        }
        _ => panic!("expected an unsupported-format error"),
    }
}

#[test]
fn image_encoding() {
    let short = ClipboardImage { width: 2, height: 2, data: vec![0; 15] };
    match prepare_image(short, "a.png") {
        Err(MfError::InvalidArgument(m)) => assert_eq!(m, "无效的图片数据"),
        _ => panic!("expected invalid image data"),
    }
    let img = ClipboardImage { width: 2, height: 1, data: vec![255, 0, 0, 255, 0, 255, 0, 255] };
    let job = prepare_image(img, "a.png").unwrap();
    assert_eq!(job.kind, ImageKind::Png);
    let png = encode_image(job).unwrap();
    assert_eq!(&png[..8], &[0x89, b'P', b'N', b'G', 0x0D, 0x0A, 0x1A, 0x0A]);
    let img = ClipboardImage { width: 1, height: 1, data: vec![1, 2, 3, 4] };
    let bmp = encode_image(prepare_image(img, "a.bmp").unwrap()).unwrap();
    assert_eq!(&bmp[..2], b"BM");
    let long = ClipboardImage { width: 1, height: 1, data: vec![1, 2, 3, 4, 5] };
    let job = prepare_image(long, "a.png").unwrap();
    assert_eq!(job.data, vec![1, 2, 3, 4]);
    assert!(encode_image(job).is_ok());
}

#[test]
fn piped_input() {
    assert_eq!(decode_piped_input(b""), None);
    assert_eq!(decode_piped_input(b"  \n"), None);
    assert_eq!(decode_piped_input("你好".as_bytes()), Some("你好".to_string()));
    assert_eq!(decode_piped_input(&[0xC4, 0xE3, 0xBA, 0xC3]), Some("你好".to_string()));
}

#[test]
fn content_source_order() {
    let mut a = args();
    assert_eq!(content_sources(&a), vec![ContentSource::Pipe]);
    a.from_file = Some("in.txt".to_string());
    a.detect_encoding = true;
    assert_eq!(content_sources(&a), vec![ContentSource::Pipe, ContentSource::File { detect_encoding: true }]);
    a.from_clipboard = true;
    assert_eq!(content_sources(&a), vec![ContentSource::File { detect_encoding: true }, ContentSource::Clipboard]);
    a.from_file = None;
    assert_eq!(content_sources(&a), vec![ContentSource::Clipboard]);
}
