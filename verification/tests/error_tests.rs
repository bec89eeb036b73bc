use mf::error::MfError;
use std::io;

#[test]
fn test_exit_codes() {
    assert_eq!(MfError::InvalidArgument("test".into()).exit_code(), 1);
    assert_eq!(
        MfError::FileSystem {
            reason: "not found".into(),
            path: "/test".to_string(),
            source: None,
        }
        .exit_code(),
        2
    );
    assert_eq!(MfError::Clipboard("test".into()).exit_code(), 3);
    assert_eq!(MfError::Encoding("test".into()).exit_code(), 4);
    assert_eq!(MfError::UserCancelled.exit_code(), 5);
    assert_eq!(MfError::Internal("test".into()).exit_code(), 127);
}

#[test]
fn test_io_conversion() {
    let io_err = io::Error::new(io::ErrorKind::NotFound, "file not found");
    let mf_err: MfError = io_err.into();
    match mf_err {
        MfError::FileSystem {
            ref reason,
            ref source,
            ..
        } => {
            assert!(reason.contains("file not found"));
            assert!(source.is_some());
        }
        _ => panic!("expected FileSystem variant"),
    }
}

#[test]
fn io_conversion_has_empty_path() {
    let mf_err: MfError = io::Error::new(io::ErrorKind::Other, "boom").into();
    match mf_err {
        MfError::FileSystem { path, .. } => assert_eq!(path, ""),
        _ => panic!("expected FileSystem variant"),
    }
}

#[test]
fn messages() {
    assert_eq!(MfError::InvalidArgument("x".into()).message(), "提示: x");
    assert_eq!(
        MfError::FileSystem { reason: "r".into(), path: "/p".into(), source: None }.message(),
        "文件访问遇到问题: r (路径: /p)"
    );
    assert_eq!(MfError::Clipboard("c".into()).message(), "剪贴板操作未完成: c");
    assert_eq!(MfError::Encoding("e".into()).message(), "编码处理遇到问题: e");
    assert_eq!(MfError::UserCancelled.message(), "操作已取消");
    assert_eq!(MfError::Internal("i".into()).message(), "程序内部异常: i");
}
