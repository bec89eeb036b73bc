use mf::clipboard::{Clipboard, LinuxClipboard};
use mf::error::MfError;

#[test]
fn test_clipboard_new() {
    let clip = Clipboard::new(LinuxClipboard);
    assert!(clip.is_ok());
}

#[test]
fn test_clipboard_clear_does_not_panic() {
    let clip = Clipboard::new(LinuxClipboard).expect("Failed to create clipboard");
    let _ = clip.clear();
}

#[test]
fn linux_clipboard_reports_unavailable() {
    let clip = Clipboard::new(LinuxClipboard).unwrap();
    match clip.read_text() {
        Err(MfError::Clipboard(m)) => {
            assert_eq!(m, "Clipboard access requires xclip or wl-clipboard to be installed")
        }
        _ => panic!("expected a clipboard error"),
    }
    match clip.read_image() {
        Err(MfError::Clipboard(m)) => assert_eq!(m, "Clipboard image access is not supported on Linux"),
        _ => panic!("expected a clipboard error"),
    }
    assert!(matches!(clip.is_empty(), Err(MfError::Clipboard(_))));
}
