//! Clipboard access through a platform provider. The providers that talk
//! to a system clipboard live with the program; the one for platforms
//! without clipboard support is here.
use vstd::prelude::*;
use crate::error::MfError;
use crate::text::push_str;

verus! {

/// An image read from the clipboard: RGBA pixels, row by row.
pub struct ClipboardImage {
    pub width: usize,
    pub height: usize,
    pub data: Vec<u8>,
}

/// What a platform offers for the clipboard.
pub trait ClipboardProvider {
    fn read_text(&self) -> Result<String, MfError>;

    fn read_image(&self) -> Result<ClipboardImage, MfError>;

    fn is_empty(&self) -> Result<bool, MfError>;

    fn clear(&self) -> Result<(), MfError>;
}

/// The message given where text access needs an external tool.
pub open spec fn linux_text_message() -> Seq<char> {
    "Clipboard access requires xclip or wl-clipboard to be installed"@
}

/// The message given for images on Linux.
pub open spec fn linux_image_message() -> Seq<char> {
    "Clipboard image access is not supported on Linux"@
}

/// `e` is a `Clipboard` error with message `m`.
pub open spec fn is_clipboard_error(e: MfError, m: Seq<char>) -> bool {
    e matches MfError::Clipboard(x) && x@ == m
}

fn clipboard_error(m: &str) -> (r: MfError)
    ensures
        is_clipboard_error(r, m@),
{
    let mut s = String::new();
    push_str(&mut s, m);
    MfError::Clipboard(s)
}

/// The Linux provider: every operation reports that the clipboard is
/// not available.
pub struct LinuxClipboard;

impl ClipboardProvider for LinuxClipboard {
    fn read_text(&self) -> (r: Result<String, MfError>)
        ensures
            r matches Err(e) && is_clipboard_error(e, linux_text_message()),
    {
        Err(clipboard_error("Clipboard access requires xclip or wl-clipboard to be installed"))
    }

    fn read_image(&self) -> (r: Result<ClipboardImage, MfError>)
        ensures
            r matches Err(e) && is_clipboard_error(e, linux_image_message()),
    {
        Err(clipboard_error("Clipboard image access is not supported on Linux"))
    }

    fn is_empty(&self) -> (r: Result<bool, MfError>)
        ensures
            r matches Err(e) && is_clipboard_error(e, linux_text_message()),
    {
        Err(clipboard_error("Clipboard access requires xclip or wl-clipboard to be installed"))
    }

    fn clear(&self) -> (r: Result<(), MfError>)
        ensures
            r matches Err(e) && is_clipboard_error(e, linux_text_message()),
    {
        Err(clipboard_error("Clipboard access requires xclip or wl-clipboard to be installed"))
    }
}

/// The clipboard, through the provider of the platform.
pub struct Clipboard<P: ClipboardProvider> {
    provider: P,
}

impl<P: ClipboardProvider> Clipboard<P> {
    /// The provider the clipboard works through.
    pub closed spec fn provider(&self) -> P {
        self.provider
    }

    /// A clipboard over `provider`; this always succeeds.
    pub fn new(provider: P) -> (r: Result<Self, MfError>)
        ensures
            r matches Ok(c) && c.provider() == provider,
    {
        Ok(Clipboard { provider })
    }

    /// The text on the clipboard: what the provider's `read_text` gives.
    pub fn read_text(&self) -> (r: Result<String, MfError>)
        ensures
            call_ensures(P::read_text, (&self.provider(),), r),
    {
        let read = P::read_text;
        read(&self.provider)
    }

    /// The image on the clipboard: what the provider's `read_image` gives.
    pub fn read_image(&self) -> (r: Result<ClipboardImage, MfError>)
        ensures
            call_ensures(P::read_image, (&self.provider(),), r),
    {
        let read = P::read_image;
        read(&self.provider)
    }

    /// Whether the clipboard is empty: what the provider's `is_empty` gives.
    pub fn is_empty(&self) -> (r: Result<bool, MfError>)
        ensures
            call_ensures(P::is_empty, (&self.provider(),), r),
    {
        let ask = P::is_empty;
        ask(&self.provider)
    }

    /// Clears the clipboard: what the provider's `clear` gives.
    pub fn clear(&self) -> (r: Result<(), MfError>)
        ensures
            call_ensures(P::clear, (&self.provider(),), r),
    {
        let clear = P::clear;
        clear(&self.provider)
    }
}

} // verus!
