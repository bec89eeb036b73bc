//! The error type of the library, the message shown for each error and
//! the process exit code of each error.
use vstd::prelude::*;
use crate::text::push_str;

verus! {

/// The standard library's I/O error, carried as the cause of a file-system error.
#[verifier::external_type_specification]
#[verifier::external_body]
pub struct ExIoError(std::io::Error);

/// What can go wrong while creating a file.
#[derive(Debug)]
pub enum MfError {
    InvalidArgument(String),
    FileSystem { reason: String, path: String, source: Option<std::io::Error> },
    Clipboard(String),
    Encoding(String),
    UserCancelled,
    Internal(String),
}

/// `e` is an `InvalidArgument` error with message `m`.
pub open spec fn is_invalid_argument(e: MfError, m: Seq<char>) -> bool {
    e matches MfError::InvalidArgument(x) && x@ == m
}

/// `e` is an `Encoding` error with message `m`.
pub open spec fn is_encoding_error(e: MfError, m: Seq<char>) -> bool {
    e matches MfError::Encoding(x) && x@ == m
}

/// The exit code of each kind of error.
pub open spec fn spec_exit_code(e: MfError) -> u8 {
    match e {
        MfError::InvalidArgument(_) => 1,
        MfError::FileSystem { .. } => 2,
        MfError::Clipboard(_) => 3,
        MfError::Encoding(_) => 4,
        MfError::UserCancelled => 5,
        MfError::Internal(_) => 127,
    }
}

/// The message shown to the user for `e`.
pub open spec fn spec_message(e: MfError) -> Seq<char> {
    match e {
        MfError::InvalidArgument(m) => "提示: "@ + m@,
        MfError::FileSystem { reason, path, .. } => "文件访问遇到问题: "@ + reason@ + " (路径: "@ + path@
            + ")"@,
        MfError::Clipboard(m) => "剪贴板操作未完成: "@ + m@,
        MfError::Encoding(m) => "编码处理遇到问题: "@ + m@,
        MfError::UserCancelled => "操作已取消"@,
        MfError::Internal(m) => "程序内部异常: "@ + m@,
    }
}

impl MfError {
    /// The message shown to the user (see `spec_message`).
    pub fn message(&self) -> (r: String)
        ensures
            r@ == spec_message(*self),
    {
        let mut r = String::new();
        match self {
            MfError::InvalidArgument(m) => {
                push_str(&mut r, "提示: ");
                push_str(&mut r, m.as_str());
            },
            MfError::FileSystem { reason, path, .. } => {
                push_str(&mut r, "文件访问遇到问题: ");
                push_str(&mut r, reason.as_str());
                push_str(&mut r, " (路径: ");
                push_str(&mut r, path.as_str());
                push_str(&mut r, ")");
            },
            MfError::Clipboard(m) => {
                push_str(&mut r, "剪贴板操作未完成: ");
                push_str(&mut r, m.as_str());
            },
            MfError::Encoding(m) => {
                push_str(&mut r, "编码处理遇到问题: ");
                push_str(&mut r, m.as_str());
            },
            MfError::UserCancelled => {
                push_str(&mut r, "操作已取消");
            },
            MfError::Internal(m) => {
                push_str(&mut r, "程序内部异常: ");
                push_str(&mut r, m.as_str());
            },
        }
        proof {
            assert(Seq::<char>::empty() + "操作已取消"@ =~= "操作已取消"@);
        }
        r
    }

    /// The process exit code that reports this error.
    pub fn exit_code(&self) -> (r: u8)
        ensures
            r == spec_exit_code(*self),
    {
        match self {
            MfError::InvalidArgument(_) => 1,
            MfError::FileSystem { .. } => 2,
            MfError::Clipboard(_) => 3,
            MfError::Encoding(_) => 4,
            MfError::UserCancelled => 5,
            MfError::Internal(_) => 127,
        }
    }
}

/// The text of an I/O error (its `Display` form, which depends on the
/// operating system's messages: nothing is stated of it).
#[verifier::external_body]
fn io_error_text(err: &std::io::Error) -> String {
    err.to_string()
}

impl From<std::io::Error> for MfError {
    /// An I/O error becomes a file-system error with an empty path that
    /// keeps the I/O error as its cause.
    fn from(err: std::io::Error) -> (r: Self)
        ensures
            r matches MfError::FileSystem { path, source, .. } && path@.len() == 0 && source
                == Some(err),
    {
        let reason = io_error_text(&err);
        MfError::FileSystem { reason, path: String::new(), source: Some(err) }
    }
}

impl vstd::std_specs::convert::FromSpecImpl<std::io::Error> for MfError {
    open spec fn obeys_from_spec() -> bool {
        false
    }

    open spec fn from_spec(v: std::io::Error) -> MfError {
        vstd::pervasive::arbitrary()
    }
}

} // verus!
