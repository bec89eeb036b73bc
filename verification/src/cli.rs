//! The decisions of one run of the command: where content is read from
//! and how piped bytes become text, which conflict mode and which encoding
//! apply to a file, whether content is within the size limit, what an
//! answer to the mismatch prompt leads to, how the file is written, and
//! how a clipboard image is encoded for a file name.
use vstd::prelude::*;
use vstd::utf8::{decode_utf8, valid_utf8};
use crate::clipboard::ClipboardImage;
use crate::config::Config;
use crate::encoding::{detect_from_bytes, spec_detect_bytes};
use crate::conflict::{ConflictMode, decimal, push_decimal, spec_conflict_mode};
use crate::content_type::{ContentType, binary_message, check_match, detect_enhanced, ext_list, ext_matches, mismatch_message, spec_detect};
use crate::error::{MfError, is_invalid_argument};
use crate::path::{extension, file_stem, path_extension, path_file_stem, path_with_extension, with_extension};
use crate::text::{chars_of, is_blank, is_blank_exec, lowercase_of, push_str, str_eq, string_of, to_lowercase};

verus! {

/// The options of one run, as the command line gave them.
pub struct Args {
    /// The files to create.
    pub files: Vec<String>,
    /// Read the content from the clipboard.
    pub from_clipboard: bool,
    /// Append rather than overwrite.
    pub append: bool,
    /// Open the file afterwards.
    pub open: bool,
    /// Overwrite existing files without asking.
    pub force: bool,
    /// Skip existing files.
    pub no_clobber: bool,
    /// Back up a file before overwriting it.
    pub backup: bool,
    /// The conflict mode by name (`overwrite`, `skip`, `append`, `rename`).
    pub conflict: Option<String>,
    /// The encoding to write in.
    pub encoding: Option<String>,
    /// A file to read the content from.
    pub from_file: Option<String>,
    /// Only detect and show the encoding of the content; create no file.
    pub detect_encoding: bool,
    /// Report more.
    pub verbose: bool,
    /// Report internals.
    pub debug: bool,
    /// Report only errors.
    pub quiet: bool,
    /// Show the encoding reference.
    pub help_encoding: bool,
    /// Show examples.
    pub examples: bool,
    /// Show the configuration reference.
    pub help_config: bool,
    /// The size limit in MB, over the configured one.
    pub max_size: Option<u64>,
}

/// The text held by an optional string.
pub open spec fn opt_view(o: Option<String>) -> Option<Seq<char>> {
    match o {
        Some(s) => Some(s@),
        None => None,
    }
}

/// The conflict mode of a run (see `spec_conflict_mode`).
pub fn resolve_conflict_mode(args: &Args) -> (r: ConflictMode)
    ensures
        r == spec_conflict_mode(opt_view(args.conflict), args.force, args.no_clobber),
{
    match &args.conflict {
        Some(m) => {
            if str_eq(m.as_str(), "overwrite") {
                ConflictMode::Force
            } else if str_eq(m.as_str(), "skip") {
                ConflictMode::NoClobber
            } else if str_eq(m.as_str(), "append") {
                ConflictMode::Append
            } else if str_eq(m.as_str(), "rename") {
                ConflictMode::Rename
            } else {
                ConflictMode::Interactive
            }
        },
        None => {
            if args.force {
                ConflictMode::Force
            } else if args.no_clobber {
                ConflictMode::NoClobber
            } else {
                ConflictMode::Interactive
            }
        },
    }
}

/// The encoding configured for a file, by its lowercased extension:
/// `.bat` and `.cmd` take the batch encoding, `.ps1` the PowerShell one,
/// an extension with a custom entry that entry, anything else (and a file
/// without extension) the default encoding.
pub open spec fn spec_file_encoding(filename: Seq<char>, config: Config) -> Seq<char> {
    match extension(filename) {
        None => config.core.default_encoding@,
        Some(e) => {
            let l = lowercase_of(e);
            if l == "bat"@ || l == "cmd"@ {
                config.encodings.bat@
            } else if l == "ps1"@ {
                config.encodings.ps1@
            } else if config.encodings.custom@.contains_key(l) {
                config.encodings.custom@[l]@
            } else {
                config.core.default_encoding@
            }
        },
    }
}

/// The encoding configured for `filename` (see `spec_file_encoding`).
pub fn resolve_encoding(filename: &str, config: &Config) -> (r: String)
    ensures
        r@ == spec_file_encoding(filename@, *config),
{
    match crate::path::path_extension(filename) {
        None => config.core.default_encoding.clone(),
        Some(e) => {
            let lv = to_lowercase(&chars_of(e.as_str()));
            let l = string_of(&lv);
            if str_eq(l.as_str(), "bat") || str_eq(l.as_str(), "cmd") {
                config.encodings.bat.clone()
            } else if str_eq(l.as_str(), "ps1") {
                config.encodings.ps1.clone()
            } else {
                match config.encodings.custom.get(l.as_str()) {
                    Some(v) => v.clone(),
                    None => config.core.default_encoding.clone(),
                }
            }
        },
    }
}

/// The encoding a file is written in: the one given on the command line,
/// else the configured one.
pub fn encoding_for(args: &Args, filename: &str, config: &Config) -> (r: String)
    ensures
        r@ == match args.encoding {
            Some(e) => e@,
            None => spec_file_encoding(filename@, *config),
        },
{
    match &args.encoding {
        Some(e) => e.clone(),
        None => resolve_encoding(filename, config),
    }
}

// ------------------------------------------------------------------
// Content sources
// ------------------------------------------------------------------

/// A place content is read from.
#[derive(Clone, Copy, Debug, PartialEq, Eq, Structural)]
pub enum ContentSource {
    /// The clipboard's text; when it holds none, there is no content (an
    /// image is looked for when writing).
    Clipboard,
    /// Bytes piped to standard input, when it is not a terminal.
    Pipe,
    /// The file named by `--from-file`, its encoding detected or not.
    File { detect_encoding: bool },
}

/// The places content is looked for, in order, until one gives some.
/// With `-c`: the file named by `--from-file` first, if there is one, then
/// the clipboard. Without: a pipe, then the file named by `--from-file`
/// if there is one.
pub open spec fn spec_content_sources(args: Args) -> Seq<ContentSource> {
    let file = ContentSource::File { detect_encoding: args.detect_encoding };
    if args.from_clipboard {
        if args.from_file is Some {
            seq![file, ContentSource::Clipboard]
        } else {
            seq![ContentSource::Clipboard]
        }
    } else if args.from_file is Some {
        seq![ContentSource::Pipe, file]
    } else {
        seq![ContentSource::Pipe]
    }
}

/// The places content is looked for (see `spec_content_sources`).
pub fn content_sources(args: &Args) -> (r: Vec<ContentSource>)
    ensures
        r@ == spec_content_sources(*args),
{
    let mut r: Vec<ContentSource> = Vec::new();
    if args.from_clipboard {
        if args.from_file.is_some() {
            r.push(ContentSource::File { detect_encoding: args.detect_encoding });
        }
        r.push(ContentSource::Clipboard);
    } else {
        r.push(ContentSource::Pipe);
        if args.from_file.is_some() {
            r.push(ContentSource::File { detect_encoding: args.detect_encoding });
        }
    }
    assert(r@ =~= spec_content_sources(*args));
    r
}

// ------------------------------------------------------------------
// Extension correction
// ------------------------------------------------------------------

/// The path with the extension corrected for `ct`: the first suggested
/// extension put in place of the current one. `None` when `ct` suggests
/// none, when the path has no file name, or when its extension already is
/// that one (the corrected path would be the same path).
pub open spec fn spec_auto_correct(path: Seq<char>, ct: ContentType) -> Option<Seq<char>> {
    if ext_list(ct).len() == 0 || file_stem(path) is None || extension(path) == Some(
        ext_list(ct)[0]@,
    ) {
        None
    } else {
        Some(with_extension(path, ext_list(ct)[0]@))
    }
}

/// Corrects the extension of `path` for `content_type` (see `spec_auto_correct`).
pub fn auto_correct_extension(path: &str, content_type: &ContentType) -> (r: Option<String>)
    ensures
        opt_view(r) == spec_auto_correct(path@, *content_type),
{
    let suggested = content_type.suggested_extensions();
    if suggested.len() == 0 {
        return None;
    }
    let new_ext = suggested[0];
    if path_file_stem(path).is_none() {
        return None;
    }
    match path_extension(path) {
        Some(e) => {
            if str_eq(e.as_str(), new_ext) {
                return None;
            }
        },
        None => {},
    }
    Some(path_with_extension(path, new_ext))
}

// ------------------------------------------------------------------
// Size limit
// ------------------------------------------------------------------

/// The size limit in MB: the command line's, else the configured one.
pub open spec fn size_limit(args: Args, config: Config) -> u64 {
    match args.max_size {
        Some(m) => m,
        None => config.core.max_file_size_mb,
    }
}

/// The message for content over the limit of `mb` MB.
pub open spec fn size_limit_message(mb: nat) -> Seq<char> {
    "内容超过大小限制 ("@ + decimal(mb) + " MB)，请使用 --max-size 增加限制或 --force 跳过"@
}

/// Content is accepted when its UTF-8 size is at most the limit
/// (`size_limit`) times 1024 × 1024 bytes; otherwise an `InvalidArgument`
/// error naming the limit.
pub fn check_size(args: &Args, config: &Config, content: &str) -> (r: Result<(), MfError>)
    ensures
        r is Ok <==> content.len() as int <= size_limit(*args, *config) as int * 1048576,
        r matches Err(e) ==> is_invalid_argument(
            e,
            size_limit_message(size_limit(*args, *config) as nat),
        ),
{
    let max_size = match args.max_size {
        Some(m) => m,
        None => config.core.max_file_size_mb,
    };
    let limit: u128 = (max_size as u128) * 1048576;
    if (content.len() as u128) > limit {
        let mut m = String::new();
        push_str(&mut m, "内容超过大小限制 (");
        push_decimal(&mut m, max_size);
        push_str(&mut m, " MB)，请使用 --max-size 增加限制或 --force 跳过");
        return Err(MfError::InvalidArgument(m));
    }
    Ok(())
}

// ------------------------------------------------------------------
// Content and extension
// ------------------------------------------------------------------

/// The content type to check against the file's extension: none for
/// blank content, else the detected type (see `detect_enhanced`).
pub fn detected_type(content: &str, filename: &str) -> (r: Option<ContentType>)
    ensures
        is_blank(content@) ==> r is None,
        !is_blank(content@) ==> r == Some(spec_detect(content@)),
{
    if is_blank_exec(&chars_of(content)) {
        None
    } else {
        Some(detect_enhanced(content, Some(filename)))
    }
}

/// A mismatch is put to the user when the extension does not suit the
/// content and neither `--force` nor `--conflict` was given; the result is
/// then the warning shown (the error of `check_match`).
pub fn mismatch_warning(args: &Args, content_type: &ContentType, filename: &str) -> (r: Option<
    MfError,
>)
    ensures
        r is Some <==> !ext_matches(*content_type, filename@) && !args.force && args.conflict is None,
        r matches Some(err) ==> is_invalid_argument(
            err,
            if *content_type == ContentType::Binary {
                binary_message()
            } else {
                mismatch_message(*content_type, extension(filename@)->0)
            },
        ),
{
    if args.force || args.conflict.is_some() {
        return None;
    }
    match check_match(content_type, filename) {
        Ok(()) => None,
        Err(e) => Some(e),
    }
}

/// The options of the mismatch prompt, as (label, hint): keep the name,
/// correct the extension (only when `ct` suggests one), preview the
/// content, cancel. The last one, cancel, is the default.
pub open spec fn spec_mismatch_options(ct: ContentType) -> Seq<(Seq<char>, Seq<char>)> {
    if ext_list(ct).len() > 0 {
        seq![
            ("继续保存"@, "使用原扩展名"@),
            ("自动修正"@, "改为 ."@ + ext_list(ct)[0]@),
            ("查看内容"@, "预览前 100 字符"@),
            ("取消"@, "放弃操作"@),
        ]
    } else {
        seq![("继续保存"@, "使用原扩展名"@), ("查看内容"@, "预览前 100 字符"@), ("取消"@, "放弃操作"@)]
    }
}

/// The view of a list of options.
pub open spec fn options_view(v: Seq<(String, String)>) -> Seq<(Seq<char>, Seq<char>)> {
    v.map_values(|o: (String, String)| (o.0@, o.1@))
}

/// The options of the mismatch prompt (see `spec_mismatch_options`).
pub fn mismatch_options(content_type: &ContentType) -> (r: Vec<(String, String)>)
    ensures
        options_view(r@) == spec_mismatch_options(*content_type),
{
    let suggested = content_type.suggested_extensions();
    let mut r: Vec<(String, String)> = Vec::new();
    r.push(("继续保存".to_owned(), "使用原扩展名".to_owned()));
    if suggested.len() > 0 {
        let mut hint = "改为 .".to_owned();
        push_str(&mut hint, suggested[0]);
        r.push(("自动修正".to_owned(), hint));
    }
    r.push(("查看内容".to_owned(), "预览前 100 字符".to_owned()));
    r.push(("取消".to_owned(), "放弃操作".to_owned()));
    assert(options_view(r@) =~= spec_mismatch_options(*content_type));
    r
}

/// What an answer to the mismatch prompt leads to.
pub enum MismatchOutcome {
    /// Go on with the name as it is.
    Proceed,
    /// Start over with the corrected path.
    Retarget(String),
    /// Show a preview and ask again.
    Preview,
    /// Give up.
    Cancel,
}

/// Whether `r` is the outcome of answer `choice` (an index into the
/// options, `None` when nothing was chosen): 0 keeps the name; 1, when a
/// correction is offered, retargets to the corrected path (or keeps the
/// name when the correction would not change the path); the preview
/// option previews; anything else cancels.
pub open spec fn is_mismatch_outcome(
    r: MismatchOutcome,
    ct: ContentType,
    filename: Seq<char>,
    choice: Option<usize>,
) -> bool {
    let offered = ext_list(ct).len() > 0;
    let preview_index: int = if offered {
        2
    } else {
        1
    };
    match choice {
        Some(n) => if n == 0 {
            r is Proceed
        } else if n == 1 && offered {
            match spec_auto_correct(filename, ct) {
                Some(p) => r matches MismatchOutcome::Retarget(s) && s@ == p,
                None => r is Proceed,
            }
        } else if n == preview_index {
            r is Preview
        } else {
            r is Cancel
        },
        None => r is Cancel,
    }
}

/// The outcome of an answer to the mismatch prompt (see `is_mismatch_outcome`).
pub fn mismatch_outcome(content_type: &ContentType, filename: &str, choice: Option<usize>) -> (r:
    MismatchOutcome)
    ensures
        is_mismatch_outcome(r, *content_type, filename@, choice),
{
    let offered = content_type.suggested_extensions().len() > 0;
    let preview_index: usize = if offered {
        2
    } else {
        1
    };
    match choice {
        Some(n) => {
            if n == 0 {
                MismatchOutcome::Proceed
            } else if n == 1 && offered {
                match auto_correct_extension(filename, content_type) {
                    Some(p) => MismatchOutcome::Retarget(p),
                    None => MismatchOutcome::Proceed,
                }
            } else if n == preview_index {
                MismatchOutcome::Preview
            } else {
                MismatchOutcome::Cancel
            }
        },
        None => MismatchOutcome::Cancel,
    }
}

/// The options asked after a preview: keep the name, or cancel (the default).
pub fn after_preview_options() -> (r: Vec<(String, String)>)
    ensures
        options_view(r@) == seq![("继续保存"@, "使用原扩展名"@), ("取消"@, "放弃操作"@)],
{
    let mut r: Vec<(String, String)> = Vec::new();
    r.push(("继续保存".to_owned(), "使用原扩展名".to_owned()));
    r.push(("取消".to_owned(), "放弃操作".to_owned()));
    assert(options_view(r@) =~= seq![("继续保存"@, "使用原扩展名"@), ("取消"@, "放弃操作"@)]);
    r
}

/// The answer after a preview: only the first option (keep the name)
/// goes on; anything else cancels.
pub fn after_preview(retry: Option<usize>) -> (r: Result<(), MfError>)
    ensures
        r is Ok <==> retry == Some(0usize),
        r matches Err(e) ==> e is UserCancelled,
{
    match retry {
        Some(0) => Ok(()),
        _ => Err(MfError::UserCancelled),
    }
}

// ------------------------------------------------------------------
// Writing
// ------------------------------------------------------------------

/// How the file is finally written.
#[derive(Clone, Copy, Debug, PartialEq, Eq, Structural)]
pub enum WriteAction {
    /// Write the content, replacing the file.
    Write,
    /// Append the content to the file.
    Append,
    /// Save the clipboard image.
    SaveImage,
    /// Create an empty file.
    CreateEmpty,
    /// Only show the encoding detected for the content; no file is created.
    ShowEncoding,
}

/// With `--detect-encoding`: only show the encoding, create nothing.
/// Otherwise, with content: append when `--append` was given, else write.
/// Without content: the clipboard image when reading from the clipboard,
/// else an empty file.
pub open spec fn spec_write_action(
    has_content: bool,
    append: bool,
    from_clipboard: bool,
    detect_encoding: bool,
) -> WriteAction {
    if detect_encoding {
        WriteAction::ShowEncoding
    } else if has_content {
        if append {
            WriteAction::Append
        } else {
            WriteAction::Write
        }
    } else if from_clipboard {
        WriteAction::SaveImage
    } else {
        WriteAction::CreateEmpty
    }
}

/// How the file is written (see `spec_write_action`).
pub fn write_action(args: &Args, has_content: bool) -> (r: WriteAction)
    ensures
        r == spec_write_action(has_content, args.append, args.from_clipboard, args.detect_encoding),
{
    if args.detect_encoding {
        WriteAction::ShowEncoding
    } else if has_content {
        if args.append {
            WriteAction::Append
        } else {
            WriteAction::Write
        }
    } else if args.from_clipboard {
        WriteAction::SaveImage
    } else {
        WriteAction::CreateEmpty
    }
}

// ------------------------------------------------------------------
// Clipboard images
// ------------------------------------------------------------------

/// The image formats a clipboard image can be saved in.
#[derive(Clone, Copy, Debug, PartialEq, Eq, Structural)]
pub enum ImageKind {
    Png,
    Jpeg,
    Bmp,
    Gif,
    Ico,
    WebP,
}

/// The extension that selects the image format: the file's, else `png`,
/// lowercased.
pub open spec fn image_ext(filename: Seq<char>) -> Seq<char> {
    lowercase_of(
        match extension(filename) {
            Some(e) => e,
            None => "png"@,
        },
    )
}

/// The image format of a lowercased extension.
pub open spec fn kind_of_ext(e: Seq<char>) -> Option<ImageKind> {
    if e == "png"@ {
        Some(ImageKind::Png)
    } else if e == "jpg"@ || e == "jpeg"@ {
        Some(ImageKind::Jpeg)
    } else if e == "bmp"@ {
        Some(ImageKind::Bmp)
    } else if e == "gif"@ {
        Some(ImageKind::Gif)
    } else if e == "ico"@ {
        Some(ImageKind::Ico)
    } else if e == "webp"@ {
        Some(ImageKind::WebP)
    } else {
        None
    }
}

/// The message for an extension that names no supported image format.
pub open spec fn unsupported_image_message(e: Seq<char>) -> Seq<char> {
    "不支持的图片格式: ."@ + e + "，支持: png, jpg, bmp, gif, ico, webp"@
}

/// The image format a file name asks for; an `InvalidArgument` error for
/// an unsupported extension.
pub fn image_kind_for(filename: &str) -> (r: Result<ImageKind, MfError>)
    ensures
        match kind_of_ext(image_ext(filename@)) {
            Some(k) => r == Ok::<ImageKind, MfError>(k),
            None => r matches Err(e) && is_invalid_argument(
                e,
                unsupported_image_message(image_ext(filename@)),
            ),
        },
{
    let raw = match path_extension(filename) {
        Some(e) => e,
        None => "png".to_owned(),
    };
    let ev = to_lowercase(&chars_of(raw.as_str()));
    let e = string_of(&ev);
    let es = e.as_str();
    if str_eq(es, "png") {
        Ok(ImageKind::Png)
    } else if str_eq(es, "jpg") || str_eq(es, "jpeg") {
        Ok(ImageKind::Jpeg)
    } else if str_eq(es, "bmp") {
        Ok(ImageKind::Bmp)
    } else if str_eq(es, "gif") {
        Ok(ImageKind::Gif)
    } else if str_eq(es, "ico") {
        Ok(ImageKind::Ico)
    } else if str_eq(es, "webp") {
        Ok(ImageKind::WebP)
    } else {
        let mut m = String::new();
        push_str(&mut m, "不支持的图片格式: .");
        push_str(&mut m, es);
        push_str(&mut m, "，支持: png, jpg, bmp, gif, ico, webp");
        Err(MfError::InvalidArgument(m))
    }
}

/// RGBA pixels of `width` × `height` fit in `len` bytes (four bytes a pixel).
pub open spec fn rgba_fits(width: u32, height: u32, len: int) -> bool {
    4 * width * height <= len
}

/// RGBA pixels of `width` × `height` take exactly `len` bytes.
pub open spec fn rgba_exact(width: u32, height: u32, len: int) -> bool {
    4 * width * height == len
}

/// A clipboard image ready to be encoded: its size, its pixels, the
/// format to write and the extension that chose it.
pub struct ImageJob {
    pub width: u32,
    pub height: u32,
    pub data: Vec<u8>,
    pub kind: ImageKind,
    pub ext: String,
}

/// The message for pixel data too short for the image size.
pub open spec fn invalid_image_message() -> Seq<char> {
    "无效的图片数据"@
}

/// Prepares a clipboard image for `filename`: the format from the file
/// name (an error for an unsupported one), then the size taken as 32-bit
/// (`as u32`), which the pixel data must fill (else an `InvalidArgument`
/// error); pixel data beyond the size is left out.
pub fn prepare_image(img: ClipboardImage, filename: &str) -> (r: Result<ImageJob, MfError>)
    ensures
        match kind_of_ext(image_ext(filename@)) {
            None => r matches Err(e) && is_invalid_argument(
                e,
                unsupported_image_message(image_ext(filename@)),
            ),
            Some(k) => if rgba_fits(img.width as u32, img.height as u32, img.data@.len() as int) {
                r matches Ok(job) && job.width == img.width as u32 && job.height == img.height
                    as u32 && job.data@ == img.data@.take(4 * job.width * job.height) && job.kind
                    == k && job.ext@ == image_ext(filename@)
            } else {
                r matches Err(e) && is_invalid_argument(e, invalid_image_message())
            },
        },
{
    let kind = image_kind_for(filename)?;
    let raw = match path_extension(filename) {
        Some(e) => e,
        None => "png".to_owned(),
    };
    let ext = string_of(&to_lowercase(&chars_of(raw.as_str())));
    let width = #[verifier::truncate] (img.width as u32);
    let height = #[verifier::truncate] (img.height as u32);
    let w: u128 = width as u128;
    let h: u128 = height as u128;
    assert(4 * w * h <= 4 * 0xffff_ffffu128 * 0xffff_ffffu128) by (nonlinear_arith)
        requires
            w <= 0xffff_ffff,
            h <= 0xffff_ffff,
    ;
    let needed: u128 = 4 * w * h;
    if needed > img.data.len() as u128 {
        let mut m = String::new();
        push_str(&mut m, "无效的图片数据");
        return Err(MfError::InvalidArgument(m));
    }
    let mut data = img.data;
    data.truncate(needed as usize);
    Ok(ImageJob { width, height, data, kind, ext })
}

/// What encoding RGBA pixels of the given size in the given format gives:
/// the encoded file, or the text of the encoder's error.
pub uninterp spec fn image_encoding(width: u32, height: u32, data: Seq<u8>, kind: ImageKind) -> Result<
    Seq<u8>,
    Seq<char>,
>;

/// `RgbaImage::from_raw` and `DynamicImage::write_to` of `image`, into
/// memory. `from_raw` accepts pixels that fill the size, and the encoders
/// assert that the buffer is exactly that size, so `requires` asks for
/// exactly four bytes a pixel; the encoded bytes, or the error's text, are named.
#[verifier::external_body]
fn encode_rgba(width: u32, height: u32, data: Vec<u8>, kind: ImageKind) -> (r: Result<
    Vec<u8>,
    String,
>)
    requires
        rgba_exact(width, height, data@.len() as int),
    ensures
        match r {
            Ok(b) => image_encoding(width, height, data@, kind) == Ok::<Seq<u8>, Seq<char>>(b@),
            Err(m) => image_encoding(width, height, data@, kind) == Err::<Seq<u8>, Seq<char>>(m@),
        },
{
    let format = match kind {
        ImageKind::Png => image::ImageFormat::Png,
        ImageKind::Jpeg => image::ImageFormat::Jpeg,
        ImageKind::Bmp => image::ImageFormat::Bmp,
        ImageKind::Gif => image::ImageFormat::Gif,
        ImageKind::Ico => image::ImageFormat::Ico,
        ImageKind::WebP => image::ImageFormat::WebP,
    };
    let buf = image::RgbaImage::from_raw(width, height, data).unwrap();
    let mut out = std::io::Cursor::new(Vec::new());
    image::DynamicImage::ImageRgba8(buf).write_to(&mut out, format).map_err(|e| e.to_string())?;
    Ok(out.into_inner())
}

/// The message for an image the encoder refused.
pub open spec fn image_failure_message(reason: Seq<char>) -> Seq<char> {
    "图片编码失败: "@ + reason
}

/// Encodes a prepared image in its format; an `InvalidArgument` error
/// carrying the encoder's reason when it refuses.
pub fn encode_image(job: ImageJob) -> (r: Result<Vec<u8>, MfError>)
    requires
        rgba_exact(job.width, job.height, job.data@.len() as int),
    ensures
        match image_encoding(job.width, job.height, job.data@, job.kind) {
            Ok(b) => r matches Ok(v) && v@ == b,
            Err(m) => r matches Err(e) && is_invalid_argument(e, image_failure_message(m)),
        },
{
    let ImageJob { width, height, data, kind, ext: _ } = job;
    match encode_rgba(width, height, data, kind) {
        Ok(b) => Ok(b),
        Err(reason) => {
            let mut m = String::new();
            push_str(&mut m, "图片编码失败: ");
            push_str(&mut m, reason.as_str());
            Err(MfError::InvalidArgument(m))
        },
    }
}

// ------------------------------------------------------------------
// Piped input
// ------------------------------------------------------------------

/// What `String::from_utf8_lossy` gives for `data`.
pub uninterp spec fn lossy_text(data: Seq<u8>) -> Seq<char>;

/// What `Encoding::for_label` of `encoding_rs` finds for `label`, then
/// `Encoding::decode` gives for `data` with it: the text and whether
/// malformed sequences were replaced; `None` for an unknown label.
pub uninterp spec fn label_decoding(label: Seq<char>, data: Seq<u8>) -> Option<(Seq<char>, bool)>;

/// `String::from_utf8`: the text exactly when `data` is valid UTF-8.
#[verifier::external_body]
fn utf8_text(data: &[u8]) -> (r: Option<String>)
    ensures
        r is Some <==> valid_utf8(data@),
        r matches Some(t) ==> t@ == decode_utf8(data@),
{
    String::from_utf8(data.to_vec()).ok()
}

/// `String::from_utf8_lossy`: named; valid UTF-8 comes back as is.
#[verifier::external_body]
fn utf8_lossy(data: &[u8]) -> (r: String)
    ensures
        r@ == lossy_text(data@),
        valid_utf8(data@) ==> r@ == decode_utf8(data@),
{
    String::from_utf8_lossy(data).into_owned()
}

/// `Encoding::for_label` then `Encoding::decode` (with byte-order-mark
/// sniffing) of `encoding_rs`; the result is named.
#[verifier::external_body]
fn decode_by_label(label: &str, data: &[u8]) -> (r: Option<(String, bool)>)
    ensures
        match r {
            Some((t, had_errors)) => label_decoding(label@, data@) == Some((t@, had_errors)),
            None => label_decoding(label@, data@) is None,
        },
{
    match encoding_rs::Encoding::for_label(label.as_bytes()) {
        Some(enc) => {
            let (cow, _, had_errors) = enc.decode(data);
            Some((cow.into_owned(), had_errors))
        },
        None => None,
    }
}

/// The encodings tried for piped bytes after the detected one: the
/// common ANSI code pages of Windows consoles.
pub open spec fn pipe_fallbacks() -> Seq<Seq<char>> {
    seq!["gbk"@, "gb18030"@, "shift_jis"@, "euc-kr"@, "big5"@, "iso-2022-jp"@]
}

/// The encodings tried for piped bytes, in order: the detected one
/// (see `spec_detect_bytes`), then the fallbacks.
pub open spec fn pipe_labels(data: Seq<u8>) -> Seq<Seq<char>> {
    seq![spec_detect_bytes(data)] + pipe_fallbacks()
}

/// The first decoding of `data` under `labels` that is known, not blank
/// and, when `strict`, free of replaced sequences.
pub open spec fn pick_decoding(labels: Seq<Seq<char>>, data: Seq<u8>, strict: bool) -> Option<
    Seq<char>,
>
    decreases labels.len(),
{
    if labels.len() == 0 {
        None
    } else {
        match label_decoding(labels[0], data) {
            Some((text, had_errors)) => if !(strict && had_errors) && !is_blank(text) {
                Some(text)
            } else {
                pick_decoding(labels.drop_first(), data, strict)
            },
            None => pick_decoding(labels.drop_first(), data, strict),
        }
    }
}

/// The text of piped bytes: nothing for no bytes; the UTF-8 text when the
/// bytes are valid UTF-8 and not blank; else the first clean decoding
/// under the tried encodings; else the first one with replacements; else
/// the lossy UTF-8 text; nothing when even that is blank.
pub open spec fn spec_piped_text(data: Seq<u8>) -> Option<Seq<char>> {
    if data.len() == 0 {
        None
    } else if valid_utf8(data) && !is_blank(decode_utf8(data)) {
        Some(decode_utf8(data))
    } else if pick_decoding(pipe_labels(data), data, true) is Some {
        pick_decoding(pipe_labels(data), data, true)
    } else if pick_decoding(pipe_labels(data), data, false) is Some {
        pick_decoding(pipe_labels(data), data, false)
    } else if !is_blank(lossy_text(data)) {
        Some(lossy_text(data))
    } else {
        None
    }
}

/// The view of a list of labels.
pub open spec fn labels_view(v: Seq<&str>) -> Seq<Seq<char>> {
    v.map_values(|l: &str| l@)
}

/// The first acceptable decoding under `labels` (see `pick_decoding`).
fn pick_text(labels: &Vec<&str>, data: &[u8], strict: bool) -> (r: Option<String>)
    ensures
        opt_view(r) == pick_decoding(labels_view(labels@), data@, strict),
{
    let mut i: usize = 0;
    assert(labels_view(labels@).skip(0) =~= labels_view(labels@));
    while i < labels.len()
        invariant
            0 <= i <= labels.len(),
            pick_decoding(labels_view(labels@), data@, strict) == pick_decoding(
                labels_view(labels@).skip(i as int),
                data@,
                strict,
            ),
        decreases labels.len() - i,
    {
        let ghost rest = labels_view(labels@).skip(i as int);
        assert(rest[0] == labels[i as int]@);
        assert(rest.drop_first() =~= labels_view(labels@).skip(i + 1));
        match decode_by_label(labels[i], data) {
            Some((t, had_errors)) => {
                if !(strict && had_errors) && !is_blank_exec(&chars_of(t.as_str())) {
                    return Some(t);
                }
            },
            None => {},
        }
        i += 1;
    }
    assert(labels_view(labels@).skip(i as int).len() == 0);
    None
}

/// The text of piped bytes (see `spec_piped_text`).
pub fn decode_piped_input(data: &[u8]) -> (r: Option<String>)
    ensures
        opt_view(r) == spec_piped_text(data@),
{
    if data.len() == 0 {
        return None;
    }
    match utf8_text(data) {
        Some(t) => {
            if !is_blank_exec(&chars_of(t.as_str())) {
                return Some(t);
            }
        },
        None => {},
    }
    let labels: Vec<&str> = vec![
        detect_from_bytes(data),
        "gbk",
        "gb18030",
        "shift_jis",
        "euc-kr",
        "big5",
        "iso-2022-jp",
    ];
    assert(labels_view(labels@) =~= pipe_labels(data@));
    match pick_text(&labels, data, true) {
        Some(t) => return Some(t),
        None => {},
    }
    match pick_text(&labels, data, false) {
        Some(t) => return Some(t),
        None => {},
    }
    let t = utf8_lossy(data);
    if !is_blank_exec(&chars_of(t.as_str())) {
        Some(t)
    } else {
        None
    }
}

} // verus!
