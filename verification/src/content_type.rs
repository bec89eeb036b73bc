//! Content-type detection: a weighted score over language signals, the
//! structured formats checked by their parsers, and the check of a file
//! extension against what was detected.
//!
//! Confidences are whole hundredths: a confidence of `88` is 0.88.
use vstd::prelude::*;
use crate::error::{MfError, is_invalid_argument};
use crate::path::{extension, path_extension};
use crate::text::{
    chars_of, contains, contains_char, contains_vec, count_matches, count_matches_exec, ends_with,
    find_from, first_from, has_prefix, has_sub, has_suffix, is_alphabetic, is_alphanumeric,
    is_ascii_alpha, is_ascii_alpha_exec, lines, lines_exec, lowercase_of, push_str, starts_with,
    str_eq, sub_vec, to_lowercase, to_uppercase, trim, trim_exec, unicode_alphabetic,
    unicode_alphanumeric, uppercase_of, concat_vec, string_of, vec_eq, is_blank,
};

verus! {

/// The kinds of content that can be detected.
#[derive(Debug, Clone, Copy, PartialEq, Eq, Structural)]
pub enum ContentType {
    Json,
    Xml,
    Html,
    Python,
    JavaScript,
    TypeScript,
    Sql,
    Shell,
    Batch,
    PowerShell,
    Ruby,
    Php,
    C,
    Cpp,
    Rust,
    Go,
    Java,
    CSharp,
    Yaml,
    Toml,
    Csv,
    Markdown,
    PlainText,
    Binary,
}

/// The extensions that suit each content type, best first.
pub open spec fn ext_list(ct: ContentType) -> Seq<&'static str> {
    match ct {
        ContentType::Json => seq!["json"],
        ContentType::Xml => seq!["xml", "html", "svg"],
        ContentType::Html => seq!["html", "htm"],
        ContentType::Python => seq!["py"],
        ContentType::JavaScript => seq!["js", "mjs", "cjs"],
        ContentType::TypeScript => seq!["ts"],
        ContentType::Sql => seq!["sql"],
        ContentType::Shell => seq!["sh", "bash"],
        ContentType::Batch => seq!["bat", "cmd"],
        ContentType::PowerShell => seq!["ps1"],
        ContentType::Ruby => seq!["rb"],
        ContentType::Php => seq!["php"],
        ContentType::C => seq!["c", "h"],
        ContentType::Cpp => seq!["cpp", "hpp", "cc", "cxx"],
        ContentType::Rust => seq!["rs"],
        ContentType::Go => seq!["go"],
        ContentType::Java => seq!["java"],
        ContentType::CSharp => seq!["cs"],
        ContentType::Yaml => seq!["yaml", "yml"],
        ContentType::Toml => seq!["toml"],
        ContentType::Csv => seq!["csv"],
        ContentType::Markdown => seq!["md", "markdown"],
        ContentType::PlainText => seq!["txt", "md"],
        ContentType::Binary => seq![],
    }
}

/// The display name of each content type.
pub open spec fn display_name(ct: ContentType) -> &'static str {
    match ct {
        ContentType::Json => "JSON",
        ContentType::Xml => "XML",
        ContentType::Html => "HTML",
        ContentType::Python => "Python",
        ContentType::JavaScript => "JavaScript",
        ContentType::TypeScript => "TypeScript",
        ContentType::Sql => "SQL",
        ContentType::Shell => "Shell",
        ContentType::Batch => "Batch",
        ContentType::PowerShell => "PowerShell",
        ContentType::Ruby => "Ruby",
        ContentType::Php => "PHP",
        ContentType::C => "C",
        ContentType::Cpp => "C++",
        ContentType::Rust => "Rust",
        ContentType::Go => "Go",
        ContentType::Java => "Java",
        ContentType::CSharp => "C#",
        ContentType::Yaml => "YAML",
        ContentType::Toml => "TOML",
        ContentType::Csv => "CSV",
        ContentType::Markdown => "Markdown",
        ContentType::PlainText => "Plain Text",
        ContentType::Binary => "Binary",
    }
}

impl ContentType {
    /// The extensions that suit this content type, best first.
    pub fn suggested_extensions(&self) -> (r: Vec<&'static str>)
        ensures
            r@ == ext_list(*self),
    {
        let r = match self {
            ContentType::Json => vec!["json"],
            ContentType::Xml => vec!["xml", "html", "svg"],
            ContentType::Html => vec!["html", "htm"],
            ContentType::Python => vec!["py"],
            ContentType::JavaScript => vec!["js", "mjs", "cjs"],
            ContentType::TypeScript => vec!["ts"],
            ContentType::Sql => vec!["sql"],
            ContentType::Shell => vec!["sh", "bash"],
            ContentType::Batch => vec!["bat", "cmd"],
            ContentType::PowerShell => vec!["ps1"],
            ContentType::Ruby => vec!["rb"],
            ContentType::Php => vec!["php"],
            ContentType::C => vec!["c", "h"],
            ContentType::Cpp => vec!["cpp", "hpp", "cc", "cxx"],
            ContentType::Rust => vec!["rs"],
            ContentType::Go => vec!["go"],
            ContentType::Java => vec!["java"],
            ContentType::CSharp => vec!["cs"],
            ContentType::Yaml => vec!["yaml", "yml"],
            ContentType::Toml => vec!["toml"],
            ContentType::Csv => vec!["csv"],
            ContentType::Markdown => vec!["md", "markdown"],
            ContentType::PlainText => vec!["txt", "md"],
            ContentType::Binary => Vec::new(),
        };
        assert(r@ =~= ext_list(*self));
        r
    }

    /// The display name of this content type.
    pub fn name(&self) -> (r: &'static str)
        ensures
            r == display_name(*self),
    {
        match self {
            ContentType::Json => "JSON",
            ContentType::Xml => "XML",
            ContentType::Html => "HTML",
            ContentType::Python => "Python",
            ContentType::JavaScript => "JavaScript",
            ContentType::TypeScript => "TypeScript",
            ContentType::Sql => "SQL",
            ContentType::Shell => "Shell",
            ContentType::Batch => "Batch",
            ContentType::PowerShell => "PowerShell",
            ContentType::Ruby => "Ruby",
            ContentType::Php => "PHP",
            ContentType::C => "C",
            ContentType::Cpp => "C++",
            ContentType::Rust => "Rust",
            ContentType::Go => "Go",
            ContentType::Java => "Java",
            ContentType::CSharp => "C#",
            ContentType::Yaml => "YAML",
            ContentType::Toml => "TOML",
            ContentType::Csv => "CSV",
            ContentType::Markdown => "Markdown",
            ContentType::PlainText => "Plain Text",
            ContentType::Binary => "Binary",
        }
    }
}

/// The best suggested extension of a content type (`None` for binary data).
pub fn suggest_extension(content_type: &ContentType) -> (r: Option<&'static str>)
    ensures
        r == (if ext_list(*content_type).len() > 0 {
            Some(ext_list(*content_type)[0])
        } else {
            None::<&'static str>
        }),
{
    let v = content_type.suggested_extensions();
    if v.len() > 0 {
        Some(v[0])
    } else {
        None
    }
}

// ------------------------------------------------------------------
// Extension check
// ------------------------------------------------------------------

/// The extensions of text documents, which are not told apart.
pub open spec fn text_like(e: Seq<char>) -> bool {
    e == "log"@ || e == "txt"@ || e == "md"@ || e == "markdown"@
}

/// `e` is one of the extensions in `exts`.
pub open spec fn ext_listed(exts: Seq<&'static str>, e: Seq<char>) -> bool {
    exists|i: int| 0 <= i < exts.len() && (#[trigger] exts[i])@ == e
}

/// Some extension in `exts` is text-like once lowercased.
pub open spec fn has_text_like(exts: Seq<&'static str>) -> bool {
    exists|i: int| 0 <= i < exts.len() && text_like(lowercase_of((#[trigger] exts[i])@))
}

/// The extension of `filename` agrees with the content type: there is no
/// extension, it is a suggested one, or both it and a suggestion are text-like.
pub open spec fn ext_matches(ct: ContentType, filename: Seq<char>) -> bool {
    match extension(filename) {
        None => true,
        Some(e) => ext_listed(ext_list(ct), e) || (text_like(lowercase_of(e)) && has_text_like(
            ext_list(ct),
        )),
    }
}

/// `parts` joined with `sep` between them.
pub open spec fn join_exts(parts: Seq<&'static str>, sep: Seq<char>) -> Seq<char>
    decreases parts.len(),
{
    if parts.len() == 0 {
        seq![]
    } else if parts.len() == 1 {
        parts[0]@
    } else {
        join_exts(parts.drop_last(), sep) + sep + parts.last()@
    }
}

/// The message of a mismatch between extension `e` and content type `ct`.
pub open spec fn mismatch_message(ct: ContentType, e: Seq<char>) -> Seq<char> {
    "文件扩展名 '."@ + e + "' 与检测到的内容类型不匹配。建议扩展名: "@ + join_exts(ext_list(ct), ", "@)
}

/// The message for binary content.
pub open spec fn binary_message() -> Seq<char> {
    "检测到二进制数据，无法处理"@
}

/// `exts` joined with `", "`.
fn join_extensions(exts: &Vec<&'static str>) -> (r: String)
    ensures
        r@ == join_exts(exts@, ", "@),
{
    let mut r = String::new();
    let mut i: usize = 0;
    while i < exts.len()
        invariant
            0 <= i <= exts.len(),
            r@ == join_exts(exts@.take(i as int), ", "@),
        decreases exts.len() - i,
    {
        let ghost before = r@;
        if i > 0 {
            push_str(&mut r, ", ");
        }
        push_str(&mut r, exts[i]);
        proof {
            assert(exts@.take(i + 1).drop_last() =~= exts@.take(i as int));
            if i == 0 {
                assert(before =~= Seq::<char>::empty());
                assert(r@ =~= exts@[0]@);
            }
        }
        i += 1;
    }
    assert(exts@.take(exts.len() as int) =~= exts@);
    r
}

/// Whether `e` is one of `exts`.
fn ext_in(exts: &Vec<&'static str>, e: &str) -> (r: bool)
    ensures
        r == ext_listed(exts@, e@),
{
    let mut i: usize = 0;
    while i < exts.len()
        invariant
            0 <= i <= exts.len(),
            forall|k: int| 0 <= k < i ==> (#[trigger] exts@[k])@ != e@,
        decreases exts.len() - i,
    {
        if str_eq(exts[i], e) {
            return true;
        }
        i += 1;
    }
    false
}

/// Whether a lowercased text is text-like.
fn is_text_like(e: &Vec<char>) -> (r: bool)
    ensures
        r == text_like(e@),
{
    vec_eq(e, &chars_of("log")) || vec_eq(e, &chars_of("txt")) || vec_eq(e, &chars_of("md"))
        || vec_eq(e, &chars_of("markdown"))
}

/// Checks the extension of `filename` against the detected `content_type`.
/// `Ok` exactly when they agree (see `ext_matches`); otherwise an
/// `InvalidArgument` error: the binary message for binary content, else a
/// message naming the extension and the suggested ones.
pub fn check_match(content_type: &ContentType, filename: &str) -> (r: Result<(), MfError>)
    ensures
        r is Ok <==> ext_matches(*content_type, filename@),
        r matches Err(err) ==> is_invalid_argument(
            err,
            if *content_type == ContentType::Binary {
                binary_message()
            } else {
                mismatch_message(*content_type, extension(filename@)->0)
            },
        ),
{
    let ext = match path_extension(filename) {
        None => return Ok(()),
        Some(e) => e,
    };
    let suggested = content_type.suggested_extensions();
    if ext_in(&suggested, ext.as_str()) {
        return Ok(());
    }
    let ext_lower = to_lowercase(&chars_of(ext.as_str()));
    let is_tl = is_text_like(&ext_lower);
    let mut has_tl = false;
    let mut i: usize = 0;
    while i < suggested.len()
        invariant
            0 <= i <= suggested.len(),
            suggested@ == ext_list(*content_type),
            has_tl == exists|k: int|
                0 <= k < i && text_like(lowercase_of((#[trigger] suggested@[k])@)),
        decreases suggested.len() - i,
    {
        let low = to_lowercase(&chars_of(suggested[i]));
        if is_text_like(&low) {
            has_tl = true;
        }
        i += 1;
    }
    if is_tl && has_tl {
        return Ok(());
    }
    if *content_type == ContentType::Binary {
        let mut m = String::new();
        push_str(&mut m, "检测到二进制数据，无法处理");
        return Err(MfError::InvalidArgument(m));
    }
    let mut m = String::new();
    push_str(&mut m, "文件扩展名 '.");
    push_str(&mut m, ext.as_str());
    push_str(&mut m, "' 与检测到的内容类型不匹配。建议扩展名: ");
    let joined = join_extensions(&suggested);
    push_str(&mut m, joined.as_str());
    Err(MfError::InvalidArgument(m))
}

// ------------------------------------------------------------------
// Parsers of the structured formats (trusted items)
// ------------------------------------------------------------------

/// Whether `serde_json` parses the text as a JSON value.
pub uninterp spec fn json_parses(s: Seq<char>) -> bool;

/// Whether `serde_yaml` parses the text as a YAML value.
pub uninterp spec fn yaml_parses(s: Seq<char>) -> bool;

/// Whether `toml` parses the text as a TOML table.
pub uninterp spec fn toml_parses(s: Seq<char>) -> bool;

/// Whether the first event that a `quick_xml` reader (trimming text)
/// reads from the text is a markup event: not the end of input and not an error.
pub uninterp spec fn xml_opens_with_event(s: Seq<char>) -> bool;

/// `serde_json::from_str::<serde_json::Value>` succeeds on the text.
/// The outcome is named: it is a function of the text alone.
#[verifier::external_body]
fn json_valid(s: &Vec<char>) -> (r: bool)
    ensures
        r == json_parses(s@),
{
    let text: String = s.iter().collect();
    serde_json::from_str::<serde_json::Value>(&text).is_ok()
}

/// `serde_yaml::from_str::<serde_yaml::Value>` succeeds on the text (named).
#[verifier::external_body]
fn yaml_valid(s: &Vec<char>) -> (r: bool)
    ensures
        r == yaml_parses(s@),
{
    let text: String = s.iter().collect();
    serde_yaml::from_str::<serde_yaml::Value>(&text).is_ok()
}

/// `toml::from_str::<toml::Table>` succeeds on the text (named).
#[verifier::external_body]
fn toml_valid(s: &Vec<char>) -> (r: bool)
    ensures
        r == toml_parses(s@),
{
    let text: String = s.iter().collect();
    toml::from_str::<toml::Table>(&text).is_ok()
}

/// `quick_xml::Reader::read_event_into` on a fresh reader over the text
/// (with `trim_text(true)`): true when it yields an event other than `Eof`
/// (named; the reader's first event depends on the text alone).
#[verifier::external_body]
fn xml_first_event(s: &Vec<char>) -> (r: bool)
    ensures
        r == xml_opens_with_event(s@),
{
    let text: String = s.iter().collect();
    let mut reader = quick_xml::Reader::from_str(&text);
    reader.config_mut().trim_text(true);
    let mut buf = Vec::new();
    match reader.read_event_into(&mut buf) {
        Ok(quick_xml::events::Event::Eof) => false,
        Ok(_) => true,
        Err(_) => false,
    }
}

// ------------------------------------------------------------------
// Candidates and their ranking
// ------------------------------------------------------------------

/// A detected content type with its confidence in hundredths.
#[derive(Clone, Copy)]
pub struct Candidate {
    pub content_type: ContentType,
    pub confidence: u64,
}

/// The candidate of type `ct` with confidence `c` hundredths.
pub open spec fn cand(ct: ContentType, c: int) -> Candidate {
    Candidate { content_type: ct, confidence: c as u64 }
}

/// `w` when `b` holds, else 0.
pub open spec fn wt(b: bool, w: int) -> int {
    if b {
        w
    } else {
        0
    }
}

/// The smaller of `a` and `b`.
pub open spec fn min_int(a: int, b: int) -> int {
    if a <= b {
        a
    } else {
        b
    }
}

/// The candidate, if any, as a sequence of zero or one.
pub open spec fn opt_seq(o: Option<Candidate>) -> Seq<Candidate> {
    match o {
        Some(x) => seq![x],
        None => seq![],
    }
}

/// The candidate of highest confidence; among equals, the last one.
pub open spec fn best_of(cs: Seq<Candidate>) -> Option<Candidate>
    decreases cs.len(),
{
    if cs.len() == 0 {
        None
    } else {
        match best_of(cs.drop_last()) {
            None => Some(cs.last()),
            Some(b) => if cs.last().confidence >= b.confidence {
                Some(cs.last())
            } else {
                Some(b)
            },
        }
    }
}

fn pick_best(cs: &Vec<Candidate>) -> (r: Option<Candidate>)
    ensures
        r == best_of(cs@),
{
    let mut best: Option<Candidate> = None;
    let mut i: usize = 0;
    while i < cs.len()
        invariant
            0 <= i <= cs.len(),
            best == best_of(cs@.take(i as int)),
        decreases cs.len() - i,
    {
        assert(cs@.take(i + 1).drop_last() =~= cs@.take(i as int));
        let c = cs[i];
        best = match best {
            None => Some(c),
            Some(b) => if c.confidence >= b.confidence {
                Some(c)
            } else {
                Some(b)
            },
        };
        i += 1;
    }
    assert(cs@.take(cs.len() as int) =~= cs@);
    best
}

fn push_opt(v: &mut Vec<Candidate>, o: Option<Candidate>)
    ensures
        final(v)@ == old(v)@ + opt_seq(o),
{
    match o {
        Some(x) => {
            v.push(x);
            assert(v@ =~= old(v)@ + opt_seq(o));
        },
        None => {
            assert(v@ =~= old(v)@ + opt_seq(o));
        },
    }
}

// ------------------------------------------------------------------
// Shebang
// ------------------------------------------------------------------

/// The interpreter that a shebang line names.
pub open spec fn shebang_type(line: Seq<char>) -> Option<ContentType> {
    let l = lowercase_of(line);
    if has_sub(l, "python"@) {
        Some(ContentType::Python)
    } else if has_sub(l, "node"@) || has_sub(l, "deno"@) || has_sub(l, "bun"@) {
        Some(ContentType::JavaScript)
    } else if has_sub(l, "bash"@) || has_sub(l, "sh"@) || has_sub(l, "zsh"@) || has_sub(l, "dash"@) {
        Some(ContentType::Shell)
    } else if has_sub(l, "ruby"@) {
        Some(ContentType::Ruby)
    } else if has_sub(l, "php"@) {
        Some(ContentType::Php)
    } else if has_sub(l, "perl"@) || has_sub(l, "lua"@) {
        Some(ContentType::PlainText)
    } else {
        None
    }
}

/// The type named by the shebang on the first line, if it has one.
pub open spec fn shebang_of(content: Seq<char>) -> Option<ContentType> {
    let ls = lines(content);
    if ls.len() > 0 && has_prefix(trim(ls[0]), "#!"@) {
        shebang_type(trim(ls[0]))
    } else {
        None
    }
}

fn shebang_to_content_type(shebang: &Vec<char>) -> (r: Option<ContentType>)
    ensures
        r == shebang_type(shebang@),
{
    let l = to_lowercase(shebang);
    if contains(&l, "python") {
        return Some(ContentType::Python);
    }
    if contains(&l, "node") || contains(&l, "deno") || contains(&l, "bun") {
        return Some(ContentType::JavaScript);
    }
    if contains(&l, "bash") || contains(&l, "sh") || contains(&l, "zsh") || contains(&l, "dash") {
        return Some(ContentType::Shell);
    }
    if contains(&l, "ruby") {
        return Some(ContentType::Ruby);
    }
    if contains(&l, "php") {
        return Some(ContentType::Php);
    }
    if contains(&l, "perl") {
        return Some(ContentType::PlainText);
    }
    if contains(&l, "lua") {
        return Some(ContentType::PlainText);
    }
    None
}

fn detect_shebang(content: &Vec<char>) -> (r: Option<ContentType>)
    ensures
        r == shebang_of(content@),
{
    let ls = lines_exec(content);
    if ls.len() > 0 {
        let fl = trim_exec(&ls[0]);
        proof {
            assert(ls.deep_view()[0] == ls@[0]@);
        }
        if starts_with(&fl, "#!") {
            return shebang_to_content_type(&fl);
        }
    }
    None
}

// ------------------------------------------------------------------
// Structured formats: JSON, XML/HTML, YAML, TOML, CSV
// ------------------------------------------------------------------

/// HTML markers: a document tag, or a common element with a common attribute.
pub open spec fn is_html_text(t: Seq<char>) -> bool {
    ||| has_sub(t, "<html"@)
    ||| has_sub(t, "<!DOCTYPE html"@)
    ||| has_sub(t, "<head"@)
    ||| ((has_sub(t, "<div"@) || has_sub(t, "<p "@) || has_sub(t, "<span"@) || has_sub(t, "<table"@)
        || has_sub(t, "<a "@) || has_sub(t, "<form"@) || has_sub(t, "<input"@)) && (has_sub(
        t,
        "class="@,
    ) || has_sub(t, "id="@) || has_sub(t, "href="@) || has_sub(t, "src="@) || has_sub(t, "type="@)
        || has_sub(t, "name="@)))
}

/// Characters of an element name.
pub open spec fn is_name_char(c: char) -> bool {
    unicode_alphanumeric(c) || c == '_' || c == '-'
}

/// The end of the run of name characters that starts at `i`.
pub open spec fn name_end(s: Seq<char>, i: int) -> int
    decreases s.len() - i,
{
    if i < 0 || i >= s.len() {
        s.len() as int
    } else if is_name_char(s[i]) {
        name_end(s, i + 1)
    } else {
        i
    }
}

/// `t` (which starts with `<`) is one element: it opens with a name that
/// starts with an ASCII letter, and after the first matching closing tag
/// there is only whitespace.
pub open spec fn single_root(t: Seq<char>) -> bool {
    t.len() >= 1 && {
        let a = trim(t.subrange(1, t.len() as int));
        a.len() > 0 && is_ascii_alpha(a[0]) && {
            let n = name_end(a, 0);
            0 < n <= a.len() && {
                let close = "</"@ + a.subrange(0, n) + ">"@;
                let pos = first_from(t, close, 0);
                pos >= 0 && trim(t.subrange(pos + close.len(), t.len() as int)).len() == 0
            }
        }
    }
}

/// `t` has the outline of an XML document.
pub open spec fn has_xml_structure(t: Seq<char>) -> bool {
    has_prefix(t, "<?xml"@) || has_prefix(t, "<!DOCTYPE"@) || (has_prefix(t, "<"@) && single_root(t))
}

/// XML or HTML: markup that closes a tag, has the outline of a document,
/// and whose first event the XML reader accepts.
pub open spec fn xml_candidate(t: Seq<char>) -> Option<Candidate> {
    if t.len() > 0 && t[0] == '<' && (has_sub(t, "</"@) || has_suffix(t, "/>"@))
        && has_xml_structure(t) && xml_opens_with_event(t) {
        Some(
            if is_html_text(t) {
                cand(ContentType::Html, 88)
            } else {
                cand(ContentType::Xml, 85)
            },
        )
    } else {
        None
    }
}

/// Text that opens with a YAML document marker.
pub open spec fn yaml_start(t: Seq<char>) -> bool {
    has_prefix(t, "---\n"@) || has_prefix(t, "---\r\n"@)
}

/// A `key: value` line whose key starts with a letter.
pub open spec fn yaml_kv_line(line: Seq<char>) -> bool {
    let tl = trim(line);
    let pos = first_from(tl, ": "@, 0);
    pos > 0 && unicode_alphabetic(tl[0])
}

/// A `- item` line.
pub open spec fn yaml_item_line(line: Seq<char>) -> bool {
    has_prefix(trim(line), "- "@)
}

/// An indented `key: value` line.
pub open spec fn yaml_nested_line(line: Seq<char>) -> bool {
    has_prefix(line, "  "@) && has_sub(line, ": "@)
}

/// Some line after the first is a YAML mapping entry or list item.
pub open spec fn yaml_structure(t: Seq<char>) -> bool {
    let ls = lines(t);
    ||| exists|i: int| 1 <= i < ls.len() && #[trigger] yaml_kv_line(ls[i])
    ||| exists|i: int| 1 <= i < ls.len() && #[trigger] yaml_item_line(ls[i])
    ||| exists|i: int| 1 <= i < ls.len() && #[trigger] yaml_nested_line(ls[i])
}

/// Whether we are inside quotes and how many separating commas were seen
/// after reading `l`.
pub open spec fn csv_state(l: Seq<char>) -> (bool, nat)
    decreases l.len(),
{
    if l.len() == 0 {
        (false, 0)
    } else {
        let (q, n) = csv_state(l.drop_last());
        let c = l.last();
        if c == '"' {
            (!q, n)
        } else if c == ',' && !q {
            (q, n + 1)
        } else {
            (q, n)
        }
    }
}

/// Number of commas outside double quotes in a CSV line.
pub open spec fn csv_commas(l: Seq<char>) -> nat {
    csv_state(l).1
}

/// At least two lines, all with the same positive number of separating commas.
pub open spec fn csv_consistent(content: Seq<char>) -> bool {
    content.contains(',') && {
        let ls = lines(content);
        ls.len() >= 2 && csv_commas(ls[0]) > 0 && forall|i: int|
            1 <= i < ls.len() ==> #[trigger] csv_commas(ls[i]) == csv_commas(ls[0])
    }
}

/// The structured-format candidate of trimmed text `t` (of `content`).
pub open spec fn structured_candidate(t: Seq<char>, content: Seq<char>) -> Option<Candidate> {
    if t.len() == 0 {
        None
    } else if (t[0] == '{' || t[0] == '[') && json_parses(t) {
        Some(cand(ContentType::Json, 90))
    } else if xml_candidate(t) is Some {
        xml_candidate(t)
    } else if yaml_start(t) && yaml_structure(t) && (yaml_parses(t) || count_matches(t, "---"@)
        >= 2) {
        Some(cand(ContentType::Yaml, 92))
    } else if yaml_start(t) && !yaml_structure(t) {
        Some(cand(ContentType::PlainText, 50))
    } else if t[0] == '[' && t.contains('=') && t.contains('[') && t.contains(']') && toml_parses(
        t,
    ) {
        Some(cand(ContentType::Toml, 88))
    } else if csv_consistent(content) {
        Some(cand(ContentType::Csv, 80))
    } else {
        None
    }
}

fn is_html_exec(t: &Vec<char>) -> (r: bool)
    ensures
        r == is_html_text(t@),
{
    contains(t, "<html") || contains(t, "<!DOCTYPE html") || contains(t, "<head") || ((contains(
        t,
        "<div",
    ) || contains(t, "<p ") || contains(t, "<span") || contains(t, "<table") || contains(t, "<a ")
        || contains(t, "<form") || contains(t, "<input")) && (contains(t, "class=") || contains(
        t,
        "id=",
    ) || contains(t, "href=") || contains(t, "src=") || contains(t, "type=") || contains(
        t,
        "name=",
    )))
}

fn name_end_exec(a: &Vec<char>) -> (n: usize)
    ensures
        n == name_end(a@, 0),
        n <= a.len(),
{
    let mut i: usize = 0;
    while i < a.len() && (is_alphanumeric(a[i]) || a[i] == '_' || a[i] == '-')
        invariant
            0 <= i <= a.len(),
            name_end(a@, 0) == name_end(a@, i as int),
        decreases a.len() - i,
    {
        i += 1;
    }
    i
}

fn single_root_exec(t: &Vec<char>) -> (r: bool)
    ensures
        r == single_root(t@),
{
    if t.len() < 1 {
        return false;
    }
    let a = trim_exec(&sub_vec(t, 1, t.len()));
    if a.len() == 0 || !is_ascii_alpha_exec(a[0]) {
        return false;
    }
    let n = name_end_exec(&a);
    if n == 0 {
        return false;
    }
    let tag = sub_vec(&a, 0, n);
    let close = concat_vec(&concat_vec(&chars_of("</"), &tag), &chars_of(">"));
    match find_from(t, &close, 0) {
        None => false,
        Some(pos) => {
            let rest = sub_vec(t, pos + close.len(), t.len());
            trim_exec(&rest).len() == 0
        },
    }
}

fn xml_candidate_exec(t: &Vec<char>) -> (r: Option<Candidate>)
    ensures
        r == xml_candidate(t@),
{
    if !(t.len() > 0 && t[0] == '<') {
        return None;
    }
    let has_closing_tag = contains(t, "</") || ends_with(t, "/>");
    if !has_closing_tag {
        return None;
    }
    let is_html = is_html_exec(t);
    let has_xml_structure = starts_with(t, "<?xml") || starts_with(t, "<!DOCTYPE") || (starts_with(
        t,
        "<",
    ) && single_root_exec(t));
    if has_xml_structure && xml_first_event(t) {
        if is_html {
            return Some(Candidate { content_type: ContentType::Html, confidence: 88 });
        }
        return Some(Candidate { content_type: ContentType::Xml, confidence: 85 });
    }
    None
}

fn yaml_kv_line_exec(line: &Vec<char>) -> (r: bool)
    ensures
        r == yaml_kv_line(line@),
{
    let tl = trim_exec(line);
    match find_from(&tl, &chars_of(": "), 0) {
        Some(pos) => pos > 0 && is_alphabetic(tl[0]),
        None => false,
    }
}

fn yaml_structure_exec(t: &Vec<char>) -> (r: bool)
    ensures
        r == yaml_structure(t@),
{
    let ls = lines_exec(t);
    let ghost dv = ls.deep_view();
    let mut kv = false;
    let mut item = false;
    let mut nested = false;
    let mut i: usize = 1;
    while i < ls.len()
        invariant
            1 <= i,
            i <= ls.len() || ls.len() == 0,
            dv == ls.deep_view(),
            dv == lines(t@),
            dv.len() == ls.len(),
            kv == exists|k: int| 1 <= k < i && k < dv.len() && #[trigger] yaml_kv_line(dv[k]),
            item == exists|k: int| 1 <= k < i && k < dv.len() && #[trigger] yaml_item_line(dv[k]),
            nested == exists|k: int|
                1 <= k < i && k < dv.len() && #[trigger] yaml_nested_line(dv[k]),
        decreases ls.len() - i,
    {
        assert(dv[i as int] == ls@[i as int]@);
        let line = &ls[i];
        let a = yaml_kv_line_exec(line);
        let tl = trim_exec(line);
        let b = starts_with(&tl, "- ");
        let c = starts_with(line, "  ") && contains(line, ": ");
        assert(a == yaml_kv_line(dv[i as int]));
        assert(b == yaml_item_line(dv[i as int]));
        assert(c == yaml_nested_line(dv[i as int]));
        kv = kv || a;
        item = item || b;
        nested = nested || c;
        i += 1;
    }
    kv || item || nested
}

fn count_csv_commas(line: &Vec<char>) -> (r: usize)
    ensures
        r == csv_commas(line@),
{
    let mut in_quotes = false;
    let mut count: usize = 0;
    let mut i: usize = 0;
    while i < line.len()
        invariant
            0 <= i <= line.len(),
            count <= i,
            csv_state(line@.take(i as int)) == (in_quotes, count as nat),
        decreases line.len() - i,
    {
        assert(line@.take(i + 1).drop_last() =~= line@.take(i as int));
        let ch = line[i];
        if ch == '"' {
            in_quotes = !in_quotes;
        } else if ch == ',' && !in_quotes {
            count += 1;
        }
        i += 1;
    }
    assert(line@.take(line.len() as int) =~= line@);
    count
}

fn csv_consistent_exec(content: &Vec<char>) -> (r: bool)
    ensures
        r == csv_consistent(content@),
{
    if !contains_char(content, ',') {
        return false;
    }
    let ls = lines_exec(content);
    let ghost dv = ls.deep_view();
    if ls.len() < 2 {
        return false;
    }
    assert(dv[0] == ls@[0]@);
    let first = count_csv_commas(&ls[0]);
    if first == 0 {
        return false;
    }
    let mut i: usize = 1;
    while i < ls.len()
        invariant
            1 <= i <= ls.len(),
            dv == ls.deep_view(),
            dv == lines(content@),
            dv.len() == ls.len(),
            first == csv_commas(dv[0]),
            forall|k: int| 1 <= k < i ==> #[trigger] csv_commas(dv[k]) == csv_commas(dv[0]),
        decreases ls.len() - i,
    {
        assert(dv[i as int] == ls@[i as int]@);
        if count_csv_commas(&ls[i]) != first {
            return false;
        }
        i += 1;
    }
    true
}

fn detect_structured_formats(t: &Vec<char>, content: &Vec<char>) -> (r: Option<Candidate>)
    ensures
        r == structured_candidate(t@, content@),
{
    if t.len() == 0 {
        return None;
    }
    let first_char = t[0];
    if (first_char == '{' || first_char == '[') && json_valid(t) {
        return Some(Candidate { content_type: ContentType::Json, confidence: 90 });
    }
    let xml = xml_candidate_exec(t);
    if xml.is_some() {
        return xml;
    }
    if starts_with(t, "---\n") || starts_with(t, "---\r\n") {
        if yaml_structure_exec(t) {
            if yaml_valid(t) {
                return Some(Candidate { content_type: ContentType::Yaml, confidence: 92 });
            }
            if count_matches_exec(t, "---") >= 2 {
                return Some(Candidate { content_type: ContentType::Yaml, confidence: 92 });
            }
        } else {
            return Some(Candidate { content_type: ContentType::PlainText, confidence: 50 });
        }
    }
    if first_char == '[' {
        if contains_char(t, '=') && contains_char(t, '[') && contains_char(t, ']') && toml_valid(t) {
            return Some(Candidate { content_type: ContentType::Toml, confidence: 88 });
        }
    }
    if csv_consistent_exec(content) {
        return Some(Candidate { content_type: ContentType::Csv, confidence: 80 });
    }
    None
}

// ------------------------------------------------------------------
// Script languages: PowerShell, Batch, Shell
// ------------------------------------------------------------------

/// PowerShell signals other than `function`.
/// PowerShell variable, cmdlet-output and attribute signals.
#[verifier::opaque]
pub open spec fn ps_base_a(c: Seq<char>) -> int {
    wt(has_sub(c, "$"@), 15) + wt(has_sub(c, "$env:"@), 25) + wt(
        has_sub(c, "$PSScriptRoot"@) || has_sub(c, "$PSVersionTable"@),
        30,
    ) + wt(has_sub(c, "Write-Host"@) || has_sub(c, "Write-Output"@), 20) + wt(
        has_sub(c, "[CmdletBinding("@) || has_sub(c, "[Parameter("@),
        25,
    )
}

/// PowerShell pipeline, parameter, verb-noun and `#requires` signals.
#[verifier::opaque]
pub open spec fn ps_base_b(c: Seq<char>) -> int {
    wt(has_sub(c, "$_"@) || has_sub(c, "| %"@), 15) + wt(
        has_sub(c, "-Force"@) || has_sub(c, "-ErrorAction"@) || has_sub(c, "-WarningAction"@),
        15,
    ) + wt(
        has_sub(c, "Get-"@) || has_sub(c, "Set-"@) || has_sub(c, "New-"@) || has_sub(c, "Remove-"@),
        20,
    ) + wt(has_sub(c, "param("@), 20) + wt(has_prefix(c, "#requires"@), 25)
}

/// PowerShell signals other than `function`.
pub open spec fn ps_base(c: Seq<char>) -> int {
    ps_base_a(c) + ps_base_b(c)
}

/// PowerShell score: `function` counts only beside other PowerShell signals.
#[verifier::opaque]
pub open spec fn ps_score(c: Seq<char>) -> int {
    ps_base(c) + wt(has_sub(c, "function "@) && ps_base(c) > 20, 10)
}

/// Batch-file score.
#[verifier::opaque]
pub open spec fn batch_score(c: Seq<char>) -> int {
    wt(has_sub(c, "@echo off"@) || has_sub(c, "@echo on"@), 35) + wt(has_sub(c, "%errorlevel%"@), 30)
        + wt(has_sub(c, "%~"@) || has_sub(c, "%1"@) || has_sub(c, "%*"@), 25) + wt(
        has_sub(c, "goto "@),
        20,
    ) + wt(has_sub(c, ":label"@) || count_matches(c, ":"@) > 2, 15) + wt(
        has_sub(c, "if not "@) || has_sub(c, "if exist "@),
        20,
    )
}

/// Shell-script score.
#[verifier::opaque]
pub open spec fn shell_score(c: Seq<char>) -> int {
    wt(has_sub(c, "#!/bin/bash"@) || has_sub(c, "#!/bin/sh"@), 40) + wt(
        has_sub(c, "echo $"@) && !has_sub(c, "$("@),
        20,
    ) + wt(has_sub(c, "chmod +x"@) || has_sub(c, "./"@), 15) + wt(
        has_sub(c, "&& "@) || has_sub(c, "|| "@),
        10,
    ) + wt(has_sub(c, "export "@), 15) + wt(has_sub(c, "2>&1"@) || has_sub(c, "/dev/null"@), 20)
}

/// `x` alone when `b` holds, else nothing.
pub open spec fn opt_if(b: bool, x: Candidate) -> Seq<Candidate> {
    if b {
        seq![x]
    } else {
        seq![]
    }
}

/// The script languages that score at least 0.25, with their raw scores.
pub open spec fn script_scores(c: Seq<char>) -> Seq<Candidate> {
    Seq::<Candidate>::empty() + opt_if(ps_score(c) >= 25, cand(ContentType::PowerShell, ps_score(c))) + opt_if(
        batch_score(c) >= 25,
        cand(ContentType::Batch, batch_score(c)),
    ) + opt_if(shell_score(c) >= 25, cand(ContentType::Shell, shell_score(c)))
}

/// The best-scoring script language, with confidence `min(0.5 + score, 0.92)`.
pub open spec fn script_candidate(c: Seq<char>) -> Option<Candidate> {
    match best_of(script_scores(c)) {
        None => None,
        Some(b) => Some(cand(b.content_type, min_int(50 + b.confidence, 92))),
    }
}

fn push_if(v: &mut Vec<Candidate>, b: bool, x: Candidate)
    ensures
        final(v)@ == old(v)@ + opt_if(b, x),
{
    if b {
        v.push(x);
    }
    assert(v@ =~= old(v)@ + opt_if(b, x));
}

/// `w` when `b` holds, else 0.
fn wexec(b: bool, w: u64) -> (r: u64)
    ensures
        r == wt(b, w as int),
{
    if b {
        w
    } else {
        0
    }
}

#[verifier::rlimit(50)]
fn ps_base_a_exec(c: &Vec<char>) -> (r: u64)
    ensures
        r == ps_base_a(c@),
        r <= 115,
{
    reveal(ps_base_a);
    let s1 = contains(c, "$");
    let s2 = contains(c, "$env:");
    let s3a = contains(c, "$PSScriptRoot");
    let s3b = contains(c, "$PSVersionTable");
    let s4a = contains(c, "Write-Host");
    let s4b = contains(c, "Write-Output");
    let s5a = contains(c, "[CmdletBinding(");
    let s5b = contains(c, "[Parameter(");
    wexec(s1, 15) + wexec(s2, 25) + wexec(s3a || s3b, 30) + wexec(s4a || s4b, 20) + wexec(
        s5a || s5b,
        25,
    )
}

#[verifier::rlimit(50)]
fn ps_base_b_exec(c: &Vec<char>) -> (r: u64)
    ensures
        r == ps_base_b(c@),
        r <= 95,
{
    reveal(ps_base_b);
    let s6a = contains(c, "$_");
    let s6b = contains(c, "| %");
    let s7a = contains(c, "-Force");
    let s7b = contains(c, "-ErrorAction");
    let s7c = contains(c, "-WarningAction");
    let s8a = contains(c, "Get-");
    let s8b = contains(c, "Set-");
    let s8c = contains(c, "New-");
    let s8d = contains(c, "Remove-");
    let s9 = contains(c, "param(");
    let s10 = starts_with(c, "#requires");
    wexec(s6a || s6b, 15) + wexec(s7a || s7b || s7c, 15) + wexec(s8a || s8b || s8c || s8d, 20)
        + wexec(s9, 20) + wexec(s10, 25)
}

fn ps_score_exec(c: &Vec<char>) -> (r: u64)
    ensures
        r == ps_score(c@),
        r <= 220,
{
    reveal(ps_score);
    let base = ps_base_a_exec(c) + ps_base_b_exec(c);
    let f = contains(c, "function ");
    base + wexec(f && base > 20, 10)
}

#[verifier::rlimit(50)]
#[verifier::spinoff_prover]
fn batch_score_exec(c: &Vec<char>) -> (r: u64)
    ensures
        r == batch_score(c@),
        r <= 145,
{
    reveal(batch_score);
    let b1a = contains(c, "@echo off");
    let b1b = contains(c, "@echo on");
    let b2 = contains(c, "%errorlevel%");
    let b3a = contains(c, "%~");
    let b3b = contains(c, "%1");
    let b3c = contains(c, "%*");
    let b4 = contains(c, "goto ");
    let b5a = contains(c, ":label");
    let b5b = count_matches_exec(c, ":") > 2;
    let b6a = contains(c, "if not ");
    let b6b = contains(c, "if exist ");
    wexec(b1a || b1b, 35) + wexec(b2, 30) + wexec(b3a || b3b || b3c, 25) + wexec(b4, 20) + wexec(
        b5a || b5b,
        15,
    ) + wexec(b6a || b6b, 20)
}

#[verifier::rlimit(50)]
#[verifier::spinoff_prover]
fn shell_score_exec(c: &Vec<char>) -> (r: u64)
    ensures
        r == shell_score(c@),
        r <= 120,
{
    reveal(shell_score);
    let h1a = contains(c, "#!/bin/bash");
    let h1b = contains(c, "#!/bin/sh");
    let h2a = contains(c, "echo $");
    let h2b = contains(c, "$(");
    let h3a = contains(c, "chmod +x");
    let h3b = contains(c, "./");
    let h4a = contains(c, "&& ");
    let h4b = contains(c, "|| ");
    let h5 = contains(c, "export ");
    let h6a = contains(c, "2>&1");
    let h6b = contains(c, "/dev/null");
    wexec(h1a || h1b, 40) + wexec(h2a && !h2b, 20) + wexec(h3a || h3b, 15) + wexec(h4a || h4b, 10)
        + wexec(h5, 15) + wexec(h6a || h6b, 20)
}

fn detect_script_languages(c: &Vec<char>) -> (r: Option<Candidate>)
    ensures
        r == script_candidate(c@),
{
    let ps = ps_score_exec(c);
    let batch = batch_score_exec(c);
    let shell = shell_score_exec(c);
    let mut v: Vec<Candidate> = Vec::new();
    push_if(&mut v, ps >= 25, Candidate { content_type: ContentType::PowerShell, confidence: ps });
    push_if(&mut v, batch >= 25, Candidate { content_type: ContentType::Batch, confidence: batch });
    push_if(&mut v, shell >= 25, Candidate { content_type: ContentType::Shell, confidence: shell });
    assert(v@ == script_scores(c@));
    match pick_best(&v) {
        None => None,
        Some(b) => {
            let conf = if b.confidence <= 42 {
                50 + b.confidence
            } else {
                92
            };
            Some(Candidate { content_type: b.content_type, confidence: conf })
        },
    }
}

// ------------------------------------------------------------------
// Programming languages
// ------------------------------------------------------------------

/// Rust score.
#[verifier::opaque]
pub open spec fn rust_score(c: Seq<char>) -> int {
    wt(has_sub(c, "fn "@), 20) + wt(has_sub(c, "fn "@) && (has_sub(c, "->"@) || has_sub(c, "let mut "@)), 15) + wt(has_sub(c, "use "@) && has_sub(c, "::"@), 20) + wt(has_sub(c, "impl "@), 20) + wt(has_sub(c, "&mut"@), 15) + wt(has_sub(c, ".unwrap()"@) || has_sub(c, ".expect("@), 15) + wt(has_sub(c, "let Ok("@) || has_sub(c, "let Err("@), 15) + wt(has_sub(c, "Vec<"@) || has_sub(c, "HashMap<"@), 15) + wt(has_sub(c, "pub fn "@) || has_sub(c, "pub struct "@), 10) + wt(has_sub(c, "println!"@), 25)
}

/// Go score.
#[verifier::opaque]
pub open spec fn go_score(c: Seq<char>) -> int {
    wt(has_sub(c, "func "@), 20) + wt(has_sub(c, "package "@), 20) + wt(has_sub(c, "import ("@), 25) + wt(has_sub(c, ":= "@), 25) + wt(has_sub(c, "range "@), 15) + wt(has_sub(c, "go func("@), 20) + wt(has_sub(c, "defer "@), 15) + wt(has_sub(c, "chan "@), 20) + wt(has_sub(c, "error != nil"@), 20)
}

/// Java score.
#[verifier::opaque]
pub open spec fn java_score(c: Seq<char>) -> int {
    wt((has_sub(c, "public static void"@) || has_sub(c, "public class"@)) && has_sub(c, "String[] args"@), 35) + wt(has_sub(c, "System.out."@) || has_sub(c, "System.err."@), 20) + wt(has_sub(c, "@Override"@) || has_sub(c, "@SuppressWarnings"@), 15) + wt(has_sub(c, "import java."@), 20) + wt(has_sub(c, "new ArrayList<"@) || has_sub(c, "new HashMap<"@), 15) + wt(has_sub(c, "public class "@) && has_sub(c, "extends "@), 15)
}

/// C# score.
#[verifier::opaque]
pub open spec fn csharp_score(c: Seq<char>) -> int {
    wt(has_sub(c, "using System"@), 25) + wt(has_sub(c, "namespace "@) && has_sub(c, "class "@), 20) + wt(has_sub(c, "static void Main"@) && has_sub(c, "string[] args"@), 30) + wt(has_sub(c, "Console."@), 20) + wt(has_sub(c, "public class "@) && has_sub(c, "{"@), 10) + wt(has_sub(c, "var "@) && has_sub(c, ";"@), 10)
}

/// C score.
#[verifier::opaque]
pub open spec fn c_score(c: Seq<char>) -> int {
    wt(has_sub(c, "int main("@), 30) + wt(has_sub(c, "#include <"@), 25) + wt(has_sub(c, "void "@) && (has_sub(c, "printf"@) || has_sub(c, "scanf"@)), 20) + wt(has_sub(c, "std::cout"@) || has_sub(c, "std::cin"@), 20) + wt(has_sub(c, "return 0;"@), 10)
}

/// C++ score.
#[verifier::opaque]
pub open spec fn cpp_score(c: Seq<char>) -> int {
    wt(has_sub(c, "std::"@), 25) + wt(has_sub(c, "template <"@), 30) + wt(has_sub(c, "class "@) && (has_sub(c, "public:"@) || has_sub(c, "private:"@)), 25) + wt(has_sub(c, "vector<"@) || has_sub(c, "string "@), 20) + wt(has_sub(c, "cout<<"@) || has_sub(c, "cin>>"@), 25)
}

/// Python score.
#[verifier::opaque]
pub open spec fn python_score(c: Seq<char>) -> int {
    wt(has_sub(c, "def "@), 12) + wt(has_sub(c, "import "@), 12) + wt(has_sub(c, "if __name__"@), 20) + wt(has_sub(c, "elif "@), 18) + wt(has_sub(c, "except "@), 18) + wt(has_sub(c, ":"@) && has_sub(c, "self"@), 22) + wt(has_sub(c, "print("@), 8) + wt(has_sub(c, "class "@) && has_sub(c, "(object)"@), 15) + wt(has_sub(c, "[...] for ... in "@), 15) + wt(has_sub(c, "None"@) || has_sub(c, "True"@) || has_sub(c, "False"@), 10)
}

/// The Ruby signals that speak against Python.
#[verifier::opaque]
pub open spec fn ruby_hint_score(c: Seq<char>) -> int {
    wt(has_sub(c, "puts "@), 15) + wt(has_sub(c, "end"@), 12) + wt(has_sub(c, "do |"@), 20) + wt(has_sub(c, "#{"@), 18)
}

/// Ruby score.
#[verifier::opaque]
pub open spec fn ruby_score(c: Seq<char>) -> int {
    wt(has_sub(c, "puts "@), 20) + wt(has_sub(c, "end"@), 12) + wt(has_sub(c, "do |"@), 25) + wt(has_sub(c, "#{"@), 22) + wt(has_sub(c, "def "@) && has_sub(c, "end"@), 20) + wt(has_sub(c, "require "@), 15) + wt(has_sub(c, "attr_accessor"@) || has_sub(c, "attr_reader"@), 20) + wt(has_sub(c, "||="@), 15) + wt(has_sub(c, "each do"@), 20)
}

/// PHP score.
#[verifier::opaque]
pub open spec fn php_score(c: Seq<char>) -> int {
    wt(has_sub(c, "<?php"@) || has_sub(c, "<?="@), 35) + wt(has_sub(c, "$"@) && has_sub(c, "->"@) && !has_sub(c, "//"@), 25) + wt(has_sub(c, "function "@) && has_sub(c, "$"@), 15) + wt(has_sub(c, "echo "@) && has_sub(c, "$"@), 15) + wt(has_sub(c, "array("@), 12) + wt(has_sub(c, "=>"@) && has_sub(c, "$"@), 15) + wt(has_sub(c, "$_POST"@) || has_sub(c, "$_GET"@) || has_sub(c, "$_SERVER"@), 25) + wt(has_sub(c, "namespace "@) && has_sub(c, "\\\\"@), 20) + wt(has_sub(c, "class "@) && has_sub(c, "private $"@), 20)
}

/// TypeScript score.
#[verifier::opaque]
pub open spec fn ts_score(c: Seq<char>) -> int {
    wt(has_sub(c, "interface "@), 25) + wt(has_sub(c, ": string"@) || has_sub(c, ": number"@) || has_sub(c, ": boolean"@) || has_sub(c, ": any"@), 20) + wt(has_sub(c, "type "@) && has_sub(c, "="@), 15) + wt(has_sub(c, "as "@) && (has_sub(c, ":"@) || has_sub(c, "<"@)), 15) + wt(has_sub(c, "<T>"@) || has_sub(c, "<T,>"@), 20) + wt(has_sub(c, "enum "@), 20) + wt(has_sub(c, "implements "@), 15) + wt(has_sub(c, ": void"@) || has_sub(c, ": Promise"@), 12)
}

/// JavaScript score, first half of the signals.
#[verifier::opaque]
pub open spec fn js_score_a(c: Seq<char>) -> int {
    wt(has_sub(c, "function "@), 15) + wt(has_sub(c, "const "@), 15) + wt(has_sub(c, "let "@), 12) + wt(has_sub(c, "var "@), 8) + wt(has_sub(c, "=>"@), 18) + wt(has_sub(c, "console."@) && !has_sub(c, "Write-"@), 20)
}

/// JavaScript score, second half of the signals.
#[verifier::opaque]
pub open spec fn js_score_b(c: Seq<char>) -> int {
    wt(has_sub(c, "document."@) || has_sub(c, "window."@), 25) + wt(has_sub(c, "require("@), 15) + wt(has_sub(c, "export "@) || (has_sub(c, "import "@) && has_sub(c, "from "@)), 15) + wt(has_sub(c, "Promise."@) || has_sub(c, "async "@), 12) + wt(has_sub(c, "==="@) || has_sub(c, "!=="@), 10) + wt(has_sub(c, "null"@) || has_sub(c, "undefined"@), 6)
}

/// JavaScript score.
#[verifier::opaque]
pub open spec fn js_score(c: Seq<char>) -> int {
    js_score_a(c) + js_score_b(c)
}

/// Python, unless Ruby looks at least as likely.
pub open spec fn likely_python(c: Seq<char>) -> bool {
    has_sub(c, ":"@) && (has_sub(c, "import "@) || has_sub(c, "self"@) || has_sub(c, "elif"@))
}

/// JavaScript is ruled out when TypeScript or PHP signals dominate.
pub open spec fn not_javascript(c: Seq<char>) -> bool {
    (ts_score(c) >= 40 && ts_score(c) + 10 >= js_score(c)) || (php_score(c) >= 35 && (has_sub(
        c,
        "<?php"@,
    ) || has_sub(c, "$_"@)))
}

/// The lines of `c`, each trimmed and uppercased.
pub open spec fn upper_trimmed_lines(c: Seq<char>) -> Seq<Seq<char>> {
    lines(c).map_values(|l: Seq<char>| uppercase_of(trim(l)))
}

/// Some line in `us` begins with `kw`.
pub open spec fn any_line_prefix(us: Seq<Seq<char>>, kw: Seq<char>) -> bool {
    exists|i: int| 0 <= i < us.len() && #[trigger] has_prefix(us[i], kw)
}

/// How many of the first seven SQL keywords begin some line of `us`.
#[verifier::opaque]
pub open spec fn sql_hits_a(us: Seq<Seq<char>>) -> int {
    wt(any_line_prefix(us, "SELECT "@), 1) + wt(any_line_prefix(us, "INSERT "@), 1) + wt(any_line_prefix(us, "UPDATE "@), 1) + wt(any_line_prefix(us, "CREATE "@), 1) + wt(any_line_prefix(us, "ALTER "@), 1) + wt(any_line_prefix(us, "DROP "@), 1) + wt(any_line_prefix(us, "DELETE "@), 1)
}

/// How many of the last seven SQL keywords begin some line of `us`.
#[verifier::opaque]
pub open spec fn sql_hits_b(us: Seq<Seq<char>>) -> int {
    wt(any_line_prefix(us, "FROM "@), 1) + wt(any_line_prefix(us, "WHERE "@), 1) + wt(any_line_prefix(us, "JOIN "@), 1) + wt(any_line_prefix(us, "INNER JOIN "@), 1) + wt(any_line_prefix(us, "LEFT JOIN "@), 1) + wt(any_line_prefix(us, "GROUP BY "@), 1) + wt(any_line_prefix(us, "ORDER BY "@), 1)
}

/// How many SQL keywords begin some line (trimmed, uppercased).
pub open spec fn sql_count(c: Seq<char>) -> int {
    sql_hits_a(upper_trimmed_lines(c)) + sql_hits_b(upper_trimmed_lines(c))
}

/// The languages whose scores pass their thresholds, in a fixed order,
/// with confidence `min(base + score, cap)` for each.
pub open spec fn prog_scores(c: Seq<char>) -> Seq<Candidate> {
    let py = python_score(c);
    let hint = ruby_hint_score(c);
    let rb = ruby_score(c);
    Seq::<Candidate>::empty() + opt_if(rust_score(c) >= 15, cand(ContentType::Rust, min_int(58 + rust_score(c), 93))) + opt_if(
        go_score(c) > 0,
        cand(ContentType::Go, min_int(55 + go_score(c), 90)),
    ) + opt_if(java_score(c) > 0, cand(ContentType::Java, min_int(60 + java_score(c), 92)))
        + opt_if(csharp_score(c) >= 45, cand(ContentType::CSharp, min_int(65 + csharp_score(c), 90)))
        + opt_if(c_score(c) > 0, cand(ContentType::C, min_int(55 + c_score(c), 88))) + opt_if(
        c_score(c) > 0 && cpp_score(c) >= 20,
        cand(ContentType::Cpp, min_int(65 + cpp_score(c), 90)),
    ) + opt_if(
        py > 0 && (py > hint + 15 || hint < 25),
        cand(ContentType::Python, min_int(55 + py, 88)),
    ) + opt_if(
        rb >= 40 && (!likely_python(c) || rb > py + 15),
        cand(ContentType::Ruby, min_int(58 + rb, 88)),
    ) + opt_if(php_score(c) >= 35, cand(ContentType::Php, min_int(62 + php_score(c), 91)))
        + opt_if(ts_score(c) >= 20, cand(ContentType::TypeScript, min_int(55 + ts_score(c), 90)))
        + opt_if(
        js_score(c) >= 15 && !not_javascript(c),
        cand(ContentType::JavaScript, min_int(55 + js_score(c), 85)),
    ) + opt_if(sql_count(c) >= 1, cand(ContentType::Sql, min_int(60 + 5 * sql_count(c), 88)))
}

/// The best programming-language candidate.
pub open spec fn prog_candidate(c: Seq<char>) -> Option<Candidate> {
    best_of(prog_scores(c))
}

#[verifier::rlimit(50)]
#[verifier::spinoff_prover]
fn rust_score_exec(c: &Vec<char>) -> (r: u64)
    ensures
        r == rust_score(c@),
        r <= 170,
{
    reveal(rust_score);
    let h0 = contains(c, "fn ");
    let h1 = contains(c, "->");
    let h2 = contains(c, "let mut ");
    let h3 = contains(c, "use ");
    let h4 = contains(c, "::");
    let h5 = contains(c, "impl ");
    let h6 = contains(c, "&mut");
    let h7 = contains(c, ".unwrap()");
    let h8 = contains(c, ".expect(");
    let h9 = contains(c, "let Ok(");
    let h10 = contains(c, "let Err(");
    let h11 = contains(c, "Vec<");
    let h12 = contains(c, "HashMap<");
    let h13 = contains(c, "pub fn ");
    let h14 = contains(c, "pub struct ");
    let h15 = contains(c, "println!");
    wexec(h0, 20) + wexec(h0 && (h1 || h2), 15) + wexec(h3 && h4, 20) + wexec(h5, 20) + wexec(h6, 15) + wexec(h7 || h8, 15) + wexec(h9 || h10, 15) + wexec(h11 || h12, 15) + wexec(h13 || h14, 10) + wexec(h15, 25)
}

#[verifier::rlimit(50)]
#[verifier::spinoff_prover]
fn go_score_exec(c: &Vec<char>) -> (r: u64)
    ensures
        r == go_score(c@),
        r <= 180,
{
    reveal(go_score);
    let h0 = contains(c, "func ");
    let h1 = contains(c, "package ");
    let h2 = contains(c, "import (");
    let h3 = contains(c, ":= ");
    let h4 = contains(c, "range ");
    let h5 = contains(c, "go func(");
    let h6 = contains(c, "defer ");
    let h7 = contains(c, "chan ");
    let h8 = contains(c, "error != nil");
    wexec(h0, 20) + wexec(h1, 20) + wexec(h2, 25) + wexec(h3, 25) + wexec(h4, 15) + wexec(h5, 20) + wexec(h6, 15) + wexec(h7, 20) + wexec(h8, 20)
}

#[verifier::rlimit(50)]
#[verifier::spinoff_prover]
fn java_score_exec(c: &Vec<char>) -> (r: u64)
    ensures
        r == java_score(c@),
        r <= 120,
{
    reveal(java_score);
    let h0 = contains(c, "public static void");
    let h1 = contains(c, "public class");
    let h2 = contains(c, "String[] args");
    let h3 = contains(c, "System.out.");
    let h4 = contains(c, "System.err.");
    let h5 = contains(c, "@Override");
    let h6 = contains(c, "@SuppressWarnings");
    let h7 = contains(c, "import java.");
    let h8 = contains(c, "new ArrayList<");
    let h9 = contains(c, "new HashMap<");
    let h10 = contains(c, "public class ");
    let h11 = contains(c, "extends ");
    wexec((h0 || h1) && h2, 35) + wexec(h3 || h4, 20) + wexec(h5 || h6, 15) + wexec(h7, 20) + wexec(h8 || h9, 15) + wexec(h10 && h11, 15)
}

#[verifier::rlimit(50)]
#[verifier::spinoff_prover]
fn csharp_score_exec(c: &Vec<char>) -> (r: u64)
    ensures
        r == csharp_score(c@),
        r <= 115,
{
    reveal(csharp_score);
    let h0 = contains(c, "using System");
    let h1 = contains(c, "namespace ");
    let h2 = contains(c, "class ");
    let h3 = contains(c, "static void Main");
    let h4 = contains(c, "string[] args");
    let h5 = contains(c, "Console.");
    let h6 = contains(c, "public class ");
    let h7 = contains(c, "{");
    let h8 = contains(c, "var ");
    let h9 = contains(c, ";");
    wexec(h0, 25) + wexec(h1 && h2, 20) + wexec(h3 && h4, 30) + wexec(h5, 20) + wexec(h6 && h7, 10) + wexec(h8 && h9, 10)
}

#[verifier::rlimit(50)]
#[verifier::spinoff_prover]
fn c_score_exec(c: &Vec<char>) -> (r: u64)
    ensures
        r == c_score(c@),
        r <= 105,
{
    reveal(c_score);
    let h0 = contains(c, "int main(");
    let h1 = contains(c, "#include <");
    let h2 = contains(c, "void ");
    let h3 = contains(c, "printf");
    let h4 = contains(c, "scanf");
    let h5 = contains(c, "std::cout");
    let h6 = contains(c, "std::cin");
    let h7 = contains(c, "return 0;");
    wexec(h0, 30) + wexec(h1, 25) + wexec(h2 && (h3 || h4), 20) + wexec(h5 || h6, 20) + wexec(h7, 10)
}

#[verifier::rlimit(50)]
#[verifier::spinoff_prover]
fn cpp_score_exec(c: &Vec<char>) -> (r: u64)
    ensures
        r == cpp_score(c@),
        r <= 125,
{
    reveal(cpp_score);
    let h0 = contains(c, "std::");
    let h1 = contains(c, "template <");
    let h2 = contains(c, "class ");
    let h3 = contains(c, "public:");
    let h4 = contains(c, "private:");
    let h5 = contains(c, "vector<");
    let h6 = contains(c, "string ");
    let h7 = contains(c, "cout<<");
    let h8 = contains(c, "cin>>");
    wexec(h0, 25) + wexec(h1, 30) + wexec(h2 && (h3 || h4), 25) + wexec(h5 || h6, 20) + wexec(h7 || h8, 25)
}

#[verifier::rlimit(50)]
#[verifier::spinoff_prover]
fn python_score_exec(c: &Vec<char>) -> (r: u64)
    ensures
        r == python_score(c@),
        r <= 150,
{
    reveal(python_score);
    let h0 = contains(c, "def ");
    let h1 = contains(c, "import ");
    let h2 = contains(c, "if __name__");
    let h3 = contains(c, "elif ");
    let h4 = contains(c, "except ");
    let h5 = contains(c, ":");
    let h6 = contains(c, "self");
    let h7 = contains(c, "print(");
    let h8 = contains(c, "class ");
    let h9 = contains(c, "(object)");
    let h10 = contains(c, "[...] for ... in ");
    let h11 = contains(c, "None");
    let h12 = contains(c, "True");
    let h13 = contains(c, "False");
    wexec(h0, 12) + wexec(h1, 12) + wexec(h2, 20) + wexec(h3, 18) + wexec(h4, 18) + wexec(h5 && h6, 22) + wexec(h7, 8) + wexec(h8 && h9, 15) + wexec(h10, 15) + wexec(h11 || h12 || h13, 10)
}

#[verifier::rlimit(50)]
#[verifier::spinoff_prover]
fn ruby_hint_score_exec(c: &Vec<char>) -> (r: u64)
    ensures
        r == ruby_hint_score(c@),
        r <= 65,
{
    reveal(ruby_hint_score);
    let h0 = contains(c, "puts ");
    let h1 = contains(c, "end");
    let h2 = contains(c, "do |");
    let h3 = contains(c, "#{");
    wexec(h0, 15) + wexec(h1, 12) + wexec(h2, 20) + wexec(h3, 18)
}

#[verifier::rlimit(50)]
#[verifier::spinoff_prover]
fn ruby_score_exec(c: &Vec<char>) -> (r: u64)
    ensures
        r == ruby_score(c@),
        r <= 169,
{
    reveal(ruby_score);
    let h0 = contains(c, "puts ");
    let h1 = contains(c, "end");
    let h2 = contains(c, "do |");
    let h3 = contains(c, "#{");
    let h4 = contains(c, "def ");
    let h5 = contains(c, "require ");
    let h6 = contains(c, "attr_accessor");
    let h7 = contains(c, "attr_reader");
    let h8 = contains(c, "||=");
    let h9 = contains(c, "each do");
    wexec(h0, 20) + wexec(h1, 12) + wexec(h2, 25) + wexec(h3, 22) + wexec(h4 && h1, 20) + wexec(h5, 15) + wexec(h6 || h7, 20) + wexec(h8, 15) + wexec(h9, 20)
}

#[verifier::rlimit(50)]
#[verifier::spinoff_prover]
fn php_score_exec(c: &Vec<char>) -> (r: u64)
    ensures
        r == php_score(c@),
        r <= 182,
{
    reveal(php_score);
    let h0 = contains(c, "<?php");
    let h1 = contains(c, "<?=");
    let h2 = contains(c, "$");
    let h3 = contains(c, "->");
    let h4 = contains(c, "//");
    let h5 = contains(c, "function ");
    let h6 = contains(c, "echo ");
    let h7 = contains(c, "array(");
    let h8 = contains(c, "=>");
    let h9 = contains(c, "$_POST");
    let h10 = contains(c, "$_GET");
    let h11 = contains(c, "$_SERVER");
    let h12 = contains(c, "namespace ");
    let h13 = contains(c, "\\\\");
    let h14 = contains(c, "class ");
    let h15 = contains(c, "private $");
    wexec(h0 || h1, 35) + wexec(h2 && h3 && !h4, 25) + wexec(h5 && h2, 15) + wexec(h6 && h2, 15) + wexec(h7, 12) + wexec(h8 && h2, 15) + wexec(h9 || h10 || h11, 25) + wexec(h12 && h13, 20) + wexec(h14 && h15, 20)
}

#[verifier::rlimit(50)]
#[verifier::spinoff_prover]
fn ts_score_exec(c: &Vec<char>) -> (r: u64)
    ensures
        r == ts_score(c@),
        r <= 142,
{
    reveal(ts_score);
    let h0 = contains(c, "interface ");
    let h1 = contains(c, ": string");
    let h2 = contains(c, ": number");
    let h3 = contains(c, ": boolean");
    let h4 = contains(c, ": any");
    let h5 = contains(c, "type ");
    let h6 = contains(c, "=");
    let h7 = contains(c, "as ");
    let h8 = contains(c, ":");
    let h9 = contains(c, "<");
    let h10 = contains(c, "<T>");
    let h11 = contains(c, "<T,>");
    let h12 = contains(c, "enum ");
    let h13 = contains(c, "implements ");
    let h14 = contains(c, ": void");
    let h15 = contains(c, ": Promise");
    wexec(h0, 25) + wexec(h1 || h2 || h3 || h4, 20) + wexec(h5 && h6, 15) + wexec(h7 && (h8 || h9), 15) + wexec(h10 || h11, 20) + wexec(h12, 20) + wexec(h13, 15) + wexec(h14 || h15, 12)
}

#[verifier::rlimit(50)]
fn js_score_a_exec(c: &Vec<char>) -> (r: u64)
    ensures
        r == js_score_a(c@),
        r <= 200,
{
    reveal(js_score_a);
    let h0 = contains(c, "function ");
    let h1 = contains(c, "const ");
    let h2 = contains(c, "let ");
    let h3 = contains(c, "var ");
    let h4 = contains(c, "=>");
    let h5 = contains(c, "console.");
    let h6 = contains(c, "Write-");
    wexec(h0, 15) + wexec(h1, 15) + wexec(h2, 12) + wexec(h3, 8) + wexec(h4, 18) + wexec(h5 && !h6, 20)
}

#[verifier::rlimit(50)]
fn js_score_b_exec(c: &Vec<char>) -> (r: u64)
    ensures
        r == js_score_b(c@),
        r <= 200,
{
    reveal(js_score_b);
    let h7 = contains(c, "document.");
    let h8 = contains(c, "window.");
    let h9 = contains(c, "require(");
    let h10 = contains(c, "export ");
    let h11 = contains(c, "import ");
    let h12 = contains(c, "from ");
    let h13 = contains(c, "Promise.");
    let h14 = contains(c, "async ");
    let h15 = contains(c, "===");
    let h16 = contains(c, "!==");
    let h17 = contains(c, "null");
    let h18 = contains(c, "undefined");
    wexec(h7 || h8, 25) + wexec(h9, 15) + wexec(h10 || (h11 && h12), 15) + wexec(h13 || h14, 12) + wexec(h15 || h16, 10) + wexec(h17 || h18, 6)
}

fn js_score_exec(c: &Vec<char>) -> (r: u64)
    ensures
        r == js_score(c@),
        r <= 400,
{
    reveal(js_score);
    js_score_a_exec(c) + js_score_b_exec(c)
}

/// `min(base + score, cap)`.
fn capped(base: u64, score: u64, cap: u64) -> (r: u64)
    requires
        base <= cap,
    ensures
        r == min_int(base + score, cap as int),
{
    if score <= cap - base {
        base + score
    } else {
        cap
    }
}

fn any_line_prefix_exec(us: &Vec<Vec<char>>, kw: &str) -> (r: bool)
    ensures
        r == any_line_prefix(us.deep_view(), kw@),
{
    let ghost dv = us.deep_view();
    let mut i: usize = 0;
    while i < us.len()
        invariant
            0 <= i <= us.len(),
            dv == us.deep_view(),
            dv.len() == us.len(),
            forall|k: int| 0 <= k < i ==> !#[trigger] has_prefix(dv[k], kw@),
        decreases us.len() - i,
    {
        assert(dv[i as int] == us@[i as int]@);
        if starts_with(&us[i], kw) {
            return true;
        }
        i += 1;
    }
    false
}

#[verifier::rlimit(50)]
#[verifier::spinoff_prover]
fn sql_count_exec(c: &Vec<char>) -> (r: u64)
    ensures
        r == sql_count(c@),
        r <= 14,
{
    let ls = lines_exec(c);
    let ghost dv = ls.deep_view();
    let mut us: Vec<Vec<char>> = Vec::new();
    let mut i: usize = 0;
    while i < ls.len()
        invariant
            0 <= i <= ls.len(),
            dv == ls.deep_view(),
            dv == lines(c@),
            dv.len() == ls.len(),
            us.deep_view() == dv.take(i as int).map_values(|l: Seq<char>| uppercase_of(trim(l))),
        decreases ls.len() - i,
    {
        assert(dv[i as int] == ls@[i as int]@);
        let u = to_uppercase(&trim_exec(&ls[i]));
        let ghost before = us.deep_view();
        assert(u.deep_view() =~= u@);
        us.push(u);
        assert(us.deep_view() =~= before.push(u@));
        assert(dv.take(i + 1).map_values(|l: Seq<char>| uppercase_of(trim(l))) =~= before.push(u@));
        i += 1;
    }
    assert(dv.take(ls.len() as int) =~= dv);
    assert(us.deep_view() =~= upper_trimmed_lines(c@));
    sql_hits_a_exec(&us) + sql_hits_b_exec(&us)
}

#[verifier::rlimit(50)]
fn sql_hits_a_exec(us: &Vec<Vec<char>>) -> (r: u64)
    ensures
        r == sql_hits_a(us.deep_view()),
        r <= 7,
{
    reveal(sql_hits_a);
    wexec(any_line_prefix_exec(us, "SELECT "), 1) + wexec(any_line_prefix_exec(us, "INSERT "), 1) + wexec(any_line_prefix_exec(us, "UPDATE "), 1) + wexec(any_line_prefix_exec(us, "CREATE "), 1) + wexec(any_line_prefix_exec(us, "ALTER "), 1) + wexec(any_line_prefix_exec(us, "DROP "), 1) + wexec(any_line_prefix_exec(us, "DELETE "), 1)
}

#[verifier::rlimit(50)]
fn sql_hits_b_exec(us: &Vec<Vec<char>>) -> (r: u64)
    ensures
        r == sql_hits_b(us.deep_view()),
        r <= 7,
{
    reveal(sql_hits_b);
    wexec(any_line_prefix_exec(us, "FROM "), 1) + wexec(any_line_prefix_exec(us, "WHERE "), 1) + wexec(any_line_prefix_exec(us, "JOIN "), 1) + wexec(any_line_prefix_exec(us, "INNER JOIN "), 1) + wexec(any_line_prefix_exec(us, "LEFT JOIN "), 1) + wexec(any_line_prefix_exec(us, "GROUP BY "), 1) + wexec(any_line_prefix_exec(us, "ORDER BY "), 1)
}


#[verifier::rlimit(80)]
#[verifier::spinoff_prover]
fn detect_programming_languages(c: &Vec<char>) -> (r: Option<Candidate>)
    ensures
        r == prog_candidate(c@),
{
    let rust = rust_score_exec(c);
    let go = go_score_exec(c);
    let java = java_score_exec(c);
    let csharp = csharp_score_exec(c);
    let cc = c_score_exec(c);
    let cpp = cpp_score_exec(c);
    let py = python_score_exec(c);
    let hint = ruby_hint_score_exec(c);
    let rb = ruby_score_exec(c);
    let php = php_score_exec(c);
    let ts = ts_score_exec(c);
    let js = js_score_exec(c);
    let sql = sql_count_exec(c);
    let likely_py = contains(c, ":") && (contains(c, "import ") || contains(c, "self") || contains(
        c,
        "elif",
    ));
    let not_js = (ts >= 40 && ts + 10 >= js) || (php >= 35 && (contains(c, "<?php") || contains(
        c,
        "$_",
    )));
    let mut v: Vec<Candidate> = Vec::new();
    push_if(
        &mut v,
        rust >= 15,
        Candidate { content_type: ContentType::Rust, confidence: capped(58, rust, 93) },
    );
    push_if(
        &mut v,
        go > 0,
        Candidate { content_type: ContentType::Go, confidence: capped(55, go, 90) },
    );
    push_if(
        &mut v,
        java > 0,
        Candidate { content_type: ContentType::Java, confidence: capped(60, java, 92) },
    );
    push_if(
        &mut v,
        csharp >= 45,
        Candidate { content_type: ContentType::CSharp, confidence: capped(65, csharp, 90) },
    );
    push_if(
        &mut v,
        cc > 0,
        Candidate { content_type: ContentType::C, confidence: capped(55, cc, 88) },
    );
    push_if(
        &mut v,
        cc > 0 && cpp >= 20,
        Candidate { content_type: ContentType::Cpp, confidence: capped(65, cpp, 90) },
    );
    push_if(
        &mut v,
        py > 0 && (py > hint + 15 || hint < 25),
        Candidate { content_type: ContentType::Python, confidence: capped(55, py, 88) },
    );
    push_if(
        &mut v,
        rb >= 40 && (!likely_py || rb > py + 15),
        Candidate { content_type: ContentType::Ruby, confidence: capped(58, rb, 88) },
    );
    push_if(
        &mut v,
        php >= 35,
        Candidate { content_type: ContentType::Php, confidence: capped(62, php, 91) },
    );
    push_if(
        &mut v,
        ts >= 20,
        Candidate { content_type: ContentType::TypeScript, confidence: capped(55, ts, 90) },
    );
    push_if(
        &mut v,
        js >= 15 && !not_js,
        Candidate { content_type: ContentType::JavaScript, confidence: capped(55, js, 85) },
    );
    push_if(
        &mut v,
        sql >= 1,
        Candidate { content_type: ContentType::Sql, confidence: capped(60, 5 * sql, 88) },
    );
    assert(v@ == prog_scores(c@));
    pick_best(&v)
}

// ------------------------------------------------------------------
// Markdown
// ------------------------------------------------------------------

/// The lines outside fenced code blocks, each followed by `'\n'`; fence
/// lines (trimmed, starting with three backticks) toggle the block and are dropped.
pub open spec fn strip_blocks_from(ls: Seq<Seq<char>>, in_code: bool) -> Seq<char>
    decreases ls.len(),
{
    if ls.len() == 0 {
        seq![]
    } else if has_prefix(trim(ls[0]), "```"@) {
        strip_blocks_from(ls.drop_first(), !in_code)
    } else if !in_code {
        ls[0] + seq!['\n'] + strip_blocks_from(ls.drop_first(), in_code)
    } else {
        strip_blocks_from(ls.drop_first(), in_code)
    }
}

/// `content` without its fenced code blocks.
pub open spec fn strip_code_blocks_spec(content: Seq<char>) -> Seq<char> {
    strip_blocks_from(lines(content), false)
}

/// A Markdown heading line (one to six `#` and a space).
pub open spec fn heading_line(l: Seq<char>) -> bool {
    let t = trim(l);
    has_prefix(t, "# "@) || has_prefix(t, "## "@) || has_prefix(t, "### "@) || has_prefix(
        t,
        "#### "@,
    ) || has_prefix(t, "##### "@) || has_prefix(t, "###### "@)
}

/// A Markdown list item line.
pub open spec fn list_line(l: Seq<char>) -> bool {
    let t = trim(l);
    has_prefix(t, "- "@) || has_prefix(t, "* "@) || has_prefix(t, "1. "@) || has_prefix(t, "2. "@)
        || has_prefix(t, "3. "@)
}

/// Number of heading lines.
pub open spec fn heading_count(ls: Seq<Seq<char>>) -> nat
    decreases ls.len(),
{
    if ls.len() == 0 {
        0
    } else {
        heading_count(ls.drop_last()) + if heading_line(ls.last()) {
            1nat
        } else {
            0nat
        }
    }
}

/// The Markdown candidate: some Markdown signal, with confidence
/// `min(0.58 + 0.06 * signals + 0.03 * headings, 0.87)`.
pub open spec fn markdown_candidate(content: Seq<char>) -> Option<Candidate> {
    let md = strip_code_blocks_spec(content);
    let mt = trim(md);
    let mls = lines(md);
    let heading = has_prefix(mt, "# "@) || has_prefix(mt, "## "@);
    let link = has_sub(md, "["@) && has_sub(md, "]("@);
    let fence = has_sub(content, "```"@);
    let bold = has_sub(md, "**"@) || has_sub(md, "__"@);
    let hr = has_sub(md, "---"@) || has_sub(md, "***"@);
    let list = exists|i: int| 0 <= i < mls.len() && #[trigger] list_line(mls[i]);
    let hc = heading_count(mls);
    let sc = wt(fence, 1) + wt(link, 1) + wt(bold, 1) + wt(hr, 1) + wt(list, 1);
    if sc >= 1 || (heading && (bold || hr || list || fence || link)) || hc >= 1 || (heading
        && mls.len() <= 5) {
        Some(cand(ContentType::Markdown, min_int(58 + sc * 6 + hc * 3, 87)))
    } else {
        None
    }
}

fn strip_code_blocks(content: &Vec<char>) -> (r: Vec<char>)
    ensures
        r@ == strip_code_blocks_spec(content@),
{
    let ls = lines_exec(content);
    let ghost dv = ls.deep_view();
    let mut out: Vec<char> = Vec::new();
    let mut in_code = false;
    let mut i: usize = 0;
    assert(dv.skip(0) =~= dv);
    assert(out@ + strip_blocks_from(dv, false) =~= strip_blocks_from(dv, false));
    while i < ls.len()
        invariant
            0 <= i <= ls.len(),
            dv == ls.deep_view(),
            dv == lines(content@),
            dv.len() == ls.len(),
            strip_code_blocks_spec(content@) == out@ + strip_blocks_from(dv.skip(i as int), in_code),
        decreases ls.len() - i,
    {
        assert(dv[i as int] == ls@[i as int]@);
        assert(dv.skip(i as int)[0] == dv[i as int]);
        assert(dv.skip(i as int).drop_first() =~= dv.skip(i + 1));
        let line = &ls[i];
        let tl = trim_exec(line);
        if starts_with(&tl, "```") {
            in_code = !in_code;
        } else if !in_code {
            let ghost before = out@;
            let mut j: usize = 0;
            while j < line.len()
                invariant
                    0 <= j <= line.len(),
                    out@ == before + line@.take(j as int),
                decreases line.len() - j,
            {
                out.push(line[j]);
                j += 1;
                assert(out@ =~= before + line@.take(j as int));
            }
            out.push('\n');
            assert(line@.take(line.len() as int) =~= line@);
            assert(out@ =~= before + (line@ + seq!['\n']));
        }
        i += 1;
    }
    assert(dv.skip(ls.len() as int) =~= Seq::<Seq<char>>::empty());
    assert(out@ =~= out@ + Seq::<char>::empty());
    out
}

fn heading_line_exec(l: &Vec<char>) -> (r: bool)
    ensures
        r == heading_line(l@),
{
    let t = trim_exec(l);
    starts_with(&t, "# ") || starts_with(&t, "## ") || starts_with(&t, "### ") || starts_with(
        &t,
        "#### ",
    ) || starts_with(&t, "##### ") || starts_with(&t, "###### ")
}

fn list_line_exec(l: &Vec<char>) -> (r: bool)
    ensures
        r == list_line(l@),
{
    let t = trim_exec(l);
    starts_with(&t, "- ") || starts_with(&t, "* ") || starts_with(&t, "1. ") || starts_with(&t, "2. ")
        || starts_with(&t, "3. ")
}

#[verifier::rlimit(50)]
fn detect_markdown_enhanced(content: &Vec<char>) -> (r: Option<Candidate>)
    ensures
        r == markdown_candidate(content@),
{
    let md = strip_code_blocks(content);
    let mt = trim_exec(&md);
    let mls = lines_exec(&md);
    let ghost dv = mls.deep_view();
    let heading = starts_with(&mt, "# ") || starts_with(&mt, "## ");
    let link = contains(&md, "[") && contains(&md, "](");
    let fence = contains(content, "```");
    let bold = contains(&md, "**") || contains(&md, "__");
    let hr = contains(&md, "---") || contains(&md, "***");
    let mut list = false;
    let mut hc: u64 = 0;
    let mut i: usize = 0;
    while i < mls.len()
        invariant
            0 <= i <= mls.len(),
            dv == mls.deep_view(),
            dv == lines(md@),
            dv.len() == mls.len(),
            list == exists|k: int| 0 <= k < i && #[trigger] list_line(dv[k]),
            hc == heading_count(dv.take(i as int)),
            hc <= i,
        decreases mls.len() - i,
    {
        assert(dv[i as int] == mls@[i as int]@);
        assert(dv.take(i + 1).drop_last() =~= dv.take(i as int));
        let a = list_line_exec(&mls[i]);
        assert(a == list_line(dv[i as int]));
        list = list || a;
        if heading_line_exec(&mls[i]) {
            hc += 1;
        }
        i += 1;
    }
    assert(dv.take(mls.len() as int) =~= dv);
    let sc = wexec(fence, 1) + wexec(link, 1) + wexec(bold, 1) + wexec(hr, 1) + wexec(list, 1);
    if sc >= 1 || (heading && (bold || hr || list || fence || link)) || hc >= 1 || (heading
        && mls.len() <= 5) {
        let conf = if hc >= 10 {
            87
        } else {
            capped(58, sc * 6 + hc * 3, 87)
        };
        return Some(Candidate { content_type: ContentType::Markdown, confidence: conf });
    }
    None
}

// ------------------------------------------------------------------
// Detection
// ------------------------------------------------------------------

/// Some candidate is Markdown with confidence at least 0.7.
pub open spec fn confident_markdown(cs: Seq<Candidate>) -> bool {
    exists|i: int|
        0 <= i < cs.len() && (#[trigger] cs[i]).content_type == ContentType::Markdown
            && cs[i].confidence >= 70
}

/// All candidates, in order: shebang (0.95), structured format, script
/// language, programming language, Markdown (only without a structured
/// format), and Markdown at 0.78 for a code fence unless a Markdown
/// candidate of confidence 0.7 or more is already there.
pub open spec fn candidates(content: Seq<char>) -> Seq<Candidate> {
    let t = trim(content);
    let st = structured_candidate(t, content);
    let sb = match shebang_of(content) {
        Some(ct) => seq![cand(ct, 95)],
        None => seq![],
    };
    let c4 = sb + opt_seq(st) + opt_seq(script_candidate(content)) + opt_seq(
        prog_candidate(content),
    );
    let c5 = if st is None {
        c4 + opt_seq(markdown_candidate(content))
    } else {
        c4
    };
    if has_sub(content, "```"@) && !confident_markdown(c5) {
        c5.push(cand(ContentType::Markdown, 78))
    } else {
        c5
    }
}

/// The detected type: plain text for blank content, binary for content
/// with a NUL character, else the single candidate, or the best one
/// unless its confidence is below 0.15 (then plain text).
pub open spec fn spec_detect(content: Seq<char>) -> ContentType {
    if trim(content).len() == 0 {
        ContentType::PlainText
    } else if content.contains('\0') {
        ContentType::Binary
    } else {
        let cs = candidates(content);
        if cs.len() == 0 {
            ContentType::PlainText
        } else if cs.len() == 1 {
            cs[0].content_type
        } else {
            let b = best_of(cs)->0;
            if b.confidence < 15 {
                ContentType::PlainText
            } else {
                b.content_type
            }
        }
    }
}

#[verifier::rlimit(50)]
fn collect_all_candidates(content: &Vec<char>, trimmed: &Vec<char>) -> (r: Vec<Candidate>)
    requires
        trimmed@ == trim(content@),
    ensures
        r@ == candidates(content@),
{
    let mut cs: Vec<Candidate> = Vec::new();
    if let Some(ct) = detect_shebang(content) {
        cs.push(Candidate { content_type: ct, confidence: 95 });
    }
    let st = detect_structured_formats(trimmed, content);
    let has_structured_format = st.is_some();
    push_opt(&mut cs, st);
    push_opt(&mut cs, detect_script_languages(content));
    push_opt(&mut cs, detect_programming_languages(content));
    if !has_structured_format {
        push_opt(&mut cs, detect_markdown_enhanced(content));
    }
    let ghost c5 = cs@;
    if contains(content, "```") {
        let mut found = false;
        let mut i: usize = 0;
        while i < cs.len()
            invariant
                0 <= i <= cs.len(),
                cs@ == c5,
                found == exists|k: int|
                    0 <= k < i && (#[trigger] cs@[k]).content_type == ContentType::Markdown
                        && cs@[k].confidence >= 70,
            decreases cs.len() - i,
        {
            if cs[i].content_type == ContentType::Markdown && cs[i].confidence >= 70 {
                found = true;
            }
            i += 1;
        }
        if !found {
            cs.push(Candidate { content_type: ContentType::Markdown, confidence: 78 });
        }
    }
    proof {
        let sb = match shebang_of(content@) {
            Some(ct) => seq![cand(ct, 95)],
            None => seq![],
        };
        assert(c5 =~= if structured_candidate(trim(content@), content@) is None {
            sb + opt_seq(structured_candidate(trim(content@), content@)) + opt_seq(
                script_candidate(content@),
            ) + opt_seq(prog_candidate(content@)) + opt_seq(markdown_candidate(content@))
        } else {
            sb + opt_seq(structured_candidate(trim(content@), content@)) + opt_seq(
                script_candidate(content@),
            ) + opt_seq(prog_candidate(content@))
        });
    }
    cs
}

/// The content type of a text (see `spec_detect`).
pub fn detect(content: &str) -> (r: ContentType)
    ensures
        r == spec_detect(content@),
{
    let cv = chars_of(content);
    let trimmed = trim_exec(&cv);
    if trimmed.len() == 0 {
        return ContentType::PlainText;
    }
    if contains_char(&cv, '\0') {
        return ContentType::Binary;
    }
    let candidates = collect_all_candidates(&cv, &trimmed);
    if candidates.len() == 0 {
        return ContentType::PlainText;
    }
    if candidates.len() == 1 {
        return candidates[0].content_type;
    }
    let best = match pick_best(&candidates) {
        Some(b) => b,
        None => return ContentType::PlainText,
    };
    if best.confidence < 15 {
        return ContentType::PlainText;
    }
    best.content_type
}

// ------------------------------------------------------------------
// Detection cross-checked with file-identify
// ------------------------------------------------------------------

/// The tag names (in name order) that `file_identify` gives a regular,
/// non-executable file named `clipboard.txt`: its name alone settles them
/// (the `txt` extension gives `plain-text` and `text`), whatever it holds.
pub open spec fn clipboard_tags() -> Seq<Seq<char>> {
    seq!["file"@, "non-executable"@, "plain-text"@, "text"@]
}

/// `file_identify::classify` for a regular non-executable `clipboard.txt`,
/// finished with `Pending::finish_bytes` on the text's bytes when the name
/// does not settle the tags; the tags as their names. As the crate's
/// tables show, the `txt` extension settles them without the content.
#[verifier::external_body]
fn identify_text_tags(content: &str) -> (r: Vec<String>)
    ensures
        r@.map_values(|t: String| t@) == clipboard_tags(),
{
    let tags = match file_identify::classify(file_identify::Meta::regular(false), "clipboard.txt") {
        file_identify::Classification::Done(t) => t,
        file_identify::Classification::NeedsContent(p) => p.finish_bytes(content.as_bytes()),
    };
    tags.names().map(|n| n.to_string()).collect()
}

/// The tags of `clipboard.txt` do not include `binary`.
proof fn lemma_clipboard_tags_not_binary()
    ensures
        !tag_listed(clipboard_tags(), "binary"@),
{
    reveal_strlit("binary");
    reveal_strlit("file");
    reveal_strlit("non-executable");
    reveal_strlit("plain-text");
    reveal_strlit("text");
    assert forall|i: int| 0 <= i < clipboard_tags().len() implies clipboard_tags()[i]
        != "binary"@ by {
        assert(clipboard_tags()[i][0] != "binary"@[0] || clipboard_tags()[i].len()
            != "binary"@.len());
    }
}

/// `tag` is among `tags`.
pub open spec fn tag_listed(tags: Seq<Seq<char>>, tag: Seq<char>) -> bool {
    exists|i: int| 0 <= i < tags.len() && tags[i] == tag
}

/// The type after the cross-check: binary when the tags say so, else the
/// heuristic detection (a language tag is accepted only where the
/// heuristic agrees, so it never changes the outcome).
pub open spec fn cross_checked(tags: Seq<Seq<char>>, content: Seq<char>) -> ContentType {
    if tag_listed(tags, "binary"@) {
        ContentType::Binary
    } else {
        spec_detect(content)
    }
}

fn has_tag(tags: &Vec<String>, tag: &str) -> (r: bool)
    ensures
        r == tag_listed(tags@.map_values(|t: String| t@), tag@),
{
    let ghost tv = tags@.map_values(|t: String| t@);
    let mut i: usize = 0;
    while i < tags.len()
        invariant
            0 <= i <= tags.len(),
            tv == tags@.map_values(|t: String| t@),
            forall|k: int| 0 <= k < i ==> tv[k] != tag@,
        decreases tags.len() - i,
    {
        assert(tv[i as int] == tags@[i as int]@);
        if str_eq(tags[i].as_str(), tag) {
            return true;
        }
        i += 1;
    }
    false
}

/// Detection given the tags that file-identify reported for the content.
pub fn detect_with_tags(content: &str, tags: &Vec<String>) -> (r: ContentType)
    ensures
        r == cross_checked(tags@.map_values(|t: String| t@), content@),
{
    if has_tag(tags, "binary") {
        return ContentType::Binary;
    }
    let heuristic = detect(content);
    if has_tag(tags, "python") && heuristic == ContentType::Python {
        return ContentType::Python;
    }
    if has_tag(tags, "javascript") && heuristic == ContentType::JavaScript {
        return ContentType::JavaScript;
    }
    if has_tag(tags, "typescript") && heuristic == ContentType::TypeScript {
        return ContentType::TypeScript;
    }
    if has_tag(tags, "ruby") && heuristic == ContentType::Ruby {
        return ContentType::Ruby;
    }
    if has_tag(tags, "php") && heuristic == ContentType::Php {
        return ContentType::Php;
    }
    if has_tag(tags, "shell") && heuristic == ContentType::Shell {
        return ContentType::Shell;
    }
    if (has_tag(tags, "bash") || has_tag(tags, "zsh")) && heuristic == ContentType::Shell {
        return ContentType::Shell;
    }
    if has_tag(tags, "json") && heuristic == ContentType::Json {
        return ContentType::Json;
    }
    if has_tag(tags, "xml") && heuristic == ContentType::Xml {
        return ContentType::Xml;
    }
    if has_tag(tags, "html") && heuristic == ContentType::Html {
        return ContentType::Html;
    }
    if has_tag(tags, "yaml") && heuristic == ContentType::Yaml {
        return ContentType::Yaml;
    }
    if has_tag(tags, "toml") && heuristic == ContentType::Toml {
        return ContentType::Toml;
    }
    if has_tag(tags, "markdown") && heuristic == ContentType::Markdown {
        return ContentType::Markdown;
    }
    if has_tag(tags, "csv") && heuristic == ContentType::Csv {
        return ContentType::Csv;
    }
    if has_tag(tags, "sql") && heuristic == ContentType::Sql {
        return ContentType::Sql;
    }
    heuristic
}

/// Detection cross-checked with the tags that file-identify gives the text.
pub fn detect_enhanced(content: &str, _filename: Option<&str>) -> (r: ContentType)
    ensures
        r == cross_checked(clipboard_tags(), content@),
        r == spec_detect(content@),
{
    let tags = identify_text_tags(content);
    proof {
        lemma_clipboard_tags_not_binary();
    }
    detect_with_tags(content, &tags)
}

} // verus!
