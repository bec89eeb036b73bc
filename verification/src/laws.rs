//! Properties of the library as a whole, stated over the specifications
//! that the operations' contracts use, and proved.
use vstd::prelude::*;
use vstd::utf8::{encode_utf8, encode_utf8_decode_utf8, encode_utf8_valid_utf8, valid_utf8};
use crate::cli::spec_auto_correct;
use crate::conflict::{decimal, digit_char, rename_dir, rename_ext, rename_stem, spec_rename_candidate};
use crate::content_type::{ContentType, ext_list, ext_listed, ext_matches, spec_detect};
use crate::path::{
    extension,
    file_name,
    file_stem,
    join,
    last_segment,
    lemma_last_index_of,
    lemma_trim_tail_prefix,
    lemma_with_extension_extension,
    parent,
    seg_start,
    trim_tail,
    with_extension,
};
use crate::encoding::{
    EncodingId,
    encoding_of,
    is_utf16,
    chardet_guess,
    decoded_text,
    rs_name,
    lemma_utf16_injective,
    spec_decode,
    spec_detect_bytes,
    spec_encode,
    starts_with_bom,
    utf16_bytes,
    utf16_text,
};
use crate::file_ops::without;
use crate::conflict::{ConflictAction, ConflictMode, Resolution, spec_resolve};
use crate::cli::spec_file_encoding;
use crate::config::Config;
use crate::content_type::text_like;
use crate::text::{
    all_ascii,
    ascii_upper,
    is_ws,
    lemma_line_end_bounds,
    line_end,
    lines,
    lines_from,
    has_prefix,
    lowercase_of,
    strip_cr,
    trim,
    trim_end,
    trim_start,
    uppercase_of,
};
use crate::content_type::{any_line_prefix, sql_count, sql_hits_a, sql_hits_b, upper_trimmed_lines};
use crate::text::is_blank;

verus! {

/// Valid UTF-8 never begins with the bytes `FF` or `FE`.
proof fn lemma_utf8_first_byte(d: Seq<u8>)
    requires
        valid_utf8(d),
        d.len() > 0,
    ensures
        d[0] != 0xFF && d[0] != 0xFE,
{
}

/// Text written in UTF-8, in UTF-8 with a byte-order mark, or in UTF-16
/// (either byte order, behind its byte-order mark) decodes back to the
/// same text; for the UTF-8 encodings, as long as the text does not itself
/// begin with U+FEFF (whose bytes read as a byte-order mark).
pub proof fn law_encode_then_decode(text: Seq<char>, encoding: Seq<char>)
    requires
        encoding_of(encoding) is Some,
        encoding_of(encoding) != Some(EncodingId::Gbk),
        encoding_of(encoding) == Some(EncodingId::Utf8) ==> !starts_with_bom(encode_utf8(text)),
    ensures
        spec_encode(text, encoding) matches Some(b) && spec_decode(b) == Some(text),
{
    let u = encode_utf8(text);
    encode_utf8_valid_utf8(text);
    encode_utf8_decode_utf8(text);
    if encoding_of(encoding) == Some(EncodingId::Utf8) {
        if encoding == "utf8bom"@ {
            let b = spec_encode(text, encoding)->0;
            assert(b.skip(3) =~= u);
            assert(spec_detect_bytes(b) == "utf8bom"@);
        } else {
            if u.len() > 0 {
                lemma_utf8_first_byte(u);
            }
            assert(spec_detect_bytes(u) == "utf8"@);
        }
    } else {
        let le = encoding_of(encoding) == Some(EncodingId::Utf16Le);
        let b = spec_encode(text, encoding)->0;
        assert(b.skip(2) =~= utf16_bytes(text, le));
        assert(is_utf16(b.skip(2), le));
        lemma_utf16_injective(utf16_text(b.skip(2), le), text, le);
        if le {
            assert(spec_detect_bytes(b) == "utf16le"@);
        } else {
            assert(spec_detect_bytes(b) == "utf16be"@);
        }
    }
}

/// Unregistering a path that is not registered changes nothing.
proof fn lemma_without_absent(files: Seq<Seq<char>>, path: Seq<char>)
    requires
        !files.contains(path),
    ensures
        without(files, path) == files,
    decreases files.len(),
{
    reveal_with_fuel(Seq::<_>::filter, 1);
    if files.len() > 0 {
        let rest = files.drop_last();
        assert(!rest.contains(path)) by {
            if rest.contains(path) {
                let i = choose|i: int| 0 <= i < rest.len() && rest[i] == path;
                assert(files[i] == path);
            }
        }
        lemma_without_absent(rest, path);
        assert(files.last() != path) by {
            assert(files[files.len() - 1] == files.last());
        }
        assert(rest.push(files.last()) =~= files);
    }
}

/// Registering a temporary file and then unregistering it leaves it out
/// of the registry, and leaves a registry that did not hold it as it was.
pub proof fn law_register_then_unregister(files: Seq<Seq<char>>, path: Seq<char>)
    ensures
        !without(files.push(path), path).contains(path),
        !files.contains(path) ==> without(files.push(path), path) == files,
{
    broadcast use vstd::seq_lib::group_filter_ensures;

    let pred = |y: Seq<char>| y != path;
    let w = without(files.push(path), path);
    if w.contains(path) {
        let i = choose|i: int| 0 <= i < w.len() && w[i] == path;
        assert(pred(w[i]));
    }
    reveal_with_fuel(Seq::<_>::filter, 1);
    assert(files.push(path).drop_last() =~= files);
    if !files.contains(path) {
        lemma_without_absent(files, path);
    }
}

/// Blank content is plain text.
pub proof fn law_blank_is_plain_text(content: Seq<char>)
    requires
        is_blank(content),
    ensures
        spec_detect(content) == ContentType::PlainText,
{
}

/// Content that is not blank and holds a NUL character is binary.
pub proof fn law_nul_is_binary(content: Seq<char>)
    requires
        !is_blank(content),
        content.contains('\0'),
    ensures
        spec_detect(content) == ContentType::Binary,
{
}

/// A name without `/` or `.`.
pub open spec fn plain_ext(e: Seq<char>) -> bool {
    e.len() > 0 && !e.contains('/') && !e.contains('.')
}

/// The extension first suggested for each content type is a plain name.
proof fn lemma_first_ext_plain(ct: ContentType)
    requires
        ext_list(ct).len() > 0,
    ensures
        plain_ext(ext_list(ct)[0]@),
{
    let e = ext_list(ct)[0];
    match ct {
        ContentType::Json => reveal_strlit("json"),
        ContentType::Xml => reveal_strlit("xml"),
        ContentType::Html => reveal_strlit("html"),
        ContentType::Python => reveal_strlit("py"),
        ContentType::JavaScript => reveal_strlit("js"),
        ContentType::TypeScript => reveal_strlit("ts"),
        ContentType::Sql => reveal_strlit("sql"),
        ContentType::Shell => reveal_strlit("sh"),
        ContentType::Batch => reveal_strlit("bat"),
        ContentType::PowerShell => reveal_strlit("ps1"),
        ContentType::Ruby => reveal_strlit("rb"),
        ContentType::Php => reveal_strlit("php"),
        ContentType::C => reveal_strlit("c"),
        ContentType::Cpp => reveal_strlit("cpp"),
        ContentType::Rust => reveal_strlit("rs"),
        ContentType::Go => reveal_strlit("go"),
        ContentType::Java => reveal_strlit("java"),
        ContentType::CSharp => reveal_strlit("cs"),
        ContentType::Yaml => reveal_strlit("yaml"),
        ContentType::Toml => reveal_strlit("toml"),
        ContentType::Csv => reveal_strlit("csv"),
        ContentType::Markdown => reveal_strlit("md"),
        ContentType::PlainText => reveal_strlit("txt"),
        ContentType::Binary => {},
    }
    assert forall|k: int| 0 <= k < e@.len() implies e@[k] != '/' && e@[k] != '.' by {}
}

/// The name the extension correction proposes suits the content type:
/// `check_match` accepts it.
pub proof fn law_auto_correct_matches(path: Seq<char>, ct: ContentType)
    requires
        spec_auto_correct(path, ct) is Some,
    ensures
        ext_matches(ct, spec_auto_correct(path, ct)->0),
{
    lemma_first_ext_plain(ct);
    let e = ext_list(ct)[0]@;
    lemma_with_extension_extension(path, e);
    assert(ext_listed(ext_list(ct), e));
}

proof fn lemma_digit_char_injective(a: nat, b: nat)
    requires
        a < 10,
        b < 10,
        digit_char(a) == digit_char(b),
    ensures
        a == b,
{
}

proof fn lemma_decimal_len(n: nat)
    ensures
        decimal(n).len() >= 1,
        (decimal(n).len() == 1) == (n < 10),
    decreases n,
{
    if n >= 10 {
        lemma_decimal_len(n / 10);
    }
}

/// Different numbers have different decimal forms.
proof fn lemma_decimal_injective(n: nat, m: nat)
    requires
        decimal(n) == decimal(m),
    ensures
        n == m,
    decreases n,
{
    lemma_decimal_len(n);
    lemma_decimal_len(m);
    let dn = decimal(n);
    let dm = decimal(m);
    if n < 10 {
        assert(dn[0] == dm[0]);
        lemma_digit_char_injective(n, m);
    } else {
        assert(dn.last() == dm.last());
        lemma_digit_char_injective(n % 10, m % 10);
        assert(dn.drop_last() =~= decimal(n / 10));
        assert(dm.drop_last() =~= decimal(m / 10));
        lemma_decimal_injective(n / 10, m / 10);
    }
}

/// Joining the same base to different names gives different paths.
proof fn lemma_join_injective(base: Seq<char>, a: Seq<char>, b: Seq<char>)
    requires
        join(base, a) == join(base, b),
    ensures
        a == b,
{
    let pre = if base.len() == 0 {
        Seq::<char>::empty()
    } else if base.last() == '/' {
        base
    } else {
        base + seq!['/']
    };
    assert(join(base, a) =~= pre + a);
    assert(join(base, b) =~= pre + b);
    assert(a =~= (pre + a).subrange(pre.len() as int, (pre + a).len() as int));
    assert(b =~= (pre + b).subrange(pre.len() as int, (pre + b).len() as int));
}

/// The search for a free name never proposes the same name twice:
/// candidates with different numbers differ.
pub proof fn law_rename_candidates_differ(path: Seq<char>, n: nat, m: nat)
    requires
        n != m,
    ensures
        spec_rename_candidate(path, n) != spec_rename_candidate(path, m),
{
    let x = rename_stem(path) + "_"@;
    let e = rename_ext(path);
    let a = rename_stem(path) + "_"@ + decimal(n) + e;
    let b = rename_stem(path) + "_"@ + decimal(m) + e;
    if spec_rename_candidate(path, n) == spec_rename_candidate(path, m) {
        lemma_join_injective(rename_dir(path), a, b);
        assert(a == b);
        assert(decimal(n).len() == decimal(m).len());
        assert(decimal(n) =~= a.subrange(x.len() as int, (x.len() + decimal(n).len()) as int));
        assert(decimal(m) =~= b.subrange(x.len() as int, (x.len() + decimal(m).len()) as int));
        lemma_decimal_injective(n, m);
    }
}

/// `a` and `b` are the same path as `Path` compares them, for two paths
/// whose text agrees up to the final component: the same parent and the
/// same file name (and, with no file name, the same text).
pub open spec fn same_path_as_named(a: Seq<char>, b: Seq<char>) -> bool {
    if file_name(a) is None && file_name(b) is None {
        a == b
    } else {
        parent(a) == parent(b) && file_name(a) == file_name(b)
    }
}

/// The extension correction changes the extension to the first suggested
/// one unless there is none or the corrected path is the same path: the
/// result is `None` exactly then, and otherwise the corrected path.
pub proof fn law_auto_correct_is_a_change(path: Seq<char>, ct: ContentType)
    ensures
        ext_list(ct).len() == 0 ==> spec_auto_correct(path, ct) is None,
        ext_list(ct).len() > 0 ==> ({
            let q = with_extension(path, ext_list(ct)[0]@);
            spec_auto_correct(path, ct) == if same_path_as_named(q, path) {
                None::<Seq<char>>
            } else {
                Some(q)
            }
        }),
{
    if ext_list(ct).len() > 0 {
        let e = ext_list(ct)[0]@;
        let q = with_extension(path, e);
        lemma_first_ext_plain(ct);
        if file_stem(path) is Some {
            lemma_with_extension_extension(path, e);
            let f = file_name(path)->0;
            let stem = file_stem(path)->0;
            lemma_last_index_of(f, '.');
            let d = crate::path::last_index_of(f, '.');
            if d > 0 {
                assert(f =~= stem + seq!['.'] + f.subrange(d + 1, f.len() as int));
                if file_name(q) == file_name(path) {
                    assert(f.subrange(d + 1, f.len() as int) =~= (stem + seq!['.'] + e).subrange(
                        d + 1,
                        f.len() as int,
                    ));
                }
            } else {
                assert(file_name(q)->0.len() > f.len());
            }
        }
    }
}

/// How many times `c` occurs in `s`.
pub open spec fn occurrences(s: Seq<char>, c: char) -> nat
    decreases s.len(),
{
    if s.len() == 0 {
        0
    } else {
        occurrences(s.drop_last(), c) + if s.last() == c {
            1nat
        } else {
            0nat
        }
    }
}

proof fn lemma_occurrences_concat(a: Seq<char>, b: Seq<char>, c: char)
    ensures
        occurrences(a + b, c) == occurrences(a, c) + occurrences(b, c),
    decreases b.len(),
{
    if b.len() == 0 {
        assert(a + b =~= a);
    } else {
        lemma_occurrences_concat(a, b.drop_last(), c);
        assert((a + b).drop_last() =~= a + b.drop_last());
    }
}

/// Trimming the tail of a path removes only separators and dots.
proof fn lemma_occurrences_trim_tail(p: Seq<char>)
    ensures
        occurrences(trim_tail(p), '_') == occurrences(p, '_'),
    decreases p.len(),
{
    if p.len() > 1 && p.last() == '/' {
        lemma_occurrences_trim_tail(p.drop_last());
    } else if p.len() >= 2 && p.last() == '.' && p[p.len() - 2] == '/' {
        lemma_occurrences_trim_tail(p.drop_last());
    }
}

proof fn lemma_occurrences_single(x: char, c: char)
    ensures
        occurrences(seq![x], c) == if x == c {
            1nat
        } else {
            0nat
        },
{
    let s = seq![x];
    assert(s.drop_last() =~= Seq::<char>::empty());
    assert(occurrences(s.drop_last(), c) == 0);
    assert(s.last() == x);
}

proof fn lemma_occurrences_decimal(n: nat)
    ensures
        occurrences(decimal(n), '_') == 0,
    decreases n,
{
    lemma_occurrences_single(digit_char(n % 10), '_');
    if n >= 10 {
        lemma_occurrences_decimal(n / 10);
        lemma_occurrences_concat(decimal(n / 10), seq![digit_char(n % 10)], '_');
    } else {
        assert(n % 10 == n);
    }
}

proof fn lemma_occurrences_join(base: Seq<char>, name: Seq<char>)
    ensures
        occurrences(join(base, name), '_') == occurrences(base, '_') + occurrences(name, '_'),
{
    if base.len() == 0 {
        assert(join(base, name) == name);
        assert(occurrences(base, '_') == 0);
    } else if base.last() == '/' {
        lemma_occurrences_concat(base, name, '_');
    } else {
        lemma_occurrences_single('/', '_');
        lemma_occurrences_concat(base, seq!['/'], '_');
        lemma_occurrences_concat(base + seq!['/'], name, '_');
    }
}

/// The parts a rename candidate is built from hold the `_` of the path.
proof fn lemma_rename_parts(path: Seq<char>)
    ensures
        occurrences(rename_dir(path), '_') + occurrences(rename_stem(path), '_') + occurrences(
            rename_ext(path),
            '_',
        ) == occurrences(path, '_'),
{
    reveal_strlit(".");
    reveal_strlit("file");
    let t = trim_tail(path);
    lemma_trim_tail_prefix(path);
    lemma_occurrences_trim_tail(path);
    lemma_last_index_of(t, '/');
    let ss = seg_start(t);
    let a = t.subrange(0, ss);
    let seg = last_segment(t);
    assert(t =~= a + seg);
    lemma_occurrences_concat(a, seg, '_');
    lemma_occurrences_trim_tail(a);
    lemma_occurrences_single('.', '_');
    if file_name(path) is Some {
        let f = seg;
        assert(t.len() != 0 && t != seq!['/']) by {
            if t == seq!['/'] {
                assert(last_segment(t).len() == 0);
            }
        }
        assert(rename_dir(path) == trim_tail(a));
        lemma_last_index_of(f, '.');
        let d = crate::path::last_index_of(f, '.');
        if d > 0 {
            let e = f.subrange(d + 1, f.len() as int);
            assert(f =~= f.subrange(0, d) + seq!['.'] + e);
            lemma_occurrences_concat(f.subrange(0, d), seq!['.'], '_');
            lemma_occurrences_concat(f.subrange(0, d) + seq!['.'], e, '_');
            assert(rename_ext(path) =~= seq!['.'] + e);
            lemma_occurrences_concat(seq!['.'], e, '_');
        } else {
            assert(rename_ext(path) =~= Seq::<char>::empty());
        }
    } else {
        assert(extension(path) is None);
        assert(rename_ext(path) =~= Seq::<char>::empty());
        assert(occurrences(seg, '_') == 0) by {
            if seg.len() == 1 {
                assert(seg =~= seq![seg[0]]);
                lemma_occurrences_single(seg[0], '_');
            } else if seg.len() == 2 {
                assert(seg =~= seq![seg[0]] + seq![seg[1]]);
                lemma_occurrences_single(seg[0], '_');
                lemma_occurrences_single(seg[1], '_');
                lemma_occurrences_concat(seq![seg[0]], seq![seg[1]], '_');
            }
        }
        assert(occurrences(rename_stem(path), '_') == 0) by {
            assert(rename_stem(path) =~= seq!['f'] + seq!['i'] + seq!['l'] + seq!['e']);
            lemma_occurrences_single('f', '_');
            lemma_occurrences_single('i', '_');
            lemma_occurrences_single('l', '_');
            lemma_occurrences_single('e', '_');
            lemma_occurrences_concat(seq!['f'], seq!['i'], '_');
            lemma_occurrences_concat(seq!['f'] + seq!['i'], seq!['l'], '_');
            lemma_occurrences_concat(seq!['f'] + seq!['i'] + seq!['l'], seq!['e'], '_');
        }
        if t.len() == 0 || t == seq!['/'] {
            assert(rename_dir(path) =~= seq!['.']);
            assert(occurrences(t, '_') == 0) by {
                if t.len() == 1 {
                    lemma_occurrences_single('/', '_');
                }
            }
        } else {
            assert(rename_dir(path) == trim_tail(a));
        }
    }
}

/// A rename candidate is never the path itself: it holds one more `_`.
pub proof fn law_rename_candidate_differs_from_path(path: Seq<char>, n: nat)
    ensures
        spec_rename_candidate(path, n) != path,
{
    reveal_strlit("_");
    let u = "_"@;
    assert(u =~= seq!['_']);
    lemma_occurrences_single('_', '_');
    lemma_occurrences_decimal(n);
    lemma_rename_parts(path);
    let stem = rename_stem(path);
    let ext = rename_ext(path);
    let name = stem + u + decimal(n) + ext;
    lemma_occurrences_concat(stem, u, '_');
    lemma_occurrences_concat(stem + u, decimal(n), '_');
    lemma_occurrences_concat(stem + u + decimal(n), ext, '_');
    lemma_occurrences_join(rename_dir(path), name);
    assert(occurrences(spec_rename_candidate(path, n), '_') == occurrences(path, '_') + 1);
}


/// A target that does not exist yet is simply written: whatever the
/// conflict mode, the backup flag and the user's choice, the resolution
/// is to overwrite (create) it, with no backup.
pub proof fn law_missing_target_is_written(mode: ConflictMode, backup: bool, choice: Option<usize>)
    ensures
        spec_resolve(false, mode, backup, choice) == Some(
            Resolution { action: ConflictAction::Overwrite, backup_first: false },
        ),
{
}

/// A file whose extension is not `bat`, `cmd` or `ps1` (in any letter
/// case) and has no custom entry, or that has no extension, is written in
/// the configured default encoding, whatever that is.
pub proof fn law_default_encoding_applies(filename: Seq<char>, config: Config)
    requires
        match extension(filename) {
            None => true,
            Some(e) => {
                let l = lowercase_of(e);
                l != "bat"@ && l != "cmd"@ && l != "ps1"@ && !config.encodings.custom@.contains_key(l)
            },
        },
    ensures
        spec_file_encoding(filename, config) == config.core.default_encoding@,
{
}

/// An extension is accepted only where it is one of the content type's
/// suggested extensions, or it and one of the suggestions are both
/// text-like: an extension that is neither is a mismatch, for every
/// content type (plain text included); a suggested extension, or none at
/// all, always matches.
pub proof fn law_extension_mismatch(ct: ContentType, filename: Seq<char>)
    ensures
        extension(filename) is None ==> ext_matches(ct, filename),
        extension(filename) matches Some(e) && ext_listed(ext_list(ct), e) ==> ext_matches(ct, filename),
        extension(filename) matches Some(e) && !ext_listed(ext_list(ct), e) && !text_like(lowercase_of(e))
            ==> !ext_matches(ct, filename),
{
}

/// For bytes without a byte-order mark that are not valid UTF-8, the
/// detected encoding follows the `chardetng` guess: when the guess is the
/// `encoding_rs` name of UTF-8, GBK, UTF-16LE or UTF-16BE, the detected
/// name selects that encoding; a GBK guess is detected as `gbk`, and the
/// bytes then decode to what the GBK decoder gives (`None` where it had
/// to replace malformed sequences).
pub proof fn law_detection_follows_guess(d: Seq<u8>, e: EncodingId)
    requires
        !starts_with_bom(d),
        !(d.len() >= 2 && d[0] == 0xFF && d[1] == 0xFE),
        !(d.len() >= 2 && d[0] == 0xFE && d[1] == 0xFF),
        !valid_utf8(d),
        chardet_guess(d) == rs_name(e),
    ensures
        encoding_of(spec_detect_bytes(d)) == Some(e),
        e == EncodingId::Gbk ==> spec_detect_bytes(d) == "gbk"@ && spec_decode(d) == (if decoded_text(
            "GBK"@,
            d,
        ).1 {
            None
        } else {
            Some(decoded_text("GBK"@, d).0)
        }),
{
    reveal_strlit("UTF-8");
    reveal_strlit("GBK");
    reveal_strlit("UTF-16LE");
    reveal_strlit("UTF-16BE");
    reveal_strlit("utf8");
    reveal_strlit("gbk");
    reveal_strlit("utf16le");
    reveal_strlit("utf16be");
    assert("UTF-8"@.len() == 5 && "GBK"@.len() == 3);
    assert("UTF-16LE"@.len() == 8 && "UTF-16BE"@.len() == 8);
    assert("UTF-16LE"@[6] != "UTF-16BE"@[6]);
    reveal_strlit("utf-8");
    reveal_strlit("utf8bom");
    reveal_strlit("gb2312");
    reveal_strlit("utf-16le");
    reveal_strlit("utf-16be");
    match e {
        EncodingId::Utf8 => {
            assert(spec_detect_bytes(d) == "utf8"@);
        },
        EncodingId::Gbk => {
            assert(spec_detect_bytes(d) == "gbk"@);
            assert("gbk"@ != "utf8"@ && "gbk"@ != "utf-8"@ && "gbk"@ != "utf8bom"@);
            assert(encoding_of("gbk"@) == Some(EncodingId::Gbk));
        },
        EncodingId::Utf16Le => {
            assert(spec_detect_bytes(d) == "utf16le"@);
            assert("utf16le"@[3] != "utf8bom"@[3]);
            assert("utf16le"@ != "utf8"@ && "utf16le"@ != "utf-8"@ && "utf16le"@ != "utf8bom"@);
            assert("utf16le"@ != "gbk"@ && "utf16le"@ != "gb2312"@);
            assert(encoding_of("utf16le"@) == Some(EncodingId::Utf16Le));
        },
        EncodingId::Utf16Be => {
            assert(spec_detect_bytes(d) == "utf16be"@);
            assert("utf16be"@[3] != "utf8bom"@[3]);
            assert("utf16be"@ != "utf8"@ && "utf16be"@ != "utf-8"@ && "utf16be"@ != "utf8bom"@);
            assert("utf16be"@ != "gbk"@ && "utf16be"@ != "gb2312"@);
            assert("utf16be"@[5] != "utf16le"@[5]);
            assert("utf16be"@ != "utf16le"@ && "utf16be"@ != "utf-16le"@);
            assert(encoding_of("utf16be"@) == Some(EncodingId::Utf16Be));
        },
    }
}


/// `s` with its ASCII letters uppercased.
pub open spec fn ascii_uppercased(s: Seq<char>) -> Seq<char> {
    s.map_values(|c: char| ascii_upper(c))
}

/// Uppercasing an ASCII letter keeps line breaks, carriage returns and
/// whitespace where they are, is idempotent and stays within ASCII.
proof fn lemma_ascii_upper_char(c: char)
    ensures
        ascii_upper(c) == '\n' <==> c == '\n',
        ascii_upper(c) == '\r' <==> c == '\r',
        is_ws(ascii_upper(c)) <==> is_ws(c),
        ascii_upper(ascii_upper(c)) == ascii_upper(c),
        c <= '\x7f' ==> ascii_upper(c) <= '\x7f',
{
}

/// Lines end at the same places in the uppercased text.
proof fn lemma_line_end_uppercased(s: Seq<char>, i: int)
    ensures
        line_end(ascii_uppercased(s), i) == line_end(s, i),
    decreases s.len() - i,
{
    if 0 <= i < s.len() {
        lemma_ascii_upper_char(s[i]);
        if s[i] != '\n' {
            lemma_line_end_uppercased(s, i + 1);
        }
    }
}

/// Dropping a final carriage return commutes with uppercasing.
proof fn lemma_strip_cr_uppercased(x: Seq<char>)
    ensures
        strip_cr(ascii_uppercased(x)) == ascii_uppercased(strip_cr(x)),
{
    if x.len() > 0 {
        lemma_ascii_upper_char(x.last());
        assert(ascii_uppercased(x).last() == ascii_upper(x.last()));
        assert(ascii_uppercased(x).drop_last() =~= ascii_uppercased(x.drop_last()));
    }
}

/// The lines of the uppercased text are the uppercased lines.
proof fn lemma_lines_from_uppercased(s: Seq<char>, i: int)
    ensures
        lines_from(ascii_uppercased(s), i) == lines_from(s, i).map_values(
            |l: Seq<char>| ascii_uppercased(l),
        ),
    decreases s.len() - i,
{
    let u = ascii_uppercased(s);
    if i < 0 || i >= s.len() {
        assert(lines_from(s, i).map_values(|l: Seq<char>| ascii_uppercased(l)) =~= seq![]);
    } else {
        let e = line_end(s, i);
        lemma_line_end_bounds(s, i);
        lemma_line_end_uppercased(s, i);
        assert(u.subrange(i, e) =~= ascii_uppercased(s.subrange(i, e)));
        if e < s.len() {
            lemma_lines_from_uppercased(s, e + 1);
            lemma_strip_cr_uppercased(s.subrange(i, e));
            let rest = lines_from(s, e + 1);
            assert(lines_from(s, i) == seq![strip_cr(s.subrange(i, e))] + rest);
            assert(lines_from(u, i) == seq![strip_cr(u.subrange(i, e))] + lines_from(u, e + 1));
            assert((seq![strip_cr(s.subrange(i, e))] + rest).map_values(
                |l: Seq<char>| ascii_uppercased(l),
            ) =~= seq![ascii_uppercased(strip_cr(s.subrange(i, e)))] + rest.map_values(
                |l: Seq<char>| ascii_uppercased(l),
            ));
        } else {
            assert(seq![s.subrange(i, e)].map_values(|l: Seq<char>| ascii_uppercased(l)) =~= seq![
                ascii_uppercased(s.subrange(i, e)),
            ]);
        }
    }
}

/// Trimming commutes with uppercasing.
proof fn lemma_trim_uppercased(s: Seq<char>)
    ensures
        trim_start(ascii_uppercased(s)) == ascii_uppercased(trim_start(s)),
        trim_end(ascii_uppercased(s)) == ascii_uppercased(trim_end(s)),
        trim(ascii_uppercased(s)) == ascii_uppercased(trim(s)),
    decreases s.len(),
{
    let u = ascii_uppercased(s);
    if s.len() > 0 {
        lemma_ascii_upper_char(s[0]);
        assert(u[0] == ascii_upper(s[0]));
        assert(u.drop_first() =~= ascii_uppercased(s.drop_first()));
        lemma_trim_uppercased(s.drop_first());
    }
    lemma_trim_end_uppercased(s);
    lemma_trim_end_uppercased(trim_start(s));
}

/// Trimming the end commutes with uppercasing.
proof fn lemma_trim_end_uppercased(s: Seq<char>)
    ensures
        trim_end(ascii_uppercased(s)) == ascii_uppercased(trim_end(s)),
    decreases s.len(),
{
    let u = ascii_uppercased(s);
    if s.len() > 0 {
        lemma_ascii_upper_char(s.last());
        assert(u.last() == ascii_upper(s.last()));
        assert(u.drop_last() =~= ascii_uppercased(s.drop_last()));
        lemma_trim_end_uppercased(s.drop_last());
    }
}

/// Trimming the start keeps text ASCII.
proof fn lemma_trim_start_ascii(s: Seq<char>)
    requires
        all_ascii(s),
    ensures
        all_ascii(trim_start(s)),
    decreases s.len(),
{
    if s.len() > 0 {
        assert(all_ascii(s.drop_first())) by {
            assert forall|k: int| 0 <= k < s.drop_first().len() implies #[trigger] s.drop_first()[k]
                <= '\x7f' by {
                assert(s[k + 1] <= '\x7f');
            }
        }
        lemma_trim_start_ascii(s.drop_first());
    }
}

/// Trimming the end keeps text ASCII.
proof fn lemma_trim_end_ascii(s: Seq<char>)
    requires
        all_ascii(s),
    ensures
        all_ascii(trim_end(s)),
    decreases s.len(),
{
    if s.len() > 0 {
        assert(all_ascii(s.drop_last())) by {
            assert forall|k: int| 0 <= k < s.drop_last().len() implies #[trigger] s.drop_last()[k]
                <= '\x7f' by {
                assert(s[k] <= '\x7f');
            }
        }
        lemma_trim_end_ascii(s.drop_last());
    }
}

/// Trimming keeps text ASCII.
proof fn lemma_trim_ascii(s: Seq<char>)
    requires
        all_ascii(s),
    ensures
        all_ascii(trim(s)),
{
    lemma_trim_start_ascii(s);
    lemma_trim_end_ascii(trim_start(s));
}

/// Every line of ASCII text is ASCII.
proof fn lemma_lines_from_ascii(s: Seq<char>, i: int)
    requires
        all_ascii(s),
    ensures
        forall|k: int| 0 <= k < lines_from(s, i).len() ==> all_ascii(#[trigger] lines_from(s, i)[k]),
    decreases s.len() - i,
{
    if 0 <= i < s.len() {
        let e = line_end(s, i);
        lemma_line_end_bounds(s, i);
        let x = s.subrange(i, e);
        assert(all_ascii(x)) by {
            assert forall|k: int| 0 <= k < x.len() implies #[trigger] x[k] <= '\x7f' by {
                assert(s[i + k] <= '\x7f');
            }
        }
        assert(all_ascii(strip_cr(x))) by {
            assert forall|k: int| 0 <= k < strip_cr(x).len() implies #[trigger] strip_cr(x)[k]
                <= '\x7f' by {
                assert(x[k] <= '\x7f');
            }
        }
        if e < s.len() {
            lemma_lines_from_ascii(s, e + 1);
            let rest = lines_from(s, e + 1);
            assert(lines_from(s, i) == seq![strip_cr(x)] + rest);
            assert forall|k: int| 0 <= k < lines_from(s, i).len() implies all_ascii(
                #[trigger] lines_from(s, i)[k],
            ) by {
                if k > 0 {
                    assert(lines_from(s, i)[k] == rest[k - 1]);
                }
            }
        }
    }
}

/// SQL keywords are recognised in any letter case: uppercasing the ASCII
/// letters of ASCII text changes neither which keywords begin its lines
/// (trimmed) nor how many, so the SQL score is the same.
pub proof fn law_sql_keywords_ignore_case(c: Seq<char>)
    requires
        all_ascii(c),
    ensures
        upper_trimmed_lines(ascii_uppercased(c)) == upper_trimmed_lines(c),
        sql_count(ascii_uppercased(c)) == sql_count(c),
{
    let u = ascii_uppercased(c);
    lemma_lines_from_uppercased(c, 0);
    lemma_lines_from_ascii(c, 0);
    let ls = lines(c);
    assert forall|k: int| 0 <= k < ls.len() implies uppercase_of(trim(#[trigger] lines(u)[k]))
        == uppercase_of(trim(ls[k])) by {
        let l = ls[k];
        let t = trim(l);
        assert(lines(u)[k] == ascii_uppercased(l));
        lemma_trim_uppercased(l);
        lemma_trim_ascii(l);
        assert(all_ascii(ascii_uppercased(t))) by {
            assert forall|j: int| 0 <= j < t.len() implies #[trigger] ascii_uppercased(t)[j]
                <= '\x7f' by {
                lemma_ascii_upper_char(t[j]);
            }
        }
        assert(ascii_uppercased(ascii_uppercased(t)) =~= ascii_uppercased(t)) by {
            assert forall|j: int| 0 <= j < t.len() implies #[trigger] ascii_uppercased(
                ascii_uppercased(t),
            )[j] == ascii_uppercased(t)[j] by {
                lemma_ascii_upper_char(t[j]);
            }
        }
        assert(uppercase_of(t) == ascii_uppercased(t));
        assert(uppercase_of(ascii_uppercased(t)) == ascii_uppercased(ascii_uppercased(t)));
    }
    assert(upper_trimmed_lines(u) =~= upper_trimmed_lines(c));
}

/// A line of ASCII text that, trimmed, begins with `select ` in any
/// letter case counts toward the SQL score.
pub proof fn law_select_line_scores(c: Seq<char>, k: int)
    requires
        all_ascii(c),
        0 <= k < lines(c).len(),
        has_prefix(ascii_uppercased(trim(lines(c)[k])), "SELECT "@),
    ensures
        sql_count(c) >= 1,
{
    reveal(sql_hits_a);
    reveal(sql_hits_b);
    lemma_lines_from_ascii(c, 0);
    lemma_trim_ascii(lines(c)[k]);
    let us = upper_trimmed_lines(c);
    assert(us[k] == uppercase_of(trim(lines(c)[k])));
    assert(any_line_prefix(us, "SELECT "@));
}

} // verus!
