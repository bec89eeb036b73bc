//! Text encodings: choosing one by file extension; encoding text (UTF-8,
//! with a byte-order mark for `utf8bom`; UTF-16 with its byte-order mark;
//! GBK through `encoding_rs`); detecting the encoding of bytes (byte-order
//! marks first, then UTF-8 validity, then `chardetng`) and decoding.
use vstd::prelude::*;
use vstd::utf8::{decode_utf8, encode_utf8, valid_utf8};
use crate::error::{MfError, is_encoding_error};
use crate::path::{extension, path_extension};
use crate::text::{chars_of, push_str, str_eq, string_of};

verus! {

/// The encodings that can be written.
#[derive(Debug, Clone, Copy, PartialEq, Eq, Structural)]
pub enum EncodingId {
    Utf8,
    Gbk,
    Utf16Le,
    Utf16Be,
}

/// The `encoding_rs` name of each encoding.
pub open spec fn rs_name(e: EncodingId) -> Seq<char> {
    match e {
        EncodingId::Utf8 => "UTF-8"@,
        EncodingId::Gbk => "GBK"@,
        EncodingId::Utf16Le => "UTF-16LE"@,
        EncodingId::Utf16Be => "UTF-16BE"@,
    }
}

/// The encoding that a name selects.
pub open spec fn encoding_of(name: Seq<char>) -> Option<EncodingId> {
    if name == "utf8"@ || name == "utf-8"@ || name == "utf8bom"@ {
        Some(EncodingId::Utf8)
    } else if name == "gbk"@ || name == "gb2312"@ {
        Some(EncodingId::Gbk)
    } else if name == "utf16le"@ || name == "utf-16le"@ {
        Some(EncodingId::Utf16Le)
    } else if name == "utf16be"@ || name == "utf-16be"@ {
        Some(EncodingId::Utf16Be)
    } else {
        None
    }
}

/// The UTF-8 byte-order mark.
pub open spec fn bom() -> Seq<u8> {
    seq![0xEFu8, 0xBBu8, 0xBFu8]
}

/// `b` begins with the UTF-8 byte-order mark.
pub open spec fn starts_with_bom(b: Seq<u8>) -> bool {
    b.len() >= 3 && b[0] == 0xEF && b[1] == 0xBB && b[2] == 0xBF
}

/// The bytes written for the encoding name `name`: the encoder's output,
/// with a byte-order mark in front for `utf8bom` unless one is there already.
pub open spec fn with_bom(name: Seq<char>, b: Seq<u8>) -> Seq<u8> {
    if name == "utf8bom"@ && !starts_with_bom(b) {
        bom() + b
    } else {
        b
    }
}

/// The encoding name chosen for a file name by its extension.
pub open spec fn spec_choose_encoding(filename: Seq<char>) -> Seq<char> {
    match extension(filename) {
        Some(e) => if e == "bat"@ || e == "cmd"@ {
            "gbk"@
        } else if e == "ps1"@ {
            "utf8bom"@
        } else {
            "utf8"@
        },
        None => "utf8"@,
    }
}

// ------------------------------------------------------------------
// Trusted items over encoding_rs and chardetng
// ------------------------------------------------------------------

/// What `Encoding::encode` of the encoding named `encoding` gives for `s`.
pub uninterp spec fn encoded_bytes(encoding: Seq<char>, s: Seq<char>) -> Seq<u8>;

/// What `Encoding::decode` of the encoding named `encoding` gives for
/// `data`: the text, and whether malformed sequences were replaced.
pub uninterp spec fn decoded_text(encoding: Seq<char>, data: Seq<u8>) -> (Seq<char>, bool);

/// The name of the encoding that `chardetng` guesses for `data` (fed as
/// one complete stream, no top-level domain, UTF-8 allowed).
pub uninterp spec fn chardet_guess(data: Seq<u8>) -> Seq<char>;

/// `Encoding::encode` of `encoding_rs`. The output is named; as its
/// documentation says, the output encoding of UTF-16LE/BE is UTF-8, and
/// UTF-8 text is written as is, so every encoding but GBK yields the
/// UTF-8 form of the text.
#[verifier::external_body]
fn encode_with(e: EncodingId, content: &str) -> (r: Vec<u8>)
    ensures
        r@ == encoded_bytes(rs_name(e), content@),
        e != EncodingId::Gbk ==> r@ == encode_utf8(content@),
{
    let enc = match e {
        EncodingId::Utf8 => encoding_rs::UTF_8,
        EncodingId::Gbk => encoding_rs::GBK,
        EncodingId::Utf16Le => encoding_rs::UTF_16LE,
        EncodingId::Utf16Be => encoding_rs::UTF_16BE,
    };
    let (cow, _, _) = enc.encode(content);
    cow.into_owned()
}

/// `Encoding::decode` of `encoding_rs` (with byte-order-mark sniffing and
/// replacement of malformed sequences). The result is named. As its
/// documentation and source show: input that begins with a byte-order
/// mark is decoded, without the mark, in the encoding the mark names
/// (UTF-8, UTF-16LE or UTF-16BE), whatever `e` is; well-formed input gives
/// its text without errors; for UTF-8, input that is valid and has no
/// byte-order mark is that text.
#[verifier::external_body]
fn decode_with(e: EncodingId, data: &[u8]) -> (r: (String, bool))
    ensures
        (r.0@, r.1) == decoded_text(rs_name(e), data@),
        data@.len() >= 2 && data@[0] == 0xFF && data@[1] == 0xFE ==> forall|s: Seq<char>|
            #[trigger] utf16_bytes(s, true) == data@.skip(2) ==> r.0@ == s && !r.1,
        data@.len() >= 2 && data@[0] == 0xFE && data@[1] == 0xFF ==> forall|s: Seq<char>|
            #[trigger] utf16_bytes(s, false) == data@.skip(2) ==> r.0@ == s && !r.1,
        starts_with_bom(data@) && valid_utf8(data@.skip(3)) ==> r.0@ == decode_utf8(data@.skip(3))
            && !r.1,
        e == EncodingId::Utf8 && valid_utf8(data@) && !starts_with_bom(data@) ==> r.0@
            == decode_utf8(data@) && !r.1,
{
    let enc = match e {
        EncodingId::Utf8 => encoding_rs::UTF_8,
        EncodingId::Gbk => encoding_rs::GBK,
        EncodingId::Utf16Le => encoding_rs::UTF_16LE,
        EncodingId::Utf16Be => encoding_rs::UTF_16BE,
    };
    let (cow, _, had_errors) = enc.decode(data);
    (cow.into_owned(), had_errors)
}

/// `chardetng::EncodingDetector`: feed all of `data` as the last chunk,
/// then `guess(None, true)`; the name of the guessed encoding (named).
/// As its source shows, the UTF-8 candidate is only disqualified by
/// malformed UTF-8, so with UTF-8 allowed the guess for valid UTF-8 is
/// UTF-8, or ISO-2022-JP for ASCII input with escape sequences.
#[verifier::external_body]
fn guess_encoding_name(data: &[u8]) -> (r: &'static str)
    ensures
        r@ == chardet_guess(data@),
        valid_utf8(data@) ==> r@ == "UTF-8"@ || r@ == "ISO-2022-JP"@,
{
    let mut detector = chardetng::EncodingDetector::new();
    detector.feed(data, true);
    detector.guess(None, true).name()
}

// ------------------------------------------------------------------
// Operations
// ------------------------------------------------------------------

/// The encoding name for a file by its extension: `gbk` for `.bat`/`.cmd`,
/// `utf8bom` for `.ps1`, `utf8` otherwise.
pub fn choose_encoding(filename: &str) -> (r: &'static str)
    ensures
        r@ == spec_choose_encoding(filename@),
{
    match path_extension(filename) {
        Some(e) => {
            if str_eq(e.as_str(), "bat") || str_eq(e.as_str(), "cmd") {
                "gbk"
            } else if str_eq(e.as_str(), "ps1") {
                "utf8bom"
            } else {
                "utf8"
            }
        },
        None => "utf8",
    }
}

/// The message for an unknown encoding name.
pub open spec fn unknown_encoding_message(name: Seq<char>) -> Seq<char> {
    "Unknown encoding: "@ + name
}

/// The encoding that `name` selects, or an `Encoding` error naming it.
pub fn resolve_encoding(name: &str) -> (r: Result<EncodingId, MfError>)
    ensures
        match encoding_of(name@) {
            Some(e) => r == Ok::<EncodingId, MfError>(e),
            None => r matches Err(err) && is_encoding_error(err, unknown_encoding_message(name@)),
        },
{
    if str_eq(name, "utf8") || str_eq(name, "utf-8") || str_eq(name, "utf8bom") {
        Ok(EncodingId::Utf8)
    } else if str_eq(name, "gbk") || str_eq(name, "gb2312") {
        Ok(EncodingId::Gbk)
    } else if str_eq(name, "utf16le") || str_eq(name, "utf-16le") {
        Ok(EncodingId::Utf16Le)
    } else if str_eq(name, "utf16be") || str_eq(name, "utf-16be") {
        Ok(EncodingId::Utf16Be)
    } else {
        let mut m = String::new();
        push_str(&mut m, "Unknown encoding: ");
        push_str(&mut m, name);
        Err(MfError::Encoding(m))
    }
}

// ------------------------------------------------------------------
// UTF-16
// ------------------------------------------------------------------

/// The UTF-16 code units of `c`: the scalar itself below `0x10000`, else
/// a surrogate pair.
pub open spec fn utf16_units(c: char) -> Seq<int> {
    let v = (c as u32) as int;
    if v < 0x10000 {
        seq![v]
    } else {
        seq![0xD800 + (v - 0x10000) / 1024, 0xDC00 + (v - 0x10000) % 1024]
    }
}

/// The two bytes of a code unit, little-endian (`le`) or big-endian.
pub open spec fn unit_bytes(u: int, le: bool) -> Seq<u8> {
    if le {
        seq![(u % 256) as u8, (u / 256) as u8]
    } else {
        seq![(u / 256) as u8, (u % 256) as u8]
    }
}

/// The UTF-16 bytes of one character.
pub open spec fn char_utf16(c: char, le: bool) -> Seq<u8> {
    let us = utf16_units(c);
    if us.len() == 1 {
        unit_bytes(us[0], le)
    } else {
        unit_bytes(us[0], le) + unit_bytes(us[1], le)
    }
}

/// The UTF-16 form of `s`, little-endian (`le`) or big-endian, without a
/// byte-order mark.
pub open spec fn utf16_bytes(s: Seq<char>, le: bool) -> Seq<u8>
    decreases s.len(),
{
    if s.len() == 0 {
        seq![]
    } else {
        utf16_bytes(s.drop_last(), le) + char_utf16(s.last(), le)
    }
}

/// `b` is the UTF-16 form of some text.
pub open spec fn is_utf16(b: Seq<u8>, le: bool) -> bool {
    exists|s: Seq<char>| #[trigger] utf16_bytes(s, le) == b
}

/// The text whose UTF-16 form `b` is (meaningful when `is_utf16(b, le)`).
pub open spec fn utf16_text(b: Seq<u8>, le: bool) -> Seq<char> {
    choose|s: Seq<char>| #[trigger] utf16_bytes(s, le) == b
}

/// The value of the last code unit of `b`.
pub open spec fn last_unit(b: Seq<u8>, le: bool) -> int {
    if le {
        b[b.len() - 2] + 256 * b[b.len() - 1]
    } else {
        256 * b[b.len() - 2] + b[b.len() - 1]
    }
}

proof fn lemma_char_utf16_shape(c: char, le: bool)
    ensures
        (c as u32) < 0x10000 ==> char_utf16(c, le).len() == 2 && !(0xDC00 <= last_unit(
            char_utf16(c, le),
            le,
        ) < 0xE000),
        (c as u32) >= 0x10000 ==> char_utf16(c, le).len() == 4 && 0xDC00 <= last_unit(
            char_utf16(c, le),
            le,
        ) < 0xE000,
{
    broadcast use vstd::utf8::char_is_scalar;

    let v = (c as u32) as int;
    assert(0 <= v <= 0x10FFFF);
    assert(!(0xD800 <= v <= 0xDFFF));
    if v < 0x10000 {
        assert(last_unit(char_utf16(c, le), le) == v);
    } else {
        let lo = 0xDC00 + (v - 0x10000) % 1024;
        assert(last_unit(char_utf16(c, le), le) == lo);
    }
}

proof fn lemma_char_utf16_injective(c: char, d: char, le: bool)
    requires
        char_utf16(c, le) == char_utf16(d, le),
    ensures
        c == d,
{
    broadcast use vstd::utf8::char_is_scalar;

    let v = (c as u32) as int;
    let w = (d as u32) as int;
    lemma_char_utf16_shape(c, le);
    lemma_char_utf16_shape(d, le);
    let b = char_utf16(c, le);
    if v < 0x10000 {
        assert(w < 0x10000);
        assert(last_unit(b, le) == v);
        assert(last_unit(char_utf16(d, le), le) == w);
    } else {
        assert(w >= 0x10000);
        let hv = 0xD800 + (v - 0x10000) / 1024;
        let lv = 0xDC00 + (v - 0x10000) % 1024;
        let hw = 0xD800 + (w - 0x10000) / 1024;
        let lw = 0xDC00 + (w - 0x10000) % 1024;
        assert(last_unit(b.subrange(0, 2), le) == hv);
        assert(last_unit(char_utf16(d, le).subrange(0, 2), le) == hw);
        assert(last_unit(b, le) == lv);
        assert(last_unit(char_utf16(d, le), le) == lw);
        assert(v == w);
    }
    vstd::utf8::char_u32_cast(c, c as u32);
    vstd::utf8::char_u32_cast(d, d as u32);
}

proof fn lemma_utf16_len(s: Seq<char>, le: bool)
    ensures
        utf16_bytes(s, le).len() >= 2 * s.len(),
    decreases s.len(),
{
    if s.len() > 0 {
        lemma_utf16_len(s.drop_last(), le);
        lemma_char_utf16_shape(s.last(), le);
    }
}

/// Different texts have different UTF-16 forms.
pub proof fn lemma_utf16_injective(s: Seq<char>, t: Seq<char>, le: bool)
    requires
        utf16_bytes(s, le) == utf16_bytes(t, le),
    ensures
        s == t,
    decreases s.len(),
{
    lemma_utf16_len(s, le);
    lemma_utf16_len(t, le);
    let b = utf16_bytes(s, le);
    if s.len() == 0 {
        assert(t.len() == 0);
        assert(s =~= t);
    } else {
        assert(t.len() > 0);
        let cs = char_utf16(s.last(), le);
        let ct = char_utf16(t.last(), le);
        let ps = utf16_bytes(s.drop_last(), le);
        let pt = utf16_bytes(t.drop_last(), le);
        lemma_char_utf16_shape(s.last(), le);
        lemma_char_utf16_shape(t.last(), le);
        assert(last_unit(b, le) == last_unit(cs, le));
        assert(last_unit(b, le) == last_unit(ct, le));
        assert(cs.len() == ct.len());
        assert(cs =~= b.subrange(ps.len() as int, b.len() as int));
        assert(ct =~= b.subrange(pt.len() as int, b.len() as int));
        lemma_char_utf16_injective(s.last(), t.last(), le);
        assert(ps =~= b.subrange(0, ps.len() as int));
        assert(pt =~= b.subrange(0, pt.len() as int));
        lemma_utf16_injective(s.drop_last(), t.drop_last(), le);
        assert(s =~= s.drop_last().push(s.last()));
        assert(t =~= t.drop_last().push(t.last()));
    }
}

/// Appends the two bytes of code unit `u`.
fn push_unit(out: &mut Vec<u8>, u: u32, le: bool)
    requires
        u < 0x10000,
    ensures
        final(out)@ == old(out)@ + unit_bytes(u as int, le),
{
    let lo = (u % 256) as u8;
    let hi = (u / 256) as u8;
    if le {
        out.push(lo);
        out.push(hi);
    } else {
        out.push(hi);
        out.push(lo);
    }
    assert(final(out)@ =~= old(out)@ + unit_bytes(u as int, le));
}

/// The UTF-16 form of `content` (see `utf16_bytes`).
fn encode_utf16(content: &str, le: bool) -> (r: Vec<u8>)
    ensures
        r@ == utf16_bytes(content@, le),
{
    let cv = chars_of(content);
    let mut out: Vec<u8> = Vec::new();
    let mut i: usize = 0;
    while i < cv.len()
        invariant
            0 <= i <= cv.len(),
            cv@ == content@,
            out@ == utf16_bytes(cv@.take(i as int), le),
        decreases cv.len() - i,
    {
        let c = cv[i];
        let v = c as u32;
        proof {
            vstd::utf8::char_is_scalar(c);
            assert(cv@.take(i + 1).drop_last() =~= cv@.take(i as int));
            assert(cv@.take(i + 1).last() == c);
        }
        if v < 0x10000 {
            push_unit(&mut out, v, le);
        } else {
            let w = v - 0x10000;
            push_unit(&mut out, 0xD800 + w / 1024, le);
            push_unit(&mut out, 0xDC00 + w % 1024, le);
        }
        i += 1;
    }
    assert(cv@.take(cv.len() as int) =~= cv@);
    out
}

/// The bytes of `content` in encoding `e`: the UTF-8 form for UTF-8; the
/// GBK bytes (what `encoding_rs` gives, named) for GBK; for UTF-16 a
/// byte-order mark and the UTF-16 code units in the byte order.
pub open spec fn encoder_output(e: EncodingId, content: Seq<char>) -> Seq<u8> {
    match e {
        EncodingId::Utf8 => encode_utf8(content),
        EncodingId::Gbk => encoded_bytes(rs_name(e), content),
        EncodingId::Utf16Le => seq![0xFFu8, 0xFEu8] + utf16_bytes(content, true),
        EncodingId::Utf16Be => seq![0xFEu8, 0xFFu8] + utf16_bytes(content, false),
    }
}

/// `content` in UTF-16 with its byte-order mark (see `encoder_output`).
fn encode_utf16_with_bom(content: &str, le: bool) -> (r: Vec<u8>)
    ensures
        r@ == (if le {
            seq![0xFFu8, 0xFEu8]
        } else {
            seq![0xFEu8, 0xFFu8]
        }) + utf16_bytes(content@, le),
{
    let units = encode_utf16(content, le);
    let mut out: Vec<u8> = Vec::new();
    if le {
        out.push(0xFF);
        out.push(0xFE);
    } else {
        out.push(0xFE);
        out.push(0xFF);
    }
    let ghost start = out@;
    let mut i: usize = 0;
    while i < units.len()
        invariant
            0 <= i <= units.len(),
            out@ == start + units@.take(i as int),
        decreases units.len() - i,
    {
        out.push(units[i]);
        i += 1;
        assert(out@ =~= start + units@.take(i as int));
    }
    assert(units@.take(units.len() as int) =~= units@);
    out
}

/// The bytes of `content` in the encoding named `encoding`.
pub open spec fn spec_encode(content: Seq<char>, encoding: Seq<char>) -> Option<Seq<u8>> {
    match encoding_of(encoding) {
        Some(e) => Some(with_bom(encoding, encoder_output(e, content))),
        None => None,
    }
}

/// Encodes `content` in the encoding named `encoding`; an unknown name is
/// an `Encoding` error.
pub fn encode_string(content: &str, encoding: &str) -> (r: Result<Vec<u8>, MfError>)
    ensures
        match spec_encode(content@, encoding@) {
            Some(b) => r matches Ok(v) && v@ == b,
            None => r matches Err(err) && is_encoding_error(err, unknown_encoding_message(encoding@)),
        },
        encoding@ == "utf8bom"@ ==> (r matches Ok(v) && starts_with_bom(v@)),
{
    let e = resolve_encoding(encoding)?;
    match e {
        EncodingId::Utf16Le => {
            let b = encode_utf16_with_bom(content, true);
            proof {
                reveal_strlit("utf8bom");
                reveal_strlit("utf16le");
                reveal_strlit("utf-16le");
                assert(encoding@ != "utf8bom"@);
            }
            return Ok(b);
        },
        EncodingId::Utf16Be => {
            let b = encode_utf16_with_bom(content, false);
            proof {
                reveal_strlit("utf8bom");
                reveal_strlit("utf16be");
                reveal_strlit("utf-16be");
                assert(encoding@ != "utf8bom"@);
            }
            return Ok(b);
        },
        _ => {},
    }
    let bytes = encode_with(e, content);
    if str_eq(encoding, "utf8bom") {
        let has_bom = bytes.len() >= 3 && bytes[0] == 0xEF && bytes[1] == 0xBB && bytes[2] == 0xBF;
        if !has_bom {
            let mut with: Vec<u8> = Vec::new();
            with.push(0xEF);
            with.push(0xBB);
            with.push(0xBF);
            let mut i: usize = 0;
            while i < bytes.len()
                invariant
                    0 <= i <= bytes.len(),
                    with@ == bom() + bytes@.take(i as int),
                decreases bytes.len() - i,
            {
                with.push(bytes[i]);
                i += 1;
                assert(with@ =~= bom() + bytes@.take(i as int));
            }
            assert(bytes@.take(bytes.len() as int) =~= bytes@);
            return Ok(with);
        }
    }
    Ok(bytes)
}

/// The encoding name detected for bytes: by byte-order mark; UTF-8 for
/// valid UTF-8; else from the `chardetng` guess (UTF-8, GBK, UTF-16LE/BE;
/// anything else counts as UTF-8).
pub open spec fn spec_detect_bytes(d: Seq<u8>) -> Seq<char> {
    if starts_with_bom(d) {
        "utf8bom"@
    } else if d.len() >= 2 && d[0] == 0xFF && d[1] == 0xFE {
        "utf16le"@
    } else if d.len() >= 2 && d[0] == 0xFE && d[1] == 0xFF {
        "utf16be"@
    } else if valid_utf8(d) {
        "utf8"@
    } else {
        let g = chardet_guess(d);
        if g == "UTF-8"@ {
            "utf8"@
        } else if g == "GBK"@ {
            "gbk"@
        } else if g == "UTF-16LE"@ {
            "utf16le"@
        } else if g == "UTF-16BE"@ {
            "utf16be"@
        } else {
            "utf8"@
        }
    }
}

/// The encoding name detected for `data` (see `spec_detect_bytes`).
pub fn detect_from_bytes(data: &[u8]) -> (r: &'static str)
    ensures
        r@ == spec_detect_bytes(data@),
{
    if data.len() >= 3 && data[0] == 0xEF && data[1] == 0xBB && data[2] == 0xBF {
        return "utf8bom";
    }
    if data.len() >= 2 {
        if data[0] == 0xFF && data[1] == 0xFE {
            return "utf16le";
        }
        if data[0] == 0xFE && data[1] == 0xFF {
            return "utf16be";
        }
    }
    let g = guess_encoding_name(data);
    proof {
        reveal_strlit("ISO-2022-JP");
        reveal_strlit("GBK");
        reveal_strlit("UTF-16LE");
        reveal_strlit("UTF-16BE");
        assert("ISO-2022-JP"@.len() != "GBK"@.len());
        assert("ISO-2022-JP"@.len() != "UTF-16LE"@.len());
        assert("ISO-2022-JP"@.len() != "UTF-16BE"@.len());
    }
    if str_eq(g, "UTF-8") {
        "utf8"
    } else if str_eq(g, "GBK") {
        "gbk"
    } else if str_eq(g, "UTF-16LE") {
        "utf16le"
    } else if str_eq(g, "UTF-16BE") {
        "utf16be"
    } else {
        "utf8"
    }
}

/// Every detected name selects an encoding.
pub proof fn lemma_detected_name_resolves(d: Seq<u8>)
    ensures
        encoding_of(spec_detect_bytes(d)) is Some,
{
}

/// The message for bytes that do not decode cleanly.
pub open spec fn decode_failure_message(name: Seq<char>) -> Seq<char> {
    "Failed to decode as "@ + name
}

/// The text that `data` decodes to under its detected encoding, or
/// `None` when malformed sequences had to be replaced.
pub open spec fn spec_decode(data: Seq<u8>) -> Option<Seq<char>> {
    let name = spec_detect_bytes(data);
    let (text, had_errors) = decoding(encoding_of(name)->0, data);
    if had_errors {
        None
    } else {
        Some(text)
    }
}

/// What decoding `data` with `e` gives (text, and whether malformed
/// sequences were replaced): UTF-8 or UTF-16 behind its byte-order mark is
/// that text; valid UTF-8 without one, decoded as UTF-8, is that text;
/// anything else is what `encoding_rs` gives (named).
pub open spec fn decoding(e: EncodingId, data: Seq<u8>) -> (Seq<char>, bool) {
    if starts_with_bom(data) && valid_utf8(data.skip(3)) {
        (decode_utf8(data.skip(3)), false)
    } else if data.len() >= 2 && data[0] == 0xFF && data[1] == 0xFE && is_utf16(data.skip(2), true) {
        (utf16_text(data.skip(2), true), false)
    } else if data.len() >= 2 && data[0] == 0xFE && data[1] == 0xFF && is_utf16(data.skip(2), false) {
        (utf16_text(data.skip(2), false), false)
    } else if e == EncodingId::Utf8 && valid_utf8(data) && !starts_with_bom(data) {
        (decode_utf8(data), false)
    } else {
        decoded_text(rs_name(e), data)
    }
}

/// Decodes bytes with their detected encoding; malformed input is an
/// `Encoding` error naming that encoding.
pub fn decode_to_string(data: &[u8]) -> (r: Result<String, MfError>)
    ensures
        match spec_decode(data@) {
            Some(t) => r matches Ok(s) && s@ == t,
            None => r matches Err(err) && is_encoding_error(
                err,
                decode_failure_message(spec_detect_bytes(data@)),
            ),
        },
{
    let encoding_name = detect_from_bytes(data);
    let e = resolve_encoding(encoding_name)?;
    let (text, had_errors) = decode_with(e, data);
    if had_errors {
        let mut m = String::new();
        push_str(&mut m, "Failed to decode as ");
        push_str(&mut m, encoding_name);
        return Err(MfError::Encoding(m));
    }
    Ok(text)
}

/// Re-encodes bytes: decodes them with their detected encoding, then
/// encodes the text in `to_enc`.
pub fn convert_bytes_to(data: &[u8], to_enc: &str) -> (r: Result<Vec<u8>, MfError>)
    ensures
        spec_decode(data@) is None ==> (r matches Err(err) && is_encoding_error(
            err,
            decode_failure_message(spec_detect_bytes(data@)),
        )),
        spec_decode(data@) matches Some(t) ==> match spec_encode(t, to_enc@) {
            Some(b) => r matches Ok(v) && v@ == b,
            None => r matches Err(err) && is_encoding_error(err, unknown_encoding_message(to_enc@)),
        },
{
    let decoded = decode_to_string(data)?;
    encode_string(decoded.as_str(), to_enc)
}

} // verus!
