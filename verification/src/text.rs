//! Character-sequence utilities: the string operations the detectors rely on,
//! each stated over `Seq<char>` and implemented on `Vec<char>`.
use vstd::prelude::*;

verus! {

// ------------------------------------------------------------------
// Specifications
// ------------------------------------------------------------------

/// `p` occurs in `s` starting at index `i`.
pub open spec fn occurs_at(s: Seq<char>, p: Seq<char>, i: int) -> bool {
    &&& 0 <= i
    &&& i + p.len() <= s.len()
    &&& forall|j: int| 0 <= j < p.len() ==> s[i + j] == p[j]
}

/// `p` is a contiguous part of `s`.
#[verifier::opaque]
pub open spec fn has_sub(s: Seq<char>, p: Seq<char>) -> bool {
    exists|i: int| #[trigger] occurs_at(s, p, i)
}

/// `s` begins with `p`.
pub open spec fn has_prefix(s: Seq<char>, p: Seq<char>) -> bool {
    occurs_at(s, p, 0)
}

/// `s` ends with `p`.
pub open spec fn has_suffix(s: Seq<char>, p: Seq<char>) -> bool {
    p.len() <= s.len() && occurs_at(s, p, s.len() - p.len())
}

/// The first index at or after `i` where `p` occurs in `s`, or `-1`.
pub open spec fn first_from(s: Seq<char>, p: Seq<char>, i: int) -> int
    decreases s.len() + 1 - i,
{
    if i < 0 || i + p.len() > s.len() {
        -1
    } else if occurs_at(s, p, i) {
        i
    } else {
        first_from(s, p, i + 1)
    }
}

/// The first match from `from` is the first from `i` when none lies in between.
pub proof fn lemma_first_from_skip(s: Seq<char>, p: Seq<char>, from: int, i: int)
    requires
        0 <= from <= i,
        forall|k: int| from <= k < i ==> !#[trigger] occurs_at(s, p, k),
    ensures
        first_from(s, p, from) == first_from(s, p, i),
    decreases i - from,
{
    if from < i {
        assert(!occurs_at(s, p, from));
        lemma_first_from_skip(s, p, from + 1, i);
    }
}

/// There is no match from `i` when no position from `i` on matches.
pub proof fn lemma_first_from_none(s: Seq<char>, p: Seq<char>, i: int)
    requires
        0 <= i,
        forall|k: int| i <= k ==> !#[trigger] occurs_at(s, p, k),
    ensures
        first_from(s, p, i) == -1,
    decreases s.len() + 1 - i,
{
    if i + p.len() <= s.len() {
        assert(!occurs_at(s, p, i));
        lemma_first_from_none(s, p, i + 1);
    }
}

/// Number of non-overlapping occurrences of `p` in `s` at or after `i`,
/// found from left to right (the count of `str::matches`).
pub open spec fn count_from(s: Seq<char>, p: Seq<char>, i: int) -> nat
    decreases s.len() - i,
{
    if p.len() == 0 || i < 0 || i + p.len() > s.len() {
        0
    } else if occurs_at(s, p, i) {
        1 + count_from(s, p, i + p.len())
    } else {
        count_from(s, p, i + 1)
    }
}

/// Number of non-overlapping occurrences of `p` in `s`.
pub open spec fn count_matches(s: Seq<char>, p: Seq<char>) -> nat {
    count_from(s, p, 0)
}

/// The Unicode `White_Space` characters (what `char::is_whitespace` accepts).
pub open spec fn is_ws(c: char) -> bool {
    ||| ('\t' <= c && c <= '\r')
    ||| c == ' '
    ||| c == '\u{85}'
    ||| c == '\u{a0}'
    ||| c == '\u{1680}'
    ||| ('\u{2000}' <= c && c <= '\u{200a}')
    ||| c == '\u{2028}'
    ||| c == '\u{2029}'
    ||| c == '\u{202f}'
    ||| c == '\u{205f}'
    ||| c == '\u{3000}'
}

/// `s` without its leading whitespace.
pub open spec fn trim_start(s: Seq<char>) -> Seq<char>
    decreases s.len(),
{
    if s.len() > 0 && is_ws(s[0]) {
        trim_start(s.drop_first())
    } else {
        s
    }
}

/// `s` without its trailing whitespace.
pub open spec fn trim_end(s: Seq<char>) -> Seq<char>
    decreases s.len(),
{
    if s.len() > 0 && is_ws(s.last()) {
        trim_end(s.drop_last())
    } else {
        s
    }
}

/// `s` without leading and trailing whitespace (`str::trim`).
pub open spec fn trim(s: Seq<char>) -> Seq<char> {
    trim_end(trim_start(s))
}

/// `s` holds only whitespace.
pub open spec fn is_blank(s: Seq<char>) -> bool {
    trim(s).len() == 0
}

/// Index of the first `'\n'` at or after `i`, or `s.len()` when there is none.
pub open spec fn line_end(s: Seq<char>, i: int) -> int
    decreases s.len() - i,
{
    if i < 0 || i >= s.len() {
        s.len() as int
    } else if s[i] == '\n' {
        i
    } else {
        line_end(s, i + 1)
    }
}

/// `x` without one trailing `'\r'`.
pub open spec fn strip_cr(x: Seq<char>) -> Seq<char> {
    if x.len() > 0 && x.last() == '\r' {
        x.drop_last()
    } else {
        x
    }
}

/// The end of the line starting at `i`: within bounds, a newline or the end, none before it.
pub proof fn lemma_line_end_bounds(s: Seq<char>, i: int)
    requires
        0 <= i <= s.len(),
    ensures
        i <= line_end(s, i) <= s.len(),
        line_end(s, i) < s.len() ==> s[line_end(s, i)] == '\n',
        forall|k: int| i <= k < line_end(s, i) ==> s[k] != '\n',
    decreases s.len() - i,
{
    if i < s.len() && s[i] != '\n' {
        lemma_line_end_bounds(s, i + 1);
    }
}

/// The lines of `s` from index `i` on, split as `str::lines` does: at each
/// `'\n'`, dropping a `'\r'` just before it, with no empty line after a
/// final `'\n'`.
pub open spec fn lines_from(s: Seq<char>, i: int) -> Seq<Seq<char>>
    decreases s.len() - i,
{
    if i < 0 || i >= s.len() {
        seq![]
    } else {
        let e = line_end(s, i);
        proof {
            lemma_line_end_bounds(s, i);
        }
        if e < s.len() {
            seq![strip_cr(s.subrange(i, e))] + lines_from(s, e + 1)
        } else {
            seq![s.subrange(i, e)]
        }
    }
}

/// The lines of `s` (`str::lines`).
pub open spec fn lines(s: Seq<char>) -> Seq<Seq<char>> {
    lines_from(s, 0)
}

/// ASCII letters (`char::is_ascii_alphabetic`).
pub open spec fn is_ascii_alpha(c: char) -> bool {
    ('a' <= c && c <= 'z') || ('A' <= c && c <= 'Z')
}

/// ASCII digits (`char::is_ascii_digit`).
pub open spec fn is_ascii_digit(c: char) -> bool {
    '0' <= c && c <= '9'
}

/// Every character of `s` is ASCII.
pub open spec fn all_ascii(s: Seq<char>) -> bool {
    forall|i: int| 0 <= i < s.len() ==> #[trigger] s[i] <= '\x7f'
}

/// The ASCII lowercase of `c` (`char::to_ascii_lowercase`).
pub open spec fn ascii_lower(c: char) -> char {
    if 'A' <= c && c <= 'Z' {
        ((c as u32) + 32) as char
    } else {
        c
    }
}

/// The ASCII uppercase of `c` (`char::to_ascii_uppercase`).
pub open spec fn ascii_upper(c: char) -> char {
    if 'a' <= c && c <= 'z' {
        ((c as u32) - 32) as char
    } else {
        c
    }
}

/// What `str::to_lowercase` returns for text that is not all ASCII.
pub uninterp spec fn lowercase_table(s: Seq<char>) -> Seq<char>;

/// What `str::to_uppercase` returns for text that is not all ASCII.
pub uninterp spec fn uppercase_table(s: Seq<char>) -> Seq<char>;

/// What `char::is_alphanumeric` returns for a character beyond ASCII.
pub uninterp spec fn alphanumeric_table(c: char) -> bool;

/// What `char::is_alphabetic` returns for a character beyond ASCII.
pub uninterp spec fn alphabetic_table(c: char) -> bool;

/// `str::to_lowercase`: ASCII text is lowercased letter by letter.
pub open spec fn lowercase_of(s: Seq<char>) -> Seq<char> {
    if all_ascii(s) {
        s.map_values(|c: char| ascii_lower(c))
    } else {
        lowercase_table(s)
    }
}

/// `str::to_uppercase`: ASCII text is uppercased letter by letter.
pub open spec fn uppercase_of(s: Seq<char>) -> Seq<char> {
    if all_ascii(s) {
        s.map_values(|c: char| ascii_upper(c))
    } else {
        uppercase_table(s)
    }
}

/// `char::is_alphanumeric`: among ASCII characters, the letters and digits.
pub open spec fn unicode_alphanumeric(c: char) -> bool {
    if c <= '\x7f' {
        is_ascii_alpha(c) || is_ascii_digit(c)
    } else {
        alphanumeric_table(c)
    }
}

/// `char::is_alphabetic`: among ASCII characters, the letters.
pub open spec fn unicode_alphabetic(c: char) -> bool {
    if c <= '\x7f' {
        is_ascii_alpha(c)
    } else {
        alphabetic_table(c)
    }
}

// ------------------------------------------------------------------
// Trusted items (std functions that vstd does not specify)
// ------------------------------------------------------------------

/// `str::to_lowercase`. As its documentation says, ASCII letters map to
/// their lowercase and other ASCII characters stay; beyond ASCII the
/// result is named, since Unicode case mapping takes tables to state.
#[verifier::external_body]
pub fn to_lowercase(s: &Vec<char>) -> (r: Vec<char>)
    ensures
        all_ascii(s@) ==> r@ == s@.map_values(|c: char| ascii_lower(c)),
        !all_ascii(s@) ==> r@ == lowercase_table(s@),
{
    let st: String = s.iter().collect();
    st.to_lowercase().chars().collect()
}

/// `str::to_uppercase`: as for `to_lowercase`, with uppercase.
#[verifier::external_body]
pub fn to_uppercase(s: &Vec<char>) -> (r: Vec<char>)
    ensures
        all_ascii(s@) ==> r@ == s@.map_values(|c: char| ascii_upper(c)),
        !all_ascii(s@) ==> r@ == uppercase_table(s@),
{
    let st: String = s.iter().collect();
    st.to_uppercase().chars().collect()
}

/// `char::is_alphanumeric` (Unicode `Alphabetic` or `Numeric`): among
/// ASCII characters exactly the letters and digits; beyond ASCII named.
#[verifier::external_body]
pub fn is_alphanumeric(c: char) -> (r: bool)
    ensures
        c <= '\x7f' ==> r == (is_ascii_alpha(c) || is_ascii_digit(c)),
        c > '\x7f' ==> r == alphanumeric_table(c),
{
    c.is_alphanumeric()
}

/// `char::is_alphabetic` (Unicode `Alphabetic`): among ASCII characters
/// exactly the letters; beyond ASCII named.
#[verifier::external_body]
pub fn is_alphabetic(c: char) -> (r: bool)
    ensures
        c <= '\x7f' ==> r == is_ascii_alpha(c),
        c > '\x7f' ==> r == alphabetic_table(c),
{
    c.is_alphabetic()
}

/// `String::push`: appends one character.
#[verifier::external_body]
pub fn push_char(s: &mut String, c: char)
    ensures
        final(s)@ == old(s)@.push(c),
{
    s.push(c);
}

// ------------------------------------------------------------------
// Executable operations
// ------------------------------------------------------------------

/// The characters of `s`, in order.
pub fn chars_of(s: &str) -> (r: Vec<char>)
    ensures
        r@ == s@,
{
    let mut r: Vec<char> = Vec::new();
    for c in it: s.chars()
        invariant
            r@ == it.seq().take(it.index() as int),
            it.seq() == s@,
    {
        r.push(c);
    }
    r
}

/// A `String` holding the characters of `v`.
pub fn string_of(v: &Vec<char>) -> (r: String)
    ensures
        r@ == v@,
{
    let mut r = String::new();
    let mut i: usize = 0;
    while i < v.len()
        invariant
            0 <= i <= v.len(),
            r@ == v@.take(i as int),
        decreases v.len() - i,
    {
        push_char(&mut r, v[i]);
        i += 1;
        assert(r@ =~= v@.take(i as int));
    }
    assert(v@.take(v.len() as int) =~= v@);
    r
}

/// Appends the characters of `t` to `s`.
pub fn push_str(s: &mut String, t: &str)
    ensures
        final(s)@ == old(s)@ + t@,
{
    let tv = chars_of(t);
    let mut i: usize = 0;
    while i < tv.len()
        invariant
            0 <= i <= tv.len(),
            tv@ == t@,
            s@ == old(s)@ + tv@.take(i as int),
        decreases tv.len() - i,
    {
        push_char(s, tv[i]);
        i += 1;
        assert(s@ =~= old(s)@ + tv@.take(i as int));
    }
    assert(tv@.take(tv.len() as int) =~= tv@);
}

/// The characters of `s` from index `lo` up to `hi`.
pub fn sub_vec(s: &Vec<char>, lo: usize, hi: usize) -> (r: Vec<char>)
    requires
        lo <= hi <= s.len(),
    ensures
        r@ == s@.subrange(lo as int, hi as int),
{
    let mut r: Vec<char> = Vec::new();
    let mut i = lo;
    while i < hi
        invariant
            lo <= i <= hi <= s.len(),
            r@ == s@.subrange(lo as int, i as int),
        decreases hi - i,
    {
        r.push(s[i]);
        i += 1;
        assert(r@ =~= s@.subrange(lo as int, i as int));
    }
    r
}

/// Whether `p` occurs in `s` at index `i`.
pub fn occurs_at_exec(s: &Vec<char>, p: &Vec<char>, i: usize) -> (r: bool)
    ensures
        r == occurs_at(s@, p@, i as int),
{
    if i > s.len() || p.len() > s.len() - i {
        return false;
    }
    let mut j: usize = 0;
    while j < p.len()
        invariant
            0 <= j <= p.len(),
            i + p.len() <= s.len(),
            forall|k: int| 0 <= k < j ==> s@[i + k] == p@[k],
        decreases p.len() - j,
    {
        if s[i + j] != p[j] {
            return false;
        }
        j += 1;
    }
    true
}

/// The first index at or after `from` where `p` occurs in `s`.
pub fn find_from(s: &Vec<char>, p: &Vec<char>, from: usize) -> (r: Option<usize>)
    ensures
        match r {
            Some(i) => from <= i && occurs_at(s@, p@, i as int) && forall|k: int|
                from <= k < i ==> !#[trigger] occurs_at(s@, p@, k),
            None => forall|k: int| from <= k ==> !#[trigger] occurs_at(s@, p@, k),
        },
        r matches Some(i) ==> i == first_from(s@, p@, from as int),
        r is None ==> first_from(s@, p@, from as int) == -1,
{
    if from > s.len() {
        return None;
    }
    let mut i = from;
    while p.len() <= s.len() - i
        invariant
            from <= i <= s.len(),
            forall|k: int| from <= k < i ==> !#[trigger] occurs_at(s@, p@, k),
        decreases s.len() + 1 - i,
    {
        if occurs_at_exec(s, p, i) {
            proof {
                lemma_first_from_skip(s@, p@, from as int, i as int);
            }
            return Some(i);
        }
        if i == s.len() {
            proof {
                lemma_first_from_none(s@, p@, from as int);
            }
            return None;
        }
        i += 1;
    }
    proof {
        lemma_first_from_none(s@, p@, from as int);
    }
    None
}

/// Whether `p` occurs anywhere in `s`.
pub fn contains_vec(s: &Vec<char>, p: &Vec<char>) -> (r: bool)
    ensures
        r == has_sub(s@, p@),
{
    reveal(has_sub);
    match find_from(s, p, 0) {
        Some(i) => {
            assert(occurs_at(s@, p@, i as int));
            true
        },
        None => {
            assert forall|k: int| !occurs_at(s@, p@, k) by {
                if 0 <= k {
                }
            }
            false
        },
    }
}

/// Whether the text `p` occurs anywhere in `s` (`str::contains`).
pub fn contains(s: &Vec<char>, p: &str) -> (r: bool)
    ensures
        r == has_sub(s@, p@),
{
    let pv = chars_of(p);
    contains_vec(s, &pv)
}

/// Whether `s` begins with the text `p` (`str::starts_with`).
pub fn starts_with(s: &Vec<char>, p: &str) -> (r: bool)
    ensures
        r == has_prefix(s@, p@),
{
    let pv = chars_of(p);
    occurs_at_exec(s, &pv, 0)
}

/// Whether `s` ends with the text `p` (`str::ends_with`).
pub fn ends_with(s: &Vec<char>, p: &str) -> (r: bool)
    ensures
        r == has_suffix(s@, p@),
{
    let pv = chars_of(p);
    if pv.len() > s.len() {
        return false;
    }
    occurs_at_exec(s, &pv, s.len() - pv.len())
}

/// Whether the character `c` occurs in `s`.
pub fn contains_char(s: &Vec<char>, c: char) -> (r: bool)
    ensures
        r == s@.contains(c),
{
    let mut i: usize = 0;
    while i < s.len()
        invariant
            0 <= i <= s.len(),
            forall|k: int| 0 <= k < i ==> s@[k] != c,
        decreases s.len() - i,
    {
        if s[i] == c {
            return true;
        }
        i += 1;
    }
    false
}

/// Number of non-overlapping occurrences of the text `p` (`str::matches(..).count()`).
pub fn count_matches_exec(s: &Vec<char>, p: &str) -> (r: usize)
    ensures
        r == count_matches(s@, p@),
{
    let pv = chars_of(p);
    if pv.len() == 0 {
        return 0;
    }
    let mut i: usize = 0;
    let mut n: usize = 0;
    while i < s.len() && pv.len() <= s.len() - i
        invariant
            pv@ == p@,
            pv.len() > 0,
            n <= i,
            i <= s.len(),
            count_matches(s@, p@) == n + count_from(s@, p@, i as int),
        decreases s.len() - i,
    {
        if occurs_at_exec(s, &pv, i) {
            n += 1;
            i += pv.len();
        } else {
            i += 1;
        }
    }
    n
}

/// Whether `c` is Unicode whitespace (`char::is_whitespace`).
pub fn is_ws_exec(c: char) -> (r: bool)
    ensures
        r == is_ws(c),
{
    ('\t' <= c && c <= '\r') || c == ' ' || c == '\u{85}' || c == '\u{a0}' || c == '\u{1680}' || (
    '\u{2000}' <= c && c <= '\u{200a}') || c == '\u{2028}' || c == '\u{2029}' || c == '\u{202f}'
        || c == '\u{205f}' || c == '\u{3000}'
}

/// Whether `c` is an ASCII letter.
pub fn is_ascii_alpha_exec(c: char) -> (r: bool)
    ensures
        r == is_ascii_alpha(c),
{
    ('a' <= c && c <= 'z') || ('A' <= c && c <= 'Z')
}

proof fn lemma_trim_start_step(s: Seq<char>, i: int)
    requires
        0 <= i < s.len(),
        is_ws(s[i]),
    ensures
        trim_start(s.subrange(i, s.len() as int)) == trim_start(s.subrange(i + 1, s.len() as int)),
{
    assert(s.subrange(i, s.len() as int).drop_first() =~= s.subrange(i + 1, s.len() as int));
}

proof fn lemma_trim_end_step(s: Seq<char>, lo: int, hi: int)
    requires
        0 <= lo < hi <= s.len(),
        is_ws(s[hi - 1]),
    ensures
        trim_end(s.subrange(lo, hi)) == trim_end(s.subrange(lo, hi - 1)),
{
    assert(s.subrange(lo, hi).drop_last() =~= s.subrange(lo, hi - 1));
}

/// `s` without leading and trailing whitespace (`str::trim`).
pub fn trim_exec(s: &Vec<char>) -> (r: Vec<char>)
    ensures
        r@ == trim(s@),
{
    let n = s.len();
    let mut lo: usize = 0;
    assert(s@.subrange(0, n as int) =~= s@);
    while lo < n && is_ws_exec(s[lo])
        invariant
            0 <= lo <= n == s.len(),
            trim_start(s@) == trim_start(s@.subrange(lo as int, n as int)),
        decreases n - lo,
    {
        proof {
            lemma_trim_start_step(s@, lo as int);
        }
        lo += 1;
    }
    assert(trim_start(s@) == s@.subrange(lo as int, n as int));
    let mut hi: usize = n;
    while hi > lo && is_ws_exec(s[hi - 1])
        invariant
            lo <= hi <= n == s.len(),
            trim(s@) == trim_end(s@.subrange(lo as int, hi as int)),
        decreases hi,
    {
        proof {
            lemma_trim_end_step(s@, lo as int, hi as int);
        }
        hi -= 1;
    }
    assert(trim(s@) == s@.subrange(lo as int, hi as int));
    sub_vec(s, lo, hi)
}

/// Whether `s` holds only whitespace (`s.trim().is_empty()`).
pub fn is_blank_exec(s: &Vec<char>) -> (r: bool)
    ensures
        r == is_blank(s@),
{
    trim_exec(s).len() == 0
}

proof fn lemma_line_end_same(s: Seq<char>, a: int, b: int)
    requires
        0 <= a <= b <= s.len(),
        forall|k: int| a <= k < b ==> s[k] != '\n',
    ensures
        line_end(s, a) == line_end(s, b),
    decreases b - a,
{
    if a < b {
        lemma_line_end_same(s, a + 1, b);
    }
}

/// `x` without one trailing `'\r'`.
fn strip_cr_exec(x: Vec<char>) -> (r: Vec<char>)
    ensures
        r@ == strip_cr(x@),
{
    let mut x = x;
    if x.len() > 0 && x[x.len() - 1] == '\r' {
        x.pop();
    }
    x
}

/// The lines of `s` (`str::lines`).
pub fn lines_exec(s: &Vec<char>) -> (r: Vec<Vec<char>>)
    ensures
        r.deep_view() == lines(s@),
{
    let n = s.len();
    let mut out: Vec<Vec<char>> = Vec::new();
    let mut start: usize = 0;
    let mut i: usize = 0;
    while i < n
        invariant
            n == s.len(),
            start <= i <= n,
            forall|k: int| start <= k < i ==> s@[k] != '\n',
            lines(s@) == out.deep_view() + lines_from(s@, start as int),
        decreases n - i,
    {
        if s[i] == '\n' {
            proof {
                lemma_line_end_same(s@, start as int, i as int);
            }
            let piece = sub_vec(s, start, i);
            let line = strip_cr_exec(piece);
            assert(line.deep_view() =~= line@);
            let ghost old_out = out.deep_view();
            out.push(line);
            assert(out.deep_view() =~= old_out.push(strip_cr(s@.subrange(start as int, i as int))));
            start = i + 1;
        }
        i += 1;
    }
    if start < n {
        proof {
            lemma_line_end_same(s@, start as int, n as int);
        }
        let piece = sub_vec(s, start, n);
        assert(piece.deep_view() =~= piece@);
        let ghost old_out = out.deep_view();
        out.push(piece);
        assert(out.deep_view() =~= old_out.push(s@.subrange(start as int, n as int)));
    }
    assert(out.deep_view() =~= out.deep_view() + Seq::<Seq<char>>::empty());
    out
}

/// Whether two character vectors are equal.
pub fn vec_eq(a: &Vec<char>, b: &Vec<char>) -> (r: bool)
    ensures
        r == (a@ == b@),
{
    if a.len() != b.len() {
        return false;
    }
    let mut i: usize = 0;
    while i < a.len()
        invariant
            a.len() == b.len(),
            0 <= i <= a.len(),
            forall|k: int| 0 <= k < i ==> a@[k] == b@[k],
        decreases a.len() - i,
    {
        if a[i] != b[i] {
            return false;
        }
        i += 1;
    }
    assert(a@ =~= b@);
    true
}

/// Whether two texts are equal.
pub fn str_eq(a: &str, b: &str) -> (r: bool)
    ensures
        r == (a@ == b@),
{
    vec_eq(&chars_of(a), &chars_of(b))
}

/// `a` followed by `b`.
pub fn concat_vec(a: &Vec<char>, b: &Vec<char>) -> (r: Vec<char>)
    ensures
        r@ == a@ + b@,
{
    let mut r = sub_vec(a, 0, a.len());
    let mut i: usize = 0;
    while i < b.len()
        invariant
            0 <= i <= b.len(),
            r@ == a@ + b@.take(i as int),
        decreases b.len() - i,
    {
        r.push(b[i]);
        i += 1;
        assert(r@ =~= a@ + b@.take(i as int));
    }
    assert(b@.take(b.len() as int) =~= b@);
    assert(a@.subrange(0, a.len() as int) =~= a@);
    r
}

} // verus!
