//! File paths held as text, with the component rules of `std::path::Path`
//! on Unix: `/` separates components, repeated separators and `.`
//! components are normalized away, and a trailing `..` leaves no file name.
use vstd::prelude::*;
use crate::text::{chars_of, push_char, push_str, string_of, sub_vec};

verus! {

/// `p` without trailing separators and trailing `.` components
/// (a lone root `/` is kept).
pub open spec fn trim_tail(p: Seq<char>) -> Seq<char>
    decreases p.len(),
{
    if p.len() > 1 && p.last() == '/' {
        trim_tail(p.drop_last())
    } else if p.len() >= 2 && p.last() == '.' && p[p.len() - 2] == '/' {
        trim_tail(p.drop_last())
    } else {
        p
    }
}

/// Index of the last `c` in `s`, or `-1`.
pub open spec fn last_index_of(s: Seq<char>, c: char) -> int
    decreases s.len(),
{
    if s.len() == 0 {
        -1
    } else if s.last() == c {
        s.len() - 1
    } else {
        last_index_of(s.drop_last(), c)
    }
}

/// Where the last `c` of `s` is: in range, a `c`, and none after it.
pub proof fn lemma_last_index_of(s: Seq<char>, c: char)
    ensures
        -1 <= last_index_of(s, c) < s.len(),
        last_index_of(s, c) >= 0 ==> s[last_index_of(s, c)] == c,
        forall|k: int| last_index_of(s, c) < k < s.len() ==> s[k] != c,
    decreases s.len(),
{
    if s.len() > 0 && s.last() != c {
        lemma_last_index_of(s.drop_last(), c);
        assert forall|k: int| last_index_of(s, c) < k < s.len() implies s[k] != c by {
            if k < s.len() - 1 {
                assert(s[k] == s.drop_last()[k]);
            }
        }
    }
}

/// Where the final component of the trimmed path `t` begins.
pub open spec fn seg_start(t: Seq<char>) -> int {
    last_index_of(t, '/') + 1
}

/// The final component of the trimmed path `t`.
pub open spec fn last_segment(t: Seq<char>) -> Seq<char> {
    t.subrange(seg_start(t), t.len() as int)
}

/// `Path::file_name`.
pub open spec fn file_name(p: Seq<char>) -> Option<Seq<char>> {
    let seg = last_segment(trim_tail(p));
    if seg.len() == 0 || seg == seq!['.'] || seg == seq!['.', '.'] {
        None
    } else {
        Some(seg)
    }
}

/// `Path::extension`: what follows the last `.` of the file name, unless
/// that `.` is the name's first character or there is none.
pub open spec fn extension(p: Seq<char>) -> Option<Seq<char>> {
    match file_name(p) {
        None => None,
        Some(f) => {
            let d = last_index_of(f, '.');
            if d <= 0 {
                None
            } else {
                Some(f.subrange(d + 1, f.len() as int))
            }
        },
    }
}

/// `Path::file_stem`: the file name without its extension.
pub open spec fn file_stem(p: Seq<char>) -> Option<Seq<char>> {
    match file_name(p) {
        None => None,
        Some(f) => {
            let d = last_index_of(f, '.');
            if d <= 0 {
                Some(f)
            } else {
                Some(f.subrange(0, d))
            }
        },
    }
}

/// `Path::parent`: the path without its final component.
pub open spec fn parent(p: Seq<char>) -> Option<Seq<char>> {
    let t = trim_tail(p);
    if t.len() == 0 || t == seq!['/'] {
        None
    } else {
        Some(trim_tail(t.subrange(0, seg_start(t))))
    }
}

/// `Path::with_extension`: the path cut right after the file stem, then
/// `.` and `ext` when `ext` is not empty; unchanged when there is no file name.
pub open spec fn with_extension(p: Seq<char>, ext: Seq<char>) -> Seq<char> {
    match file_stem(p) {
        None => p,
        Some(stem) => {
            let cut = p.subrange(0, seg_start(trim_tail(p)) + stem.len());
            if ext.len() == 0 {
                cut
            } else {
                cut + seq!['.'] + ext
            }
        },
    }
}

/// `Path::join` with a relative component `name`.
pub open spec fn join(base: Seq<char>, name: Seq<char>) -> Seq<char> {
    if base.len() == 0 {
        name
    } else if base.last() == '/' {
        base + name
    } else {
        base + seq!['/'] + name
    }
}

/// Trimming the tail keeps a prefix of the path.
pub proof fn lemma_trim_tail_prefix(p: Seq<char>)
    ensures
        trim_tail(p).len() <= p.len(),
        trim_tail(p) == p.subrange(0, trim_tail(p).len() as int),
    decreases p.len(),
{
    if p.len() > 1 && p.last() == '/' {
        lemma_trim_tail_prefix(p.drop_last());
        assert(p.drop_last().subrange(0, trim_tail(p).len() as int) =~= p.subrange(
            0,
            trim_tail(p).len() as int,
        ));
    } else if p.len() >= 2 && p.last() == '.' && p[p.len() - 2] == '/' {
        lemma_trim_tail_prefix(p.drop_last());
        assert(p.drop_last().subrange(0, trim_tail(p).len() as int) =~= p.subrange(
            0,
            trim_tail(p).len() as int,
        ));
    } else {
        assert(p.subrange(0, p.len() as int) =~= p);
    }
}

// ------------------------------------------------------------------
// Executable operations
// ------------------------------------------------------------------

/// Length of `trim_tail(p)` (it is a prefix of `p`).
fn trim_tail_len(p: &Vec<char>) -> (n: usize)
    ensures
        n <= p.len(),
        trim_tail(p@) == p@.subrange(0, n as int),
{
    let mut n = p.len();
    assert(p@.subrange(0, n as int) =~= p@);
    while (n > 1 && p[n - 1] == '/') || (n >= 2 && p[n - 1] == '.' && p[n - 2] == '/')
        invariant
            n <= p.len(),
            trim_tail(p@) == trim_tail(p@.subrange(0, n as int)),
        decreases n,
    {
        assert(p@.subrange(0, n as int).drop_last() =~= p@.subrange(0, n - 1));
        n -= 1;
    }
    n
}

/// One past the index of the last `c` in `s[..n]`, or `0` when there is none.
fn last_index_in(s: &Vec<char>, n: usize, c: char) -> (r: usize)
    requires
        n <= s.len(),
    ensures
        r == last_index_of(s@.subrange(0, n as int), c) + 1,
{
    let mut i = n;
    while i > 0 && s[i - 1] != c
        invariant
            i <= n <= s.len(),
            last_index_of(s@.subrange(0, n as int), c) == last_index_of(
                s@.subrange(0, i as int),
                c,
            ),
        decreases i,
    {
        assert(s@.subrange(0, i as int).drop_last() =~= s@.subrange(0, i - 1));
        i -= 1;
    }
    i
}

/// The parts of a path text: where the trimmed path ends, where its final
/// component starts, and where the last `.` of that component is (if past
/// its first character).
struct PathParts {
    trimmed_len: usize,
    seg_start: usize,
    has_name: bool,
    dot: Option<usize>,
}

fn path_parts(p: &Vec<char>) -> (r: PathParts)
    ensures
        r.trimmed_len <= p.len(),
        trim_tail(p@) == p@.subrange(0, r.trimmed_len as int),
        r.seg_start <= r.trimmed_len,
        r.seg_start == seg_start(trim_tail(p@)),
        r.has_name == (file_name(p@) is Some),
        r.has_name ==> file_name(p@) == Some(p@.subrange(r.seg_start as int, r.trimmed_len as int)),
        r.has_name ==> match r.dot {
            Some(d) => r.seg_start < d < r.trimmed_len && last_index_of(
                file_name(p@)->0,
                '.',
            ) == d - r.seg_start,
            None => last_index_of(file_name(p@)->0, '.') <= 0,
        },
{
    let t = trim_tail_len(p);
    let ghost tv = p@.subrange(0, t as int);
    let ss = last_index_in(p, t, '/');
    proof {
        lemma_last_index_of(tv, '/');
    }
    let len = t - ss;
    let has_name = !(len == 0 || (len == 1 && p[ss] == '.') || (len == 2 && p[ss] == '.' && p[ss
        + 1] == '.'));
    let ghost seg = p@.subrange(ss as int, t as int);
    assert(seg =~= last_segment(tv));
    proof {
        if len == 1 && p[ss as int] == '.' {
            assert(seg =~= seq!['.']);
        }
        if len == 2 && p[ss as int] == '.' && p[ss + 1] == '.' {
            assert(seg =~= seq!['.', '.']);
        }
        if len == 1 && p[ss as int] != '.' {
            assert(seg[0] != '.');
        }
        if len == 2 && !(p[ss as int] == '.' && p[ss + 1] == '.') {
            assert(seg != seq!['.', '.']);
        }
    }
    if !has_name {
        return PathParts { trimmed_len: t, seg_start: ss, has_name, dot: None };
    }
    let d1 = last_index_in(p, t, '.');
    let ghost d: int = d1 - 1;
    proof {
        lemma_last_index_of(tv, '.');
        lemma_last_index_of(seg, '.');
        if d > ss {
            assert(seg[d - ss] == '.');
            assert forall|k: int| d - ss < k < seg.len() implies seg[k] != '.' by {
                assert(tv[k + ss] != '.');
            }
            lemma_last_index_unique(seg, '.', d - ss);
        } else {
            assert forall|k: int| 0 < k < seg.len() implies seg[k] != '.' by {
                assert(tv[k + ss] != '.');
            }
            lemma_last_index_le0(seg, '.');
        }
    }
    let dot = if d1 > ss && d1 - ss > 1 {
        Some(d1 - 1)
    } else {
        None
    };
    PathParts { trimmed_len: t, seg_start: ss, has_name, dot }
}

proof fn lemma_last_index_unique(s: Seq<char>, c: char, d: int)
    requires
        0 <= d < s.len(),
        s[d] == c,
        forall|k: int| d < k < s.len() ==> s[k] != c,
    ensures
        last_index_of(s, c) == d,
    decreases s.len(),
{
    if s.len() - 1 != d {
        lemma_last_index_unique(s.drop_last(), c, d);
    }
}

proof fn lemma_last_index_le0(s: Seq<char>, c: char)
    requires
        forall|k: int| 0 < k < s.len() ==> s[k] != c,
    ensures
        last_index_of(s, c) <= 0,
    decreases s.len(),
{
    if s.len() > 1 {
        assert(s[s.len() - 1] != c);
        assert forall|k: int| 0 < k < s.drop_last().len() implies s.drop_last()[k] != c by {
            assert(s.drop_last()[k] == s[k]);
        }
        lemma_last_index_le0(s.drop_last(), c);
    } else if s.len() == 1 {
        assert(last_index_of(s.drop_last(), c) == -1);
    }
}

/// The last `c` of `s` is at `l` (`-1`: there is none) when `s[l]` is
/// `c` and no later character is.
proof fn lemma_last_index_at(s: Seq<char>, c: char, l: int)
    requires
        -1 <= l < s.len(),
        l >= 0 ==> s[l] == c,
        forall|k: int| l < k < s.len() ==> s[k] != c,
    ensures
        last_index_of(s, c) == l,
    decreases s.len(),
{
    if s.len() > 0 && s.len() - 1 != l {
        lemma_last_index_at(s.drop_last(), c, l);
    }
}

/// Giving a path that has a file stem the extension `ext` (a non-empty
/// name without `/` or `.`) makes `ext` its extension and `<stem>.<ext>`
/// its file name, and keeps its parent.
pub proof fn lemma_with_extension_extension(p: Seq<char>, ext: Seq<char>)
    requires
        file_stem(p) is Some,
        ext.len() > 0,
        !ext.contains('/'),
        !ext.contains('.'),
    ensures
        extension(with_extension(p, ext)) == Some(ext),
        file_name(with_extension(p, ext)) == Some(file_stem(p)->0 + seq!['.'] + ext),
        parent(with_extension(p, ext)) == parent(p),
{
    let t = trim_tail(p);
    lemma_trim_tail_prefix(p);
    lemma_last_index_of(t, '/');
    let l = last_index_of(t, '/');
    let ss = l + 1;
    let f = file_name(p)->0;
    lemma_last_index_of(f, '.');
    let stem = file_stem(p)->0;
    let a = p.subrange(0, ss + stem.len());
    let q = a + seq!['.'] + ext;
    assert(q == with_extension(p, ext));
    assert(a =~= t.subrange(0, ss + stem.len()));
    assert(ext[ext.len() - 1] != '/' && ext[ext.len() - 1] != '.') by {
        if ext[ext.len() - 1] == '/' || ext[ext.len() - 1] == '.' {
            assert(ext.contains(ext[ext.len() - 1]));
        }
    }
    assert(q.last() == ext[ext.len() - 1]);
    assert(trim_tail(q) == q);
    assert forall|k: int| l < k < q.len() implies q[k] != '/' by {
        if k < a.len() {
            assert(q[k] == t[k]);
        } else if k > a.len() {
            assert(q[k] == ext[k - a.len() - 1]);
            if q[k] == '/' {
                assert(ext.contains(ext[k - a.len() - 1]));
            }
        }
    }
    if l >= 0 {
        assert(q[l] == t[l]);
    }
    lemma_last_index_at(q, '/', l);
    let g = stem + seq!['.'] + ext;
    assert(last_segment(q) =~= g);
    assert(g.len() >= 3);
    assert(g != seq!['.'] && g != seq!['.', '.']) by {
        assert(seq!['.'].len() == 1 && seq!['.', '.'].len() == 2);
    }
    assert(file_name(q) == Some(g));
    assert forall|k: int| stem.len() < k < g.len() implies g[k] != '.' by {
        assert(g[k] == ext[k - stem.len() - 1]);
        if g[k] == '.' {
            assert(ext.contains(ext[k - stem.len() - 1]));
        }
    }
    lemma_last_index_at(g, '.', stem.len() as int);
    assert(g.subrange(stem.len() as int + 1, g.len() as int) =~= ext);
    assert(t.len() != 0 && t != seq!['/']) by {
        if t == seq!['/'] {
            assert(last_segment(t).len() == 0);
        }
    }
    assert(q.len() != 0 && q != seq!['/']);
    assert(q.subrange(0, ss) =~= t.subrange(0, ss));
}

/// `Path::extension`, as text.
pub fn path_extension(p: &str) -> (r: Option<String>)
    ensures
        match r {
            Some(e) => extension(p@) == Some(e@),
            None => extension(p@) is None,
        },
{
    let pv = chars_of(p);
    let parts = path_parts(&pv);
    if !parts.has_name {
        return None;
    }
    match parts.dot {
        None => None,
        Some(d) => {
            let e = sub_vec(&pv, d + 1, parts.trimmed_len);
            proof {
                let f = file_name(p@)->0;
                assert(e@ =~= f.subrange(d + 1 - parts.seg_start, f.len() as int));
            }
            Some(string_of(&e))
        },
    }
}

/// `Path::file_stem`, as text.
pub fn path_file_stem(p: &str) -> (r: Option<String>)
    ensures
        match r {
            Some(e) => file_stem(p@) == Some(e@),
            None => file_stem(p@) is None,
        },
{
    let pv = chars_of(p);
    let parts = path_parts(&pv);
    if !parts.has_name {
        return None;
    }
    let end = match parts.dot {
        None => parts.trimmed_len,
        Some(d) => d,
    };
    let e = sub_vec(&pv, parts.seg_start, end);
    proof {
        let f = file_name(p@)->0;
        assert(e@ =~= f.subrange(0, end - parts.seg_start));
        if parts.dot is None {
            assert(e@ =~= f);
        }
    }
    Some(string_of(&e))
}

/// `Path::parent`, as text.
pub fn path_parent(p: &str) -> (r: Option<String>)
    ensures
        match r {
            Some(e) => parent(p@) == Some(e@),
            None => parent(p@) is None,
        },
{
    let pv = chars_of(p);
    let parts = path_parts(&pv);
    let t = parts.trimmed_len;
    if t == 0 || (t == 1 && pv[0] == '/') {
        proof {
            if t == 1 {
                assert(trim_tail(p@) =~= seq!['/']);
            }
        }
        return None;
    }
    proof {
        if t == 1 {
            assert(trim_tail(p@)[0] != '/');
        }
    }
    let head = sub_vec(&pv, 0, parts.seg_start);
    let n = trim_tail_len(&head);
    let r = sub_vec(&head, 0, n);
    proof {
        assert(head@ =~= trim_tail(p@).subrange(0, seg_start(trim_tail(p@))));
    }
    Some(string_of(&r))
}

/// `Path::with_extension`, as text.
pub fn path_with_extension(p: &str, ext: &str) -> (r: String)
    ensures
        r@ == with_extension(p@, ext@),
{
    let pv = chars_of(p);
    let parts = path_parts(&pv);
    if !parts.has_name {
        return p.to_owned();
    }
    let end = match parts.dot {
        None => parts.trimmed_len,
        Some(d) => d,
    };
    let mut r = string_of(&sub_vec(&pv, 0, end));
    proof {
        let f = file_name(p@)->0;
        let stem = file_stem(p@)->0;
        if parts.dot is None {
            assert(stem =~= f);
        } else {
            assert(stem.len() == end - parts.seg_start);
        }
    }
    if !ext.is_empty() {
        push_char(&mut r, '.');
        push_str(&mut r, ext);
    }
    r
}

/// `Path::join` of a base path and a relative component, as text.
pub fn path_join(base: &str, name: &str) -> (r: String)
    ensures
        r@ == join(base@, name@),
{
    let bv = chars_of(base);
    let mut r = base.to_owned();
    if bv.len() > 0 && bv[bv.len() - 1] != '/' {
        push_char(&mut r, '/');
    }
    push_str(&mut r, name);
    r
}

} // verus!
