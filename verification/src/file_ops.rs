//! The computing side of file operations: path validation, the names of
//! backup and temporary files, and the registry of temporary files that
//! are removed if the program is interrupted.
use vstd::prelude::*;
use crate::conflict::decimal;
use crate::error::{MfError, is_invalid_argument};
use crate::path::{join, parent, path_join, path_parent};
use crate::text::{contains, has_sub, push_char, push_str};
use crate::conflict::push_decimal;

verus! {

/// The message for a path that climbs out with `..`.
pub open spec fn dotdot_message(path: Seq<char>) -> Seq<char> {
    "Path '"@ + path + "' contains '..' which is not allowed"@
}

/// A path is accepted unless it contains `..` anywhere.
pub fn validate_path(path: &str) -> (r: Result<(), MfError>)
    ensures
        r is Ok <==> !has_sub(path@, ".."@),
        r matches Err(e) ==> is_invalid_argument(e, dotdot_message(path@)),
{
    let pv = crate::text::chars_of(path);
    if contains(&pv, "..") {
        let mut m = String::new();
        push_str(&mut m, "Path '");
        push_str(&mut m, path);
        push_str(&mut m, "' contains '..' which is not allowed");
        return Err(MfError::InvalidArgument(m));
    }
    Ok(())
}

/// A file-system error about `path`, keeping its I/O cause.
pub fn file_system_error(reason: &str, path: &str, source: std::io::Error) -> (r: MfError)
    ensures
        r matches MfError::FileSystem { reason: rs, path: p, source: s } && rs@ == reason@ && p@
            == path@ && s == Some(source),
{
    MfError::FileSystem { reason: reason.to_owned(), path: path.to_owned(), source: Some(source) }
}

/// The backup copy of `path`: the same path with `.bak` appended.
pub fn backup_path(path: &str) -> (r: String)
    ensures
        r@ == path@ + ".bak"@,
{
    let mut r = path.to_owned();
    push_str(&mut r, ".bak");
    r
}

/// The directory of a temporary file written next to `path`.
pub open spec fn temp_dir_of(path: Seq<char>) -> Seq<char> {
    match parent(path) {
        Some(d) => d,
        None => "."@,
    }
}

/// The temporary file for writing `path` atomically: `.mf_tmp_<stamp>` in
/// the same directory (`stamp` is the current time in nanoseconds).
pub open spec fn spec_temp_path(path: Seq<char>, stamp: nat) -> Seq<char> {
    join(temp_dir_of(path), ".mf_tmp_"@ + decimal(stamp))
}

/// The temporary file for writing `path` atomically.
pub fn temp_path_for(path: &str, stamp: u64) -> (r: String)
    ensures
        r@ == spec_temp_path(path@, stamp as nat),
{
    let dir = match path_parent(path) {
        Some(d) => d,
        None => ".".to_owned(),
    };
    let mut name = ".mf_tmp_".to_owned();
    push_decimal(&mut name, stamp);
    path_join(dir.as_str(), name.as_str())
}

/// The temporary files written so far and not yet renamed into place.
pub struct TempRegistry {
    files: Vec<String>,
}

impl View for TempRegistry {
    type V = Seq<Seq<char>>;

    closed spec fn view(&self) -> Seq<Seq<char>> {
        self.files@.map_values(|f: String| f@)
    }
}

/// `s` without the entries equal to `x`, in order.
pub open spec fn without(s: Seq<Seq<char>>, x: Seq<char>) -> Seq<Seq<char>> {
    s.filter(|y: Seq<char>| y != x)
}

impl TempRegistry {
    /// An empty registry.
    pub fn new() -> (r: TempRegistry)
        ensures
            r@ == Seq::<Seq<char>>::empty(),
    {
        let r = TempRegistry { files: Vec::new() };
        assert(r@ =~= Seq::<Seq<char>>::empty());
        r
    }

    /// Whether `path` is registered.
    pub fn contains(&self, path: &str) -> (r: bool)
        ensures
            r == self@.contains(path@),
    {
        let mut i: usize = 0;
        while i < self.files.len()
            invariant
                0 <= i <= self.files.len(),
                forall|k: int| 0 <= k < i ==> self@[k] != path@,
            decreases self.files.len() - i,
        {
            assert(self@[i as int] == self.files@[i as int]@);
            if crate::text::str_eq(self.files[i].as_str(), path) {
                return true;
            }
            i += 1;
        }
        false
    }

    /// The number of registered files.
    pub fn len(&self) -> (r: usize)
        ensures
            r == self@.len(),
    {
        self.files.len()
    }

    /// Removes every registered path and hands them out, in order.
    pub fn drain(&mut self) -> (r: Vec<String>)
        ensures
            r@.map_values(|f: String| f@) == old(self)@,
            final(self)@ == Seq::<Seq<char>>::empty(),
    {
        let mut out: Vec<String> = Vec::new();
        std::mem::swap(&mut out, &mut self.files);
        assert(self@ =~= Seq::<Seq<char>>::empty());
        out
    }
}

/// Adds `path` at the end of the registry.
pub fn register_temp_file(registry: &mut TempRegistry, path: String)
    ensures
        final(registry)@ == old(registry)@.push(path@),
{
    registry.files.push(path);
    assert(registry@ =~= old(registry)@.push(path@));
}

/// Removes every registration of `path`, keeping the others in order.
pub fn unregister_temp_file(registry: &mut TempRegistry, path: &str)
    ensures
        final(registry)@ == without(old(registry)@, path@),
{
    let ghost old_view = registry@;
    let mut kept: Vec<String> = Vec::new();
    let mut i: usize = 0;
    let n = registry.files.len();
    while i < n
        invariant
            0 <= i <= n == registry.files.len(),
            old_view == registry@,
            kept@.map_values(|f: String| f@) == without(old_view.take(i as int), path@),
        decreases n - i,
    {
        let ghost before = kept@.map_values(|f: String| f@);
        assert(old_view[i as int] == registry.files@[i as int]@);
        assert(old_view.take(i + 1).drop_last() =~= old_view.take(i as int));
        assert(old_view.take(i + 1).last() == old_view[i as int]);
        let keep = !crate::text::str_eq(registry.files[i].as_str(), path);
        if keep {
            kept.push(registry.files[i].clone());
            assert(kept@.map_values(|f: String| f@) =~= before.push(old_view[i as int]));
        }
        proof {
            reveal_with_fuel(Seq::<_>::filter, 1);
        }
        i += 1;
    }
    assert(old_view.take(n as int) =~= old_view);
    registry.files = kept;
}

} // verus!
