//! What to do when the target file already exists, and how a free name is
//! searched for when renaming.
use vstd::prelude::*;
use crate::error::MfError;
use crate::path::{extension, file_stem, join, parent, path_extension, path_file_stem, path_join, path_parent};
use crate::text::{push_char, push_str};

verus! {

/// How conflicts with existing files are handled.
#[derive(Debug, Clone, Copy, PartialEq, Eq, Structural)]
pub enum ConflictMode {
    Interactive,
    Force,
    NoClobber,
    Append,
    Rename,
}

/// What is done with an existing target file. For `Rename`, a free name
/// is searched for with `resolve_rename`.
#[derive(Debug, Clone, Copy, PartialEq, Eq, Structural)]
pub enum ConflictAction {
    Overwrite,
    Skip,
    Append,
    Rename,
}

/// The outcome of a conflict: the action, and whether a backup copy of
/// the existing file is made first.
#[derive(Debug, Clone, Copy, PartialEq, Eq, Structural)]
pub struct Resolution {
    pub action: ConflictAction,
    pub backup_first: bool,
}

/// Whether the user is asked: only for an existing file in interactive mode.
pub open spec fn spec_needs_prompt(exists: bool, mode: ConflictMode) -> bool {
    exists && mode == ConflictMode::Interactive
}

/// The resolution, or `None` for a cancelled prompt. `choice` is the
/// index of the option picked among overwrite, skip, append and rename
/// (it matters only when the user is asked).
pub open spec fn spec_resolve(exists: bool, mode: ConflictMode, backup: bool, choice: Option<usize>) -> Option<Resolution> {
    if !exists {
        Some(Resolution { action: ConflictAction::Overwrite, backup_first: false })
    } else {
        match mode {
            ConflictMode::NoClobber => Some(Resolution { action: ConflictAction::Skip, backup_first: false }),
            ConflictMode::Force => Some(Resolution { action: ConflictAction::Overwrite, backup_first: backup }),
            ConflictMode::Append => Some(Resolution { action: ConflictAction::Append, backup_first: false }),
            ConflictMode::Rename => Some(Resolution { action: ConflictAction::Rename, backup_first: false }),
            ConflictMode::Interactive => match choice {
                Some(0) => Some(Resolution { action: ConflictAction::Overwrite, backup_first: backup }),
                Some(1) => Some(Resolution { action: ConflictAction::Skip, backup_first: false }),
                Some(2) => Some(Resolution { action: ConflictAction::Append, backup_first: false }),
                Some(3) => Some(Resolution { action: ConflictAction::Rename, backup_first: false }),
                _ => None,
            },
        }
    }
}

/// Whether the user must be asked before `resolve_conflict` can decide.
pub fn needs_prompt(exists: bool, mode: ConflictMode) -> (r: bool)
    ensures
        r == spec_needs_prompt(exists, mode),
{
    exists && mode == ConflictMode::Interactive
}

/// Decides what to do with the target: nothing stands in the way of a
/// file that does not exist; otherwise the mode decides, and in
/// interactive mode the user's `choice` (a cancelled or unknown choice is
/// `UserCancelled`). A backup is made first only when overwriting with `backup` set.
pub fn resolve_conflict(exists: bool, mode: ConflictMode, backup: bool, choice: Option<usize>) -> (r: Result<Resolution, MfError>)
    ensures
        match spec_resolve(exists, mode, backup, choice) {
            Some(res) => r == Ok::<Resolution, MfError>(res),
            None => r matches Err(MfError::UserCancelled),
        },
{
    if !exists {
        return Ok(Resolution { action: ConflictAction::Overwrite, backup_first: false });
    }
    match mode {
        ConflictMode::NoClobber => Ok(Resolution { action: ConflictAction::Skip, backup_first: false }),
        ConflictMode::Force => Ok(Resolution { action: ConflictAction::Overwrite, backup_first: backup }),
        ConflictMode::Append => Ok(Resolution { action: ConflictAction::Append, backup_first: false }),
        ConflictMode::Rename => Ok(Resolution { action: ConflictAction::Rename, backup_first: false }),
        ConflictMode::Interactive => match choice {
            Some(0) => Ok(Resolution { action: ConflictAction::Overwrite, backup_first: backup }),
            Some(1) => Ok(Resolution { action: ConflictAction::Skip, backup_first: false }),
            Some(2) => Ok(Resolution { action: ConflictAction::Append, backup_first: false }),
            Some(3) => Ok(Resolution { action: ConflictAction::Rename, backup_first: false }),
            _ => Err(MfError::UserCancelled),
        },
    }
}

/// The question asked about an existing file.
pub open spec fn spec_conflict_prompt(path: Seq<char>) -> Seq<char> {
    "文件已存在: "@ + path + "，请选择:"@
}

/// The question asked about an existing file (see `spec_conflict_prompt`).
pub fn conflict_prompt(path: &str) -> (r: String)
    ensures
        r@ == spec_conflict_prompt(path@),
{
    let mut r = "文件已存在: ".to_owned();
    push_str(&mut r, path);
    push_str(&mut r, "，请选择:");
    r
}

/// The options offered for an existing file, as (label, hint), in the
/// order of the choices `resolve_conflict` reads: overwrite, skip
/// (the default), append, rename.
pub open spec fn spec_conflict_options() -> Seq<(Seq<char>, Seq<char>)> {
    seq![
        ("覆盖"@, "覆盖现有文件"@),
        ("跳过"@, "保留现有文件"@),
        ("追加"@, "追加到文件末尾"@),
        ("重命名"@, "自动生成新名称"@),
    ]
}

/// The options offered for an existing file (see `spec_conflict_options`).
pub fn conflict_options() -> (r: Vec<(String, String)>)
    ensures
        r@.map_values(|o: (String, String)| (o.0@, o.1@)) == spec_conflict_options(),
{
    let mut r: Vec<(String, String)> = Vec::new();
    r.push(("覆盖".to_owned(), "覆盖现有文件".to_owned()));
    r.push(("跳过".to_owned(), "保留现有文件".to_owned()));
    r.push(("追加".to_owned(), "追加到文件末尾".to_owned()));
    r.push(("重命名".to_owned(), "自动生成新名称".to_owned()));
    assert(r@.map_values(|o: (String, String)| (o.0@, o.1@)) =~= spec_conflict_options());
    r
}

/// The mode chosen on the command line: `--conflict` first (`overwrite`,
/// `skip`, `append`, `rename`; anything else is interactive), then
/// `--force`, then `--no-clobber`, else interactive.
pub open spec fn spec_conflict_mode(conflict: Option<Seq<char>>, force: bool, no_clobber: bool) -> ConflictMode {
    match conflict {
        Some(m) => if m == "overwrite"@ {
            ConflictMode::Force
        } else if m == "skip"@ {
            ConflictMode::NoClobber
        } else if m == "append"@ {
            ConflictMode::Append
        } else if m == "rename"@ {
            ConflictMode::Rename
        } else {
            ConflictMode::Interactive
        },
        None => if force {
            ConflictMode::Force
        } else if no_clobber {
            ConflictMode::NoClobber
        } else {
            ConflictMode::Interactive
        },
    }
}

// ------------------------------------------------------------------
// Renaming
// ------------------------------------------------------------------

/// The decimal digits of `n`.
pub open spec fn decimal(n: nat) -> Seq<char>
    decreases n,
{
    if n < 10 {
        seq![digit_char(n)]
    } else {
        decimal(n / 10) + seq![digit_char(n % 10)]
    }
}

/// The decimal digit for `d` (below 10).
pub open spec fn digit_char(d: nat) -> char {
    if d == 0 { '0' } else if d == 1 { '1' } else if d == 2 { '2' } else if d == 3 { '3' }
    else if d == 4 { '4' } else if d == 5 { '5' } else if d == 6 { '6' } else if d == 7 { '7' }
    else if d == 8 { '8' } else { '9' }
}

fn digit(d: u64) -> (c: char)
    requires
        d < 10,
    ensures
        c == digit_char(d as nat),
{
    if d == 0 { '0' } else if d == 1 { '1' } else if d == 2 { '2' } else if d == 3 { '3' }
    else if d == 4 { '4' } else if d == 5 { '5' } else if d == 6 { '6' } else if d == 7 { '7' }
    else if d == 8 { '8' } else { '9' }
}

/// Appends the decimal digits of `n`.
pub fn push_decimal(s: &mut String, n: u64)
    ensures
        final(s)@ == old(s)@ + decimal(n as nat),
    decreases n,
{
    if n >= 10 {
        push_decimal(s, n / 10);
    }
    push_char(s, digit(n % 10));
    proof {
        if n < 10 {
            assert(decimal(n as nat) =~= seq![digit_char(n as nat)]);
        }
    }
    assert(s@ =~= old(s)@ + decimal(n as nat));
}

/// The directory a renamed file goes to: the parent, or `.` when there is none.
pub open spec fn rename_dir(p: Seq<char>) -> Seq<char> {
    match parent(p) {
        Some(d) => d,
        None => "."@,
    }
}

/// The name a renamed file starts with: the file stem, or `file`.
pub open spec fn rename_stem(p: Seq<char>) -> Seq<char> {
    match file_stem(p) {
        Some(s) => s,
        None => "file"@,
    }
}

/// The extension a renamed file keeps, with its dot, or nothing.
pub open spec fn rename_ext(p: Seq<char>) -> Seq<char> {
    match extension(p) {
        Some(e) => "."@ + e,
        None => seq![],
    }
}

/// The candidate name number `n` for renaming `p`: `<stem>_<n><.ext>` in
/// the same directory.
pub open spec fn spec_rename_candidate(p: Seq<char>, n: nat) -> Seq<char> {
    join(rename_dir(p), rename_stem(p) + "_"@ + decimal(n) + rename_ext(p))
}

/// The candidate name number `n` for renaming `path`.
pub fn rename_candidate(path: &str, n: u64) -> (r: String)
    ensures
        r@ == spec_rename_candidate(path@, n as nat),
{
    let dir = match path_parent(path) {
        Some(d) => d,
        None => ".".to_owned(),
    };
    let mut name = match path_file_stem(path) {
        Some(s) => s,
        None => "file".to_owned(),
    };
    push_char(&mut name, '_');
    push_decimal(&mut name, n);
    match path_extension(path) {
        Some(e) => {
            push_char(&mut name, '.');
            push_str(&mut name, e.as_str());
        },
        None => {},
    }
    proof {
        reveal_strlit("_");
        reveal_strlit(".");
        assert("_"@ =~= seq!['_']);
        assert("."@ =~= seq!['.']);
        let ext = rename_ext(path@);
        assert(name@ =~= rename_stem(path@) + "_"@ + decimal(n as nat) + ext);
    }
    path_join(dir.as_str(), name.as_str())
}

/// The next step of the search for a free name: try a numbered candidate,
/// or, once numbers 1 to 999 are all taken, fall back on a timestamp.
#[derive(Debug, PartialEq, Eq)]
pub enum RenameStep {
    Probe { index: u64, candidate: String },
    UseTimestamp,
}

/// The largest candidate number tried before the timestamp fallback.
pub open spec fn last_rename_index() -> nat {
    999
}

/// The search for a free name for `path`. Call it with `None` first; while
/// the candidate it proposes already exists, call it again with that
/// candidate's index. Candidates are numbered from 1 to 999; after the
/// last, the step is `UseTimestamp` (then the candidate numbered by the
/// current time in seconds is used, `rename_candidate(path, secs)`).
pub fn resolve_rename(path: &str, last_taken: Option<u64>) -> (r: RenameStep)
    ensures
        ({
            let next: int = match last_taken {
                None => 1,
                Some(i) => i + 1,
            };
            if next <= last_rename_index() {
                r matches RenameStep::Probe { index, candidate } && index == next && candidate@
                    == spec_rename_candidate(path@, next as nat)
            } else {
                r == RenameStep::UseTimestamp
            }
        }),
{
    let next: u64 = match last_taken {
        None => 1,
        Some(i) => if i >= 999 {
            return RenameStep::UseTimestamp;
        } else {
            i + 1
        },
    };
    RenameStep::Probe { index: next, candidate: rename_candidate(path, next) }
}

} // verus!
