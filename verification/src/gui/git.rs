//! Git in the collections tree: what the answers of the `git` program mean,
//! and what it is asked to do.

use vstd::prelude::*;
use vstd::utf8::encode_utf8;

use crate::map::{pairs_view, put, TextMap};
use crate::paths::{equal_paths, lies_under, same_path, under};
use crate::runner::resolve::{joined_path, resolve_body_path};
use crate::text::{chars_of, matches_at, occurs_at, same, text_between};
use crate::view::{copy_opt, opt_view, views, Copied};
use crate::words::{bytes_of, split, split_on, trim, trimmed};

verus! {

broadcast use vstd::string::group_string_axioms;

/// The state of one file in the working tree.
#[derive(Debug, Clone, Copy, PartialEq, Eq, Structural)]
pub enum FileStatus {
    /// Tracked and modified, staged or not.
    Modified,
    /// Not tracked yet.
    Untracked,
    /// New in the index.
    Added,
    /// In a merge conflict.
    Conflicted,
}

impl View for FileStatus {
    type V = FileStatus;

    open spec fn view(&self) -> FileStatus {
        *self
    }
}

impl Copied for FileStatus {
    fn copied(&self) -> (r: Self) {
        *self
    }
}

/// The git state of a workspace.
#[derive(Debug)]
pub struct GitStatus {
    pub branch: Option<String>,
    /// The state of every changed file, by its absolute path.
    pub files: TextMap<FileStatus>,
}

/// What a [`GitStatus`] says.
pub struct GitStatusV {
    pub branch: Option<Seq<char>>,
    pub files: Seq<(Seq<char>, FileStatus)>,
}

impl View for GitStatus {
    type V = GitStatusV;

    open spec fn view(&self) -> GitStatusV {
        GitStatusV { branch: opt_view(self.branch), files: self.files@ }
    }
}

impl Copied for GitStatus {
    fn copied(&self) -> (r: Self) {
        GitStatus { branch: copy_opt(&self.branch), files: self.files.copied() }
    }
}

// ---------------------------------------------------------------------
// The status of a path
// ---------------------------------------------------------------------

/// The status of the file at `path`, from the `i`-th file on.
pub open spec fn file_status(files: Seq<(Seq<char>, FileStatus)>, path: Seq<char>, i: int) -> Option<FileStatus>
    decreases files.len() - i,
{
    if i < 0 || i >= files.len() {
        None
    } else if same_path(files[i].0, path) {
        Some(files[i].1)
    } else {
        file_status(files, path, i + 1)
    }
}

/// What is worth showing of two statuses: a conflict first, then a change, else
/// the later one.
pub open spec fn more_telling(a: Option<FileStatus>, b: FileStatus) -> FileStatus {
    if b == FileStatus::Conflicted || a == Some(FileStatus::Conflicted) {
        FileStatus::Conflicted
    } else if a == Some(FileStatus::Modified) || b == FileStatus::Modified {
        FileStatus::Modified
    } else {
        b
    }
}

/// The most telling status among the first `n` files below a directory.
pub open spec fn dir_status(files: Seq<(Seq<char>, FileStatus)>, dir: Seq<char>, n: int) -> Option<FileStatus>
    decreases n,
{
    if n <= 0 || n > files.len() {
        None
    } else {
        let before = dir_status(files, dir, n - 1);
        if lies_under(files[n - 1].0, dir) {
            Some(more_telling(before, files[n - 1].1))
        } else {
            before
        }
    }
}

/// The status that a path is shown with.
pub open spec fn path_status(files: Seq<(Seq<char>, FileStatus)>, path: Seq<char>) -> Option<FileStatus> {
    match file_status(files, path, 0) {
        Some(s) => Some(s),
        None => dir_status(files, path, files.len() as int),
    }
}

impl GitStatus {
    /// The status of a file, or the most telling one of the files below a
    /// directory.
    pub fn of(&self, path: &str) -> (r: Option<FileStatus>)
        ensures
            r == path_status(self@.files, path@),
    {
        let files = &self.files.pairs;
        let ghost all = self@.files;
        let mut i: usize = 0;
        while i < files.len()
            invariant
                i <= files.len(),
                all == pairs_view(files@),
                all == self@.files,
                file_status(all, path@, 0) == file_status(all, path@, i as int),
            decreases files.len() - i,
        {
            assert(all[i as int] == (files@[i as int].0@, files@[i as int].1));
            if equal_paths(files[i].0.as_str(), path) {
                return Some(files[i].1);
            }
            i += 1;
        }
        let mut found: Option<FileStatus> = None;
        let mut n: usize = 0;
        while n < files.len()
            invariant
                n <= files.len(),
                all == pairs_view(files@),
                found == dir_status(all, path@, n as int),
            decreases files.len() - n,
        {
            assert(all[n as int] == (files@[n as int].0@, files@[n as int].1));
            if under(files[n].0.as_str(), path) {
                let status = files[n].1;
                let more = match found {
                    Some(FileStatus::Conflicted) => FileStatus::Conflicted,
                    Some(FileStatus::Modified) => {
                        if status == FileStatus::Conflicted {
                            FileStatus::Conflicted
                        } else {
                            FileStatus::Modified
                        }
                    },
                    _ => status,
                };
                found = Some(more);
            }
            n += 1;
        }
        found
    }
}

/// A directory shows a conflict exactly if a file below it is in one.
pub proof fn lemma_conflicts_show(files: Seq<(Seq<char>, FileStatus)>, dir: Seq<char>, n: int)
    requires
        0 <= n <= files.len(),
    ensures
        dir_status(files, dir, n) == Some(FileStatus::Conflicted) <==> exists|i: int|
            0 <= i < n && lies_under((#[trigger] files[i]).0, dir) && files[i].1 == FileStatus::Conflicted,
        dir_status(files, dir, n) is None <==> forall|i: int|
            0 <= i < n ==> !lies_under((#[trigger] files[i]).0, dir),
    decreases n,
{
    if n > 0 {
        lemma_conflicts_show(files, dir, n - 1);
    }
}

// ---------------------------------------------------------------------
// Answers of git
// ---------------------------------------------------------------------

/// `s` without the quotes at either side.
pub open spec fn bare_path(s: Seq<char>) -> Seq<char> {
    crate::cli::unquoted(s)
}

/// Where the last ` -> ` that begins at `from` or before ends; the start of the
/// text where there is none.
pub open spec fn after_arrow(s: Seq<char>, from: int) -> int
    decreases from + 1,
{
    if from < 0 {
        0
    } else if occurs_at(s, " -> "@, from) {
        from + 4
    } else {
        after_arrow(s, from - 1)
    }
}

/// The path of a status line: of a rename, the new name.
pub open spec fn line_path(rest: Seq<char>) -> Seq<char> {
    let s = crate::words::trimmed_start(rest);
    bare_path(trimmed(s.skip(after_arrow(s, s.len() as int))))
}

/// The status that a two-letter code means.
pub open spec fn code_status(code: Seq<char>) -> FileStatus {
    if code == "??"@ {
        FileStatus::Untracked
    } else if code.contains('U') {
        FileStatus::Conflicted
    } else if code == "A "@ || code == "AM"@ {
        FileStatus::Added
    } else {
        FileStatus::Modified
    }
}

/// A line as it is read: without the carriage return before its end.
pub open spec fn status_line(lines: Seq<Seq<char>>, i: int) -> Seq<char> {
    if i < lines.len() - 1 && lines[i].len() > 0 && lines[i].last() == '\r' {
        lines[i].drop_last()
    } else {
        lines[i]
    }
}

/// The files of the first `n` status lines below `top`. A line of less than
/// four bytes says nothing.
pub open spec fn status_files(top: Seq<char>, lines: Seq<Seq<char>>, n: int) -> Seq<(Seq<char>, FileStatus)>
    decreases n,
{
    if n <= 0 || n > lines.len() {
        seq![]
    } else {
        let before = status_files(top, lines, n - 1);
        let line = status_line(lines, n - 1);
        if encode_utf8(line).len() < 4 || line.len() < 2 {
            before
        } else {
            put(before, joined_path(top, line_path(line.skip(2))), code_status(line.take(2)))
        }
    }
}

fn path_of_line(rest: &str) -> (r: String)
    ensures
        r@ == line_path(rest@),
{
    proof {
        reveal_strlit(" -> ");
        assert(" -> "@.len() == 4);
    }
    let s = trim_start(rest);
    let chars = chars_of(s.as_str());
    let arrow = chars_of(" -> ");
    let mut at: usize = chars.len();
    while !matches_at(&chars, &arrow, at)
        invariant
            at <= chars.len(),
            chars@ == s@,
            arrow@ == " -> "@,
            s@ == crate::words::trimmed_start(rest@),
            after_arrow(s@, s@.len() as int) == after_arrow(s@, at as int),
        decreases at,
    {
        if at == 0 {
            assert(!occurs_at(s@, " -> "@, 0));
            assert(after_arrow(s@, -1) == 0);
            assert(after_arrow(s@, 0) == 0);
            assert(s@.skip(0) =~= s@);
            return unquote(trim(s.as_str()).as_str());
        }
        at -= 1;
    }
    let name = text_between(&chars, at + 4, chars.len());
    assert(name@ =~= s@.skip(at + 4));
    unquote(trim(name.as_str()).as_str())
}

fn trim_start(s: &str) -> (r: String)
    ensures
        r@ == crate::words::trimmed_start(s@),
{
    let chars = chars_of(s);
    let mut from: usize = 0;
    assert(chars@.skip(0) =~= chars@);
    while from < chars.len() && crate::text::space(chars[from])
        invariant
            from <= chars.len(),
            crate::words::trimmed_start(chars@) == crate::words::trimmed_start(chars@.skip(from as int)),
        decreases chars.len() - from,
    {
        assert(chars@.skip(from as int).skip(1) =~= chars@.skip(from + 1));
        from += 1;
    }
    let r = text_between(&chars, from, chars.len());
    assert(r@ =~= chars@.skip(from as int));
    r
}

fn unquote(s: &str) -> (r: String)
    ensures
        r@ == bare_path(s@),
{
    crate::cli::unquote(s)
}

fn status_of_code(code: &str) -> (r: FileStatus)
    ensures
        r == code_status(code@),
{
    if same(code, "??") {
        return FileStatus::Untracked;
    }
    let chars = chars_of(code);
    let mut i: usize = 0;
    while i < chars.len()
        invariant
            i <= chars.len(),
            chars@ == code@,
            code@ != "??"@,
            forall|k: int| 0 <= k < i ==> chars@[k] != 'U',
        decreases chars.len() - i,
    {
        if chars[i] == 'U' {
            assert(code@.contains(chars@[i as int]));
            return FileStatus::Conflicted;
        }
        i += 1;
    }
    if same(code, "A ") || same(code, "AM") {
        FileStatus::Added
    } else {
        FileStatus::Modified
    }
}

/// The branch and the changed files, from the answers of `git rev-parse
/// --show-toplevel`, `git rev-parse --abbrev-ref HEAD`, `git symbolic-ref
/// --short HEAD` and `git status --porcelain`; nothing where there is no
/// repository. On a branch without a commit only the third names it.
pub fn read_status(top: Option<String>, head: Option<String>, symbolic: Option<String>, porcelain: Option<String>) -> (r: Option<
    GitStatus,
>)
    ensures
        match (top, porcelain) {
            (Some(top), Some(porcelain)) => r is Some && r->Some_0@ == (GitStatusV {
                branch: match head {
                    Some(s) => Some(trimmed(s@)),
                    None => match symbolic {
                        Some(s) => Some(trimmed(s@)),
                        None => None,
                    },
                },
                files: status_files(
                    trimmed(top@),
                    split_on(porcelain@, '\n'),
                    split_on(porcelain@, '\n').len() as int,
                ),
            }),
            _ => r is None,
        },
{
    let (top, porcelain) = match (top, porcelain) {
        (Some(top), Some(porcelain)) => (trim(top.as_str()), porcelain),
        _ => {
            return None;
        },
    };
    let branch = match head {
        Some(s) => Some(trim(s.as_str())),
        None => match symbolic {
            Some(s) => Some(trim(s.as_str())),
            None => None,
        },
    };
    let lines = split(porcelain.as_str(), '\n');
    let ghost all = views(lines@);
    let mut files: TextMap<FileStatus> = TextMap::new();
    let mut i: usize = 0;
    while i < lines.len()
        invariant
            i <= lines.len(),
            all == views(lines@),
            files@ == status_files(top@, all, i as int),
        decreases lines.len() - i,
    {
        assert(all[i as int] == lines@[i as int]@);
        let chars = chars_of(lines[i].as_str());
        let end: usize = if i < lines.len() - 1 && chars.len() > 0 && chars[chars.len() - 1] == '\r' {
            chars.len() - 1
        } else {
            chars.len()
        };
        let line = text_between(&chars, 0, end);
        assert(line@ =~= status_line(all, i as int));
        if !(bytes_of(line.as_str()).len() < 4 || end < 2) {
            let code = text_between(&chars, 0, 2);
            let rest = text_between(&chars, 2, end);
            assert(code@ =~= line@.take(2));
            assert(rest@ =~= line@.skip(2));
            let path = resolve_body_path(top.as_str(), path_of_line(rest.as_str()).as_str());
            let _ = files.insert(path, status_of_code(code.as_str()));
        }
        i += 1;
    }
    Some(GitStatus { branch, files })
}

/// How often the git state is read again, in milliseconds.
pub const REFRESH_EVERY_MS: u64 = 4000;

/// The git state, and when it was read.
#[derive(Debug)]
pub struct GitState {
    pub status: Option<GitStatus>,
    /// Milliseconds on the clock of the program.
    pub last_refresh: Option<u64>,
}

impl GitState {
    /// Whether the state is to be read again at `now`.
    pub open spec fn is_due(&self, now: u64, force: bool) -> bool {
        force || match self.last_refresh {
            None => true,
            Some(t) => now - t > REFRESH_EVERY_MS,
        }
    }

    /// Whether the state is to be read again at `now`.
    pub fn due(&self, now: u64, force: bool) -> (r: bool)
        ensures
            r == self.is_due(now, force),
    {
        force || match self.last_refresh {
            None => true,
            Some(t) => now > t && now - t > REFRESH_EVERY_MS,
        }
    }

    /// Take a new reading, if one is due.
    pub fn refresh(&mut self, now: u64, force: bool, read: Option<GitStatus>)
        ensures
            old(self).is_due(now, force) ==> final(self).status == read && final(self).last_refresh == Some(now),
            !old(self).is_due(now, force) ==> *final(self) == *old(self),
    {
        if self.due(now, force) {
            self.status = read;
            self.last_refresh = Some(now);
        }
    }
}

// ---------------------------------------------------------------------
// Requests to git
// ---------------------------------------------------------------------

fn arguments(words: Vec<&'static str>, path: &str) -> (r: Vec<String>)
    ensures
        r@.len() == words@.len() + 1,
        forall|i: int| 0 <= i < words@.len() ==> (#[trigger] r@[i])@ == words@[i]@,
        r@[words@.len() as int]@ == path@,
{
    let mut out: Vec<String> = Vec::new();
    let mut i: usize = 0;
    while i < words.len()
        invariant
            i <= words.len(),
            out.len() == i,
            forall|k: int| 0 <= k < i ==> (#[trigger] out@[k])@ == words@[k]@,
        decreases words.len() - i,
    {
        out.push(words[i].to_owned());
        i += 1;
    }
    out.push(path.to_owned());
    out
}

/// The arguments that stage a path.
pub fn add(path: &str) -> (r: Vec<String>)
    ensures
        views(r@) == seq!["add"@, "--"@, path@],
{
    let r = arguments(vec!["add", "--"], path);
    assert(views(r@) =~= seq!["add"@, "--"@, path@]);
    r
}

/// The arguments that discard the changes of a path: the first list, and the
/// second where the first fails.
pub fn restore(path: &str) -> (r: (Vec<String>, Vec<String>))
    ensures
        views(r.0@) == seq!["restore"@, "--staged"@, "--worktree"@, "--"@, path@],
        views(r.1@) == seq!["restore"@, "--"@, path@],
{
    let first = arguments(vec!["restore", "--staged", "--worktree", "--"], path);
    assert(views(first@) =~= seq!["restore"@, "--staged"@, "--worktree"@, "--"@, path@]);
    let second = arguments(vec!["restore", "--"], path);
    assert(views(second@) =~= seq!["restore"@, "--"@, path@]);
    (first, second)
}

/// The arguments that commit a path with a message; the path is staged first.
pub fn commit(path: &str, message: &str) -> (r: Vec<String>)
    ensures
        views(r@) == seq!["commit"@, "-m"@, message@, "--"@, path@],
{
    let mut out: Vec<String> = Vec::new();
    out.push("commit".to_owned());
    out.push("-m".to_owned());
    out.push(message.to_owned());
    out.push("--".to_owned());
    out.push(path.to_owned());
    assert(views(out@) =~= seq!["commit"@, "-m"@, message@, "--"@, path@]);
    out
}

} // verus!
