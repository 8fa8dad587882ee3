//! What the command line means, what it prints and how it exits.

use vstd::prelude::*;

use crate::exec::{no_pairs, push_pair, text_pairs};
use crate::gui::assets::{asset_reference, reference_to};
use crate::json::{print, printed, Json, JsonV};
use crate::map::{lookup, pairs_view, put, TextMap};
use crate::model::environment::{EnvVarV, Environment};
use crate::reqv1::diag::{Diagnostic, DiagnosticV};
use crate::reqv1::ir::{RequestV, ResolvedRequest};
use crate::reqv1::pipeline::{AssertionResult, AssertionV};
use crate::reqv1::runner::{HttpResultView, RunResult, RunResultV, RunStatus};
use crate::runner::plan::{norm, without_slashes, RunScope, ScopeV};
use crate::runner::resolve::{file_name, file_name_of};
use crate::runner::run::RunSummary;
use crate::store::{depth_of, lemma_depth_grows, lemma_tree_view, TreeNode, TreeV};
use crate::text::{
    cat2, cat3, cat4, cat5, chars_of, ends_with, eq_ignore_case, find_from, first_at, has_prefix, has_suffix, same,
    same_ignoring_case, starts_with, text_between,
};
use crate::view::{group_views, opt_or, opt_view, ref_view, views};
use crate::words::{decimal, number_text, quote, quoted, split, split_on, trim, trimmed};

verus! {

broadcast use vstd::string::group_string_axioms;

// ---------------------------------------------------------------------
// Arguments
// ---------------------------------------------------------------------

/// What `--scope` means: a request file, a collection, a folder, or the whole
/// workspace where it is left out.
pub open spec fn scope_of(rel: Option<Seq<char>>) -> ScopeV {
    match rel {
        None => ScopeV::Workspace,
        Some(rel) => {
            let rel = without_slashes(rel);
            let parts = split_on(rel, '/');
            if has_suffix(rel, ".request.json"@) {
                ScopeV::Request(rel)
            } else if parts.len() == 2 && parts[0] == "collections"@ {
                ScopeV::Collection(rel)
            } else {
                ScopeV::Folder(rel)
            }
        },
    }
}

/// Read `--scope`.
pub fn parse_scope(rel: Option<&str>) -> (r: RunScope)
    ensures
        r@ == scope_of(ref_view(rel)),
{
    let rel = match rel {
        None => {
            return RunScope::Workspace;
        },
        Some(rel) => norm(rel),
    };
    if ends_with(rel.as_str(), ".request.json") {
        return RunScope::Request(rel);
    }
    let parts = split(rel.as_str(), '/');
    assert(views(parts@).len() == parts@.len());
    assert(views(parts@)[0] == parts@[0]@);
    if parts.len() == 2 && same(parts[0].as_str(), "collections") {
        RunScope::Collection(rel)
    } else {
        RunScope::Folder(rel)
    }
}

/// The position of the last dot of a name.
pub open spec fn last_dot(s: Seq<char>) -> Option<int>
    decreases s.len(),
{
    if s.len() == 0 {
        None
    } else if s.last() == '.' {
        Some(s.len() - 1)
    } else {
        last_dot(s.drop_last())
    }
}

/// The extension of a path: what follows the last dot of the file name, unless
/// the name begins with that dot.
pub open spec fn extension(path: Seq<char>) -> Option<Seq<char>> {
    match file_name(path) {
        None => None,
        Some(name) => match last_dot(name) {
            Some(i) => if i > 0 {
                Some(name.skip(i + 1))
            } else {
                None
            },
            None => None,
        },
    }
}

/// What a data file holds.
#[derive(Debug, Clone, Copy, PartialEq, Eq, Structural)]
pub enum DataKind {
    Csv,
    Json,
}

fn extension_of(path: &str) -> (r: Option<String>)
    ensures
        opt_view(r) == extension(path@),
{
    let name = match file_name_of(path) {
        None => {
            return None;
        },
        Some(name) => name,
    };
    let chars = chars_of(name.as_str());
    let mut i: usize = chars.len();
    assert(chars@.take(chars@.len() as int) =~= chars@);
    while i > 0 && chars[i - 1] != '.'
        invariant
            i <= chars.len(),
            chars@ == name@,
            last_dot(name@) == last_dot(chars@.take(i as int)),
        decreases i,
    {
        assert(chars@.take(i as int).drop_last() =~= chars@.take(i - 1));
        assert(chars@.take(i as int).last() == chars@[i - 1]);
        i -= 1;
    }
    if i > 0 {
        assert(chars@.take(i as int).last() == chars@[i - 1]);
    }
    if i > 1 {
        assert(chars@.subrange(i as int, chars@.len() as int) =~= name@.skip(i as int));
        Some(text_between(&chars, i, chars.len()))
    } else {
        None
    }
}

/// What a data file holds, by its extension.
pub open spec fn data_kind(path: Seq<char>) -> Option<DataKind> {
    match extension(path) {
        Some(ext) => if same_ignoring_case(ext, "csv"@) {
            Some(DataKind::Csv)
        } else if same_ignoring_case(ext, "json"@) {
            Some(DataKind::Json)
        } else {
            None
        },
        None => None,
    }
}

/// Tell what a data file holds, by its extension.
pub fn parse_data_source(path: &str) -> (r: Result<DataKind, String>)
    ensures
        match data_kind(path@) {
            Some(kind) => r == Ok::<DataKind, String>(kind),
            None => r matches Err(e) && e@ == "unsupported data file extension (expected .csv or .json): "@ + path@,
        },
{
    if let Some(ext) = extension_of(path) {
        if eq_ignore_case(ext.as_str(), "csv") {
            return Ok(DataKind::Csv);
        }
        if eq_ignore_case(ext.as_str(), "json") {
            return Ok(DataKind::Json);
        }
    }
    Err(cat2("unsupported data file extension (expected .csv or .json): ", path))
}

/// A directory, and whether it holds a project file.
#[derive(Debug)]
pub struct Candidate {
    pub dir: String,
    pub has_project: bool,
}

/// The first directory with a project file.
pub open spec fn first_project(dirs: Seq<Candidate>) -> Option<Seq<char>>
    decreases dirs.len(),
{
    if dirs.len() == 0 {
        None
    } else if dirs[0].has_project {
        Some(dirs[0].dir@)
    } else {
        first_project(dirs.skip(1))
    }
}

/// The project root of a request: the one that is asked for, else the nearest
/// directory above the request with a project file, else the directory of the
/// request. `dirs` are the directories above the request, the nearest first.
pub fn v1_root_for(dirs: &Vec<Candidate>, root_override: Option<&str>) -> (r: String)
    ensures
        r@ == match root_override {
            Some(root) => root@,
            None => match first_project(dirs@) {
                Some(dir) => dir,
                None => if dirs@.len() > 0 {
                    dirs@[0].dir@
                } else {
                    "."@
                },
            },
        },
{
    if let Some(root) = root_override {
        return root.to_owned();
    }
    let mut i: usize = 0;
    assert(dirs@.skip(0) =~= dirs@);
    while i < dirs.len()
        invariant
            i <= dirs.len(),
            root_override is None,
            first_project(dirs@) == first_project(dirs@.skip(i as int)),
        decreases dirs.len() - i,
    {
        assert(dirs@.skip(i as int).skip(1) =~= dirs@.skip(i + 1));
        if dirs[i].has_project {
            return dirs[i].dir.clone();
        }
        i += 1;
    }
    if dirs.len() > 0 {
        dirs[0].dir.clone()
    } else {
        ".".to_owned()
    }
}

/// A text cut at the first `sep`, which has one character.
pub open spec fn cut_at(s: Seq<char>, sep: Seq<char>) -> Option<(Seq<char>, Seq<char>)> {
    match first_at(s, sep, 0) {
        Some(i) => Some((s.take(i), s.skip(i + sep.len()))),
        None => None,
    }
}

fn split_once(s: &str, sep: &str) -> (r: Option<(String, String)>)
    ensures
        cut_at(s@, sep@) == match r {
            Some((a, b)) => Some((a@, b@)),
            None => None,
        },
{
    let chars = chars_of(s);
    let pat = chars_of(sep);
    let end: usize = chars.len();
    match find_from(&chars, &pat, 0) {
        Some(i) => {
            let a = text_between(&chars, 0, i);
            let b = text_between(&chars, i + pat.len(), end);
            assert(a@ =~= s@.take(i as int));
            assert(b@ =~= s@.skip(i + sep@.len()));
            Some((a, b))
        },
        None => None,
    }
}

/// `s` without the quotes at either side.
pub open spec fn unquoted(s: Seq<char>) -> Seq<char>
    decreases s.len(),
{
    if s.len() > 0 && s[0] == '"' {
        unquoted(s.skip(1))
    } else if s.len() > 0 && s.last() == '"' {
        unquoted(s.drop_last())
    } else {
        s
    }
}

pub(crate) fn unquote(s: &str) -> (r: String)
    ensures
        r@ == unquoted(s@),
{
    let chars = chars_of(s);
    let mut from: usize = 0;
    let mut to: usize = chars.len();
    assert(chars@.subrange(0, chars@.len() as int) =~= chars@);
    while from < to && chars[from] == '"'
        invariant
            from <= to,
            to == chars.len(),
            unquoted(chars@) == unquoted(chars@.subrange(from as int, to as int)),
        decreases to - from,
    {
        assert(chars@.subrange(from as int, to as int).skip(1) =~= chars@.subrange(from + 1, to as int));
        from += 1;
    }
    while from < to && chars[to - 1] == '"'
        invariant
            from <= to <= chars.len(),
            from < to ==> chars@[from as int] != '"',
            unquoted(chars@) == unquoted(chars@.subrange(from as int, to as int)),
        decreases to,
    {
        let ghost now = chars@.subrange(from as int, to as int);
        assert(now.drop_last() =~= chars@.subrange(from as int, to - 1));
        assert(now[0] == chars@[from as int]);
        to -= 1;
    }
    proof {
        let now = chars@.subrange(from as int, to as int);
        if from < to {
            assert(now[0] == chars@[from as int]);
            assert(now.last() == chars@[to - 1]);
        }
    }
    text_between(&chars, from, to)
}

/// The secrets that the first `n` lines of a `.env.local` file set: `KEY=value`,
/// blank lines and comments aside.
pub open spec fn env_local(lines: Seq<Seq<char>>, n: int) -> Seq<(Seq<char>, Seq<char>)>
    decreases n,
{
    if n <= 0 || n > lines.len() {
        seq![]
    } else {
        let before = env_local(lines, n - 1);
        let line = trimmed(lines[n - 1]);
        if line.len() == 0 || has_prefix(line, "#"@) {
            before
        } else {
            match cut_at(line, "="@) {
                Some((key, value)) => put(before, trimmed(key), unquoted(trimmed(value))),
                None => before,
            }
        }
    }
}

/// Read a `.env.local` file.
pub fn parse_env_local(text: &str) -> (r: TextMap<String>)
    ensures
        r@ == env_local(split_on(text@, '\n'), split_on(text@, '\n').len() as int),
{
    let lines = split(text, '\n');
    let ghost all = views(lines@);
    let mut out: TextMap<String> = TextMap::new();
    let mut i: usize = 0;
    while i < lines.len()
        invariant
            i <= lines.len(),
            all == views(lines@),
            out@ == env_local(all, i as int),
        decreases lines.len() - i,
    {
        assert(all[i as int] == lines@[i as int]@);
        let line = trim(lines[i].as_str());
        if line.as_str().unicode_len() > 0 && !starts_with(line.as_str(), "#") {
            if let Some((key, value)) = split_once(line.as_str(), "=") {
                let _ = out.insert(trim(key.as_str()), unquote(trim(value.as_str()).as_str()));
            }
        }
        i += 1;
    }
    out
}

/// A secret: the file decides, then the environment of the process.
pub fn secret_value(file: &TextMap<String>, process: Option<String>, name: &str) -> (r: Option<String>)
    ensures
        opt_view(r) == match lookup(file@, name@) {
            Some(v) => Some(v),
            None => opt_view(process),
        },
{
    match file.get(name) {
        Some(v) => Some(v.clone()),
        None => process,
    }
}

/// Where a request message comes from.
#[derive(Debug)]
pub enum MessageSource {
    Stdin,
    File(String),
    Inline(String),
}

/// Read `--data`: `-` for standard input, `@` and a path for a file, else the
/// message itself.
pub fn message_source(data: &str) -> (r: MessageSource)
    ensures
        match r {
            MessageSource::Stdin => data@ == "-"@,
            MessageSource::File(path) => data@ != "-"@ && has_prefix(data@, "@"@) && path@ == data@.skip(1),
            MessageSource::Inline(text) => data@ != "-"@ && !has_prefix(data@, "@"@) && text@ == data@,
        },
{
    if same(data, "-") {
        MessageSource::Stdin
    } else if starts_with(data, "@") {
        let chars = chars_of(data);
        proof {
            reveal_strlit("@");
            assert("@"@.len() == 1);
        }
        let path = text_between(&chars, 1, chars.len());
        assert(path@ =~= data@.skip(1));
        MessageSource::File(path)
    } else {
        MessageSource::Inline(data.to_owned())
    }
}

/// The first `n` metadata entries as names and values; the entry that is none.
pub open spec fn metadata(entries: Seq<Seq<char>>, n: int) -> Result<Seq<(Seq<char>, Seq<char>)>, Seq<char>>
    decreases n,
{
    if n <= 0 || n > entries.len() {
        Ok(seq![])
    } else {
        match metadata(entries, n - 1) {
            Err(e) => Err(e),
            Ok(before) => match cut_at(entries[n - 1], ":"@) {
                Some((key, value)) => Ok(before.push((trimmed(key), trimmed(value)))),
                None => Err(entries[n - 1]),
            },
        }
    }
}

proof fn lemma_metadata_cut(entries: Seq<Seq<char>>, n: int, m: int)
    requires
        0 <= n <= m <= entries.len(),
        metadata(entries, n) is Err,
    ensures
        metadata(entries, m) == metadata(entries, n),
    decreases m,
{
    if n < m {
        lemma_metadata_cut(entries, n, m - 1);
    }
}

/// Read metadata entries of the form `key:value`.
pub fn parse_metadata(entries: &Vec<String>) -> (r: Result<Vec<(String, String)>, String>)
    ensures
        match metadata(views(entries@), entries@.len() as int) {
            Ok(pairs) => r is Ok && text_pairs(r->Ok_0@) == pairs,
            Err(entry) => r matches Err(e) && e@ == "metadata must be key:value, got "@ + quoted(entry),
        },
{
    let ghost all = views(entries@);
    let mut out = no_pairs();
    let mut i: usize = 0;
    while i < entries.len()
        invariant
            i <= entries.len(),
            all == views(entries@),
            metadata(all, i as int) == Ok::<Seq<(Seq<char>, Seq<char>)>, Seq<char>>(text_pairs(out@)),
        decreases entries.len() - i,
    {
        assert(all[i as int] == entries@[i as int]@);
        match split_once(entries[i].as_str(), ":") {
            Some((key, value)) => push_pair(&mut out, trim(key.as_str()), trim(value.as_str())),
            None => {
                proof {
                    lemma_metadata_cut(all, i + 1, all.len() as int);
                }
                return Err(cat2("metadata must be key:value, got ", quote(entries[i].as_str()).as_str()));
            },
        }
        i += 1;
    }
    Ok(out)
}

// ---------------------------------------------------------------------
// Exit codes
// ---------------------------------------------------------------------

/// The worse of two endings.
pub open spec fn worse(a: RunStatus, b: RunStatus) -> RunStatus {
    if a == RunStatus::Error || b == RunStatus::Error {
        RunStatus::Error
    } else if a == RunStatus::Failed || b == RunStatus::Failed {
        RunStatus::Failed
    } else {
        RunStatus::Passed
    }
}

/// The worst ending of several.
pub open spec fn worst_of(list: Seq<RunStatus>) -> RunStatus
    decreases list.len(),
{
    if list.len() == 0 {
        RunStatus::Passed
    } else {
        worse(worst_of(list.drop_last()), list.last())
    }
}

/// The exit code of an ending.
pub open spec fn exit_code(status: RunStatus) -> i32 {
    match status {
        RunStatus::Passed => 0,
        RunStatus::Failed => 1,
        RunStatus::Error => 2,
    }
}

/// The endings of results.
pub open spec fn statuses(results: Seq<RunResult>) -> Seq<RunStatus> {
    Seq::new(results.len(), |i: int| results[i].status)
}

/// The exit code of a run of documents: that of its worst ending.
pub fn run_v1_code(results: &Vec<RunResult>) -> (r: i32)
    ensures
        r == exit_code(worst_of(statuses(results@))),
{
    let ghost all = statuses(results@);
    let mut worst = RunStatus::Passed;
    let mut i: usize = 0;
    assert(all.take(0) =~= Seq::empty());
    while i < results.len()
        invariant
            i <= results.len(),
            all == statuses(results@),
            worst == worst_of(all.take(i as int)),
        decreases results.len() - i,
    {
        assert(all.take(i + 1).drop_last() =~= all.take(i as int));
        assert(all.take(i + 1).last() == results@[i as int].status);
        let status = results[i].status;
        worst = if worst == RunStatus::Error || status == RunStatus::Error {
            RunStatus::Error
        } else if worst == RunStatus::Failed || status == RunStatus::Failed {
            RunStatus::Failed
        } else {
            RunStatus::Passed
        };
        i += 1;
    }
    assert(all.take(i as int) =~= all);
    match worst {
        RunStatus::Passed => 0,
        RunStatus::Failed => 1,
        RunStatus::Error => 2,
    }
}

/// The exit code of a run: one where a request failed.
pub fn run_code(summary: &RunSummary) -> (r: i32)
    ensures
        r == if summary.failed > 0 {
            1i32
        } else {
            0i32
        },
{
    if summary.failed > 0 {
        1
    } else {
        0
    }
}

/// The exit code is zero exactly if every run passed, and two exactly if one of
/// them met an error.
pub proof fn lemma_exit_code_tells(list: Seq<RunStatus>)
    ensures
        exit_code(worst_of(list)) == 0 <==> forall|i: int|
            0 <= i < list.len() ==> #[trigger] list[i] == RunStatus::Passed,
        exit_code(worst_of(list)) == 2 <==> exists|i: int|
            0 <= i < list.len() && #[trigger] list[i] == RunStatus::Error,
    decreases list.len(),
{
    if list.len() > 0 {
        let rest = list.drop_last();
        lemma_exit_code_tells(rest);
        assert(list[list.len() - 1] == list.last());
        if worst_of(rest) == RunStatus::Passed {
            assert forall|i: int| 0 <= i < rest.len() implies #[trigger] list[i] == RunStatus::Passed by {
                assert(rest[i] == list[i]);
            }
        } else {
            assert(!(forall|i: int| 0 <= i < rest.len() ==> #[trigger] rest[i] == RunStatus::Passed));
            let k = choose|k: int| 0 <= k < rest.len() && #[trigger] rest[k] != RunStatus::Passed;
            assert(list[k] == rest[k]);
        }
        if worst_of(rest) == RunStatus::Error {
            let k = choose|k: int| 0 <= k < rest.len() && #[trigger] rest[k] == RunStatus::Error;
            assert(list[k] == rest[k]);
        } else {
            assert forall|i: int| 0 <= i < rest.len() implies #[trigger] list[i] != RunStatus::Error by {
                assert(rest[i] == list[i]);
            }
        }
    }
}

// ---------------------------------------------------------------------
// Output
// ---------------------------------------------------------------------

/// A line of output, on one of the two streams.
#[derive(Debug)]
pub enum Line {
    Out(String),
    /// On standard error.
    Note(String),
}

/// What a [`Line`] says.
pub enum LineV {
    Out(Seq<char>),
    Note(Seq<char>),
}

impl View for Line {
    type V = LineV;

    open spec fn view(&self) -> LineV {
        match self {
            Line::Out(s) => LineV::Out(s@),
            Line::Note(s) => LineV::Note(s@),
        }
    }
}

pub(crate) fn put_line(lines: &mut Vec<Line>, line: Line)
    ensures
        views(final(lines)@) == views(old(lines)@) + seq![line@],
{
    broadcast use group_views;

    let ghost before = views(lines@);
    let ghost view = line@;
    lines.push(line);
    assert(before.push(view) =~= before + seq![view]);
}

/// The lines about the first `n` assertions.
pub open spec fn assertion_lines(assertions: Seq<AssertionV>, n: int) -> Seq<LineV>
    decreases n,
{
    if n <= 0 || n > assertions.len() {
        seq![]
    } else {
        let mark = if assertions[n - 1].passed {
            "✓"@
        } else {
            "✗"@
        };
        assertion_lines(assertions, n - 1) + seq![LineV::Out("  "@ + mark + " "@ + assertions[n - 1].message)]
    }
}

/// The lines about the first `n` runtime values.
pub open spec fn runtime_lines(runtime: Seq<(Seq<char>, JsonV)>, n: int) -> Seq<LineV>
    decreases n,
{
    if n <= 0 || n > runtime.len() {
        seq![]
    } else {
        runtime_lines(runtime, n - 1) + seq![
            LineV::Out("  → "@ + runtime[n - 1].0 + " = "@ + printed(runtime[n - 1].1)),
        ]
    }
}

/// The lines about the first `n` diagnostics, each with its code.
pub open spec fn diagnostic_lines(diagnostics: Seq<DiagnosticV>, n: int) -> Seq<LineV>
    decreases n,
{
    if n <= 0 || n > diagnostics.len() {
        seq![]
    } else {
        diagnostic_lines(diagnostics, n - 1) + seq![
            LineV::Note("  ["@ + diagnostics[n - 1].code.name() + "] "@ + diagnostics[n - 1].message),
        ]
    }
}

/// The lines about the first `n` diagnostics, each with its code and place.
pub open spec fn placed_lines(diagnostics: Seq<DiagnosticV>, n: int) -> Seq<LineV>
    decreases n,
{
    if n <= 0 || n > diagnostics.len() {
        seq![]
    } else {
        let d = diagnostics[n - 1];
        placed_lines(diagnostics, n - 1) + seq![
            LineV::Note("  ["@ + d.code.name() + "] "@ + opt_or(d.instance_path, seq![]) + " "@ + d.message),
        ]
    }
}

/// The line about a response.
pub open spec fn http_lines(id: Seq<char>, http: Option<HttpResultView>) -> Seq<LineV> {
    match http {
        None => seq![],
        Some(h) => seq![
            LineV::Out(
                id + " — "@ + decimal(h.status as nat) + " ("@ + decimal(h.time_ms as nat) + " ms, "@ + decimal(
                    h.bytes as nat,
                ) + " bytes)"@,
            ),
        ],
    }
}

/// The name of an ending.
pub open spec fn status_name(status: RunStatus) -> Seq<char> {
    match status {
        RunStatus::Passed => "Passed"@,
        RunStatus::Failed => "Failed"@,
        RunStatus::Error => "Error"@,
    }
}

/// The lines about one result; among several it begins with its name.
pub open spec fn result_lines(r: RunResultV, several: bool) -> Seq<LineV> {
    (if several {
        seq![LineV::Out("--- "@ + r.request_id)]
    } else {
        seq![]
    }) + http_lines(r.request_id, r.http) + assertion_lines(r.assertions, r.assertions.len() as int) + runtime_lines(
        r.runtime,
        r.runtime.len() as int,
    ) + diagnostic_lines(r.diagnostics, r.diagnostics.len() as int) + seq![LineV::Out(status_name(r.status))]
}

fn put_assertions(lines: &mut Vec<Line>, assertions: &Vec<AssertionResult>)
    ensures
        views(final(lines)@) == views(old(lines)@) + assertion_lines(views(assertions@), assertions@.len() as int),
{
    let ghost start = views(lines@);
    let ghost all = views(assertions@);
    let mut i: usize = 0;
    assert(start + Seq::<LineV>::empty() =~= start);
    while i < assertions.len()
        invariant
            i <= assertions.len(),
            all == views(assertions@),
            views(lines@) == start + assertion_lines(all, i as int),
        decreases assertions.len() - i,
    {
        assert(all[i as int] == assertions@[i as int]@);
        let mark = if assertions[i].passed {
            "✓"
        } else {
            "✗"
        };
        let line = Line::Out(cat4("  ", mark, " ", assertions[i].message.as_str()));
        let ghost before = assertion_lines(all, i as int);
        let ghost view = line@;
        put_line(lines, line);
        assert(start + before + seq![view] =~= start + (before + seq![view]));
        i += 1;
    }
}

fn put_runtime(lines: &mut Vec<Line>, runtime: &TextMap<Json>)
    ensures
        views(final(lines)@) == views(old(lines)@) + runtime_lines(runtime@, runtime@.len() as int),
{
    let ghost start = views(lines@);
    let ghost all = runtime@;
    let mut i: usize = 0;
    assert(start + Seq::<LineV>::empty() =~= start);
    while i < runtime.pairs.len()
        invariant
            i <= runtime.pairs.len(),
            all == runtime@,
            views(lines@) == start + runtime_lines(all, i as int),
        decreases runtime.pairs.len() - i,
    {
        let line = Line::Out(
            cat4("  → ", runtime.pairs[i].0.as_str(), " = ", print(&runtime.pairs[i].1).as_str()),
        );
        let ghost before = runtime_lines(all, i as int);
        let ghost view = line@;
        put_line(lines, line);
        assert(start + before + seq![view] =~= start + (before + seq![view]));
        i += 1;
    }
}

pub(crate) fn put_diagnostics(lines: &mut Vec<Line>, diagnostics: &Vec<Diagnostic>)
    ensures
        views(final(lines)@) == views(old(lines)@) + diagnostic_lines(views(diagnostics@), diagnostics@.len() as int),
{
    let ghost start = views(lines@);
    let ghost all = views(diagnostics@);
    let mut i: usize = 0;
    assert(start + Seq::<LineV>::empty() =~= start);
    while i < diagnostics.len()
        invariant
            i <= diagnostics.len(),
            all == views(diagnostics@),
            views(lines@) == start + diagnostic_lines(all, i as int),
        decreases diagnostics.len() - i,
    {
        assert(all[i as int] == diagnostics@[i as int]@);
        let line = Line::Note(cat4("  [", diagnostics[i].code.as_str(), "] ", diagnostics[i].message.as_str()));
        let ghost before = diagnostic_lines(all, i as int);
        let ghost view = line@;
        put_line(lines, line);
        assert(start + before + seq![view] =~= start + (before + seq![view]));
        i += 1;
    }
}

pub(crate) fn put_placed(lines: &mut Vec<Line>, diagnostics: &Vec<Diagnostic>)
    ensures
        views(final(lines)@) == views(old(lines)@) + placed_lines(views(diagnostics@), diagnostics@.len() as int),
{
    let ghost start = views(lines@);
    let ghost all = views(diagnostics@);
    let mut i: usize = 0;
    assert(start + Seq::<LineV>::empty() =~= start);
    while i < diagnostics.len()
        invariant
            i <= diagnostics.len(),
            all == views(diagnostics@),
            views(lines@) == start + placed_lines(all, i as int),
        decreases diagnostics.len() - i,
    {
        assert(all[i as int] == diagnostics@[i as int]@);
        let place = match &diagnostics[i].instance_path {
            Some(p) => p.clone(),
            None => String::new(),
        };
        assert(place@ =~= opt_or(all[i as int].instance_path, seq![]));
        let mut text = cat5("  [", diagnostics[i].code.as_str(), "] ", place.as_str(), " ");
        text.append(diagnostics[i].message.as_str());
        let line = Line::Note(text);
        let ghost before = placed_lines(all, i as int);
        let ghost view = line@;
        put_line(lines, line);
        assert(start + before + seq![view] =~= start + (before + seq![view]));
        i += 1;
    }
}

/// The name of an ending.
pub fn status_text(status: RunStatus) -> (r: &'static str)
    ensures
        r@ == status_name(status),
{
    match status {
        RunStatus::Passed => "Passed",
        RunStatus::Failed => "Failed",
        RunStatus::Error => "Error",
    }
}

/// What is printed about one result.
pub fn describe_result(result: &RunResult, several: bool) -> (r: Vec<Line>)
    ensures
        views(r@) == result_lines(result@, several),
{
    let id = result.request_id.as_str();
    let mut lines: Vec<Line> = Vec::new();
    assert(views(lines@) =~= seq![]);
    if several {
        put_line(&mut lines, Line::Out(cat2("--- ", id)));
    }
    let ghost head = views(lines@);
    assert(head =~= if several {
        seq![LineV::Out("--- "@ + id@)]
    } else {
        seq![]
    });
    if let Some(h) = &result.http {
        let mut text = cat5(id, " — ", number_text(h.status as u64).as_str(), " (", number_text(h.time_ms).as_str());
        text.append(" ms, ");
        text.append(number_text(h.bytes as u64).as_str());
        text.append(" bytes)");
        put_line(&mut lines, Line::Out(text));
    }
    assert(views(lines@) =~= head + http_lines(id@, result.http));
    put_assertions(&mut lines, &result.assertions);
    put_runtime(&mut lines, &result.runtime);
    put_diagnostics(&mut lines, &result.diagnostics);
    put_line(&mut lines, Line::Out(status_text(result.status).to_owned()));
    lines
}

/// What is printed about a validated document.
pub open spec fn valid_lines(ir: RequestV) -> Seq<LineV> {
    seq![
        LineV::Out("ok: "@ + ir.id + " ("@ + ir.name + ")"@),
        LineV::Out("  "@ + ir.method.name() + " "@ + ir.url),
        LineV::Out(
            "  "@ + decimal(ir.pipeline.len()) + " pipeline step(s), "@ + decimal(ir.headers.len()) + " header(s)"@,
        ),
    ]
}

/// What is printed about a document that is not valid.
pub open spec fn invalid_lines(diagnostics: Seq<DiagnosticV>) -> Seq<LineV> {
    placed_lines(diagnostics, diagnostics.len() as int) + seq![
        LineV::Note(decimal(diagnostics.len()) + " diagnostic(s)"@),
    ]
}

/// What `validate` prints, and its exit code: zero where the document is
/// valid, one where it is not.
pub fn describe_validation(outcome: &Result<ResolvedRequest, Vec<Diagnostic>>) -> (r: (Vec<Line>, i32))
    ensures
        match outcome {
            Ok(ir) => views(r.0@) == valid_lines(ir@) && r.1 == 0,
            Err(diagnostics) => views(r.0@) == invalid_lines(views(diagnostics@)) && r.1 == 1,
        },
{
    let mut lines: Vec<Line> = Vec::new();
    assert(views(lines@) =~= seq![]);
    match outcome {
        Ok(ir) => {
            put_line(&mut lines, Line::Out(cat5("ok: ", ir.id.as_str(), " (", ir.name.as_str(), ")")));
            put_line(&mut lines, Line::Out(cat4("  ", ir.method.as_str(), " ", ir.url.as_str())));
            put_line(
                &mut lines,
                Line::Out(
                    cat5(
                        "  ",
                        number_text(ir.pipeline.len() as u64).as_str(),
                        " pipeline step(s), ",
                        number_text(ir.headers.len() as u64).as_str(),
                        " header(s)",
                    ),
                ),
            );
            assert(views(lines@) =~= valid_lines(ir@));
            (lines, 0)
        },
        Err(diagnostics) => {
            put_placed(&mut lines, diagnostics);
            put_line(
                &mut lines,
                Line::Note(cat2(number_text(diagnostics.len() as u64).as_str(), " diagnostic(s)")),
            );
            assert(views(lines@) =~= invalid_lines(views(diagnostics@)));
            (lines, 1)
        },
    }
}

// ---------------------------------------------------------------------
// Listings
// ---------------------------------------------------------------------

/// `n` times two spaces.
pub open spec fn indent(n: nat) -> Seq<char>
    decreases n,
{
    if n == 0 {
        seq![]
    } else {
        indent((n - 1) as nat) + "  "@
    }
}

/// `s` with spaces up to seven characters.
pub open spec fn padded(s: Seq<char>) -> Seq<char>
    decreases 7 - s.len(),
{
    if s.len() >= 7 {
        s
    } else {
        padded(s.push(' '))
    }
}

/// The lines that list the first `n` nodes.
pub open spec fn tree_lines(nodes: Seq<TreeV>, depth: nat, n: int) -> Seq<Seq<char>>
    decreases nodes, n,
{
    if n <= 0 || n > nodes.len() {
        seq![]
    } else {
        let before = tree_lines(nodes, depth, n - 1);
        match nodes[n - 1] {
            TreeV::Folder { meta, children } => before + (seq![indent(depth) + meta.name + "/"@]
                + tree_lines(children, depth + 1, children.len() as int)),
            TreeV::Request(r) => before + seq![
                indent(depth) + "["@ + padded(r.def.method.name()) + "] "@ + r.def.name,
            ],
        }
    }
}

fn spaces(n: usize) -> (r: String)
    ensures
        r@ == indent(n as nat),
{
    let mut out = String::new();
    let mut i: usize = 0;
    assert(out@ =~= indent(0));
    while i < n
        invariant
            i <= n,
            out@ == indent(i as nat),
        decreases n - i,
    {
        out.append("  ");
        i += 1;
    }
    out
}

fn pad(s: &str) -> (r: String)
    ensures
        r@ == padded(s@),
{
    let mut out = s.to_owned();
    let mut n: usize = s.unicode_len();
    while n < 7
        invariant
            n == out@.len(),
            padded(s@) == padded(out@),
        decreases 7 - n,
    {
        out.push(' ');
        n += 1;
    }
    out
}

pub(crate) fn put_text(lines: &mut Vec<String>, line: String)
    ensures
        views(final(lines)@) == views(old(lines)@) + seq![line@],
{
    broadcast use group_views;

    let ghost before = views(lines@);
    let ghost view = line@;
    lines.push(line);
    assert(before.push(view) =~= before + seq![view]);
}

/// List folders and requests, two spaces for each level. Folders do not nest
/// deeper than can be counted.
pub fn list_children(nodes: &Vec<TreeNode>, depth: usize, lines: &mut Vec<String>)
    requires
        depth + depth_of(views(nodes@), nodes@.len() as int) <= usize::MAX,
    ensures
        views(final(lines)@) == views(old(lines)@) + tree_lines(views(nodes@), depth as nat, nodes@.len() as int),
    decreases views(nodes@),
{
    let ghost start = views(lines@);
    let ghost all = views(nodes@);
    let mut i: usize = 0;
    assert(start + Seq::<Seq<char>>::empty() =~= start);
    while i < nodes.len()
        invariant
            i <= nodes.len(),
            all == views(nodes@),
            depth + depth_of(all, all.len() as int) <= usize::MAX,
            views(lines@) == start + tree_lines(all, depth as nat, i as int),
        decreases nodes.len() - i,
    {
        let ghost before = tree_lines(all, depth as nat, i as int);
        proof {
            lemma_tree_view(nodes@[i as int]);
            assert(all[i as int] == nodes@[i as int]@);
            lemma_depth_grows(all, i + 1, all.len() as int);
        }
        match &nodes[i] {
            TreeNode::Folder(f) => {
                proof {
                    assert(decreases_to!(all => all[i as int]));
                    assert(decreases_to!(all[i as int] => all[i as int]->children));
                    assert(all[i as int]->children == views(f.children@));
                }
                let line = cat3(spaces(depth).as_str(), f.meta.name.as_str(), "/");
                let ghost head = seq![line@];
                put_text(lines, line);
                let ghost inner = tree_lines(views(f.children@), (depth + 1) as nat, f.children@.len() as int);
                list_children(&f.children, depth + 1, lines);
                assert(start + before + head + inner =~= start + (before + (head + inner)));
            },
            TreeNode::Request(r) => {
                let line = cat5(
                    spaces(depth).as_str(),
                    "[",
                    pad(r.def.method.as_str()).as_str(),
                    "] ",
                    r.def.name.as_str(),
                );
                let ghost view = line@;
                put_text(lines, line);
                assert(start + before + seq![view] =~= start + (before + seq![view]));
            },
        }
        i += 1;
    }
}

/// The number of secrets among the first `n` variables.
pub open spec fn secrets_among(vars: Seq<(Seq<char>, EnvVarV)>, n: int) -> nat
    decreases n,
{
    if n <= 0 || n > vars.len() {
        0
    } else {
        secrets_among(vars, n - 1) + if vars[n - 1].1.secret {
            1nat
        } else {
            0
        }
    }
}

/// The line that lists an environment: its name and how many variables and
/// secrets it has.
pub fn describe_environment(env: &Environment) -> (r: String)
    ensures
        r@ == env@.name + " ("@ + decimal(env@.variables.len()) + " variable(s), "@ + decimal(
            secrets_among(env@.variables, env@.variables.len() as int),
        ) + " secret)"@,
{
    let vars = &env.variables.pairs;
    let ghost all = env@.variables;
    let mut secrets: usize = 0;
    let mut i: usize = 0;
    while i < vars.len()
        invariant
            i <= vars.len(),
            all == pairs_view(vars@),
            secrets <= i,
            secrets == secrets_among(all, i as int),
        decreases vars.len() - i,
    {
        assert(all[i as int].1 == vars@[i as int].1@);
        if vars[i].1.secret {
            secrets += 1;
        }
        i += 1;
    }
    let mut text = cat5(
        env.name.as_str(),
        " (",
        number_text(vars.len() as u64).as_str(),
        " variable(s), ",
        number_text(secrets as u64).as_str(),
    );
    text.append(" secret)");
    text
}

/// An asset as it is listed.
#[derive(Debug)]
pub struct AssetRow {
    /// The heading of its kind.
    pub kind: String,
    pub alias: Option<String>,
    pub prefix_ref: Option<String>,
    pub rel_path: String,
    pub used_by: usize,
}

/// What an [`AssetRow`] says.
pub struct AssetRowV {
    pub kind: Seq<char>,
    pub alias: Option<Seq<char>>,
    pub prefix_ref: Option<Seq<char>>,
    pub rel_path: Seq<char>,
    pub used_by: usize,
}

impl View for AssetRow {
    type V = AssetRowV;

    open spec fn view(&self) -> AssetRowV {
        AssetRowV {
            kind: self.kind@,
            alias: opt_view(self.alias),
            prefix_ref: opt_view(self.prefix_ref),
            rel_path: self.rel_path@,
            used_by: self.used_by,
        }
    }
}

/// The lines that list the first `n` assets, with a heading where the kind
/// changes.
pub open spec fn asset_lines(assets: Seq<AssetRowV>, n: int) -> Seq<Seq<char>>
    decreases n,
{
    if n <= 0 || n > assets.len() {
        seq![]
    } else {
        let a = assets[n - 1];
        asset_lines(assets, n - 1) + (if n == 1 || assets[n - 2].kind != a.kind {
            seq![a.kind + ":"@]
        } else {
            seq![]
        }) + seq![
            "  "@ + asset_reference(a.alias, a.prefix_ref, a.rel_path) + "  ("@ + a.rel_path + ", used by "@ + decimal(a.used_by as nat) + ")"@,
        ]
    }
}

/// List assets.
pub fn list_assets(assets: &Vec<AssetRow>) -> (r: Vec<String>)
    ensures
        views(r@) == asset_lines(views(assets@), assets@.len() as int),
{
    let ghost all = views(assets@);
    let mut lines: Vec<String> = Vec::new();
    let mut i: usize = 0;
    assert(views(lines@) =~= seq![]);
    while i < assets.len()
        invariant
            i <= assets.len(),
            all == views(assets@),
            views(lines@) == asset_lines(all, i as int),
        decreases assets.len() - i,
    {
        assert(all[i as int] == assets@[i as int]@);
        let a = &assets[i];
        let ghost before = views(lines@);
        if i > 0 {
            assert(all[i - 1] == assets@[i - 1]@);
        }
        if i == 0 || !same(assets[i - 1].kind.as_str(), a.kind.as_str()) {
            put_text(&mut lines, cat2(a.kind.as_str(), ":"));
        } else {
            assert(before + Seq::<Seq<char>>::empty() =~= before);
        }
        let reference = reference_to(&a.alias, &a.prefix_ref, a.rel_path.as_str());
        let mut text = cat5("  ", reference.as_str(), "  (", a.rel_path.as_str(), ", used by ");
        text.append(number_text(a.used_by as u64).as_str());
        text.append(")");
        put_text(&mut lines, text);
        i += 1;
    }
    lines
}

/// What a check of the lock file says, and its exit code: zero where nothing
/// has drifted, one where something has, two where it cannot be told.
pub fn describe_lock_check(outcome: &Result<Vec<Diagnostic>, Diagnostic>, assets: usize) -> (r: (Vec<Line>, i32))
    ensures
        match outcome {
            Err(d) => views(r.0@) == seq![LineV::Note("error: "@ + d@.message)] && r.1 == 2,
            Ok(drifts) => if drifts@.len() == 0 {
                views(r.0@) == seq![LineV::Out("lockfile is clean ("@ + decimal(assets as nat) + " asset(s))"@)] && r.1
                    == 0
            } else {
                views(r.0@) == diagnostic_lines(views(drifts@), drifts@.len() as int) + seq![
                    LineV::Note(decimal(drifts@.len()) + " drift(s)"@),
                ] && r.1 == 1
            },
        },
{
    let mut lines: Vec<Line> = Vec::new();
    assert(views(lines@) =~= seq![]);
    match outcome {
        Err(d) => {
            put_line(&mut lines, Line::Note(cat2("error: ", d.message.as_str())));
            assert(views(lines@) =~= seq![LineV::Note("error: "@ + d@.message)]);
            (lines, 2)
        },
        Ok(drifts) => {
            if drifts.len() == 0 {
                let text = cat3("lockfile is clean (", number_text(assets as u64).as_str(), " asset(s))");
                let ghost view = text@;
                put_line(&mut lines, Line::Out(text));
                assert(views(lines@) =~= seq![LineV::Out(view)]);
                (lines, 0)
            } else {
                put_diagnostics(&mut lines, drifts);
                put_line(&mut lines, Line::Note(cat2(number_text(drifts.len() as u64).as_str(), " drift(s)")));
                assert(views(lines@) =~= diagnostic_lines(views(drifts@), drifts@.len() as int) + seq![
                    LineV::Note(decimal(drifts@.len()) + " drift(s)"@),
                ]);
                (lines, 1)
            }
        },
    }
}

/// The path that a mock server is asked for: the URL up to its query.
pub fn mock_path(url: &str) -> (r: String)
    ensures
        r@ == split_on(url@, '?')[0],
{
    let pieces = split(url, '?');
    assert(views(pieces@)[0] == pieces@[0]@);
    pieces[0].clone()
}

} // verus!
