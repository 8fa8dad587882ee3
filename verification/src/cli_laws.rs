//! What holds of the command line: what its arguments mean, what is printed and
//! with which code it ends.

use vstd::prelude::*;

use crate::arrangement::{arranged, listed};
use crate::cli::{
    assertion_lines, asset_lines, cut_at, data_kind, diagnostic_lines, env_local, exit_code, extension, first_project,
    http_lines, invalid_lines, metadata, result_lines, runtime_lines, scope_of, secrets_among, status_name, tree_lines,
    unquoted, worst_of, AssetRowV, Candidate, DataKind, LineV,
};
use crate::json::{printed, JsonV};
use crate::listing::{answers, mock_answer, refusal, workspace_lines, RouteV};
use crate::map::{lemma_put_is_read_back, lemma_put_leaves_others, lookup};
use crate::model::environment::EnvVarV;
use crate::reqv1::diag::DiagnosticV;
use crate::reqv1::ir::RequestV;
use crate::reqv1::pipeline::{AssertionV, ResponseV};
use crate::reqv1::runner::{RunResultV, RunStatus};
use crate::runner::plan::{without_slashes, ScopeV};
use crate::store::{CollectionV, NodeMetaV, RequestNodeV, TreeV};
use crate::text::{first_at, has_prefix, has_suffix, lemma_first_at, occurs_at, same_ignoring_case};
use crate::words::{decimal, split_on, trimmed};

verus! {

broadcast use vstd::string::group_string_axioms;

// ---------------------------------------------------------------------
// Arguments
// ---------------------------------------------------------------------

/// Without a scope the whole workspace runs; a request file runs alone; what
/// lies directly below `collections` is a collection, and anything else a
/// folder. Slashes at either end do not count.
pub proof fn lemma_scope_is_told_by_its_path(rel: Seq<char>, name: Seq<char>)
    ensures
        scope_of(None) is Workspace,
        has_suffix(without_slashes(rel), ".request.json"@) ==> scope_of(Some(rel)) == ScopeV::Request(without_slashes(rel)),
        !has_suffix(without_slashes(rel), ".request.json"@) && split_on(without_slashes(rel), '/') == seq![
            "collections"@,
            name,
        ] ==> scope_of(Some(rel)) == ScopeV::Collection(without_slashes(rel)),
        !has_suffix(without_slashes(rel), ".request.json"@) && (split_on(without_slashes(rel), '/').len() != 2 || split_on(
            without_slashes(rel),
            '/',
        )[0] != "collections"@) ==> scope_of(Some(rel)) == ScopeV::Folder(without_slashes(rel)),
{
}

proof fn lemma_dot(name: Seq<char>, ext: Seq<char>)
    requires
        !ext.contains('.'),
    ensures
        crate::cli::last_dot(name + "."@ + ext) == Some(name.len() as int),
    decreases ext.len(),
{
    reveal_strlit(".");
    let s = name + "."@ + ext;
    if ext.len() > 0 {
        assert(ext.contains(ext.last()));
        assert(s.drop_last() =~= name + "."@ + ext.drop_last());
        assert forall|i: int| 0 <= i < ext.drop_last().len() implies ext.drop_last()[i] != '.' by {
            assert(ext.contains(ext[i]));
        }
        lemma_dot(name, ext.drop_last());
    }
}

/// A data file is a table or JSON by what follows the last dot of its name,
/// whatever the case; any other file is neither.
pub proof fn lemma_data_file_is_told_by_its_extension(path: Seq<char>, name: Seq<char>, ext: Seq<char>)
    requires
        crate::runner::resolve::file_name(path) == Some(name + "."@ + ext),
        name.len() > 0,
        !ext.contains('.'),
    ensures
        extension(path) == Some(ext),
        same_ignoring_case(ext, "csv"@) ==> data_kind(path) == Some(DataKind::Csv),
        same_ignoring_case(ext, "json"@) ==> data_kind(path) == Some(DataKind::Json),
        !same_ignoring_case(ext, "csv"@) && !same_ignoring_case(ext, "json"@) ==> data_kind(path) is None,
{
    reveal_strlit(".");
    reveal_strlit("csv");
    reveal_strlit("json");
    lemma_dot(name, ext);
    assert((name + "."@ + ext).skip(name.len() as int + 1) =~= ext);
    assert("csv"@.len() == 3 && "json"@.len() == 4);
}

/// The root of a project is the first directory with a project file.
pub proof fn lemma_first_directory_with_a_project_counts(dirs: Seq<Candidate>, i: int)
    requires
        0 <= i <= dirs.len(),
        forall|j: int| 0 <= j < i ==> !(#[trigger] dirs[j]).has_project,
    ensures
        i < dirs.len() && dirs[i].has_project ==> first_project(dirs) == Some(dirs[i].dir@),
        i == dirs.len() ==> first_project(dirs) is None,
    decreases dirs.len(),
{
    if i > 0 {
        assert(!dirs[0].has_project);
        let rest = dirs.skip(1);
        assert forall|j: int| 0 <= j < i - 1 implies !(#[trigger] rest[j]).has_project by {
            assert(rest[j] == dirs[j + 1]);
        }
        lemma_first_directory_with_a_project_counts(rest, i - 1);
    }
}

proof fn lemma_cut(a: Seq<char>, c: char, b: Seq<char>)
    requires
        !a.contains(c),
    ensures
        cut_at(a + seq![c] + b, seq![c]) == Some((a, b)),
{
    let s = a + seq![c] + b;
    let n = a.len() as int;
    assert(s.subrange(n, n + 1) =~= seq![c]);
    assert(occurs_at(s, seq![c], n));
    lemma_first_at(s, seq![c], 0);
    let k = first_at(s, seq![c], 0)->Some_0;
    assert(s.subrange(k, k + 1)[0] == c);
    if k < n {
        assert(a.contains(a[k]));
    }
    assert(s.take(n) =~= a);
    assert(s.skip(n + 1) =~= b);
}

/// A line `KEY=value` of a file of secrets sets that key, without white space
/// around either and without quotes around the value, and leaves every other
/// key. What follows the first `=` is all value. A later line counts.
pub proof fn lemma_line_sets_its_secret(lines: Seq<Seq<char>>, key: Seq<char>, value: Seq<char>, line: Seq<char>, other: Seq<char>)
    requires
        trimmed(line) == key + "="@ + value,
        !key.contains('='),
        key.len() > 0 ==> key[0] != '#',
        other != trimmed(key),
    ensures
        ({
            let before = env_local(lines, lines.len() as int);
            let after = env_local(lines.push(line), lines.len() as int + 1);
            &&& lookup(after, trimmed(key)) == Some(unquoted(trimmed(value)))
            &&& lookup(after, other) == lookup(before, other)
        }),
{
    reveal_strlit("=");
    reveal_strlit("#");
    assert("="@ =~= seq!['=']);
    let n = lines.len() as int;
    lemma_env_prefix(lines, line, n);
    lemma_cut(key, '=', value);
    let before = env_local(lines, n);
    lemma_put_is_read_back(before, trimmed(key), unquoted(trimmed(value)));
    lemma_put_leaves_others(before, trimmed(key), unquoted(trimmed(value)), other);
    let t = trimmed(line);
    if has_prefix(t, "#"@) {
        assert(t.subrange(0, 1)[0] == '#');
    }
    assert(lines.push(line)[n] == line);
}

/// A blank line, a comment, and a line without `=` set nothing.
pub proof fn lemma_other_lines_set_nothing(lines: Seq<Seq<char>>, line: Seq<char>)
    requires
        trimmed(line).len() == 0 || trimmed(line)[0] == '#' || !trimmed(line).contains('='),
    ensures
        env_local(lines.push(line), lines.len() as int + 1) == env_local(lines, lines.len() as int),
{
    reveal_strlit("=");
    reveal_strlit("#");
    let n = lines.len() as int;
    lemma_env_prefix(lines, line, n);
    let t = trimmed(line);
    assert(lines.push(line)[n] == line);
    if t.len() > 0 && t[0] == '#' {
        assert(t.subrange(0, 1) =~= "#"@);
    }
    lemma_first_at(t, "="@, 0);
    if let Some(k) = first_at(t, "="@, 0) {
        assert(t.subrange(k, k + 1)[0] == '=');
        assert(t.contains(t[k]));
    }
}

proof fn lemma_env_prefix(lines: Seq<Seq<char>>, line: Seq<char>, n: int)
    requires
        0 <= n <= lines.len(),
    ensures
        env_local(lines.push(line), n) == env_local(lines, n),
    decreases n,
{
    if n > 0 {
        lemma_env_prefix(lines, line, n - 1);
    }
}

/// Quotes around a value do not belong to it.
pub proof fn lemma_quotes_around_a_value_are_dropped(s: Seq<char>)
    requires
        s.len() > 0 ==> s[0] != '"' && s.last() != '"',
    ensures
        unquoted(s) == s,
        unquoted(seq!['"'] + s + seq!['"']) == s,
{
    let q = seq!['"'] + s + seq!['"'];
    reveal_with_fuel(unquoted, 4);
    assert(q.skip(1) =~= s + seq!['"']);
    if s.len() > 0 {
        assert(q.skip(1).drop_last() =~= s);
        assert(q.skip(1)[0] == s[0]);
    } else {
        assert(q.skip(1).skip(1) =~= s);
    }
}

proof fn lemma_metadata_prefix(entries: Seq<Seq<char>>, entry: Seq<char>, n: int)
    requires
        0 <= n <= entries.len(),
    ensures
        metadata(entries.push(entry), n) == metadata(entries, n),
    decreases n,
{
    if n > 0 {
        lemma_metadata_prefix(entries, entry, n - 1);
    }
}

/// A metadata entry `name: value` is read as that, in order; one without a colon
/// is the error.
pub proof fn lemma_metadata_is_read_in_order(
    entries: Seq<Seq<char>>,
    name: Seq<char>,
    value: Seq<char>,
    plain: Seq<char>,
)
    requires
        !name.contains(':'),
        !plain.contains(':'),
        metadata(entries, entries.len() as int) is Ok,
    ensures
        metadata(entries.push(name + ":"@ + value), entries.len() as int + 1) == Ok::<
            Seq<(Seq<char>, Seq<char>)>,
            Seq<char>,
        >(metadata(entries, entries.len() as int)->Ok_0.push((trimmed(name), trimmed(value)))),
        metadata(entries.push(plain), entries.len() as int + 1) == Err::<Seq<(Seq<char>, Seq<char>)>, Seq<char>>(plain),
{
    reveal_strlit(":");
    assert(":"@ =~= seq![':']);
    lemma_metadata_prefix(entries, name + ":"@ + value, entries.len() as int);
    lemma_metadata_prefix(entries, plain, entries.len() as int);
    lemma_cut(name, ':', value);
    lemma_first_at(plain, ":"@, 0);
    if let Some(k) = first_at(plain, ":"@, 0) {
        assert(plain.subrange(k, k + 1)[0] == ':');
        assert(plain.contains(plain[k]));
    }
}

// ---------------------------------------------------------------------
// Endings
// ---------------------------------------------------------------------

/// Several results end in an error where one does, else in a failure where one
/// does, else they pass. The exit code is two, one or nought.
pub proof fn lemma_worst_ending_counts(list: Seq<RunStatus>)
    ensures
        list.contains(RunStatus::Error) ==> worst_of(list) == RunStatus::Error && exit_code(worst_of(list)) == 2,
        !list.contains(RunStatus::Error) && list.contains(RunStatus::Failed) ==> worst_of(list) == RunStatus::Failed
            && exit_code(worst_of(list)) == 1,
        !list.contains(RunStatus::Error) && !list.contains(RunStatus::Failed) ==> worst_of(list) == RunStatus::Passed
            && exit_code(worst_of(list)) == 0,
    decreases list.len(),
{
    if list.len() > 0 {
        let less = list.drop_last();
        lemma_worst_ending_counts(less);
        assert forall|s: RunStatus| #[trigger] list.contains(s) == (less.contains(s) || list.last() == s) by {
            if less.contains(s) {
                let i = choose|i: int| 0 <= i < less.len() && less[i] == s;
                assert(list[i] == s);
            }
            if list.last() == s {
                assert(list[list.len() - 1] == s);
            }
            if list.contains(s) && list.last() != s {
                let i = choose|i: int| 0 <= i < list.len() && list[i] == s;
                assert(less[i] == s);
            }
        }
    }
}

/// What is wrong first keeps the run from starting: the lock file, the
/// environment, the document, the matrix. Where nothing is wrong it starts.
pub proof fn lemma_first_fault_refuses_the_run(
    frozen: Option<Result<Seq<DiagnosticV>, Seq<char>>>,
    env: Option<Seq<char>>,
    doc: Option<Seq<char>>,
    cases: Option<Seq<DiagnosticV>>,
)
    ensures
        ({
            let drifted = frozen matches Some(checked) && !(checked matches Ok(drifts) && drifts.len() == 0);
            &&& refusal(frozen, env, doc, cases) is None <==> !drifted && env is None && doc is None && cases is None
            &&& !drifted ==> (env matches Some(e) ==> refusal(frozen, env, doc, cases) == Some(
                seq![LineV::Note("error: "@ + e)],
            ))
            &&& !drifted && env is None ==> (doc matches Some(e) ==> refusal(frozen, env, doc, cases) == Some(
                seq![LineV::Note("error: "@ + e)],
            ))
            &&& drifted ==> (frozen matches Some(Err(message)) ==> refusal(frozen, env, doc, cases) == Some(
                seq![LineV::Note("error: --frozen: "@ + message)],
            ))
        }),
{
    if let Some(Ok(drifts)) = frozen {
        if drifts.len() > 0 {
            let lines = crate::listing::frozen_lines(Ok(drifts));
            assert(lines.len() > 0);
        }
    }
}

// ---------------------------------------------------------------------
// Lines
// ---------------------------------------------------------------------

proof fn lemma_assertion_lines(assertions: Seq<AssertionV>, n: int)
    requires
        0 <= n <= assertions.len(),
    ensures
        assertion_lines(assertions, n).len() == n,
        forall|i: int|
            0 <= i < n ==> #[trigger] assertion_lines(assertions, n)[i] == LineV::Out(
                "  "@ + (if assertions[i].passed {
                    "✓"@
                } else {
                    "✗"@
                }) + " "@ + assertions[i].message,
            ),
    decreases n,
{
    if n > 0 {
        lemma_assertion_lines(assertions, n - 1);
    }
}

proof fn lemma_runtime_lines(runtime: Seq<(Seq<char>, JsonV)>, n: int)
    requires
        0 <= n <= runtime.len(),
    ensures
        runtime_lines(runtime, n).len() == n,
        forall|i: int|
            0 <= i < n ==> #[trigger] runtime_lines(runtime, n)[i] == LineV::Out(
                "  → "@ + runtime[i].0 + " = "@ + printed(runtime[i].1),
            ),
    decreases n,
{
    if n > 0 {
        lemma_runtime_lines(runtime, n - 1);
    }
}

proof fn lemma_diagnostic_lines(diagnostics: Seq<DiagnosticV>, n: int)
    requires
        0 <= n <= diagnostics.len(),
    ensures
        diagnostic_lines(diagnostics, n).len() == n,
        forall|i: int|
            0 <= i < n ==> #[trigger] diagnostic_lines(diagnostics, n)[i] == LineV::Note(
                "  ["@ + diagnostics[i].code.name() + "] "@ + diagnostics[i].message,
            ),
    decreases n,
{
    if n > 0 {
        lemma_diagnostic_lines(diagnostics, n - 1);
    }
}

/// What is printed about a result: its name where there are several, its
/// response, a line for each assertion with its mark, for each value that was
/// written and for each diagnostic, and how it ended.
pub proof fn lemma_result_is_told_line_by_line(r: RunResultV)
    ensures
        ({
            let lines = result_lines(r, false);
            let first: int = if r.http is Some {
                1
            } else {
                0
            };
            let second = first + r.assertions.len();
            let third = second + r.runtime.len();
            let fourth = third + r.diagnostics.len();
            &&& lines.len() == fourth + 1
            &&& r.http matches Some(h) ==> lines[0] == LineV::Out(
                r.request_id + " — "@ + decimal(h.status as nat) + " ("@ + decimal(h.time_ms as nat) + " ms, "@ + decimal(
                    h.bytes as nat,
                ) + " bytes)"@,
            )
            &&& forall|i: int|
                0 <= i < r.assertions.len() ==> lines[first + i] == LineV::Out(
                    "  "@ + (if (#[trigger] r.assertions[i]).passed {
                        "✓"@
                    } else {
                        "✗"@
                    }) + " "@ + r.assertions[i].message,
                )
            &&& forall|i: int|
                0 <= i < r.runtime.len() ==> lines[second + i] == LineV::Out(
                    "  → "@ + (#[trigger] r.runtime[i]).0 + " = "@ + printed(r.runtime[i].1),
                )
            &&& forall|i: int|
                0 <= i < r.diagnostics.len() ==> lines[third + i] == LineV::Note(
                    "  ["@ + (#[trigger] r.diagnostics[i]).code.name() + "] "@ + r.diagnostics[i].message,
                )
            &&& lines.last() == LineV::Out(status_name(r.status))
        }),
        result_lines(r, true) == seq![LineV::Out("--- "@ + r.request_id)] + result_lines(r, false),
{
    lemma_assertion_lines(r.assertions, r.assertions.len() as int);
    lemma_runtime_lines(r.runtime, r.runtime.len() as int);
    lemma_diagnostic_lines(r.diagnostics, r.diagnostics.len() as int);
    let http = http_lines(r.request_id, r.http);
    let a = assertion_lines(r.assertions, r.assertions.len() as int);
    let b = runtime_lines(r.runtime, r.runtime.len() as int);
    let c = diagnostic_lines(r.diagnostics, r.diagnostics.len() as int);
    let lines = result_lines(r, false);
    let end = seq![LineV::Out(status_name(r.status))];
    assert(lines =~= http + a + b + c + end);
    assert forall|i: int| 0 <= i < r.assertions.len() implies lines[http.len() + i] == LineV::Out(
        "  "@ + (if (#[trigger] r.assertions[i]).passed {
            "✓"@
        } else {
            "✗"@
        }) + " "@ + r.assertions[i].message,
    ) by {
        assert(lines[http.len() + i] == a[i]);
    }
    assert forall|i: int| 0 <= i < r.runtime.len() implies lines[http.len() + a.len() + i] == LineV::Out(
        "  → "@ + (#[trigger] r.runtime[i]).0 + " = "@ + printed(r.runtime[i].1),
    ) by {
        assert(lines[http.len() + a.len() + i] == b[i]);
    }
    assert forall|i: int| 0 <= i < r.diagnostics.len() implies lines[http.len() + a.len() + b.len() + i] == LineV::Note(
        "  ["@ + (#[trigger] r.diagnostics[i]).code.name() + "] "@ + r.diagnostics[i].message,
    ) by {
        assert(lines[http.len() + a.len() + b.len() + i] == c[i]);
    }
    assert(result_lines(r, true) =~= seq![LineV::Out("--- "@ + r.request_id)] + result_lines(r, false));
}

/// Endings are told by their names.
pub proof fn lemma_endings_have_their_names()
    ensures
        status_name(RunStatus::Passed) == "Passed"@,
        status_name(RunStatus::Failed) == "Failed"@,
        status_name(RunStatus::Error) == "Error"@,
{
}

proof fn lemma_tree_prefix(nodes: Seq<TreeV>, node: TreeV, depth: nat, n: int)
    requires
        0 <= n <= nodes.len(),
    ensures
        tree_lines(nodes.push(node), depth, n) == tree_lines(nodes, depth, n),
    decreases n,
{
    if n > 0 {
        lemma_tree_prefix(nodes, node, depth, n - 1);
    }
}

/// A tree is listed in its order: a request by its method and name, a folder by
/// its name and below it, one step further in, what it holds.
pub proof fn lemma_tree_is_listed_in_order(
    nodes: Seq<TreeV>,
    depth: nat,
    request: RequestNodeV,
    meta: NodeMetaV,
    children: Seq<TreeV>,
)
    ensures
        tree_lines(nodes.push(TreeV::Request(request)), depth, nodes.len() as int + 1) == tree_lines(
            nodes,
            depth,
            nodes.len() as int,
        ).push(
            crate::cli::indent(depth) + "["@ + crate::cli::padded(request.def.method.name()) + "] "@ + request.def.name,
        ),
        tree_lines(nodes.push(TreeV::Folder { meta, children }), depth, nodes.len() as int + 1) == tree_lines(
            nodes,
            depth,
            nodes.len() as int,
        ).push(crate::cli::indent(depth) + meta.name + "/"@) + tree_lines(children, depth + 1, children.len() as int),
{
    let n = nodes.len() as int;
    lemma_tree_prefix(nodes, TreeV::Request(request), depth, n);
    lemma_tree_prefix(nodes, TreeV::Folder { meta, children }, depth, n);
    let before = tree_lines(nodes, depth, n);
    let line = crate::cli::indent(depth) + "["@ + crate::cli::padded(request.def.method.name()) + "] "@ + request.def.name;
    assert(before + seq![line] =~= before.push(line));
    let name = crate::cli::indent(depth) + meta.name + "/"@;
    let inner = tree_lines(children, depth + 1, children.len() as int);
    assert(before + (seq![name] + inner) =~= before.push(name) + inner);
}

/// A step further in is two spaces more; a method is padded with spaces to seven
/// characters.
pub proof fn lemma_lines_are_set_in(n: nat, s: Seq<char>)
    ensures
        crate::cli::indent(n).len() == 2 * n,
        forall|i: int| 0 <= i < 2 * n ==> #[trigger] crate::cli::indent(n)[i] == ' ',
        s.len() >= 7 ==> crate::cli::padded(s) == s,
        s.len() < 7 ==> crate::cli::padded(s).len() == 7 && crate::cli::padded(s).take(s.len() as int) == s && forall|i:
            int| s.len() <= i < 7 ==> #[trigger] crate::cli::padded(s)[i] == ' ',
    decreases n + 7 - (if s.len() < 7 {
        s.len()
    } else {
        7
    }),
{
    reveal_strlit("  ");
    if n > 0 {
        lemma_lines_are_set_in((n - 1) as nat, s);
    }
    if s.len() < 7 {
        if s.len() < 6 {
            lemma_lines_are_set_in(n, s.push(' '));
        }
        let p = crate::cli::padded(s.push(' '));
        assert(p.len() == 7);
        assert(p.take(s.len() as int + 1) =~= s.push(' '));
        assert forall|i: int| 0 <= i < s.len() implies p[i] == s[i] by {
            assert(p.take(s.len() as int + 1)[i] == s[i]);
        }
        assert(p.take(s.len() as int + 1)[s.len() as int] == ' ');
        assert(p.take(s.len() as int) =~= s);
    }
}

/// The secrets of an environment are counted one by one.
pub proof fn lemma_secrets_are_counted(vars: Seq<(Seq<char>, EnvVarV)>)
    ensures
        secrets_among(vars, vars.len() as int) == vars.filter(|v: (Seq<char>, EnvVarV)| v.1.secret).len(),
{
    lemma_secrets_prefix(vars, vars.len() as int);
    assert(vars.take(vars.len() as int) =~= vars);
}

proof fn lemma_secrets_prefix(vars: Seq<(Seq<char>, EnvVarV)>, n: int)
    requires
        0 <= n <= vars.len(),
    ensures
        secrets_among(vars, n) == vars.take(n).filter(|v: (Seq<char>, EnvVarV)| v.1.secret).len(),
    decreases n,
{
    reveal(Seq::filter);
    if n > 0 {
        lemma_secrets_prefix(vars, n - 1);
        assert(vars.take(n).drop_last() =~= vars.take(n - 1));
    }
}

proof fn lemma_placed_lines(diagnostics: Seq<DiagnosticV>, n: int)
    requires
        0 <= n <= diagnostics.len(),
    ensures
        crate::cli::placed_lines(diagnostics, n).len() == n,
        forall|i: int|
            0 <= i < n ==> #[trigger] crate::cli::placed_lines(diagnostics, n)[i] == LineV::Note(
                "  ["@ + diagnostics[i].code.name() + "] "@ + (match diagnostics[i].instance_path {
                    Some(p) => p,
                    None => seq![],
                }) + " "@ + diagnostics[i].message,
            ),
    decreases n,
{
    if n > 0 {
        lemma_placed_lines(diagnostics, n - 1);
    }
}

/// Of a document that is not valid every diagnostic is printed, with its code and
/// place, and how many there are.
pub proof fn lemma_every_diagnostic_is_printed(diagnostics: Seq<DiagnosticV>)
    ensures
        ({
            let lines = invalid_lines(diagnostics);
            &&& lines.len() == diagnostics.len() + 1
            &&& forall|i: int|
                0 <= i < diagnostics.len() ==> lines[i] == LineV::Note(
                    "  ["@ + (#[trigger] diagnostics[i]).code.name() + "] "@ + (match diagnostics[i].instance_path {
                        Some(p) => p,
                        None => seq![],
                    }) + " "@ + diagnostics[i].message,
                )
            &&& lines.last() == LineV::Note(decimal(diagnostics.len()) + " diagnostic(s)"@)
        }),
{
    lemma_placed_lines(diagnostics, diagnostics.len() as int);
    let lines = invalid_lines(diagnostics);
    let placed = crate::cli::placed_lines(diagnostics, diagnostics.len() as int);
    assert forall|i: int| 0 <= i < diagnostics.len() implies lines[i] == LineV::Note(
        "  ["@ + (#[trigger] diagnostics[i]).code.name() + "] "@ + (match diagnostics[i].instance_path {
            Some(p) => p,
            None => seq![],
        }) + " "@ + diagnostics[i].message,
    ) by {
        assert(lines[i] == placed[i]);
    }
}

/// Of a valid document its name, what it sends, and the number of its steps and
/// headers are printed.
pub proof fn lemma_valid_document_is_described(r: RequestV)
    ensures
        crate::cli::valid_lines(r) == seq![
            LineV::Out("ok: "@ + r.id + " ("@ + r.name + ")"@),
            LineV::Out("  "@ + r.method.name() + " "@ + r.url),
            LineV::Out(
                "  "@ + decimal(r.pipeline.len()) + " pipeline step(s), "@ + decimal(r.headers.len()) + " header(s)"@,
            ),
        ],
{
}

proof fn lemma_assets_prefix(assets: Seq<AssetRowV>, a: AssetRowV, n: int)
    requires
        0 <= n <= assets.len(),
    ensures
        asset_lines(assets.push(a), n) == asset_lines(assets, n),
    decreases n,
{
    if n > 0 {
        lemma_assets_prefix(assets, a, n - 1);
    }
}

/// Each asset has a line, in order, under a heading where its kind is a new one.
pub proof fn lemma_assets_are_listed_under_their_kind(assets: Seq<AssetRowV>, a: AssetRowV)
    ensures
        ({
            let n = assets.len() as int;
            let line = "  "@ + crate::gui::assets::asset_reference(a.alias, a.prefix_ref, a.rel_path) + "  ("@ + a.rel_path
                + ", used by "@ + decimal(a.used_by as nat) + ")"@;
            let before = asset_lines(assets, n);
            let after = asset_lines(assets.push(a), n + 1);
            &&& n > 0 && assets[n - 1].kind == a.kind ==> after == before.push(line)
            &&& n == 0 || assets[n - 1].kind != a.kind ==> after == before.push(a.kind + ":"@).push(line)
        }),
{
    let n = assets.len() as int;
    lemma_assets_prefix(assets, a, n);
    let line = "  "@ + crate::gui::assets::asset_reference(a.alias, a.prefix_ref, a.rel_path) + "  ("@ + a.rel_path
        + ", used by "@ + decimal(a.used_by as nat) + ")"@;
    let before = asset_lines(assets, n);
    let after = asset_lines(assets.push(a), n + 1);
    assert(assets.push(a)[n] == a);
    if n > 0 && assets[n - 1].kind == a.kind {
        assert(after =~= before.push(line));
    } else {
        assert(after =~= before.push(a.kind + ":"@).push(line));
    }
}

proof fn lemma_workspace_prefix(cols: Seq<CollectionV>, col: CollectionV, n: int)
    requires
        0 <= n <= cols.len(),
    ensures
        workspace_lines(cols.push(col), n) == workspace_lines(cols, n),
    decreases n,
{
    if n > 0 {
        lemma_workspace_prefix(cols, col, n - 1);
    }
}

/// Each collection is listed by its name, and below it, one step further in, what
/// it holds.
pub proof fn lemma_collections_are_listed_in_order(cols: Seq<CollectionV>, col: CollectionV)
    ensures
        workspace_lines(seq![], 0).len() == 0,
        workspace_lines(cols.push(col), cols.len() as int + 1) == workspace_lines(cols, cols.len() as int).push(
            col.meta.name + "/"@,
        ) + tree_lines(col.children, 1, col.children.len() as int),
{
    let n = cols.len() as int;
    lemma_workspace_prefix(cols, col, n);
    let before = workspace_lines(cols, n);
    let name = col.meta.name + "/"@;
    assert(cols.push(col)[n] == col);
    assert(before + seq![name] =~= before.push(name));
}

// ---------------------------------------------------------------------
// The mock server
// ---------------------------------------------------------------------

/// A mock server sends what the mock of the route gives, `404` where there is no
/// route, and `500` with the reason where something went wrong.
pub proof fn lemma_mock_server_answers(served: Result<Option<ResponseV>, Seq<char>>, route: RouteV)
    ensures
        served matches Ok(Some(r)) ==> mock_answer(served) == r,
        served matches Ok(None) ==> mock_answer(served).status == 404,
        served matches Err(e) ==> mock_answer(served).status == 500 && mock_answer(served).body
            == vstd::utf8::encode_utf8(e),
        answers(route, route.method, route.path),
        forall|method: Seq<char>, path: Seq<char>| #[trigger]
            answers(route, method, path) ==> method == route.method && path == route.path,
{
}

// ---------------------------------------------------------------------
// The order of children
// ---------------------------------------------------------------------

proof fn lemma_listed_exact(names: Seq<Seq<char>>, order: Seq<Seq<char>>, n: int)
    requires
        0 <= n <= order.len(),
        forall|j: int| 0 <= j < n ==> names.contains(#[trigger] order[j]),
        forall|i: int, j: int| 0 <= i < j < order.len() ==> #[trigger] order[i] != #[trigger] order[j],
    ensures
        listed(names, order, n) == order.take(n),
    decreases n,
{
    if n > 0 {
        lemma_listed_exact(names, order, n - 1);
        let before = listed(names, order, n - 1);
        assert(names.contains(order[n - 1]));
        if before.contains(order[n - 1]) {
            let i = choose|i: int| 0 <= i < before.len() && before[i] == order[n - 1];
            assert(before[i] == order[i]);
        }
        assert(order.take(n) =~= order.take(n - 1).push(order[n - 1]));
    } else {
        assert(order.take(0) =~= Seq::empty());
    }
}

/// Children that are all there come first in the order that is written, each in
/// the place that it has there.
pub proof fn lemma_written_order_comes_first(names: Seq<Seq<char>>, order: Seq<Seq<char>>, k: int)
    requires
        0 <= k < order.len(),
        forall|j: int| 0 <= j < order.len() ==> names.contains(#[trigger] order[j]),
        forall|i: int, j: int| 0 <= i < j < order.len() ==> #[trigger] order[i] != #[trigger] order[j],
    ensures
        arranged(names, order).len() >= order.len(),
        arranged(names, order)[k] == order[k],
{
    lemma_listed_exact(names, order, order.len() as int);
    assert(order.take(order.len() as int) =~= order);
}

} // verus!
