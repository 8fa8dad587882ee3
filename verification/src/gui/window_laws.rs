//! What holds of the windows: tabs, runs in front, the log, the tree of
//! collections, the state of files, and settings.

use vstd::prelude::*;

use crate::model::request::RequestDefV;
use crate::model::workspace::SettingsV;
use crate::model::Method;
use crate::paths::{lies_under, same_path};
use crate::runner::run::{CheckedV, OutcomeV, RequestOutcome, RunEvent, RunSummary};
use crate::store::{named_environment, stored_request, CollectionV, LoadedV, NodeMetaV, RequestNodeV, TreeV};
use crate::vars::environment_layer;
use crate::words::{decimal, trimmed};

use super::app::{
    all_saved, answered, event_lines, failed_among, outcome_line, released, run_after, save_status, status_after,
    LogLevel,
};
use super::collections::{change_of, collection_rows, is_collapsed, rel_id, renamed, tree_rows, ChangeV, PendingV, RowKind, RowV};
use super::git::{code_status, dir_status, file_status, path_status, FileStatus};
use super::local::reopened;
use super::request_editor::env_values;
use super::settings::{draft_of, settings_of, DraftV};
use super::state::{opened, tab_position, AppV, RunState, TabV};

verus! {

broadcast use vstd::string::group_string_axioms;

// ---------------------------------------------------------------------
// Tabs
// ---------------------------------------------------------------------

proof fn lemma_position_from(tabs: Seq<TabV>, rel: Seq<char>, from: int, i: int)
    requires
        0 <= from <= i <= tabs.len(),
        forall|j: int| from <= j < i ==> (#[trigger] tabs[j]).rel_id != rel,
    ensures
        i < tabs.len() && tabs[i].rel_id == rel ==> tab_position(tabs, rel, from) == Some(i),
        i == tabs.len() ==> tab_position(tabs, rel, from) is None,
    decreases i - from,
{
    if from < i {
        assert(tabs[from].rel_id != rel);
        lemma_position_from(tabs, rel, from + 1, i);
    }
}

proof fn lemma_position_is_a_tab(tabs: Seq<TabV>, rel: Seq<char>, from: int)
    requires
        0 <= from,
    ensures
        tab_position(tabs, rel, from) matches Some(i) ==> 0 <= i < tabs.len() && tabs[i].rel_id == rel,
    decreases tabs.len() - from,
{
    if from < tabs.len() {
        lemma_position_is_a_tab(tabs, rel, from + 1);
    }
}

/// The tab of a request is the first with its place, and there is none where no
/// tab has it.
pub proof fn lemma_first_tab_of_a_request_counts(tabs: Seq<TabV>, rel: Seq<char>, i: int)
    requires
        0 <= i <= tabs.len(),
        forall|j: int| 0 <= j < i ==> (#[trigger] tabs[j]).rel_id != rel,
    ensures
        i < tabs.len() && tabs[i].rel_id == rel ==> tab_position(tabs, rel, 0) == Some(i),
        i == tabs.len() ==> tab_position(tabs, rel, 0) is None,
{
    lemma_position_from(tabs, rel, 0, i);
}

/// A request that is opened is in front. Where it has a tab, that one comes to
/// the front as it is; else a tab comes last, unchanged and without an answer.
pub proof fn lemma_opened_request_is_in_front(app: AppV, rel: Seq<char>, def: RequestDefV)
    requires
        app.tabs.len() < usize::MAX,
    ensures
        tab_position(app.tabs, rel, 0) matches Some(i) ==> opened(app, rel, def).tabs == app.tabs && opened(
            app,
            rel,
            def,
        ).active_tab == Some(i as usize),
        tab_position(app.tabs, rel, 0) is None ==> {
            let after = opened(app, rel, def);
            &&& after.tabs.len() == app.tabs.len() + 1
            &&& after.tabs.drop_last() == app.tabs
            &&& after.tabs.last().rel_id == rel && after.tabs.last().def == def && !after.tabs.last().dirty
                && after.tabs.last().run_id is None && after.tabs.last().response is None
            &&& after.active_tab == Some(app.tabs.len() as usize)
        },
        opened(app, rel, def).theme == app.theme && opened(app, rel, def).active_env == app.active_env,
{
    if tab_position(app.tabs, rel, 0) is None {
        assert(opened(app, rel, def).tabs.drop_last() =~= app.tabs);
    }
}

/// The tab of a request that was renamed has the new place and name; all else
/// of it, and every other tab, stays.
pub proof fn lemma_renamed_request_keeps_its_tab(
    tabs: Seq<TabV>,
    old_rel: Seq<char>,
    new_rel: Seq<char>,
    name: Seq<char>,
    i: int,
)
    requires
        0 <= i < tabs.len(),
    ensures
        renamed(tabs, old_rel, new_rel, name).len() == tabs.len(),
        tab_position(tabs, old_rel, 0) == Some(i) ==> {
            let after = renamed(tabs, old_rel, new_rel, name)[i];
            after.rel_id == new_rel && after.def.name == name && after.def.url == tabs[i].def.url && after.def.method
                == tabs[i].def.method && after.dirty == tabs[i].dirty && after.response == tabs[i].response
                && after.run_id == tabs[i].run_id
        },
        tab_position(tabs, old_rel, 0) != Some(i) ==> renamed(tabs, old_rel, new_rel, name)[i] == tabs[i],
{
    lemma_position_is_a_tab(tabs, old_rel, 0);
}

/// Tabs that were saved are no longer changed; one that could not be saved, and
/// one that was not tried, stays as it was.
pub proof fn lemma_saved_tabs_are_clean(tabs: Seq<TabV>, written: Seq<Result<(), Seq<char>>>, n: int, i: int)
    requires
        0 <= i < tabs.len(),
        0 <= n <= written.len(),
    ensures
        all_saved(tabs, written, n).len() == tabs.len(),
        i < n && written[i] is Ok ==> !all_saved(tabs, written, n)[i].dirty && all_saved(tabs, written, n)[i].def
            == tabs[i].def && all_saved(tabs, written, n)[i].rel_id == tabs[i].rel_id,
        i >= n || written[i] is Err ==> all_saved(tabs, written, n)[i] == tabs[i],
{
}

/// The status line says that a tab was saved, or why it was not.
pub proof fn lemma_status_tells_of_the_save(tab: TabV, written: Result<(), Seq<char>>)
    ensures
        written is Ok ==> save_status(tab, written) == ("Saved "@ + tab.def.name, false),
        written matches Err(e) ==> save_status(tab, written) == (e, true),
{
}

// ---------------------------------------------------------------------
// Runs
// ---------------------------------------------------------------------

/// The answer of a request is shown in its tab, which is then no longer in that
/// run; every other tab stays.
pub proof fn lemma_answer_is_shown_in_its_tab(tabs: Seq<TabV>, o: OutcomeV, run_id: u64, i: int)
    requires
        0 <= i < tabs.len(),
    ensures
        answered(tabs, o, run_id).len() == tabs.len(),
        tab_position(tabs, o.id, 0) == Some(i) ==> {
            let after = answered(tabs, o, run_id)[i];
            &&& after.response == Some(o)
            &&& tabs[i].run_id == Some(run_id) ==> after.run_id is None
            &&& tabs[i].run_id != Some(run_id) ==> after.run_id == tabs[i].run_id
            &&& after.def == tabs[i].def && after.dirty == tabs[i].dirty && after.rel_id == tabs[i].rel_id
        },
        tab_position(tabs, o.id, 0) != Some(i) ==> answered(tabs, o, run_id)[i] == tabs[i],
{
    lemma_position_is_a_tab(tabs, o.id, 0);
}

/// Once a run is over no tab is in it; tabs in another run stay there.
pub proof fn lemma_run_over_leaves_no_tab_in_it(tabs: Seq<TabV>, run_id: u64, i: int)
    requires
        0 <= i < tabs.len(),
    ensures
        released(tabs, run_id).len() == tabs.len(),
        tabs[i].run_id == Some(run_id) ==> released(tabs, run_id)[i].run_id is None,
        tabs[i].run_id != Some(run_id) ==> released(tabs, run_id)[i] == tabs[i],
        released(tabs, run_id)[i].response == tabs[i].response && released(tabs, run_id)[i].dirty == tabs[i].dirty,
{
}

/// The run in front learns how many requests it has when it starts, counts one
/// more with each that finishes, and is over when it finishes.
pub proof fn lemma_run_in_front_is_counted(state: RunState, run_id: u64, event: RunEvent)
    requires
        state.run_id == Some(run_id),
        state.completed < usize::MAX,
    ensures
        event matches RunEvent::RunStarted { total, .. } ==> run_after(state, run_id, event).total == total && run_after(
            state,
            run_id,
            event,
        ).completed == state.completed && run_after(state, run_id, event).run_id == Some(run_id),
        event is RequestFinished ==> run_after(state, run_id, event).completed == state.completed + 1 && run_after(
            state,
            run_id,
            event,
        ).total == state.total && run_after(state, run_id, event).run_id == Some(run_id),
        event is RunFinished ==> run_after(state, run_id, event).run_id is None,
        event is IterationStarted || event is RequestStarted ==> run_after(state, run_id, event) == state,
{
}

/// The failed assertions are those that did not pass.
pub proof fn lemma_failed_assertions_are_counted(assertions: Seq<CheckedV>)
    ensures
        failed_among(assertions, assertions.len() as int) == assertions.filter(|a: CheckedV| !a.passed).len(),
{
    lemma_failed_prefix(assertions, assertions.len() as int);
    assert(assertions.take(assertions.len() as int) =~= assertions);
}

proof fn lemma_failed_prefix(assertions: Seq<CheckedV>, n: int)
    requires
        0 <= n <= assertions.len(),
    ensures
        failed_among(assertions, n) == assertions.take(n).filter(|a: CheckedV| !a.passed).len(),
    decreases n,
{
    reveal(Seq::filter);
    if n > 0 {
        lemma_failed_prefix(assertions, n - 1);
        assert(assertions.take(n).drop_last() =~= assertions.take(n - 1));
    }
}

/// A finished request is logged: an error where it was not answered, a warning
/// where assertions failed, else its status and time.
pub proof fn lemma_finished_request_is_logged(o: RequestOutcome)
    ensures
        o.result is Err ==> outcome_line(o).0 == LogLevel::Error,
        o.result is Ok && failed_among(o@.assertions, o@.assertions.len() as int) > 0 ==> outcome_line(o).0 == LogLevel::Warn,
        o.result is Ok && failed_among(o@.assertions, o@.assertions.len() as int) == 0 ==> outcome_line(o).0
            == LogLevel::Info,
{
}

/// A run that finishes is logged and told in the status line, as an error where
/// a request failed; a run that is not in front is not.
pub proof fn lemma_finished_run_is_told(
    status: Option<(Seq<char>, bool)>,
    state: RunState,
    run_id: u64,
    summary: RunSummary,
)
    ensures
        ({
            let event = RunEvent::RunFinished(summary);
            let text = "Run finished: "@ + decimal(summary.passed as nat) + "/"@ + decimal(summary.total as nat) + " passed"@;
            &&& state.run_id == Some(run_id) ==> status_after(status, state, run_id, event) == Some(
                (text, summary.failed > 0),
            ) && event_lines(state, run_id, event) == seq![
                (
                    if summary.failed > 0 {
                        LogLevel::Error
                    } else {
                        LogLevel::Info
                    },
                    text,
                ),
            ]
            &&& state.run_id != Some(run_id) ==> status_after(status, state, run_id, event) == status && event_lines(
                state,
                run_id,
                event,
            ).len() == 0
        }),
{
}

// ---------------------------------------------------------------------
// The tree of collections
// ---------------------------------------------------------------------

proof fn lemma_rows_prefix(nodes: Seq<TreeV>, node: TreeV, root: Seq<char>, depth: nat, collapsed: Seq<Seq<char>>, n: int)
    requires
        0 <= n <= nodes.len(),
    ensures
        tree_rows(nodes.push(node), root, depth, collapsed, n) == tree_rows(nodes, root, depth, collapsed, n),
    decreases n,
{
    if n > 0 {
        lemma_rows_prefix(nodes, node, root, depth, collapsed, n - 1);
    }
}

/// Each node has a row, in the order of the tree, and what a folder holds comes
/// behind it, one step deeper, unless the folder is collapsed.
pub proof fn lemma_rows_follow_the_tree(
    nodes: Seq<TreeV>,
    root: Seq<char>,
    depth: nat,
    collapsed: Seq<Seq<char>>,
    request: RequestNodeV,
    meta: NodeMetaV,
    children: Seq<TreeV>,
)
    ensures
        ({
            let n = nodes.len() as int;
            let before = tree_rows(nodes, root, depth, collapsed, n);
            let one = tree_rows(nodes.push(TreeV::Request(request)), root, depth, collapsed, n + 1);
            let more = tree_rows(nodes.push(TreeV::Folder { meta, children }), root, depth, collapsed, n + 1);
            let folded = exists|i: int| 0 <= i < collapsed.len() && same_path(#[trigger] collapsed[i], meta.dir);
            let row = RowV {
                path: meta.dir,
                rel_id: rel_id(root, meta.dir),
                depth,
                name: meta.name,
                kind: RowKind::Folder,
            };
            &&& one == before.push(
                RowV {
                    path: request.file,
                    rel_id: rel_id(root, request.file),
                    depth,
                    name: request.def.name,
                    kind: RowKind::Request { method: request.def.method },
                },
            )
            &&& folded ==> more == before.push(row)
            &&& !folded ==> more == before.push(row) + tree_rows(
                children,
                root,
                depth + 1,
                collapsed,
                children.len() as int,
            )
        }),
{
    let n = nodes.len() as int;
    lemma_rows_prefix(nodes, TreeV::Request(request), root, depth, collapsed, n);
    lemma_rows_prefix(nodes, TreeV::Folder { meta, children }, root, depth, collapsed, n);
    assert(nodes.push(TreeV::Request(request))[n] == TreeV::Request(request));
    assert(nodes.push(TreeV::Folder { meta, children })[n] == TreeV::Folder { meta, children });
    assert(is_collapsed(collapsed, meta.dir) == exists|i: int|
        0 <= i < collapsed.len() && same_path(#[trigger] collapsed[i], meta.dir));
}

/// What a dialog asked for is done once it is confirmed. What is created or
/// renamed has the name from the field, without white space around it, and
/// without a name nothing is done. What is deleted needs none.
pub proof fn lemma_confirmed_dialog_makes_its_change(input: Seq<char>, root: Seq<char>, place: Seq<char>, old: Seq<char>)
    ensures
        change_of(PendingV::DeleteDir(place, old), input, Some(root)) == Some(ChangeV::DeleteDir { dir: place }),
        change_of(PendingV::DeleteRequest(place, old), input, Some(root)) == Some(ChangeV::DeleteRequest { file: place }),
        trimmed(input).len() == 0 ==> change_of(PendingV::NewCollection, input, Some(root)) is None && change_of(
            PendingV::NewFolder(place),
            input,
            Some(root),
        ) is None && change_of(PendingV::NewRequest(place), input, Some(root)) is None && change_of(
            PendingV::RenameFolder(place, old),
            input,
            Some(root),
        ) is None && change_of(PendingV::RenameRequest(place, old), input, Some(root)) is None,
        trimmed(input).len() > 0 ==> {
            let name = trimmed(input);
            &&& change_of(PendingV::NewCollection, input, Some(root)) == Some(ChangeV::CreateCollection { root, name })
            &&& change_of(PendingV::NewCollection, input, None) is None
            &&& change_of(PendingV::NewFolder(place), input, Some(root)) == Some(
                ChangeV::CreateFolder { parent: place, name },
            )
            &&& change_of(PendingV::NewRequest(place), input, Some(root)) matches Some(
                ChangeV::CreateRequest { parent, def },
            ) && parent == place && def.name == name && def.method == Method::Get
            &&& change_of(PendingV::RenameFolder(place, old), input, Some(root)) == Some(
                ChangeV::RenameFolder { dir: place, name },
            )
            &&& change_of(PendingV::RenameRequest(place, old), input, Some(root)) == Some(
                ChangeV::RenameRequest { file: place, name },
            )
        },
{
}

// ---------------------------------------------------------------------
// The state of files
// ---------------------------------------------------------------------

/// A file is untracked, in conflict, added or modified by its two letters.
pub proof fn lemma_letters_tell_the_status(code: Seq<char>)
    ensures
        code == "??"@ ==> code_status(code) == FileStatus::Untracked,
        code != "??"@ && code.contains('U') ==> code_status(code) == FileStatus::Conflicted,
        !code.contains('U') && (code == "A "@ || code == "AM"@) ==> code_status(code) == FileStatus::Added,
        code != "??"@ && !code.contains('U') && code != "A "@ && code != "AM"@ ==> code_status(code) == FileStatus::Modified,
{
    reveal_strlit("??");
    reveal_strlit("A ");
    reveal_strlit("AM");
    assert("??"@[0] == '?' && "A "@[0] == 'A' && "AM"@[0] == 'A');
}

proof fn lemma_status_from(files: Seq<(Seq<char>, FileStatus)>, path: Seq<char>, from: int, i: int)
    requires
        0 <= from <= i <= files.len(),
        forall|j: int| from <= j < i ==> !same_path((#[trigger] files[j]).0, path),
    ensures
        i < files.len() && same_path(files[i].0, path) ==> file_status(files, path, from) == Some(files[i].1),
        i == files.len() ==> file_status(files, path, from) is None,
    decreases i - from,
{
    if from < i {
        assert(!same_path(files[from].0, path));
        lemma_status_from(files, path, from + 1, i);
    }
}

proof fn lemma_dir(files: Seq<(Seq<char>, FileStatus)>, dir: Seq<char>, n: int)
    requires
        0 <= n <= files.len(),
    ensures
        dir_status(files, dir, n) is None <==> forall|j: int| 0 <= j < n ==> !lies_under((#[trigger] files[j]).0, dir),
        dir_status(files, dir, n) == Some(FileStatus::Conflicted) <==> exists|j: int|
            0 <= j < n && lies_under((#[trigger] files[j]).0, dir) && files[j].1 == FileStatus::Conflicted,
        dir_status(files, dir, n) == Some(FileStatus::Modified) <==> (exists|j: int|
            0 <= j < n && lies_under((#[trigger] files[j]).0, dir) && files[j].1 == FileStatus::Modified) && !(exists|j:
            int| 0 <= j < n && lies_under((#[trigger] files[j]).0, dir) && files[j].1 == FileStatus::Conflicted),
    decreases n,
{
    if n > 0 {
        lemma_dir(files, dir, n - 1);
        if lies_under(files[n - 1].0, dir) {
            if files[n - 1].1 == FileStatus::Conflicted {
                assert(files[n - 1].1 == FileStatus::Conflicted);
            }
            if files[n - 1].1 == FileStatus::Modified {
                assert(files[n - 1].1 == FileStatus::Modified);
            }
        }
    }
}

/// A file shows its own status. A directory shows a conflict where a file below
/// it has one, else a change where one is changed, and nothing where no file
/// below it has a status.
pub proof fn lemma_directory_shows_the_worst_below(files: Seq<(Seq<char>, FileStatus)>, path: Seq<char>, i: int)
    requires
        0 <= i <= files.len(),
        forall|j: int| 0 <= j < i ==> !same_path((#[trigger] files[j]).0, path),
    ensures
        i < files.len() && same_path(files[i].0, path) ==> path_status(files, path) == Some(files[i].1),
        i == files.len() ==> {
            let conflict = exists|j: int|
                0 <= j < files.len() && lies_under((#[trigger] files[j]).0, path) && files[j].1 == FileStatus::Conflicted;
            let change = exists|j: int|
                0 <= j < files.len() && lies_under((#[trigger] files[j]).0, path) && files[j].1 == FileStatus::Modified;
            &&& conflict <==> path_status(files, path) == Some(FileStatus::Conflicted)
            &&& change && !conflict <==> path_status(files, path) == Some(FileStatus::Modified)
            &&& path_status(files, path) is None <==> forall|j: int|
                0 <= j < files.len() ==> !lies_under((#[trigger] files[j]).0, path)
        },
{
    lemma_status_from(files, path, 0, i);
    lemma_dir(files, path, files.len() as int);
}

proof fn lemma_arrow(s: Seq<char>, from: int, at: int)
    requires
        0 <= at <= from,
        crate::text::occurs_at(s, " -> "@, at),
        forall|k: int| at < k <= from ==> !#[trigger] crate::text::occurs_at(s, " -> "@, k),
    ensures
        super::git::after_arrow(s, from) == at + 4,
    decreases from - at,
{
    if at < from {
        assert(!crate::text::occurs_at(s, " -> "@, from));
        lemma_arrow(s, from - 1, at);
    }
}

/// A line of the status is about the path behind its two letters; of a rename it
/// is about the new name, which stands behind the last arrow.
pub proof fn lemma_rename_is_about_the_new_name(old: Seq<char>, new: Seq<char>)
    requires
        crate::filling_laws::bare(old),
        old.len() > 0,
        crate::filling_laws::bare(new),
        new.len() > 0,
        new[0] != '"' && new.last() != '"',
        forall|k: int| k > old.len() ==> !#[trigger] crate::text::occurs_at(old + " -> "@ + new, " -> "@, k),
    ensures
        super::git::line_path(seq![' '] + old + " -> "@ + new) == new,
{
    reveal_strlit(" -> ");
    let s = old + " -> "@ + new;
    let n = old.len() as int;
    assert(seq![' '] + old + " -> "@ + new =~= seq![' '] + s);
    crate::filling_laws::lemma_trim_takes_the_space_around(seq![' '], s, Seq::empty());
    assert((seq![' '] + s).skip(1) =~= s);
    assert(crate::words::trimmed_start(s) == s);
    assert(crate::words::trimmed_start(seq![' '] + s) == s);
    assert(s.subrange(n, n + 4) =~= " -> "@);
    lemma_arrow(s, s.len() as int, n);
    assert(s.skip(n + 4) =~= new);
    crate::filling_laws::lemma_trim_takes_the_space_around(Seq::empty(), new, Seq::empty());
    assert(Seq::<char>::empty() + new + Seq::<char>::empty() =~= new);
}

/// The status is read again when it is asked for, where it was never read, and
/// once it is older than four seconds.
pub proof fn lemma_status_is_read_again_in_time(state: super::git::GitState, now: u64)
    ensures
        state.is_due(now, true),
        state.last_refresh is None ==> state.is_due(now, false),
        state.last_refresh matches Some(t) ==> (state.is_due(now, false) <==> now > t + 4000),
{
}

// ---------------------------------------------------------------------
// Environments and remembered tabs
// ---------------------------------------------------------------------

/// The values of an environment are those of the one of that name; without a
/// name, or where there is none of it, there are none.
pub proof fn lemma_values_are_those_of_the_environment(environments: Seq<LoadedV>, name: Seq<char>)
    ensures
        env_values(environments, None).len() == 0,
        match named_environment(environments, name, 0) {
            Some(e) => env_values(environments, Some(name)) == environment_layer(e.env.variables, e.secrets),
            None => env_values(environments, Some(name)).len() == 0,
        },
{
}

proof fn lemma_reopened_prefix(app: AppV, cols: Seq<CollectionV>, names: Seq<Seq<char>>, name: Seq<char>, n: int)
    requires
        0 <= n <= names.len(),
    ensures
        reopened(app, cols, names.push(name), n) == reopened(app, cols, names, n),
    decreases n,
{
    if n > 0 {
        lemma_reopened_prefix(app, cols, names, name, n - 1);
    }
}

/// Remembered requests are opened again in their order; one that is no longer
/// stored is passed over.
pub proof fn lemma_remembered_requests_are_opened_again(
    app: AppV,
    cols: Seq<CollectionV>,
    names: Seq<Seq<char>>,
    name: Seq<char>,
)
    ensures
        reopened(app, cols, seq![], 0) == app,
        match stored_request(cols, name) {
            Some(node) => reopened(app, cols, names.push(name), names.len() as int + 1) == opened(
                reopened(app, cols, names, names.len() as int),
                name,
                node.def,
            ),
            None => reopened(app, cols, names.push(name), names.len() as int + 1) == reopened(
                app,
                cols,
                names,
                names.len() as int,
            ),
        },
{
    lemma_reopened_prefix(app, cols, names, name, names.len() as int);
}

proof fn lemma_collection_rows_prefix(
    cols: Seq<CollectionV>,
    col: CollectionV,
    root: Seq<char>,
    collapsed: Seq<Seq<char>>,
    n: int,
)
    requires
        0 <= n <= cols.len(),
    ensures
        collection_rows(cols.push(col), root, collapsed, n) == collection_rows(cols, root, collapsed, n),
    decreases n,
{
    if n > 0 {
        lemma_collection_rows_prefix(cols, col, root, collapsed, n - 1);
    }
}

/// Each collection has a row, in order, and what it holds comes behind it unless
/// it is collapsed.
pub proof fn lemma_rows_follow_the_collections(
    cols: Seq<CollectionV>,
    col: CollectionV,
    root: Seq<char>,
    collapsed: Seq<Seq<char>>,
)
    ensures
        ({
            let n = cols.len() as int;
            let folded = exists|i: int| 0 <= i < collapsed.len() && same_path(#[trigger] collapsed[i], col.meta.dir);
            let row = RowV {
                path: col.meta.dir,
                rel_id: rel_id(root, col.meta.dir),
                depth: 0,
                name: col.meta.name,
                kind: RowKind::Collection,
            };
            let before = collection_rows(cols, root, collapsed, n);
            let after = collection_rows(cols.push(col), root, collapsed, n + 1);
            &&& folded ==> after == before.push(row)
            &&& !folded ==> after == before.push(row) + tree_rows(
                col.children,
                root,
                1,
                collapsed,
                col.children.len() as int,
            )
        }),
{
    lemma_collection_rows_prefix(cols, col, root, collapsed, cols.len() as int);
    assert(cols.push(col)[cols.len() as int] == col);
    assert(is_collapsed(collapsed, col.meta.dir) == exists|i: int|
        0 <= i < collapsed.len() && same_path(#[trigger] collapsed[i], col.meta.dir));
}

// ---------------------------------------------------------------------
// Settings
// ---------------------------------------------------------------------

/// The settings of a draft are what stands in its fields; the proxy counts where
/// it is switched on, and an empty user agent is none.
pub proof fn lemma_settings_are_what_the_draft_says(d: DraftV)
    ensures
        ({
            let s = settings_of(d);
            &&& s.timeout_ms == d.timeout_ms && s.follow_redirects == d.follow_redirects && s.max_redirects
                == d.max_redirects && s.verify_tls == d.verify_tls
            &&& d.proxy_enabled ==> (s.proxy matches Some(p) && p.url == d.proxy_url && p.no_proxy == d.proxy_no_proxy)
            &&& !d.proxy_enabled ==> s.proxy is None
            &&& d.user_agent.len() == 0 ==> s.user_agent is None
            &&& d.user_agent.len() > 0 ==> s.user_agent == Some(d.user_agent)
        }),
{
}

/// The draft of settings shows each of them in its field.
pub proof fn lemma_draft_shows_the_settings(s: SettingsV)
    ensures
        ({
            let d = draft_of(s);
            &&& d.timeout_ms == s.timeout_ms && d.follow_redirects == s.follow_redirects && d.max_redirects
                == s.max_redirects && d.verify_tls == s.verify_tls
            &&& s.proxy matches Some(p) ==> d.proxy_enabled && d.proxy_url == p.url && d.proxy_no_proxy == p.no_proxy
            &&& s.proxy is None ==> !d.proxy_enabled
            &&& s.user_agent matches Some(a) ==> d.user_agent == a
        }),
{
}

} // verus!
