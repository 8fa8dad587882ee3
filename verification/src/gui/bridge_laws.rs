//! What holds of the work behind the windows: connections, cookies, assets and
//! documents.

use vstd::prelude::*;

use crate::exec::text_pairs;
use crate::json::{printed, JsonV};
use crate::reqv1::diag::DiagnosticV;
use crate::reqv1::ir::RequestV;
use crate::reqv1::runner::{RunResultV, RunStatus};
use crate::runner::resolve::url_parsed;
use crate::selection::{lemma_picks_more, lemma_picks_none, picks};
use crate::text::replaced;
use crate::words::{decimal, split_on};

use super::assets::{asset_line, asset_reference, child_names, value_line, AssetKind, AssetV};
use super::bridge::{
    actions_for, date_text, jar_after_one, restored, set_cookie, state_after, state_after_task, ActionV, BridgeV, Cmd,
    CookieV, TaskEvent,
};
use super::local::{captured, theme_or};
use super::nodes::{browser_text, held_by, palette_text, HeldV, NodeRowV};
use super::request_editor::{prefix_set, prefix_shown, text_set};
use super::state::AppV;
use super::theme::ThemeKind;
use super::v1_editor::{ending_label, snippet, strip_lines, validation_lines};

verus! {

broadcast use vstd::string::group_string_axioms;

// ---------------------------------------------------------------------
// Commands
// ---------------------------------------------------------------------

/// A run or a connection that is known can be cancelled, written to and closed;
/// for one that is not known nothing is done.
pub proof fn lemma_only_what_is_known_is_touched(state: BridgeV, cmd: Cmd)
    ensures
        cmd matches Cmd::Cancel { run_id } ==> (state.runs.contains(run_id) ==> actions_for(state, cmd) == seq![
            ActionV::CancelRun(run_id),
        ]) && (!state.runs.contains(run_id) ==> actions_for(state, cmd).len() == 0),
        cmd matches Cmd::WsSend { conn_id, msg } ==> (state.sockets.contains(conn_id) ==> actions_for(state, cmd) == seq![
            ActionV::SendWs(conn_id, msg@),
        ]) && (!state.sockets.contains(conn_id) ==> actions_for(state, cmd).len() == 0),
        cmd matches Cmd::WsClose { conn_id } ==> (state.sockets.contains(conn_id) ==> actions_for(state, cmd) == seq![
            ActionV::CloseWs(conn_id),
        ]) && (!state.sockets.contains(conn_id) ==> actions_for(state, cmd).len() == 0),
        cmd matches Cmd::SseClose { conn_id } ==> (state.streams.contains(conn_id) ==> actions_for(state, cmd) == seq![
            ActionV::CancelSse(conn_id),
        ]) && (!state.streams.contains(conn_id) ==> actions_for(state, cmd).len() == 0),
{
}

/// What is asked for is begun: a run, a connection, a stream, a call.
pub proof fn lemma_what_is_asked_for_is_begun(state: BridgeV, cmd: Cmd)
    ensures
        cmd matches Cmd::Run(run) ==> actions_for(state, cmd) == seq![ActionV::StartRun(run)] && state_after(
            state,
            cmd,
        ).runs.contains(run.run_id),
        cmd matches Cmd::WsConnect { conn_id, url, headers } ==> actions_for(state, cmd) == seq![
            ActionV::OpenWs(conn_id, url@, text_pairs(headers@)),
        ],
        cmd matches Cmd::SseSubscribe { conn_id, url, headers } ==> actions_for(state, cmd) == seq![
            ActionV::OpenSse(conn_id, url@, text_pairs(headers@)),
        ] && state_after(state, cmd).streams.contains(conn_id),
        cmd matches Cmd::SseClose { conn_id } ==> !state_after(state, cmd).streams.contains(conn_id),
        cmd matches Cmd::GrpcCall(call) ==> actions_for(state, cmd) == seq![ActionV::CallGrpc(call)],
        cmd is ListCookies ==> actions_for(state, cmd) == seq![ActionV::ReportCookies],
{
}

/// A change to the cookies is reported, and saved where a place for them is
/// known; so are they at the end.
pub proof fn lemma_changed_cookies_are_saved(state: BridgeV, cmd: Cmd)
    ensures
        ({
            let save = match state.cookie_path {
                Some(path) => seq![ActionV::SaveCookies(path)],
                None => seq![],
            };
            &&& cmd matches Cmd::RemoveCookie { domain, name } ==> actions_for(state, cmd) == seq![
                ActionV::DropCookie(domain@, name@),
                ActionV::ReportCookies,
            ] + save
            &&& cmd is ClearCookies ==> actions_for(state, cmd) == seq![ActionV::DropAllCookies, ActionV::ReportCookies]
                + save
            &&& cmd is Shutdown ==> actions_for(state, cmd) == save.push(ActionV::Stop)
            &&& cmd matches Cmd::LoadCookies { path } ==> state_after(state, cmd).cookie_path == Some(path@)
            &&& !(cmd is LoadCookies) ==> state_after(state, cmd).cookie_path == state.cookie_path
        }),
{
}

/// What a task says of itself is known from then on, and nothing else changes.
pub proof fn lemma_tasks_are_known_while_they_last(state: BridgeV, id: u64, other: u64)
    requires
        other != id,
    ensures
        !state_after_task(state, TaskEvent::RunEnded(id)).runs.contains(id),
        state_after_task(state, TaskEvent::RunEnded(id)).runs.contains(other) == state.runs.contains(other),
        state_after_task(state, TaskEvent::RunEnded(id)).sockets == state.sockets && state_after_task(
            state,
            TaskEvent::RunEnded(id),
        ).streams == state.streams,
        state_after_task(state, TaskEvent::WsOpened(id)).sockets.contains(id),
        state_after_task(state, TaskEvent::WsOpened(id)).runs == state.runs,
        !state_after_task(state, TaskEvent::WsEnded(id)).sockets.contains(id),
        state_after_task(state, TaskEvent::WsEnded(id)).sockets.contains(other) == state.sockets.contains(other),
        !state_after_task(state, TaskEvent::SseEnded(id)).streams.contains(id),
        state_after_task(state, TaskEvent::SseEnded(id)).streams.contains(other) == state.streams.contains(other),
{
}

// ---------------------------------------------------------------------
// Cookies
// ---------------------------------------------------------------------

/// The header of a cookie has its name and value, its domain and path, and what
/// applies to it of secure, hidden from scripts, and a date.
pub proof fn lemma_cookie_header_says_all(c: CookieV)
    ensures
        set_cookie(c) == c.name + "="@ + c.value + "; Domain="@ + c.domain + "; Path="@ + c.path + (if c.secure {
            "; Secure"@
        } else {
            seq![]
        }) + (if c.http_only {
            "; HttpOnly"@
        } else {
            seq![]
        }) + (match c.expires {
            Some(secs) => "; Expires="@ + replaced(date_text(secs), "+0000"@, "GMT"@),
            None => seq![],
        }),
{
    let base = c.name + "="@ + c.value + "; Domain="@ + c.domain + "; Path="@ + c.path;
    assert(base + Seq::empty() =~= base);
    let secure = base + (if c.secure {
        "; Secure"@
    } else {
        seq![]
    });
    assert(secure + Seq::empty() =~= secure);
    let hidden = secure + (if c.http_only {
        "; HttpOnly"@
    } else {
        seq![]
    });
    assert(hidden + Seq::empty() =~= hidden);
}

proof fn lemma_restored_prefix(cookies: Seq<CookieV>, n: int)
    requires
        0 <= n <= cookies.len(),
    ensures
        picks(
            cookies.take(n),
            |c: CookieV| url_parsed("https://"@ + c.domain + "/"@) is Ok,
            |c: CookieV, r: (Seq<char>, Seq<char>)|
                url_parsed("https://"@ + c.domain + "/"@)->Ok_0.0 == r.0 && r.1 == set_cookie(c),
            restored(cookies, n),
        ),
    decreases n,
{
    let keep = |c: CookieV| url_parsed("https://"@ + c.domain + "/"@) is Ok;
    let fits = |c: CookieV, r: (Seq<char>, Seq<char>)|
        url_parsed("https://"@ + c.domain + "/"@)->Ok_0.0 == r.0 && r.1 == set_cookie(c);
    if n == 0 {
        lemma_picks_none(cookies.take(0), keep, fits, restored(cookies, 0));
    } else {
        lemma_restored_prefix(cookies, n - 1);
        assert(cookies.take(n).drop_last() =~= cookies.take(n - 1));
        assert(cookies.take(n).last() == cookies[n - 1]);
        if keep(cookies[n - 1]) {
            assert(restored(cookies, n).drop_last() =~= restored(cookies, n - 1));
        }
        lemma_picks_more(cookies.take(n), keep, fits, restored(cookies, n - 1), restored(cookies, n));
    }
}

/// Every cookie whose domain makes an address is brought back for that address,
/// in order.
pub proof fn lemma_cookies_are_brought_back(cookies: Seq<CookieV>)
    ensures
        picks(
            cookies,
            |c: CookieV| url_parsed("https://"@ + c.domain + "/"@) is Ok,
            |c: CookieV, r: (Seq<char>, Seq<char>)|
                url_parsed("https://"@ + c.domain + "/"@)->Ok_0.0 == r.0 && r.1 == set_cookie(c),
            restored(cookies, cookies.len() as int),
        ),
{
    lemma_restored_prefix(cookies, cookies.len() as int);
    assert(cookies.take(cookies.len() as int) =~= cookies);
}

/// Dropping a cookie drops those of that domain and name; dropping all leaves
/// none; reading adds those of the file.
pub proof fn lemma_jar_changes_as_told(jar: Seq<CookieV>, domain: Seq<char>, name: Seq<char>, files: Map<Seq<char>, Seq<CookieV>>, path: Seq<char>)
    ensures
        jar_after_one(jar, ActionV::DropAllCookies, files).len() == 0,
        forall|i: int|
            #![trigger jar_after_one(jar, ActionV::DropCookie(domain, name), files)[i]]
            0 <= i < jar_after_one(jar, ActionV::DropCookie(domain, name), files).len() ==> jar_after_one(
                jar,
                ActionV::DropCookie(domain, name),
                files,
            )[i].domain != domain || jar_after_one(jar, ActionV::DropCookie(domain, name), files)[i].name != name,
        forall|i: int|
            0 <= i < jar.len() && ((#[trigger] jar[i]).domain != domain || jar[i].name != name) ==> jar_after_one(
                jar,
                ActionV::DropCookie(domain, name),
                files,
            ).contains(jar[i]),
        files.dom().contains(path) ==> jar_after_one(jar, ActionV::ReadCookies(path), files) == jar + files[path],
        !files.dom().contains(path) ==> jar_after_one(jar, ActionV::ReadCookies(path), files) == jar,
{
    let keep = |c: CookieV| !(c.domain == domain && c.name == name);
    broadcast use vstd::seq_lib::group_filter_ensures;

    let after = jar.filter(keep);
    assert forall|i: int| 0 <= i < jar.len() && ((#[trigger] jar[i]).domain != domain || jar[i].name != name) implies after.contains(
        jar[i],
    ) by {
        assert(keep(jar[i]));
    }
}

// ---------------------------------------------------------------------
// Assets
// ---------------------------------------------------------------------

/// An asset is referred to by its alias; without one by its prefix form; without
/// either by its path.
pub proof fn lemma_asset_is_referred_to_by_its_best_name(
    alias: Option<Seq<char>>,
    prefix_ref: Option<Seq<char>>,
    rel_path: Seq<char>,
)
    ensures
        alias matches Some(a) ==> asset_reference(alias, prefix_ref, rel_path) == a,
        alias is None ==> (prefix_ref matches Some(p) ==> asset_reference(alias, prefix_ref, rel_path) == p),
        alias is None && prefix_ref is None ==> asset_reference(alias, prefix_ref, rel_path) == rel_path,
{
}

/// An asset is listed by the last part of its path, under a heading where its
/// kind is a new one; data can be looked into.
pub proof fn lemma_asset_is_listed_under_its_kind(assets: Seq<AssetV>, expanded: Seq<Seq<char>>, n: int)
    requires
        0 <= n < assets.len(),
    ensures
        ({
            let a = assets[n];
            let line = asset_line(assets, expanded, n);
            &&& n == 0 || assets[n - 1].kind != a.kind ==> line.heading == Some(a.kind)
            &&& n > 0 && assets[n - 1].kind == a.kind ==> line.heading is None
            &&& line.name == split_on(a.rel_path, '/').last()
            &&& line.reference == asset_reference(a.alias, a.prefix_ref, a.rel_path)
            &&& line.browsable <==> a.kind == AssetKind::Data && a.data is Some
            &&& line.unfolded <==> line.browsable && expanded.contains(a.rel_path)
            &&& a.used_by.len() == 0 ==> line.hover == seq!["unused"@]
            &&& a.used_by.len() > 0 ==> line.hover.len() == a.used_by.len() && forall|i: int|
                0 <= i < a.used_by.len() ==> line.hover[i] == (#[trigger] a.used_by[i]).request + " "@
                    + a.used_by[i].instance_path
        }),
{
}

/// The children of an object are named by its keys, in order, those of a list by
/// their positions; nothing else has children.
pub proof fn lemma_children_are_named_in_order(node: JsonV)
    ensures
        node matches JsonV::Object(pairs) ==> child_names(node).len() == pairs.len() && forall|i: int|
            0 <= i < pairs.len() ==> #[trigger] child_names(node)[i] == crate::pointer::pointer_segment(pairs[i].0),
        node matches JsonV::Array(items) ==> child_names(node).len() == items.len() && forall|i: int|
            0 <= i < items.len() ==> #[trigger] child_names(node)[i] == decimal(i as nat),
        !(node is Object) && !(node is Array) ==> child_names(node).len() == 0,
        node matches JsonV::String(s) ==> value_line(node) == "\""@ + s + "\""@,
        !(node is String) ==> value_line(node) == printed(node),
{
}

/// A node is shown with how much it holds, or with its value.
pub proof fn lemma_node_is_shown_with_what_it_holds(v: JsonV, row: NodeRowV)
    ensures
        v matches JsonV::Object(pairs) ==> held_by(v) == HeldV::Members(pairs.len()),
        v matches JsonV::Array(items) ==> held_by(v) == HeldV::Items(items.len()),
        !(v is Object) && !(v is Array) ==> held_by(v) == HeldV::Leaf(value_line(v)),
        row.held matches HeldV::Members(n) ==> browser_text(row) == row.key + "  ("@ + decimal(n) + ")"@ && palette_text(row)
            == row.segment + " {"@ + decimal(n) + "}"@,
        row.held matches HeldV::Items(n) ==> browser_text(row) == row.key + "  ("@ + decimal(n) + ")"@ && palette_text(row)
            == row.segment + " ["@ + decimal(n) + "]"@,
{
}

// ---------------------------------------------------------------------
// Documents and fields
// ---------------------------------------------------------------------

/// An asset is written in a document as its kind is used: data by reference,
/// generators and mocks by use, hooks before the request, assertions and
/// extractors after the response.
pub proof fn lemma_asset_is_written_as_it_is_used(name: Seq<char>)
    ensures
        snippet(AssetKind::Data, name) == "{ \"ref\": \""@ + name + "\" }"@,
        snippet(AssetKind::Generator, name) == "{ \"use\": \""@ + name + "\", \"with\": {} }"@,
        snippet(AssetKind::Mock, name) == snippet(AssetKind::Generator, name),
        snippet(AssetKind::Hook, name) == "{ \"phase\": \"beforeRequest\", \"use\": \""@ + name + "\", \"with\": {} }"@,
        snippet(AssetKind::Assertion, name) == "{ \"phase\": \"afterResponse\", \"use\": \""@ + name
            + "\", \"with\": {} }"@,
        snippet(AssetKind::Extractor, name) == snippet(AssetKind::Assertion, name),
        snippet(AssetKind::Executable, name) == "\""@ + name + "\""@,
{
}

/// A run is told line by line: its assertions with their marks, what it wrote,
/// and its diagnostics.
pub proof fn lemma_run_is_told_in_the_strip(r: RunResultV)
    ensures
        ({
            let lines = strip_lines(r);
            let a = r.assertions.len();
            let b = r.runtime.len();
            &&& lines.len() == a + b + r.diagnostics.len()
            &&& forall|i: int|
                0 <= i < a ==> lines[i] == (if (#[trigger] r.assertions[i]).passed {
                    "✓"@
                } else {
                    "✗"@
                }) + " "@ + r.assertions[i].message
            &&& forall|i: int|
                0 <= i < b ==> lines[a + i] == "→ "@ + (#[trigger] r.runtime[i]).0 + " = "@ + printed(r.runtime[i].1)
            &&& forall|i: int|
                0 <= i < r.diagnostics.len() ==> lines[a + b + i] == "["@ + (#[trigger] r.diagnostics[i]).code.name() + "] "@
                    + r.diagnostics[i].message
        }),
        ending_label(RunStatus::Passed) == "PASSED"@,
        ending_label(RunStatus::Failed) == "FAILED"@,
        ending_label(RunStatus::Error) == "ERROR"@,
{
}

/// A valid document is told in one line; of any other every diagnostic is, with
/// its code and place.
pub proof fn lemma_validation_is_told(outcome: Result<RequestV, Seq<DiagnosticV>>)
    ensures
        outcome matches Ok(r) ==> validation_lines(outcome) == seq!["ok — "@ + r.method.name() + " "@ + r.url],
        outcome matches Err(list) ==> validation_lines(outcome).len() == list.len() && forall|i: int|
            0 <= i < list.len() ==> validation_lines(outcome)[i] == "["@ + (#[trigger] list[i]).code.name() + "] "@ + (
            match list[i].instance_path {
                Some(p) => p,
                None => seq![],
            }) + " "@ + list[i].message,
{
}

/// A field that may stay empty sets nothing where it is empty, else its text. The
/// usual prefix of a token counts as none, and is shown for none.
pub proof fn lemma_empty_fields_set_nothing(text: Seq<char>)
    ensures
        text.len() == 0 ==> text_set(text) is None && prefix_set(text) is None,
        text.len() > 0 ==> text_set(text) == Some(text),
        text == "Bearer"@ ==> prefix_set(text) is None,
        text.len() > 0 && text != "Bearer"@ ==> prefix_set(text) == Some(text),
        prefix_shown(None) == "Bearer"@,
        prefix_shown(Some(text)) == text,
{
}

/// What is remembered of the windows is what they show.
pub proof fn lemma_windows_are_remembered(app: AppV)
    ensures
        captured(app).open_tabs.len() == app.tabs.len(),
        forall|i: int| 0 <= i < app.tabs.len() ==> captured(app).open_tabs[i] == (#[trigger] app.tabs[i]).rel_id,
        app.active_tab matches Some(i) ==> captured(app).active_tab == i,
        captured(app).active_env == app.active_env,
        captured(app).show_collections == app.show_collections,
        captured(app).show_environment == app.show_environment,
        captured(app).theme == app.theme.name(),
        app.bottom_tool matches Some(t) ==> captured(app).bottom_panel_selected == Some(t.name()),
        app.bottom_tool is None ==> captured(app).bottom_panel_selected is None,
        theme_or("Light"@, ThemeKind::Darcula) == ThemeKind::Light,
        theme_or("Darcula"@, ThemeKind::Light) == ThemeKind::Darcula,
{
    reveal_strlit("Light");
    reveal_strlit("Darcula");
    assert("Light"@.len() == 5 && "Darcula"@.len() == 7);
}

} // verus!
