//! What the events of runs do to the program, and what it asks for.

use vstd::prelude::*;

use crate::exec::text_pairs;
use crate::gui::bridge::{Evt, StoredCookie};
use crate::gui::request_editor::shown_text;
use crate::gui::settings::StatusMessage;
use crate::gui::state::{opened, tab_index, tab_position, AppState, AppV, BottomTool, RunState, Tab, TabV};
use crate::map::{lookup, pairs_view};
use crate::model::environment::{EnvVarV, EnvironmentV};
use crate::runner::plan::{RunScope, ScopeV};
use crate::runner::resolve::{joined_path, resolve_body_path};
use crate::runner::run::{CheckedV, OutcomeV, RequestOutcome, RunEvent, RunSummary};
use crate::store::{named_environment, stored_request, LoadedEnvironment, LoadedV, Workspace};
use crate::text::{cat2, cat3, cat4, cat5};
use crate::vars::LayerV;
use crate::view::{copy_opt, group_views, opt_view, views, Copied};
use crate::words::{decimal, number_text};

verus! {

broadcast use vstd::string::group_string_axioms;

/// How much a log line matters.
#[derive(Debug, Clone, Copy, PartialEq, Eq, Structural)]
pub enum LogLevel {
    Info,
    Warn,
    Error,
}

/// A line of the program's log.
#[derive(Debug)]
pub struct LogLine {
    pub level: LogLevel,
    pub text: String,
}

impl View for LogLine {
    type V = (LogLevel, Seq<char>);

    open spec fn view(&self) -> (LogLevel, Seq<char>) {
        (self.level, self.text@)
    }
}

/// The number of failed ones among the first `n` assertions.
pub open spec fn failed_among(assertions: Seq<CheckedV>, n: int) -> nat
    decreases n,
{
    if n <= 0 || n > assertions.len() {
        0
    } else {
        failed_among(assertions, n - 1) + if assertions[n - 1].passed {
            0nat
        } else {
            1
        }
    }
}

/// The log line about a finished request.
pub open spec fn outcome_line(o: RequestOutcome) -> (LogLevel, Seq<char>) {
    match o.result {
        Err(e) => (LogLevel::Error, o.name@ + ": "@ + e@),
        Ok(res) => {
            let failed = failed_among(o@.assertions, o@.assertions.len() as int);
            if failed > 0 {
                (
                    LogLevel::Warn,
                    o.name@ + ": "@ + decimal(failed) + " of "@ + decimal(o@.assertions.len())
                        + " assertions failed"@,
                )
            } else {
                (
                    LogLevel::Info,
                    o.name@ + " → "@ + decimal(res.status as nat) + " ("@ + decimal(res.total_ms as nat) + " ms)"@,
                )
            }
        },
    }
}

/// The line about a finished run.
pub open spec fn finish_text(s: RunSummary) -> Seq<char> {
    "Run finished: "@ + decimal(s.passed as nat) + "/"@ + decimal(s.total as nat) + " passed"@
}

/// The tabs once the request of one of them has finished: it shows the
/// outcome, and is no longer in the run.
pub open spec fn answered(tabs: Seq<TabV>, o: OutcomeV, run_id: u64) -> Seq<TabV> {
    match tab_position(tabs, o.id, 0) {
        None => tabs,
        Some(i) => tabs.update(
            i,
            TabV {
                response: Some(o),
                run_id: if tabs[i].run_id == Some(run_id) {
                    None
                } else {
                    tabs[i].run_id
                },
                ..tabs[i]
            },
        ),
    }
}

fn describe_outcome(o: &RequestOutcome) -> (r: LogLine)
    ensures
        r@ == outcome_line(*o),
{
    match &o.result {
        Err(e) => LogLine { level: LogLevel::Error, text: cat3(o.name.as_str(), ": ", e.as_str()) },
        Ok(res) => {
            let ghost all = o@.assertions;
            let mut failed: usize = 0;
            let mut i: usize = 0;
            while i < o.assertions.len()
                invariant
                    i <= o.assertions.len(),
                    all == views(o.assertions@),
                    failed <= i,
                    failed == failed_among(all, i as int),
                decreases o.assertions.len() - i,
            {
                assert(all[i as int] == o.assertions@[i as int]@);
                if !o.assertions[i].passed {
                    failed += 1;
                }
                i += 1;
            }
            if failed > 0 {
                let mut text = cat5(
                    o.name.as_str(),
                    ": ",
                    number_text(failed as u64).as_str(),
                    " of ",
                    number_text(o.assertions.len() as u64).as_str(),
                );
                text.append(" assertions failed");
                LogLine { level: LogLevel::Warn, text }
            } else {
                let mut text = cat5(
                    o.name.as_str(),
                    " → ",
                    number_text(res.status as u64).as_str(),
                    " (",
                    number_text(res.total_ms).as_str(),
                );
                text.append(" ms)");
                LogLine { level: LogLevel::Info, text }
            }
        },
    }
}

/// The run in front once an event of the run `run_id` has come. Events of
/// another run do not touch it.
pub open spec fn run_after(state: RunState, run_id: u64, event: RunEvent) -> RunState {
    if state.run_id != Some(run_id) {
        state
    } else {
        match event {
            RunEvent::RunStarted { total, .. } => RunState { total, ..state },
            RunEvent::RequestFinished(_) => RunState { completed: (state.completed + 1) as usize, ..state },
            RunEvent::RunFinished(_) => RunState { run_id: None, ..state },
            _ => state,
        }
    }
}

/// The log lines that an event brings.
pub open spec fn event_lines(state: RunState, run_id: u64, event: RunEvent) -> Seq<(LogLevel, Seq<char>)> {
    match event {
        RunEvent::RequestFinished(o) => seq![outcome_line(*o)],
        RunEvent::RunFinished(s) => if state.run_id == Some(run_id) {
            seq![
                (
                    if s.failed > 0 {
                        LogLevel::Error
                    } else {
                        LogLevel::Info
                    },
                    finish_text(s),
                ),
            ]
        } else {
            seq![]
        },
        _ => seq![],
    }
}

/// The status line once an event of the run `run_id` has come.
pub open spec fn status_after(
    status: Option<(Seq<char>, bool)>,
    state: RunState,
    run_id: u64,
    event: RunEvent,
) -> Option<(Seq<char>, bool)> {
    match event {
        RunEvent::RunFinished(s) => if state.run_id == Some(run_id) {
            Some((finish_text(s), s.failed > 0))
        } else {
            status
        },
        _ => status,
    }
}

/// What is shown once an event of the run `run_id` has come.
pub open spec fn shown_after(app: AppV, run_id: u64, event: RunEvent) -> AppV {
    match event {
        RunEvent::RequestFinished(o) => AppV { tabs: answered(app.tabs, o@, run_id), ..app },
        _ => app,
    }
}

/// The tab of a request that has finished holds its outcome, and every other
/// tab is what it was.
pub open spec fn tabs_after(before: Seq<Tab>, now: Seq<Tab>, event: RunEvent) -> bool {
    let place = match event {
        RunEvent::RequestFinished(o) => tab_position(views(before), o.id@, 0),
        _ => None,
    };
    &&& now.len() == before.len()
    &&& forall|i: int| 0 <= i < now.len() && place != Some(i) ==> #[trigger] now[i] == before[i]
    &&& event matches RunEvent::RequestFinished(o) ==> (place matches Some(i) ==> now[i].response == Some(*o))
}

/// Take an event of the run `run_id` into account: the progress of the run in
/// front, the log, the status line, and the tab of the request. A request that
/// finishes can still be counted.
pub fn handle_run_event(state: &mut AppState, log: &mut Vec<LogLine>, run_id: u64, event: RunEvent)
    requires
        old(state).run_state.completed < usize::MAX,
    ensures
        final(state).run_state == run_after(old(state).run_state, run_id, event),
        views(final(log)@) == views(old(log)@) + event_lines(old(state).run_state, run_id, event),
        opt_view(final(state).status) == status_after(
            opt_view(old(state).status),
            old(state).run_state,
            run_id,
            event,
        ),
        final(state)@ == shown_after(old(state)@, run_id, event),
        tabs_after(old(state).tabs@, final(state).tabs@, event),
        final(state).workspace == old(state).workspace,
        final(state).next_run_id == old(state).next_run_id,
{
    broadcast use group_views;

    let ghost lines = views(log@);
    assert(lines + Seq::<(LogLevel, Seq<char>)>::empty() =~= lines);
    let current = match state.run_state.run_id {
        Some(id) => id == run_id,
        None => false,
    };
    match event {
        RunEvent::RunStarted { total, .. } => {
            if current {
                state.run_state.total = total;
            }
        },
        RunEvent::RequestFinished(outcome) => {
            if current {
                state.run_state.completed = state.run_state.completed + 1;
            }
            let line = describe_outcome(&outcome);
            let ghost view = line@;
            log.push(line);
            assert(lines.push(view) =~= lines + seq![view]);
            let ghost before = state@.tabs;
            if let Some(i) = tab_index(&state.tabs, outcome.id.as_str()) {
                let ghost o = outcome@;
                let tab = state.tabs.remove(i);
                let Tab { rel_id, def, dirty, run_id: held, response: _ } = tab;
                let held = match held {
                    Some(id) => if id == run_id {
                        None
                    } else {
                        Some(id)
                    },
                    None => None,
                };
                let tab = Tab { rel_id, def, dirty, run_id: held, response: Some(*outcome) };
                state.tabs.insert(i, tab);
                assert(state@.tabs =~= answered(before, o, run_id));
            }
        },
        RunEvent::RunFinished(summary) => {
            if current {
                state.run_state.run_id = None;
                let text = cat5(
                    "Run finished: ",
                    number_text(summary.passed as u64).as_str(),
                    "/",
                    number_text(summary.total as u64).as_str(),
                    " passed",
                );
                let ghost said = text@;
                let failed = summary.failed > 0;
                state.status = Some(StatusMessage { text: text.clone(), is_error: failed });
                let level = if failed {
                    LogLevel::Error
                } else {
                    LogLevel::Info
                };
                log.push(LogLine { level, text });
                assert(lines.push((level, said)) =~= lines + seq![(level, said)]);
            }
        },
        _ => {},
    }
}

/// The tabs once the run `run_id` is over: none is in it.
pub open spec fn released(tabs: Seq<TabV>, run_id: u64) -> Seq<TabV> {
    Seq::new(
        tabs.len(),
        |i: int|
            TabV {
                run_id: if tabs[i].run_id == Some(run_id) {
                    None
                } else {
                    tabs[i].run_id
                },
                ..tabs[i]
            },
    )
}

/// A run could not go on: it is no longer in front, and no tab is in it.
pub fn clear_run(state: &mut AppState, run_id: u64)
    ensures
        final(state).run_state == if old(state).run_state.run_id == Some(run_id) {
            RunState { run_id: None, ..old(state).run_state }
        } else {
            old(state).run_state
        },
        final(state)@ == (AppV { tabs: released(old(state)@.tabs, run_id), ..old(state)@ }),
        final(state).workspace == old(state).workspace,
        final(state).status == old(state).status,
        final(state).next_run_id == old(state).next_run_id,
{
    if state.run_state.run_id.is_some() && state.run_state.run_id.unwrap() == run_id {
        state.run_state.run_id = None;
    }
    let ghost before = state@;
    let mut i: usize = 0;
    let n: usize = state.tabs.len();
    assert(n == before.tabs.len());
    while i < n
        invariant
            i <= n,
            n == before.tabs.len(),
            state.tabs@.len() == n,
            state.run_state == if old(state).run_state.run_id == Some(run_id) {
                RunState { run_id: None, ..old(state).run_state }
            } else {
                old(state).run_state
            },
            state.workspace == old(state).workspace,
            state.status == old(state).status,
            state.next_run_id == old(state).next_run_id,
            before == old(state)@,
            state@ == (AppV { tabs: views(state.tabs@), ..before }),
            forall|k: int| 0 <= k < i ==> (#[trigger] state.tabs@[k])@ == released(before.tabs, run_id)[k],
            forall|k: int| i <= k < n ==> (#[trigger] state.tabs@[k])@ == before.tabs[k],
        decreases n - i,
    {
        let held = match state.tabs[i].run_id {
            Some(id) => id == run_id,
            None => false,
        };
        if held {
            let tab = state.tabs.remove(i);
            let Tab { rel_id, def, dirty, run_id: _, response } = tab;
            state.tabs.insert(i, Tab { rel_id, def, dirty, run_id: None, response });
        }
        i += 1;
    }
    assert(state@.tabs =~= released(before.tabs, run_id));
}

/// A run that the program asks for.
#[derive(Debug)]
pub struct RunCommand {
    pub run_id: u64,
    pub scope: RunScope,
    pub environment: Option<String>,
}

/// Ask for a run of a whole workspace; without one the status line says so.
pub fn run_workspace(state: &mut AppState) -> (r: Option<RunCommand>)
    requires
        old(state).next_run_id < u64::MAX,
    ensures
        final(state)@ == old(state)@,
        final(state).tabs == old(state).tabs,
        final(state).workspace == old(state).workspace,
        old(state).workspace is None ==> r is None && opt_view(final(state).status) == Some(
            ("No workspace open"@, true),
        ) && final(state).run_state == old(state).run_state && final(state).next_run_id == old(state).next_run_id,
        old(state).workspace is Some ==> {
            &&& r is Some
            &&& r->Some_0.run_id == old(state).next_run_id
            &&& r->Some_0.scope@ == ScopeV::Workspace
            &&& opt_view(r->Some_0.environment) == old(state)@.active_env
            &&& final(state).next_run_id == old(state).next_run_id + 1
            &&& final(state).run_state == (RunState { run_id: Some(r->Some_0.run_id), total: 0, completed: 0 })
            &&& final(state).status == old(state).status
        },
{
    if state.workspace.is_none() {
        state.status = Some(StatusMessage::error("No workspace open"));
        return None;
    }
    let run_id: u64 = state.alloc_run_id();
    state.run_state = RunState { run_id: Some(run_id), total: 0, completed: 0 };
    let environment = copy_opt(&state.active_env);
    Some(RunCommand { run_id, scope: RunScope::Workspace, environment })
}

/// Ask for a run of the request in front. Without a tab nothing happens,
/// without a workspace the status line says so.
pub fn send_active(state: &mut AppState) -> (r: Option<RunCommand>)
    requires
        old(state).next_run_id < u64::MAX,
        old(state).active_tab matches Some(i) ==> i < old(state)@.tabs.len(),
    ensures
        final(state).workspace == old(state).workspace,
        old(state).active_tab is None ==> r is None && *final(state) == *old(state),
        old(state).active_tab is Some && old(state).workspace is None ==> r is None && opt_view(final(state).status)
            == Some(("No workspace open"@, true)) && final(state)@ == old(state)@ && final(state).run_state
            == old(state).run_state && final(state).next_run_id == old(state).next_run_id,
        old(state).active_tab is Some && old(state).workspace is Some ==> {
            let i = old(state).active_tab->Some_0 as int;
            &&& r is Some
            &&& r->Some_0.run_id == old(state).next_run_id
            &&& r->Some_0.scope@ == ScopeV::Request(old(state)@.tabs[i].rel_id)
            &&& opt_view(r->Some_0.environment) == old(state)@.active_env
            &&& final(state).next_run_id == old(state).next_run_id + 1
            &&& final(state).run_state == (RunState { run_id: Some(r->Some_0.run_id), total: 1, completed: 0 })
            &&& final(state).status == old(state).status
            &&& final(state)@ == (AppV {
                tabs: old(state)@.tabs.update(
                    i,
                    TabV { run_id: Some(r->Some_0.run_id), ..old(state)@.tabs[i] },
                ),
                ..old(state)@
            })
        },
{
    let i: usize = match state.active_tab {
        None => {
            return None;
        },
        Some(i) => i,
    };
    if state.workspace.is_none() {
        state.status = Some(StatusMessage::error("No workspace open"));
        return None;
    }
    let ghost before = state@.tabs;
    assert(state.tabs@.len() == before.len());
    let run_id: u64 = state.alloc_run_id();
    let scope = RunScope::Request(state.tabs[i].rel_id.clone());
    let tab = state.tabs.remove(i);
    let Tab { rel_id, def, dirty, run_id: _, response } = tab;
    state.tabs.insert(i, Tab { rel_id, def, dirty, run_id: Some(run_id), response });
    assert(state@.tabs =~= before.update(i as int, TabV { run_id: Some(run_id), ..before[i as int] }));
    state.run_state = RunState { run_id: Some(run_id), total: 1, completed: 0 };
    let environment = copy_opt(&state.active_env);
    Some(RunCommand { run_id, scope, environment })
}

/// Where the request of a tab is stored: its file below the workspace root.
/// Nothing where there is no workspace or no such tab.
pub fn save_target(state: &AppState, i: usize) -> (r: Option<String>)
    ensures
        opt_view(r) == match state.workspace {
            Some(ws) => if i < state@.tabs.len() {
                Some(joined_path(ws.root@, state@.tabs[i as int].rel_id))
            } else {
                None
            },
            None => None,
        },
{
    assert(state@.tabs.len() == state.tabs@.len());
    match &state.workspace {
        None => None,
        Some(ws) => {
            if i < state.tabs.len() {
                assert(state@.tabs[i as int] == state.tabs@[i as int]@);
                Some(resolve_body_path(ws.root.as_str(), state.tabs[i].rel_id.as_str()))
            } else {
                None
            }
        },
    }
}

/// A tab was saved, or could not be: a saved one is no longer changed, and the
/// status line tells.
pub fn save_tab(state: &mut AppState, i: usize, written: Result<(), String>)
    ensures
        final(state).workspace == old(state).workspace,
        final(state).run_state == old(state).run_state,
        final(state).next_run_id == old(state).next_run_id,
        match old(state).workspace {
            None => final(state)@ == old(state)@ && opt_view(final(state).status) == Some(
                ("No workspace open"@, true),
            ),
            Some(_) => if i >= old(state)@.tabs.len() {
                *final(state) == *old(state)
            } else {
                match written {
                    Ok(_) => final(state)@ == (AppV {
                        tabs: old(state)@.tabs.update(
                            i as int,
                            TabV { dirty: false, ..old(state)@.tabs[i as int] },
                        ),
                        ..old(state)@
                    }) && opt_view(final(state).status) == Some(
                        ("Saved "@ + old(state)@.tabs[i as int].def.name, false),
                    ),
                    Err(e) => final(state)@ == old(state)@ && opt_view(final(state).status) == Some((e@, true)),
                }
            },
        },
{
    assert(state@.tabs.len() == state.tabs@.len());
    if state.workspace.is_none() {
        state.status = Some(StatusMessage::error("No workspace open"));
        return;
    }
    if i >= state.tabs.len() {
        return;
    }
    let ghost before = state@.tabs;
    match written {
        Ok(_) => {
            assert(before[i as int] == state.tabs@[i as int]@);
            let text = cat2("Saved ", state.tabs[i].def.name.as_str());
            state.status = Some(StatusMessage { text, is_error: false });
            let tab = state.tabs.remove(i);
            let Tab { rel_id, def, dirty: _, run_id, response } = tab;
            state.tabs.insert(i, Tab { rel_id, def, dirty: false, run_id, response });
            assert(state@.tabs =~= before.update(i as int, TabV { dirty: false, ..before[i as int] }));
        },
        Err(e) => {
            state.status = Some(StatusMessage::error(e.as_str()));
        },
    }
}

/// The tabs once each was saved or could not be: the saved ones are no longer
/// changed.
pub open spec fn all_saved(tabs: Seq<TabV>, written: Seq<Result<(), Seq<char>>>, n: int) -> Seq<TabV> {
    Seq::new(
        tabs.len(),
        |i: int|
            if i < n && written[i] is Ok {
                TabV { dirty: false, ..tabs[i] }
            } else {
                tabs[i]
            },
    )
}

/// What the status line says of a tab that was saved or could not be.
pub open spec fn save_status(tab: TabV, written: Result<(), Seq<char>>) -> (Seq<char>, bool) {
    match written {
        Ok(_) => ("Saved "@ + tab.def.name, false),
        Err(e) => (e, true),
    }
}

/// The outcomes of writes by their views.
pub open spec fn write_views(written: Seq<Result<(), String>>) -> Seq<Result<(), Seq<char>>> {
    Seq::new(
        written.len(),
        |i: int|
            match written[i] {
                Ok(_) => Ok(()),
                Err(e) => Err(e@),
            },
    )
}

/// Every tab was saved or could not be; `written` has an outcome for each. The
/// status line tells of the last one.
pub fn save_all(state: &mut AppState, written: Vec<Result<(), String>>)
    requires
        written@.len() == old(state)@.tabs.len(),
    ensures
        final(state).workspace == old(state).workspace,
        final(state).run_state == old(state).run_state,
        final(state).next_run_id == old(state).next_run_id,
        old(state)@.tabs.len() == 0 ==> *final(state) == *old(state),
        old(state)@.tabs.len() > 0 && old(state).workspace is None ==> final(state)@ == old(state)@ && opt_view(
            final(state).status,
        ) == Some(("No workspace open"@, true)),
        old(state)@.tabs.len() > 0 && old(state).workspace is Some ==> {
            let outcomes = write_views(written@);
            &&& final(state)@ == (AppV {
                tabs: all_saved(old(state)@.tabs, outcomes, outcomes.len() as int),
                ..old(state)@
            })
            &&& opt_view(final(state).status) == Some(save_status(old(state)@.tabs.last(), outcomes.last()))
        },
{
    let ghost tabs = state@.tabs;
    let ghost view = state@;
    let ghost kept = *state;
    let ghost outcomes = write_views(written@);
    assert(all_saved(tabs, outcomes, 0) =~= tabs);
    let mut i: usize = 0;
    while i < written.len()
        invariant
            i <= written.len(),
            written@.len() == tabs.len(),
            outcomes == write_views(written@),
            view == kept@,
            tabs == view.tabs,
            kept == *old(state),
            state.workspace == kept.workspace,
            state.run_state == kept.run_state,
            state.next_run_id == kept.next_run_id,
            i == 0 ==> *state == kept,
            kept.workspace is None ==> state@ == view && (i > 0 ==> opt_view(state.status) == Some(
                ("No workspace open"@, true),
            )),
            kept.workspace is Some ==> state@ == (AppV { tabs: all_saved(tabs, outcomes, i as int), ..view }) && (i > 0
                ==> opt_view(state.status) == Some(save_status(tabs[i - 1], outcomes[i - 1]))),
        decreases written.len() - i,
    {
        let outcome = match &written[i] {
            Ok(_) => Ok(()),
            Err(e) => Err(e.clone()),
        };
        let ghost before = state@.tabs;
        save_tab(state, i, outcome);
        assert(kept.workspace is Some ==> state@.tabs =~= all_saved(tabs, outcomes, i + 1));
        i += 1;
    }
    assert(tabs.len() > 0 ==> tabs.last() == tabs[i - 1]);
}

/// A run could not start: it is cleared, and the log and the status line tell
/// why.
pub fn run_failed(state: &mut AppState, log: &mut Vec<LogLine>, run_id: u64, error: &str)
    ensures
        final(state).run_state == if old(state).run_state.run_id == Some(run_id) {
            RunState { run_id: None, ..old(state).run_state }
        } else {
            old(state).run_state
        },
        final(state)@ == (AppV { tabs: released(old(state)@.tabs, run_id), ..old(state)@ }),
        final(state).workspace == old(state).workspace,
        final(state).next_run_id == old(state).next_run_id,
        opt_view(final(state).status) == Some((error@, true)),
        views(final(log)@) == views(old(log)@).push((LogLevel::Error, error@)),
{
    broadcast use group_views;

    clear_run(state, run_id);
    log.push(LogLine { level: LogLevel::Error, text: error.to_owned() });
    state.status = Some(StatusMessage::error(error));
}

/// Take an event of the background thread into account. What is for the
/// console is given back.
pub fn take_event(state: &mut AppState, log: &mut Vec<LogLine>, jar: &mut Vec<StoredCookie>, evt: Evt) -> (r: Option<Evt>)
    requires
        old(state).run_state.completed < usize::MAX,
    ensures
        match evt {
            Evt::Run { run_id, event } => {
                &&& r is None
                &&& *final(jar) == *old(jar)
                &&& final(state).run_state == run_after(old(state).run_state, run_id, event)
                &&& final(state)@ == shown_after(old(state)@, run_id, event)
                &&& tabs_after(old(state).tabs@, final(state).tabs@, event)
                &&& opt_view(final(state).status) == status_after(
                    opt_view(old(state).status),
                    old(state).run_state,
                    run_id,
                    event,
                )
                &&& views(final(log)@) == views(old(log)@) + event_lines(old(state).run_state, run_id, event)
            },
            Evt::RunFailed { run_id, error } => {
                &&& r is None
                &&& *final(jar) == *old(jar)
                &&& final(state).run_state == if old(state).run_state.run_id == Some(run_id) {
                    RunState { run_id: None, ..old(state).run_state }
                } else {
                    old(state).run_state
                }
                &&& final(state)@ == (AppV { tabs: released(old(state)@.tabs, run_id), ..old(state)@ })
                &&& opt_view(final(state).status) == Some((error@, true))
                &&& views(final(log)@) == views(old(log)@).push((LogLevel::Error, error@))
            },
            Evt::Cookies(cookies) => r is None && *final(jar) == cookies && *final(state) == *old(state) && *final(log)
                == *old(log),
            _ => r == Some(evt) && *final(jar) == *old(jar) && *final(state) == *old(state) && *final(log) == *old(log),
        },
        final(state).workspace == old(state).workspace,
        final(state).next_run_id == old(state).next_run_id,
{
    match evt {
        Evt::Run { run_id, event } => {
            handle_run_event(state, log, run_id, event);
            None
        },
        Evt::RunFailed { run_id, error } => {
            run_failed(state, log, run_id, error.as_str());
            None
        },
        Evt::Cookies(cookies) => {
            *jar = cookies;
            None
        },
        other => Some(other),
    }
}

/// Open the tab of a stored request. Nothing happens where there is none.
pub fn open_request_tab(state: &mut AppState, rel_id: &str)
    ensures
        final(state).workspace == old(state).workspace,
        final(state).run_state == old(state).run_state,
        final(state).status == old(state).status,
        final(state).next_run_id == old(state).next_run_id,
        final(state)@ == match old(state).workspace {
            Some(ws) => match stored_request(views(ws.collections@), rel_id@) {
                Some(node) => opened(old(state)@, rel_id@, node.def),
                None => old(state)@,
            },
            None => old(state)@,
        },
{
    let found = match &state.workspace {
        Some(ws) => match ws.find_request(rel_id) {
            Some(node) => Some(node.def.copied()),
            None => None,
        },
        None => None,
    };
    if let Some(def) = found {
        state.open_tab(rel_id.to_owned(), def);
    }
}

/// Another workspace was opened: the tabs of the old one close. Returns the
/// root of the old one, for which the windows are to be remembered first.
pub fn switch_workspace(state: &mut AppState, ws: Workspace) -> (r: Option<String>)
    ensures
        opt_view(r) == match old(state).workspace {
            Some(ws) => Some(ws.root@),
            None => None,
        },
        final(state).workspace == Some(ws),
        final(state)@ == (AppV { tabs: seq![], active_tab: None, ..old(state)@ }),
        final(state).run_state == old(state).run_state,
        final(state).status == old(state).status,
        final(state).next_run_id == old(state).next_run_id,
{
    broadcast use group_views;

    let left = match &state.workspace {
        Some(ws) => Some(ws.root.clone()),
        None => None,
    };
    state.workspace = Some(ws);
    state.tabs = Vec::new();
    state.active_tab = None;
    left
}

/// A tool window was clicked: it opens, and closes where it was open. Only one
/// is open at a time.
pub fn toggle_tool(state: &mut AppState, tool: BottomTool)
    ensures
        final(state)@ == (AppV {
            bottom_tool: if old(state).bottom_tool == Some(tool) {
                None
            } else {
                Some(tool)
            },
            ..old(state)@
        }),
        final(state).tabs == old(state).tabs,
        final(state).workspace == old(state).workspace,
        final(state).run_state == old(state).run_state,
        final(state).status == old(state).status,
        final(state).next_run_id == old(state).next_run_id,
{
    let active = match state.bottom_tool {
        Some(t) => t == tool,
        None => false,
    };
    state.bottom_tool = if active {
        None
    } else {
        Some(tool)
    };
}

/// How far the run in front is, where there is one.
pub fn running_text(state: &AppState) -> (r: Option<String>)
    ensures
        opt_view(r) == if state.run_state.run_id is Some {
            Some(
                "Running "@ + decimal(state.run_state.completed as nat) + "/"@ + decimal(
                    state.run_state.total as nat,
                ),
            )
        } else {
            None
        },
{
    if state.run_state.run_id.is_some() {
        Some(
            cat4(
                "Running ",
                number_text(state.run_state.completed as u64).as_str(),
                "/",
                number_text(state.run_state.total as u64).as_str(),
            ),
        )
    } else {
        None
    }
}

/// How the value of a variable shows. A secret shows only whether it is set.
pub open spec fn value_shown(name: Seq<char>, var: EnvVarV, secrets: LayerV) -> Seq<char> {
    if var.secret {
        if lookup(secrets, name) is Some {
            "••••••••"@
        } else {
            "(not set)"@
        }
    } else {
        match var.value {
            Some(v) => v,
            None => seq![],
        }
    }
}

/// The rows of the environment panel.
pub open spec fn environment_lines(e: LoadedV) -> Seq<(Seq<char>, Seq<char>)> {
    Seq::new(
        e.env.variables.len(),
        |i: int| (e.env.variables[i].0, value_shown(e.env.variables[i].0, e.env.variables[i].1, e.secrets)),
    )
}

/// The rows of the environment panel: names and values.
pub fn environment_rows(e: &LoadedEnvironment) -> (r: Vec<(String, String)>)
    ensures
        text_pairs(r@) == environment_lines(e@),
{
    let vars = &e.env.variables.pairs;
    let ghost all = e@.env.variables;
    let mut out: Vec<(String, String)> = Vec::new();
    let mut i: usize = 0;
    while i < vars.len()
        invariant
            i <= vars.len(),
            all == pairs_view(vars@),
            out.len() == i,
            forall|k: int|
                0 <= k < i ==> (#[trigger] out@[k]).0@ == all[k].0 && out@[k].1@ == value_shown(
                    all[k].0,
                    all[k].1,
                    e@.secrets,
                ),
        decreases vars.len() - i,
    {
        let name = vars[i].0.as_str();
        let var = &vars[i].1;
        let shown = if var.secret {
            if e.secrets.contains_key(name) {
                "••••••••".to_owned()
            } else {
                "(not set)".to_owned()
            }
        } else {
            shown_text(&var.value)
        };
        out.push((name.to_owned(), shown));
        i += 1;
    }
    assert(text_pairs(out@) =~= environment_lines(e@));
    out
}

/// What the environment panel shows.
#[derive(Debug)]
pub enum EnvironmentPanel {
    /// A remark in place of the rows.
    Remark(&'static str),
    Rows(Vec<(String, String)>),
}

/// What the environment panel shows: the values of the chosen environment, or
/// why there are none.
pub fn environment_panel(state: &AppState) -> (r: EnvironmentPanel)
    ensures
        match state.workspace {
            None => r matches EnvironmentPanel::Remark(s) && s@ == "No workspace open."@,
            Some(ws) => match state@.active_env {
                None => r matches EnvironmentPanel::Remark(s) && s@ == "No active environment."@,
                Some(name) => match named_environment(views(ws.environments@), name, 0) {
                    None => r matches EnvironmentPanel::Remark(s) && s@ == "Environment not found."@,
                    Some(e) => r matches EnvironmentPanel::Rows(rows) && text_pairs(rows@) == environment_lines(e),
                },
            },
        },
{
    match &state.workspace {
        None => EnvironmentPanel::Remark("No workspace open."),
        Some(ws) => match &state.active_env {
            None => EnvironmentPanel::Remark("No active environment."),
            Some(name) => match ws.environment(name.as_str()) {
                None => EnvironmentPanel::Remark("Environment not found."),
                Some(e) => EnvironmentPanel::Rows(environment_rows(e)),
            },
        },
    }
}

// ---------------------------------------------------------------------
// Laws
// ---------------------------------------------------------------------

/// An event of an older run changes nothing of the run in front, and the
/// status line says nothing of it.
pub proof fn lemma_stale_events_change_nothing(
    state: RunState,
    status: Option<(Seq<char>, bool)>,
    run_id: u64,
    event: RunEvent,
)
    requires
        state.run_id != Some(run_id),
    ensures
        run_after(state, run_id, event) == state,
        status_after(status, state, run_id, event) == status,
        event is RunFinished ==> event_lines(state, run_id, event).len() == 0,
{
}

/// The values of secrets do not show: environments that set the same secrets
/// to other values look alike.
pub proof fn lemma_secret_values_do_not_show(env: EnvironmentV, a: LayerV, b: LayerV)
    requires
        forall|name: Seq<char>| (#[trigger] lookup(a, name) is Some) == (lookup(b, name) is Some),
    ensures
        environment_lines(LoadedV { env, secrets: a }) == environment_lines(LoadedV { env, secrets: b }),
{
    assert(environment_lines(LoadedV { env, secrets: a }) =~= environment_lines(LoadedV { env, secrets: b }));
}

} // verus!
