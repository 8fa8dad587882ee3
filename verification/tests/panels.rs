//! The panels and dialogs of the desktop program, and runs from end to end.

use forge::cli::{describe_lock_check, list_assets, AssetRow, Line};
use forge::gui::app::{
    environment_panel, open_request_tab, run_failed, switch_workspace, EnvironmentPanel, LogLine,
};
use forge::gui::collections::{delete_question, reload_workspace, run_scope, scope_of, PendingAction, Row, RowKind};
use forge::gui::request_editor::{
    add_blank_row, choose_content, choose_source, new_extractor, new_part, remove_param, SourceKind,
};
use forge::gui::settings::{Clicks, SettingsState};
use forge::gui::state::{AppState, RunState};
use forge::gui::theme::ThemeKind;
use forge::gui::v1_editor::{byte_offset, V1EditorState};
use forge::json::{parse, print};
use forge::map::TextMap;
use forge::model::auth::AuthConfig;
use forge::model::body::{KeyValue, PartContent};
use forge::model::environment::{EnvVar, Environment};
use forge::model::request::{
    Check, ExtractScope, Extractor, ExtractorSource, NumberOp, Param, ParamKind, RequestDef, ScriptLang, SuiteHooks,
};
use forge::model::workspace::{WorkspaceMeta, WorkspaceSettings};
use forge::model::Method;
use forge::reqv1::builder::run_generator;
use forge::reqv1::diag::{Code, Diagnostic};
use forge::reqv1::pipeline::ResponseView;
use forge::runner::data::DataSource;
use forge::runner::execute::{check_response, prepare, request_scopes, RunOptions};
use forge::runner::hooks::{note_after_hook, HookKind};
use forge::runner::plan::{RunError, RunScope};
use forge::runner::report::junit_xml;
use forge::runner::resolve::{resolve_request, Outside};
use forge::runner::run::{
    after_send, before_send, unanswered, AssertionOutcome, ExecutionResult, NextStep, RequestOutcome, RunEvent,
    RunSummary, ScriptOutput, Slot,
};
use forge::store::{CollectionNode, LoadedEnvironment, NodeMeta, RequestNode, TreeNode, Workspace};

fn meta(name: &str, dir: &str) -> NodeMeta {
    NodeMeta {
        name: name.to_string(),
        dir: dir.to_string(),
        variables: TextMap::new(),
        auth: AuthConfig::Inherit,
        hooks: SuiteHooks {
            before_all: None,
            before_each: None,
            after_each: None,
            after_all: None,
            language: ScriptLang::Rhai,
        },
    }
}

fn workspace(requests: Vec<RequestDef>) -> Workspace {
    let mut env = Environment::new("dev");
    env.variables.insert("baseUrl".to_string(), EnvVar::plain("http://server.test".to_string()));
    env.variables.insert("apiKey".to_string(), EnvVar::secret());
    let mut secrets = TextMap::new();
    secrets.insert("apiKey".to_string(), "s3cret".to_string());
    let children = requests
        .into_iter()
        .enumerate()
        .map(|(i, def)| {
            TreeNode::Request(RequestNode { file: format!("collections/payments/{i}.request.json"), def })
        })
        .collect();
    Workspace {
        root: "/ws".to_string(),
        meta: WorkspaceMeta::new("Test WS"),
        collections: vec![CollectionNode { meta: meta("Payments", "collections/payments"), children }],
        environments: vec![LoadedEnvironment { env, secrets }],
    }
}

fn status_check(def: &mut RequestDef, value: u16) {
    forge::gui::request_editor::add_check(&mut def.assertions, Check::StatusCode { op: NumberOp::Eq, value });
}

fn extract(def: &mut RequestDef, expr: &str, var: &str) {
    def.extractors.push(Extractor {
        source: ExtractorSource::JsonPath { expr: expr.to_string() },
        var: var.to_string(),
        scope: ExtractScope::Runtime,
        enabled: true,
    });
}

/// Runs a scope against a server that is a function from method, URL and
/// headers to a status and a body.
fn play(
    ws: &Workspace,
    scope: RunScope,
    options: RunOptions,
    server: impl Fn(&str, &str, &[(String, String)]) -> (u16, String),
) -> Result<(Vec<RunEvent>, RunSummary), RunError> {
    let plan = prepare(ws, &scope, &options)?;
    let (mut session, first) = plan.session(options.bail);
    let mut events = vec![first];
    loop {
        let (step, mut told) = session.next(false, 3);
        events.append(&mut told);
        let NextStep::Execute { iteration, index, .. } = step else { break };
        let machine = &mut session.machine;
        let planned = &plan.planned[index];
        let slot = Slot { id: planned.node.file.clone(), name: planned.node.def.name.clone(), iteration };
        let scopes = request_scopes(planned, plan.environment, &plan.iterations[iteration], &machine.runtime);
        let none = Outside { token: None, file: None };
        let resolved =
            resolve_request(&ws.meta.settings, &ws.root, &planned.node.def, &planned.auth_chain, &scopes, &none);
        let unresolved = resolved.as_ref().err().map(|e| e.message());
        let outcome = match (before_send(slot, unresolved, None, &mut machine.runtime), resolved) {
            (Err(outcome), _) => outcome,
            (Ok((slot, log)), Err(e)) => unanswered(slot, e.message(), log, None),
            (Ok((slot, mut log)), Ok(request)) => {
                let (status, body) = server(request.method.as_str(), &request.url, &request.headers);
                let res = ResponseView { status, headers: vec![], body: body.into_bytes(), time_ms: 1 };
                let (assertions, extracted) =
                    check_response(&planned.node.def, &scopes, &res, &mut machine.runtime, &mut log);
                let result =
                    ExecutionResult { status, headers: vec![], body: res.body.clone(), total_ms: res.time_ms };
                after_send(slot, result, assertions, log, extracted, None, &mut machine.runtime)
            }
        };
        events.push(session.finish(outcome));
    }
    Ok((events, session.machine.summary(3)))
}

fn run(
    ws: &Workspace,
    scope: RunScope,
    options: RunOptions,
    server: impl Fn(&str, &str, &[(String, String)]) -> (u16, String),
) -> Result<(Vec<RequestOutcome>, RunSummary), RunError> {
    let (events, summary) = play(ws, scope, options, server)?;
    Ok((outcomes_of(events), summary))
}

fn outcomes_of(events: Vec<RunEvent>) -> Vec<RequestOutcome> {
    let mut outcomes = Vec::new();
    for event in events {
        if let RunEvent::RequestFinished(outcome) = event {
            outcomes.push(*outcome);
        }
    }
    outcomes
}

fn options(data: Option<DataSource>) -> RunOptions {
    RunOptions { environment: Some("dev".to_string()), data, bail: false, delay_ms: 0 }
}

#[test]
fn chained_requests_extract_assert_and_report() {
    let mut create = RequestDef::new("Create Charge", Method::Post, "{{baseUrl}}/charges");
    create.headers.push(KeyValue::new("X-Api-Key", "{{apiKey}}"));
    status_check(&mut create, 201);
    extract(&mut create, "$.id", "chargeId");
    let mut get = RequestDef::new("Get Charge", Method::Get, "{{baseUrl}}/charges/{{chargeId}}");
    status_check(&mut get, 200);
    let mut fails = RequestDef::new("Should Fail", Method::Get, "{{baseUrl}}/maybe-fail");
    status_check(&mut fails, 500);
    let ws = workspace(vec![create, get, fails]);

    let (events, summary) =
        play(&ws, RunScope::Collection("collections/payments".to_string()), options(None), |method, url, headers| {
            match (method, url) {
                ("POST", "http://server.test/charges")
                    if headers.contains(&("X-Api-Key".to_string(), "s3cret".to_string())) =>
                {
                    (201, r#"{"id":"abc"}"#.to_string())
                }
                ("GET", "http://server.test/charges/abc") => (200, r#"{"id":"abc","status":"ok"}"#.to_string()),
                ("GET", "http://server.test/maybe-fail") => (200, String::new()),
                _ => (404, String::new()),
            }
        })
        .expect("run ok");

    assert_eq!(summary.total, 3);
    assert_eq!(summary.passed, 2);
    assert_eq!(summary.failed, 1);
    assert_eq!(summary.skipped, 0);
    assert!(matches!(events[0], RunEvent::RunStarted { total: 3, iterations: 1 }));
    assert!(matches!(events[1], RunEvent::IterationStarted { iteration: 0 }));
    assert!(matches!(&events[2], RunEvent::RequestStarted { name, .. } if name == "Create Charge"));
    assert!(matches!(events.last(), Some(RunEvent::RunFinished(s)) if *s == summary));
    let outcomes = outcomes_of(events);
    assert_eq!(outcomes.len(), 3);
    assert_eq!(outcomes[0].name, "Create Charge");
    assert!(outcomes[0].passed(), "{:?}", outcomes[0]);
    assert_eq!(outcomes[0].extracted, vec![("chargeId".to_string(), "abc".to_string())]);
    assert_eq!(outcomes[1].name, "Get Charge");
    assert!(outcomes[1].passed(), "{:?}", outcomes[1]);
    assert_eq!(outcomes[2].name, "Should Fail");
    assert!(!outcomes[2].passed());

    let junit = junit_xml("Payments", &outcomes, &summary);
    assert!(junit.contains("tests=\"3\""));
    assert!(junit.contains("failures=\"1\""));
    assert!(junit.contains("[iter 0] Should Fail"));
    assert!(junit.contains("<failure"));
}

fn item() -> RequestDef {
    let mut def = RequestDef::new("Get Item", Method::Get, "{{baseUrl}}/items/:id");
    def.params.push(Param { kv: KeyValue::new("id", "{{id}}"), kind: ParamKind::Path });
    status_check(&mut def, 200);
    def
}

fn items_server(ids: &'static [&'static str]) -> impl Fn(&str, &str, &[(String, String)]) -> (u16, String) {
    move |_, url, _| match ids.iter().any(|id| url == format!("http://server.test/items/{id}")) {
        true => (200, String::new()),
        false => (404, String::new()),
    }
}

#[test]
fn csv_data_driven_iterations_parametrize_path() {
    let data = DataSource::CsvFile("items.csv".to_string(), Ok(b"id\n1\n2\n3\n".to_vec()));
    let ws = workspace(vec![item()]);
    let scope = RunScope::Request("collections/payments/0.request.json".to_string());
    let (_, summary) = run(&ws, scope, options(Some(data)), items_server(&["1", "2", "3"])).expect("run ok");
    assert_eq!(summary.total, 3);
    assert_eq!(summary.passed, 3);
    assert_eq!(summary.failed, 0);
}

#[test]
fn json_data_driven_iterations_parametrize_path() {
    let data = DataSource::JsonFile("items.json".to_string(), Ok(r#"[{"id":10},{"id":20}]"#.to_string()));
    let ws = workspace(vec![item()]);
    let scope = RunScope::Request("collections/payments/0.request.json".to_string());
    let (_, summary) = run(&ws, scope, options(Some(data)), items_server(&["10", "20"])).expect("run ok");
    assert_eq!(summary.total, 2);
    assert_eq!(summary.passed, 2);
}

#[test]
fn runtime_vars_do_not_leak_across_iterations() {
    let mut first = RequestDef::new("Extract Token", Method::Get, "{{baseUrl}}/items/:id");
    first.params.push(Param { kv: KeyValue::new("id", "{{id}}"), kind: ParamKind::Path });
    extract(&mut first, "$.token", "token");
    let mut second = RequestDef::new("Use Token", Method::Get, "{{baseUrl}}/use");
    second.headers.push(KeyValue::new("X-Token", "{{token}}"));
    let ws = workspace(vec![first, second]);
    let data = DataSource::JsonFile("data.json".to_string(), Ok(r#"[{"id":"1"},{"id":"2"}]"#.to_string()));
    let (outcomes, summary) = run(&ws, RunScope::Workspace, options(Some(data)), |_, url, _| match url {
        "http://server.test/items/1" => (200, r#"{"token":"row1-token"}"#.to_string()),
        _ => (200, "not-json".to_string()),
    })
    .expect("run ok");
    assert_eq!(outcomes.len(), 4);
    assert_eq!(summary.total, 4);
    assert_eq!(outcomes[0].name, "Extract Token");
    assert_eq!(outcomes[0].extracted, vec![("token".to_string(), "row1-token".to_string())]);
    assert_eq!(outcomes[1].name, "Use Token");
    assert!(outcomes[1].result.is_ok(), "{:?}", outcomes[1].result);
    assert_eq!(outcomes[2].name, "Extract Token");
    assert!(outcomes[2].extracted.is_empty());
    assert_eq!(outcomes[2].script_log.len(), 1);
    assert_eq!(outcomes[3].name, "Use Token");
    assert!(outcomes[3].result.is_err(), "{:?}", outcomes[3].result);
}

#[test]
fn skip_in_runs_is_not_executed() {
    let mut def = RequestDef::new("Skippable", Method::Get, "{{baseUrl}}/skip");
    def.settings.skip_in_runs = true;
    let ws = workspace(vec![def]);
    let scope = RunScope::Request("collections/payments/0.request.json".to_string());
    let machine = prepare(&ws, &scope, &options(None)).expect("plan").machine(false);
    assert_eq!(machine.skips, vec![true]);
    let (events, summary) = play(&ws, scope, options(None), |_, _, _| panic!("nothing is sent")).expect("run ok");
    assert_eq!((summary.total, summary.skipped, summary.passed, summary.failed), (1, 1, 0, 0));
    assert_eq!(events.len(), 2);
}

#[test]
fn bail_stops_after_first_failure() {
    let mut a = RequestDef::new("A", Method::Get, "{{baseUrl}}/a");
    status_check(&mut a, 200);
    let mut b = RequestDef::new("B", Method::Get, "{{baseUrl}}/b");
    status_check(&mut b, 200);
    let ws = workspace(vec![a, b]);
    let mut asked = options(None);
    asked.bail = true;
    let scope = RunScope::Collection("collections/payments".to_string());
    let (_, summary) = run(&ws, scope, asked, |_, url, _| match url {
        "http://server.test/a" => (500, String::new()),
        other => panic!("{other} is not sent"),
    })
    .expect("run ok");
    assert_eq!((summary.total, summary.passed, summary.failed, summary.skipped), (2, 0, 1, 1));
}

#[test]
fn bail_suppresses_iteration_started_for_fully_skipped_iterations() {
    let mut a = RequestDef::new("A", Method::Get, "{{baseUrl}}/a");
    status_check(&mut a, 200);
    let ws = workspace(vec![a]);
    let mut asked = options(Some(DataSource::JsonFile("data.json".to_string(), Ok("[{}, {}]".to_string()))));
    asked.bail = true;
    let scope = RunScope::Collection("collections/payments".to_string());
    let (events, summary) = play(&ws, scope, asked, |_, _, _| (500, String::new())).expect("run ok");
    assert_eq!((summary.total, summary.failed, summary.skipped), (2, 1, 1));
    let announced = events.iter().filter(|e| matches!(e, RunEvent::IterationStarted { .. })).count();
    assert_eq!(announced, 1);
}

#[test]
fn unknown_environment_is_a_run_error() {
    let ws = workspace(vec![item()]);
    let mut asked = options(None);
    asked.environment = Some("nope".to_string());
    let err = prepare(&ws, &RunScope::Workspace, &asked).err().expect("should fail: unknown environment");
    assert!(matches!(err, RunError::EnvironmentNotFound(_)));
    let bad = DataSource::JsonFile("d.json".to_string(), Err("gone".to_string()));
    let err = prepare(&ws, &RunScope::Workspace, &options(Some(bad))).err().expect("no data");
    assert!(matches!(err, RunError::Data(_)));
}

#[test]
fn hooks_after_a_request_extend_its_outcome() {
    let outcome = RequestOutcome {
        id: "a".to_string(),
        name: "A".to_string(),
        iteration: 0,
        result: Ok(ExecutionResult { status: 200, headers: vec![], body: vec![], total_ms: 1 }),
        assertions: vec![],
        script_log: vec![],
        script_error: None,
        extracted: vec![],
    };
    let out = ScriptOutput {
        log: vec!["done".to_string()],
        vars_set: vec![("x".to_string(), "1".to_string())],
        assertions: vec![],
        error: Some("boom".to_string()),
    };
    let mut runtime = TextMap::new();
    let after = note_after_hook(HookKind::AfterEach, &out, outcome, &mut runtime);
    assert!(after.passed());
    assert_eq!(after.script_log, vec!["hook: done".to_string(), "afterEach: boom".to_string()]);
    assert_eq!(runtime.get("x").unwrap(), "1");
    let failing = ScriptOutput {
        log: vec![],
        vars_set: vec![],
        assertions: vec![AssertionOutcome::fail("t", "no")],
        error: None,
    };
    let after = note_after_hook(HookKind::AfterAll, &failing, after, &mut runtime);
    assert!(!after.passed());
}

#[test]
fn a_run_that_cannot_start_is_cleared() {
    let mut state = AppState::new();
    state.run_state = RunState { run_id: Some(4), total: 0, completed: 0 };
    let mut log: Vec<LogLine> = Vec::new();
    run_failed(&mut state, &mut log, 4, "no such scope");
    assert_eq!(state.run_state.run_id, None);
    assert_eq!(log[0].text, "no such scope");
    assert!(state.status.as_ref().unwrap().is_error);
}

#[test]
fn workspaces_are_switched_with_closed_tabs() {
    let mut state = AppState::new();
    assert_eq!(switch_workspace(&mut state, workspace(vec![item()])), None);
    open_request_tab(&mut state, "collections/payments/0.request.json");
    open_request_tab(&mut state, "collections/payments/gone.request.json");
    assert_eq!(state.tabs.len(), 1);
    assert_eq!(switch_workspace(&mut state, workspace(vec![])).as_deref(), Some("/ws"));
    assert!(state.tabs.is_empty());
    assert_eq!(state.active_tab, None);
}

#[test]
fn the_environment_panel_says_why_it_is_empty() {
    let mut state = AppState::new();
    assert!(matches!(environment_panel(&state), EnvironmentPanel::Remark("No workspace open.")));
    state.workspace = Some(workspace(vec![]));
    assert!(matches!(environment_panel(&state), EnvironmentPanel::Remark("No active environment.")));
    state.active_env = Some("gone".to_string());
    assert!(matches!(environment_panel(&state), EnvironmentPanel::Remark("Environment not found.")));
    state.active_env = Some("dev".to_string());
    match environment_panel(&state) {
        EnvironmentPanel::Rows(rows) => assert_eq!(rows.len(), 2),
        other => panic!("{other:?}"),
    }
}

#[test]
fn rows_are_run_by_their_kind() {
    let row = Row {
        path: "/ws/collections/payments".to_string(),
        rel_id: "collections/payments".to_string(),
        depth: 0,
        name: "Payments".to_string(),
        kind: RowKind::Collection,
    };
    let mut state = AppState::new();
    assert!(run_scope(&mut state, scope_of(&row)).is_none());
    state.workspace = Some(workspace(vec![]));
    let command = run_scope(&mut state, scope_of(&row)).unwrap();
    assert!(matches!(command.scope, RunScope::Collection(_)));
    assert_eq!(state.run_state.run_id, Some(command.run_id));
}

#[test]
fn a_reload_that_fails_keeps_the_workspace() {
    let mut state = AppState::new();
    state.workspace = Some(workspace(vec![]));
    reload_workspace(&mut state, Err("unreadable".to_string()));
    assert!(state.workspace.is_some());
    assert_eq!(state.status.as_ref().unwrap().text, "unreadable");
    reload_workspace(&mut state, Ok(workspace(vec![item()])));
    assert_eq!(state.workspace.as_ref().unwrap().collections[0].children.len(), 1);
    assert_eq!(
        delete_question(&PendingAction::DeleteDir("/x".to_string(), "x".to_string())).as_deref(),
        Some("Delete \"x\"? This cannot be undone.")
    );
}

#[test]
fn editors_start_from_offers() {
    let mut params = Vec::new();
    add_blank_row(&mut params);
    assert!(!remove_param(&mut params, None));
    assert!(remove_param(&mut params, Some(0)));
    assert!(params.is_empty());
    let mut part = new_part();
    assert!(part.enabled);
    assert!(choose_content(&mut part, true));
    assert!(matches!(part.content, PartContent::File { .. }));
    assert!(!choose_content(&mut part, true));
    let mut extractor = new_extractor();
    assert!(!choose_source(&mut extractor.source, SourceKind::JsonPath));
    assert!(choose_source(&mut extractor.source, SourceKind::Regex));
}

#[test]
fn settings_are_saved_from_a_draft() {
    let mut state = SettingsState::new();
    assert!(!state.begin_frame(None));
    state.open = true;
    assert!(state.begin_frame(Some(&WorkspaceSettings::default())));
    state.draft.as_mut().unwrap().timeout_ms = 5;
    let apply = Clicks { save: false, apply: true, cancel: false, closed: false };
    assert_eq!(state.end_frame(apply).unwrap().timeout_ms, 5);
    assert!(state.open);
    let cancel = Clicks { save: false, apply: false, cancel: true, closed: false };
    assert!(state.end_frame(cancel).is_none());
    assert!(!state.open);
    assert!(state.draft.is_none());
}

#[test]
fn late_results_do_not_reach_the_editor() {
    let mut ed = V1EditorState::new();
    assert!(ed.run_now().is_none());
    ed.open_new("/p".to_string(), None, None);
    assert!(ed.text.contains("\"id\": \"new.request\""));
    assert!(ed.dirty);
    let asked = ed.run_now().unwrap();
    assert_eq!(asked.file, "/p/__unsaved__.request.json");
    ed.handle_result(asked.run_id + 7, Err("late".to_string()));
    assert!(ed.in_flight);
    ed.handle_result(asked.run_id, Err("refused".to_string()));
    assert!(!ed.in_flight);
    assert_eq!(ed.diagnostics, vec!["refused".to_string()]);
    ed.text = "{}".to_string();
    ed.cursor = 1;
    ed.insert("ä");
    assert_eq!(ed.text, "{ä}");
    assert_eq!(ed.cursor, 3);
    ed.cursor = 2;
    assert!(!ed.can_insert());
    ed.text = "abcdefgh".to_string();
    ed.cursor = byte_offset("aä€b", 3);
    assert!(ed.can_insert());
    ed.insert("-");
    assert_eq!(ed.text, "abcdef-gh");
    ed.cursor = 100;
    ed.insert("!");
    assert_eq!(ed.text, "abcdef-gh!");
    assert_eq!(ed.cursor, 10);
    ed.open_file("/p/a.request.json".to_string(), "[]".to_string(), "/p".to_string(), None, None);
    assert!(!ed.dirty);
}

#[test]
fn assets_are_listed_by_kind() {
    let row = |kind: &str, alias: Option<&str>, path: &str| AssetRow {
        kind: kind.to_string(),
        alias: alias.map(str::to_string),
        prefix_ref: None,
        rel_path: path.to_string(),
        used_by: 2,
    };
    let lines = list_assets(&vec![row("data", Some("data:users"), "assets/users.json"), row("data", None, "assets/x.json")]);
    assert_eq!(lines[0], "data:");
    assert_eq!(lines[1], "  data:users  (assets/users.json, used by 2)");
    assert_eq!(lines.len(), 3);
    let (_, code) = describe_lock_check(&Ok(vec![]), 3);
    assert_eq!(code, 0);
    let drift = vec![Diagnostic::new(Code::AssetError, "changed".to_string())];
    let (lines, code) = describe_lock_check(&Ok(drift), 3);
    assert_eq!(code, 1);
    assert!(matches!(lines.last(), Some(Line::Note(s)) if s == "1 drift(s)"));
    assert_eq!(describe_lock_check(&Err(Diagnostic::new(Code::AssetError, "x".to_string())), 0).1, 2);
}

#[test]
fn members_are_ordered_by_key() {
    assert_eq!(print(&parse(r#"{"b":1,"a":2,"ä":3}"#).unwrap()), r#"{"a":2,"b":1,"ä":3}"#);
}

#[test]
fn bytes_that_are_no_text_are_replaced() {
    let res = ResponseView { status: 200, headers: vec![], body: vec![b'a', 0xff, b'b'], time_ms: 0 };
    assert_eq!(res.text(), "a\u{FFFD}b");
    assert!(res.json().is_none());
}

#[test]
fn names_are_quoted_in_messages() {
    let err = run_generator("a\"b", Some(1), "builtin:x@1").unwrap_err();
    assert_eq!(err.message, "unknown builtin generator \"a\\\"b\"");
}

#[test]
fn themes_have_their_colors() {
    assert_eq!(ThemeKind::Darcula.ok_color(), (0x5F, 0xAD, 0x65));
    assert_eq!(ThemeKind::Light.error_color(), (0xC7, 0x54, 0x50));
}
