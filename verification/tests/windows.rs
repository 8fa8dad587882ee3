//! The decisions of the desktop program.

use forge::gui::app::{
    clear_run, environment_rows, handle_run_event, running_text, save_all, save_tab, save_target, send_active, toggle_tool,
    run_workspace, LogLevel,
};
use forge::gui::assets::{
    active_request_dir, child_ref, children, escape_ptr, shorten, try_preview, AssetEntry, AssetKind, AssetsState,
    ProjectIndex, Usage,
};
use forge::gui::bridge::{
    restore_cookies, set_cookie_text, Action, BridgeState, Cmd, StoredCookie, TaskEvent,
};
use forge::gui::collections::{
    apply_pending, finish_pending, flatten, modal_title, rel_id_of, CollectionsUiState, PendingAction, RowKind,
    StoreChange,
};
use forge::gui::git::{add, commit, read_status, restore, FileStatus, GitState};
use forge::gui::local::{apply, capture, path_for};
use forge::gui::request_editor::{
    add_blank_row, build_scopes, choose_auth, choose_body, default_checks, override_setting, removable, set_prefix,
    set_text, shown_prefix, url_pieces, AuthKind, BodyKind, Setting, SourceKind,
};
use forge::gui::settings::{save_http_settings, HttpDraft};
use forge::gui::state::{AppState, BottomTool, RunState};
use forge::gui::theme::{method_color, ThemeKind};
use forge::gui::v1_editor::{byte_offset, snippet_for, try_short};
use forge::json::{parse, Json};
use forge::map::TextMap;
use forge::model::auth::AuthConfig;
use forge::model::body::BodyDef;
use forge::model::environment::{EnvVar, Environment};
use forge::model::request::{RequestDef, ScriptLang, SuiteHooks};
use forge::model::workspace::{WorkspaceMeta, WorkspaceSettings};
use forge::model::Method;
use forge::runner::plan::RunScope;
use forge::runner::run::{ExecutionResult, RequestOutcome, RunEvent, RunSummary};
use forge::store::{CollectionNode, FolderNode, LoadedEnvironment, NodeMeta, RequestNode, TreeNode, Workspace};

fn dummy_outcome(id: &str) -> RequestOutcome {
    RequestOutcome {
        id: id.to_string(),
        name: "Req".to_string(),
        iteration: 0,
        result: Err("boom".to_string()),
        assertions: Vec::new(),
        script_log: Vec::new(),
        script_error: None,
        extracted: Vec::new(),
    }
}

#[test]
fn stale_run_events_do_not_corrupt_current_run_state() {
    let mut state = AppState::new();
    let mut log = Vec::new();
    state.run_state = RunState { run_id: Some(2), total: 5, completed: 1 };

    handle_run_event(&mut state, &mut log, 1, RunEvent::RequestFinished(Box::new(dummy_outcome("req-a"))));
    assert_eq!(
        state.run_state.completed, 1,
        "a RequestFinished from a stale run_id must not bump the current run's completed count"
    );

    let summary = RunSummary { total: 1, passed: 1, failed: 0, skipped: 0, duration_ms: 5 };
    handle_run_event(&mut state, &mut log, 1, RunEvent::RunFinished(summary));
    assert_eq!(
        state.run_state.run_id,
        Some(2),
        "a RunFinished from a stale run_id must not clear the current run's run_id"
    );
    assert!(
        state.status.is_none(),
        "a RunFinished from a stale run_id must not post a status toast for the current run"
    );

    handle_run_event(&mut state, &mut log, 2, RunEvent::RequestFinished(Box::new(dummy_outcome("req-b"))));
    assert_eq!(state.run_state.completed, 2);
    assert_eq!(log[0].text, "Req: boom");
    assert_eq!(log[0].level, LogLevel::Error);
}

fn meta(name: &str, dir: &str) -> NodeMeta {
    NodeMeta {
        name: name.to_string(),
        dir: dir.to_string(),
        variables: TextMap::new(),
        auth: AuthConfig::Inherit,
        hooks: SuiteHooks {
            before_all: None,
            before_each: None,
            after_each: None,
            after_all: None,
            language: ScriptLang::Rhai,
        },
    }
}

fn request(name: &str, file: &str) -> TreeNode {
    TreeNode::Request(RequestNode { file: file.to_string(), def: RequestDef::new(name, Method::Get, "https://x") })
}

fn workspace() -> Workspace {
    let mut folder = meta("Admin", "collections/pay/admin");
    folder.variables.insert("v".to_string(), "folder".to_string());
    let mut col = meta("Pay", "collections/pay");
    col.variables.insert("v".to_string(), "collection".to_string());
    let mut env = Environment::new("dev");
    env.variables.insert("key".to_string(), EnvVar::secret());
    env.variables.insert("other".to_string(), EnvVar::secret());
    env.variables.insert("plain".to_string(), EnvVar::plain("p".to_string()));
    let mut secrets = TextMap::new();
    secrets.insert("key".to_string(), "s3cret".to_string());
    Workspace {
        root: "/ws".to_string(),
        meta: WorkspaceMeta::new("Demo"),
        collections: vec![CollectionNode {
            meta: col,
            children: vec![
                request("A", "collections/pay/a.request.json"),
                TreeNode::Folder(FolderNode {
                    meta: folder,
                    children: vec![request("B", "collections/pay/admin/b.request.json")],
                }),
            ],
        }],
        environments: vec![LoadedEnvironment { env, secrets }],
    }
}

const A: &str = "collections/pay/a.request.json";
const B: &str = "collections/pay/admin/b.request.json";

fn opened() -> AppState {
    let mut state = AppState::new();
    state.workspace = Some(workspace());
    state.open_tab(A.to_string(), RequestDef::new("A", Method::Get, "https://x"));
    state.open_tab(B.to_string(), RequestDef::new("B", Method::Get, "https://x"));
    state
}

#[test]
fn a_request_has_one_tab() {
    let mut state = opened();
    assert_eq!(state.active_tab, Some(1));
    state.open_tab(A.to_string(), RequestDef::new("A", Method::Get, "https://x"));
    assert_eq!(state.tabs.len(), 2);
    assert_eq!(state.active_tab, Some(0));
    state.close_tab(0);
    assert_eq!(state.tabs.len(), 1);
    assert_eq!(state.active_tab, Some(0));
    state.close_tab(0);
    assert_eq!(state.active_tab, None);
}

#[test]
fn sending_puts_the_tab_into_a_run() {
    let mut state = opened();
    state.active_env = Some("dev".to_string());
    let command = send_active(&mut state).unwrap();
    assert_eq!(command.environment.as_deref(), Some("dev"));
    assert!(matches!(&command.scope, RunScope::Request(id) if id == B));
    assert_eq!(state.tabs[1].run_id, Some(command.run_id));
    assert_eq!(running_text(&state).as_deref(), Some("Running 0/1"));
    let mut log = Vec::new();
    handle_run_event(&mut state, &mut log, command.run_id, RunEvent::RequestFinished(Box::new(dummy_outcome(B))));
    assert_eq!(state.tabs[1].run_id, None);
    assert!(state.tabs[1].response.is_some());
    let summary = RunSummary { total: 1, passed: 0, failed: 1, skipped: 0, duration_ms: 5 };
    handle_run_event(&mut state, &mut log, command.run_id, RunEvent::RunFinished(summary));
    let status = state.status.as_ref().unwrap();
    assert_eq!(status.text, "Run finished: 0/1 passed");
    assert!(status.is_error);
    assert_eq!(running_text(&state), None);
}

#[test]
fn a_tab_shows_the_answer_of_its_request() {
    let mut state = opened();
    let command = send_active(&mut state).unwrap();
    let mut outcome = dummy_outcome(B);
    outcome.result = Ok(ExecutionResult {
        status: 201,
        headers: vec![("X-A".to_string(), "1".to_string())],
        body: b"{}".to_vec(),
        total_ms: 12,
    });
    let mut log = Vec::new();
    handle_run_event(&mut state, &mut log, command.run_id, RunEvent::RequestFinished(Box::new(outcome)));
    toggle_tool(&mut state, BottomTool::Log);
    clear_run(&mut state, command.run_id);
    let shown = state.tabs[1].response.as_ref().unwrap().result.as_ref().unwrap();
    assert_eq!((shown.status, shown.total_ms, shown.body.as_slice()), (201, 12, b"{}".as_slice()));
    assert_eq!(shown.headers, vec![("X-A".to_string(), "1".to_string())]);
    assert!(state.tabs[0].response.is_none());
}

#[test]
fn nothing_runs_without_a_workspace() {
    let mut state = AppState::new();
    assert!(run_workspace(&mut state).is_none());
    assert_eq!(state.status.as_ref().unwrap().text, "No workspace open");
    assert!(send_active(&mut state).is_none());
}

#[test]
fn saving_clears_the_mark() {
    let mut state = opened();
    state.tabs[0].dirty = true;
    state.tabs[1].dirty = true;
    assert_eq!(save_target(&state, 0).as_deref(), Some("/ws/collections/pay/a.request.json"));
    save_tab(&mut state, 0, Ok(()));
    assert!(!state.tabs[0].dirty);
    assert_eq!(state.status.as_ref().unwrap().text, "Saved A");
    save_all(&mut state, vec![Ok(()), Err("disk full".to_string())]);
    assert!(state.tabs[1].dirty);
    assert_eq!(state.status.as_ref().unwrap().text, "disk full");
}

#[test]
fn tool_windows_open_and_close() {
    let mut state = AppState::new();
    toggle_tool(&mut state, BottomTool::Log);
    assert_eq!(state.bottom_tool, Some(BottomTool::Log));
    toggle_tool(&mut state, BottomTool::Run);
    assert_eq!(state.bottom_tool, Some(BottomTool::Run));
    toggle_tool(&mut state, BottomTool::Run);
    assert_eq!(state.bottom_tool, None);
}

#[test]
fn secrets_do_not_show() {
    let ws = workspace();
    let rows = environment_rows(&ws.environments[0]);
    assert_eq!(rows[0], ("key".to_string(), "\u{2022}".repeat(8)));
    assert_eq!(rows[1], ("other".to_string(), "(not set)".to_string()));
    assert_eq!(rows[2], ("plain".to_string(), "p".to_string()));
}

#[test]
fn windows_come_back() {
    let mut state = opened();
    state.active_tab = Some(0);
    state.active_env = Some("dev".to_string());
    state.theme = ThemeKind::Light;
    state.show_environment = false;
    state.bottom_tool = Some(BottomTool::History);
    let snapshot = capture(&state);
    assert_eq!(snapshot.theme, "Light");
    assert_eq!(snapshot.bottom_panel_selected.as_deref(), Some("History"));
    let mut fresh = AppState::new();
    fresh.workspace = Some(workspace());
    apply(&mut fresh, snapshot);
    assert_eq!(fresh.tabs.iter().map(|t| t.rel_id.as_str()).collect::<Vec<_>>(), vec![A, B]);
    assert_eq!(fresh.active_tab, Some(0));
    assert_eq!(fresh.active_env.as_deref(), Some("dev"));
    assert_eq!(fresh.theme, ThemeKind::Light);
    assert!(!fresh.show_environment);
    assert_eq!(fresh.bottom_tool, Some(BottomTool::History));
    assert_eq!(path_for("/ws"), "/ws/.forge-local/ui-state.json");
}

#[test]
fn requests_that_are_gone_stay_closed() {
    let mut snapshot = capture(&opened());
    snapshot.open_tabs.push("collections/pay/gone.request.json".to_string());
    snapshot.active_tab = 7;
    snapshot.theme = "Unknown".to_string();
    let mut fresh = AppState::new();
    fresh.workspace = Some(workspace());
    apply(&mut fresh, snapshot);
    assert_eq!(fresh.tabs.len(), 2);
    assert_eq!(fresh.active_tab, Some(1));
    assert_eq!(fresh.theme, ThemeKind::Darcula);
}

#[test]
fn trees_flatten_to_rows() {
    let ws = workspace();
    let mut ui = CollectionsUiState::new();
    let rows = flatten(&ws.collections, "/ws", &ui.collapsed);
    let seen: Vec<(usize, &str)> = rows.iter().map(|r| (r.depth, r.name.as_str())).collect();
    assert_eq!(seen, vec![(0, "Pay"), (1, "A"), (1, "Admin"), (2, "B")]);
    assert_eq!(rows[1].kind, RowKind::Request { method: Method::Get });
    ui.toggle("collections/pay/admin");
    assert_eq!(flatten(&ws.collections, "/ws", &ui.collapsed).len(), 3);
    ui.toggle("collections/pay/admin/");
    assert_eq!(flatten(&ws.collections, "/ws", &ui.collapsed).len(), 4);
}

#[test]
fn ids_are_relative_to_the_root() {
    assert_eq!(rel_id_of("/ws", "/ws/a/b.json"), "a/b.json");
    assert_eq!(rel_id_of("/ws", "/wsx/a"), "/wsx/a");
    assert_eq!(rel_id_of("/ws", "a\\b"), "a/b");
}

#[test]
fn dialogs_settle() {
    let mut ui = CollectionsUiState::new();
    ui.ask(PendingAction::RenameRequest("/ws/a".to_string(), "A".to_string()));
    assert_eq!(ui.pending_input, "A");
    assert!(ui.settle(false, false, true).is_none());
    assert!(ui.pending.is_some());
    assert!(ui.settle(true, false, true).is_some());
    assert!(ui.pending.is_none());
    ui.ask(PendingAction::NewCollection);
    assert_eq!(ui.pending_input, "");
    assert!(ui.settle(false, true, true).is_none());
    assert!(ui.pending.is_none());
    assert_eq!(modal_title(&PendingAction::NewFolder("x".to_string())), ("New Folder", false));
}

#[test]
fn nothing_is_made_without_a_name() {
    let new = PendingAction::NewFolder("/ws/c".to_string());
    assert!(apply_pending(&new, "  ", Some("/ws")).is_none());
    match apply_pending(&new, " F ", Some("/ws")) {
        Some(StoreChange::CreateFolder { parent, name }) => assert_eq!((parent.as_str(), name.as_str()), ("/ws/c", "F")),
        other => panic!("{other:?}"),
    }
    assert!(apply_pending(&PendingAction::NewCollection, "C", None).is_none());
    let delete = PendingAction::DeleteDir("/ws/c".to_string(), "c".to_string());
    assert!(apply_pending(&delete, "", None).is_some());
}

#[test]
fn a_renamed_request_keeps_its_tab() {
    let mut state = opened();
    let change = StoreChange::RenameRequest { file: format!("/ws/{A}"), name: "New".to_string() };
    finish_pending(&mut state, &change, Ok("/ws/collections/pay/new.request.json".to_string()));
    assert_eq!(state.tabs[0].rel_id, "collections/pay/new.request.json");
    assert_eq!(state.tabs[0].def.name, "New");
    finish_pending(&mut state, &change, Err("no".to_string()));
    assert_eq!(state.status.as_ref().unwrap().text, "no");
}

#[test]
fn kinds_start_afresh() {
    let mut auth = AuthConfig::Inherit;
    assert!(choose_auth(&mut auth, AuthKind::Basic));
    assert!(matches!(auth, AuthConfig::Basic { .. }));
    assert!(!choose_auth(&mut auth, AuthKind::Basic));
    for kind in AuthKind::all() {
        assert_eq!(AuthKind::of(&kind.default_config()), Some(kind));
    }
    for kind in BodyKind::all() {
        assert_eq!(BodyKind::of(&kind.default_body()), kind);
    }
    for kind in SourceKind::all() {
        assert_eq!(SourceKind::of(&kind.default_source()), kind);
    }
    let mut body = BodyDef::Json { text: "{}".to_string() };
    assert!(!choose_body(&mut body, BodyKind::Json));
    assert!(choose_body(&mut body, BodyKind::Xml));
    assert_eq!(AuthKind::ApiKey.label(), "API Key");
}

#[test]
fn empty_fields_set_nothing() {
    assert_eq!(set_prefix("Bearer".to_string()), None);
    assert_eq!(set_prefix("Token".to_string()).as_deref(), Some("Token"));
    assert_eq!(shown_prefix(&None), "Bearer");
    assert_eq!(set_text(String::new()), None);
    assert_eq!(set_text("x".to_string()).as_deref(), Some("x"));
}

#[test]
fn tables_end_in_a_blank_row() {
    let mut params = Vec::new();
    add_blank_row(&mut params);
    add_blank_row(&mut params);
    assert_eq!(params.len(), 1);
    assert!(!removable(&params, 0));
    params[0].kv.key = "k".to_string();
    assert!(removable(&params, 0));
    add_blank_row(&mut params);
    assert_eq!(params.len(), 2);
}

#[test]
fn checks_are_offered() {
    let checks = default_checks();
    assert_eq!(checks.len(), 9);
    assert_eq!(checks[0].label, "Status code");
}

#[test]
fn overrides_start_with_defaults() {
    let mut def = RequestDef::new("r", Method::Get, "https://x");
    override_setting(&mut def.settings, Setting::Timeout, true);
    assert_eq!(def.settings.timeout_ms, Some(30_000));
    override_setting(&mut def.settings, Setting::MaxRedirects, true);
    assert_eq!(def.settings.max_redirects, Some(10));
    override_setting(&mut def.settings, Setting::Timeout, false);
    assert_eq!(def.settings.timeout_ms, None);
}

#[test]
fn editors_see_the_scopes_of_a_request() {
    let ws = workspace();
    let scopes = build_scopes(&ws, B, Some("dev"));
    assert_eq!(scopes.get("v").unwrap(), "folder");
    assert_eq!(scopes.get("key").unwrap(), "s3cret");
    let scopes = build_scopes(&ws, A, None);
    assert_eq!(scopes.get("v").unwrap(), "collection");
    assert!(scopes.get("key").is_none());
}

#[test]
fn variables_are_set_apart() {
    let pieces = url_pieces("{{base}}/x/{{id}}");
    let seen: Vec<(&str, bool)> = pieces.iter().map(|p| (p.text.as_str(), p.variable)).collect();
    assert_eq!(seen, vec![("{{base}}", true), ("/x/", false), ("{{id}}", true)]);
    assert_eq!(url_pieces("plain{{").len(), 1);
}

fn cookie(domain: &str) -> StoredCookie {
    StoredCookie {
        domain: domain.to_string(),
        path: "/".to_string(),
        name: "session".to_string(),
        value: "v".to_string(),
        expires: Some(0),
        secure: true,
        http_only: false,
    }
}

#[test]
fn loading_cookies_clears_the_jar_first() {
    let mut bridge = BridgeState::new();
    bridge.step(Cmd::LoadCookies { path: "/a/cookies.json".to_string() });
    let actions = bridge.step(Cmd::LoadCookies { path: "/b/cookies.json".to_string() });
    assert!(matches!(actions[0], Action::DropAllCookies));
    assert!(matches!(&actions[1], Action::ReadCookies { path } if path == "/b/cookies.json"));
    assert!(matches!(actions[2], Action::ReportCookies));
    let actions = bridge.step(Cmd::Shutdown);
    assert!(matches!(&actions[0], Action::SaveCookies { path } if path == "/b/cookies.json"));
    assert!(matches!(actions[1], Action::Stop));
}

#[test]
fn only_what_is_open_is_closed() {
    let mut bridge = BridgeState::new();
    assert!(bridge.step(Cmd::WsClose { conn_id: 1 }).is_empty());
    bridge.task(TaskEvent::WsOpened(1));
    assert_eq!(bridge.step(Cmd::WsClose { conn_id: 1 }).len(), 1);
    bridge.task(TaskEvent::WsEnded(1));
    assert!(bridge.step(Cmd::WsSend { conn_id: 1, msg: "x".to_string() }).is_empty());
    bridge.step(Cmd::SseSubscribe { conn_id: 2, url: "http://x".to_string(), headers: vec![] });
    assert_eq!(bridge.step(Cmd::SseClose { conn_id: 2 }).len(), 1);
    assert!(bridge.step(Cmd::SseClose { conn_id: 2 }).is_empty());
    assert!(bridge.step(Cmd::Cancel { run_id: 3 }).is_empty());
    assert!(bridge.task(TaskEvent::RunEnded(3)).is_empty());
}

#[test]
fn cookies_are_replayed_as_headers() {
    assert_eq!(
        set_cookie_text(&cookie("x.test")),
        "session=v; Domain=x.test; Path=/; Secure; Expires=Thu, 1 Jan 1970 00:00:00 GMT"
    );
    let restored = restore_cookies(&vec![cookie("x.test"), cookie("not a host")]);
    assert_eq!(restored.len(), 1);
    assert_eq!(restored[0].0, "https://x.test/");
}

fn asset(kind: AssetKind, alias: &str) -> AssetEntry {
    AssetEntry {
        path: String::new(),
        rel_path: "assets/x".to_string(),
        kind,
        alias: Some(alias.to_string()),
        prefix_ref: None,
        used_by: Vec::<Usage>::new(),
        data: None,
    }
}

#[test]
fn snippet_shapes_per_kind() {
    assert!(snippet_for(&asset(AssetKind::Data, "data:users"), "data:users").contains("\"ref\""));
    assert!(snippet_for(&asset(AssetKind::Hook, "project:hooks/x"), "project:hooks/x")
        .contains("\"phase\": \"beforeRequest\""));
    assert!(snippet_for(&asset(AssetKind::Assertion, "project:assertions/x"), "project:assertions/x")
        .contains("afterResponse"));
}

#[test]
fn byte_offset_handles_multibyte() {
    assert_eq!(byte_offset("aä€b", 3), 6);
}

#[test]
fn escape_pointer_segment() {
    assert_eq!(escape_ptr("a/b"), "a~1b");
    assert_eq!(escape_ptr("m~n"), "m~0n");
}

#[test]
fn preview_truncates_long_values() {
    let long = Json::String("x".repeat(80));
    assert!(try_preview(&long).unwrap().ends_with('…'));
    assert_eq!(try_preview(&parse("[1]").unwrap()).as_deref(), Some("[1]"));
    assert!(try_short(&long).unwrap().ends_with('…'));
    assert_eq!(shorten("ab", 5), "ab");
}

#[test]
fn scanning_the_fixture_project_populates_the_index() {
    let mut users = asset(AssetKind::Data, "data:users");
    users.rel_path = "assets/data/users.json".to_string();
    let mut st = AssetsState::new();
    st.load("/p".to_string(), Ok(ProjectIndex { root: "/p".to_string(), assets: vec![users], requests: vec![], environments: vec![], broken: vec![] }));
    assert!(st.is_loaded());
    let index = st.index.as_ref().unwrap();
    assert!(index.assets.iter().any(|a| a.rel_path == "assets/data/users.json"));
    st.load("/p".to_string(), Err("gone".to_string()));
    assert!(!st.is_loaded());
}

#[test]
fn values_can_be_walked() {
    let v = parse(r#"{"a":[1,2],"b/c":null}"#).unwrap();
    assert_eq!(children(&v), vec!["a".to_string(), "b~1c".to_string()]);
    let (pointer, reference) = child_ref("data:users", "/a", "b~1c");
    assert_eq!(pointer, "/a/b~1c");
    assert_eq!(reference, "data:users#/a/b~1c");
    assert_eq!(active_request_dir(Some("/ws"), Some("a/b.json")).as_deref(), Some("/ws/a"));
    assert_eq!(active_request_dir(None, Some("a/b.json")), None);
}

#[test]
fn status_lines_are_read() {
    let porcelain = " M a.txt\n?? sub/x.txt\nUU c.txt\nA  d.txt\nR  old -> new.txt\nR  a -> -> b\n".to_string();
    let st = read_status(Some("/r\n".to_string()), Some("main\n".to_string()), None, Some(porcelain)).expect("repo");
    assert_eq!(st.branch.as_deref(), Some("main"));
    assert_eq!(st.of("/r/a.txt"), Some(FileStatus::Modified));
    assert_eq!(st.of("/r/sub"), Some(FileStatus::Untracked));
    assert_eq!(st.of("/r/c.txt"), Some(FileStatus::Conflicted));
    assert_eq!(st.of("/r/d.txt"), Some(FileStatus::Added));
    assert_eq!(st.of("/r/new.txt"), Some(FileStatus::Modified));
    assert_eq!(st.of("/r/b"), Some(FileStatus::Modified));
    assert_eq!(st.of("/r/e.txt"), None);
}

#[test]
fn non_repo_returns_none() {
    assert!(read_status(None, None, None, None).is_none());
}

#[test]
fn git_is_asked_about_one_path() {
    assert_eq!(add("/r/a.txt"), vec!["add", "--", "/r/a.txt"]);
    assert_eq!(commit("/r/a.txt", "add a"), vec!["commit", "-m", "add a", "--", "/r/a.txt"]);
    assert_eq!(restore("/r/a.txt").0.last().unwrap(), "/r/a.txt");
    let mut git = GitState { status: None, last_refresh: None };
    assert!(git.due(0, false));
    git.refresh(0, false, None);
    assert!(!git.due(3_999, false));
    assert!(!git.due(4_000, false));
    assert!(git.due(4_001, false));
    assert!(git.due(1, true));
}

#[test]
fn drafts_keep_settings() {
    let settings = WorkspaceSettings::default();
    let draft = HttpDraft::from_settings(&settings);
    let back = draft.to_settings();
    assert!(back.is_default());
    assert_eq!(save_http_settings(true, Ok(())).text, "Settings saved");
    assert!(save_http_settings(false, Ok(())).is_error);
}

#[test]
fn colors_follow_the_theme() {
    assert_eq!(ThemeKind::Light.editor_bg(), (255, 255, 255));
    assert_eq!(method_color(Method::Get), (0x49, 0x9C, 0x54));
    assert_eq!(ThemeKind::from_label("Light"), Some(ThemeKind::Light));
    assert_eq!(ThemeKind::from_label("Blue"), None);
    assert_eq!(BottomTool::from_label("Cookies"), Some(BottomTool::Cookies));
}
