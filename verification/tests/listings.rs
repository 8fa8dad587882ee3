//! What the commands list, and the browser of assets.

use forge::cli::{AssetRow, Line};
use forge::gui::assets::{
    asset_list, describe_broken, fold_over, AssetEntry, AssetKind, BrokenRef, RequestEntry, Usage,
};
use forge::gui::nodes::{browser_label, list_nodes, node_snippet, palette_label, Held};
use forge::gui::v1_editor::{results_strip, V1EditorState};
use forge::json::{parse, print, Json, Num};
use forge::listing::{
    check_frozen, describe_call, describe_lock_written, describe_method, describe_route, find_route, list_index,
    list_workspace, mock_reply, route_path, run_v1_exit, run_v1_start, MethodInfo, Route,
};
use forge::map::TextMap;
use forge::pointer::find;
use forge::protocols::GrpcResponse;
use forge::reqv1::diag::{Code, Diagnostic};
use forge::reqv1::pipeline::{AssertionResult, ResponseView};
use forge::reqv1::runner::{failed_execution, HttpResultView, RunResult, RunStatus};
use forge::reqv1::sequence::Sequence;
use forge::store::stem_of;

fn text(line: &Line) -> String {
    match line {
        Line::Out(s) => format!("out {s}"),
        Line::Note(s) => format!("note {s}"),
    }
}

#[test]
fn a_project_is_listed_with_its_broken_references() {
    let asset = AssetRow {
        kind: "data".to_string(),
        alias: None,
        prefix_ref: Some("data:users".to_string()),
        rel_path: "assets/users.json".to_string(),
        used_by: 1,
    };
    let request = RequestEntry {
        id: "users.list".to_string(),
        path: "/p/requests/users.request.json".to_string(),
        rel_path: "requests/users.request.json".to_string(),
        refs: vec!["data:users".to_string(), "data:gone".to_string()],
    };
    let broken = BrokenRef {
        request: "users.list".to_string(),
        instance_path: "/bindings/u".to_string(),
        reference: "data:gone".to_string(),
        message: "no such file".to_string(),
    };
    let envs = vec!["dev".to_string(), "prod".to_string()];
    let (lines, code) = list_index(&vec![asset], &vec![request], &envs, &vec![broken]);
    let shown: Vec<String> = lines.iter().map(text).collect();
    assert_eq!(
        shown,
        vec![
            "out data:",
            "out   data:users  (assets/users.json, used by 1)",
            "out requests:",
            "out   users.list  (requests/users.request.json, 2 ref(s))",
            "out environments: dev, prod",
            "note broken refs:",
            "note   users.list /bindings/u \"data:gone\": no such file",
        ]
    );
    assert_eq!(code, 1);
    let (lines, code) = list_index(&vec![], &vec![], &vec![], &vec![]);
    assert!(lines.is_empty());
    assert_eq!(code, 0);
    assert!(list_workspace(&vec![]).is_empty());
}

#[test]
fn a_frozen_run_needs_a_clean_lock_file() {
    let drift = || Diagnostic::new(Code::AssetError, "changed".to_string());
    assert!(check_frozen(&Ok(vec![])).is_ok());
    let said = check_frozen(&Ok(vec![drift()])).unwrap_err();
    assert_eq!(text(&said[1]), "note error: --frozen and the project drifted from .forge/lock.json");
    let said = check_frozen(&Err(drift())).unwrap_err();
    assert_eq!(text(&said[0]), "note error: --frozen: changed");
    let (line, code) = describe_lock_written(&Ok(4));
    assert_eq!(text(&line), "out wrote .forge/lock.json (4 asset(s))");
    assert_eq!(code, 0);
    assert_eq!(describe_lock_written(&Err(drift())).1, 2);
}

#[test]
fn a_run_of_documents_that_cannot_start_ends_with_two() {
    let wrong = || Diagnostic::new(Code::AssetError, "x".to_string()).at("/matrix/a");
    let env = || Ok(Json::Null);
    let start = run_v1_start(None, &env(), &Ok(()), &Ok(vec![]));
    assert!(start.is_ok());
    let result = |status: RunStatus| {
        let mut result = failed_execution("r", vec![], 0).result;
        result.status = status;
        result
    };
    assert_eq!(run_v1_exit(&start, &vec![result(RunStatus::Failed), result(RunStatus::Passed)]), 1);
    assert_eq!(run_v1_exit(&start, &vec![result(RunStatus::Error), result(RunStatus::Failed)]), 2);
    assert_eq!(run_v1_exit(&start, &vec![result(RunStatus::Passed)]), 0);
    assert!(run_v1_start(Some(Ok(vec![])), &env(), &Ok(()), &Ok(vec![])).is_ok());
    let refused = [
        run_v1_start(Some(Ok(vec![wrong()])), &env(), &Ok(()), &Ok(vec![])),
        run_v1_start(Some(Err(wrong())), &env(), &Ok(()), &Ok(vec![])),
        run_v1_start(None, &Err(wrong()), &Ok(()), &Ok(vec![])),
        run_v1_start(None, &env(), &Err("cannot read a".to_string()), &Ok(vec![])),
        run_v1_start(None, &env(), &Ok(()), &Err(vec![wrong()])),
    ];
    for start in &refused {
        assert!(matches!(start, Err((_, 2))));
        assert_eq!(run_v1_exit(start, &vec![result(RunStatus::Passed)]), 2);
    }
    let said = |i: usize| text(&refused[i].as_ref().unwrap_err().0[0]);
    assert_eq!(said(2), "note error: x");
    assert_eq!(said(3), "note error: cannot read a");
    assert!(said(4).ends_with("/matrix/a x"));
}

#[test]
fn grpc_methods_and_answers_are_printed() {
    let m = MethodInfo {
        path: "/pkg.Svc/Get".to_string(),
        input_type: "pkg.Req".to_string(),
        output_type: "pkg.Res".to_string(),
        is_unary: true,
    };
    assert_eq!(describe_method(&m), "/pkg.Svc/Get  pkg.Req -> pkg.Res  [unary]");
    let response = GrpcResponse {
        messages: vec!["{}".to_string(), "{\"a\":1}".to_string()],
        metadata: vec![("k".to_string(), "v".to_string())],
    };
    let (lines, code) = describe_call(&Ok(response));
    let shown: Vec<String> = lines.iter().map(text).collect();
    assert_eq!(shown, vec!["out {}", "out {\"a\":1}", "note # k: v"]);
    assert_eq!(code, 0);
    let (lines, code) = describe_call(&Err("unreachable".to_string()));
    assert_eq!(text(&lines[0]), "note error: unreachable");
    assert_eq!(code, 1);
}

#[test]
fn a_mock_server_answers_by_method_and_path() {
    let route = |method: &str, path: &str| Route {
        method: method.to_string(),
        path: path.to_string(),
        id: "a".to_string(),
    };
    let routes = vec![route("GET", "/a"), route("POST", "/a")];
    assert_eq!(describe_route(&routes[0]), "  GET /a  → a");
    assert_eq!(route_path("http://x.test/a%20b?q=1#f"), "/a%20b");
    assert_eq!(route_path("/a?q=1"), "/a");
    assert_eq!(find_route(&routes, "POST", "/a"), Some(1));
    assert_eq!(find_route(&routes, "POST", "/b"), None);
    let given = ResponseView { status: 201, headers: vec![], body: b"x".to_vec(), time_ms: 0 };
    assert_eq!(mock_reply(Ok(Some(given))).status, 201);
    let missing = mock_reply(Ok(None));
    assert_eq!((missing.status, missing.body), (404, b"no mock route".to_vec()));
    assert_eq!(mock_reply(Err("broken".to_string())).status, 500);
}

#[test]
fn references_of_rows_lead_to_their_values() {
    let v = parse(r#"{"a/b":[1,{"c":"x"}],"d":{}}"#).unwrap();
    let mut rows = Vec::new();
    list_nodes("data:u", "", &v, &mut rows);
    let pointers: Vec<&str> = rows.iter().map(|r| r.pointer.as_str()).collect();
    assert_eq!(pointers, vec!["/a~1b", "/a~1b/0", "/a~1b/1", "/a~1b/1/c", "/d"]);
    assert_eq!(rows[3].reference, "data:u#/a~1b/1/c");
    assert_eq!(node_snippet(&rows[3]), "{ \"ref\": \"data:u#/a~1b/1/c\" }");
    for row in &rows {
        let found = find(&v, &row.pointer).unwrap();
        match (&row.held, found) {
            (Held::Members(n), Json::Object(pairs)) => assert_eq!(*n, pairs.len()),
            (Held::Items(n), Json::Array(items)) => assert_eq!(*n, items.len()),
            (Held::Leaf(s), Json::String(t)) => assert_eq!(*s, format!("\"{t}\"")),
            (Held::Leaf(s), other) => assert_eq!(*s, print(other)),
            _ => panic!("wrong row"),
        }
    }
    assert_eq!(browser_label(&rows[0]), "a/b  (2)");
    assert_eq!(palette_label(&rows[0]), "a~1b [2]");
    assert_eq!(palette_label(&rows[2]), "1 {1}");
    assert_eq!(browser_label(&rows[1]), "0: 1");
    assert_eq!(palette_label(&rows[3]), "c: \"x\"");
}

#[test]
fn assets_are_grouped_and_unfolded() {
    let asset = |kind: AssetKind, path: &str, data: Option<Json>| AssetEntry {
        path: String::new(),
        rel_path: path.to_string(),
        kind,
        alias: None,
        prefix_ref: None,
        used_by: vec![Usage { request: "r".to_string(), instance_path: "/b".to_string() }],
        data,
    };
    let assets = vec![
        asset(AssetKind::Data, "assets/data/a.json", Some(Json::Null)),
        asset(AssetKind::Data, "assets/data/b.json", None),
        asset(AssetKind::Hook, "assets/hooks/c.js", None),
    ];
    let mut open: Vec<String> = Vec::new();
    fold_over(&mut open, "assets/data/a.json");
    fold_over(&mut open, "assets/data/b.json");
    let rows = asset_list(&assets, &open);
    assert_eq!(rows[0].name, "a.json");
    assert_eq!(rows[0].heading, Some(AssetKind::Data));
    assert!(rows[0].unfolded);
    assert_eq!(rows[1].heading, None);
    assert!(!rows[1].browsable && !rows[1].unfolded);
    assert_eq!(rows[2].heading, Some(AssetKind::Hook));
    assert_eq!(rows[2].hover, vec!["r /b".to_string()]);
    fold_over(&mut open, "assets/data/a.json");
    assert_eq!(open, vec!["assets/data/b.json".to_string()]);
    let broken = BrokenRef {
        request: "r".to_string(),
        instance_path: "/b".to_string(),
        reference: "data:x".to_string(),
        message: "gone".to_string(),
    };
    assert_eq!(describe_broken(&vec![broken]), vec!["1 broken ref(s)", "r /b", "  data:x — gone"]);
}

#[test]
fn a_run_is_shown_below_the_editor() {
    let mut runtime: TextMap<Json> = TextMap::new();
    runtime.insert("id".to_string(), Json::Number(Num::Pos(7)));
    let result = RunResult {
        request_id: "r".to_string(),
        status: RunStatus::Failed,
        http: Some(HttpResultView { status: 404, time_ms: 12, bytes: 3 }),
        assertions: vec![AssertionResult::fail("expected 200".to_string(), Json::Null, Json::Null)],
        runtime,
        diagnostics: vec![Diagnostic::new(Code::AssetError, "x".to_string())],
        duration_ms: 20,
    };
    let strip = results_strip(&result);
    assert_eq!(strip.label, "FAILED");
    assert_eq!(strip.http.as_deref(), Some("404 · 12 ms"));
    assert_eq!(strip.lines[0], "✗ expected 200");
    assert_eq!(strip.lines[1], "→ id = 7");
    assert_eq!(strip.lines.len(), 3);
    let mut ed = V1EditorState::new();
    assert_eq!(ed.title(), "unsaved");
    ed.validate_now(Err("no".to_string()));
    assert_eq!(ed.diagnostics, vec!["no project root".to_string()]);
    ed.open_new("/p".to_string(), None, None);
    assert!(ed.can_run());
    ed.validate_now(Err("no".to_string()));
    assert_eq!(ed.diagnostics, vec!["invalid JSON: no".to_string()]);
    ed.finish_save("/p/a.request.json".to_string(), false, None);
    assert!(ed.dirty);
    ed.finish_save("/p/a.request.json".to_string(), true, None);
    assert!(!ed.dirty);
    assert_eq!(ed.title(), "a.request.json");
}

#[test]
fn a_sequence_hands_its_values_on() {
    let run = |key: &str, n: u64| {
        let mut execution = failed_execution("r", vec![], 0);
        execution.runtime_unmasked.insert(key.to_string(), Json::Number(Num::Pos(n)));
        execution
    };
    let mut sequence = Sequence::new(4);
    assert_eq!(sequence.next(), Some(0));
    sequence.finished(run("a", 1));
    sequence.not_read("b.request.json", "no such file".to_string(), 3);
    assert_eq!(sequence.results[1].0.request_id, "b.request.json");
    assert_eq!(sequence.results[1].0.status, RunStatus::Error);
    sequence.finished(run("b", 2));
    assert_eq!(sequence.next(), Some(3));
    sequence.finished(run("a", 5));
    assert_eq!(sequence.next(), None);
    assert_eq!(sequence.runtime.pairs.len(), 2);
    assert_eq!(print(&sequence.runtime.pairs[0].1), "5");
}

#[test]
fn file_names_stay_in_their_folder() {
    assert_eq!(stem_of("List Users"), "list-users");
    assert_eq!(stem_of("../a.b"), "---a-b");
}
