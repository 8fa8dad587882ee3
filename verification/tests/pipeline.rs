//! The request pipeline: hooks, assertions, extractors, and what leaves a run.

use forge::json::{equal, parse, print, Json};
use forge::map::TextMap;
use forge::model::Method;
use forge::reqv1::diag::{Code, Diagnostic};
use forge::reqv1::ir::{
    AssetDescriptor, RefScheme, ResolvedBody, ResolvedHeader, ResolvedMock, ResolvedPipelineEntry, ResolvedRequest,
};
use forge::reqv1::jshost::{
    failure_text, run_js_asset, run_js_asset_with_logs, time_is_over, Failure, Script, TIME_BUDGET_SECS,
};
use forge::reqv1::model::PipelinePhase;
use forge::reqv1::outgoing::{append_query, body_to_exec, exec_request, render_mock, urlencoding_encode};
use forge::reqv1::pipeline::{
    query_one, run_after_response, run_before_request, AssertionResult, ResponseView,
};
use forge::reqv1::preview::preview_asset;
use forge::reqv1::redact::mask_value;
use forge::reqv1::runner::{
    begin, complete, finish, HttpResultView, ProjectAuthHeader, RunMode, RunStatus,
};

fn js(text: &str) -> Json {
    parse(text).unwrap()
}

fn same(v: &Json, text: &str) -> bool {
    equal(v, &js(text))
}

fn res(status: u16, body: &str) -> ResponseView {
    ResponseView { status, headers: vec![], body: body.as_bytes().to_vec(), time_ms: 1 }
}

fn builtin(name: &str, phase: PipelinePhase, with: &str) -> ResolvedPipelineEntry {
    ResolvedPipelineEntry {
        phase,
        asset: AssetDescriptor {
            raw: format!("builtin:{name}@1"),
            scheme: RefScheme::Builtin,
            address: name.to_string(),
            pointer: None,
            version: Some(1),
        },
        input: js(with),
    }
}

fn entry(name: &str, with: &str) -> ResolvedPipelineEntry {
    builtin(name, PipelinePhase::AfterResponse, with)
}

fn script_entry(phase: PipelinePhase, raw: &str, path: &str) -> ResolvedPipelineEntry {
    ResolvedPipelineEntry {
        phase,
        asset: AssetDescriptor {
            raw: raw.to_string(),
            scheme: RefScheme::File,
            address: path.to_string(),
            pointer: None,
            version: None,
        },
        input: js("{}"),
    }
}

fn scripts(list: &[(&str, &str)]) -> TextMap<Script> {
    let mut map = TextMap::new();
    for (path, source) in list {
        map.insert(path.to_string(), Script::Source(source.to_string()));
    }
    map
}

fn request() -> ResolvedRequest {
    ResolvedRequest {
        id: "preview".to_string(),
        name: "Preview".to_string(),
        method: Method::Get,
        url: "https://example.test/original".to_string(),
        headers: Vec::new(),
        query: Vec::new(),
        body: ResolvedBody::Empty,
        pipeline: Vec::new(),
        mock: None,
        bindings: js(r#"{ "token": "secret-value" }"#),
        secret_values: vec!["secret-value".to_string()],
    }
}

fn source(text: &str) -> Script {
    Script::Source(text.to_string())
}

#[test]
fn assert_status_pass_fail() {
    let (r, _) = run_after_response(&entry("assert-status", r#"{"expected":200}"#), &res(200, "{}")).unwrap();
    assert!(r[0].passed);
    let (r, _) = run_after_response(&entry("assert-status", r#"{"expected":201}"#), &res(500, "{}")).unwrap();
    assert!(!r[0].passed);
    let (r, _) = run_after_response(&entry("assert-status", r#"{"expected":65736}"#), &res(200, "{}")).unwrap();
    assert!(!r[0].passed);
    assert_eq!(r[0].message, "status 200 != 65736");
}

#[test]
fn assert_json_path_equals_and_exists() {
    let body = r#"{"user":{"id":"u-1"}}"#;
    let (r, _) = run_after_response(
        &entry("assert-json-path", r#"{"path":"$.user.id","operator":"equals","value":"u-1"}"#),
        &res(200, body),
    )
    .unwrap();
    assert!(r[0].passed, "{:?}", r[0]);
    let (r, _) = run_after_response(
        &entry("assert-json-path", r#"{"path":"$.user.id","operator":"exists"}"#),
        &res(200, body),
    )
    .unwrap();
    assert!(r[0].passed);
    let (r, _) = run_after_response(
        &entry("assert-json-path", r#"{"path":"$.user.missing","operator":"exists"}"#),
        &res(200, body),
    )
    .unwrap();
    assert!(!r[0].passed);
}

#[test]
fn extract_json_path_writes_runtime() {
    let (a, rt) = run_after_response(
        &entry("extract-json-path", r#"{"path":"$.token","target":"tok"}"#),
        &res(200, r#"{"token":"abc"}"#),
    )
    .unwrap();
    assert!(a.is_empty());
    assert!(same(rt.get("tok").unwrap(), r#""abc""#));
}

#[test]
fn bearer_hook_adds_authorization() {
    let e = builtin("bearer", PipelinePhase::BeforeRequest, r#"{ "token": "t-1" }"#);
    let req = ResolvedRequest {
        id: "x".to_string(),
        name: "x".to_string(),
        method: Method::Get,
        url: "http://x".to_string(),
        headers: vec![],
        query: vec![],
        body: ResolvedBody::Empty,
        pipeline: vec![],
        mock: None,
        bindings: js("{}"),
        secret_values: vec![],
    };
    let patch = run_before_request(&e, &req).unwrap();
    assert_eq!(patch.headers[0].name, "Authorization");
    assert_eq!(patch.headers[0].value, "Bearer t-1");
}

#[test]
fn basic_hook_encodes_credentials() {
    let e = builtin("basic", PipelinePhase::BeforeRequest, r#"{ "username": "user", "password": "pass" }"#);
    let patch = run_before_request(&e, &request()).unwrap();
    assert_eq!(patch.headers[0].value, "Basic dXNlcjpwYXNz");
}

#[test]
fn unknown_builtins_are_refused() {
    let hook = builtin("nothing", PipelinePhase::BeforeRequest, "{}");
    assert!(run_before_request(&hook, &request()).is_err());
    assert!(run_after_response(&entry("nothing", "{}"), &res(200, "{}")).is_err());
}

#[test]
fn json_path_needs_one_match() {
    let res = res(200, r#"{"a":[1,2]}"#);
    assert!(same(&query_one(&res, "$.a[0]").unwrap(), "1"));
    assert!(query_one(&res, "$.nothing").is_err());
    assert!(query_one(&res, "not a path").is_err());
    let err = query_one(&res, "$.a[*]").unwrap_err();
    assert_eq!(err.message, "JSONPath \"$.a[*]\" matched 2 nodes, not one");
}

#[test]
fn values_without_json_text_are_errors() {
    for source in ["function run() { return function () {}; }", "function run() { return Symbol('x'); }"] {
        let err = run_js_asset("/p/a.js", &self::source(source), &js("{}"), &js("{}")).unwrap_err();
        assert_eq!(err.code, Code::AssetError);
        assert!(err.message.contains("non-JSON-serializable"), "{err:?}");
    }
    let nothing = run_js_asset("/p/a.js", &source("function run() {}"), &js("{}"), &js("{}")).unwrap();
    assert!(same(&nothing, "null"));
}

#[test]
fn failures_of_scripts_are_told() {
    assert_eq!(failure_text(&Failure::NoRuntime("x".to_string())), "QuickJS start: x");
    assert_eq!(failure_text(&Failure::NoContext("x".to_string())), "QuickJS context: x");
    assert_eq!(failure_text(&Failure::Thrown(Some("m".to_string()), "s".to_string())), "m");
    assert_eq!(failure_text(&Failure::Thrown(None, "s".to_string())), "s");
    assert!(time_is_over(TIME_BUDGET_SECS, TIME_BUDGET_SECS));
    assert!(!time_is_over(TIME_BUDGET_SECS - 1, TIME_BUDGET_SECS));
}

#[test]
fn mocks_may_wait() {
    let mut ir = request();
    let e = script_entry(PipelinePhase::AfterResponse, "./m.js", "/p/m.js");
    ir.mock = Some(ResolvedMock::Dynamic { asset: e.asset, input: js("{}") });
    let files = scripts(&[("/p/m.js", "function run() { return { status: 200, delayMs: 30 }; }")]);
    let stage = begin(ir, None, RunMode::Mock, &files);
    assert_eq!(stage.delay_ms, 30);
    let mut ir = request();
    ir.mock = Some(ResolvedMock::Static { status: 200, headers: vec![], body: ResolvedBody::Empty, delay_ms: 7 });
    assert_eq!(begin(ir, None, RunMode::Mock, &files).delay_ms, 7);
    assert_eq!(begin(request(), None, RunMode::Http, &files).delay_ms, 0);
}

#[test]
fn schema_assertion_reads_the_body() {
    let schema = r#"{"schema":{"type":"object","required":["id"]}}"#;
    let (r, _) = run_after_response(&entry("assert-schema", schema), &res(200, r#"{"id":1}"#)).unwrap();
    assert!(r[0].passed, "{:?}", r[0]);
    let (r, _) = run_after_response(&entry("assert-schema", schema), &res(200, r#"{"name":1}"#)).unwrap();
    assert!(!r[0].passed);
    let (r, _) = run_after_response(&entry("assert-schema", schema), &res(200, "no json")).unwrap();
    assert!(!r[0].passed);
}

#[test]
fn header_assertion_ignores_case() {
    let mut response = res(200, "{}");
    response.headers.push(("Content-Type".to_string(), "application/json".to_string()));
    let with = r#"{"name":"content-type","value":"application/json"}"#;
    let (r, _) = run_after_response(&entry("assert-header", with), &response).unwrap();
    assert!(r[0].passed, "{:?}", r[0]);
}

#[test]
fn runs_an_assertion_asset() {
    let script = source(
        r#"function run(ctx, input) {
            return {
                passed: ctx.response.body.name === input.expected,
                message: "name matches"
            };
        }"#,
    );
    let ctx = js(r#"{ "response": { "body": { "name": "Alice" } } }"#);
    let out = run_js_asset("a.js", &script, &ctx, &js(r#"{ "expected": "Alice" }"#)).unwrap();
    assert!(same(out.get("passed").unwrap(), "true"));
}

#[test]
fn ctx_mutation_stays_in_the_snapshot() {
    let script = source(
        r#"function run(ctx) {
            try { ctx.request.url = "hacked"; } catch (e) {}
            return ctx.request.url;
        }"#,
    );
    let ctx = js(r#"{ "request": { "url": "http://original" } }"#);
    let out = run_js_asset("f.js", &script, &ctx, &js("{}")).unwrap();
    assert!(same(&out, r#""hacked""#));
    assert_eq!(ctx.get("request").unwrap().text("url"), "http://original");
}

#[test]
fn missing_run_function_is_a_clear_error() {
    let err = run_js_asset("x.js", &source("var nothing = 1;"), &js("{}"), &js("{}")).unwrap_err();
    assert!(err.message.contains("must define a global function run"), "{err:?}");
}

#[test]
fn thrown_error_is_reported() {
    let script = source(r#"function run() { throw new Error("boom"); }"#);
    let err = run_js_asset("t.js", &script, &js("{}"), &js("{}")).unwrap_err();
    assert!(err.message.contains("boom"), "{err:?}");
}

#[test]
fn infinite_loop_is_interrupted() {
    let started = std::time::Instant::now();
    let script = source("function run() { while (true) {} }");
    let err = run_js_asset("l.js", &script, &js("{}"), &js("{}")).unwrap_err();
    assert!(started.elapsed() < std::time::Duration::from_secs(30), "interrupt too slow");
    assert!(started.elapsed().as_secs() >= TIME_BUDGET_SECS);
    assert_eq!(err.code.as_str(), Code::AssetError.as_str());
}

#[test]
fn typescript_gets_a_clear_diagnostic() {
    let err = run_js_asset("x.ts", &source("export const x = 1;"), &js("{}"), &js("{}")).unwrap_err();
    assert!(err.message.contains("transpile to .js"), "{err:?}");
}

#[test]
fn unreadable_asset_is_not_found() {
    let script = Script::Unreadable("no such file".to_string());
    let err = run_js_asset("gone.js", &script, &js("{}"), &js("{}")).unwrap_err();
    assert_eq!(err.code.as_str(), "ASSET_NOT_FOUND");
    assert_eq!(err.message, "cannot read asset gone.js: no such file");
}

#[test]
fn console_lines_are_kept() {
    let script = source(r#"function run() { console.log("a", 1); console.warn("b"); return 7; }"#);
    let (out, logs) = run_js_asset_with_logs("c.js", &script, &js("{}"), &js("{}")).unwrap();
    assert!(same(&out, "7"));
    assert_eq!(logs, vec!["a 1".to_string(), "b".to_string()]);
}

#[test]
fn previews_builtin_assertion_against_retained_response() {
    let e = entry("assert-status", r#"{ "expected": 201 }"#);
    let response = ResponseView { status: 201, headers: Vec::new(), body: Vec::new(), time_ms: 1 };
    let preview = preview_asset(&request(), &e, Some(&response), &scripts(&[])).unwrap();
    assert!(preview.assertions[0].passed);
    assert!(preview.runtime_writes.is_empty());
}

#[test]
fn previews_project_hook_diff_and_masks_logs() {
    let files = scripts(&[(
        "/tmp/p/hook.js",
        r#"function run(ctx) {
            console.log("token", ctx.bindings.token);
            return {
                url: "https://example.test/changed",
                headers: [{ name: "Authorization", value: ctx.bindings.token }]
            };
        }"#,
    )]);
    let e = script_entry(PipelinePhase::BeforeRequest, "./hook.js", "/tmp/p/hook.js");

    let preview = preview_asset(&request(), &e, None, &files).unwrap();

    assert_eq!(preview.request_before.unwrap().url, "https://example.test/original");
    let after = preview.request_after.unwrap();
    assert_eq!(after.url, "https://example.test/changed");
    assert_eq!(after.headers, vec![("Authorization".to_string(), "***".to_string())]);
    assert_eq!(preview.logs, vec!["token ***"]);
}

#[test]
fn preview_masks_secrets_in_nested_assertions_and_runtime_writes() {
    let files = scripts(&[(
        "/tmp/p/assertion.js",
        r#"function run(ctx) {
            const secret = ctx.bindings.token;
            console.log("log", secret);
            return {
                passed: false,
                message: "message " + secret,
                expected: { [secret]: [secret, { nested: secret }] },
                actual: secret,
                path: "$." + secret,
                runtime: { [secret]: { nested: [secret] } }
            };
        }"#,
    )]);
    let mut e = script_entry(PipelinePhase::AfterResponse, "/tmp/p/assertion.js", "/tmp/p/assertion.js");
    let response = ResponseView { status: 200, headers: Vec::new(), body: Vec::new(), time_ms: 1 };

    let preview = preview_asset(&request(), &e, Some(&response), &files).unwrap();

    assert_eq!(preview.assertions[0].message, "message ***");
    assert_eq!(preview.assertions[0].path.as_deref(), Some("$.***"));
    assert_eq!(preview.logs, vec!["log ***"]);
    assert!(preview.runtime_writes.contains_key("***"));
    assert!(!format!("{preview:?}").contains("secret-value"), "secret leaked from catalog preview");

    e.asset.raw = "project:secret-value".to_string();
    let error = preview_asset(&request(), &e, None, &files).unwrap_err();
    assert_eq!(error.asset_ref.as_deref(), Some("project:***"));
}

#[test]
fn public_run_result_masks_assertions_runtime_and_diagnostics() {
    let ir = request();
    let assertions = vec![AssertionResult {
        passed: false,
        message: "message secret-value".to_string(),
        expected: Some(js(r#"{"secret-value": ["secret-value"]}"#)),
        actual: Some(js(r#""secret-value""#)),
        path: Some("$.secret-value".to_string()),
    }];
    let mut runtime_unmasked = TextMap::new();
    runtime_unmasked.insert("secret-value".to_string(), js(r#"{"nested": "secret-value"}"#));
    let diagnostics = vec![Diagnostic::new(Code::AssetError, "diagnostic secret-value".to_string())
        .at("/secret-value")
        .with_ref("project:secret-value")];

    let result = finish(&ir, RunStatus::Failed, None, &assertions, &runtime_unmasked, &diagnostics, 0);

    assert_eq!(
        runtime_unmasked.get("secret-value").unwrap().text("nested"),
        "secret-value",
        "sequence carry must remain usable"
    );
    assert!(!format!("{result:?}").contains("secret-value"));
    assert_eq!(result.assertions[0].message, "message ***");
    assert_eq!(result.diagnostics[0].message, "diagnostic ***");
    assert_eq!(result.diagnostics[0].instance_path.as_deref(), Some("/***"));
    assert_eq!(result.diagnostics[0].asset_ref.as_deref(), Some("project:***"));
    assert!(same(result.runtime.get("***").unwrap(), r#"{"nested":"***"}"#));
}

#[test]
fn masked_values_hold_no_secret() {
    let masked = mask_value(&request(), &js(r#"{"a":["x secret-value y"]}"#));
    assert_eq!(print(&masked), r#"{"a":["x *** y"]}"#);
}

#[test]
fn a_sent_request_runs_its_assertions() {
    let mut ir = request();
    ir.pipeline.push(builtin("bearer", PipelinePhase::BeforeRequest, r#"{ "token": "secret-value" }"#));
    ir.pipeline.push(entry("assert-status", r#"{"expected":201}"#));
    ir.pipeline.push(entry("extract-json-path", r#"{"path":"$.id","target":"id"}"#));
    let none = scripts(&[]);
    let stage = begin(ir, None, RunMode::Http, &none);
    let sent = exec_request(&stage.request);
    assert!(stage.pending);
    assert_eq!(sent.headers, vec![("Authorization".to_string(), "Bearer secret-value".to_string())]);
    let done = complete(stage, Some(Ok(res(201, r#"{"id":"u-1"}"#))), &none, 12);
    assert_eq!(done.result.status, RunStatus::Passed);
    assert_eq!(done.result.http, Some(HttpResultView { status: 201, time_ms: 1, bytes: 12 }));
    assert_eq!(done.result.duration_ms, 12);
    assert!(same(done.result.runtime.get("id").unwrap(), r#""u-1""#));
}

#[test]
fn a_failed_assertion_fails_the_run() {
    let mut ir = request();
    ir.pipeline.push(entry("assert-status", r#"{"expected":201}"#));
    let none = scripts(&[]);
    let stage = begin(ir, None, RunMode::Http, &none);
    let done = complete(stage, Some(Ok(res(500, "{}"))), &none, 1);
    assert_eq!(done.result.status, RunStatus::Failed);
}

#[test]
fn a_transport_error_is_an_error_and_runs_the_error_phases() {
    let mut ir = request();
    ir.pipeline.push(script_entry(PipelinePhase::OnError, "./e.js", "/p/e.js"));
    ir.pipeline.push(script_entry(PipelinePhase::Finally, "./f.js", "/p/f.js"));
    let files = scripts(&[
        ("/p/e.js", "function run(ctx) { return { runtime: { errored: true, errorMsg: ctx.error } }; }"),
        ("/p/f.js", "function run(ctx) { return { runtime: { finallyRan: true } }; }"),
    ]);
    let stage = begin(ir, None, RunMode::Http, &files);
    let done = complete(stage, Some(Err("connection refused".to_string())), &files, 1);
    assert_eq!(done.result.status, RunStatus::Error);
    assert!(same(done.result.runtime.get("errored").unwrap(), "true"));
    assert!(same(done.result.runtime.get("finallyRan").unwrap(), "true"));
    assert!(print(done.result.runtime.get("errorMsg").unwrap()).contains("connection refused"));
}

#[test]
fn a_project_auth_header_is_sent_and_masked() {
    let none = scripts(&[]);
    let auth = ProjectAuthHeader { token: "tok-9".to_string(), refreshed: true };
    let stage = begin(request(), Some(auth), RunMode::Http, &none);
    let ir = &stage.request;
    assert!(ir.headers.iter().any(|h| h.value == "Bearer tok-9"));
    assert!(!ir.mask("got Bearer tok-9").contains("tok-9"));
}

#[test]
fn mock_mode_answers_from_the_document() {
    let mut ir = request();
    ir.mock = Some(ResolvedMock::Static {
        status: 201,
        headers: vec![ResolvedHeader { name: "X-A".to_string(), value: "1".to_string() }],
        body: ResolvedBody::Json(js(r#"{"id":"u-mock"}"#)),
        delay_ms: 0,
    });
    ir.pipeline.push(entry("assert-status", r#"{"expected":201}"#));
    let none = scripts(&[]);
    let stage = begin(ir, None, RunMode::Mock, &none);
    let done = complete(stage, None, &none, 1);
    assert_eq!(done.result.status, RunStatus::Passed);
    assert_eq!(done.response.unwrap().text(), r#"{"id":"u-mock"}"#);
}

#[test]
fn a_script_makes_a_mock() {
    let mut ir = request();
    let e = script_entry(PipelinePhase::AfterResponse, "./m.js", "/p/m.js");
    ir.mock = Some(ResolvedMock::Dynamic { asset: e.asset, input: js(r#"{"n":3}"#) });
    let files = scripts(&[("/p/m.js", "function run(ctx, input) { return { status: 202, body: { n: input.n } }; }")]);
    let (response, diagnostics) = render_mock(&ir, &files);
    let response = response.unwrap();
    assert!(diagnostics.is_empty());
    assert_eq!(response.status, 202);
    assert_eq!(response.text(), r#"{"n":3}"#);
}

#[test]
fn queries_are_appended_percent_encoded() {
    let query = vec![
        ResolvedHeader { name: "q".to_string(), value: "a b".to_string() },
        ResolvedHeader { name: "r".to_string(), value: "ä".to_string() },
    ];
    assert_eq!(append_query("http://x/s", &query), "http://x/s?q=a%20b&r=%C3%A4");
    assert_eq!(append_query("http://x/s?p=1", &query), "http://x/s?p=1&q=a%20b&r=%C3%A4");
    assert_eq!(append_query("http://x/s", &vec![]), "http://x/s");
    assert_eq!(urlencoding_encode("a/b"), "a%2Fb");
}

#[test]
fn json_bodies_have_their_type() {
    let body = body_to_exec(&ResolvedBody::Json(js(r#"{"a":1}"#)), &vec![]);
    match body {
        forge::exec::ResolvedBody::Bytes { content_type, data } => {
            assert_eq!(content_type.as_deref(), Some("application/json"));
            assert_eq!(data, br#"{"a":1}"#.to_vec());
        }
        other => panic!("{other:?}"),
    }
}

