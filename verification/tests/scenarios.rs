//! Documents from their project to their result, against an in-memory server.

use forge::json::{equal, parse, print, Json};
use forge::map::TextMap;
use forge::model::Method;
use forge::reqv1::diag::Code;
use forge::reqv1::jshost::Script;
use forge::reqv1::matrix::resolve_cases;
use forge::reqv1::model::{
    Binding, BodySpec, BodyType, DynamicMock, FormatVersion, HeaderSpec, InlineBody, MockDef, PipelineEntry,
    PipelinePhase, RefBinding, RefBody, RequestDocument, RequestKind, RequestMeta, RequestSpec, StaticMock, UseBinding,
};
use forge::reqv1::outgoing::exec_request;
use forge::reqv1::pipeline::ResponseView;
use forge::reqv1::runner::{begin, complete, failed_execution, RunExecution, RunMode, RunStatus};
use forge::reqv1::sequence::Sequence;
use forge::reqv1::validate::{gather, needed_files, validate, validate_case, Project};

fn js(text: &str) -> Json {
    parse(text).unwrap()
}

fn same(v: Option<&Json>, text: &str) -> bool {
    v.is_some_and(|v| equal(v, &js(text)))
}

const BASE: &str = "/p/requests/users";

const FILES: [(&str, &str); 10] = [
    ("data/users.json", r#"{"valid":{"alice":{"name":"Alice","email":"alice@example.com"}}}"#),
    ("data/responses.json", r#"{"created":{"id":"u-1","name":"Alice"}}"#),
    ("data/cases.json", r#"{"cases":[{"name":"valid","user":"Alice"},{"name":"missingEmail","user":"Bob"}]}"#),
    ("hooks/tag.js", "function run(ctx, input) { return { headers: [{ name: 'authorization', value: 'Bearer ' + input.token }] }; }"),
    ("generators/tag.js", "function run(ctx, input) { return 'req-' + input.name.toLowerCase(); }"),
    (
        "assertions/created.js",
        "function run(ctx) { return [{ passed: ctx.response.status === 201, message: 'status' }, \
         { passed: ctx.response.body.name === 'Alice', message: 'name' }]; }",
    ),
    ("extractors/id.js", "function run(ctx) { return { runtime: { userId: ctx.response.body.id } }; }"),
    ("mocks/created.js", "function run(ctx, input) { return { status: 201, body: { id: 'u-mock', name: input.name } }; }"),
    ("hooks/on-error-mark.js", "function run(ctx) { return { runtime: { errored: true, errorMsg: ctx.error } }; }"),
    ("hooks/finally-mark.js", "function run(ctx) { return { runtime: { finallyRan: true } }; }"),
];

fn project() -> Project {
    let mut project = Project {
        root: "/p".to_string(),
        aliases: TextMap::new(),
        files: TextMap::new(),
        secrets: TextMap::new(),
        placeholder: None,
    };
    project.secrets.insert("apiToken".to_string(), "s3cr3t-token".to_string());
    for (path, text) in FILES {
        let name = path.split('.').next().unwrap();
        let alias = match name.strip_prefix("data/") {
            Some(name) => format!("data:{name}"),
            None => format!("project:{name}"),
        };
        project.aliases.insert(alias, format!("assets/{path}"));
        project.files.insert(format!("/p/assets/{path}"), Script::Source(text.to_string()));
    }
    project
}

fn document(method: Method, url: &str) -> RequestDocument {
    RequestDocument {
        schema: None,
        format_version: FormatVersion {},
        kind: RequestKind::Request,
        meta: RequestMeta { id: "users.create".to_string(), name: "x".to_string(), description: None, tags: vec![] },
        bindings: TextMap::new(),
        matrix: TextMap::new(),
        request: RequestSpec { method, url: url.to_string(), headers: vec![], query: vec![], body: None },
        pipeline: vec![],
        mock: None,
    }
}

fn data(reference: &str) -> Binding {
    Binding::Ref(RefBinding { reference: reference.to_string(), patch: js("[]") })
}

fn step(phase: PipelinePhase, uses: &str, with: &str) -> PipelineEntry {
    PipelineEntry { phase, uses: uses.to_string(), with: js(with), enabled: true }
}

fn header(name: &str, value: &str) -> HeaderSpec {
    HeaderSpec { name: name.to_string(), value: value.to_string(), enabled: true }
}

fn json_body(text: &str) -> Option<BodySpec> {
    Some(BodySpec::Inline(InlineBody { body_type: BodyType::Json, value: Some(js(text)) }))
}

/// The document that creates a user.
fn create() -> RequestDocument {
    let mut doc = document(Method::Post, "${env.baseUrl}/users");
    doc.bindings.insert("user".to_string(), data("data:users#/valid/alice"));
    doc.bindings.insert(
        "requestId".to_string(),
        Binding::Use(UseBinding { uses: "builtin:uuid@1".to_string(), with: js("{}") }),
    );
    doc.request.headers.push(header("Content-Type", "application/json"));
    doc.request.headers.push(header("X-Request-ID", "${bindings.requestId}"));
    doc.request.body =
        json_body(r#"{"name":"${bindings.user.name}","email":"${bindings.user.email}","tenantId":"t-1"}"#);
    doc.pipeline = vec![
        step(PipelinePhase::BeforeRequest, "builtin:bearer@1", r#"{"token":"${secret.apiToken}"}"#),
        step(PipelinePhase::AfterResponse, "builtin:assert-status@1", r#"{"expected":201}"#),
        step(
            PipelinePhase::AfterResponse,
            "builtin:assert-json-path@1",
            r#"{"path":"$.json.name","operator":"equals","value":"${bindings.user.name}"}"#,
        ),
        step(
            PipelinePhase::AfterResponse,
            "builtin:extract-json-path@1",
            r#"{"path":"$.json.email","target":"userEmail"}"#,
        ),
    ];
    doc.mock = Some(MockDef::Static(StaticMock {
        status: 201,
        headers: vec![],
        body: Some(BodySpec::Ref(RefBody { reference: "data:responses#/created".to_string(), body_type: None })),
        delay_ms: None,
    }));
    doc
}

/// The document that creates a user with scripts.
fn create_js() -> RequestDocument {
    let mut doc = document(Method::Post, "${env.baseUrl}/users");
    doc.bindings.insert("user".to_string(), data("data:users#/valid/alice"));
    doc.bindings.insert(
        "tag".to_string(),
        Binding::Use(UseBinding {
            uses: "project:generators/tag".to_string(),
            with: js(r#"{"name":"${bindings.user.name}"}"#),
        }),
    );
    doc.request.headers.push(header("X-Tag", "${bindings.tag}"));
    doc.pipeline = vec![
        step(PipelinePhase::BeforeRequest, "project:hooks/tag", r#"{"token":"${secret.apiToken}"}"#),
        step(PipelinePhase::AfterResponse, "project:assertions/created", "{}"),
        step(PipelinePhase::AfterResponse, "project:extractors/id", "{}"),
    ];
    doc.mock = Some(MockDef::Dynamic(DynamicMock {
        uses: "project:mocks/created".to_string(),
        with: js(r#"{"name":"${bindings.user.name}"}"#),
    }));
    doc
}

type Server<'a> = dyn Fn(&forge::exec::ResolvedRequest) -> Result<(u16, &'static str), String> + 'a;

fn sent_header<'a>(req: &'a forge::exec::ResolvedRequest, name: &str) -> Option<&'a str> {
    req.headers.iter().find(|(k, _)| k.eq_ignore_ascii_case(name)).map(|(_, v)| v.as_str())
}

fn sent_body(req: &forge::exec::ResolvedRequest) -> Json {
    match &req.body {
        forge::exec::ResolvedBody::Bytes { data, .. } => js(std::str::from_utf8(data).unwrap()),
        other => panic!("{other:?}"),
    }
}

fn run(doc: &RequestDocument, env: &str, mode: RunMode, matrix: Json, runtime: Json, server: &Server) -> RunExecution {
    let project = project();
    let ir = match validate_case(doc, &project, BASE, js(env), matrix, runtime) {
        Ok(ir) => ir,
        Err(diagnostics) => return failed_execution(&doc.meta.id, diagnostics, 0),
    };
    let stage = begin(ir, None, mode, &project.files);
    let sent = if stage.pending {
        Some(server(&exec_request(&stage.request)).map(|(status, body)| ResponseView {
            status,
            headers: vec![],
            body: body.as_bytes().to_vec(),
            time_ms: 1,
        }))
    } else {
        None
    };
    complete(stage, sent, &project.files, 1)
}

fn empty() -> Json {
    js("{}")
}

const ENV: &str = r#"{"baseUrl":"http://server.test"}"#;

#[test]
fn validate_resolves_canonical_document_to_ir() {
    let ir = validate(&create(), &project(), BASE, js(r#"{"baseUrl":"http://127.0.0.1:18099"}"#))
        .expect("canonical document must validate");
    assert_eq!(ir.id, "users.create");
    assert_eq!(ir.url, "http://127.0.0.1:18099/users");
    let forge::reqv1::ir::ResolvedBody::Json(body) = &ir.body else { panic!("json body") };
    assert_eq!(body.text("name"), "Alice");
    assert_eq!(body.text("email"), "alice@example.com");
    assert_eq!(body.text("tenantId"), "t-1");
    let rid = ir.headers.iter().find(|h| h.name == "X-Request-ID").expect("request id header");
    assert_eq!(rid.value.len(), 36);
    assert!(ir.secret_values.contains(&"s3cr3t-token".to_string()));
}

#[test]
fn runs_over_http_with_hooks_assertions_and_extractor() {
    let server: &Server = &|req| {
        assert_eq!((req.method, req.url.as_str()), (Method::Post, "http://server.test/users"));
        assert_eq!(sent_header(req, "authorization"), Some("Bearer s3cr3t-token"));
        assert_eq!(sent_header(req, "content-type"), Some("application/json"));
        Ok((201, r#"{"json":{"name":"Alice","email":"alice@example.com"}}"#))
    };
    let result = run(&create(), ENV, RunMode::Http, Json::Null, empty(), server).result;
    assert_eq!(result.status, RunStatus::Passed, "diagnostics: {:?}", result.diagnostics);
    assert_eq!(result.http.as_ref().unwrap().status, 201);
    assert_eq!(result.assertions.len(), 2);
    assert!(result.assertions.iter().all(|a| a.passed), "{:?}", result.assertions);
    assert!(same(result.runtime.get("userEmail"), r#""alice@example.com""#));
    assert!(result.diagnostics.iter().all(|d| !d.message.contains("s3cr3t-token")));
}

#[test]
fn failed_assertion_marks_run_failed() {
    let server: &Server = &|_| Ok((201, r#"{"json":{"name":"Bob","email":"bob@example.com"}}"#));
    let result = run(&create(), ENV, RunMode::Http, Json::Null, empty(), server).result;
    assert_eq!(result.status, RunStatus::Failed);
    assert!(result.assertions.iter().any(|a| !a.passed));
}

#[test]
fn mock_mode_serves_the_document_mock_and_runs_after_response() {
    let server: &Server = &|_| panic!("nothing is sent");
    let env = r#"{"baseUrl":"http://unused"}"#;
    let result = run(&create(), env, RunMode::Mock, Json::Null, empty(), server).result;
    assert_eq!(result.http.as_ref().unwrap().status, 201);
    assert!(result.assertions.iter().any(|a| a.passed && a.message.contains("status")));
    assert!(result.assertions.iter().any(|a| !a.passed));
}

#[test]
fn matrix_runs_once_per_case_with_case_scoped_values() {
    let mut doc = document(Method::Post, "${env.baseUrl}/users");
    doc.matrix.insert("case".to_string(), data("data:cases#/cases"));
    doc.request.body = json_body(r#"{"name":"${matrix.case.user}"}"#);
    doc.pipeline = vec![step(PipelinePhase::AfterResponse, "builtin:assert-status@1", r#"{"expected":201}"#)];
    let found = gather(&doc, &project(), BASE, js(ENV), Json::Null, empty());
    let cases = resolve_cases(&doc.matrix, &found).expect("matrix resolves");
    assert_eq!(cases.len(), 2);
    assert_eq!(cases[0].get("case").unwrap().text("name"), "valid");
    assert_eq!(cases[1].get("case").unwrap().text("name"), "missingEmail");
    let seen = std::cell::RefCell::new(Vec::new());
    for case in cases {
        let name = case.get("case").unwrap().text("user");
        let server: &Server = &|req| {
            assert_eq!((req.method, req.url.as_str()), (Method::Post, "http://server.test/users"));
            seen.borrow_mut().push(print(&sent_body(req)));
            Ok((201, ""))
        };
        let result = run(&doc, ENV, RunMode::Http, case, empty(), server).result;
        assert_eq!(result.status, RunStatus::Passed, "{:?}", result.diagnostics);
        assert_eq!(seen.borrow().last().unwrap(), &format!("{{\"name\":\"{name}\"}}"));
    }
    let seen = seen.into_inner();
    assert_eq!(seen.len(), 2);
    assert!(seen.contains(&r#"{"name":"Alice"}"#.to_string()));
    assert!(seen.contains(&r#"{"name":"Bob"}"#.to_string()));
}

#[test]
fn js_assets_run_hook_assertions_extractor_and_generator() {
    let server: &Server = &|req| {
        assert_eq!(sent_header(req, "authorization"), Some("Bearer s3cr3t-token"));
        assert_eq!(sent_header(req, "x-tag"), Some("req-alice"));
        Ok((201, r#"{"id":"u-77","name":"Alice"}"#))
    };
    let result = run(&create_js(), ENV, RunMode::Http, Json::Null, empty(), server).result;
    assert_eq!(result.status, RunStatus::Passed, "diagnostics: {:?}", result.diagnostics);
    assert_eq!(result.assertions.len(), 2, "{:?}", result.assertions);
    assert!(result.assertions.iter().all(|a| a.passed));
    assert!(same(result.runtime.get("userId"), r#""u-77""#));
}

#[test]
fn js_dynamic_mock_serves_and_assertions_run_against_it() {
    let server: &Server = &|_| panic!("nothing is sent");
    let env = r#"{"baseUrl":"http://unused"}"#;
    let result = run(&create_js(), env, RunMode::Mock, Json::Null, empty(), server).result;
    assert_eq!(result.status, RunStatus::Passed, "diagnostics: {:?}", result.diagnostics);
    assert_eq!(result.http.as_ref().unwrap().status, 201);
    assert!(same(result.runtime.get("userId"), r#""u-mock""#));
}

#[test]
fn runtime_threads_from_one_request_to_the_next_in_a_sequence() {
    let mut a = document(Method::Post, "${env.baseUrl}/login");
    a.pipeline = vec![step(
        PipelinePhase::AfterResponse,
        "builtin:extract-json-path@1",
        r#"{"path":"$.token","target":"authToken"}"#,
    )];
    let mut b = document(Method::Get, "${env.baseUrl}/me");
    b.pipeline = vec![
        step(PipelinePhase::BeforeRequest, "builtin:bearer@1", r#"{"token":"${runtime.authToken}"}"#),
        step(
            PipelinePhase::AfterResponse,
            "builtin:assert-schema@1",
            r#"{"schema":{"type":"object","required":["user"]}}"#,
        ),
    ];
    let server: &Server = &|req| {
        if req.url.ends_with("/login") {
            return Ok((200, r#"{"token":"tok-xyz"}"#));
        }
        assert_eq!(sent_header(req, "authorization"), Some("Bearer tok-xyz"));
        Ok((200, r#"{"user":"alice"}"#))
    };
    let docs = [a, b];
    let mut sequence = Sequence::new(docs.len());
    while let Some(i) = sequence.next() {
        let pairs = sequence.runtime.pairs.iter().map(|(k, v)| (k.clone(), js(&print(v)))).collect();
        sequence.finished(run(&docs[i], ENV, RunMode::Http, Json::Null, Json::Object(pairs), server));
    }
    let results = &sequence.results;
    assert_eq!(results.len(), 2);
    assert_eq!(results[0].0.status, RunStatus::Passed, "{:?}", results[0].0.diagnostics);
    assert!(same(results[0].0.runtime.get("authToken"), r#""tok-xyz""#));
    assert_eq!(results[1].0.status, RunStatus::Passed, "{:?}", results[1].0.diagnostics);
    assert!(results[1].0.assertions.iter().all(|a| a.passed), "{:?}", results[1].0.assertions);
}

#[test]
fn on_error_and_finally_phases_run() {
    let mut doc = document(Method::Get, "${env.baseUrl}/x");
    doc.pipeline = vec![
        step(PipelinePhase::OnError, "project:hooks/on-error-mark", "{}"),
        step(PipelinePhase::Finally, "project:hooks/finally-mark", "{}"),
    ];
    let server: &Server = &|_| Err("connection refused".to_string());
    let result = run(&doc, r#"{"baseUrl":"http://127.0.0.1:9"}"#, RunMode::Http, Json::Null, empty(), server).result;
    assert_eq!(result.status, RunStatus::Error);
    assert!(same(result.runtime.get("errored"), "true"));
    assert!(same(result.runtime.get("finallyRan"), "true"));
    let msg = result.runtime.get("errorMsg").and_then(|v| v.as_str()).unwrap_or_default();
    assert!(!msg.is_empty(), "onError asset should receive ctx.error");
}

#[test]
fn assert_schema_builtin_validates_response_body() {
    let mut doc = document(Method::Post, "${env.baseUrl}/users");
    doc.request.headers.push(header("Content-Type", "application/json"));
    doc.request.body = json_body(r#"{"x":1}"#);
    doc.pipeline = vec![
        step(
            PipelinePhase::AfterResponse,
            "builtin:assert-schema@1",
            r#"{"schema":{"type":"object","required":["json"],"properties":{"json":{"type":"object",
                "required":["name"],"properties":{"name":{"type":"string"}}}}}}"#,
        ),
        step(
            PipelinePhase::AfterResponse,
            "builtin:assert-schema@1",
            r#"{"schema":{"type":"object","required":["missing"]}}"#,
        ),
    ];
    let server: &Server = &|_| Ok((201, r#"{"json":{"name":"Alice","email":"alice@example.com"}}"#));
    let result = run(&doc, ENV, RunMode::Http, Json::Null, empty(), server).result;
    assert_eq!(result.assertions.len(), 2, "{:?}", result.assertions);
    assert!(result.assertions[0].passed, "matching schema should pass: {:?}", result.assertions[0]);
    assert!(!result.assertions[1].passed, "missing-required schema should fail");
    assert_eq!(result.status, RunStatus::Failed);
}

#[test]
fn files_are_named_before_they_are_read() {
    let p = project();
    let paths = needed_files(&create(), &p.aliases, &p.root, BASE);
    assert_eq!(paths, vec!["/p/assets/data/users.json", "/p/assets/data/responses.json"]);
    let mut doc = document(Method::Get, "http://x");
    doc.bindings.insert("u".to_string(), data("./local.json"));
    assert_eq!(needed_files(&doc, &p.aliases, &p.root, BASE), vec!["/p/requests/users/./local.json"]);
    let errors = validate(&doc, &p, BASE, empty()).unwrap_err();
    assert!(errors.iter().any(|d| d.code == Code::AssetNotFound), "{errors:?}");
}

#[test]
fn every_independent_error_is_told() {
    let mut doc = document(Method::Get, "${env.gone}/x");
    doc.request.headers.push(header("X", "${env.alsoGone}"));
    doc.pipeline = vec![step(PipelinePhase::BeforeRequest, "project:nothing", "{}")];
    let errors = validate(&doc, &project(), BASE, empty()).unwrap_err();
    let places: Vec<&str> = errors.iter().filter_map(|d| d.instance_path.as_deref()).collect();
    assert_eq!(places, vec!["/request/url", "/request/headers/0/value", "/pipeline/0"]);
}
