//! Request documents: bindings, matrices, and what they resolve to.

use forge::json::{equal, parse, print, Json};
use forge::map::TextMap;
use forge::model::Method;
use forge::reqv1::auth::{auth_applies, checked_project_path, has_explicit_auth, token_from_run, AuthKey, AuthSession, AuthStep};
use forge::reqv1::builder::{build_ir, generate, resolve_bindings, run_generator, value_to_form, BuildInputs, Loaded, Located};
use forge::reqv1::diag::{Code, Diagnostic};
use forge::reqv1::ir::{AssetDescriptor, RefScheme, ResolvedBody, ResolvedMock};
use forge::reqv1::jshost::Script;
use forge::reqv1::matrix::{cases, resolve_cases, CaseList};
use forge::reqv1::model::{
    Binding, BodySpec, BodyType, DynamicMock, FormatVersion, HeaderSpec, InlineBody, MockDef, PipelineEntry,
    PipelinePhase, ProjectAuthConfig, RefBinding, RequestDocument, RequestKind, RequestMeta, RequestSpec, UseBinding,
    ValueBinding,
};
use forge::reqv1::order::topo_order;
use forge::reqv1::pipeline::ResponseView;
use forge::reqv1::runner::{RunMode, RunStatus};
use forge::reqv1::validate::{validate, Project};
use forge::reqv1::sequence::{check_lengths, load_environment, request_environment, thread_runtime};

fn js(text: &str) -> Json {
    parse(text).unwrap()
}

fn document(url: &str) -> RequestDocument {
    RequestDocument {
        schema: None,
        format_version: FormatVersion {},
        kind: RequestKind::Request,
        meta: RequestMeta { id: "x".to_string(), name: "x".to_string(), description: None, tags: vec![] },
        bindings: TextMap::new(),
        matrix: TextMap::new(),
        request: RequestSpec { method: Method::Get, url: url.to_string(), headers: vec![], query: vec![], body: None },
        pipeline: vec![],
        mock: None,
    }
}

fn inputs(env: &str) -> BuildInputs {
    let mut secrets = TextMap::new();
    secrets.insert("apiToken".to_string(), "s3cr3t-token".to_string());
    BuildInputs {
        assets: TextMap::new(),
        data: TextMap::new(),
        scripts: TextMap::new(),
        env: js(env),
        matrix: Json::Null,
        runtime: js("{}"),
        secrets,
        placeholder: None,
    }
}

fn asset(raw: &str, scheme: RefScheme, address: &str) -> AssetDescriptor {
    AssetDescriptor { raw: raw.to_string(), scheme, address: address.to_string(), pointer: None, version: Some(1) }
}

fn value(text: &str) -> Binding {
    Binding::Value(ValueBinding { value: js(text) })
}

fn data_ref(reference: &str, patch: &str) -> Binding {
    Binding::Ref(RefBinding { reference: reference.to_string(), patch: js(patch) })
}

/// A project with one data file and one mock.
fn project() -> Project {
    let mut project = Project {
        root: "/p".to_string(),
        aliases: TextMap::new(),
        files: TextMap::new(),
        secrets: TextMap::new(),
        placeholder: None,
    };
    project.secrets.insert("apiToken".to_string(), "s3cr3t-token".to_string());
    project.aliases.insert("data:users".to_string(), "assets/data/users.json".to_string());
    project
        .aliases
        .insert("project:mocks/create-user-response".to_string(), "assets/mocks/create-user-response.js".to_string());
    project.files.insert(
        "/p/assets/data/users.json".to_string(),
        Script::Source(r#"{"valid":{"alice":{"name":"Alice","email":"alice@example.com"}}}"#.to_string()),
    );
    project.files.insert(
        "/p/assets/mocks/create-user-response.js".to_string(),
        Script::Source("function run(ctx, input) { return { status: 201, body: input.user }; }".to_string()),
    );
    project
}

#[test]
fn a_document_resolves_with_its_assets() {
    let mut doc = document("${env.baseUrl}/users");
    doc.meta.id = "users.create".to_string();
    doc.bindings.insert("user".to_string(), data_ref("data:users#/valid/alice", "[]"));
    doc.bindings.insert(
        "requestId".to_string(),
        Binding::Use(UseBinding { uses: "builtin:uuid@1".to_string(), with: js("{}") }),
    );
    doc.request.headers.push(HeaderSpec {
        name: "X-Request-ID".to_string(),
        value: "${bindings.requestId}".to_string(),
        enabled: true,
    });
    doc.request.body = Some(BodySpec::Inline(InlineBody {
        body_type: BodyType::Json,
        value: Some(js(r#"{"name":"${bindings.user.name}","tenantId":"${env.tenant}"}"#)),
    }));
    doc.pipeline.push(PipelineEntry {
        phase: PipelinePhase::BeforeRequest,
        uses: "builtin:bearer@1".to_string(),
        with: js(r#"{"token":"${secret.apiToken}"}"#),
        enabled: true,
    });
    let mut inp = inputs(r#"{"baseUrl":"http://127.0.0.1:18099","tenant":"t-1"}"#);
    let user = "data:users#/valid/alice";
    inp.assets.insert(user.to_string(), Located::Found(asset(user, RefScheme::Data, "/p/users.json")));
    inp.data.insert(user.to_string(), Loaded::Value(js(r#"{"name":"Alice"}"#)));
    inp.assets.insert(
        "builtin:uuid@1".to_string(),
        Located::Found(asset("builtin:uuid@1", RefScheme::Builtin, "uuid")),
    );
    inp.assets.insert(
        "builtin:bearer@1".to_string(),
        Located::Found(asset("builtin:bearer@1", RefScheme::Builtin, "bearer")),
    );

    let ir = build_ir(&doc, &inp).expect("the document is valid");

    assert_eq!(ir.id, "users.create");
    assert_eq!(ir.url, "http://127.0.0.1:18099/users");
    match &ir.body {
        ResolvedBody::Json(body) => assert_eq!(print(body), r#"{"name":"Alice","tenantId":"t-1"}"#),
        other => panic!("json body, got {other:?}"),
    }
    let rid = ir.headers.iter().find(|h| h.name == "X-Request-ID").expect("request id header");
    assert_eq!(rid.value.len(), 36);
    assert!(ir.secret_values.contains(&"s3cr3t-token".to_string()));
    assert!(!ir.mask("x s3cr3t-token").contains("s3cr3t"));
}

#[test]
fn dynamic_mock_interpolation_errors_are_reported() {
    let mut doc = document("${env.baseUrl}/users");
    doc.mock = Some(MockDef::Dynamic(DynamicMock {
        uses: "project:mocks/create-user-response".to_string(),
        with: js(r#"{ "user": "${env.missing}" }"#),
    }));

    let diagnostics = validate(&doc, &project(), "/p/requests/users", js(r#"{ "baseUrl": "http://mock.local" }"#))
        .expect_err("missing mock input must fail validation");

    assert!(
        diagnostics.iter().any(|d| d.instance_path.as_deref() == Some("/mock/with")),
        "{diagnostics:?}"
    );
}

#[test]
fn missing_asset_is_reported_with_pointer() {
    let mut doc = document("${env.baseUrl}/x");
    doc.bindings.insert("u".to_string(), data_ref("data:users#/valid/nobody", "[]"));
    let errs = validate(&doc, &project(), "/p/requests/users", js(r#"{ "baseUrl": "http://x" }"#)).unwrap_err();
    assert!(errs.iter().any(|d| d.code.as_str() == "INVALID_POINTER"), "{errs:?}");
    assert!(errs.iter().any(|d| d.instance_path.as_deref() == Some("/bindings/u")), "{errs:?}");
}

#[test]
fn unknown_alias_is_reported() {
    let mut doc = document("http://x");
    doc.bindings.insert("u".to_string(), data_ref("data:does-not-exist#/x", "[]"));
    let errs = validate(&doc, &project(), "/p/requests/users", js("{}")).unwrap_err();
    assert!(errs.iter().any(|d| d.code.as_str() == "INVALID_ALIAS"), "{errs:?}");
}

#[test]
fn a_static_mock_is_filled_in() {
    let mut doc = document("http://x");
    doc.mock = Some(MockDef::Static(forge::reqv1::model::StaticMock {
        status: 201,
        headers: vec![],
        body: Some(BodySpec::Inline(InlineBody { body_type: BodyType::Text, value: Some(js(r#""${env.a}""#)) })),
        delay_ms: Some(3),
    }));
    let ir = build_ir(&doc, &inputs(r#"{"a":"b"}"#)).unwrap();
    match ir.mock {
        Some(ResolvedMock::Static { status, body: ResolvedBody::Text(text), delay_ms, .. }) => {
            assert_eq!((status, text.as_str(), delay_ms), (201, "b", 3));
        }
        other => panic!("{other:?}"),
    }
}

#[test]
fn data_is_patched_before_it_is_bound() {
    let mut bindings = TextMap::new();
    let raw = "data:u#/x";
    bindings.insert("a".to_string(), data_ref(raw, r#"[{"op":"replace","path":"/n","value":2}]"#));
    let mut inp = inputs("{}");
    inp.assets.insert(raw.to_string(), Located::Found(asset(raw, RefScheme::Data, "/p/u.json")));
    inp.data.insert(raw.to_string(), Loaded::Value(js(r#"{"n":1}"#)));
    let bound = resolve_bindings(&bindings, &inp);
    assert!(bound.errors.is_empty());
    assert_eq!(print(bound.values.get("a").unwrap()), r#"{"n":2}"#);

    let mut bindings = TextMap::new();
    bindings.insert("a".to_string(), data_ref(raw, r#"[{"op":"replace","path":"/gone","value":2}]"#));
    let bound = resolve_bindings(&bindings, &inp);
    assert_eq!(bound.errors.len(), 1);
    assert!(bound.errors[0].message.starts_with("patch: "), "{:?}", bound.errors[0]);

    let mut bindings = TextMap::new();
    let moved = r#"[{"op":"move","from":"/n","path":""},{"op":"test","path":"/x","value":1}]"#;
    bindings.insert("a".to_string(), data_ref(raw, moved));
    let bound = resolve_bindings(&bindings, &inp);
    assert_eq!(bound.errors.len(), 1);
    assert!(bound.errors[0].message.starts_with("patch: "), "{:?}", bound.errors[0]);
}

#[test]
fn bindings_come_after_those_they_refer_to() {
    let mut bindings = TextMap::new();
    bindings.insert("a".to_string(), value(r#""${bindings.b}-a""#));
    bindings.insert("b".to_string(), value(r#""b""#));
    let bound = resolve_bindings(&bindings, &inputs("{}"));
    assert_eq!(print(bound.values.get("a").unwrap()), r#""b-a""#);
    let order = topo_order(&vec![
        ("a".to_string(), vec!["b".to_string()]),
        ("b".to_string(), vec![]),
    ])
    .unwrap();
    assert_eq!(order, vec!["b".to_string(), "a".to_string()]);
}

#[test]
fn a_circle_of_bindings_is_an_error() {
    let mut bindings = TextMap::new();
    bindings.insert("a".to_string(), value(r#""${bindings.b}""#));
    bindings.insert("b".to_string(), value(r#""${bindings.a}""#));
    let bound = resolve_bindings(&bindings, &inputs("{}"));
    assert_eq!(bound.errors[0].code.as_str(), "BINDING_CYCLE");
}

#[test]
fn generators_make_values() {
    let uuid = run_generator("uuid", Some(1), "builtin:uuid@1").unwrap();
    assert_eq!(uuid.as_str().unwrap().len(), 36);
    let other = run_generator("uuid", Some(1), "builtin:uuid@1").unwrap();
    assert!(!equal(&uuid, &other));
    let now = generate("now", Some(1), "builtin:now@1", String::new(), 17).unwrap();
    assert_eq!(print(&now), "17");
    let clock = run_generator("now", Some(1), "builtin:now@1").unwrap();
    assert!(clock.as_u64().unwrap() > 1_600_000_000);
    assert!(run_generator("nothing", Some(1), "builtin:nothing@1").is_err());
    assert!(generate("uuid", Some(2), "builtin:uuid@2", "u".to_string(), 0).is_err());
}

#[test]
fn scripts_generate_values() {
    let mut bindings = TextMap::new();
    let raw = "project:generators/double";
    bindings.insert(
        "d".to_string(),
        Binding::Use(UseBinding { uses: raw.to_string(), with: js(r#"{"n":"${bindings.n}"}"#) }),
    );
    bindings.insert("n".to_string(), value("21"));
    let mut inp = inputs("{}");
    inp.assets.insert(raw.to_string(), Located::Found(asset(raw, RefScheme::Project, "/p/d.js")));
    inp.scripts.insert(
        "/p/d.js".to_string(),
        Script::Source("function run(ctx, input) { return 2 * input.n; }".to_string()),
    );
    let bound = resolve_bindings(&bindings, &inp);
    assert!(bound.errors.is_empty(), "{:?}", bound.errors);
    assert_eq!(print(bound.values.get("d").unwrap()), "42");
}

#[test]
fn forms_are_made_of_members() {
    let form = value_to_form(&js(r#"{"a":1,"b":"x"}"#));
    let pairs: Vec<(String, String)> = form.into_iter().map(|h| (h.name, h.value)).collect();
    assert_eq!(pairs, vec![("a".to_string(), "1".to_string()), ("b".to_string(), "x".to_string())]);
}

#[test]
fn matrix_binding_must_be_an_array() {
    let mut doc = document("http://x");
    doc.matrix.insert("case".to_string(), value("42"));
    let err = resolve_cases(&doc.matrix, &inputs("{}")).unwrap_err();
    assert!(err.iter().any(|d| d.message.contains("must resolve to an array")), "{err:?}");
    assert_eq!(err[0].instance_path.as_deref(), Some("/matrix/case"));
}

#[test]
fn matrix_runs_once_per_case() {
    let mut doc = document("http://x");
    doc.matrix.insert("case".to_string(), value(r#"[{"name":"valid"},{"name":"missingEmail"}]"#));
    let all = resolve_cases(&doc.matrix, &inputs("{}")).unwrap();
    assert_eq!(all.len(), 2);
    assert_eq!(all[0].get("case").unwrap().text("name"), "valid");
    assert_eq!(all[1].get("case").unwrap().text("name"), "missingEmail");
}

#[test]
fn lists_of_a_matrix_are_combined() {
    let lists = vec![
        CaseList { name: "a".to_string(), items: vec![js("1"), js("2")] },
        CaseList { name: "b".to_string(), items: vec![js("3"), js("4"), js("5")] },
    ];
    let all = cases(&lists);
    assert_eq!(all.len(), 6);
    assert_eq!(print(&all[0]), r#"{"a":1,"b":3}"#);
    assert_eq!(print(&all[1]), r#"{"a":1,"b":4}"#);
    assert_eq!(print(&all[5]), r#"{"a":2,"b":5}"#);
    let none = cases(&vec![]);
    assert_eq!(print(&none[0]), "null");
}

#[test]
fn format_version_is_one() {
    assert!(FormatVersion::from_number(1).is_ok());
    let err = FormatVersion::from_number(2).unwrap_err();
    assert!(err.contains("formatVersion"), "{err}");
    assert_eq!(FormatVersion {}.number(), 1);
}

#[test]
fn request_environment_prefers_explicit_then_inherits() {
    let read = |explicit: Option<&str>| {
        let name = request_environment(explicit, Ok(Some("staging".to_string())))?;
        let text = name.as_ref().map(|n| format!("{{\"name\":\"{n}\"}}"));
        load_environment(name.as_deref(), Ok(text.unwrap_or_default()))
    };
    assert_eq!(print(&read(None).unwrap()), r#"{"name":"staging"}"#);
    assert_eq!(print(&read(Some("local")).unwrap()), r#"{"name":"local"}"#);
    assert!(read(Some("../secret")).is_err());
    let inherited = || Ok(Some("staging".to_string()));
    assert_eq!(request_environment(Some("local"), inherited()).unwrap().as_deref(), Some("local"));
    assert_eq!(request_environment(None, inherited()).unwrap().as_deref(), Some("staging"));
    assert!(request_environment(None, Err("bad".to_string())).is_err());
}

#[test]
fn environments_are_read_as_json() {
    let env = load_environment(Some("local"), Ok(r#"{"name":"local"}"#.to_string())).unwrap();
    assert_eq!(env.text("name"), "local");
    assert!(load_environment(Some("local"), Ok("{".to_string())).is_err());
    assert!(load_environment(Some("local"), Err("gone".to_string())).is_err());
    assert!(load_environment(Some("../secret"), Ok("{}".to_string())).is_err());
    assert_eq!(print(&load_environment(None, Err("unused".to_string())).unwrap()), "{}");
}

#[test]
fn a_sequence_carries_values_on() {
    assert!(check_lengths(2, 2).is_ok());
    assert!(check_lengths(2, 1).is_err());
    let mut runtime = TextMap::new();
    runtime.insert("a".to_string(), js("1"));
    let mut written = TextMap::new();
    written.insert("a".to_string(), js("2"));
    written.insert("b".to_string(), js("3"));
    thread_runtime(&mut runtime, &written);
    assert_eq!(print(runtime.get("a").unwrap()), "2");
    assert_eq!(print(runtime.get("b").unwrap()), "3");
}

fn auth_config() -> ProjectAuthConfig {
    ProjectAuthConfig {
        request: "auth/login.request.json".to_string(),
        apply_to: "requests".to_string(),
        token_path: "$.token".to_string(),
        lifetime_seconds: 60,
        refresh_before_seconds: 10,
    }
}

#[test]
fn project_auth_stays_in_its_part_of_the_project() {
    let config = auth_config();
    assert!(auth_applies(&config, Ok(()), "requests/a.request.json").unwrap());
    assert!(!auth_applies(&config, Ok(()), "other/a.request.json").unwrap());
    assert!(auth_applies(&config, Err("bad".to_string()), "requests/a.request.json").is_err());
}

#[test]
fn paths_do_not_leave_the_project() {
    let ok = checked_project_path("a", "request", "/p", "/p/a", Ok("/p".to_string()), Ok("/p/a".to_string()));
    assert_eq!(ok.unwrap(), "/p/a");
    let out = checked_project_path("a", "request", "/p", "/p/a", Ok("/p".to_string()), Ok("/q/a".to_string()));
    assert!(out.is_err());
    assert!(checked_project_path("../a", "request", "/p", "/p/../a", Ok("/p".to_string()), Ok("/a".to_string())).is_err());
    assert!(checked_project_path("/a", "request", "/p", "/a", Ok("/p".to_string()), Ok("/p/a".to_string())).is_err());
}

#[test]
fn a_token_is_taken_from_the_response() {
    let config = auth_config();
    let response = ResponseView { status: 200, headers: vec![], body: br#"{"token":"t-1"}"#.to_vec(), time_ms: 1 };
    assert_eq!(token_from_run(&config, RunStatus::Passed, None, Some(&response)).unwrap(), "t-1");
    assert!(token_from_run(&config, RunStatus::Failed, Some("no"), Some(&response)).is_err());
    assert!(token_from_run(&config, RunStatus::Passed, None, None).is_err());
    let empty = ResponseView { status: 200, headers: vec![], body: b"{}".to_vec(), time_ms: 1 };
    assert!(token_from_run(&config, RunStatus::Passed, None, Some(&empty)).is_err());
}

#[test]
fn own_credentials_keep_project_auth_away() {
    let mut doc = document("http://x");
    assert!(!has_explicit_auth(&doc));
    doc.request.headers.push(HeaderSpec {
        name: "authorization".to_string(),
        value: "Bearer x".to_string(),
        enabled: true,
    });
    assert!(has_explicit_auth(&doc));
}

fn key() -> AuthKey {
    AuthKey {
        root: "/p".to_string(),
        provider: "auth/login.request.json".to_string(),
        environment: "{}".to_string(),
        settings: "{}".to_string(),
        mode: RunMode::Http,
    }
}

#[test]
fn a_session_fetches_keeps_and_uses_tokens() {
    let config = auth_config();
    let doc = document("http://x");
    let mut session = AuthSession::new();
    let target = "requests/a.request.json";
    assert!(matches!(session.decide(None, Ok(()), target, &doc, &key(), 0), Ok(AuthStep::Plain)));
    assert!(matches!(session.decide(Some(&config), Ok(()), "other", &doc, &key(), 0), Ok(AuthStep::Plain)));
    assert!(matches!(session.decide(Some(&config), Ok(()), target, &doc, &key(), 0), Ok(AuthStep::Fetch)));
    assert!(session.accept(&config, key(), RunStatus::Error, Some("down"), None, 0).is_err());
    assert!(matches!(session.decide(Some(&config), Ok(()), target, &doc, &key(), 0), Ok(AuthStep::Fetch)));
    let response = ResponseView { status: 200, headers: vec![], body: br#"{"token":"t-1"}"#.to_vec(), time_ms: 1 };
    let header = session.accept(&config, key(), RunStatus::Passed, None, Some(&response), 0).unwrap();
    assert!(header.refreshed);
    match session.decide(Some(&config), Ok(()), target, &doc, &key(), 1) {
        Ok(AuthStep::Kept(header)) => assert_eq!((header.token.as_str(), header.refreshed), ("t-1", false)),
        other => panic!("{other:?}"),
    }
    assert!(session.decide(Some(&config), Err("bad".to_string()), target, &doc, &key(), 1).is_err());
}

#[test]
fn a_token_is_used_while_it_lasts() {
    let mut session = AuthSession::new();
    assert!(session.usable(&key(), 0, 10, 0).is_none());
    session.remember(key(), "t-1".to_string(), 0, 60);
    let second: u64 = 1_000_000_000;
    assert_eq!(session.usable(&key(), 0, 10, 0).as_deref(), Some("t-1"));
    assert_eq!(session.usable(&key(), 49 * second, 10, 0).as_deref(), Some("t-1"));
    assert!(session.usable(&key(), 50 * second, 10, 0).is_none());
    session.record_duration("/p", "a", 30_000);
    session.record_duration("/p", "a", 20_000);
    assert_eq!(session.estimate("/p", "a"), 30_000);
    assert_eq!(session.estimate("/p", "b"), 0);
    assert!(session.usable(&key(), 25 * second, 10, 30_000).is_none());
}
