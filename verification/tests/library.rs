//! Values, texts, paths, imports, and what the command line prints.

use forge::cli::{
    describe_result, describe_validation, list_children, message_source, mock_path, parse_data_source, parse_env_local,
    parse_metadata, parse_scope, run_code, run_v1_code, secret_value, v1_root_for, Candidate, DataKind, Line,
    MessageSource,
};
use forge::convert::postman::{
    parse_postman, parse_postman_environment, parse_request, parse_url, ImportedItem, PostmanError,
};
use forge::json::{equal, from_tree, parse, print, to_tree, Json};
use forge::map::TextMap;
use forge::mask::mask_text;
use forge::model::auth::AuthConfig;
use forge::model::body::BodyDef;
use forge::model::request::ParamKind;
use forge::model::Method;
use forge::openapi::build_binding;
use forge::paths::{climbs, equal_paths, parent_of, parts_of, under};
use forge::protocols::ProtocolError;
use forge::reqv1::diag::{Code, Diagnostic};
use forge::reqv1::runner::{HttpResultView, RunResult, RunStatus};
use forge::reqv1::vars::{interpolate, Scopes};
use forge::runner::plan::RunScope;
use forge::runner::run::RunSummary;
use forge::schema::{report, validate, MAX_ERRORS};
use forge::words::{join, number_text, percent_encode, split, trim};

fn js(text: &str) -> Json {
    parse(text).unwrap()
}

#[test]
fn valid_instance_passes() {
    let schema = js(r#"{
        "type": "object",
        "required": ["id"],
        "properties": { "id": { "type": "number" } }
    }"#);
    let instance = js(r#"{ "id": 1 }"#);
    assert_eq!(validate(&schema, &instance), Ok(()));
}

#[test]
fn invalid_instance_collects_errors() {
    let schema = js(r#"{
        "type": "object",
        "required": ["id", "name"],
        "properties": {
            "id": { "type": "number" },
            "name": { "type": "string" }
        }
    }"#);
    let instance = js(r#"{ "id": "not-a-number" }"#);
    let errors = validate(&schema, &instance).unwrap_err();
    assert!(!errors.is_empty());
    assert!(errors.len() <= MAX_ERRORS);
    assert!(errors.iter().any(|e| e.contains("id")));
    assert!(errors.contains(&"/id: \"not-a-number\" is not of type \"number\"".to_string()), "{errors:?}");
}

#[test]
fn invalid_schema_itself_reports_single_error() {
    let schema = js(r#"{ "type": 123 }"#);
    let result = validate(&schema, &js("{}"));
    assert!(result.is_err());
    assert_eq!(result.unwrap_err().len(), 1);
}

#[test]
fn many_errors_are_capped() {
    let schema = js(r#"{
        "type": "object",
        "properties": {
            "a": { "type": "string" },
            "b": { "type": "string" },
            "c": { "type": "string" }
        },
        "additionalProperties": false
    }"#);
    let mut pairs = Vec::new();
    for i in 0..30 {
        pairs.push((format!("extra{i}"), js("1")));
    }
    let errors = validate(&schema, &Json::Object(pairs)).unwrap_err();
    assert!(errors.len() <= MAX_ERRORS);
}

#[test]
fn reports_name_the_place() {
    assert_eq!(report(Ok(vec![])), Ok(()));
    let many: Vec<(String, String)> = (0..25).map(|i| (format!("/{i}"), "bad".to_string())).collect();
    assert_eq!(report(Ok(many)).unwrap_err().len(), MAX_ERRORS);
    assert_eq!(report(Err("no schema".to_string())).unwrap_err().len(), 1);
}

#[test]
fn build_binding_maps_request_files_to_operation_ids() {
    let binding = build_binding(
        "specs/petstore.yaml",
        &vec![
            ("pets/list-pets.request.json".to_string(), "listPets".to_string()),
            ("pets/get-pet.request.json".to_string(), "getPetById".to_string()),
        ],
    );
    assert_eq!(binding.spec_path, "specs/petstore.yaml");
    assert_eq!(binding.operations.get("pets/list-pets.request.json"), Some(&"listPets".to_string()));
    assert_eq!(binding.operations.len(), 2);
}

#[test]
fn trees_and_values_match() {
    let text = r#"{"a":[1,-2,0.5,null,true,"x"],"b":{}}"#;
    let v = js(text);
    assert_eq!(print(&v), text);
    let tree = to_tree(&v);
    assert_eq!(tree["a"][1], -2);
    assert!(equal(&from_tree(tree), &v));
    assert!(parse("{").is_err());
    assert!(equal(&js(r#"{"x":1,"y":2}"#), &js(r#"{"y":2,"x":1}"#)));
    assert!(!equal(&js("1"), &js("2")));
}

#[test]
fn maps_are_ordered_by_name() {
    let mut m = TextMap::new();
    assert!(!m.insert("b".to_string(), 1.to_string()));
    assert!(!m.insert("a".to_string(), 2.to_string()));
    assert!(m.insert("b".to_string(), 3.to_string()));
    assert_eq!(m.len(), 2);
    assert_eq!(m.pairs[0].0, "a");
    assert_eq!(m.get("b").unwrap(), "3");
    assert!(m.get("c").is_none());
}

#[test]
fn secrets_are_masked() {
    let secrets = vec!["abc".to_string(), String::new()];
    assert_eq!(mask_text(&secrets, "x abc y abc"), "x *** y ***");
    assert_eq!(mask_text(&vec![], "abc"), "abc");
}

#[test]
fn paths_are_compared_by_components() {
    assert_eq!(parts_of("/a//b/./c"), vec!["/", "a", "b", "c"]);
    assert!(under("/a/b", "/a"));
    assert!(!under("/ab", "/a"));
    assert!(equal_paths("a/b/", "a//b"));
    assert!(climbs("a/../b"));
    assert!(!climbs("a/..b"));
    assert_eq!(parent_of("/a/b").as_deref(), Some("/a"));
    assert_eq!(parent_of("/"), None);
}

#[test]
fn words_are_split_and_joined() {
    let parts = split("a,b,,c", ',');
    assert_eq!(parts, vec!["a", "b", "", "c"]);
    assert_eq!(join(&parts, ","), "a,b,,c");
    assert_eq!(trim(" \tx y\n"), "x y");
    assert_eq!(number_text(0), "0");
    assert_eq!(number_text(u64::MAX), "18446744073709551615");
    assert_eq!(percent_encode("a b/ü~"), "a%20b%2F%C3%BC~");
}

#[test]
fn variables_are_filled_into_values() {
    let mut secrets = TextMap::new();
    secrets.insert("t".to_string(), "s3cret".to_string());
    let scopes = Scopes {
        env: js(r#"{"n":5,"s":"x"}"#),
        bindings: js("{}"),
        matrix: Json::Null,
        runtime: js("{}"),
        secrets,
        placeholder: None,
    };
    let mut seen = Vec::new();
    let out = interpolate(&js(r#"["${env.n}","a${env.n}","${secret.t}"]"#), &scopes, &mut seen).unwrap();
    assert_eq!(print(&out), r#"[5,"a5","s3cret"]"#);
    assert_eq!(seen, vec!["s3cret".to_string()]);
    assert!(interpolate(&js(r#""${env.gone}""#), &scopes, &mut seen).is_err());
    assert!(interpolate(&js(r#""${secret.gone}""#), &scopes, &mut seen).is_err());
    let checking = Scopes { placeholder: Some("<secret>".to_string()), ..scopes };
    let out = interpolate(&js(r#""${secret.gone}""#), &checking, &mut seen).unwrap();
    assert_eq!(print(&out), r#""<secret>""#);
}

const COLLECTION: &str = r#"{
    "info": { "name": "Pets", "schema": "https://schema.getpostman.com/json/collection/v2.1.0/collection.json" },
    "variable": [ { "key": "base", "value": "https://pets.test" } ],
    "auth": { "type": "bearer", "bearer": [ { "key": "token", "value": "t-1" } ] },
    "item": [
        { "name": "List", "request": { "method": "GET", "url": "{{base}}/pets?limit=5" } },
        { "name": "Admin", "item": [
            { "name": "Add", "request": {
                "method": "POST",
                "header": [ { "key": "X-A", "value": "1" } ],
                "url": { "raw": "{{base}}/pets" },
                "body": { "mode": "raw", "raw": "{}", "options": { "raw": { "language": "json" } } }
            } }
        ] }
    ]
}"#;

#[test]
fn collections_are_imported() {
    let col = parse_postman(COLLECTION).unwrap();
    assert_eq!(col.name, "Pets");
    assert_eq!(col.request_count(), 2);
    assert_eq!(col.variables.get("base").unwrap(), "https://pets.test");
    assert!(matches!(&col.auth, AuthConfig::Bearer { token, .. } if token == "t-1"));
    match &col.items[0] {
        ImportedItem::Request(def) => {
            assert_eq!(def.method, Method::Get);
            assert_eq!(def.name, "List");
        }
        other => panic!("{other:?}"),
    }
    match &col.items[1] {
        ImportedItem::Folder { name, items, .. } => {
            assert_eq!(name, "Admin");
            match &items[0] {
                ImportedItem::Request(def) => {
                    assert_eq!(def.headers[0].key, "X-A");
                    assert!(matches!(&def.body, BodyDef::Json { text } if text == "{}"), "{:?}", def.body);
                }
                other => panic!("{other:?}"),
            }
        }
        other => panic!("{other:?}"),
    }
}

#[test]
fn a_written_query_becomes_rows() {
    let (url, params) = parse_url(&js(r#""https://api.test/items?limit=5""#));
    assert_eq!(url, "https://api.test/items");
    assert_eq!(params.len(), 1);
    assert_eq!((params[0].kv.key.as_str(), params[0].kv.value.as_str()), ("limit", "5"));
    assert_eq!(params[0].kv.description, "");
    assert!(params[0].kv.enabled);
    assert_eq!(params[0].kind, ParamKind::Query);
    let (url, params) = parse_url(&js(r#"{"raw":"{{base}}/a?x=1&&flag&y=a=b#top","query":[]}"#));
    assert_eq!(url, "{{base}}/a");
    let rows: Vec<(&str, &str)> = params.iter().map(|p| (p.kv.key.as_str(), p.kv.value.as_str())).collect();
    assert_eq!(rows, vec![("x", "1"), ("flag", ""), ("y", "a=b")]);
    let (_, params) = parse_url(&js(r#"{"raw":"https://x?a=1","query":[{"key":"b","value":"2"}]}"#));
    assert_eq!(params.len(), 1);
    assert_eq!(params[0].kv.key, "b");
    assert!(parse_url(&js(r#""https://x""#)).1.is_empty());
}

#[test]
fn saved_examples_are_noted_in_both_forms() {
    let mut skipped = Vec::new();
    let bare = js(r#"{"name":"r","request":"https://x","response":[{}],
        "event":[{"listen":"test","script":{"exec":["pm.test()"]}}]}"#);
    let def = parse_request(&bare, "r", &mut skipped);
    assert_eq!((def.method, def.url.as_str(), def.name.as_str()), (Method::Get, "https://x", "r"));
    assert_eq!(def.scripts.post_response.as_deref(), Some("pm.test()"));
    let full = js(r#"{"name":"s","request":{"method":"GET","url":"https://x"},"response":[{}]}"#);
    parse_request(&full, "f/s", &mut skipped);
    assert_eq!(
        skipped,
        vec!["r: saved example responses not imported", "f/s: saved example responses not imported"]
    );
}

#[test]
fn what_is_no_collection_is_refused() {
    assert!(matches!(parse_postman("{}"), Err(PostmanError::NotACollection)));
    assert!(matches!(parse_postman("{"), Err(PostmanError::Json(_))));
    assert!(matches!(parse_postman_environment("{}"), Err(PostmanError::NotAnEnvironment)));
}

#[test]
fn secret_values_are_kept_apart() {
    let text = r#"{ "name": "dev", "values": [
        { "key": "base", "value": "https://x", "enabled": true },
        { "key": "key", "value": "s3cret", "type": "secret", "enabled": true }
    ] }"#;
    let (env, secrets) = parse_postman_environment(text).unwrap();
    assert_eq!(env.name, "dev");
    assert_eq!(env.variables.get("base").unwrap().value.as_deref(), Some("https://x"));
    assert!(env.variables.get("key").unwrap().secret);
    assert_eq!(env.variables.get("key").unwrap().value, None);
    assert_eq!(secrets.get("key").unwrap(), "s3cret");
}

#[test]
fn arguments_are_read() {
    assert!(matches!(parse_scope(None), RunScope::Workspace));
    assert!(matches!(parse_scope(Some("collections/a/x.request.json")), RunScope::Request(_)));
    assert_eq!(parse_data_source("x.csv"), Ok(DataKind::Csv));
    assert_eq!(parse_data_source("x.JSON"), Ok(DataKind::Json));
    assert!(parse_data_source("x.txt").is_err());
    assert!(matches!(message_source("-"), MessageSource::Stdin));
    assert!(matches!(message_source("@f.json"), MessageSource::File(p) if p == "f.json"));
    assert!(matches!(message_source("{}"), MessageSource::Inline(s) if s == "{}"));
    let pairs = parse_metadata(&vec!["a: b".to_string(), "c:d:e".to_string()]).unwrap();
    assert_eq!(pairs, vec![("a".to_string(), "b".to_string()), ("c".to_string(), "d:e".to_string())]);
    let refused = parse_metadata(&vec!["a: b".to_string(), "a=b".to_string()]).unwrap_err();
    assert_eq!(refused, "metadata must be key:value, got \"a=b\"");
}

#[test]
fn local_secrets_are_read() {
    let map = parse_env_local("# note\nA=1\nB=\"two\"\n\nC = 3\n");
    assert_eq!(map.get("A").unwrap(), "1");
    assert_eq!(map.get("B").unwrap(), "two");
    assert_eq!(map.get("C").unwrap(), "3");
    assert_eq!(secret_value(&map, Some("p".to_string()), "Z").as_deref(), Some("p"));
}

#[test]
fn projects_are_found_above_their_requests() {
    let dirs = vec![
        Candidate { dir: "/p/a/b".to_string(), has_project: false },
        Candidate { dir: "/p/a".to_string(), has_project: true },
        Candidate { dir: "/p".to_string(), has_project: true },
    ];
    assert_eq!(v1_root_for(&dirs, None), "/p/a");
    assert_eq!(v1_root_for(&dirs, Some("/q")), "/q");
}

fn result(status: RunStatus) -> RunResult {
    RunResult {
        request_id: "users.create".to_string(),
        status,
        http: Some(HttpResultView { status: 201, time_ms: 4, bytes: 9 }),
        assertions: vec![],
        runtime: TextMap::new(),
        diagnostics: vec![Diagnostic::new(Code::AssetError, "bad".to_string())],
        duration_ms: 5,
    }
}

#[test]
fn exit_codes_tell_how_a_run_ended() {
    assert_eq!(run_v1_code(&vec![result(RunStatus::Passed)]), 0);
    assert_eq!(run_v1_code(&vec![result(RunStatus::Passed), result(RunStatus::Failed)]), 1);
    assert_eq!(run_v1_code(&vec![result(RunStatus::Failed), result(RunStatus::Error)]), 2);
    let summary = |failed| RunSummary { total: 1, passed: 0, failed, skipped: 0, duration_ms: 0 };
    assert_eq!(run_code(&summary(0)), 0);
    assert_eq!(run_code(&summary(1)), 1);
}

#[test]
fn results_are_described() {
    let lines = describe_result(&result(RunStatus::Failed), false);
    match &lines[0] {
        Line::Out(text) => assert_eq!(text, "users.create — 201 (4 ms, 9 bytes)"),
        other => panic!("{other:?}"),
    }
    let (lines, code) = describe_validation(&Err(vec![Diagnostic::new(Code::AssetError, "bad".to_string())]));
    assert!(!lines.is_empty());
    assert_ne!(code, 0);
}

#[test]
fn empty_trees_list_nothing() {
    let mut lines = Vec::new();
    list_children(&vec![], 0, &mut lines);
    assert!(lines.is_empty());
}

#[test]
fn mock_routes_are_paths() {
    assert_eq!(mock_path("/users?x=1"), "/users");
}

#[test]
fn errors_are_told() {
    assert_eq!(ProtocolError::Connect("x".to_string()).message(), "connection failed: x");
    assert_eq!(ProtocolError::Http("x".to_string()).message(), "x");
    assert_eq!(ProtocolError::Parse("x".to_string()).message(), "failed to parse response: x");
    assert_eq!(ProtocolError::Closed.message(), "connection closed");
}
