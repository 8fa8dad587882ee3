//! References, pointers, checks of responses, and the order of children.

use forge::arrangement::arrange;
use forge::json::{parse, print, Json};
use forge::map::TextMap;
use forge::model::request::{Check, ExtractScope, Extractor, ExtractorSource, NumberOp, RequestDef, TextOp};
use forge::model::Method;
use forge::pointer::{find, unescape};
use forge::reqv1::builder::{Loaded, Located};
use forge::reqv1::ir::RefScheme;
use forge::reqv1::model::{
    Binding, FormatVersion, PipelineEntry, PipelinePhase, RefBinding, RequestDocument, RequestKind, RequestMeta,
    RequestSpec,
};
use forge::reqv1::pipeline::ResponseView;
use forge::reqv1::refs::{read_data, references, resolve_reference};
use forge::runner::checks::{evaluate, evaluate_all, extract, apply_extractors, summary};

fn js(text: &str) -> Json {
    parse(text).unwrap()
}

fn texts(list: &[&str]) -> Vec<String> {
    list.iter().map(|s| s.to_string()).collect()
}

#[test]
fn pointers_lead_into_values() {
    let v = js(r#"{"a":[{"b/c":1},{"m~n":2}]}"#);
    assert_eq!(print(find(&v, "/a/0/b~1c").unwrap()), "1");
    assert_eq!(print(find(&v, "/a/1/m~0n").unwrap()), "2");
    assert_eq!(print(find(&v, "").unwrap()), print(&v));
    assert!(find(&v, "/a/2").is_none());
    assert!(find(&v, "/a/00").is_none());
    assert!(find(&v, "a").is_none());
    assert_eq!(unescape("~01"), "~1");
}

fn aliases() -> TextMap<String> {
    let mut map = TextMap::new();
    map.insert("data:users".to_string(), "assets/data/users.json".to_string());
    map.insert("project:hooks/tag".to_string(), "assets/hooks/tag.js".to_string());
    map
}

#[test]
fn references_are_resolved() {
    let resolve = |raw: &str| resolve_reference(raw, &aliases(), "/p", "/p/requests");
    match resolve("data:users#/valid/alice") {
        Located::Found(a) => {
            assert_eq!(a.scheme, RefScheme::Data);
            assert_eq!(a.address, "/p/assets/data/users.json");
            assert_eq!(a.pointer.as_deref(), Some("/valid/alice"));
        }
        other => panic!("{other:?}"),
    }
    match resolve("builtin:uuid@1") {
        Located::Found(a) => assert_eq!((a.scheme, a.address.as_str(), a.version), (RefScheme::Builtin, "uuid", Some(1))),
        other => panic!("{other:?}"),
    }
    match resolve("./hook.js") {
        Located::Found(a) => {
            assert_eq!(a.scheme, RefScheme::File);
            assert!(a.address.starts_with("/p/requests/"));
        }
        other => panic!("{other:?}"),
    }
    match resolve("data:nobody") {
        Located::Missing(d) => assert_eq!(d.code.as_str(), "INVALID_ALIAS"),
        other => panic!("{other:?}"),
    }
    match resolve("builtin:uuid@x") {
        Located::Missing(d) => assert_eq!(d.code.as_str(), "UNSUPPORTED_ASSET_VERSION"),
        other => panic!("{other:?}"),
    }
}

#[test]
fn data_is_read_through_its_pointer() {
    let file = || Ok(r#"{"valid":{"alice":{"name":"Alice"}}}"#.to_string());
    match read_data("data:users", Some("/valid/alice"), file()) {
        Loaded::Value(v) => assert_eq!(v.text("name"), "Alice"),
        other => panic!("{other:?}"),
    }
    match read_data("data:users", Some("/valid/nobody"), file()) {
        Loaded::Missing(d) => assert_eq!(d.code.as_str(), "INVALID_POINTER"),
        other => panic!("{other:?}"),
    }
    match read_data("data:users", None, Err("gone".to_string())) {
        Loaded::Missing(d) => assert_eq!(d.code.as_str(), "ASSET_NOT_FOUND"),
        other => panic!("{other:?}"),
    }
    assert!(matches!(read_data("data:users", None, Ok("{".to_string())), Loaded::Missing(_)));
}

#[test]
fn documents_list_their_references() {
    let mut doc = RequestDocument {
        schema: None,
        format_version: FormatVersion {},
        kind: RequestKind::Request,
        meta: RequestMeta { id: "x".to_string(), name: "x".to_string(), description: None, tags: vec![] },
        bindings: TextMap::new(),
        matrix: TextMap::new(),
        request: RequestSpec {
            method: Method::Get,
            url: "http://x".to_string(),
            headers: vec![],
            query: vec![],
            body: None,
        },
        pipeline: vec![],
        mock: None,
    };
    doc.bindings.insert(
        "u".to_string(),
        Binding::Ref(RefBinding { reference: "data:users".to_string(), patch: js("[]") }),
    );
    doc.pipeline.push(PipelineEntry {
        phase: PipelinePhase::BeforeRequest,
        uses: "builtin:bearer@1".to_string(),
        with: js("{}"),
        enabled: true,
    });
    assert_eq!(references(&doc), texts(&["data:users", "builtin:bearer@1"]));
}

fn response() -> ResponseView {
    ResponseView {
        status: 201,
        headers: vec![("Content-Type".to_string(), "application/json; charset=utf-8".to_string())],
        body: br#"{"id":"abc","n":3}"#.to_vec(),
        time_ms: 40,
    }
}

fn passes(check: Check) -> bool {
    evaluate(&check, &response()).passed
}

#[test]
fn responses_are_checked() {
    assert!(passes(Check::StatusCode { op: NumberOp::Eq, value: 201 }));
    assert!(!passes(Check::StatusCode { op: NumberOp::Lt, value: 201 }));
    assert!(passes(Check::StatusCode { op: NumberOp::Le, value: 201 }));
    assert!(passes(Check::StatusClass { class: 2 }));
    assert!(!passes(Check::StatusClass { class: 4 }));
    assert!(passes(Check::ContentType { value: "application/json".to_string() }));
    assert!(!passes(Check::ContentType { value: "application/js".to_string() }));
    let header = |op, value: &str| Check::Header { name: "content-type".to_string(), op, value: value.to_string() };
    assert!(passes(header(TextOp::Exists, "")));
    assert!(passes(header(TextOp::Contains, "charset")));
    assert!(passes(header(TextOp::Matches, "utf-[0-9]$")));
    assert!(!passes(header(TextOp::Matches, "(")));
    assert!(passes(header(TextOp::Ne, "x")));
    let path = |op, value: &str| Check::JsonPath { path: "$.id".to_string(), op, value: js(value) };
    assert!(passes(path(TextOp::Eq, r#""abc""#)));
    assert!(!passes(path(TextOp::Ne, r#""abc""#)));
    assert!(passes(path(TextOp::Matches, r#""^a""#)));
    assert!(passes(Check::BodyContains { value: "\"n\":3".to_string() }));
    assert!(passes(Check::BodyMatches { regex: "\"n\":[0-9]".to_string() }));
    assert!(passes(Check::ResponseTimeBelow { max_ms: 41 }));
    assert!(!passes(Check::ResponseTimeBelow { max_ms: 40 }));
    assert!(passes(Check::JsonSchema { schema: js(r#"{"required":["id"]}"#) }));
    assert!(!passes(Check::JsonSchema { schema: js(r#"{"required":["gone"]}"#) }));
}

#[test]
fn failed_checks_tell_what_was_found() {
    let outcome = evaluate(&Check::StatusCode { op: NumberOp::Eq, value: 200 }, &response());
    assert_eq!(outcome.label, "status == 200");
    assert_eq!(outcome.message, "got 201");
    assert_eq!(summary(&Check::StatusClass { class: 2 }), "status 2xx");
}

#[test]
fn disabled_assertions_do_not_count() {
    let mut def = RequestDef::new("r", Method::Get, "https://x");
    forge::gui::request_editor::add_check(&mut def.assertions, Check::StatusClass { class: 2 });
    forge::gui::request_editor::add_check(&mut def.assertions, Check::StatusClass { class: 4 });
    def.assertions[1].enabled = false;
    let outcomes = evaluate_all(&def.assertions, &response());
    assert_eq!(outcomes.len(), 1);
    assert!(outcomes[0].passed);
}

fn extractor(source: ExtractorSource, var: &str) -> Extractor {
    Extractor { source, var: var.to_string(), scope: ExtractScope::Runtime, enabled: true }
}

#[test]
fn values_are_taken_from_responses() {
    let path = ExtractorSource::JsonPath { expr: "$.id".to_string() };
    assert_eq!(extract(&path, &response()).unwrap(), "abc");
    let number = ExtractorSource::JsonPath { expr: "$.n".to_string() };
    assert_eq!(extract(&number, &response()).unwrap(), "3");
    let header = ExtractorSource::Header { name: "content-type".to_string() };
    assert!(extract(&header, &response()).unwrap().starts_with("application/json"));
    let group = ExtractorSource::Regex { pattern: r#""id":"([a-z]+)""#.to_string(), group: 1 };
    assert_eq!(extract(&group, &response()).unwrap(), "abc");
    let none = ExtractorSource::Regex { pattern: "zzz".to_string(), group: 0 };
    assert_eq!(extract(&none, &response()).unwrap_err(), "no match for zzz");
    let report = apply_extractors(
        &vec![extractor(path, "chargeId"), extractor(ExtractorSource::Header { name: "X".to_string() }, "x")],
        &response(),
    );
    assert_eq!(report.values, vec![("chargeId".to_string(), "abc".to_string())]);
    assert_eq!(report.errors, texts(&["x: no header X"]));
}

#[test]
fn listed_children_come_first() {
    let names = texts(&["c", "a", "b", "d"]);
    assert_eq!(arrange(&names, &texts(&["d", "gone", "b", "d"])), texts(&["d", "b", "a", "c"]));
    assert_eq!(arrange(&names, &vec![]), texts(&["a", "b", "c", "d"]));
}
