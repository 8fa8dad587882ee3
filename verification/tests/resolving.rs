//! How a stored request is made ready to be sent.

use forge::exec::{PartData, ResolvedBody, ResolvedRequest};
use forge::map::TextMap;
use forge::model::auth::{ApiKeyPlacement, AuthConfig};
use forge::model::body::{BodyDef, KeyValue, MultipartPart, PartContent, RawLanguage};
use forge::model::environment::{EnvVar, Environment};
use forge::model::request::{Check, NumberOp, Param, ParamKind, RequestDef, TextOp};
use forge::model::workspace::WorkspaceSettings;
use forge::model::Method;
use forge::runner::assertions::{interp_json, resolve_assertions};
use forge::runner::resolve::{
    effective_auth, ensure_scheme, file_name_of, has_scheme, raw_content_type, resolve_body_path, resolve_request,
    substitute_path_params, token_request, Outside, ResolveError, Token,
};
use forge::vars::{interpolate, VarScopes};

fn nothing() -> Outside {
    Outside { token: None, file: None }
}

fn resolve(def: &RequestDef, scopes: &VarScopes, outside: &Outside) -> Result<ResolvedRequest, ResolveError> {
    resolve_request(&WorkspaceSettings::default(), "/ws", def, &vec![], scopes, outside)
}

fn ready(def: &RequestDef) -> ResolvedRequest {
    resolve(def, &VarScopes::new(), &nothing()).expect("resolve ok")
}

fn header<'a>(r: &'a ResolvedRequest, name: &str) -> Option<&'a str> {
    r.headers.iter().find(|(k, _)| k.eq_ignore_ascii_case(name)).map(|(_, v)| v.as_str())
}

#[test]
fn basic_auth_produces_expected_base64() {
    let mut def = RequestDef::new("r", Method::Get, "https://example.com");
    def.auth = AuthConfig::Basic { username: "user".to_string(), password: "pass".to_string() };
    let resolved = ready(&def);
    assert_eq!(header(&resolved, "Authorization"), Some("Basic dXNlcjpwYXNz"));
}

#[test]
fn bearer_auth_uses_custom_prefix() {
    let mut def = RequestDef::new("r", Method::Get, "https://example.com");
    def.auth = AuthConfig::Bearer { token: "tok123".to_string(), prefix: Some("Token".to_string()) };
    assert_eq!(header(&ready(&def), "Authorization"), Some("Token tok123"));
}

#[test]
fn api_key_header_placement() {
    let mut def = RequestDef::new("r", Method::Get, "https://example.com");
    def.auth = AuthConfig::ApiKey {
        key: "X-Key".to_string(),
        value: "secret123".to_string(),
        placement: ApiKeyPlacement::Header,
    };
    assert_eq!(header(&ready(&def), "X-Key"), Some("secret123"));
}

#[test]
fn api_key_query_placement() {
    let mut def = RequestDef::new("r", Method::Get, "https://example.com/search");
    def.auth = AuthConfig::ApiKey {
        key: "key".to_string(),
        value: "secret123".to_string(),
        placement: ApiKeyPlacement::Query,
    };
    let url = url::Url::parse(&ready(&def).url).expect("valid url");
    assert!(url.query_pairs().any(|(k, v)| k == "key" && v == "secret123"));
}

#[test]
fn explicit_query_param_wins_over_api_key_query_auth() {
    let mut def = RequestDef::new("r", Method::Get, "https://example.com/search");
    def.params.push(Param { kv: KeyValue::new("api_key", "user"), kind: ParamKind::Query });
    def.auth = AuthConfig::ApiKey {
        key: "api_key".to_string(),
        value: "auth-value".to_string(),
        placement: ApiKeyPlacement::Query,
    };
    let url = url::Url::parse(&ready(&def).url).expect("valid url");
    let values: Vec<_> = url.query_pairs().filter(|(k, _)| k == "api_key").map(|(_, v)| v.into_owned()).collect();
    assert_eq!(values, vec!["user".to_string()]);
}

fn client_credentials() -> AuthConfig {
    AuthConfig::OAuth2ClientCredentials {
        token_url: "https://auth.test/token".to_string(),
        client_id: "cid".to_string(),
        client_secret: "csecret".to_string(),
        scopes: vec![],
        credentials_in_body: false,
    }
}

#[test]
fn oauth2_client_credentials_fetches_and_sets_bearer() {
    let mut def = RequestDef::new("r", Method::Get, "https://example.com");
    def.auth = client_credentials();
    let scopes = VarScopes::new();
    let wanted = token_request(Some(&def.auth), &scopes).expect("token request").expect("a token is needed");
    assert_eq!(wanted.token_url, "https://auth.test/token");
    assert_eq!(wanted.client_id, "cid");
    assert_eq!(wanted.client_secret, "csecret");
    let outside = Outside {
        token: Some(Ok(Token { token_type: "Bearer".to_string(), access_token: "tok-xyz".to_string() })),
        file: None,
    };
    let resolved = resolve(&def, &scopes, &outside).expect("resolve ok");
    assert_eq!(header(&resolved, "Authorization"), Some("Bearer tok-xyz"));
}

#[test]
fn a_token_that_cannot_be_fetched_is_an_error() {
    let mut def = RequestDef::new("r", Method::Get, "https://example.com");
    def.auth = client_credentials();
    let outside = Outside { token: Some(Err("unreachable".to_string())), file: None };
    assert!(resolve(&def, &VarScopes::new(), &outside).is_err());
}

#[test]
fn oauth2_auth_code_is_rejected_headless() {
    let mut def = RequestDef::new("r", Method::Get, "https://example.com");
    def.auth = AuthConfig::OAuth2AuthCode {
        auth_url: "https://example.com/auth".to_string(),
        token_url: "https://example.com/token".to_string(),
        client_id: "cid".to_string(),
        client_secret: None,
        scopes: vec![],
        redirect_port: None,
        pkce: true,
    };
    let err = resolve(&def, &VarScopes::new(), &nothing()).expect_err("should fail");
    assert!(matches!(err, ResolveError::Auth(_)));
}

#[test]
fn explicit_authorization_header_wins_over_auth_config() {
    let mut def = RequestDef::new("r", Method::Get, "https://example.com");
    def.headers.push(KeyValue::new("Authorization", "Bearer explicit-token"));
    def.auth = AuthConfig::Basic { username: "u".to_string(), password: "p".to_string() };
    let resolved = ready(&def);
    let auth_headers: Vec<_> =
        resolved.headers.iter().filter(|(k, _)| k.eq_ignore_ascii_case("authorization")).collect();
    assert_eq!(auth_headers.len(), 1);
    assert_eq!(auth_headers[0].1, "Bearer explicit-token");
}

#[test]
fn auth_inherit_walks_chain_to_first_concrete_config() {
    let def = RequestDef::new("r", Method::Get, "https://example.com");
    let folder_auth = AuthConfig::Inherit;
    let collection_auth = AuthConfig::Bearer { token: "col-token".to_string(), prefix: None };
    let chain = vec![&folder_auth, &collection_auth];
    let resolved =
        resolve_request(&WorkspaceSettings::default(), "/ws", &def, &chain, &VarScopes::new(), &nothing())
            .expect("resolve ok");
    assert_eq!(header(&resolved, "Authorization"), Some("Bearer col-token"));
    assert!(effective_auth(&def.auth, &vec![]).is_none());
}

#[test]
fn path_param_is_percent_encoded() {
    let mut def = RequestDef::new("r", Method::Get, "https://example.com/users/:name");
    def.params.push(Param { kv: KeyValue::new("name", "john doe"), kind: ParamKind::Path });
    let resolved = ready(&def);
    assert!(resolved.url.contains("/users/john%20doe"), "{}", resolved.url);
}

#[test]
fn path_params_stand_between_slashes() {
    let params = vec![Param { kv: KeyValue::new("id", "a/b"), kind: ParamKind::Path }];
    let url = substitute_path_params("http://x/:id/:idea", &params, &VarScopes::new()).unwrap();
    assert_eq!(url, "http://x/a%2Fb/:idea");
}

#[test]
fn query_param_round_trips_special_characters() {
    let mut def = RequestDef::new("r", Method::Get, "https://example.com/search");
    def.params.push(Param { kv: KeyValue::new("q", "a b&c"), kind: ParamKind::Query });
    let url = url::Url::parse(&ready(&def).url).expect("valid url");
    assert!(url.query_pairs().any(|(k, v)| k == "q" && v == "a b&c"));
}

#[test]
fn missing_scheme_defaults_to_https() {
    let def = RequestDef::new("r", Method::Get, "example.com/ping");
    let resolved = ready(&def);
    assert!(resolved.url.starts_with("https://example.com/ping"), "{}", resolved.url);
}

#[test]
fn scheme_less_url_with_scheme_looking_query_still_gets_https_prefix() {
    let def = RequestDef::new("r", Method::Get, "api.example.com/redirect?next=https://evil.com");
    let resolved = ready(&def);
    assert!(resolved.url.starts_with("https://api.example.com/redirect"), "{}", resolved.url);
}

#[test]
fn schemes_are_told_from_hosts() {
    assert!(has_scheme("http://x"));
    assert!(!has_scheme("x/y?z=http://w"));
    assert_eq!(ensure_scheme("x"), "https://x");
    assert_eq!(ensure_scheme("ws://x"), "ws://x");
}

#[test]
fn a_url_that_is_none_is_an_error() {
    let def = RequestDef::new("r", Method::Get, "https://");
    let err = resolve(&def, &VarScopes::new(), &nothing()).expect_err("should fail");
    assert!(matches!(err, ResolveError::Exec(_)), "{err:?}");
    assert!(err.message().contains("invalid URL"), "{}", err.message());
}

#[test]
fn an_unknown_variable_is_an_error() {
    let def = RequestDef::new("r", Method::Get, "https://x/{{ nope }}");
    let err = resolve(&def, &VarScopes::new(), &nothing()).expect_err("should fail");
    assert!(matches!(err, ResolveError::Interpolate(_)));
    assert!(err.message().contains("nope"));
}

fn with_collection(name: &str, value: &str) -> VarScopes {
    let mut scopes = VarScopes::new();
    scopes.collection.insert(name.to_string(), value.to_string());
    scopes
}

#[test]
fn json_body_sets_content_type_and_interpolates() {
    let mut def = RequestDef::new("r", Method::Post, "https://example.com");
    def.body = BodyDef::Json { text: "{\"name\":\"{{name}}\"}".to_string() };
    let resolved = resolve(&def, &with_collection("name", "forge"), &nothing()).expect("resolve ok");
    match resolved.body {
        ResolvedBody::Bytes { content_type, data } => {
            assert_eq!(content_type.as_deref(), Some("application/json"));
            assert_eq!(data, br#"{"name":"forge"}"#.to_vec());
        }
        other => panic!("expected Bytes body, got {other:?}"),
    }
}

#[test]
fn raw_body_language_maps_to_content_type() {
    let mut def = RequestDef::new("r", Method::Post, "https://example.com");
    def.body = BodyDef::Raw { text: "<a/>".to_string(), language: RawLanguage::Xml };
    match ready(&def).body {
        ResolvedBody::Bytes { content_type, .. } => assert_eq!(content_type.as_deref(), Some("application/xml")),
        other => panic!("expected Bytes body, got {other:?}"),
    }
    assert_eq!(raw_content_type(RawLanguage::Text), "text/plain");
}

#[test]
fn form_body_collects_only_enabled_fields() {
    let mut disabled = KeyValue::new("b", "2");
    disabled.enabled = false;
    let mut def = RequestDef::new("r", Method::Post, "https://example.com");
    def.body = BodyDef::FormUrlencoded { fields: vec![KeyValue::new("a", "1"), disabled] };
    match ready(&def).body {
        ResolvedBody::Form(pairs) => assert_eq!(pairs, vec![("a".to_string(), "1".to_string())]),
        other => panic!("expected Form body, got {other:?}"),
    }
}

#[test]
fn graphql_body_builds_json_envelope() {
    let mut def = RequestDef::new("r", Method::Post, "https://example.com/graphql");
    def.body = BodyDef::GraphQl {
        query: "{ hello }".to_string(),
        variables: r#"{"x":1}"#.to_string(),
        operation_name: Some("Q".to_string()),
    };
    match ready(&def).body {
        ResolvedBody::Bytes { content_type, data } => {
            assert_eq!(content_type.as_deref(), Some("application/json"));
            let value: serde_json::Value = serde_json::from_slice(&data).expect("valid json");
            assert_eq!(value["query"], "{ hello }");
            assert_eq!(value["variables"]["x"], 1);
            assert_eq!(value["operationName"], "Q");
        }
        other => panic!("expected Bytes body, got {other:?}"),
    }
}

#[test]
fn binary_body_reads_file_relative_to_workspace_root() {
    let mut def = RequestDef::new("r", Method::Post, "https://example.com");
    def.body = BodyDef::Binary { path: "payload.bin".to_string() };
    assert_eq!(resolve_body_path("/ws", "payload.bin"), "/ws/payload.bin");
    let outside = Outside { token: None, file: Some(Ok(b"hello-bytes".to_vec())) };
    match resolve(&def, &VarScopes::new(), &outside).expect("resolve ok").body {
        ResolvedBody::Bytes { content_type, data } => {
            assert_eq!(content_type.as_deref(), Some("application/octet-stream"));
            assert_eq!(data, b"hello-bytes");
        }
        other => panic!("expected Bytes body, got {other:?}"),
    }
    let outside = Outside { token: None, file: Some(Err("gone".to_string())) };
    assert!(matches!(resolve(&def, &VarScopes::new(), &outside), Err(ResolveError::Body(_))));
}

#[test]
fn multipart_body_resolves_text_and_file_parts() {
    let mut def = RequestDef::new("r", Method::Post, "https://example.com");
    def.body = BodyDef::Multipart {
        parts: vec![
            MultipartPart {
                name: "field".to_string(),
                content: PartContent::Text { value: "hello".to_string() },
                content_type: None,
                enabled: true,
            },
            MultipartPart {
                name: "file".to_string(),
                content: PartContent::File { path: "up.txt".to_string() },
                content_type: Some("text/plain".to_string()),
                enabled: true,
            },
        ],
    };
    match ready(&def).body {
        ResolvedBody::Multipart(parts) => {
            assert_eq!(parts.len(), 2);
            match &parts[0].data {
                PartData::Text(t) => assert_eq!(t, "hello"),
                other => panic!("expected text part, got {other:?}"),
            }
            match &parts[1].data {
                PartData::File(p) => assert_eq!(p, "/ws/up.txt"),
                other => panic!("expected file part, got {other:?}"),
            }
            assert_eq!(parts[1].file_name.as_deref(), Some("up.txt"));
        }
        other => panic!("expected Multipart body, got {other:?}"),
    }
}

#[test]
fn file_names_are_last_components() {
    assert_eq!(file_name_of("/a/b.txt").as_deref(), Some("b.txt"));
    assert_eq!(file_name_of("a/..").as_deref(), None);
    assert_eq!(resolve_body_path("/ws", "/abs/x"), "/abs/x");
}

#[test]
fn settings_of_the_request_win() {
    let mut def = RequestDef::new("r", Method::Get, "https://example.com");
    let settings = WorkspaceSettings::default();
    def.settings.timeout_ms = Some(5);
    def.settings.follow_redirects = Some(false);
    let resolved = resolve_request(&settings, "/ws", &def, &vec![], &VarScopes::new(), &nothing()).expect("ok");
    assert_eq!(resolved.timeout_ms, 5);
    assert!(!resolved.follow_redirects);
    assert!(resolved.verify_tls);
}

#[test]
fn inner_scopes_win() {
    let mut scopes = with_collection("v", "collection");
    assert_eq!(interpolate("{{v}}", &scopes).unwrap(), "collection");
    let mut folder = TextMap::new();
    folder.insert("v".to_string(), "folder".to_string());
    scopes.folders.push(folder);
    assert_eq!(interpolate("{{v}}", &scopes).unwrap(), "folder");
    scopes.runtime.insert("v".to_string(), "runtime".to_string());
    assert_eq!(interpolate("<{{ v }}>", &scopes).unwrap(), "<runtime>");
    assert_eq!(interpolate("plain", &scopes).unwrap(), "plain");
    assert_eq!(interpolate("{{open", &scopes).unwrap(), "{{open");
}

#[test]
fn secrets_come_from_their_own_table() {
    let mut env = Environment::new("dev");
    env.variables.insert("plain".to_string(), EnvVar::plain("p".to_string()));
    env.variables.insert("key".to_string(), EnvVar::secret());
    let mut secrets = TextMap::new();
    secrets.insert("key".to_string(), "s3cret".to_string());
    let scopes = VarScopes::new().with_environment(&env, &secrets);
    assert_eq!(interpolate("{{plain}}-{{key}}", &scopes).unwrap(), "p-s3cret");
}

#[test]
fn assertions_are_filled_in_before_they_are_checked() {
    let mut def = RequestDef::new("r", Method::Get, "https://x");
    forge::gui::request_editor::add_check(
        &mut def.assertions,
        Check::Header { name: "X".to_string(), op: TextOp::Eq, value: "{{name}}".to_string() },
    );
    forge::gui::request_editor::add_check(&mut def.assertions, Check::StatusCode { op: NumberOp::Eq, value: 200 });
    let filled = resolve_assertions(&def.assertions, &with_collection("name", "forge"));
    match &filled[0].check {
        Check::Header { value, .. } => assert_eq!(value, "forge"),
        other => panic!("{other:?}"),
    }
    let v = forge::json::parse(r#"{"{{name}}":["{{name}}","{{unknown}}"]}"#).unwrap();
    let out = interp_json(&v, &with_collection("name", "forge"));
    assert_eq!(forge::json::print(&out), r#"{"{{name}}":["forge","{{unknown}}"]}"#);
}
