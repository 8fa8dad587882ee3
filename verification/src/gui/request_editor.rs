//! The editor of a request: what its fields show, and what their changes mean.

use vstd::prelude::*;

use crate::json::{Json, JsonV};
use crate::map::TextMap;
use crate::model::auth::{ApiKeyPlacement, AuthConfig, AuthV};
use crate::model::body::{plain_row, BodyDef, BodyDefV, ContentV, KeyValue, MultipartPart, MultipartV, PartContent, RawLanguage};
use crate::model::request::{
    AssertionDef, AssertionDefV, Check, CheckV, ExtractScope, Extractor, ExtractorSource, ExtractorSourceV, ExtractorV, NumberOp,
    Param, ParamKind, ParamV, RequestSettings, TextOp,
};
use crate::runner::plan::{file_plan, plan_request};
use crate::store::{named_environment, LoadedV, Workspace};
use crate::text::{chars_of, find_from, first_at, lemma_first_at, same, text_between};
use crate::vars::{environment_layer, LayerV, VarScopes};
use crate::view::{group_views, opt_view, ref_view, views, Copied};

verus! {

broadcast use vstd::string::group_string_axioms;

// ---------------------------------------------------------------------
// Parameters
// ---------------------------------------------------------------------

/// A row with neither a key nor a value.
pub open spec fn is_blank(p: ParamV) -> bool {
    p.kv.key.len() == 0 && p.kv.value.len() == 0
}

/// A blank query parameter.
pub open spec fn blank_param() -> ParamV {
    ParamV { kv: plain_row(seq![], seq![]), kind: ParamKind::Query }
}

/// The table as it is shown: a blank row stands at its end.
pub open spec fn with_blank_row(params: Seq<ParamV>) -> Seq<ParamV> {
    if params.len() > 0 && is_blank(params.last()) {
        params
    } else {
        params.push(blank_param())
    }
}

fn blank(p: &Param) -> (r: bool)
    ensures
        r == is_blank(p@),
{
    p.kv.key.as_str().unicode_len() == 0 && p.kv.value.as_str().unicode_len() == 0
}

/// See to it that a blank row stands at the end of the table.
pub fn add_blank_row(params: &mut Vec<Param>)
    ensures
        views(final(params)@) == with_blank_row(views(old(params)@)),
{
    broadcast use group_views;

    let ghost all = views(params@);
    let n: usize = params.len();
    if n > 0 {
        assert(all.last() == params@[n - 1]@);
        if blank(&params[n - 1]) {
            return;
        }
    }
    let kv = KeyValue::new("", "");
    proof {
        reveal_strlit("");
        assert(""@ =~= seq![]);
    }
    params.push(Param { kv, kind: ParamKind::Query });
}

/// Whether a row has a button that removes it: every row but the blank one at
/// the end.
pub fn removable(params: &Vec<Param>, i: usize) -> (r: bool)
    requires
        i < params@.len(),
    ensures
        r == !(i == params@.len() - 1 && is_blank(params@[i as int]@)),
{
    !(i == params.len() - 1 && blank(&params[i]))
}

/// A row was removed. Returns whether that changed the request.
pub fn remove_param(params: &mut Vec<Param>, remove: Option<usize>) -> (r: bool)
    requires
        remove matches Some(i) ==> i < old(params)@.len(),
    ensures
        r == remove is Some,
        views(final(params)@) == match remove {
            Some(i) => views(old(params)@).remove(i as int),
            None => views(old(params)@),
        },
{
    let ghost all = views(params@);
    match remove {
        Some(i) => {
            let _ = params.remove(i);
            assert(views(params@) =~= all.remove(i as int));
            true
        },
        None => false,
    }
}

// ---------------------------------------------------------------------
// Auth
// ---------------------------------------------------------------------

/// A way to authenticate that the editor offers.
#[derive(Debug, Clone, Copy, PartialEq, Eq, Structural)]
pub enum AuthKind {
    NoAuth,
    Inherit,
    Basic,
    Bearer,
    ApiKey,
    OAuth2ClientCredentials,
    OAuth2AuthCode,
}

/// The kind of an auth. Those that only an import brings have none.
pub open spec fn auth_kind(auth: AuthV) -> Option<AuthKind> {
    match auth {
        AuthV::NoAuth => Some(AuthKind::NoAuth),
        AuthV::Inherit => Some(AuthKind::Inherit),
        AuthV::Basic { .. } => Some(AuthKind::Basic),
        AuthV::Bearer { .. } => Some(AuthKind::Bearer),
        AuthV::ApiKey { .. } => Some(AuthKind::ApiKey),
        AuthV::OAuth2ClientCredentials { .. } => Some(AuthKind::OAuth2ClientCredentials),
        AuthV::OAuth2AuthCode { .. } => Some(AuthKind::OAuth2AuthCode),
        _ => None,
    }
}

/// An auth of a kind with nothing filled in.
pub open spec fn first_auth(kind: AuthKind) -> AuthV {
    match kind {
        AuthKind::NoAuth => AuthV::NoAuth,
        AuthKind::Inherit => AuthV::Inherit,
        AuthKind::Basic => AuthV::Basic { username: seq![], password: seq![] },
        AuthKind::Bearer => AuthV::Bearer { token: seq![], prefix: None },
        AuthKind::ApiKey => AuthV::ApiKey { key: seq![], value: seq![], placement: ApiKeyPlacement::Header },
        AuthKind::OAuth2ClientCredentials => AuthV::OAuth2ClientCredentials {
            token_url: seq![],
            client_id: seq![],
            client_secret: seq![],
            scopes: seq![],
            credentials_in_body: false,
        },
        AuthKind::OAuth2AuthCode => AuthV::OAuth2AuthCode {
            auth_url: seq![],
            token_url: seq![],
            client_id: seq![],
            client_secret: None,
            scopes: seq![],
            redirect_port: None,
            pkce: true,
        },
    }
}

impl AuthKind {
    /// The kinds in the order in which they are offered.
    pub fn all() -> (r: Vec<AuthKind>)
        ensures
            r@ == seq![
                AuthKind::Inherit,
                AuthKind::NoAuth,
                AuthKind::Basic,
                AuthKind::Bearer,
                AuthKind::ApiKey,
                AuthKind::OAuth2ClientCredentials,
                AuthKind::OAuth2AuthCode,
            ],
    {
        vec![
            AuthKind::Inherit,
            AuthKind::NoAuth,
            AuthKind::Basic,
            AuthKind::Bearer,
            AuthKind::ApiKey,
            AuthKind::OAuth2ClientCredentials,
            AuthKind::OAuth2AuthCode,
        ]
    }

    /// The name of the kind.
    pub fn label(&self) -> (r: &'static str)
        ensures
            r@ == match self {
                AuthKind::NoAuth => "None"@,
                AuthKind::Inherit => "Inherit"@,
                AuthKind::Basic => "Basic"@,
                AuthKind::Bearer => "Bearer Token"@,
                AuthKind::ApiKey => "API Key"@,
                AuthKind::OAuth2ClientCredentials => "OAuth 2.0 (Client Credentials)"@,
                AuthKind::OAuth2AuthCode => "OAuth 2.0 (Authorization Code)"@,
            },
    {
        match self {
            AuthKind::NoAuth => "None",
            AuthKind::Inherit => "Inherit",
            AuthKind::Basic => "Basic",
            AuthKind::Bearer => "Bearer Token",
            AuthKind::ApiKey => "API Key",
            AuthKind::OAuth2ClientCredentials => "OAuth 2.0 (Client Credentials)",
            AuthKind::OAuth2AuthCode => "OAuth 2.0 (Authorization Code)",
        }
    }

    /// The kind of an auth.
    pub fn of(auth: &AuthConfig) -> (r: Option<AuthKind>)
        ensures
            r == auth_kind(auth@),
    {
        match auth {
            AuthConfig::NoAuth => Some(AuthKind::NoAuth),
            AuthConfig::Inherit => Some(AuthKind::Inherit),
            AuthConfig::Basic { .. } => Some(AuthKind::Basic),
            AuthConfig::Bearer { .. } => Some(AuthKind::Bearer),
            AuthConfig::ApiKey { .. } => Some(AuthKind::ApiKey),
            AuthConfig::OAuth2ClientCredentials { .. } => Some(AuthKind::OAuth2ClientCredentials),
            AuthConfig::OAuth2AuthCode { .. } => Some(AuthKind::OAuth2AuthCode),
            _ => None,
        }
    }

    /// An auth of the kind with nothing filled in.
    pub fn default_config(&self) -> (r: AuthConfig)
        ensures
            r@ == first_auth(*self),
    {
        broadcast use group_views;

        let r = match self {
            AuthKind::NoAuth => AuthConfig::NoAuth,
            AuthKind::Inherit => AuthConfig::Inherit,
            AuthKind::Basic => AuthConfig::Basic { username: String::new(), password: String::new() },
            AuthKind::Bearer => AuthConfig::Bearer { token: String::new(), prefix: None },
            AuthKind::ApiKey => AuthConfig::ApiKey {
                key: String::new(),
                value: String::new(),
                placement: ApiKeyPlacement::Header,
            },
            AuthKind::OAuth2ClientCredentials => AuthConfig::OAuth2ClientCredentials {
                token_url: String::new(),
                client_id: String::new(),
                client_secret: String::new(),
                scopes: Vec::new(),
                credentials_in_body: false,
            },
            AuthKind::OAuth2AuthCode => AuthConfig::OAuth2AuthCode {
                auth_url: String::new(),
                token_url: String::new(),
                client_id: String::new(),
                client_secret: None,
                scopes: Vec::new(),
                redirect_port: None,
                pkce: true,
            },
        };
        r
    }
}

/// A kind was chosen: an auth of another kind starts afresh. Returns whether
/// that changed the request.
pub fn choose_auth(auth: &mut AuthConfig, kind: AuthKind) -> (r: bool)
    ensures
        r == (auth_kind(old(auth)@) != Some(kind)),
        final(auth)@ == if r {
            first_auth(kind)
        } else {
            old(auth)@
        },
{
    let same_kind = match AuthKind::of(auth) {
        Some(now) => now == kind,
        None => false,
    };
    if same_kind {
        return false;
    }
    *auth = kind.default_config();
    true
}

/// The prefix of a bearer token as it is shown.
pub open spec fn prefix_shown(prefix: Option<Seq<char>>) -> Seq<char> {
    match prefix {
        Some(p) => p,
        None => "Bearer"@,
    }
}

/// The prefix that a text in the field sets: none where it is empty or the
/// usual one.
pub open spec fn prefix_set(text: Seq<char>) -> Option<Seq<char>> {
    if text.len() == 0 || text == "Bearer"@ {
        None
    } else {
        Some(text)
    }
}

/// The prefix of a bearer token as it is shown.
pub fn shown_prefix(prefix: &Option<String>) -> (r: String)
    ensures
        r@ == prefix_shown(opt_view(*prefix)),
{
    match prefix {
        Some(p) => p.clone(),
        None => "Bearer".to_owned(),
    }
}

/// The prefix that a text in the field sets.
pub fn set_prefix(text: String) -> (r: Option<String>)
    ensures
        opt_view(r) == prefix_set(text@),
{
    if text.as_str().unicode_len() == 0 || same(text.as_str(), "Bearer") {
        None
    } else {
        Some(text)
    }
}

/// What a field sets that may stay empty: a client secret, the name of an
/// operation, the type of a part, a script.
pub open spec fn text_set(text: Seq<char>) -> Option<Seq<char>> {
    if text.len() == 0 {
        None
    } else {
        Some(text)
    }
}

/// What a field sets that may stay empty.
pub fn set_text(text: String) -> (r: Option<String>)
    ensures
        opt_view(r) == text_set(text@),
{
    if text.as_str().unicode_len() == 0 {
        None
    } else {
        Some(text)
    }
}

/// What a field shows that may stay empty.
pub fn shown_text(value: &Option<String>) -> (r: String)
    ensures
        r@ == match *value {
            Some(s) => s@,
            None => seq![],
        },
{
    match value {
        Some(s) => s.clone(),
        None => {
            let r = String::new();
            assert(r@ =~= seq![]);
            r
        },
    }
}

// ---------------------------------------------------------------------
// Bodies
// ---------------------------------------------------------------------

/// A kind of body.
#[derive(Debug, Clone, Copy, PartialEq, Eq, Structural)]
pub enum BodyKind {
    Empty,
    Json,
    Xml,
    Raw,
    Form,
    Multipart,
    GraphQl,
    Binary,
}

/// The kind of a body.
pub open spec fn body_kind(body: BodyDefV) -> BodyKind {
    match body {
        BodyDefV::Empty => BodyKind::Empty,
        BodyDefV::Json { .. } => BodyKind::Json,
        BodyDefV::Xml { .. } => BodyKind::Xml,
        BodyDefV::Raw { .. } => BodyKind::Raw,
        BodyDefV::FormUrlencoded { .. } => BodyKind::Form,
        BodyDefV::Multipart { .. } => BodyKind::Multipart,
        BodyDefV::GraphQl { .. } => BodyKind::GraphQl,
        BodyDefV::Binary { .. } => BodyKind::Binary,
    }
}

/// A body of a kind with nothing filled in.
pub open spec fn first_body(kind: BodyKind) -> BodyDefV {
    match kind {
        BodyKind::Empty => BodyDefV::Empty,
        BodyKind::Json => BodyDefV::Json { text: seq![] },
        BodyKind::Xml => BodyDefV::Xml { text: seq![] },
        BodyKind::Raw => BodyDefV::Raw { text: seq![], language: RawLanguage::Text },
        BodyKind::Form => BodyDefV::FormUrlencoded { fields: seq![] },
        BodyKind::Multipart => BodyDefV::Multipart { parts: seq![] },
        BodyKind::GraphQl => BodyDefV::GraphQl { query: seq![], variables: seq![], operation_name: None },
        BodyKind::Binary => BodyDefV::Binary { path: seq![] },
    }
}

impl BodyKind {
    /// The kinds in the order in which they are offered.
    pub fn all() -> (r: Vec<BodyKind>)
        ensures
            r@ == seq![
                BodyKind::Empty,
                BodyKind::Json,
                BodyKind::Xml,
                BodyKind::Raw,
                BodyKind::Form,
                BodyKind::Multipart,
                BodyKind::GraphQl,
                BodyKind::Binary,
            ],
    {
        vec![
            BodyKind::Empty,
            BodyKind::Json,
            BodyKind::Xml,
            BodyKind::Raw,
            BodyKind::Form,
            BodyKind::Multipart,
            BodyKind::GraphQl,
            BodyKind::Binary,
        ]
    }

    /// The name of the kind.
    pub fn label(&self) -> (r: &'static str)
        ensures
            r@ == match self {
                BodyKind::Empty => "None"@,
                BodyKind::Json => "JSON"@,
                BodyKind::Xml => "XML"@,
                BodyKind::Raw => "Raw"@,
                BodyKind::Form => "Form URL-encoded"@,
                BodyKind::Multipart => "Multipart"@,
                BodyKind::GraphQl => "GraphQL"@,
                BodyKind::Binary => "Binary"@,
            },
    {
        match self {
            BodyKind::Empty => "None",
            BodyKind::Json => "JSON",
            BodyKind::Xml => "XML",
            BodyKind::Raw => "Raw",
            BodyKind::Form => "Form URL-encoded",
            BodyKind::Multipart => "Multipart",
            BodyKind::GraphQl => "GraphQL",
            BodyKind::Binary => "Binary",
        }
    }

    /// The kind of a body.
    pub fn of(body: &BodyDef) -> (r: BodyKind)
        ensures
            r == body_kind(body@),
    {
        match body {
            BodyDef::Empty => BodyKind::Empty,
            BodyDef::Json { .. } => BodyKind::Json,
            BodyDef::Xml { .. } => BodyKind::Xml,
            BodyDef::Raw { .. } => BodyKind::Raw,
            BodyDef::FormUrlencoded { .. } => BodyKind::Form,
            BodyDef::Multipart { .. } => BodyKind::Multipart,
            BodyDef::GraphQl { .. } => BodyKind::GraphQl,
            BodyDef::Binary { .. } => BodyKind::Binary,
        }
    }

    /// A body of the kind with nothing filled in.
    pub fn default_body(&self) -> (r: BodyDef)
        ensures
            r@ == first_body(*self),
    {
        broadcast use group_views;

        let r = match self {
            BodyKind::Empty => BodyDef::Empty,
            BodyKind::Json => BodyDef::Json { text: String::new() },
            BodyKind::Xml => BodyDef::Xml { text: String::new() },
            BodyKind::Raw => BodyDef::Raw { text: String::new(), language: RawLanguage::Text },
            BodyKind::Form => BodyDef::FormUrlencoded { fields: Vec::new() },
            BodyKind::Multipart => BodyDef::Multipart { parts: Vec::new() },
            BodyKind::GraphQl => BodyDef::GraphQl {
                query: String::new(),
                variables: String::new(),
                operation_name: None,
            },
            BodyKind::Binary => BodyDef::Binary { path: String::new() },
        };
        r
    }
}

/// A kind was chosen: a body of another kind starts afresh. Returns whether
/// that changed the request.
pub fn choose_body(body: &mut BodyDef, kind: BodyKind) -> (r: bool)
    ensures
        r == (body_kind(old(body)@) != kind),
        final(body)@ == if r {
            first_body(kind)
        } else {
            old(body)@
        },
{
    if BodyKind::of(body) == kind {
        return false;
    }
    *body = kind.default_body();
    true
}

/// A part with nothing filled in: an enabled text.
pub fn new_part() -> (r: MultipartPart)
    ensures
        r@ == (MultipartV {
            name: seq![],
            content: ContentV::Text { value: seq![] },
            content_type: None,
            enabled: true,
        }),
{
    let r = MultipartPart {
        name: String::new(),
        content: PartContent::Text { value: String::new() },
        content_type: None,
        enabled: true,
    };
    r
}

/// A part was made a file or a text: content of the other sort starts afresh.
/// Returns whether that changed the request.
pub fn choose_content(part: &mut MultipartPart, file: bool) -> (r: bool)
    ensures
        r == ((old(part)@.content is File) != file),
        final(part)@ == if r {
            MultipartV {
                content: if file {
                    ContentV::File { path: seq![] }
                } else {
                    ContentV::Text { value: seq![] }
                },
                ..old(part)@
            }
        } else {
            old(part)@
        },
{
    let is_file = match &part.content {
        PartContent::File { .. } => true,
        PartContent::Text { .. } => false,
    };
    if is_file == file {
        return false;
    }
    part.content = if file {
        PartContent::File { path: String::new() }
    } else {
        PartContent::Text { value: String::new() }
    };
    true
}

// ---------------------------------------------------------------------
// Assertions
// ---------------------------------------------------------------------

/// The assertions that can be added, each with its name in the menu.
pub open spec fn offered_checks() -> Seq<(Seq<char>, CheckV)> {
    seq![
        ("Status code"@, CheckV::StatusCode { op: NumberOp::Eq, value: 200 }),
        ("Status class (2xx)"@, CheckV::StatusClass { class: 2 }),
        ("Header"@, CheckV::Header { name: seq![], op: TextOp::Exists, value: seq![] }),
        ("Content-Type"@, CheckV::ContentType { value: "application/json"@ }),
        ("JSON path"@, CheckV::JsonPath { path: "$."@, op: TextOp::Exists, value: JsonV::Null }),
        ("Body contains"@, CheckV::BodyContains { value: seq![] }),
        ("Body matches regex"@, CheckV::BodyMatches { regex: seq![] }),
        ("Response time below"@, CheckV::ResponseTimeBelow { max_ms: 1000 }),
        ("JSON schema"@, CheckV::JsonSchema { schema: JsonV::Object(seq![]) }),
    ]
}

/// An assertion that can be added.
#[derive(Debug)]
pub struct OfferedCheck {
    pub label: &'static str,
    pub check: Check,
}

impl View for OfferedCheck {
    type V = (Seq<char>, CheckV);

    open spec fn view(&self) -> (Seq<char>, CheckV) {
        (self.label@, self.check@)
    }
}

fn offer(label: &'static str, check: Check) -> (r: OfferedCheck)
    ensures
        r@ == (label@, check@),
{
    OfferedCheck { label, check }
}

/// The assertions that can be added.
pub fn default_checks() -> (r: Vec<OfferedCheck>)
    ensures
        views(r@) == offered_checks(),
{
    broadcast use {group_views, crate::json::lemma_json_view};

    let r = vec![
        offer("Status code", Check::StatusCode { op: NumberOp::Eq, value: 200 }),
        offer("Status class (2xx)", Check::StatusClass { class: 2 }),
        offer("Header", Check::Header { name: String::new(), op: TextOp::Exists, value: String::new() }),
        offer("Content-Type", Check::ContentType { value: "application/json".to_owned() }),
        offer("JSON path", Check::JsonPath { path: "$.".to_owned(), op: TextOp::Exists, value: Json::Null }),
        offer("Body contains", Check::BodyContains { value: String::new() }),
        offer("Body matches regex", Check::BodyMatches { regex: String::new() }),
        offer("Response time below", Check::ResponseTimeBelow { max_ms: 1000 }),
        offer("JSON schema", Check::JsonSchema { schema: Json::Object(Vec::new()) }),
    ];
    proof {
        assert(r@[8]@.1->JsonSchema_schema->Object_0 =~= seq![]);
    }
    assert(views(r@) =~= offered_checks());
    r
}

/// Add an assertion. It is enabled.
pub fn add_check(assertions: &mut Vec<AssertionDef>, check: Check)
    ensures
        views(final(assertions)@) == views(old(assertions)@).push(
            AssertionDefV { check: check@, enabled: true, note: None },
        ),
{
    broadcast use group_views;

    assertions.push(AssertionDef { check, enabled: true, note: None });
}

// ---------------------------------------------------------------------
// Extractors
// ---------------------------------------------------------------------

/// Where an extractor takes its value from.
#[derive(Debug, Clone, Copy, PartialEq, Eq, Structural)]
pub enum SourceKind {
    JsonPath,
    Header,
    Regex,
}

/// The kind of a source.
pub open spec fn source_kind(source: ExtractorSourceV) -> SourceKind {
    match source {
        ExtractorSourceV::JsonPath { .. } => SourceKind::JsonPath,
        ExtractorSourceV::Header { .. } => SourceKind::Header,
        ExtractorSourceV::Regex { .. } => SourceKind::Regex,
    }
}

/// A source of a kind as it is offered.
pub open spec fn first_source(kind: SourceKind) -> ExtractorSourceV {
    match kind {
        SourceKind::JsonPath => ExtractorSourceV::JsonPath { expr: "$."@ },
        SourceKind::Header => ExtractorSourceV::Header { name: seq![] },
        SourceKind::Regex => ExtractorSourceV::Regex { pattern: seq![], group: 0 },
    }
}

impl SourceKind {
    /// The kinds in the order in which they are offered.
    pub fn all() -> (r: Vec<SourceKind>)
        ensures
            r@ == seq![SourceKind::JsonPath, SourceKind::Header, SourceKind::Regex],
    {
        vec![SourceKind::JsonPath, SourceKind::Header, SourceKind::Regex]
    }

    /// The name of the kind.
    pub fn label(&self) -> (r: &'static str)
        ensures
            r@ == match self {
                SourceKind::JsonPath => "JSON Path"@,
                SourceKind::Header => "Header"@,
                SourceKind::Regex => "Regex"@,
            },
    {
        match self {
            SourceKind::JsonPath => "JSON Path",
            SourceKind::Header => "Header",
            SourceKind::Regex => "Regex",
        }
    }

    /// The kind of a source.
    pub fn of(source: &ExtractorSource) -> (r: SourceKind)
        ensures
            r == source_kind(source@),
    {
        match source {
            ExtractorSource::JsonPath { .. } => SourceKind::JsonPath,
            ExtractorSource::Header { .. } => SourceKind::Header,
            ExtractorSource::Regex { .. } => SourceKind::Regex,
        }
    }

    /// A source of the kind as it is offered.
    pub fn default_source(&self) -> (r: ExtractorSource)
        ensures
            r@ == first_source(*self),
    {
        match self {
            SourceKind::JsonPath => ExtractorSource::JsonPath { expr: "$.".to_owned() },
            SourceKind::Header => ExtractorSource::Header { name: String::new() },
            SourceKind::Regex => ExtractorSource::Regex { pattern: String::new(), group: 0 },
        }
    }
}

/// A kind was chosen: a source of another kind starts afresh. Returns whether
/// that changed the request.
pub fn choose_source(source: &mut ExtractorSource, kind: SourceKind) -> (r: bool)
    ensures
        r == (source_kind(old(source)@) != kind),
        final(source)@ == if r {
            first_source(kind)
        } else {
            old(source)@
        },
{
    if SourceKind::of(source) == kind {
        return false;
    }
    *source = kind.default_source();
    true
}

/// An extractor as it is added: a JSON path into a runtime variable without a
/// name.
pub fn new_extractor() -> (r: Extractor)
    ensures
        r@ == (ExtractorV {
            source: first_source(SourceKind::JsonPath),
            var: seq![],
            scope: ExtractScope::Runtime,
            enabled: true,
        }),
{
    Extractor {
        source: ExtractorSource::JsonPath { expr: "$.".to_owned() },
        var: String::new(),
        scope: ExtractScope::Runtime,
        enabled: true,
    }
}

// ---------------------------------------------------------------------
// Settings
// ---------------------------------------------------------------------

/// The check box before a setting was clicked: a setting that the request
/// decides starts with a default.
pub fn checkbox_override<T: Copy>(enabled: bool, default: T) -> (r: Option<T>)
    ensures
        r == if enabled {
            Some(default)
        } else {
            None
        },
{
    if enabled {
        Some(default)
    } else {
        None
    }
}

/// A setting that a request can decide for itself.
#[derive(Debug, Clone, Copy, PartialEq, Eq, Structural)]
pub enum Setting {
    Timeout,
    FollowRedirects,
    MaxRedirects,
    VerifyTls,
}

/// Let the request decide a setting, or leave it to the workspace.
pub fn override_setting(settings: &mut RequestSettings, setting: Setting, enabled: bool)
    ensures
        *final(settings) == match setting {
            Setting::Timeout => RequestSettings {
                timeout_ms: if enabled {
                    Some(30_000)
                } else {
                    None
                },
                ..*old(settings)
            },
            Setting::FollowRedirects => RequestSettings {
                follow_redirects: if enabled {
                    Some(true)
                } else {
                    None
                },
                ..*old(settings)
            },
            Setting::MaxRedirects => RequestSettings {
                max_redirects: if enabled {
                    Some(10)
                } else {
                    None
                },
                ..*old(settings)
            },
            Setting::VerifyTls => RequestSettings {
                verify_tls: if enabled {
                    Some(true)
                } else {
                    None
                },
                ..*old(settings)
            },
        },
{
    match setting {
        Setting::Timeout => {
            settings.timeout_ms = checkbox_override(enabled, 30_000);
        },
        Setting::FollowRedirects => {
            settings.follow_redirects = checkbox_override(enabled, true);
        },
        Setting::MaxRedirects => {
            settings.max_redirects = checkbox_override(enabled, 10);
        },
        Setting::VerifyTls => {
            settings.verify_tls = checkbox_override(enabled, true);
        },
    }
}

// ---------------------------------------------------------------------
// Variables
// ---------------------------------------------------------------------

/// The values of the environment called `name`.
pub open spec fn env_values(environments: Seq<LoadedV>, name: Option<Seq<char>>) -> LayerV {
    match name {
        None => seq![],
        Some(name) => match named_environment(environments, name, 0) {
            Some(e) => environment_layer(e.env.variables, e.secrets),
            None => seq![],
        },
    }
}

/// The scopes that an editor shows variables by: the environment, and the
/// collection and folders that the request is in.
pub fn build_scopes(workspace: &Workspace, rel_id: &str, active_env: Option<&str>) -> (r: VarScopes)
    ensures
        r.environment@ == env_values(views(workspace.environments@), ref_view(active_env)),
        match file_plan(views(workspace.collections@), rel_id@, 0) {
            Some(p) => r.collection@ == p.collection_vars && views(r.folders@) == p.folder_vars,
            None => r.collection@.len() == 0 && r.folders@.len() == 0,
        },
        r.runtime@.len() == 0,
        r.iteration@.len() == 0,
        r.dynamic@.len() == 0,
{
    let mut scopes = VarScopes::new();
    assert(scopes.environment@ =~= seq![]);
    if let Some(name) = active_env {
        if let Some(loaded) = workspace.environment(name) {
            scopes = scopes.with_environment(&loaded.env, &loaded.secrets);
        }
    }
    match plan_request(&workspace.collections, rel_id) {
        Some(p) => {
            scopes.collection = p.collection_vars.copied();
            let mut folders: Vec<TextMap<String>> = Vec::new();
            let mut i: usize = 0;
            while i < p.folder_vars.len()
                invariant
                    i <= p.folder_vars.len(),
                    folders.len() == i,
                    forall|k: int| 0 <= k < i ==> (#[trigger] folders@[k])@ == p.folder_vars@[k]@,
                decreases p.folder_vars.len() - i,
            {
                folders.push(p.folder_vars[i].copied());
                i += 1;
            }
            assert(views(folders@) =~= views(p.folder_vars@));
            scopes.folders = folders;
        },
        None => {},
    }
    scopes
}

/// A piece of an address: plain text, or a variable with its braces.
#[derive(Debug)]
pub struct Piece {
    pub text: String,
    pub variable: bool,
}

impl View for Piece {
    type V = (Seq<char>, bool);

    open spec fn view(&self) -> (Seq<char>, bool) {
        (self.text@, self.variable)
    }
}

/// A plain piece, where it is not empty.
pub open spec fn plain_piece(s: Seq<char>) -> Seq<(Seq<char>, bool)> {
    if s.len() == 0 {
        seq![]
    } else {
        seq![(s, false)]
    }
}

/// The pieces of an address from `from` on.
pub open spec fn pieces_from(s: Seq<char>, from: int) -> Seq<(Seq<char>, bool)>
    decreases s.len() - from,
{
    if from < 0 || from > s.len() {
        seq![]
    } else {
        match first_at(s, "{{"@, from) {
            None => plain_piece(s.skip(from)),
            Some(open) => match first_at(s, "}}"@, open + 2) {
                None => plain_piece(s.skip(from)),
                Some(close) => if !(from <= open && open + 2 <= close && close + 2 <= s.len()) {
                    seq![]
                } else {
                    plain_piece(s.subrange(from, open)) + seq![(s.subrange(open, close + 2), true)] + pieces_from(
                        s,
                        close + 2,
                    )
                },
            },
        }
    }
}

fn put_plain(out: &mut Vec<Piece>, text: String)
    ensures
        views(final(out)@) == views(old(out)@) + plain_piece(text@),
{
    broadcast use group_views;

    let ghost before = views(out@);
    let ghost view = text@;
    if text.as_str().unicode_len() > 0 {
        out.push(Piece { text, variable: false });
        assert(before.push((view, false)) =~= before + seq![(view, false)]);
    } else {
        assert(before + Seq::<(Seq<char>, bool)>::empty() =~= before);
    }
}

/// The pieces of an address, its variables set apart.
pub fn url_pieces(text: &str) -> (r: Vec<Piece>)
    ensures
        views(r@) == pieces_from(text@, 0),
{
    broadcast use group_views;

    proof {
        reveal_strlit("{{");
        reveal_strlit("}}");
    }
    let chars = chars_of(text);
    let opening = chars_of("{{");
    let closing = chars_of("}}");
    let n: usize = chars.len();
    let ghost s = text@;
    let mut out: Vec<Piece> = Vec::new();
    let mut from: usize = 0;
    assert(views(out@) + pieces_from(s, 0) =~= pieces_from(s, 0));
    loop
        invariant
            from <= chars@.len(),
            n == chars@.len(),
            chars@ == s,
            s == text@,
            opening@ == "{{"@,
            closing@ == "}}"@,
            "{{"@.len() == 2,
            "}}"@.len() == 2,
            views(out@) + pieces_from(s, from as int) == pieces_from(s, 0),
        decreases chars@.len() - from,
    {
        let ghost before = views(out@);
        proof {
            lemma_first_at(s, "{{"@, from as int);
            assert(s.subrange(from as int, s.len() as int) =~= s.skip(from as int));
        }
        let open = find_from(&chars, &opening, from);
        let close = match open {
            Some(open) => {
                proof {
                    lemma_first_at(s, "}}"@, open + 2);
                }
                find_from(&chars, &closing, open + 2)
            },
            None => None,
        };
        match (open, close) {
            (Some(open), Some(close)) => {
                put_plain(&mut out, text_between(&chars, from, open));
                let piece = Piece { text: text_between(&chars, open, close + 2), variable: true };
                let ghost view = piece@;
                let ghost plain = plain_piece(s.subrange(from as int, open as int));
                out.push(piece);
                assert((before + plain).push(view) + pieces_from(s, close + 2) =~= before + (plain + seq![view]
                    + pieces_from(s, close + 2)));
                from = close + 2;
            },
            _ => {
                put_plain(&mut out, text_between(&chars, from, n));
                return out;
            },
        }
    }
}

// ---------------------------------------------------------------------
// Laws
// ---------------------------------------------------------------------

/// What an editor offers for a kind is of that kind.
pub proof fn lemma_defaults_have_their_kind(auth: AuthKind, body: BodyKind, source: SourceKind)
    ensures
        auth_kind(first_auth(auth)) == Some(auth),
        body_kind(first_body(body)) == body,
        source_kind(first_source(source)) == source,
{
}

/// The prefix that a field sets is the one it shows, but that an empty field
/// brings the usual one back.
pub proof fn lemma_prefix_shows_what_was_set(text: Seq<char>)
    ensures
        prefix_shown(prefix_set(text)) == if text.len() == 0 {
            "Bearer"@
        } else {
            text
        },
{
}

/// A table always ends in one blank row, and showing it again adds none.
pub proof fn lemma_blank_row_once(params: Seq<ParamV>)
    ensures
        with_blank_row(params).len() > 0,
        is_blank(with_blank_row(params).last()),
        params.is_prefix_of(with_blank_row(params)),
        with_blank_row(with_blank_row(params)) == with_blank_row(params),
{
}

/// The texts of pieces, one after the other.
pub open spec fn whole(pieces: Seq<(Seq<char>, bool)>) -> Seq<char>
    decreases pieces.len(),
{
    if pieces.len() == 0 {
        seq![]
    } else {
        pieces[0].0 + whole(pieces.skip(1))
    }
}

proof fn lemma_whole_joins(a: Seq<(Seq<char>, bool)>, b: Seq<(Seq<char>, bool)>)
    ensures
        whole(a + b) == whole(a) + whole(b),
    decreases a.len(),
{
    if a.len() == 0 {
        assert(a + b =~= b);
        assert(whole(a) + whole(b) =~= whole(b));
    } else {
        assert((a + b).skip(1) =~= a.skip(1) + b);
        lemma_whole_joins(a.skip(1), b);
        assert(a[0].0 + (whole(a.skip(1)) + whole(b)) =~= a[0].0 + whole(a.skip(1)) + whole(b));
    }
}

proof fn lemma_whole_one(piece: (Seq<char>, bool))
    ensures
        whole(seq![piece]) == piece.0,
{
    assert(seq![piece].skip(1) =~= seq![]);
    assert(whole(seq![piece].skip(1)) =~= seq![]);
    assert(piece.0 + Seq::<char>::empty() =~= piece.0);
}

proof fn lemma_whole_plain(s: Seq<char>)
    ensures
        whole(plain_piece(s)) == s,
{
    if s.len() == 0 {
        assert(whole(plain_piece(s)) =~= s);
    } else {
        lemma_whole_one((s, false));
    }
}

/// Setting the variables apart loses nothing of an address.
pub proof fn lemma_pieces_make_the_address(s: Seq<char>, from: int)
    requires
        0 <= from <= s.len(),
    ensures
        whole(pieces_from(s, from)) == s.skip(from),
    decreases s.len() - from,
{
    reveal_strlit("{{");
    reveal_strlit("}}");
    lemma_first_at(s, "{{"@, from);
    lemma_whole_plain(s.skip(from));
    if let Some(open) = first_at(s, "{{"@, from) {
        lemma_first_at(s, "}}"@, open + 2);
        if let Some(close) = first_at(s, "}}"@, open + 2) {
            let plain = plain_piece(s.subrange(from, open));
            let var = seq![(s.subrange(open, close + 2), true)];
            let rest = pieces_from(s, close + 2);
            lemma_pieces_make_the_address(s, close + 2);
            lemma_whole_joins(plain + var, rest);
            lemma_whole_joins(plain, var);
            lemma_whole_plain(s.subrange(from, open));
            lemma_whole_one((s.subrange(open, close + 2), true));
            assert(s.subrange(from, open) + s.subrange(open, close + 2) + s.skip(close + 2) =~= s.skip(from));
        }
    }
}

} // verus!
