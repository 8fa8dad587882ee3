//! Requests as they are stored.

use vstd::prelude::*;

use crate::json::{Json, JsonV};
use crate::model::auth::{AuthConfig, AuthV};
use crate::model::body::{BodyDef, BodyDefV, KeyValue, RowV};
use crate::model::Method;
use crate::view::{copy_list, copy_opt, group_views, opt_view, views, Copied};

verus! {

broadcast use vstd::string::group_string_axioms;

/// Where a parameter goes.
#[derive(Debug, Clone, Copy, PartialEq, Eq, Structural)]
pub enum ParamKind {
    Query,
    Path,
}

/// A query or path parameter.
#[derive(Debug)]
pub struct Param {
    pub kv: KeyValue,
    pub kind: ParamKind,
}

/// What [`Param`] holds.
pub struct ParamV {
    pub kv: RowV,
    pub kind: ParamKind,
}

impl View for Param {
    type V = ParamV;

    open spec fn view(&self) -> ParamV {
        ParamV {
            kv: self.kv@,
            kind: self.kind,
        }
    }
}

impl Copied for Param {
    fn copied(&self) -> (r: Self) {
        Param {
            kv: self.kv.copied(),
            kind: self.kind,
        }
    }
}

/// A comparison of numbers.
#[derive(Debug, Clone, Copy, PartialEq, Eq, Structural)]
pub enum NumberOp {
    Eq,
    Ne,
    Lt,
    Le,
    Gt,
    Ge,
}

/// A comparison of texts.
#[derive(Debug, Clone, Copy, PartialEq, Eq, Structural)]
pub enum TextOp {
    Eq,
    Ne,
    Contains,
    Matches,
    Exists,
}

/// What an assertion asks of a response.
#[derive(Debug)]
#[allow(inconsistent_fields)]
pub enum Check {
    StatusCode { op: NumberOp, value: u16 },
    StatusClass { class: u8 },
    Header { name: String, op: TextOp, value: String },
    ContentType { value: String },
    JsonPath { path: String, op: TextOp, value: Json },
    BodyContains { value: String },
    BodyMatches { regex: String },
    ResponseTimeBelow { max_ms: u64 },
    JsonSchema { schema: Json },
}

/// What [`Check`] holds.
#[allow(inconsistent_fields)]
pub enum CheckV {
    StatusCode { op: NumberOp, value: u16 },
    StatusClass { class: u8 },
    Header { name: Seq<char>, op: TextOp, value: Seq<char> },
    ContentType { value: Seq<char> },
    JsonPath { path: Seq<char>, op: TextOp, value: JsonV },
    BodyContains { value: Seq<char> },
    BodyMatches { regex: Seq<char> },
    ResponseTimeBelow { max_ms: u64 },
    JsonSchema { schema: JsonV },
}

impl View for Check {
    type V = CheckV;

    open spec fn view(&self) -> CheckV {
        match self {
            Check::StatusCode { op, value } => CheckV::StatusCode {
                op: *op,
                value: *value,
            },
            Check::StatusClass { class } => CheckV::StatusClass {
                class: *class,
            },
            Check::Header { name, op, value } => CheckV::Header {
                name: name@,
                op: *op,
                value: value@,
            },
            Check::ContentType { value } => CheckV::ContentType {
                value: value@,
            },
            Check::JsonPath { path, op, value } => CheckV::JsonPath {
                path: path@,
                op: *op,
                value: value@,
            },
            Check::BodyContains { value } => CheckV::BodyContains {
                value: value@,
            },
            Check::BodyMatches { regex } => CheckV::BodyMatches {
                regex: regex@,
            },
            Check::ResponseTimeBelow { max_ms } => CheckV::ResponseTimeBelow {
                max_ms: *max_ms,
            },
            Check::JsonSchema { schema } => CheckV::JsonSchema {
                schema: schema@,
            },
        }
    }
}

impl Copied for Check {
    fn copied(&self) -> (r: Self) {
        match self {
            Check::StatusCode { op, value } => Check::StatusCode {
                op: *op,
                value: *value,
            },
            Check::StatusClass { class } => Check::StatusClass {
                class: *class,
            },
            Check::Header { name, op, value } => Check::Header {
                name: name.clone(),
                op: *op,
                value: value.clone(),
            },
            Check::ContentType { value } => Check::ContentType {
                value: value.clone(),
            },
            Check::JsonPath { path, op, value } => Check::JsonPath {
                path: path.clone(),
                op: *op,
                value: value.copy(),
            },
            Check::BodyContains { value } => Check::BodyContains {
                value: value.clone(),
            },
            Check::BodyMatches { regex } => Check::BodyMatches {
                regex: regex.clone(),
            },
            Check::ResponseTimeBelow { max_ms } => Check::ResponseTimeBelow {
                max_ms: *max_ms,
            },
            Check::JsonSchema { schema } => Check::JsonSchema {
                schema: schema.copy(),
            },
        }
    }
}

/// An assertion as it is written.
#[derive(Debug)]
pub struct AssertionDef {
    pub check: Check,
    pub enabled: bool,
    pub note: Option<String>,
}

/// What [`AssertionDef`] holds.
pub struct AssertionDefV {
    pub check: CheckV,
    pub enabled: bool,
    pub note: Option<Seq<char>>,
}

impl View for AssertionDef {
    type V = AssertionDefV;

    open spec fn view(&self) -> AssertionDefV {
        AssertionDefV {
            check: self.check@,
            enabled: self.enabled,
            note: opt_view(self.note),
        }
    }
}

impl Copied for AssertionDef {
    fn copied(&self) -> (r: Self) {
        AssertionDef {
            check: self.check.copied(),
            enabled: self.enabled,
            note: copy_opt(&self.note),
        }
    }
}

/// Where an extracted value is kept.
#[derive(Debug, Clone, Copy, PartialEq, Eq, Structural)]
pub enum ExtractScope {
    Runtime,
    Environment,
}

/// Where a value is taken from.
#[derive(Debug)]
pub enum ExtractorSource {
    JsonPath { expr: String },
    Header { name: String },
    Regex { pattern: String, group: usize },
}

/// What [`ExtractorSource`] holds.
pub enum ExtractorSourceV {
    JsonPath { expr: Seq<char> },
    Header { name: Seq<char> },
    Regex { pattern: Seq<char>, group: usize },
}

impl View for ExtractorSource {
    type V = ExtractorSourceV;

    open spec fn view(&self) -> ExtractorSourceV {
        match self {
            ExtractorSource::JsonPath { expr } => ExtractorSourceV::JsonPath {
                expr: expr@,
            },
            ExtractorSource::Header { name } => ExtractorSourceV::Header {
                name: name@,
            },
            ExtractorSource::Regex { pattern, group } => ExtractorSourceV::Regex {
                pattern: pattern@,
                group: *group,
            },
        }
    }
}

impl Copied for ExtractorSource {
    fn copied(&self) -> (r: Self) {
        match self {
            ExtractorSource::JsonPath { expr } => ExtractorSource::JsonPath {
                expr: expr.clone(),
            },
            ExtractorSource::Header { name } => ExtractorSource::Header {
                name: name.clone(),
            },
            ExtractorSource::Regex { pattern, group } => ExtractorSource::Regex {
                pattern: pattern.clone(),
                group: *group,
            },
        }
    }
}

/// A value taken from a response into a variable.
#[derive(Debug)]
pub struct Extractor {
    pub source: ExtractorSource,
    pub var: String,
    pub scope: ExtractScope,
    pub enabled: bool,
}

/// What [`Extractor`] holds.
pub struct ExtractorV {
    pub source: ExtractorSourceV,
    pub var: Seq<char>,
    pub scope: ExtractScope,
    pub enabled: bool,
}

impl View for Extractor {
    type V = ExtractorV;

    open spec fn view(&self) -> ExtractorV {
        ExtractorV {
            source: self.source@,
            var: self.var@,
            scope: self.scope,
            enabled: self.enabled,
        }
    }
}

impl Copied for Extractor {
    fn copied(&self) -> (r: Self) {
        Extractor {
            source: self.source.copied(),
            var: self.var.clone(),
            scope: self.scope,
            enabled: self.enabled,
        }
    }
}

/// The language of scripts.
#[derive(Debug, Clone, Copy, PartialEq, Eq, Structural)]
pub enum ScriptLang {
    Rhai,
    Js,
}

/// The scripts of a request.
#[derive(Debug)]
pub struct Scripts {
    pub pre_request: Option<String>,
    pub post_response: Option<String>,
    pub language: ScriptLang,
}

/// What [`Scripts`] holds.
pub struct ScriptsV {
    pub pre_request: Option<Seq<char>>,
    pub post_response: Option<Seq<char>>,
    pub language: ScriptLang,
}

impl View for Scripts {
    type V = ScriptsV;

    open spec fn view(&self) -> ScriptsV {
        ScriptsV {
            pre_request: opt_view(self.pre_request),
            post_response: opt_view(self.post_response),
            language: self.language,
        }
    }
}

impl Copied for Scripts {
    fn copied(&self) -> (r: Self) {
        Scripts {
            pre_request: copy_opt(&self.pre_request),
            post_response: copy_opt(&self.post_response),
            language: self.language,
        }
    }
}

/// No scripts.
pub open spec fn no_scripts() -> ScriptsV {
    ScriptsV { pre_request: None, post_response: None, language: ScriptLang::Rhai }
}

impl Scripts {
    /// Whether there is no script.
    pub fn is_empty(&self) -> (r: bool)
        ensures
            r == (self@.pre_request is None && self@.post_response is None),
    {
        self.pre_request.is_none() && self.post_response.is_none()
    }
}

/// The scripts around the requests of a collection or folder.
#[derive(Debug)]
pub struct SuiteHooks {
    pub before_all: Option<String>,
    pub before_each: Option<String>,
    pub after_each: Option<String>,
    pub after_all: Option<String>,
    pub language: ScriptLang,
}

/// What [`SuiteHooks`] holds.
pub struct HooksDefV {
    pub before_all: Option<Seq<char>>,
    pub before_each: Option<Seq<char>>,
    pub after_each: Option<Seq<char>>,
    pub after_all: Option<Seq<char>>,
    pub language: ScriptLang,
}

impl View for SuiteHooks {
    type V = HooksDefV;

    open spec fn view(&self) -> HooksDefV {
        HooksDefV {
            before_all: opt_view(self.before_all),
            before_each: opt_view(self.before_each),
            after_each: opt_view(self.after_each),
            after_all: opt_view(self.after_all),
            language: self.language,
        }
    }
}

impl Copied for SuiteHooks {
    fn copied(&self) -> (r: Self) {
        SuiteHooks {
            before_all: copy_opt(&self.before_all),
            before_each: copy_opt(&self.before_each),
            after_each: copy_opt(&self.after_each),
            after_all: copy_opt(&self.after_all),
            language: self.language,
        }
    }
}

/// No hooks.
pub open spec fn no_hooks() -> HooksDefV {
    HooksDefV { before_all: None, before_each: None, after_each: None, after_all: None, language: ScriptLang::Rhai }
}

impl SuiteHooks {
    /// Whether there is no hook.
    pub fn is_empty(&self) -> (r: bool)
        ensures
            r == (self@.before_all is None && self@.before_each is None && self@.after_each is None
                && self@.after_all is None),
    {
        self.before_all.is_none() && self.before_each.is_none() && self.after_each.is_none()
            && self.after_all.is_none()
    }
}

/// What a request decides for itself.
#[derive(Debug, Clone, Copy, PartialEq, Eq, Structural)]
pub struct RequestSettings {
    pub timeout_ms: Option<u64>,
    pub follow_redirects: Option<bool>,
    pub max_redirects: Option<u32>,
    pub verify_tls: Option<bool>,
    pub skip_in_runs: bool,
}

/// A request that decides nothing for itself.
pub open spec fn no_settings() -> RequestSettings {
    RequestSettings {
        timeout_ms: None,
        follow_redirects: None,
        max_redirects: None,
        verify_tls: None,
        skip_in_runs: false,
    }
}

/// A request as it is stored.
#[derive(Debug)]
pub struct RequestDef {
    pub name: String,
    pub description: String,
    pub method: Method,
    pub url: String,
    pub params: Vec<Param>,
    pub headers: Vec<KeyValue>,
    pub auth: AuthConfig,
    pub body: BodyDef,
    pub assertions: Vec<AssertionDef>,
    pub extractors: Vec<Extractor>,
    pub scripts: Scripts,
    pub settings: RequestSettings,
}

/// What [`RequestDef`] holds.
pub struct RequestDefV {
    pub name: Seq<char>,
    pub description: Seq<char>,
    pub method: Method,
    pub url: Seq<char>,
    pub params: Seq<ParamV>,
    pub headers: Seq<RowV>,
    pub auth: AuthV,
    pub body: BodyDefV,
    pub assertions: Seq<AssertionDefV>,
    pub extractors: Seq<ExtractorV>,
    pub scripts: ScriptsV,
    pub settings: RequestSettings,
}

impl View for RequestDef {
    type V = RequestDefV;

    open spec fn view(&self) -> RequestDefV {
        RequestDefV {
            name: self.name@,
            description: self.description@,
            method: self.method,
            url: self.url@,
            params: views(self.params@),
            headers: views(self.headers@),
            auth: self.auth@,
            body: self.body@,
            assertions: views(self.assertions@),
            extractors: views(self.extractors@),
            scripts: self.scripts@,
            settings: self.settings,
        }
    }
}

impl Copied for RequestDef {
    fn copied(&self) -> (r: Self) {
        RequestDef {
            name: self.name.clone(),
            description: self.description.clone(),
            method: self.method,
            url: self.url.clone(),
            params: copy_list(&self.params),
            headers: copy_list(&self.headers),
            auth: self.auth.copied(),
            body: self.body.copied(),
            assertions: copy_list(&self.assertions),
            extractors: copy_list(&self.extractors),
            scripts: self.scripts.copied(),
            settings: self.settings,
        }
    }
}

/// A request with nothing but a name, a method and a URL.
pub open spec fn bare_request(name: Seq<char>, method: Method, url: Seq<char>) -> RequestDefV {
    RequestDefV {
        name,
        description: seq![],
        method,
        url,
        params: seq![],
        headers: seq![],
        auth: AuthV::Inherit,
        body: BodyDefV::Empty,
        assertions: seq![],
        extractors: seq![],
        scripts: no_scripts(),
        settings: no_settings(),
    }
}

impl RequestDef {
    /// A request with nothing but a name, a method and a URL.
    pub fn new(name: &str, method: Method, url: &str) -> (r: RequestDef)
        ensures
            r@ == bare_request(name@, method, url@),
    {
        broadcast use group_views;

        let r = RequestDef {
            name: name.to_owned(),
            description: String::new(),
            method,
            url: url.to_owned(),
            params: Vec::new(),
            headers: Vec::new(),
            auth: AuthConfig::Inherit,
            body: BodyDef::Empty,
            assertions: Vec::new(),
            extractors: Vec::new(),
            scripts: Scripts { pre_request: None, post_response: None, language: ScriptLang::Rhai },
            settings: RequestSettings {
                timeout_ms: None,
                follow_redirects: None,
                max_redirects: None,
                verify_tls: None,
                skip_in_runs: false,
            },
        };
        assert(r@.description =~= seq![]);
        r
    }
}

} // verus!
