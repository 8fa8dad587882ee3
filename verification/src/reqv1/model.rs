//! The request document as it is written, with bindings and references not
//! yet resolved.

use vstd::prelude::*;

use crate::json::{Json, JsonV};
use crate::map::TextMap;
use crate::model::Method;
use crate::text::cat3;
use crate::view::{opt_view, views};
use crate::words::{decimal, number_text};

verus! {

broadcast use vstd::string::group_string_axioms;

/// The only document format version there is.
#[derive(Debug, Clone, Copy, PartialEq, Eq, Structural)]
pub struct FormatVersion {}

impl FormatVersion {
    /// The number of the version.
    pub fn number(&self) -> (r: u32)
        ensures
            r == 1,
    {
        1
    }

    /// The version with a number; any other number than one is refused.
    pub fn from_number(n: u32) -> (r: Result<FormatVersion, String>)
        ensures
            r is Ok <==> n == 1,
            r matches Err(e) ==> e@ == "unsupported formatVersion "@ + decimal(n as nat) + " (this build supports 1)"@,
    {
        if n == 1 {
            Ok(FormatVersion {  })
        } else {
            Err(cat3("unsupported formatVersion ", number_text(n as u64).as_str(), " (this build supports 1)"))
        }
    }
}

/// What a document is.
#[derive(Debug, Clone, Copy, PartialEq, Eq, Structural)]
pub enum RequestKind {
    Request,
}

/// When a pipeline asset runs.
#[derive(Debug, Clone, Copy, PartialEq, Eq, Structural)]
pub enum PipelinePhase {
    BeforeRequest,
    AfterResponse,
    OnError,
    Finally,
}

/// What kind of body a document gives.
#[derive(Debug, Clone, Copy, PartialEq, Eq, Structural)]
pub enum BodyType {
    Json,
    Text,
    Form,
    Multipart,
    Binary,
    Empty,
}

/// Name and labels of a request.
#[derive(Debug)]
pub struct RequestMeta {
    pub id: String,
    pub name: String,
    pub description: Option<String>,
    pub tags: Vec<String>,
}

/// A header or query parameter.
#[derive(Debug)]
pub struct HeaderSpec {
    pub name: String,
    pub value: String,
    pub enabled: bool,
}

/// What a [`HeaderSpec`] says.
pub struct HeaderSpecV {
    pub name: Seq<char>,
    pub value: Seq<char>,
    pub enabled: bool,
}

impl View for HeaderSpec {
    type V = HeaderSpecV;

    open spec fn view(&self) -> HeaderSpecV {
        HeaderSpecV { name: self.name@, value: self.value@, enabled: self.enabled }
    }
}

/// What `enabled` is where a document does not say.
pub fn default_true() -> (r: bool)
    ensures
        r,
{
    true
}

/// A body written in the document.
#[derive(Debug)]
pub struct InlineBody {
    pub body_type: BodyType,
    pub value: Option<Json>,
}

/// A body taken from a data asset.
#[derive(Debug)]
pub struct RefBody {
    pub reference: String,
    pub body_type: Option<BodyType>,
}

/// A request or mock body.
#[derive(Debug)]
pub enum BodySpec {
    Inline(InlineBody),
    Ref(RefBody),
}

/// What a [`BodySpec`] says.
pub enum BodySpecV {
    Inline { body_type: BodyType, value: Option<JsonV> },
    Ref { reference: Seq<char>, given_type: Option<BodyType> },
}

impl View for BodySpec {
    type V = BodySpecV;

    open spec fn view(&self) -> BodySpecV {
        match self {
            BodySpec::Inline(b) => BodySpecV::Inline { body_type: b.body_type, value: opt_view(b.value) },
            BodySpec::Ref(b) => BodySpecV::Ref { reference: b.reference@, given_type: b.body_type },
        }
    }
}

/// A value written in the document.
#[derive(Debug)]
pub struct ValueBinding {
    pub value: Json,
}

/// A value taken from a data asset, with JSON Patch operations.
#[derive(Debug)]
pub struct RefBinding {
    pub reference: String,
    pub patch: Json,
}

/// A value that a generator makes.
#[derive(Debug)]
pub struct UseBinding {
    pub uses: String,
    pub with: Json,
}

/// A named value of a document.
#[derive(Debug)]
pub enum Binding {
    Value(ValueBinding),
    Ref(RefBinding),
    Use(UseBinding),
}

/// What a [`Binding`] says.
pub enum BindingV {
    Value(JsonV),
    Ref { reference: Seq<char>, patch: JsonV },
    Use { uses: Seq<char>, with: JsonV },
}

impl View for Binding {
    type V = BindingV;

    open spec fn view(&self) -> BindingV {
        match self {
            Binding::Value(b) => BindingV::Value(b.value@),
            Binding::Ref(b) => BindingV::Ref { reference: b.reference@, patch: b.patch@ },
            Binding::Use(b) => BindingV::Use { uses: b.uses@, with: b.with@ },
        }
    }
}

/// One asset of the pipeline.
#[derive(Debug)]
pub struct PipelineEntry {
    pub phase: PipelinePhase,
    pub uses: String,
    /// The input, an object.
    pub with: Json,
    pub enabled: bool,
}

/// What a [`PipelineEntry`] says.
pub struct PipelineEntryV {
    pub phase: PipelinePhase,
    pub uses: Seq<char>,
    pub with: JsonV,
    pub enabled: bool,
}

impl View for PipelineEntry {
    type V = PipelineEntryV;

    open spec fn view(&self) -> PipelineEntryV {
        PipelineEntryV { phase: self.phase, uses: self.uses@, with: self.with@, enabled: self.enabled }
    }
}

/// A mock that is written down.
#[derive(Debug)]
pub struct StaticMock {
    pub status: u16,
    pub headers: Vec<HeaderSpec>,
    pub body: Option<BodySpec>,
    pub delay_ms: Option<u64>,
}

/// A mock that an asset makes.
#[derive(Debug)]
pub struct DynamicMock {
    pub uses: String,
    pub with: Json,
}

/// A mock of a document.
#[derive(Debug)]
pub enum MockDef {
    Static(StaticMock),
    Dynamic(DynamicMock),
}

/// What a [`MockDef`] says.
pub enum MockDefV {
    Static { status: u16, headers: Seq<HeaderSpecV>, body: Option<BodySpecV>, delay_ms: Option<u64> },
    Dynamic { uses: Seq<char>, with: JsonV },
}

impl View for MockDef {
    type V = MockDefV;

    open spec fn view(&self) -> MockDefV {
        match self {
            MockDef::Static(m) => MockDefV::Static {
                status: m.status,
                headers: views(m.headers@),
                body: opt_view(m.body),
                delay_ms: m.delay_ms,
            },
            MockDef::Dynamic(m) => MockDefV::Dynamic { uses: m.uses@, with: m.with@ },
        }
    }
}

/// The request of a document.
#[derive(Debug)]
pub struct RequestSpec {
    pub method: Method,
    pub url: String,
    pub headers: Vec<HeaderSpec>,
    pub query: Vec<HeaderSpec>,
    pub body: Option<BodySpec>,
}

/// What a [`RequestSpec`] says.
pub struct RequestSpecV {
    pub method: Method,
    pub url: Seq<char>,
    pub headers: Seq<HeaderSpecV>,
    pub query: Seq<HeaderSpecV>,
    pub body: Option<BodySpecV>,
}

impl View for RequestSpec {
    type V = RequestSpecV;

    open spec fn view(&self) -> RequestSpecV {
        RequestSpecV {
            method: self.method,
            url: self.url@,
            headers: views(self.headers@),
            query: views(self.query@),
            body: opt_view(self.body),
        }
    }
}

/// A single API request document.
#[derive(Debug)]
pub struct RequestDocument {
    pub schema: Option<String>,
    pub format_version: FormatVersion,
    pub kind: RequestKind,
    pub meta: RequestMeta,
    pub bindings: TextMap<Binding>,
    pub matrix: TextMap<Binding>,
    pub request: RequestSpec,
    pub pipeline: Vec<PipelineEntry>,
    pub mock: Option<MockDef>,
}

/// What a [`RequestDocument`] says of the run.
pub struct DocumentV {
    pub id: Seq<char>,
    pub name: Seq<char>,
    pub bindings: Seq<(Seq<char>, BindingV)>,
    pub matrix: Seq<(Seq<char>, BindingV)>,
    pub request: RequestSpecV,
    pub pipeline: Seq<PipelineEntryV>,
    pub mock: Option<MockDefV>,
}

impl View for RequestDocument {
    type V = DocumentV;

    open spec fn view(&self) -> DocumentV {
        DocumentV {
            id: self.meta.id@,
            name: self.meta.name@,
            bindings: self.bindings@,
            matrix: self.matrix@,
            request: self.request@,
            pipeline: views(self.pipeline@),
            mock: opt_view(self.mock),
        }
    }
}

/// The auth request of a project and the requests that it serves.
#[derive(Debug)]
pub struct ProjectAuthConfig {
    /// The path of the auth request, from the project root.
    pub request: String,
    /// The path that the token is for, from the project root.
    pub apply_to: String,
    /// The JSONPath of the token in the response.
    pub token_path: String,
    pub lifetime_seconds: u64,
    pub refresh_before_seconds: u64,
}

/// The settings of a project.
#[derive(Debug)]
pub struct ProjectConfig {
    pub format_version: Option<u32>,
    pub aliases: TextMap<String>,
    /// Where secrets come from, in order; nothing means the environment.
    pub secrets: Vec<String>,
    pub auth: Option<ProjectAuthConfig>,
}

impl Default for ProjectConfig {
    fn default() -> (r: Self)
        ensures
            r.format_version is None,
            r.aliases@.len() == 0,
            r.secrets@.len() == 0,
            r.auth is None,
    {
        ProjectConfig { format_version: None, aliases: TextMap::new(), secrets: Vec::new(), auth: None }
    }
}

} // verus!
