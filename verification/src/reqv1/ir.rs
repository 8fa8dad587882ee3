//! A request with everything resolved: what the pipeline and the HTTP client
//! need, and nothing left to look up.

use vstd::prelude::*;

use crate::json::{Json, JsonV};
use crate::mask::{mask_text, masked};
use crate::model::Method;
use crate::reqv1::diag::copy_text;
use crate::reqv1::model::PipelinePhase;
use crate::view::{opt_view, views};

verus! {

broadcast use vstd::string::group_string_axioms;

/// Where an asset reference points.
#[derive(Debug, Clone, Copy, PartialEq, Eq, Structural)]
pub enum RefScheme {
    Builtin,
    Data,
    Project,
    File,
}

/// A located asset.
#[derive(Debug)]
pub struct AssetDescriptor {
    /// The reference as it was written.
    pub raw: String,
    pub scheme: RefScheme,
    /// The name of a builtin, or the path of a file.
    pub address: String,
    pub pointer: Option<String>,
    pub version: Option<u32>,
}

/// What an [`AssetDescriptor`] says.
pub struct AssetV {
    pub raw: Seq<char>,
    pub scheme: RefScheme,
    pub address: Seq<char>,
    pub pointer: Option<Seq<char>>,
    pub version: Option<u32>,
}

impl View for AssetDescriptor {
    type V = AssetV;

    open spec fn view(&self) -> AssetV {
        AssetV {
            raw: self.raw@,
            scheme: self.scheme,
            address: self.address@,
            pointer: opt_view(self.pointer),
            version: self.version,
        }
    }
}

/// A name and a value: a header, a query parameter or a form field.
#[derive(Debug)]
pub struct ResolvedHeader {
    pub name: String,
    pub value: String,
}

impl View for ResolvedHeader {
    type V = (Seq<char>, Seq<char>);

    open spec fn view(&self) -> (Seq<char>, Seq<char>) {
        (self.name@, self.value@)
    }
}

/// A request or mock body.
#[derive(Debug)]
pub enum ResolvedBody {
    Empty,
    /// JSON, already interpolated.
    Json(Json),
    Text(String),
    /// `application/x-www-form-urlencoded` fields.
    Form(Vec<ResolvedHeader>),
}

/// What a [`ResolvedBody`] holds.
pub enum BodyV {
    Empty,
    Json(JsonV),
    Text(Seq<char>),
    Form(Seq<(Seq<char>, Seq<char>)>),
}

impl View for ResolvedBody {
    type V = BodyV;

    open spec fn view(&self) -> BodyV {
        match self {
            ResolvedBody::Empty => BodyV::Empty,
            ResolvedBody::Json(v) => BodyV::Json(v@),
            ResolvedBody::Text(s) => BodyV::Text(s@),
            ResolvedBody::Form(fields) => BodyV::Form(views(fields@)),
        }
    }
}

/// A pipeline asset with its resolved input.
#[derive(Debug)]
pub struct ResolvedPipelineEntry {
    pub phase: PipelinePhase,
    pub asset: AssetDescriptor,
    pub input: Json,
}

/// What a [`ResolvedPipelineEntry`] says.
pub struct EntryV {
    pub phase: PipelinePhase,
    pub asset: AssetV,
    pub input: JsonV,
}

impl View for ResolvedPipelineEntry {
    type V = EntryV;

    open spec fn view(&self) -> EntryV {
        EntryV { phase: self.phase, asset: self.asset@, input: self.input@ }
    }
}

/// A mock response: written down, or made by an asset.
#[derive(Debug)]
pub enum ResolvedMock {
    Static { status: u16, headers: Vec<ResolvedHeader>, body: ResolvedBody, delay_ms: u64 },
    Dynamic { asset: AssetDescriptor, input: Json },
}

/// What a [`ResolvedMock`] says.
pub enum MockV {
    Static { status: u16, headers: Seq<(Seq<char>, Seq<char>)>, body: BodyV, delay_ms: u64 },
    Dynamic { asset: AssetV, input: JsonV },
}

impl View for ResolvedMock {
    type V = MockV;

    open spec fn view(&self) -> MockV {
        match self {
            ResolvedMock::Static { status, headers, body, delay_ms } => MockV::Static {
                status: *status,
                headers: views(headers@),
                body: body@,
                delay_ms: *delay_ms,
            },
            ResolvedMock::Dynamic { asset, input } => MockV::Dynamic { asset: asset@, input: input@ },
        }
    }
}

/// A request after validation, reference resolution, binding resolution and
/// interpolation.
#[derive(Debug)]
pub struct ResolvedRequest {
    pub id: String,
    pub name: String,
    pub method: Method,
    pub url: String,
    pub headers: Vec<ResolvedHeader>,
    pub query: Vec<ResolvedHeader>,
    pub body: ResolvedBody,
    pub pipeline: Vec<ResolvedPipelineEntry>,
    pub mock: Option<ResolvedMock>,
    /// The resolved binding values.
    pub bindings: Json,
    /// The secret values that were interpolated; output is masked with them.
    pub secret_values: Vec<String>,
}

/// What a [`ResolvedRequest`] says.
pub struct RequestV {
    pub id: Seq<char>,
    pub name: Seq<char>,
    pub method: Method,
    pub url: Seq<char>,
    pub headers: Seq<(Seq<char>, Seq<char>)>,
    pub query: Seq<(Seq<char>, Seq<char>)>,
    pub body: BodyV,
    pub pipeline: Seq<EntryV>,
    pub mock: Option<MockV>,
    pub bindings: JsonV,
    pub secret_values: Seq<Seq<char>>,
}

impl View for ResolvedRequest {
    type V = RequestV;

    open spec fn view(&self) -> RequestV {
        RequestV {
            id: self.id@,
            name: self.name@,
            method: self.method,
            url: self.url@,
            headers: views(self.headers@),
            query: views(self.query@),
            body: self.body@,
            pipeline: views(self.pipeline@),
            mock: opt_view(self.mock),
            bindings: self.bindings@,
            secret_values: views(self.secret_values@),
        }
    }
}

impl RequestV {
    /// `s` with every secret value of the request masked.
    pub open spec fn mask(self, s: Seq<char>) -> Seq<char> {
        masked(self.secret_values, s)
    }
}

impl AssetDescriptor {
    /// A copy of the descriptor.
    pub fn copy(&self) -> (r: AssetDescriptor)
        ensures
            r@ == self@,
    {
        AssetDescriptor {
            raw: self.raw.clone(),
            scheme: self.scheme,
            address: self.address.clone(),
            pointer: copy_text(&self.pointer),
            version: self.version,
        }
    }
}

impl ResolvedHeader {
    /// A copy of the header.
    pub fn copy(&self) -> (r: ResolvedHeader)
        ensures
            r@ == self@,
    {
        ResolvedHeader { name: self.name.clone(), value: self.value.clone() }
    }
}

impl ResolvedRequest {
    /// Mask every recorded secret value in `s` with `***`.
    pub fn mask(&self, s: &str) -> (r: String)
        ensures
            r@ == self@.mask(s@),
    {
        mask_text(&self.secret_values, s)
    }
}

} // verus!
