//! What the HTTP client is asked to do.

use vstd::prelude::*;

use crate::model::Method;
use crate::view::{opt_view, views};

verus! {

/// The content of one part of a multipart body.
#[derive(Debug)]
pub enum PartData {
    Text(String),
    /// The path of a file.
    File(String),
}

/// What a [`PartData`] holds.
pub enum PartDataV {
    Text(Seq<char>),
    File(Seq<char>),
}

impl View for PartData {
    type V = PartDataV;

    open spec fn view(&self) -> PartDataV {
        match self {
            PartData::Text(s) => PartDataV::Text(s@),
            PartData::File(s) => PartDataV::File(s@),
        }
    }
}

/// One part of a multipart body.
#[derive(Debug)]
pub struct ResolvedPart {
    pub name: String,
    pub content_type: Option<String>,
    pub file_name: Option<String>,
    pub data: PartData,
}

/// What a [`ResolvedPart`] says.
pub struct PartV {
    pub name: Seq<char>,
    pub content_type: Option<Seq<char>>,
    pub file_name: Option<Seq<char>>,
    pub data: PartDataV,
}

impl View for ResolvedPart {
    type V = PartV;

    open spec fn view(&self) -> PartV {
        PartV {
            name: self.name@,
            content_type: opt_view(self.content_type),
            file_name: opt_view(self.file_name),
            data: self.data@,
        }
    }
}

/// A body ready to be sent.
#[derive(Debug)]
pub enum ResolvedBody {
    Empty,
    Bytes { content_type: Option<String>, data: Vec<u8> },
    Form(Vec<(String, String)>),
    Multipart(Vec<ResolvedPart>),
}

/// What a [`ResolvedBody`] holds.
pub enum ExecBodyV {
    Empty,
    Bytes { content_type: Option<Seq<char>>, data: Seq<u8> },
    Form(Seq<(Seq<char>, Seq<char>)>),
    Multipart(Seq<PartV>),
}

/// Names and values of a list of pairs.
pub open spec fn text_pairs(pairs: Seq<(String, String)>) -> Seq<(Seq<char>, Seq<char>)> {
    Seq::new(pairs.len(), |i: int| (pairs[i].0@, pairs[i].1@))
}

impl View for ResolvedBody {
    type V = ExecBodyV;

    open spec fn view(&self) -> ExecBodyV {
        match self {
            ResolvedBody::Empty => ExecBodyV::Empty,
            ResolvedBody::Bytes { content_type, data } => ExecBodyV::Bytes {
                content_type: opt_view(*content_type),
                data: data@,
            },
            ResolvedBody::Form(pairs) => ExecBodyV::Form(text_pairs(pairs@)),
            ResolvedBody::Multipart(parts) => ExecBodyV::Multipart(views(parts@)),
        }
    }
}

/// A request ready to be sent.
#[derive(Debug)]
pub struct ResolvedRequest {
    pub method: Method,
    pub url: String,
    pub headers: Vec<(String, String)>,
    pub body: ResolvedBody,
    pub timeout_ms: u64,
    pub follow_redirects: bool,
    pub max_redirects: u32,
    pub verify_tls: bool,
    pub proxy: Option<String>,
}

/// What a [`ResolvedRequest`] says.
pub struct ExecRequestV {
    pub method: Method,
    pub url: Seq<char>,
    pub headers: Seq<(Seq<char>, Seq<char>)>,
    pub body: ExecBodyV,
    pub timeout_ms: u64,
    pub follow_redirects: bool,
    pub max_redirects: u32,
    pub verify_tls: bool,
    pub proxy: Option<Seq<char>>,
}

impl View for ResolvedRequest {
    type V = ExecRequestV;

    open spec fn view(&self) -> ExecRequestV {
        ExecRequestV {
            method: self.method,
            url: self.url@,
            headers: text_pairs(self.headers@),
            body: self.body@,
            timeout_ms: self.timeout_ms,
            follow_redirects: self.follow_redirects,
            max_redirects: self.max_redirects,
            verify_tls: self.verify_tls,
            proxy: opt_view(self.proxy),
        }
    }
}

/// A request without headers and body, under the default settings.
pub open spec fn plain_request(method: Method, url: Seq<char>) -> ExecRequestV {
    ExecRequestV {
        method,
        url,
        headers: seq![],
        body: ExecBodyV::Empty,
        timeout_ms: 30_000,
        follow_redirects: true,
        max_redirects: 10,
        verify_tls: true,
        proxy: None,
    }
}

impl ResolvedRequest {
    /// A request without headers and body, under the default settings.
    pub fn new(method: Method, url: String) -> (r: ResolvedRequest)
        ensures
            r@ == plain_request(method, url@),
    {
        let r = ResolvedRequest {
            method,
            url,
            headers: Vec::new(),
            body: ResolvedBody::Empty,
            timeout_ms: 30_000,
            follow_redirects: true,
            max_redirects: 10,
            verify_tls: true,
            proxy: None,
        };
        assert(r@.headers =~= seq![]);
        r
    }
}

/// Push a pair.
pub fn push_pair(pairs: &mut Vec<(String, String)>, key: String, value: String)
    ensures
        text_pairs(final(pairs)@) == text_pairs(old(pairs)@).push((key@, value@)),
{
    let ghost before = pairs@;
    let ghost pair = (key@, value@);
    pairs.push((key, value));
    assert(text_pairs(pairs@) =~= text_pairs(before).push(pair));
}

/// Pairs without a pair.
pub fn no_pairs() -> (r: Vec<(String, String)>)
    ensures
        text_pairs(r@) == Seq::<(Seq<char>, Seq<char>)>::empty(),
{
    let r: Vec<(String, String)> = Vec::new();
    assert(text_pairs(r@) =~= Seq::empty());
    r
}

} // verus!
