//! The request as it is sent, and mock responses.

use vstd::prelude::*;
use vstd::utf8::encode_utf8;

use crate::exec::{plain_request, text_pairs, ExecBodyV, ExecRequestV};
use crate::json::{member, nat_in, print, printed, Json, JsonV};
use crate::map::TextMap;
use crate::reqv1::diag::{Diagnostic, DiagnosticV};
use crate::reqv1::ir::{BodyV, MockV, RequestV, ResolvedBody, ResolvedHeader, ResolvedMock, ResolvedRequest};
use crate::reqv1::jshost::{answer_view, may_answer, run_loaded, script_at, AnswerV, Script, ScriptV};
use crate::reqv1::meaning::{before_context, before_ctx, mock_meaning, read_mock, response_result};
use crate::reqv1::pipeline::{ResponseV, ResponseView};
use crate::text::{cat3, contains, eq_ignore_case, occurs, same_ignoring_case};
use crate::view::{opt_or, opt_view, views};
use crate::words::{bytes_of, join, joined, percent_bytes, percent_encode};

verus! {

broadcast use vstd::string::group_string_axioms;

// ---------------------------------------------------------------------
// Sending
// ---------------------------------------------------------------------

/// A text as it is written in a query.
pub open spec fn query_text(s: Seq<char>) -> Seq<char> {
    percent_bytes(encode_utf8(s))
}

/// Percent-encode a query name or value: letters, digits and `-_.~` stand for
/// themselves.
pub fn urlencoding_encode(s: &str) -> (r: String)
    ensures
        r@ == query_text(s@),
{
    percent_encode(s)
}

/// `url` with query parameters appended in order: the first follows `?` unless
/// the URL has one already, all others follow `&`.
pub open spec fn with_query(url: Seq<char>, query: Seq<(Seq<char>, Seq<char>)>) -> Seq<char>
    decreases query.len(),
{
    if query.len() == 0 {
        url
    } else {
        let before = with_query(url, query.drop_last());
        let (name, value) = query.last();
        before + if occurs(before, "?"@) {
            "&"@
        } else {
            "?"@
        } + query_text(name) + "="@ + query_text(value)
    }
}

/// A header called `name` is among `headers`.
pub open spec fn has_header(headers: Seq<(Seq<char>, Seq<char>)>, name: Seq<char>) -> bool {
    exists|i: int| 0 <= i < headers.len() && same_ignoring_case((#[trigger] headers[i]).0, name)
}

/// The content type that comes with a body: none where a header names one.
pub open spec fn default_type(headers: Seq<(Seq<char>, Seq<char>)>, content_type: Seq<char>) -> Option<Seq<char>> {
    if has_header(headers, "content-type"@) {
        None
    } else {
        Some(content_type)
    }
}

/// The body as it is sent.
pub open spec fn sent_body(body: BodyV, headers: Seq<(Seq<char>, Seq<char>)>) -> ExecBodyV {
    match body {
        BodyV::Empty => ExecBodyV::Empty,
        BodyV::Json(v) => ExecBodyV::Bytes {
            content_type: default_type(headers, "application/json"@),
            data: encode_utf8(printed(v)),
        },
        BodyV::Text(s) => ExecBodyV::Bytes {
            content_type: default_type(headers, "text/plain"@),
            data: encode_utf8(s),
        },
        BodyV::Form(fields) => ExecBodyV::Form(fields),
    }
}

/// The request as it is sent.
pub open spec fn sent_request(request: RequestV) -> ExecRequestV {
    ExecRequestV {
        url: with_query(request.url, request.query),
        headers: request.headers,
        body: sent_body(request.body, request.headers),
        ..plain_request(request.method, request.url)
    }
}

/// Whether a header called `name` is among `headers`.
pub fn names_header(headers: &Vec<(String, String)>, name: &str) -> (r: bool)
    ensures
        r == has_header(text_pairs(headers@), name@),
{
    let ghost all = text_pairs(headers@);
    let mut i: usize = 0;
    while i < headers.len()
        invariant
            i <= headers.len(),
            all == text_pairs(headers@),
            forall|k: int| 0 <= k < i ==> !same_ignoring_case((#[trigger] all[k]).0, name@),
        decreases headers.len() - i,
    {
        if eq_ignore_case(headers[i].0.as_str(), name) {
            assert(same_ignoring_case(all[i as int].0, name@));
            return true;
        }
        i += 1;
    }
    false
}

fn type_unless_named(headers: &Vec<(String, String)>, content_type: &str) -> (r: Option<String>)
    ensures
        opt_view(r) == default_type(text_pairs(headers@), content_type@),
{
    if names_header(headers, "content-type") {
        None
    } else {
        Some(content_type.to_owned())
    }
}

/// Names and values of a list of headers.
pub fn header_pairs(headers: &Vec<ResolvedHeader>) -> (r: Vec<(String, String)>)
    ensures
        text_pairs(r@) == views(headers@),
{
    let mut out: Vec<(String, String)> = Vec::new();
    let mut i: usize = 0;
    while i < headers.len()
        invariant
            i <= headers.len(),
            out.len() == i,
            forall|k: int|
                0 <= k < i ==> (#[trigger] out@[k]).0@ == headers@[k].name@ && out@[k].1@ == headers@[k].value@,
        decreases headers.len() - i,
    {
        out.push((headers[i].name.clone(), headers[i].value.clone()));
        i += 1;
    }
    assert(text_pairs(out@) =~= views(headers@));
    out
}

/// The body as it is sent, with a content type unless a header names one.
pub fn body_to_exec(body: &ResolvedBody, headers: &Vec<(String, String)>) -> (r: crate::exec::ResolvedBody)
    ensures
        r@ == sent_body(body@, text_pairs(headers@)),
{
    match body {
        ResolvedBody::Empty => crate::exec::ResolvedBody::Empty,
        ResolvedBody::Json(v) => crate::exec::ResolvedBody::Bytes {
            content_type: type_unless_named(headers, "application/json"),
            data: bytes_of(print(v).as_str()),
        },
        ResolvedBody::Text(s) => crate::exec::ResolvedBody::Bytes {
            content_type: type_unless_named(headers, "text/plain"),
            data: bytes_of(s.as_str()),
        },
        ResolvedBody::Form(fields) => crate::exec::ResolvedBody::Form(header_pairs(fields)),
    }
}

/// Append query parameters to a URL.
pub fn append_query(url: &str, query: &Vec<ResolvedHeader>) -> (r: String)
    ensures
        r@ == with_query(url@, views(query@)),
{
    let ghost all = views(query@);
    let mut out = url.to_owned();
    let mut i: usize = 0;
    assert(all.take(0) =~= Seq::empty());
    while i < query.len()
        invariant
            i <= query.len(),
            all == views(query@),
            out@ == with_query(url@, all.take(i as int)),
        decreases query.len() - i,
    {
        assert(all.take(i + 1).drop_last() =~= all.take(i as int));
        assert(all.take(i + 1).last() == query@[i as int]@);
        let sep = if contains(out.as_str(), "?") {
            "&"
        } else {
            "?"
        };
        out.append(sep);
        out.append(urlencoding_encode(query[i].name.as_str()).as_str());
        out.append("=");
        out.append(urlencoding_encode(query[i].value.as_str()).as_str());
        i += 1;
    }
    assert(all.take(i as int) =~= all);
    out
}

/// The request as it is sent.
pub fn exec_request(ir: &ResolvedRequest) -> (r: crate::exec::ResolvedRequest)
    ensures
        r@ == sent_request(ir@),
{
    let mut request = crate::exec::ResolvedRequest::new(ir.method, append_query(ir.url.as_str(), &ir.query));
    request.headers = header_pairs(&ir.headers);
    request.body = body_to_exec(&ir.body, &request.headers);
    request
}

// ---------------------------------------------------------------------
// Mocks
// ---------------------------------------------------------------------

/// The fields of a form as `name=value`.
pub open spec fn form_fields(fields: Seq<(Seq<char>, Seq<char>)>) -> Seq<Seq<char>> {
    Seq::new(fields.len(), |i: int| fields[i].0 + "="@ + fields[i].1)
}

/// The bytes of a mock body.
pub open spec fn mock_body(body: BodyV) -> Seq<u8> {
    match body {
        BodyV::Empty => seq![],
        BodyV::Json(v) => encode_utf8(printed(v)),
        BodyV::Text(s) => encode_utf8(s),
        BodyV::Form(fields) => encode_utf8(joined(form_fields(fields), "&"@)),
    }
}

/// The bytes of a mock body.
pub fn mock_bytes(body: &ResolvedBody) -> (r: Vec<u8>)
    ensures
        r@ == mock_body(body@),
{
    match body {
        ResolvedBody::Empty => Vec::new(),
        ResolvedBody::Json(v) => bytes_of(print(v).as_str()),
        ResolvedBody::Text(s) => bytes_of(s.as_str()),
        ResolvedBody::Form(fields) => {
            let mut parts: Vec<String> = Vec::new();
            let mut i: usize = 0;
            while i < fields.len()
                invariant
                    i <= fields.len(),
                    parts.len() == i,
                    forall|k: int|
                        0 <= k < i ==> (#[trigger] parts@[k])@ == fields@[k].name@ + "="@ + fields@[k].value@,
                decreases fields.len() - i,
            {
                parts.push(cat3(fields[i].name.as_str(), "=", fields[i].value.as_str()));
                i += 1;
            }
            assert(views(parts@) =~= form_fields(views(fields@)));
            bytes_of(join(&parts, "&").as_str())
        },
    }
}

/// What an answer of a mock asset means.
pub open spec fn mock_answer(answer: AnswerV, raw: Seq<char>) -> Result<ResponseV, DiagnosticV> {
    match answer {
        Ok((out, _)) => mock_meaning(out, raw),
        Err(d) => Err(d.with_ref(raw)),
    }
}

/// The responses that a mock may give: one where it is written down, else
/// whatever its script answers.
pub open spec fn may_mock(
    mock: MockV,
    request: RequestV,
    scripts: Seq<(Seq<char>, ScriptV)>,
    outcome: Result<ResponseV, DiagnosticV>,
) -> bool {
    match mock {
        MockV::Static { status, headers, body, .. } => outcome == Ok::<ResponseV, DiagnosticV>(
            ResponseV { status, headers, body: mock_body(body), time_ms: 0 },
        ),
        MockV::Dynamic { asset, input } => exists|answer: AnswerV|
            {
                &&& may_answer(
                    asset.address,
                    script_at(scripts, asset.address),
                    before_context(request),
                    input,
                    answer,
                )
                &&& outcome == #[trigger] mock_answer(answer, asset.raw)
            },
    }
}

/// How long a mock waits before it answers: as long as is written down, or as
/// long as its script says.
pub open spec fn mock_delay(mock: MockV, out: JsonV) -> u64 {
    match mock {
        MockV::Static { delay_ms, .. } => delay_ms,
        MockV::Dynamic { .. } => opt_or(nat_in(member(out, "delayMs"@)), 0),
    }
}

/// How long a mock waits before it answers, given what its script returned.
pub fn delay_of(mock: &ResolvedMock, out: &Json) -> (r: u64)
    ensures
        r == mock_delay(mock@, out@),
{
    match mock {
        ResolvedMock::Static { delay_ms, .. } => *delay_ms,
        ResolvedMock::Dynamic { .. } => match out.get("delayMs") {
            Some(v) => match v.as_u64() {
                Some(n) => n,
                None => 0,
            },
            None => 0,
        },
    }
}

/// What a mock may serve: a response, and how long to wait before it.
pub open spec fn may_serve(
    mock: MockV,
    request: RequestV,
    scripts: Seq<(Seq<char>, ScriptV)>,
    outcome: Result<(ResponseV, u64), DiagnosticV>,
) -> bool {
    match mock {
        MockV::Static { status, headers, body, delay_ms } => outcome == Ok::<(ResponseV, u64), DiagnosticV>(
            (ResponseV { status, headers, body: mock_body(body), time_ms: 0 }, delay_ms),
        ),
        MockV::Dynamic { asset, input } => exists|answer: AnswerV|
            {
                &&& may_answer(
                    asset.address,
                    script_at(scripts, asset.address),
                    before_context(request),
                    input,
                    answer,
                )
                &&& outcome == match #[trigger] mock_answer(answer, asset.raw) {
                    Ok(r) => Ok::<(ResponseV, u64), DiagnosticV>((r, mock_delay(mock, answer->Ok_0.0))),
                    Err(d) => Err::<(ResponseV, u64), DiagnosticV>(d),
                }
            },
    }
}

/// What is served, by its view.
pub open spec fn served_view(r: Result<(ResponseView, u64), Diagnostic>) -> Result<(ResponseV, u64), DiagnosticV> {
    match r {
        Ok((response, delay)) => Ok((response@, delay)),
        Err(d) => Err(d@),
    }
}

/// What a mock serves, without the time to wait.
pub open spec fn without_delay(outcome: Result<(ResponseV, u64), DiagnosticV>) -> Result<ResponseV, DiagnosticV> {
    match outcome {
        Ok((response, _)) => Ok(response),
        Err(d) => Err(d),
    }
}

proof fn lemma_served_is_mocked(
    mock: MockV,
    request: RequestV,
    scripts: Seq<(Seq<char>, ScriptV)>,
    outcome: Result<(ResponseV, u64), DiagnosticV>,
)
    requires
        may_serve(mock, request, scripts, outcome),
    ensures
        may_mock(mock, request, scripts, without_delay(outcome)),
{
    if let MockV::Dynamic { asset, input } = mock {
        let answer = choose|answer: AnswerV|
            {
                &&& may_answer(
                    asset.address,
                    script_at(scripts, asset.address),
                    before_context(request),
                    input,
                    answer,
                )
                &&& outcome == match #[trigger] mock_answer(answer, asset.raw) {
                    Ok(r) => Ok::<(ResponseV, u64), DiagnosticV>((r, mock_delay(mock, answer->Ok_0.0))),
                    Err(d) => Err::<(ResponseV, u64), DiagnosticV>(d),
                }
            };
        assert(without_delay(outcome) == mock_answer(answer, asset.raw));
    }
}

/// Serve a mock, and say how long to wait before the response is given.
pub fn serve_mock(mock: &ResolvedMock, ir: &ResolvedRequest, scripts: &TextMap<Script>) -> (r: Result<
    (ResponseView, u64),
    Diagnostic,
>)
    ensures
        may_serve(mock@, ir@, scripts@, served_view(r)),
{
    match mock {
        ResolvedMock::Static { status, headers, body, delay_ms } => Ok(
            (
                ResponseView { status: *status, headers: header_pairs(headers), body: mock_bytes(body), time_ms: 0 },
                *delay_ms,
            ),
        ),
        ResolvedMock::Dynamic { asset, input } => {
            let ctx = before_ctx(ir);
            let outcome = run_loaded(scripts, asset.address.as_str(), &ctx, input);
            let ghost answer = answer_view(outcome);
            let r = match outcome {
                Err(d) => Err(d.with_ref(asset.raw.as_str())),
                Ok((out, _)) => match read_mock(&out, asset.raw.as_str()) {
                    Ok(response) => Ok((response, delay_of(mock, &out))),
                    Err(d) => Err(d),
                },
            };
            assert(without_delay(served_view(r)) == mock_answer(answer, asset@.raw));
            r
        },
    }
}

/// Serve a mock.
pub fn mock_response(mock: &ResolvedMock, ir: &ResolvedRequest, scripts: &TextMap<Script>) -> (r: Result<
    ResponseView,
    Diagnostic,
>)
    ensures
        may_mock(mock@, ir@, scripts@, response_result(r)),
{
    let served = serve_mock(mock, ir, scripts);
    proof {
        lemma_served_is_mocked(mock@, ir@, scripts@, served_view(served));
    }
    match served {
        Ok((response, _)) => Ok(response),
        Err(d) => Err(d),
    }
}

/// Render the mock of a request for a mock server: the response, if there is
/// a mock and it gives one, and what went wrong.
pub fn render_mock(ir: &ResolvedRequest, scripts: &TextMap<Script>) -> (r: (Option<ResponseView>, Vec<Diagnostic>))
    ensures
        match ir@.mock {
            None => r.0 is None && r.1@.len() == 0,
            Some(mock) => if r.0 is Some {
                r.1@.len() == 0 && may_mock(
                    mock,
                    ir@,
                    scripts@,
                    Ok::<ResponseV, DiagnosticV>(r.0->Some_0@),
                )
            } else {
                r.1@.len() == 1 && may_mock(mock, ir@, scripts@, Err::<ResponseV, DiagnosticV>(r.1@[0]@))
            },
        },
{
    match &ir.mock {
        None => (None, Vec::new()),
        Some(mock) => match mock_response(mock, ir, scripts) {
            Ok(response) => (Some(response), Vec::new()),
            Err(d) => {
                let mut diagnostics: Vec<Diagnostic> = Vec::new();
                diagnostics.push(d);
                (None, diagnostics)
            },
        },
    }
}

} // verus!
