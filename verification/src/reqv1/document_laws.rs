//! What holds of the request that a document resolves to.

use vstd::prelude::*;

use crate::json::{printed, JsonV};
use crate::map::lookup;
use crate::reqv1::builder::{
    assembled, body_step, headers_step, mock_step, pipeline_step, scopes_with, text_step, BoundV, InputsV,
};
use crate::reqv1::diag::DiagnosticV;
use crate::reqv1::ir::{AssetV, BodyV, EntryV, MockV, RequestV};
use crate::reqv1::model::{
    BodySpecV, BodyType, DocumentV, HeaderSpecV, MockDefV, PipelineEntryV,
};
use crate::reqv1::vars::{filled, ScopesV};
use crate::selection::{lemma_picks_more, lemma_picks_none, picks};

verus! {

broadcast use vstd::string::group_string_axioms;

/// A value where a text is wanted.
pub open spec fn as_text(v: JsonV) -> Seq<char> {
    match v {
        JsonV::String(s) => s,
        _ => printed(v),
    }
}

/// A text is what a written text becomes once its references are filled in.
pub open spec fn text_comes_of(written: Seq<char>, scopes: ScopesV, text: Seq<char>) -> bool {
    filled(JsonV::String(written), scopes).outcome matches Ok(v) && text == as_text(v)
}

/// Headers are the enabled ones of the written headers, in order, each under
/// its name and with its value filled in.
pub open spec fn headers_come_of(
    written: Seq<HeaderSpecV>,
    scopes: ScopesV,
    headers: Seq<(Seq<char>, Seq<char>)>,
) -> bool {
    picks(
        written,
        |h: HeaderSpecV| h.enabled,
        |h: HeaderSpecV, p: (Seq<char>, Seq<char>)| p.0 == h.name && text_comes_of(h.value, scopes, p.1),
        headers,
    )
}

proof fn lemma_headers_come(written: Seq<HeaderSpecV>, scopes: ScopesV, base: Seq<char>, n: int)
    requires
        0 <= n <= written.len(),
        headers_step(written, scopes, base, n).errors.len() == 0,
    ensures
        headers_come_of(written.take(n), scopes, headers_step(written, scopes, base, n).value),
    decreases n,
{
    let keep = |h: HeaderSpecV| h.enabled;
    let fits = |h: HeaderSpecV, p: (Seq<char>, Seq<char>)| p.0 == h.name && text_comes_of(h.value, scopes, p.1);
    let out = headers_step(written, scopes, base, n).value;
    if n == 0 {
        lemma_picks_none(written.take(n), keep, fits, out);
    } else {
        let before = headers_step(written, scopes, base, n - 1);
        let h = written[n - 1];
        assert(before.errors.len() <= headers_step(written, scopes, base, n).errors.len());
        lemma_headers_come(written, scopes, base, n - 1);
        assert(written.take(n).drop_last() =~= written.take(n - 1));
        assert(written.take(n).last() == h);
        if h.enabled {
            assert(out.drop_last() =~= before.value);
            assert(text_comes_of(h.value, scopes, out.last().1));
        }
        lemma_picks_more(written.take(n), keep, fits, before.value, out);
    }
}

/// The headers of a document that has no errors are the enabled ones, in order,
/// with their values filled in; those that are switched off are not sent.
pub proof fn lemma_headers_are_those_enabled(written: Seq<HeaderSpecV>, scopes: ScopesV, base: Seq<char>)
    ensures
        headers_step(written, scopes, base, written.len() as int).errors.len() == 0 ==> headers_come_of(
            written,
            scopes,
            headers_step(written, scopes, base, written.len() as int).value,
        ),
{
    assert(written.take(written.len() as int) =~= written);
    if headers_step(written, scopes, base, written.len() as int).errors.len() == 0 {
        lemma_headers_come(written, scopes, base, written.len() as int);
    }
}

/// A body is what the written body says. Text that is no text is empty, a form
/// has a field for each member of an object, and a data asset is sent as JSON.
pub open spec fn body_comes_of(written: Option<BodySpecV>, inputs: InputsV, scopes: ScopesV, body: BodyV) -> bool {
    match written {
        None => body is Empty,
        Some(BodySpecV::Inline { body_type, value: None }) => body is Empty,
        Some(BodySpecV::Inline { body_type, value: Some(v) }) => filled(v, scopes).outcome matches Ok(v) && match body_type {
            BodyType::Json => body == BodyV::Json(v),
            BodyType::Text => body matches BodyV::Text(s) && (v matches JsonV::String(t) ==> s == t) && (!(v is String)
                ==> s.len() == 0),
            BodyType::Form => body matches BodyV::Form(fields) && match v {
                JsonV::Object(pairs) => fields.len() == pairs.len() && forall|i: int|
                    0 <= i < fields.len() ==> (#[trigger] fields[i]).0 == pairs[i].0 && fields[i].1 == as_text(
                        pairs[i].1,
                    ),
                _ => fields.len() == 0,
            },
            BodyType::Empty => body is Empty,
            _ => false,
        },
        Some(BodySpecV::Ref { reference, .. }) => lookup(inputs.assets, reference) matches Some(Ok(_)) && (lookup(
            inputs.data,
            reference,
        ) matches Some(Ok(v)) && body == BodyV::Json(v)),
    }
}

/// The body of a document that has no errors is what the document says. Bodies
/// of several parts and of raw bytes are refused.
pub proof fn lemma_body_is_what_is_written(written: Option<BodySpecV>, inputs: InputsV, scopes: ScopesV)
    ensures
        body_step(written, inputs, scopes).errors.len() == 0 ==> body_comes_of(
            written,
            inputs,
            scopes,
            body_step(written, inputs, scopes).value,
        ),
        written matches Some(BodySpecV::Inline { body_type: BodyType::Multipart | BodyType::Binary, value: Some(_) })
            ==> body_step(written, inputs, scopes).errors.len() > 0,
        written matches Some(BodySpecV::Inline { body_type, value: Some(v) }) ==> (filled(v, scopes).outcome is Err
            ==> body_step(written, inputs, scopes).errors.len() > 0),
        written matches Some(BodySpecV::Ref { reference, .. }) ==> (!(lookup(inputs.assets, reference) matches Some(
            Ok(_),
        ) && lookup(inputs.data, reference) matches Some(Ok(_))) ==> body_step(written, inputs, scopes).errors.len()
            > 0),
{
}

/// Pipeline entries are the enabled ones of the written entries, in order, each
/// in its phase, with the asset it names and its input filled in.
pub open spec fn pipeline_comes_of(
    written: Seq<PipelineEntryV>,
    inputs: InputsV,
    scopes: ScopesV,
    pipeline: Seq<EntryV>,
) -> bool {
    picks(
        written,
        |w: PipelineEntryV| w.enabled,
        |w: PipelineEntryV, e: EntryV|
            e.phase == w.phase && lookup(inputs.assets, w.uses) == Some(Ok::<AssetV, DiagnosticV>(e.asset)) && filled(
                w.with,
                scopes,
            ).outcome == Ok::<JsonV, DiagnosticV>(e.input),
        pipeline,
    )
}

proof fn lemma_pipeline_comes(written: Seq<PipelineEntryV>, inputs: InputsV, scopes: ScopesV, n: int)
    requires
        0 <= n <= written.len(),
        pipeline_step(written, inputs, scopes, n).errors.len() == 0,
    ensures
        pipeline_comes_of(written.take(n), inputs, scopes, pipeline_step(written, inputs, scopes, n).value),
    decreases n,
{
    let keep = |w: PipelineEntryV| w.enabled;
    let fits = |w: PipelineEntryV, e: EntryV|
        e.phase == w.phase && lookup(inputs.assets, w.uses) == Some(Ok::<AssetV, DiagnosticV>(e.asset)) && filled(
            w.with,
            scopes,
        ).outcome == Ok::<JsonV, DiagnosticV>(e.input);
    let out = pipeline_step(written, inputs, scopes, n).value;
    if n == 0 {
        lemma_picks_none(written.take(n), keep, fits, out);
    } else {
        let before = pipeline_step(written, inputs, scopes, n - 1);
        assert(before.errors.len() <= pipeline_step(written, inputs, scopes, n).errors.len());
        lemma_pipeline_comes(written, inputs, scopes, n - 1);
        assert(written.take(n).drop_last() =~= written.take(n - 1));
        assert(written.take(n).last() == written[n - 1]);
        if written[n - 1].enabled {
            assert(out.drop_last() =~= before.value);
        }
        lemma_picks_more(written.take(n), keep, fits, before.value, out);
    }
}

/// A mock is what the written mock says.
pub open spec fn mock_comes_of(written: Option<MockDefV>, inputs: InputsV, scopes: ScopesV, mock: Option<MockV>) -> bool {
    match written {
        None => mock is None,
        Some(MockDefV::Static { status, headers, body, delay_ms }) => mock matches Some(
            MockV::Static { status: s, headers: h, body: b, delay_ms: d },
        ) && s == status && headers_come_of(headers, scopes, h) && body_comes_of(body, inputs, scopes, b) && (match delay_ms {
            Some(ms) => d == ms,
            None => d == 0,
        }),
        Some(MockDefV::Dynamic { uses, with }) => mock matches Some(MockV::Dynamic { asset, input }) && lookup(
            inputs.assets,
            uses,
        ) == Some(Ok::<AssetV, DiagnosticV>(asset)) && filled(with, scopes).outcome == Ok::<JsonV, DiagnosticV>(input),
    }
}

/// A document that resolves gives the request that it describes: under its own
/// id and name, with its method, its URL, headers and query filled in, its
/// body, its pipeline and its mock. What a reference stands for is looked up in
/// the environment, the resolved bindings, the matrix case, the runtime values
/// and the secrets of the run.
pub proof fn lemma_request_is_what_the_document_says(doc: DocumentV, inputs: InputsV, b: BoundV, r: RequestV)
    requires
        assembled(doc, inputs, b) == Ok::<RequestV, Seq<DiagnosticV>>(r),
    ensures
        ({
            let scopes = ScopesV {
                env: inputs.env,
                bindings: JsonV::Object(b.values),
                matrix: inputs.matrix,
                runtime: inputs.runtime,
                secrets: inputs.secrets,
                placeholder: inputs.placeholder,
            };
            &&& b.errors.len() == 0
            &&& r.id == doc.id
            &&& r.name == doc.name
            &&& r.method == doc.request.method
            &&& text_comes_of(doc.request.url, scopes, r.url)
            &&& headers_come_of(doc.request.headers, scopes, r.headers)
            &&& headers_come_of(doc.request.query, scopes, r.query)
            &&& body_comes_of(doc.request.body, inputs, scopes, r.body)
            &&& pipeline_comes_of(doc.pipeline, inputs, scopes, r.pipeline)
            &&& mock_comes_of(doc.mock, inputs, scopes, r.mock)
            &&& r.bindings == JsonV::Object(b.values)
        }),
{
    let scopes = scopes_with(inputs, JsonV::Object(b.values));
    let spec = doc.request;
    let u = text_step(spec.url, scopes, "/request/url"@);
    let h = headers_step(spec.headers, scopes, "/request/headers"@, spec.headers.len() as int);
    let q = headers_step(spec.query, scopes, "/request/query"@, spec.query.len() as int);
    let y = body_step(spec.body, inputs, scopes);
    let p = pipeline_step(doc.pipeline, inputs, scopes, doc.pipeline.len() as int);
    let m = mock_step(doc.mock, inputs, scopes);
    assert(b.errors.len() == 0);
    assert((b.errors + (u.errors + h.errors + q.errors + y.errors) + p.errors + m.errors).len() == 0);
    lemma_headers_are_those_enabled(spec.headers, scopes, "/request/headers"@);
    lemma_headers_are_those_enabled(spec.query, scopes, "/request/query"@);
    lemma_body_is_what_is_written(spec.body, inputs, scopes);
    assert(doc.pipeline.take(doc.pipeline.len() as int) =~= doc.pipeline);
    lemma_pipeline_comes(doc.pipeline, inputs, scopes, doc.pipeline.len() as int);
    if let Some(MockDefV::Static { status, headers, body, delay_ms }) = doc.mock {
        lemma_headers_are_those_enabled(headers, scopes, "/mock/headers"@);
        lemma_body_is_what_is_written(body, inputs, scopes);
    }
}

} // verus!
