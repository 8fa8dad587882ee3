//! What a document's request gathers on the way: every secret that went into it,
//! and every error at its place.

use vstd::prelude::*;

use crate::json::JsonV;
use crate::map::lookup;
use crate::words::decimal;

use super::builder::{
    assembled, body_step, headers_step, mock_step, pipeline_step, scopes_with, text_step, visible_bindings, BoundV, InputsV,
};
use super::diag::DiagnosticV;
use super::ir::RequestV;
use super::model::{BodySpecV, BodyType, DocumentV, HeaderSpecV, MockDefV, PipelineEntryV};
use super::vars::{filled, filled_items, filled_pairs, filled_text, found, lone_reference, ScopesV};

verus! {

broadcast use vstd::string::group_string_axioms;

// ---------------------------------------------------------------------
// Lists
// ---------------------------------------------------------------------

/// Every item of one list is an item of the other.
pub open spec fn all_in<A>(part: Seq<A>, whole: Seq<A>) -> bool {
    forall|i: int| 0 <= i < part.len() ==> whole.contains(#[trigger] part[i])
}

proof fn lemma_in_sum<A>(part: Seq<A>, a: Seq<A>, b: Seq<A>)
    ensures
        all_in(part, a) ==> all_in(part, a + b),
        all_in(part, b) ==> all_in(part, a + b),
{
    let whole = a + b;
    if all_in(part, a) {
        assert forall|i: int| 0 <= i < part.len() implies whole.contains(#[trigger] part[i]) by {
            assert(a.contains(part[i]));
            let k = choose|k: int| 0 <= k < a.len() && a[k] == part[i];
            assert(whole[k] == part[i]);
        }
    }
    if all_in(part, b) {
        assert forall|i: int| 0 <= i < part.len() implies whole.contains(#[trigger] part[i]) by {
            assert(b.contains(part[i]));
            let k = choose|k: int| 0 <= k < b.len() && b[k] == part[i];
            assert(whole[a.len() + k] == part[i]);
        }
    }
}

proof fn lemma_in_itself<A>(part: Seq<A>)
    ensures
        all_in(part, part),
{
    assert forall|i: int| 0 <= i < part.len() implies part.contains(#[trigger] part[i]) by {}
}

proof fn lemma_one_in_sum<A>(x: A, a: Seq<A>, b: Seq<A>)
    ensures
        a.contains(x) ==> (a + b).contains(x),
        b.contains(x) ==> (a + b).contains(x),
{
    if a.contains(x) {
        let k = choose|k: int| 0 <= k < a.len() && a[k] == x;
        assert((a + b)[k] == x);
    }
    if b.contains(x) {
        let k = choose|k: int| 0 <= k < b.len() && b[k] == x;
        assert((a + b)[a.len() + k] == x);
    }
}

// ---------------------------------------------------------------------
// Secrets
// ---------------------------------------------------------------------

/// A reference to a secret brings the secret, one to anything else brings none.
pub proof fn lemma_reference_brings_its_secret(name: Seq<char>, s: Seq<char>, scopes: ScopesV)
    requires
        lone_reference(s) == Some(name),
    ensures
        found(scopes, name) matches Some(f) ==> {
            &&& f.secret ==> (f.value matches JsonV::String(text) ==> filled(JsonV::String(s), scopes).secrets == seq![text])
            &&& !f.secret ==> filled(JsonV::String(s), scopes).secrets.len() == 0
        },
        found(scopes, name) is None ==> filled(JsonV::String(s), scopes).secrets.len() == 0,
{
}

/// A text brings the secrets of each of its references: the one that comes
/// first, and those of the rest.
pub proof fn lemma_text_brings_its_secrets(before: Seq<char>, name: Seq<char>, rest: Seq<char>, scopes: ScopesV)
    requires
        !before.contains('$'),
        !name.contains('}'),
    ensures
        found(scopes, name) matches Some(f) ==> {
            let all = filled_text(before + "${"@ + name + "}"@ + rest, scopes, 0).secrets;
            &&& f.secret ==> (f.value matches JsonV::String(text) ==> all == seq![text] + filled_text(rest, scopes, 0).secrets)
            &&& !f.secret ==> all == filled_text(rest, scopes, 0).secrets
        },
{
    crate::filling_laws::lemma_text_is_filled_in_turn(before, name, rest, scopes);
    if let Some(f) = found(scopes, name) {
        let more = filled_text(rest, scopes, 0).secrets;
        assert(Seq::<Seq<char>>::empty() + more =~= more);
    }
}

proof fn lemma_items_bring(items: Seq<JsonV>, scopes: ScopesV, n: int, i: int)
    requires
        0 <= i < n <= items.len(),
        filled_items(items, scopes, n).outcome is Ok,
    ensures
        all_in(filled(items[i], scopes).secrets, filled_items(items, scopes, n).secrets),
    decreases n,
{
    let before = filled_items(items, scopes, n - 1);
    let here = filled(items[n - 1], scopes);
    let part = filled(items[i], scopes).secrets;
    assert(before.outcome is Ok);
    lemma_in_sum(part, before.secrets, here.secrets);
    if i < n - 1 {
        lemma_items_bring(items, scopes, n - 1, i);
    } else {
        lemma_in_itself(part);
    }
}

proof fn lemma_pairs_bring(pairs: Seq<(Seq<char>, JsonV)>, scopes: ScopesV, n: int, i: int)
    requires
        0 <= i < n <= pairs.len(),
        filled_pairs(pairs, scopes, n).outcome is Ok,
    ensures
        all_in(filled(pairs[i].1, scopes).secrets, filled_pairs(pairs, scopes, n).secrets),
    decreases n,
{
    let before = filled_pairs(pairs, scopes, n - 1);
    let here = filled(pairs[n - 1].1, scopes);
    let part = filled(pairs[i].1, scopes).secrets;
    assert(before.outcome is Ok);
    lemma_in_sum(part, before.secrets, here.secrets);
    if i < n - 1 {
        lemma_pairs_bring(pairs, scopes, n - 1, i);
    } else {
        lemma_in_itself(part);
    }
}

/// A list or an object that is filled in brings the secrets of each of its items
/// and members.
pub proof fn lemma_value_brings_its_secrets(v: JsonV, scopes: ScopesV, i: int)
    requires
        filled(v, scopes).outcome is Ok,
    ensures
        v matches JsonV::Array(items) ==> (0 <= i < items.len() ==> all_in(
            filled(items[i], scopes).secrets,
            filled(v, scopes).secrets,
        )),
        v matches JsonV::Object(pairs) ==> (0 <= i < pairs.len() ==> all_in(
            filled(pairs[i].1, scopes).secrets,
            filled(v, scopes).secrets,
        )),
{
    match v {
        JsonV::Array(items) => {
            if 0 <= i < items.len() {
                lemma_items_bring(items, scopes, items.len() as int, i);
            }
        },
        JsonV::Object(pairs) => {
            if 0 <= i < pairs.len() {
                lemma_pairs_bring(pairs, scopes, pairs.len() as int, i);
            }
        },
        _ => {},
    }
}

proof fn lemma_headers_gather(headers: Seq<HeaderSpecV>, scopes: ScopesV, base: Seq<char>, n: int, i: int)
    requires
        0 <= i < n <= headers.len(),
        headers[i].enabled,
    ensures
        all_in(filled(JsonV::String(headers[i].value), scopes).secrets, headers_step(headers, scopes, base, n).secrets),
        filled(JsonV::String(headers[i].value), scopes).outcome matches Err(d) ==> headers_step(
            headers,
            scopes,
            base,
            n,
        ).errors.contains(DiagnosticV { instance_path: Some(base + "/"@ + decimal(i as nat) + "/value"@), ..d }),
    decreases n,
{
    let before = headers_step(headers, scopes, base, n - 1);
    let h = headers[n - 1];
    let t = text_step(h.value, scopes, super::builder::header_path(base, n - 1));
    let part = filled(JsonV::String(headers[i].value), scopes).secrets;
    if i < n - 1 {
        lemma_headers_gather(headers, scopes, base, n - 1, i);
        lemma_in_sum(part, before.secrets, t.secrets);
        if let Err(d) = filled(JsonV::String(headers[i].value), scopes).outcome {
            let x = DiagnosticV { instance_path: Some(base + "/"@ + decimal(i as nat) + "/value"@), ..d };
            lemma_one_in_sum(x, before.errors, t.errors);
        }
    } else {
        lemma_in_itself(part);
        lemma_in_sum(part, before.secrets, t.secrets);
        if let Err(d) = filled(JsonV::String(headers[i].value), scopes).outcome {
            let x = DiagnosticV { instance_path: Some(base + "/"@ + decimal(i as nat) + "/value"@), ..d };
            assert(t.errors[0] == x);
            lemma_one_in_sum(x, before.errors, t.errors);
        }
    }
}

proof fn lemma_pipeline_gathers(entries: Seq<PipelineEntryV>, inputs: InputsV, scopes: ScopesV, n: int, i: int)
    requires
        0 <= i < n <= entries.len(),
        entries[i].enabled,
    ensures
        lookup(inputs.assets, entries[i].uses) matches Some(Ok(_)) ==> all_in(
            filled(entries[i].with, scopes).secrets,
            pipeline_step(entries, inputs, scopes, n).secrets,
        ),
        lookup(inputs.assets, entries[i].uses) matches Some(Err(d)) ==> pipeline_step(
            entries,
            inputs,
            scopes,
            n,
        ).errors.contains(DiagnosticV { instance_path: Some("/pipeline/"@ + decimal(i as nat)), ..d }),
        lookup(inputs.assets, entries[i].uses) matches Some(Ok(_)) ==> (filled(entries[i].with, scopes).outcome matches Err(d)
            ==> pipeline_step(entries, inputs, scopes, n).errors.contains(
            DiagnosticV { instance_path: Some("/pipeline/"@ + decimal(i as nat) + "/with"@), ..d },
        )),
    decreases n,
{
    let before = pipeline_step(entries, inputs, scopes, n - 1);
    let after = pipeline_step(entries, inputs, scopes, n);
    let e = entries[n - 1];
    let f = filled(e.with, scopes);
    let part = filled(entries[i].with, scopes).secrets;
    if i < n - 1 {
        lemma_pipeline_gathers(entries, inputs, scopes, n - 1, i);
        lemma_in_sum(part, before.secrets, f.secrets);
        assert forall|x: DiagnosticV| before.errors.contains(x) implies #[trigger] after.errors.contains(x) by {
            let k = choose|k: int| 0 <= k < before.errors.len() && before.errors[k] == x;
            assert(after.errors[k] == x);
        }
    } else {
        lemma_in_itself(part);
        lemma_in_sum(part, before.secrets, f.secrets);
        if after.errors.len() > before.errors.len() {
            assert(after.errors.last() == after.errors[after.errors.len() - 1]);
            assert(after.errors.contains(after.errors.last()));
        }
    }
}

/// Every secret that went into the URL, an enabled header or query parameter,
/// the body, the input of an enabled asset or the bindings is among the secrets
/// of the request.
pub proof fn lemma_request_knows_its_secrets(doc: DocumentV, inputs: InputsV, b: BoundV, i: int)
    requires
        assembled(doc, inputs, b) is Ok,
    ensures
        ({
            let r = assembled(doc, inputs, b)->Ok_0;
            let scopes = scopes_with(inputs, JsonV::Object(b.values));
            &&& all_in(b.secrets, r.secret_values)
            &&& all_in(filled(JsonV::String(doc.request.url), scopes).secrets, r.secret_values)
            &&& 0 <= i < doc.request.headers.len() && doc.request.headers[i].enabled ==> all_in(
                filled(JsonV::String(doc.request.headers[i].value), scopes).secrets,
                r.secret_values,
            )
            &&& 0 <= i < doc.request.query.len() && doc.request.query[i].enabled ==> all_in(
                filled(JsonV::String(doc.request.query[i].value), scopes).secrets,
                r.secret_values,
            )
            &&& doc.request.body matches Some(BodySpecV::Inline { body_type, value: Some(v) }) ==> all_in(
                filled(v, scopes).secrets,
                r.secret_values,
            )
            &&& 0 <= i < doc.pipeline.len() && doc.pipeline[i].enabled && (lookup(inputs.assets, doc.pipeline[i].uses)
                matches Some(Ok(_))) ==> all_in(filled(doc.pipeline[i].with, scopes).secrets, r.secret_values)
        }),
{
    let r = assembled(doc, inputs, b)->Ok_0;
    let scopes = scopes_with(inputs, visible_bindings(b));
    let u = text_step(doc.request.url, scopes, "/request/url"@);
    let h = headers_step(doc.request.headers, scopes, "/request/headers"@, doc.request.headers.len() as int);
    let q = headers_step(doc.request.query, scopes, "/request/query"@, doc.request.query.len() as int);
    let y = body_step(doc.request.body, inputs, scopes);
    let p = pipeline_step(doc.pipeline, inputs, scopes, doc.pipeline.len() as int);
    let m = mock_step(doc.mock, inputs, scopes);
    let parts = u.secrets + h.secrets + q.secrets + y.secrets;
    assert((b.errors + super::builder::request_step(doc.request, inputs, scopes).errors + p.errors + m.errors).len() == 0);
    assert(b.errors.len() == 0);
    assert(r.secret_values == b.secrets + parts + p.secrets + m.secrets);
    lemma_in_itself(b.secrets);
    lemma_up(b.secrets, b.secrets, parts, p.secrets, m.secrets);
    lemma_in_itself(u.secrets);
    lemma_up(u.secrets, u.secrets, h.secrets, q.secrets, y.secrets);
    lemma_up(u.secrets, b.secrets, parts, p.secrets, m.secrets);
    lemma_in_itself(y.secrets);
    lemma_up(y.secrets, u.secrets, h.secrets, q.secrets, y.secrets);
    lemma_up(y.secrets, b.secrets, parts, p.secrets, m.secrets);
    if 0 <= i < doc.request.headers.len() && doc.request.headers[i].enabled {
        lemma_headers_gather(doc.request.headers, scopes, "/request/headers"@, doc.request.headers.len() as int, i);
        let part = filled(JsonV::String(doc.request.headers[i].value), scopes).secrets;
        lemma_up(part, u.secrets, h.secrets, q.secrets, y.secrets);
        lemma_up(part, b.secrets, parts, p.secrets, m.secrets);
    }
    if 0 <= i < doc.request.query.len() && doc.request.query[i].enabled {
        lemma_headers_gather(doc.request.query, scopes, "/request/query"@, doc.request.query.len() as int, i);
        let part = filled(JsonV::String(doc.request.query[i].value), scopes).secrets;
        lemma_up(part, u.secrets, h.secrets, q.secrets, y.secrets);
        lemma_up(part, b.secrets, parts, p.secrets, m.secrets);
    }
    if 0 <= i < doc.pipeline.len() && doc.pipeline[i].enabled {
        lemma_pipeline_gathers(doc.pipeline, inputs, scopes, doc.pipeline.len() as int, i);
        lemma_up(filled(doc.pipeline[i].with, scopes).secrets, b.secrets, parts, p.secrets, m.secrets);
    }
}

proof fn lemma_up<A>(x: Seq<A>, a: Seq<A>, b: Seq<A>, c: Seq<A>, d: Seq<A>)
    ensures
        all_in(x, a) || all_in(x, b) || all_in(x, c) || all_in(x, d) ==> all_in(x, a + b + c + d),
{
    lemma_in_sum(x, a, b);
    lemma_in_sum(x, a + b, c);
    lemma_in_sum(x, a + b + c, d);
}

// ---------------------------------------------------------------------
// Errors
// ---------------------------------------------------------------------

proof fn lemma_one_up<A>(x: A, a: Seq<A>, b: Seq<A>, c: Seq<A>, d: Seq<A>)
    ensures
        a.contains(x) || b.contains(x) || c.contains(x) || d.contains(x) ==> (a + b + c + d).contains(x),
{
    lemma_one_in_sum(x, a, b);
    lemma_one_in_sum(x, a + b, c);
    lemma_one_in_sum(x, a + b + c, d);
}

/// An error at a place.
pub open spec fn placed(d: DiagnosticV, path: Seq<char>) -> DiagnosticV {
    DiagnosticV { instance_path: Some(path), ..d }
}

/// A document with an error anywhere is no request, and every independent error
/// is told at its place: in the bindings, the URL, an enabled header or query
/// parameter, the body, an enabled asset.
pub proof fn lemma_every_error_is_told(doc: DocumentV, inputs: InputsV, b: BoundV, i: int)
    ensures
        ({
            let outcome = assembled(doc, inputs, b);
            let bindings = if b.errors.len() > 0 {
                JsonV::Object(seq![])
            } else {
                JsonV::Object(b.values)
            };
            let scopes = scopes_with(inputs, bindings);
            &&& 0 <= i < b.errors.len() ==> (outcome matches Err(list) && list.contains(b.errors[i]))
            &&& filled(JsonV::String(doc.request.url), scopes).outcome matches Err(d) ==> (outcome matches Err(list)
                && list.contains(placed(d, "/request/url"@)))
            &&& 0 <= i < doc.request.headers.len() && doc.request.headers[i].enabled ==> (filled(
                JsonV::String(doc.request.headers[i].value),
                scopes,
            ).outcome matches Err(d) ==> (outcome matches Err(list) && list.contains(
                placed(d, "/request/headers"@ + "/"@ + decimal(i as nat) + "/value"@),
            )))
            &&& 0 <= i < doc.request.query.len() && doc.request.query[i].enabled ==> (filled(
                JsonV::String(doc.request.query[i].value),
                scopes,
            ).outcome matches Err(d) ==> (outcome matches Err(list) && list.contains(
                placed(d, "/request/query"@ + "/"@ + decimal(i as nat) + "/value"@),
            )))
            &&& doc.request.body matches Some(BodySpecV::Inline { body_type, value: Some(v) }) ==> (filled(v, scopes).outcome
                matches Err(d) ==> (outcome matches Err(list) && list.contains(placed(d, "/request/body/value"@))))
            &&& 0 <= i < doc.pipeline.len() && doc.pipeline[i].enabled ==> (lookup(inputs.assets, doc.pipeline[i].uses)
                matches Some(Err(d)) ==> (outcome matches Err(list) && list.contains(
                placed(d, "/pipeline/"@ + decimal(i as nat)),
            )))
            &&& 0 <= i < doc.pipeline.len() && doc.pipeline[i].enabled && (lookup(inputs.assets, doc.pipeline[i].uses)
                matches Some(Ok(_))) ==> (filled(doc.pipeline[i].with, scopes).outcome matches Err(d) ==> (outcome
                matches Err(list) && list.contains(placed(d, "/pipeline/"@ + decimal(i as nat) + "/with"@))))
        }),
{
    let scopes = scopes_with(inputs, visible_bindings(b));
    let u = text_step(doc.request.url, scopes, "/request/url"@);
    let h = headers_step(doc.request.headers, scopes, "/request/headers"@, doc.request.headers.len() as int);
    let q = headers_step(doc.request.query, scopes, "/request/query"@, doc.request.query.len() as int);
    let y = body_step(doc.request.body, inputs, scopes);
    let p = pipeline_step(doc.pipeline, inputs, scopes, doc.pipeline.len() as int);
    let m = mock_step(doc.mock, inputs, scopes);
    let parts = u.errors + h.errors + q.errors + y.errors;
    let all = b.errors + parts + p.errors + m.errors;
    assert forall|x: DiagnosticV| #[trigger] all.contains(x) implies assembled(doc, inputs, b) == Err::<
        RequestV,
        Seq<DiagnosticV>,
    >(all) by {
        let k = choose|k: int| 0 <= k < all.len() && all[k] == x;
        assert(all.len() > 0);
    }
    if 0 <= i < b.errors.len() {
        assert(b.errors.contains(b.errors[i]));
        lemma_one_up(b.errors[i], b.errors, parts, p.errors, m.errors);
    }
    if let Err(d) = filled(JsonV::String(doc.request.url), scopes).outcome {
        let x = placed(d, "/request/url"@);
        assert(u.errors[0] == x);
        lemma_one_up(x, u.errors, h.errors, q.errors, y.errors);
        lemma_one_up(x, b.errors, parts, p.errors, m.errors);
    }
    if 0 <= i < doc.request.headers.len() && doc.request.headers[i].enabled {
        lemma_headers_gather(doc.request.headers, scopes, "/request/headers"@, doc.request.headers.len() as int, i);
        if let Err(d) = filled(JsonV::String(doc.request.headers[i].value), scopes).outcome {
            let x = placed(d, "/request/headers"@ + "/"@ + decimal(i as nat) + "/value"@);
            lemma_one_up(x, u.errors, h.errors, q.errors, y.errors);
            lemma_one_up(x, b.errors, parts, p.errors, m.errors);
        }
    }
    if 0 <= i < doc.request.query.len() && doc.request.query[i].enabled {
        lemma_headers_gather(doc.request.query, scopes, "/request/query"@, doc.request.query.len() as int, i);
        if let Err(d) = filled(JsonV::String(doc.request.query[i].value), scopes).outcome {
            let x = placed(d, "/request/query"@ + "/"@ + decimal(i as nat) + "/value"@);
            lemma_one_up(x, u.errors, h.errors, q.errors, y.errors);
            lemma_one_up(x, b.errors, parts, p.errors, m.errors);
        }
    }
    if let Some(BodySpecV::Inline { body_type, value: Some(v) }) = doc.request.body {
        if let Err(d) = filled(v, scopes).outcome {
            let x = placed(d, "/request/body/value"@);
            assert(y.errors[0] == x);
            lemma_one_up(x, u.errors, h.errors, q.errors, y.errors);
            lemma_one_up(x, b.errors, parts, p.errors, m.errors);
        }
    }
    if 0 <= i < doc.pipeline.len() && doc.pipeline[i].enabled {
        lemma_pipeline_gathers(doc.pipeline, inputs, scopes, doc.pipeline.len() as int, i);
        if let Some(Err(d)) = lookup(inputs.assets, doc.pipeline[i].uses) {
            lemma_one_up(placed(d, "/pipeline/"@ + decimal(i as nat)), b.errors, parts, p.errors, m.errors);
        }
        if let Err(d) = filled(doc.pipeline[i].with, scopes).outcome {
            lemma_one_up(
                placed(d, "/pipeline/"@ + decimal(i as nat) + "/with"@),
                b.errors,
                parts,
                p.errors,
                m.errors,
            );
        }
    }
}

/// Each enabled one of the written headers can be filled in.
pub open spec fn headers_fill(written: Seq<HeaderSpecV>, scopes: ScopesV) -> bool {
    forall|i: int|
        0 <= i < written.len() && (#[trigger] written[i]).enabled ==> filled(JsonV::String(written[i].value), scopes).outcome
            is Ok
}

/// A body that there is: none, one that is written in place and is JSON, a text
/// or a form, or data that was loaded.
pub open spec fn body_fills(written: Option<BodySpecV>, inputs: InputsV, scopes: ScopesV) -> bool {
    match written {
        None => true,
        Some(BodySpecV::Inline { value: None, .. }) => true,
        Some(BodySpecV::Inline { body_type, value: Some(v) }) => filled(v, scopes).outcome is Ok && (body_type
            == BodyType::Json || body_type == BodyType::Text || body_type == BodyType::Form),
        Some(BodySpecV::Ref { reference, .. }) => (lookup(inputs.assets, reference) matches Some(Ok(_))) && (lookup(
            inputs.data,
            reference,
        ) matches Some(Ok(_))),
    }
}

/// Each enabled asset was found, and its input can be filled in.
pub open spec fn assets_fill(written: Seq<PipelineEntryV>, inputs: InputsV, scopes: ScopesV) -> bool {
    forall|i: int|
        0 <= i < written.len() && (#[trigger] written[i]).enabled ==> (lookup(inputs.assets, written[i].uses) matches Some(
            Ok(_),
        )) && filled(written[i].with, scopes).outcome is Ok
}

/// A mock that there is.
pub open spec fn mock_fills(written: Option<MockDefV>, inputs: InputsV, scopes: ScopesV) -> bool {
    match written {
        None => true,
        Some(MockDefV::Static { headers, body, .. }) => headers_fill(headers, scopes) && body_fills(body, inputs, scopes),
        Some(MockDefV::Dynamic { uses, with }) => (lookup(inputs.assets, uses) matches Some(Ok(_))) && filled(
            with,
            scopes,
        ).outcome is Ok,
    }
}

proof fn lemma_headers_without_errors(written: Seq<HeaderSpecV>, scopes: ScopesV, base: Seq<char>, n: int)
    requires
        0 <= n <= written.len(),
        headers_fill(written, scopes),
    ensures
        headers_step(written, scopes, base, n).errors.len() == 0,
    decreases n,
{
    if n > 0 {
        lemma_headers_without_errors(written, scopes, base, n - 1);
        if written[n - 1].enabled {
            assert(filled(JsonV::String(written[n - 1].value), scopes).outcome is Ok);
        }
    }
}

proof fn lemma_assets_without_errors(written: Seq<PipelineEntryV>, inputs: InputsV, scopes: ScopesV, n: int)
    requires
        0 <= n <= written.len(),
        assets_fill(written, inputs, scopes),
    ensures
        pipeline_step(written, inputs, scopes, n).errors.len() == 0,
    decreases n,
{
    if n > 0 {
        lemma_assets_without_errors(written, inputs, scopes, n - 1);
        if written[n - 1].enabled {
            assert(filled(written[n - 1].with, scopes).outcome is Ok);
        }
    }
}

/// A document in which nothing is missing is a request: its bindings have no
/// errors, everything enabled can be filled in, and what it refers to was found.
/// What is disabled does not count.
pub proof fn lemma_document_without_errors_is_a_request(doc: DocumentV, inputs: InputsV, b: BoundV)
    requires
        b.errors.len() == 0,
        filled(JsonV::String(doc.request.url), scopes_with(inputs, JsonV::Object(b.values))).outcome is Ok,
        headers_fill(doc.request.headers, scopes_with(inputs, JsonV::Object(b.values))),
        headers_fill(doc.request.query, scopes_with(inputs, JsonV::Object(b.values))),
        body_fills(doc.request.body, inputs, scopes_with(inputs, JsonV::Object(b.values))),
        assets_fill(doc.pipeline, inputs, scopes_with(inputs, JsonV::Object(b.values))),
        mock_fills(doc.mock, inputs, scopes_with(inputs, JsonV::Object(b.values))),
    ensures
        assembled(doc, inputs, b) is Ok,
{
    let scopes = scopes_with(inputs, JsonV::Object(b.values));
    lemma_headers_without_errors(doc.request.headers, scopes, "/request/headers"@, doc.request.headers.len() as int);
    lemma_headers_without_errors(doc.request.query, scopes, "/request/query"@, doc.request.query.len() as int);
    lemma_assets_without_errors(doc.pipeline, inputs, scopes, doc.pipeline.len() as int);
    if let Some(MockDefV::Static { headers, .. }) = doc.mock {
        lemma_headers_without_errors(headers, scopes, "/mock/headers"@, headers.len() as int);
    }
    assert(body_step(doc.request.body, inputs, scopes).errors.len() == 0);
    assert(mock_step(doc.mock, inputs, scopes).errors.len() == 0);
}

} // verus!
