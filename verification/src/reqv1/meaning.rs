//! What project assets are given, and what their return values mean.

use vstd::prelude::*;
use vstd::utf8::encode_utf8;

use crate::exec::text_pairs;
use crate::json::{
    items_in, member, nat_in, own, own_json, pairs_in, print, printed, text_member, text_or, Json, JsonV, Num, NumV,
};
use crate::map::{ascending, lemma_put_all_keeps_order, pairs_view, put_all, TextMap};
use crate::reqv1::diag::{diag, Code, Diagnostic, DiagnosticV};
use crate::reqv1::ir::{RequestV, ResolvedHeader, ResolvedRequest};
use crate::reqv1::pipeline::{
    body_json, text_or_null, AssertionResult, AssertionV, PatchV, ReactionV, RequestPatch, ResponseV,
    ResponseView,
};
use crate::text::cat2;
use crate::view::{group_views, opt_or, ref_view, views};
use crate::words::{bytes_of, lossy_text};

verus! {

broadcast use vstd::string::group_string_axioms;

// ---------------------------------------------------------------------
// Contexts
// ---------------------------------------------------------------------

fn member_of(pairs: &mut Vec<(String, Json)>, key: &str, value: Json)
    ensures
        pairs_view(final(pairs)@) == pairs_view(old(pairs)@).push((key@, value@)),
{
    let ghost before = pairs@;
    let ghost pair = (key@, value@);
    pairs.push((key.to_owned(), value));
    assert(pairs_view(pairs@) =~= pairs_view(before).push(pair));
}

fn object(pairs: Vec<(String, Json)>) -> (r: Json)
    ensures
        r@ == JsonV::Object(pairs_view(pairs@)),
{
    let r = Json::Object(pairs);
    proof {
        crate::json::lemma_json_view(r);
    }
    r
}

fn no_members() -> (r: Vec<(String, Json)>)
    ensures
        pairs_view(r@) == Seq::<(Seq<char>, JsonV)>::empty(),
{
    let r: Vec<(String, Json)> = Vec::new();
    assert(pairs_view(r@) =~= Seq::empty());
    r
}

/// A header as JSON.
pub open spec fn header_json(h: (Seq<char>, Seq<char>)) -> JsonV {
    JsonV::Object(seq![("name"@, JsonV::String(h.0)), ("value"@, JsonV::String(h.1))])
}

/// Headers as JSON.
pub open spec fn headers_json(headers: Seq<(Seq<char>, Seq<char>)>) -> JsonV {
    JsonV::Array(Seq::new(headers.len(), |i: int| header_json(headers[i])))
}

/// The request as assets see it.
pub open spec fn request_json(request: RequestV) -> JsonV {
    JsonV::Object(
        seq![
            ("headers"@, headers_json(request.headers)),
            ("method"@, JsonV::String(request.method.name())),
            ("url"@, JsonV::String(request.url)),
        ],
    )
}

/// A response as assets see it.
pub open spec fn response_json(response: ResponseV) -> JsonV {
    JsonV::Object(
        seq![
            ("body"@, opt_or(body_json(response.body), JsonV::Null)),
            ("bodyText"@, JsonV::String(lossy_text(response.body))),
            ("headers"@, headers_json(response.headers)),
            ("status"@, JsonV::Number(NumV::Pos(response.status as u64))),
            ("timeMs"@, JsonV::Number(NumV::Pos(response.time_ms))),
        ],
    )
}

/// The context of a hook or a mock.
pub open spec fn before_context(request: RequestV) -> JsonV {
    JsonV::Object(seq![("bindings"@, request.bindings), ("request"@, request_json(request))])
}

/// The context of an assertion or extractor.
pub open spec fn after_context(request: RequestV, response: Option<ResponseV>, error: Option<Seq<char>>) -> JsonV {
    JsonV::Object(
        seq![
            ("bindings"@, request.bindings),
            ("error"@, text_or_null(error)),
            ("request"@, request_json(request)),
            (
                "response"@,
                match response {
                    Some(r) => response_json(r),
                    None => JsonV::Null,
                },
            ),
        ],
    )
}

fn header_value_json(name: &str, value: &str) -> (r: Json)
    ensures
        r@ == header_json((name@, value@)),
{
    broadcast use crate::json::lemma_json_view;

    let mut pairs = no_members();
    member_of(&mut pairs, "name", Json::String(name.to_owned()));
    member_of(&mut pairs, "value", Json::String(value.to_owned()));
    let r = object(pairs);
    assert(r@->Object_0 =~= header_json((name@, value@))->Object_0);
    r
}

/// The request as assets see it.
pub fn request_ctx(ir: &ResolvedRequest) -> (r: Json)
    ensures
        r@ == request_json(ir@),
{
    broadcast use crate::json::lemma_json_view;

    let mut headers: Vec<Json> = Vec::new();
    let mut i: usize = 0;
    while i < ir.headers.len()
        invariant
            i <= ir.headers.len(),
            headers.len() == i,
            forall|k: int| 0 <= k < i ==> (#[trigger] headers@[k])@ == header_json(ir.headers@[k]@),
        decreases ir.headers.len() - i,
    {
        headers.push(header_value_json(ir.headers[i].name.as_str(), ir.headers[i].value.as_str()));
        i += 1;
    }
    assert(views(headers@) =~= headers_json(ir@.headers)->Array_0);
    let mut pairs = no_members();
    member_of(&mut pairs, "headers", Json::Array(headers));
    member_of(&mut pairs, "method", Json::String(ir.method.as_str().to_owned()));
    member_of(&mut pairs, "url", Json::String(ir.url.clone()));
    let r = object(pairs);
    assert(r@->Object_0 =~= request_json(ir@)->Object_0);
    r
}

/// The context of a hook or a mock.
pub fn before_ctx(ir: &ResolvedRequest) -> (r: Json)
    ensures
        r@ == before_context(ir@),
{
    broadcast use crate::json::lemma_json_view;

    let mut pairs = no_members();
    member_of(&mut pairs, "bindings", ir.bindings.copy());
    member_of(&mut pairs, "request", request_ctx(ir));
    let r = object(pairs);
    assert(r@->Object_0 =~= before_context(ir@)->Object_0);
    r
}

/// A response as assets see it.
pub fn response_ctx(response: &ResponseView) -> (r: Json)
    ensures
        r@ == response_json(response@),
{
    broadcast use crate::json::lemma_json_view;

    let mut headers: Vec<Json> = Vec::new();
    let mut i: usize = 0;
    while i < response.headers.len()
        invariant
            i <= response.headers.len(),
            headers.len() == i,
            forall|k: int| 0 <= k < i ==> (#[trigger] headers@[k])@ == header_json(response@.headers[k]),
        decreases response.headers.len() - i,
    {
        headers.push(header_value_json(response.headers[i].0.as_str(), response.headers[i].1.as_str()));
        i += 1;
    }
    assert(views(headers@) =~= headers_json(response@.headers)->Array_0);
    let body = match response.json() {
        Some(v) => v,
        None => Json::Null,
    };
    let mut pairs = no_members();
    member_of(&mut pairs, "body", body);
    member_of(&mut pairs, "bodyText", Json::String(response.text()));
    member_of(&mut pairs, "headers", Json::Array(headers));
    member_of(&mut pairs, "status", Json::Number(Num::Pos(response.status as u64)));
    member_of(&mut pairs, "timeMs", Json::Number(Num::Pos(response.time_ms)));
    let r = object(pairs);
    assert(r@->Object_0 =~= response_json(response@)->Object_0);
    r
}

/// The response in an option, by its view.
pub open spec fn response_opt(response: Option<&ResponseView>) -> Option<ResponseV> {
    match response {
        Some(r) => Some(r@),
        None => None,
    }
}

/// The context of an assertion or extractor.
pub fn after_ctx(ir: &ResolvedRequest, response: Option<&ResponseView>, error: Option<&str>) -> (r: Json)
    ensures
        r@ == after_context(ir@, response_opt(response), ref_view(error)),
{
    broadcast use crate::json::lemma_json_view;

    let seen = match response {
        Some(r) => response_ctx(r),
        None => Json::Null,
    };
    let fault = match error {
        Some(e) => Json::String(e.to_owned()),
        None => Json::Null,
    };
    let mut pairs = no_members();
    member_of(&mut pairs, "bindings", ir.bindings.copy());
    member_of(&mut pairs, "error", fault);
    member_of(&mut pairs, "request", request_ctx(ir));
    member_of(&mut pairs, "response", seen);
    let r = object(pairs);
    assert(r@->Object_0 =~= after_context(ir@, response_opt(response), ref_view(error))->Object_0);
    r
}

// ---------------------------------------------------------------------
// Hooks
// ---------------------------------------------------------------------

/// The header that an item of a hook's list names.
pub open spec fn header_item(item: JsonV) -> Option<(Seq<char>, Seq<char>)> {
    match (text_member(item, "name"@), text_member(item, "value"@)) {
        (Some(name), Some(value)) => Some((name, value)),
        _ => None,
    }
}

/// The headers that a list names, if each item names one.
pub open spec fn header_items(items: Seq<JsonV>) -> Option<Seq<(Seq<char>, Seq<char>)>>
    decreases items.len(),
{
    if items.len() == 0 {
        Some(seq![])
    } else {
        match (header_items(items.drop_last()), header_item(items.last())) {
            (Some(before), Some(h)) => Some(before.push(h)),
            _ => None,
        }
    }
}

/// What the return value of a hook means: a new URL, headers to set, or an
/// error where a header has no name or no value.
pub open spec fn hook_meaning(out: JsonV, raw: Seq<char>) -> Result<PatchV, DiagnosticV> {
    match header_items(opt_or(items_in(member(out, "headers"@)), seq![])) {
        Some(headers) => Ok(PatchV { headers, url: text_member(out, "url"@) }),
        None => Err(
            diag(Code::AssetError, "hook returned a header without string name/value"@).with_ref(raw),
        ),
    }
}

/// A patch by the views of its two sides.
pub open spec fn patch_view(r: Result<RequestPatch, Diagnostic>) -> Result<PatchV, DiagnosticV> {
    match r {
        Ok(patch) => Ok(patch@),
        Err(d) => Err(d@),
    }
}

/// A list with an item that names no header names no headers.
proof fn lemma_header_items_cut(items: Seq<JsonV>, n: int)
    requires
        0 <= n < items.len(),
        header_item(items[n]) is None,
    ensures
        header_items(items) is None,
    decreases items.len(),
{
    if n < items.len() - 1 {
        lemma_header_items_cut(items.drop_last(), n);
    }
}

/// Read the return value of a hook.
pub fn read_hook(out: &Json, raw: &str) -> (r: Result<RequestPatch, Diagnostic>)
    ensures
        patch_view(r) == hook_meaning(out@, raw@),
{
    broadcast use group_views;

    let url = own(out.get_str("url"));
    let mut headers: Vec<ResolvedHeader> = Vec::new();
    if let Some(list) = out.get("headers") {
        if let Some(items) = list.as_array() {
            let ghost all = views(items@);
            let mut i: usize = 0;
            assert(all.take(0) =~= Seq::<JsonV>::empty());
            while i < items.len()
                invariant
                    i <= items.len(),
                    all == views(items@),
                    items_in(member(out@, "headers"@)) == Some(all),
                    header_items(all.take(i as int)) == Some(views(headers@)),
                decreases items.len() - i,
            {
                assert(all.take(i + 1).drop_last() =~= all.take(i as int));
                assert(all.take(i + 1).last() == items@[i as int]@);
                match (items[i].get_str("name"), items[i].get_str("value")) {
                    (Some(name), Some(value)) => {
                        headers.push(ResolvedHeader { name: name.to_owned(), value: value.to_owned() });
                    },
                    _ => {
                        proof {
                            lemma_header_items_cut(all, i as int);
                        }
                        return Err(
                            Diagnostic::new(
                                Code::AssetError,
                                "hook returned a header without string name/value".to_owned(),
                            ).with_ref(raw),
                        );
                    },
                }
                i += 1;
            }
            assert(all.take(i as int) =~= all);
        }
    }
    Ok(RequestPatch { headers, url })
}

// ---------------------------------------------------------------------
// Assertions and extractors
// ---------------------------------------------------------------------

/// The assertion result that an item means: it has a boolean `passed`.
pub open spec fn assertion_item(item: JsonV, raw: Seq<char>) -> Result<AssertionV, DiagnosticV> {
    match member(item, "passed"@) {
        Some(JsonV::Bool(passed)) => Ok(
            AssertionV {
                passed,
                message: opt_or(text_member(item, "message"@), "(no message)"@),
                expected: member(item, "expected"@),
                actual: member(item, "actual"@),
                path: text_member(item, "path"@),
            },
        ),
        _ => Err(diag(Code::AssetError, "assertion result must have a boolean `passed`"@).with_ref(raw)),
    }
}

/// The assertion results that a list means.
pub open spec fn assertion_items(items: Seq<JsonV>, raw: Seq<char>) -> Result<Seq<AssertionV>, DiagnosticV>
    decreases items.len(),
{
    if items.len() == 0 {
        Ok(seq![])
    } else {
        match assertion_items(items.drop_last(), raw) {
            Err(d) => Err(d),
            Ok(before) => match assertion_item(items.last(), raw) {
                Err(d) => Err(d),
                Ok(a) => Ok(before.push(a)),
            },
        }
    }
}

/// The runtime values that a return value asks to write.
pub open spec fn runtime_of(out: JsonV) -> Seq<(Seq<char>, JsonV)> {
    put_all(seq![], opt_or(pairs_in(member(out, "runtime"@)), seq![]))
}

/// What the return value of an assertion or extractor means: an array or an
/// object with `passed` holds assertion results, an object with `runtime`
/// holds values to write, null holds nothing.
pub open spec fn reaction_meaning(out: JsonV, raw: Seq<char>) -> Result<ReactionV, DiagnosticV> {
    let results = match out {
        JsonV::Array(items) => assertion_items(items, raw),
        JsonV::Null => Ok(seq![]),
        _ => if member(out, "passed"@) is Some {
            assertion_items(seq![out], raw)
        } else if member(out, "runtime"@) is Some {
            Ok(seq![])
        } else {
            Err(diag(Code::AssetError, "unrecognized afterResponse asset result: "@ + printed(out)).with_ref(raw))
        },
    };
    match results {
        Ok(results) => Ok((results, runtime_of(out))),
        Err(d) => Err(d),
    }
}

/// An error in the front of a list is the error of the list.
proof fn lemma_assertion_items_cut(items: Seq<JsonV>, raw: Seq<char>, n: int)
    requires
        0 <= n <= items.len(),
        assertion_items(items.take(n), raw) is Err,
    ensures
        assertion_items(items, raw) == assertion_items(items.take(n), raw),
    decreases items.len() - n,
{
    if n == items.len() {
        assert(items.take(n) =~= items);
    } else {
        assert(items.take(n + 1).drop_last() =~= items.take(n));
        lemma_assertion_items_cut(items, raw, n + 1);
    }
}

/// Read one assertion result.
pub fn read_assertion(item: &Json, raw: &str) -> (r: Result<AssertionResult, Diagnostic>)
    ensures
        assertion_item(item@, raw@) == match r {
            Ok(a) => Ok::<AssertionV, DiagnosticV>(a@),
            Err(d) => Err::<AssertionV, DiagnosticV>(d@),
        },
{
    let passed = match item.get("passed") {
        Some(v) => v.as_bool(),
        None => None,
    };
    match passed {
        Some(passed) => Ok(
            AssertionResult {
                passed,
                message: text_or(item.get_str("message"), "(no message)").to_owned(),
                expected: own_json(item.get("expected")),
                actual: own_json(item.get("actual")),
                path: own(item.get_str("path")),
            },
        ),
        None => Err(
            Diagnostic::new(
                Code::AssetError,
                "assertion result must have a boolean `passed`".to_owned(),
            ).with_ref(raw),
        ),
    }
}

/// Assertion results by the views of its two sides.
pub open spec fn assertions_view(r: Result<Vec<AssertionResult>, Diagnostic>) -> Result<
    Seq<AssertionV>,
    DiagnosticV,
> {
    match r {
        Ok(list) => Ok(views(list@)),
        Err(d) => Err(d@),
    }
}

/// Read a list of assertion results.
pub fn read_assertions(items: &Vec<Json>, raw: &str) -> (r: Result<Vec<AssertionResult>, Diagnostic>)
    ensures
        assertions_view(r) == assertion_items(views(items@), raw@),
{
    broadcast use group_views;

    let ghost all = views(items@);
    let mut out: Vec<AssertionResult> = Vec::new();
    let mut i: usize = 0;
    assert(all.take(0) =~= Seq::<JsonV>::empty());
    while i < items.len()
        invariant
            i <= items.len(),
            all == views(items@),
            assertion_items(all.take(i as int), raw@) == Ok::<Seq<AssertionV>, DiagnosticV>(views(out@)),
        decreases items.len() - i,
    {
        assert(all.take(i + 1).drop_last() =~= all.take(i as int));
        assert(all.take(i + 1).last() == items@[i as int]@);
        match read_assertion(&items[i], raw) {
            Ok(a) => {
                let ghost before = views(out@);
                let ghost item = a@;
                out.push(a);
                assert(views(out@) == before.push(item));
            },
            Err(d) => {
                proof {
                    lemma_assertion_items_cut(all, raw@, i + 1);
                }
                return Err(d);
            },
        }
        i += 1;
    }
    assert(all.take(i as int) =~= all);
    Ok(out)
}

/// Read the runtime values that a return value asks to write.
pub fn read_runtime(out: &Json) -> (r: TextMap<Json>)
    ensures
        r@ == runtime_of(out@),
        ascending(r@),
{
    let mut runtime: TextMap<Json> = TextMap::new();
    proof {
        lemma_put_all_keeps_order(Seq::<(Seq<char>, JsonV)>::empty(), opt_or(pairs_in(member(out@, "runtime"@)), seq![]));
    }
    if let Some(v) = out.get("runtime") {
        if let Some(pairs) = v.as_object() {
            let ghost all = pairs_view(pairs@);
            let mut i: usize = 0;
            assert(all.take(0) =~= Seq::empty());
            while i < pairs.len()
                invariant
                    i <= pairs.len(),
                    all == pairs_view(pairs@),
                    runtime@ == put_all(seq![], all.take(i as int)),
                decreases pairs.len() - i,
            {
                assert(all.take(i + 1).drop_last() =~= all.take(i as int));
                assert(all.take(i + 1).last() == all[i as int]);
                let _ = runtime.insert(pairs[i].0.clone(), pairs[i].1.copy());
                i += 1;
            }
            assert(all.take(i as int) =~= all);
        }
    }
    runtime
}

/// Read the return value of an assertion or extractor.
pub fn read_reaction(out: &Json, raw: &str) -> (r: Result<(Vec<AssertionResult>, TextMap<Json>), Diagnostic>)
    ensures
        crate::reqv1::pipeline::reaction_view(r) == reaction_meaning(out@, raw@),
{
    broadcast use group_views;
    broadcast use crate::json::lemma_json_view;

    let runtime = read_runtime(out);
    let results = match out {
        Json::Array(items) => read_assertions(items, raw),
        Json::Null => Ok(Vec::new()),
        _ => {
            if out.get("passed").is_some() {
                let mut one: Vec<Json> = Vec::new();
                one.push(out.copy());
                assert(views(one@) =~= seq![out@]);
                read_assertions(&one, raw)
            } else if out.get("runtime").is_some() {
                Ok(Vec::new())
            } else {
                let message = cat2("unrecognized afterResponse asset result: ", print(out).as_str());
                Err(Diagnostic::new(Code::AssetError, message).with_ref(raw))
            }
        },
    };
    match results {
        Ok(results) => Ok((results, runtime)),
        Err(d) => Err(d),
    }
}

// ---------------------------------------------------------------------
// Mocks
// ---------------------------------------------------------------------

/// The headers that a list names; an item that names none is passed over.
pub open spec fn header_items_among(items: Seq<JsonV>) -> Seq<(Seq<char>, Seq<char>)>
    decreases items.len(),
{
    if items.len() == 0 {
        seq![]
    } else {
        let before = header_items_among(items.drop_last());
        match header_item(items.last()) {
            Some(h) => before.push(h),
            None => before,
        }
    }
}

/// What the return value of a mock means: a status, headers, and the JSON
/// text of a body.
pub open spec fn mock_meaning(out: JsonV, raw: Seq<char>) -> Result<ResponseV, DiagnosticV> {
    match nat_in(member(out, "status"@)) {
        None => Err(diag(Code::AssetError, "mock asset must return { status, ... }"@).with_ref(raw)),
        Some(status) => Ok(
            ResponseV {
                status: status as u16,
                headers: header_items_among(opt_or(items_in(member(out, "headers"@)), seq![])),
                body: match member(out, "body"@) {
                    Some(body) => encode_utf8(printed(body)),
                    None => seq![],
                },
                time_ms: 0,
            },
        ),
    }
}

/// A response by the views of its two sides.
pub open spec fn response_result(r: Result<ResponseView, Diagnostic>) -> Result<ResponseV, DiagnosticV> {
    match r {
        Ok(response) => Ok(response@),
        Err(d) => Err(d@),
    }
}

/// Read the return value of a mock.
pub fn read_mock(out: &Json, raw: &str) -> (r: Result<ResponseView, Diagnostic>)
    ensures
        response_result(r) == mock_meaning(out@, raw@),
{
    let status = match out.get("status") {
        Some(v) => v.as_u64(),
        None => None,
    };
    let status: u64 = match status {
        Some(n) => n,
        None => {
            return Err(
                Diagnostic::new(Code::AssetError, "mock asset must return { status, ... }".to_owned()).with_ref(raw),
            );
        },
    };
    let mut headers: Vec<(String, String)> = Vec::new();
    assert(text_pairs(headers@) =~= seq![]);
    if let Some(list) = out.get("headers") {
        if let Some(items) = list.as_array() {
            let ghost all = views(items@);
            let mut i: usize = 0;
            assert(all.take(0) =~= Seq::<JsonV>::empty());
            while i < items.len()
                invariant
                    i <= items.len(),
                    all == views(items@),
                    header_items_among(all.take(i as int)) == text_pairs(headers@),
                decreases items.len() - i,
            {
                assert(all.take(i + 1).drop_last() =~= all.take(i as int));
                assert(all.take(i + 1).last() == items@[i as int]@);
                match (items[i].get_str("name"), items[i].get_str("value")) {
                    (Some(name), Some(value)) => {
                        let ghost before = text_pairs(headers@);
                        headers.push((name.to_owned(), value.to_owned()));
                        assert(text_pairs(headers@) =~= before.push((name@, value@)));
                    },
                    _ => {},
                }
                i += 1;
            }
            assert(all.take(i as int) =~= all);
        }
    }
    let body: Vec<u8> = match out.get("body") {
        Some(body) => bytes_of(print(body).as_str()),
        None => Vec::new(),
    };
    Ok(ResponseView { status: status as u16, headers, body, time_ms: 0 })
}

} // verus!
