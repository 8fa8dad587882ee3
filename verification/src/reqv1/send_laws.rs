//! What holds of a request document's request as it is sent, of its mock, and of
//! what scripts are told and what their answers mean.

use vstd::prelude::*;
use vstd::utf8::encode_utf8;

use crate::exec::ExecBodyV;
use crate::json::{member, printed, JsonV, NumV};
use crate::map::lookup;
use crate::selection::{lemma_picks_more, lemma_picks_none, picks};
use crate::text::{occurs, same_ignoring_case};
use crate::words::{joined, percent_bytes};

use super::diag::{Code, DiagnosticV, Severity};
use super::ir::{BodyV, MockV, RequestV};
use super::jshost::{may_answer, script_at, AnswerV, ScriptV};
use super::meaning::{
    after_context, assertion_items, before_context, header_items, header_items_among, hook_meaning, mock_meaning,
    reaction_meaning, request_json, response_json, runtime_of,
};
use super::outgoing::{may_serve, mock_body, sent_request, with_query};
use super::pipeline::{AssertionV, ResponseV};

verus! {

broadcast use vstd::string::group_string_axioms;

// ---------------------------------------------------------------------
// The request as it is sent
// ---------------------------------------------------------------------

/// A query parameter is appended as `name=value`, both percent-encoded: behind
/// `?` where the URL has none yet, behind `&` where it has one.
pub proof fn lemma_query_is_appended_in_order(
    url: Seq<char>,
    query: Seq<(Seq<char>, Seq<char>)>,
    name: Seq<char>,
    value: Seq<char>,
)
    ensures
        with_query(url, seq![]) == url,
        ({
            let before = with_query(url, query);
            let pair = percent_bytes(encode_utf8(name)) + "="@ + percent_bytes(encode_utf8(value));
            let after = with_query(url, query.push((name, value)));
            &&& before.contains('?') ==> after == before + "&"@ + pair
            &&& !before.contains('?') ==> after == before + "?"@ + pair
        }),
{
    assert(query.push((name, value)).drop_last() =~= query);
    let before = with_query(url, query);
    reveal_strlit("?");
    let pair = percent_bytes(encode_utf8(name)) + "="@ + percent_bytes(encode_utf8(value));
    if before.contains('?') {
        let i = choose|i: int| 0 <= i < before.len() && before[i] == '?';
        assert(before.subrange(i, i + 1) =~= "?"@);
        assert(crate::text::occurs_at(before, "?"@, i));
        assert(occurs(before, "?"@));
        assert(with_query(url, query.push((name, value))) =~= before + "&"@ + pair);
    } else {
        if occurs(before, "?"@) {
            let i = choose|i: int| crate::text::occurs_at(before, "?"@, i);
            assert(before.subrange(i, i + 1)[0] == '?');
            assert(before.contains(before[i]));
        }
        assert(with_query(url, query.push((name, value))) =~= before + "?"@ + pair);
    }
}

/// A request names its content type itself.
pub open spec fn names_type(request: RequestV) -> bool {
    exists|i: int|
        0 <= i < request.headers.len() && same_ignoring_case((#[trigger] request.headers[i]).0, "content-type"@)
}

/// A request is sent with its method, its URL and query, and its headers. Its
/// body is sent as what it is: JSON printed, a text as it is, a form as its
/// fields; the content type comes with it unless a header names one.
pub proof fn lemma_request_is_sent_as_it_is(request: RequestV)
    ensures
        ({
            let sent = sent_request(request);
            &&& sent.method == request.method
            &&& sent.url == with_query(request.url, request.query)
            &&& sent.headers == request.headers
            &&& request.body is Empty ==> sent.body == ExecBodyV::Empty
            &&& request.body matches BodyV::Form(fields) ==> sent.body == ExecBodyV::Form(fields)
            &&& request.body matches BodyV::Json(v) ==> (sent.body matches ExecBodyV::Bytes { content_type, data } && data
                == encode_utf8(printed(v)) && (names_type(request) ==> content_type is None) && (!names_type(request)
                ==> content_type == Some("application/json"@)))
            &&& request.body matches BodyV::Text(s) ==> (sent.body matches ExecBodyV::Bytes { content_type, data } && data
                == encode_utf8(s) && (names_type(request) ==> content_type is None) && (!names_type(request)
                ==> content_type == Some("text/plain"@)))
            &&& sent.timeout_ms == 30_000 && sent.follow_redirects && sent.max_redirects == 10 && sent.verify_tls
                && sent.proxy is None
        }),
{
    assert(names_type(request) == super::outgoing::has_header(request.headers, "content-type"@));
}

// ---------------------------------------------------------------------
// Mocks
// ---------------------------------------------------------------------

/// The body of a mock: JSON printed, a text as it is, or the fields of a form as
/// `name=value` with `&` between them.
pub proof fn lemma_mock_body_is_what_is_written(body: BodyV)
    ensures
        body is Empty ==> mock_body(body).len() == 0,
        body matches BodyV::Json(v) ==> mock_body(body) == encode_utf8(printed(v)),
        body matches BodyV::Text(s) ==> mock_body(body) == encode_utf8(s),
        body matches BodyV::Form(fields) ==> exists|parts: Seq<Seq<char>>|
            parts.len() == fields.len() && (forall|i: int|
                0 <= i < parts.len() ==> #[trigger] parts[i] == fields[i].0 + "="@ + fields[i].1) && mock_body(body)
                == encode_utf8(#[trigger] joined(parts, "&"@)),
{
    if let BodyV::Form(fields) = body {
        let parts = super::outgoing::form_fields(fields);
        assert(mock_body(body) == encode_utf8(joined(parts, "&"@)));
    }
}

/// A mock that is written down answers what is written, after the delay that is
/// written. One with a script answers what the script's answer means, after the
/// delay in it.
pub proof fn lemma_mock_answers_what_is_written(
    mock: MockV,
    request: RequestV,
    scripts: Seq<(Seq<char>, ScriptV)>,
    outcome: Result<(ResponseV, u64), DiagnosticV>,
)
    requires
        may_serve(mock, request, scripts, outcome),
    ensures
        mock matches MockV::Static { status, headers, body, delay_ms } ==> (outcome matches Ok(o) && o.0.status == status
            && o.0.headers == headers && o.0.body == mock_body(body) && o.0.time_ms == 0 && o.1 == delay_ms),
        mock matches MockV::Dynamic { asset, input } ==> exists|answer: AnswerV| #[trigger]
            may_answer(asset.address, script_at(scripts, asset.address), before_context(request), input, answer)
                && match answer {
                Err(d) => outcome == Err::<(ResponseV, u64), DiagnosticV>(
                    DiagnosticV { asset_ref: Some(asset.raw), ..d },
                ),
                Ok(reply) => match mock_meaning(reply.0, asset.raw) {
                    Err(d) => outcome == Err::<(ResponseV, u64), DiagnosticV>(d),
                    Ok(r) => outcome matches Ok(o) && o.0 == r && o.1 == match member(reply.0, "delayMs"@) {
                        Some(JsonV::Number(NumV::Pos(n))) => n,
                        _ => 0,
                    },
                },
            },
{
}

// ---------------------------------------------------------------------
// What scripts are told
// ---------------------------------------------------------------------

/// Headers as a script sees them: a list of objects with the name and value of
/// each, in order.
pub open spec fn shows_headers(v: JsonV, headers: Seq<(Seq<char>, Seq<char>)>) -> bool {
    v matches JsonV::Array(items) && items.len() == headers.len() && forall|i: int|
        #![trigger items[i]]
        0 <= i < items.len() ==> member(items[i], "name"@) == Some(JsonV::String(headers[i].0)) && member(
            items[i],
            "value"@,
        ) == Some(JsonV::String(headers[i].1))
}

proof fn lemma_found(pairs: Seq<(Seq<char>, JsonV)>, key: Seq<char>, i: int)
    requires
        0 <= i < pairs.len() <= 5,
        pairs[i].0 == key,
        forall|j: int| 0 <= j < i ==> (#[trigger] pairs[j]).0 != key,
    ensures
        lookup(pairs, key) == Some(pairs[i].1),
{
    crate::map::lemma_first_binding_counts(pairs, key);
    assert(pairs[i].0 == key);
}

proof fn lemma_headers_shown(headers: Seq<(Seq<char>, Seq<char>)>)
    ensures
        shows_headers(super::meaning::headers_json(headers), headers),
{
    reveal_strlit("name");
    reveal_strlit("value");
    let items = super::meaning::headers_json(headers)->Array_0;
    assert forall|i: int|
        #![trigger items[i]]
        0 <= i < items.len() implies member(items[i], "name"@) == Some(JsonV::String(headers[i].0)) && member(
        items[i],
        "value"@,
    ) == Some(JsonV::String(headers[i].1)) by {
        let pairs = items[i]->Object_0;
        assert("name"@.len() == 4 && "value"@.len() == 5);
        lemma_found(pairs, "name"@, 0);
        lemma_found(pairs, "value"@, 1);
    }
}

/// A script sees the method, the URL and the headers of the request.
pub proof fn lemma_script_sees_the_request(request: RequestV)
    ensures
        member(request_json(request), "method"@) == Some(JsonV::String(request.method.name())),
        member(request_json(request), "url"@) == Some(JsonV::String(request.url)),
        member(request_json(request), "headers"@) matches Some(v) && shows_headers(v, request.headers),
        member(before_context(request), "request"@) == Some(request_json(request)),
        member(before_context(request), "bindings"@) == Some(request.bindings),
{
    reveal_strlit("headers");
    reveal_strlit("method");
    reveal_strlit("url");
    reveal_strlit("bindings");
    reveal_strlit("request");
    assert("headers"@.len() == 7 && "method"@.len() == 6 && "url"@.len() == 3 && "bindings"@.len() == 8 && "request"@.len()
        == 7);
    let pairs = request_json(request)->Object_0;
    lemma_found(pairs, "headers"@, 0);
    lemma_found(pairs, "method"@, 1);
    lemma_found(pairs, "url"@, 2);
    let context = before_context(request)->Object_0;
    lemma_found(context, "bindings"@, 0);
    lemma_found(context, "request"@, 1);
    lemma_headers_shown(request.headers);
}

/// A script sees the status, the time, the headers and the body of the response:
/// the body as a text, and as JSON where it is JSON.
pub proof fn lemma_script_sees_the_response(response: ResponseV)
    ensures
        member(response_json(response), "status"@) == Some(JsonV::Number(NumV::Pos(response.status as u64))),
        member(response_json(response), "timeMs"@) == Some(JsonV::Number(NumV::Pos(response.time_ms))),
        member(response_json(response), "headers"@) matches Some(v) && shows_headers(v, response.headers),
        member(response_json(response), "body"@) == Some(
            match super::pipeline_laws::json_in(response.body) {
                Some(v) => v,
                None => JsonV::Null,
            },
        ),
        member(response_json(response), "bodyText"@) == Some(JsonV::String(crate::words::lossy_text(response.body))),
{
    reveal_strlit("body");
    reveal_strlit("bodyText");
    reveal_strlit("headers");
    reveal_strlit("status");
    reveal_strlit("timeMs");
    assert("body"@.len() == 4 && "bodyText"@.len() == 8 && "headers"@.len() == 7 && "status"@[0] == 's' && "timeMs"@[0]
        == 't' && "status"@.len() == 6 && "timeMs"@.len() == 6);
    let pairs = response_json(response)->Object_0;
    lemma_found(pairs, "body"@, 0);
    lemma_found(pairs, "bodyText"@, 1);
    lemma_found(pairs, "headers"@, 2);
    lemma_found(pairs, "status"@, 3);
    lemma_found(pairs, "timeMs"@, 4);
    lemma_headers_shown(response.headers);
}

/// After the request was sent a script sees the request, the response where
/// there is one, and the error where there is one.
pub proof fn lemma_script_sees_what_happened(request: RequestV, response: Option<ResponseV>, error: Option<Seq<char>>)
    ensures
        ({
            let context = after_context(request, response, error);
            &&& member(context, "request"@) == Some(request_json(request))
            &&& member(context, "bindings"@) == Some(request.bindings)
            &&& response matches Some(r) ==> member(context, "response"@) == Some(response_json(r))
            &&& response is None ==> member(context, "response"@) == Some(JsonV::Null)
            &&& error matches Some(e) ==> member(context, "error"@) == Some(JsonV::String(e))
            &&& error is None ==> member(context, "error"@) == Some(JsonV::Null)
        }),
{
    reveal_strlit("bindings");
    reveal_strlit("error");
    reveal_strlit("request");
    reveal_strlit("response");
    assert("bindings"@[0] == 'b' && "error"@.len() == 5 && "request"@.len() == 7 && "response"@[0] == 'r' && "response"@.len()
        == 8);
    let pairs = after_context(request, response, error)->Object_0;
    lemma_found(pairs, "bindings"@, 0);
    lemma_found(pairs, "error"@, 1);
    lemma_found(pairs, "request"@, 2);
    lemma_found(pairs, "response"@, 3);
}

// ---------------------------------------------------------------------
// What answers mean
// ---------------------------------------------------------------------

/// An item that is a header: an object with a text as its name and one as its
/// value.
pub open spec fn is_header(item: JsonV, h: (Seq<char>, Seq<char>)) -> bool {
    member(item, "name"@) == Some(JsonV::String(h.0)) && member(item, "value"@) == Some(JsonV::String(h.1))
}

/// An item that is no header: its name or its value is no text.
pub open spec fn is_no_header(item: JsonV) -> bool {
    !(member(item, "name"@) matches Some(JsonV::String(_))) || !(member(item, "value"@) matches Some(JsonV::String(_)))
}

/// The list under `headers`, an empty one where there is no list.
pub open spec fn listed_headers(out: JsonV) -> Seq<JsonV> {
    match member(out, "headers"@) {
        Some(JsonV::Array(items)) => items,
        _ => seq![],
    }
}

proof fn lemma_header_items(items: Seq<JsonV>)
    ensures
        match header_items(items) {
            Some(headers) => headers.len() == items.len() && forall|i: int|
                0 <= i < items.len() ==> is_header(#[trigger] items[i], headers[i]),
            None => exists|i: int|
                0 <= i < items.len() && is_no_header(#[trigger] items[i]),
        },
    decreases items.len(),
{
    if items.len() > 0 {
        let less = items.drop_last();
        lemma_header_items(less);
        let n = items.len() - 1;
        match header_items(items) {
            Some(headers) => {
                assert forall|i: int| 0 <= i < items.len() implies is_header(#[trigger] items[i], headers[i]) by {
                    if i < n {
                        assert(less[i] == items[i]);
                        assert(headers[i] == header_items(less)->Some_0[i]);
                    }
                }
            },
            None => {
                if header_items(less) is None {
                    let i = choose|i: int|
                        0 <= i < less.len() && is_no_header(#[trigger] less[i]);
                    assert(items[i] == less[i]);
                } else {
                    assert(is_no_header(items[n]));
                }
            },
        }
    }
}

/// The answer of a hook sets the headers it lists, all of them and in order, and
/// the URL where it gives one. A header without a name or a value is an error.
pub proof fn lemma_hook_answer_means_its_headers(out: JsonV, raw: Seq<char>)
    ensures
        match hook_meaning(out, raw) {
            Ok(patch) => {
                let items = listed_headers(out);
                &&& patch.headers.len() == items.len()
                &&& forall|i: int| 0 <= i < items.len() ==> is_header(#[trigger] items[i], patch.headers[i])
                &&& match member(out, "url"@) {
                    Some(JsonV::String(url)) => patch.url == Some(url),
                    _ => patch.url is None,
                }
            },
            Err(d) => d.code == Code::AssetError && d.severity == Severity::Error && d.asset_ref == Some(raw) && exists|i:
                int|
                0 <= i < listed_headers(out).len() && is_no_header(#[trigger] listed_headers(out)[i]),
        },
{
    lemma_header_items(listed_headers(out));
}

/// An assertion as a script reports it.
pub open spec fn is_assertion(item: JsonV, a: AssertionV) -> bool {
    &&& member(item, "passed"@) == Some(JsonV::Bool(a.passed))
    &&& a.message == match member(item, "message"@) {
        Some(JsonV::String(s)) => s,
        _ => "(no message)"@,
    }
    &&& a.expected == member(item, "expected"@)
    &&& a.actual == member(item, "actual"@)
    &&& a.path == match member(item, "path"@) {
        Some(JsonV::String(s)) => Some(s),
        _ => None,
    }
}

proof fn lemma_assertion_items(items: Seq<JsonV>, raw: Seq<char>)
    ensures
        match assertion_items(items, raw) {
            Ok(list) => list.len() == items.len() && forall|i: int|
                0 <= i < items.len() ==> is_assertion(#[trigger] items[i], list[i]),
            Err(d) => d.code == Code::AssetError && d.severity == Severity::Error && d.asset_ref == Some(raw) && exists|i:
                int|
                0 <= i < items.len() && !(member(#[trigger] items[i], "passed"@) matches Some(JsonV::Bool(_))),
        },
    decreases items.len(),
{
    if items.len() > 0 {
        let less = items.drop_last();
        lemma_assertion_items(less, raw);
        let n = items.len() - 1;
        match assertion_items(items, raw) {
            Ok(list) => {
                assert forall|i: int| 0 <= i < items.len() implies is_assertion(#[trigger] items[i], list[i]) by {
                    if i < n {
                        assert(less[i] == items[i]);
                        assert(list[i] == assertion_items(less, raw)->Ok_0[i]);
                    }
                }
            },
            Err(d) => {
                if assertion_items(less, raw) is Err {
                    let i = choose|i: int|
                        0 <= i < less.len() && !(member(#[trigger] less[i], "passed"@) matches Some(JsonV::Bool(_)));
                    assert(items[i] == less[i]);
                } else {
                    assert(items[n] == items.last());
                }
            },
        }
    }
}

/// The answer of an assertion is a list of results or one result, each with
/// whether it passed; null is none. Any answer may carry values to write. What
/// is neither is an error.
pub proof fn lemma_reaction_answer_means_its_results(out: JsonV, raw: Seq<char>)
    ensures
        match reaction_meaning(out, raw) {
            Ok(r) => {
                &&& out matches JsonV::Array(items) ==> r.0.len() == items.len() && forall|i: int|
                    0 <= i < items.len() ==> is_assertion(#[trigger] items[i], r.0[i])
                &&& out is Null ==> r.0.len() == 0
                &&& out is Object && member(out, "passed"@) is Some ==> r.0.len() == 1 && is_assertion(out, r.0[0])
                &&& out is Object && member(out, "passed"@) is None ==> r.0.len() == 0 && member(out, "runtime"@) is Some
                &&& !(out is Bool || out is Number || out is String)
                &&& r.1 == runtime_of(out)
            },
            Err(d) => d.code == Code::AssetError && d.severity == Severity::Error && d.asset_ref == Some(raw) && !(out
                is Null),
        },
        out is Object && member(out, "passed"@) is None && member(out, "runtime"@) is Some ==> reaction_meaning(out, raw)
            is Ok,
        member(out, "passed"@) matches Some(JsonV::Bool(_)) ==> reaction_meaning(out, raw) is Ok,
{
    match out {
        JsonV::Array(items) => lemma_assertion_items(items, raw),
        _ => {
            lemma_assertion_items(seq![out], raw);
            assert(seq![out][0] == out);
        },
    }
}

/// The values that an answer asks to write are those under `runtime`, the last
/// one of a key counting; what is not there is not written.
pub proof fn lemma_runtime_is_what_the_answer_lists(out: JsonV, pairs: Seq<(Seq<char>, JsonV)>, i: int, other: Seq<char>)
    requires
        member(out, "runtime"@) == Some(JsonV::Object(pairs)),
        0 <= i < pairs.len(),
        forall|j: int| i < j < pairs.len() ==> (#[trigger] pairs[j]).0 != pairs[i].0,
        forall|j: int| 0 <= j < pairs.len() ==> (#[trigger] pairs[j]).0 != other,
    ensures
        lookup(runtime_of(out), pairs[i].0) == Some(pairs[i].1),
        lookup(runtime_of(out), other) is None,
{
    lemma_put_last(pairs, i);
    lemma_put_none(pairs, other);
}

/// Where there is no object under `runtime`, there is nothing to write.
pub proof fn lemma_no_runtime_writes_nothing(out: JsonV)
    requires
        !(member(out, "runtime"@) matches Some(JsonV::Object(_))),
    ensures
        runtime_of(out).len() == 0,
{
}

proof fn lemma_put_last(pairs: Seq<(Seq<char>, JsonV)>, i: int)
    requires
        0 <= i < pairs.len(),
        forall|j: int| i < j < pairs.len() ==> (#[trigger] pairs[j]).0 != pairs[i].0,
    ensures
        lookup(crate::map::put_all(seq![], pairs), pairs[i].0) == Some(pairs[i].1),
    decreases pairs.len(),
{
    let less = pairs.drop_last();
    let before = crate::map::put_all(Seq::<(Seq<char>, JsonV)>::empty(), less);
    let last = pairs[pairs.len() - 1];
    if i == pairs.len() - 1 {
        crate::map::lemma_put_is_read_back(before, last.0, last.1);
    } else {
        crate::map::lemma_put_leaves_others(before, last.0, last.1, pairs[i].0);
        assert forall|j: int| i < j < less.len() implies (#[trigger] less[j]).0 != less[i].0 by {
            assert(less[j] == pairs[j]);
        }
        lemma_put_last(less, i);
    }
}

proof fn lemma_put_none(pairs: Seq<(Seq<char>, JsonV)>, key: Seq<char>)
    requires
        forall|j: int| 0 <= j < pairs.len() ==> (#[trigger] pairs[j]).0 != key,
    ensures
        lookup(crate::map::put_all(seq![], pairs), key) is None,
    decreases pairs.len(),
{
    if pairs.len() > 0 {
        let less = pairs.drop_last();
        let before = crate::map::put_all(Seq::<(Seq<char>, JsonV)>::empty(), less);
        let last = pairs[pairs.len() - 1];
        crate::map::lemma_put_leaves_others(before, last.0, last.1, key);
        assert forall|j: int| 0 <= j < less.len() implies (#[trigger] less[j]).0 != key by {
            assert(less[j] == pairs[j]);
        }
        lemma_put_none(less, key);
    }
}

/// The answer of a mock is a response where it has a status: that status, the
/// headers that are headers, and its body as JSON. Without a status it is an
/// error.
pub proof fn lemma_mock_answer_means_a_response(out: JsonV, raw: Seq<char>)
    ensures
        mock_meaning(out, raw) is Ok <==> (member(out, "status"@) matches Some(JsonV::Number(NumV::Pos(_)))),
        mock_meaning(out, raw) matches Ok(r) ==> (member(out, "status"@) matches Some(JsonV::Number(NumV::Pos(n))) && (n
            <= u16::MAX ==> r.status == n)) && r.headers == header_items_among(listed_headers(out)) && r.body == match member(
            out,
            "body"@,
        ) {
            Some(v) => encode_utf8(printed(v)),
            None => seq![],
        } && r.time_ms == 0,
        mock_meaning(out, raw) matches Err(d) ==> d.code == Code::AssetError && d.severity == Severity::Error && d.asset_ref
            == Some(raw),
{
}

/// Of the headers of a mock's answer those count that have a name and a value.
pub proof fn lemma_mock_headers_are_those_complete(items: Seq<JsonV>)
    ensures
        picks(
            items,
            |item: JsonV| member(item, "name"@) matches Some(JsonV::String(_)) && (member(item, "value"@) matches Some(
                JsonV::String(_),
            )),
            |item: JsonV, h: (Seq<char>, Seq<char>)| is_header(item, h),
            header_items_among(items),
        ),
    decreases items.len(),
{
    let keep = |item: JsonV| member(item, "name"@) matches Some(JsonV::String(_)) && (member(item, "value"@) matches Some(
        JsonV::String(_),
    ));
    let fits = |item: JsonV, h: (Seq<char>, Seq<char>)| is_header(item, h);
    if items.len() == 0 {
        lemma_picks_none(items, keep, fits, header_items_among(items));
    } else {
        lemma_mock_headers_are_those_complete(items.drop_last());
        if keep(items.last()) {
            assert(header_items_among(items).drop_last() =~= header_items_among(items.drop_last()));
        }
        lemma_picks_more(items, keep, fits, header_items_among(items.drop_last()), header_items_among(items));
    }
}

} // verus!
