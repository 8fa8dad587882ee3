//! The builtin pipeline assets: hooks that change a request before it is
//! sent, and assertions and extractors that read a response.

use vstd::prelude::*;
use vstd::utf8::{decode_utf8, encode_utf8, valid_utf8};

use crate::exec::text_pairs;
use crate::json::{
    canonical, equal, from_tree, json_parse, member, nat_in, same_value, text_in, text_member, text_or, trees_json,
    value_json, Json, JsonV, Num, NumV,
};
use crate::map::TextMap;
use crate::reqv1::diag::{diag, Code, Diagnostic, DiagnosticV};
use crate::reqv1::ir::{EntryV, RefScheme, ResolvedHeader, ResolvedPipelineEntry, ResolvedRequest};
use crate::schema::schema_passes;
use crate::text::{cat2, cat3, cat4, cat5, contains, eq_ignore_case, occurs, same, same_ignoring_case};
use crate::view::{opt_or, opt_view, ref_view, views};
use crate::words::{bytes_of, decimal, lossy_text, number_text, quote, quoted, read_lossy};

verus! {

broadcast use vstd::string::group_string_axioms;

// ---------------------------------------------------------------------
// Responses
// ---------------------------------------------------------------------

/// A response, the same for HTTP and for mocks.
#[derive(Debug)]
pub struct ResponseView {
    pub status: u16,
    pub headers: Vec<(String, String)>,
    pub body: Vec<u8>,
    pub time_ms: u64,
}

/// What a [`ResponseView`] says.
pub struct ResponseV {
    pub status: u16,
    pub headers: Seq<(Seq<char>, Seq<char>)>,
    pub body: Seq<u8>,
    pub time_ms: u64,
}

impl View for ResponseView {
    type V = ResponseV;

    open spec fn view(&self) -> ResponseV {
        ResponseV {
            status: self.status,
            headers: text_pairs(self.headers@),
            body: self.body@,
            time_ms: self.time_ms,
        }
    }
}

/// The value of the first header called `name`, whatever the case.
pub open spec fn header_value(headers: Seq<(Seq<char>, Seq<char>)>, name: Seq<char>) -> Option<Seq<char>>
    decreases headers.len(),
{
    if headers.len() == 0 {
        None
    } else if same_ignoring_case(headers[0].0, name) {
        Some(headers[0].1)
    } else {
        header_value(headers.skip(1), name)
    }
}

/// The JSON value of a body: bytes that are not UTF-8 hold none.
pub open spec fn body_json(body: Seq<u8>) -> Option<JsonV> {
    if valid_utf8(body) {
        match json_parse(decode_utf8(body)) {
            Ok(v) => Some(v),
            Err(_) => None,
        }
    } else {
        None
    }
}

/// `serde_json::from_slice` reads bytes as one JSON value. It reads what
/// `serde_json::from_str` reads of their text, and nothing that is not UTF-8.
#[verifier::external_body]
fn read_tree_bytes(bytes: &Vec<u8>) -> (r: Option<serde_json::Value>)
    ensures
        body_json(bytes@) == match r {
            Some(v) => Some(value_json(v)),
            None => None,
        },
{
    serde_json::from_slice(bytes).ok()
}

impl ResponseView {
    /// The body as text; what is not UTF-8 becomes U+FFFD.
    pub fn text(&self) -> (r: String)
        ensures
            r@ == lossy_text(self.body@),
            valid_utf8(self.body@) ==> r@ == decode_utf8(self.body@),
            !valid_utf8(self.body@) ==> r@.contains('\u{FFFD}'),
    {
        read_lossy(&self.body)
    }

    /// The body as JSON, if it is JSON.
    pub fn json(&self) -> (r: Option<Json>)
        ensures
            opt_view(r) == body_json(self.body@),
    {
        match read_tree_bytes(&self.body) {
            Some(v) => Some(from_tree(v)),
            None => None,
        }
    }

    /// The value of the first header called `name`, whatever the case.
    pub fn header(&self, name: &str) -> (r: Option<&str>)
        ensures
            ref_view(r) == header_value(self@.headers, name@),
    {
        let ghost all = self@.headers;
        let mut i: usize = 0;
        assert(all.skip(0) =~= all);
        while i < self.headers.len()
            invariant
                i <= self.headers.len(),
                all == text_pairs(self.headers@),
                header_value(all, name@) == header_value(all.skip(i as int), name@),
            decreases self.headers.len() - i,
        {
            if eq_ignore_case(self.headers[i].0.as_str(), name) {
                return Some(self.headers[i].1.as_str());
            }
            assert(all.skip(i as int).skip(1) =~= all.skip(i + 1));
            i += 1;
        }
        None
    }
}

// ---------------------------------------------------------------------
// Assertion results
// ---------------------------------------------------------------------

/// The outcome of one assertion.
#[derive(Debug)]
pub struct AssertionResult {
    pub passed: bool,
    pub message: String,
    pub expected: Option<Json>,
    pub actual: Option<Json>,
    pub path: Option<String>,
}

/// What an [`AssertionResult`] says.
pub struct AssertionV {
    pub passed: bool,
    pub message: Seq<char>,
    pub expected: Option<JsonV>,
    pub actual: Option<JsonV>,
    pub path: Option<Seq<char>>,
}

impl View for AssertionResult {
    type V = AssertionV;

    open spec fn view(&self) -> AssertionV {
        AssertionV {
            passed: self.passed,
            message: self.message@,
            expected: opt_view(self.expected),
            actual: opt_view(self.actual),
            path: opt_view(self.path),
        }
    }
}

/// An assertion that holds.
pub open spec fn pass(message: Seq<char>) -> AssertionV {
    AssertionV { passed: true, message, expected: None, actual: None, path: None }
}

/// An assertion that does not hold.
pub open spec fn fail(message: Seq<char>, expected: JsonV, actual: JsonV) -> AssertionV {
    AssertionV { passed: false, message, expected: Some(expected), actual: Some(actual), path: None }
}

impl AssertionResult {
    /// An assertion that holds.
    pub fn pass(message: String) -> (r: AssertionResult)
        ensures
            r@ == pass(message@),
    {
        AssertionResult { passed: true, message, expected: None, actual: None, path: None }
    }

    /// An assertion that does not hold.
    pub fn fail(message: String, expected: Json, actual: Json) -> (r: AssertionResult)
        ensures
            r@ == fail(message@, expected@, actual@),
    {
        AssertionResult { passed: false, message, expected: Some(expected), actual: Some(actual), path: None }
    }
}

// ---------------------------------------------------------------------
// Hooks
// ---------------------------------------------------------------------

/// A change that a hook makes to the request.
#[derive(Debug)]
pub struct RequestPatch {
    pub headers: Vec<ResolvedHeader>,
    pub url: Option<String>,
}

/// What a [`RequestPatch`] says.
pub struct PatchV {
    pub headers: Seq<(Seq<char>, Seq<char>)>,
    pub url: Option<Seq<char>>,
}

impl View for RequestPatch {
    type V = PatchV;

    open spec fn view(&self) -> PatchV {
        PatchV { headers: views(self.headers@), url: opt_view(self.url) }
    }
}

/// The character for six bits in the standard alphabet of base64.
pub open spec fn base64_char(bits: int) -> char {
    if bits < 26 {
        ('A' as u8 + bits) as u8 as char
    } else if bits < 52 {
        ('a' as u8 + (bits - 26)) as u8 as char
    } else if bits < 62 {
        ('0' as u8 + (bits - 52)) as u8 as char
    } else if bits == 62 {
        '+'
    } else {
        '/'
    }
}

/// The standard base64 text of bytes: four characters for every three bytes,
/// the last ones padded with `=`.
pub open spec fn base64_text(bytes: Seq<u8>) -> Seq<char>
    decreases bytes.len(),
{
    if bytes.len() == 0 {
        seq![]
    } else {
        let a = bytes[0] as int;
        let b = if bytes.len() > 1 {
            bytes[1] as int
        } else {
            0
        };
        let c = if bytes.len() > 2 {
            bytes[2] as int
        } else {
            0
        };
        let first = base64_char(a / 4);
        let second = base64_char(a % 4 * 16 + b / 16);
        let third = base64_char(b % 16 * 4 + c / 64);
        let fourth = base64_char(c % 64);
        if bytes.len() == 1 {
            seq![first, second, '=', '=']
        } else if bytes.len() == 2 {
            seq![first, second, third, '=']
        } else {
            seq![first, second, third, fourth] + base64_text(bytes.skip(3))
        }
    }
}

/// `BASE64_STANDARD.encode` of `base64` writes bytes in the standard alphabet,
/// with padding.
#[verifier::external_body]
pub(crate) fn encode_base64(bytes: &Vec<u8>) -> (r: String)
    ensures
        r@ == base64_text(bytes@),
{
    base64::Engine::encode(&base64::prelude::BASE64_STANDARD, bytes)
}

/// The text of an input member, empty where there is none.
pub open spec fn input_text(input: JsonV, key: Seq<char>) -> Seq<char> {
    opt_or(text_member(input, key), seq![])
}

/// The patch that sets one header.
pub open spec fn header_patch(name: Seq<char>, value: Seq<char>) -> PatchV {
    PatchV { headers: seq![(name, value)], url: None }
}

/// What a builtin hook does: `bearer` and `basic` set `Authorization`,
/// `header` sets a named header, and there is no other.
pub open spec fn hook_outcome(entry: EntryV) -> Result<PatchV, DiagnosticV> {
    let name = entry.asset.address;
    let input = entry.input;
    if name == "bearer"@ {
        Ok(
            header_patch(
                "Authorization"@,
                opt_or(text_member(input, "prefix"@), "Bearer"@) + " "@ + input_text(input, "token"@),
            ),
        )
    } else if name == "basic"@ {
        Ok(
            header_patch(
                "Authorization"@,
                "Basic "@ + base64_text(
                    encode_utf8(input_text(input, "username"@) + ":"@ + input_text(input, "password"@)),
                ),
            ),
        )
    } else if name == "header"@ {
        Ok(header_patch(input_text(input, "name"@), input_text(input, "value"@)))
    } else {
        Err(unknown_hook(name, entry.asset.raw))
    }
}

/// The diagnostic for a hook that does not exist.
pub open spec fn unknown_hook(name: Seq<char>, raw: Seq<char>) -> DiagnosticV {
    diag(Code::AssetNotFound, "unknown builtin beforeRequest asset "@ + quoted(name)).with_ref(raw)
}

/// The diagnostic for a hook that does not exist.
pub fn hook_unknown(name: &str, raw: &str) -> (r: Diagnostic)
    ensures
        r@ == unknown_hook(name@, raw@),
{
    Diagnostic::new(
        Code::AssetNotFound,
        cat2("unknown builtin beforeRequest asset ", quote(name).as_str()),
    ).with_ref(raw)
}

fn text_of_member<'a>(input: &'a Json, key: &str) -> (r: &'a str)
    ensures
        r@ == input_text(input@, key@),
{
    let none = "";
    proof {
        reveal_strlit("");
        assert(""@ =~= Seq::<char>::empty());
    }
    text_or(input.get_str(key), none)
}

fn set_header(name: String, value: String) -> (r: RequestPatch)
    ensures
        r@ == header_patch(name@, value@),
{
    let mut headers: Vec<ResolvedHeader> = Vec::new();
    let ghost pair = (name@, value@);
    headers.push(ResolvedHeader { name, value });
    assert(views(headers@) =~= seq![pair]);
    RequestPatch { headers, url: None }
}

/// Run one builtin hook. The request itself decides nothing.
pub fn run_before_request(entry: &ResolvedPipelineEntry, _req: &ResolvedRequest) -> (r: Result<
    RequestPatch,
    Diagnostic,
>)
    ensures
        hook_outcome(entry@) == match r {
            Ok(patch) => Ok::<PatchV, DiagnosticV>(patch@),
            Err(d) => Err::<PatchV, DiagnosticV>(d@),
        },
{
    let name = entry.asset.address.as_str();
    let input = &entry.input;
    if same(name, "bearer") {
        let prefix = text_or(input.get_str("prefix"), "Bearer");
        let value = cat3(prefix, " ", text_of_member(input, "token"));
        Ok(set_header("Authorization".to_owned(), value))
    } else if same(name, "basic") {
        let pair = cat3(text_of_member(input, "username"), ":", text_of_member(input, "password"));
        let value = cat2("Basic ", encode_base64(&bytes_of(pair.as_str())).as_str());
        Ok(set_header("Authorization".to_owned(), value))
    } else if same(name, "header") {
        Ok(set_header(text_of_member(input, "name").to_owned(), text_of_member(input, "value").to_owned()))
    } else {
        Err(hook_unknown(name, entry.asset.raw.as_str()))
    }
}

// ---------------------------------------------------------------------
// JSONPath
// ---------------------------------------------------------------------

/// Why a text is no JSONPath; nothing where it is one.
pub uninterp spec fn path_error(path: Seq<char>) -> Option<Seq<char>>;

/// The nodes that a JSONPath selects from a value, in order.
pub uninterp spec fn path_nodes(path: Seq<char>, body: JsonV) -> Seq<JsonV>;

/// `serde_json_path::JsonPath::parse` reads a JSONPath or says why it cannot;
/// `query(..).all()` of the path lists the nodes that it selects. The error
/// depends on the path alone, the nodes on the path and the value.
#[verifier::external_body]
fn select(path: &str, body: &serde_json::Value) -> (r: Result<Vec<serde_json::Value>, String>)
    ensures
        match r {
            Ok(nodes) => path_error(path@) is None && trees_json(nodes@) == path_nodes(path@, value_json(*body)),
            Err(e) => path_error(path@) == Some(e@),
        },
{
    match serde_json_path::JsonPath::parse(path) {
        Ok(query) => Ok(query.query(body).all().into_iter().cloned().collect()),
        Err(e) => Err(e.to_string()),
    }
}

/// The complaint about a JSONPath that selects several nodes.
pub open spec fn several_matches(path: Seq<char>, n: nat) -> DiagnosticV {
    diag(Code::AssetError, "JSONPath "@ + quoted(path) + " matched "@ + decimal(n) + " nodes, not one"@)
}

/// What a JSONPath finds in a value: the one node it selects. Any other number
/// of nodes is an error.
pub open spec fn path_result(path: Seq<char>, body: JsonV) -> Result<JsonV, DiagnosticV> {
    match path_error(path) {
        Some(e) => Err(diag(Code::AssetError, "invalid JSONPath "@ + quoted(path) + ": "@ + e)),
        None => {
            let nodes = path_nodes(path, body);
            if nodes.len() == 0 {
                Err(diag(Code::AssetError, "JSONPath "@ + quoted(path) + " matched nothing"@))
            } else if nodes.len() == 1 {
                Ok(nodes[0])
            } else {
                Err(several_matches(path, nodes.len()))
            }
        },
    }
}

/// What a JSONPath finds in a body.
pub open spec fn query_result(body: Seq<u8>, path: Seq<char>) -> Result<JsonV, DiagnosticV> {
    match body_json(body) {
        None => Err(diag(Code::AssetError, "response body is not JSON"@)),
        Some(v) => path_result(path, v),
    }
}

/// A result by the views of its two sides.
pub open spec fn json_result(r: Result<Json, Diagnostic>) -> Result<JsonV, DiagnosticV> {
    match r {
        Ok(v) => Ok(v@),
        Err(d) => Err(d@),
    }
}

/// The one node that was selected; any other number of nodes is an error.
pub fn one_value(path: &str, selected: Result<Vec<Json>, String>) -> (r: Result<Json, Diagnostic>)
    ensures
        json_result(r) == match selected {
            Err(e) => Err::<JsonV, DiagnosticV>(
                diag(Code::AssetError, "invalid JSONPath "@ + quoted(path@) + ": "@ + e@),
            ),
            Ok(nodes) => if nodes@.len() == 0 {
                Err(diag(Code::AssetError, "JSONPath "@ + quoted(path@) + " matched nothing"@))
            } else if nodes@.len() == 1 {
                Ok(nodes@[0]@)
            } else {
                Err(several_matches(path@, nodes@.len()))
            },
        },
{
    match selected {
        Err(e) => Err(
            Diagnostic::new(Code::AssetError, cat4("invalid JSONPath ", quote(path).as_str(), ": ", e.as_str())),
        ),
        Ok(nodes) => {
            if nodes.len() == 0 {
                Err(Diagnostic::new(Code::AssetError, cat3("JSONPath ", quote(path).as_str(), " matched nothing")))
            } else if nodes.len() == 1 {
                Ok(nodes[0].copy())
            } else {
                Err(
                    Diagnostic::new(
                        Code::AssetError,
                        cat5(
                            "JSONPath ",
                            quote(path).as_str(),
                            " matched ",
                            number_text(nodes.len() as u64).as_str(),
                            " nodes, not one",
                        ),
                    ),
                )
            }
        },
    }
}

/// Evaluate a JSONPath against the response body, requiring exactly one match.
pub fn query_one(res: &ResponseView, path: &str) -> (r: Result<Json, Diagnostic>)
    ensures
        json_result(r) == query_result(res.body@, path@),
{
    let body = match read_tree_bytes(&res.body) {
        Some(body) => body,
        None => {
            return Err(Diagnostic::new(Code::AssetError, "response body is not JSON".to_owned()));
        },
    };
    let selected = select(path, &body);
    let nodes = match selected {
        Err(e) => Err(e),
        Ok(trees) => {
            let ghost all = trees@;
            let mut left = trees;
            let mut out: Vec<Json> = Vec::new();
            while left.len() > 0
                invariant
                    left@ == all.take(left@.len() as int),
                    left@.len() <= all.len(),
                    out@.len() == all.len() - left@.len(),
                    forall|k: int|
                        0 <= k < out@.len() ==> (#[trigger] out@[k])@ == value_json(all[left@.len() + k]),
                decreases left@.len(),
            {
                let ghost at = left@.len() - 1;
                let last = left.pop().unwrap();
                assert(left@ =~= all.take(at));
                out.insert(0, from_tree(last));
            }
            assert(views(out@) =~= trees_json(all));
            assert(views(out@).len() == out@.len());
            proof {
                if out@.len() == 1 {
                    assert(views(out@)[0] == out@[0]@);
                }
            }
            Ok(out)
        },
    };
    one_value(path, nodes)
}

// ---------------------------------------------------------------------
// Assertions and extractors
// ---------------------------------------------------------------------

/// A whole number as JSON.
pub open spec fn whole(n: u64) -> JsonV {
    JsonV::Number(NumV::Pos(n))
}

/// What `assert-status` finds.
pub open spec fn status_check(expected: u64, actual: u16) -> AssertionV {
    if actual == expected {
        pass("status is "@ + decimal(expected as nat))
    } else {
        fail("status "@ + decimal(actual as nat) + " != "@ + decimal(expected as nat), whole(expected), whole(actual as u64))
    }
}

/// What `assert-json-path` finds, given what the path finds.
pub open spec fn path_check(
    found: Result<JsonV, DiagnosticV>,
    path: Seq<char>,
    op: Seq<char>,
    expected: Option<JsonV>,
) -> AssertionV {
    let outcome = if op == "exists"@ {
        match found {
            Ok(_) => pass(path + " exists"@),
            Err(_) => fail(path + " does not exist"@, JsonV::Bool(true), JsonV::Bool(false)),
        }
    } else if op == "notExists"@ {
        match found {
            Ok(v) => fail(path + " exists"@, JsonV::Null, v),
            Err(_) => pass(path + " does not exist"@),
        }
    } else {
        match found {
            Err(d) => fail(d.message, JsonV::Null, JsonV::Null),
            Ok(v) => if op == "equals"@ {
                let wanted = opt_or(expected, JsonV::Null);
                if same_value(v, wanted) {
                    pass(path + " equals expected"@)
                } else {
                    fail(path + " != expected"@, wanted, v)
                }
            } else if op == "contains"@ && v is String {
                let needle = opt_or(text_in(expected), seq![]);
                if occurs(v->String_0, needle) {
                    pass(path + " contains "@ + quoted(needle))
                } else {
                    fail(path + " does not contain "@ + quoted(needle), opt_or(expected, JsonV::Null), v)
                }
            } else {
                fail("unsupported operator "@ + quoted(op), JsonV::Null, JsonV::Null)
            },
        }
    };
    AssertionV { path: Some(path), ..outcome }
}

/// A JSON string, or null where there is no text.
pub open spec fn text_or_null(s: Option<Seq<char>>) -> JsonV {
    match s {
        Some(s) => JsonV::String(s),
        None => JsonV::Null,
    }
}

/// What `assert-header` finds.
pub open spec fn header_check(name: Seq<char>, expected: Option<Seq<char>>, actual: Option<Seq<char>>) -> AssertionV {
    match (expected, actual) {
        (None, Some(_)) => pass("header "@ + name + " present"@),
        (Some(e), Some(a)) if same_ignoring_case(e, a) => pass("header "@ + name + " == "@ + e),
        _ => fail("header "@ + name + " mismatch"@, text_or_null(expected), text_or_null(actual)),
    }
}

/// What `assert-schema` finds.
pub open spec fn schema_check(schema: JsonV, body: Option<JsonV>) -> AssertionV {
    match body {
        None => fail("response body is not JSON"@, JsonV::Null, JsonV::Null),
        Some(v) => if schema_passes(canonical(schema), canonical(v)) {
            pass("response body matches the schema"@)
        } else {
            fail("response body does not match the schema"@, schema, v)
        },
    }
}

/// Assertion results and runtime values.
pub type ReactionV = (Seq<AssertionV>, Seq<(Seq<char>, JsonV)>);

/// What a builtin assertion or extractor makes of a response.
pub open spec fn reaction_outcome(entry: EntryV, res: ResponseV) -> Result<ReactionV, DiagnosticV> {
    let name = entry.asset.address;
    let input = entry.input;
    if name == "assert-status"@ {
        let expected = opt_or(nat_in(member(input, "expected"@)), 0);
        Ok((seq![status_check(expected, res.status)], seq![]))
    } else if name == "assert-json-path"@ {
        let path = input_text(input, "path"@);
        let check = path_check(
            query_result(res.body, path),
            path,
            opt_or(text_member(input, "operator"@), "exists"@),
            member(input, "value"@),
        );
        Ok((seq![check], seq![]))
    } else if name == "assert-header"@ {
        let header = input_text(input, "name"@);
        let check = header_check(header, text_member(input, "value"@), header_value(res.headers, header));
        Ok((seq![check], seq![]))
    } else if name == "assert-schema"@ {
        let check = schema_check(opt_or(member(input, "schema"@), JsonV::Null), body_json(res.body));
        Ok((seq![check], seq![]))
    } else if name == "extract-json-path"@ {
        match query_result(res.body, input_text(input, "path"@)) {
            Ok(v) => Ok((seq![], seq![(input_text(input, "target"@), v)])),
            Err(d) => Err(d.with_ref(entry.asset.raw)),
        }
    } else {
        Err(
            diag(Code::AssetNotFound, "unknown builtin afterResponse asset "@ + quoted(name)).with_ref(
                entry.asset.raw,
            ),
        )
    }
}

/// A reaction by the views of its parts.
pub open spec fn reaction_view(r: Result<(Vec<AssertionResult>, TextMap<Json>), Diagnostic>) -> Result<
    ReactionV,
    DiagnosticV,
> {
    match r {
        Ok((results, runtime)) => Ok((views(results@), runtime@)),
        Err(d) => Err(d@),
    }
}

fn one_result(result: AssertionResult) -> (r: (Vec<AssertionResult>, TextMap<Json>))
    ensures
        views(r.0@) == seq![result@],
        r.1@ == Seq::<(Seq<char>, JsonV)>::empty(),
{
    let ghost view = result@;
    let mut results: Vec<AssertionResult> = Vec::new();
    results.push(result);
    assert(views(results@) =~= seq![view]);
    (results, TextMap::new())
}

fn string_or_null(s: Option<&str>) -> (r: Json)
    ensures
        r@ == text_or_null(ref_view(s)),
{
    match s {
        Some(s) => Json::String(s.to_owned()),
        None => Json::Null,
    }
}

fn json_or_null(v: Option<&Json>) -> (r: Json)
    ensures
        r@ == opt_or(ref_view(v), JsonV::Null),
{
    match v {
        Some(v) => v.copy(),
        None => Json::Null,
    }
}

/// Compare the response status with the expected one.
pub fn assert_status(expected: u64, actual: u16) -> (r: AssertionResult)
    ensures
        r@ == status_check(expected, actual),
{
    if actual as u64 == expected {
        AssertionResult::pass(cat2("status is ", number_text(expected).as_str()))
    } else {
        AssertionResult::fail(
            cat4("status ", number_text(actual as u64).as_str(), " != ", number_text(expected).as_str()),
            Json::Number(Num::Pos(expected)),
            Json::Number(Num::Pos(actual as u64)),
        )
    }
}

/// Apply an operator to what a JSONPath finds.
pub fn check_found(found: Result<Json, Diagnostic>, path: &str, op: &str, expected: Option<&Json>) -> (r: AssertionResult)
    ensures
        r@ == path_check(json_result(found), path@, op@, ref_view(expected)),
{
    let none = "";
    proof {
        reveal_strlit("");
        assert(""@ =~= Seq::<char>::empty());
    }
    let mut r = if same(op, "exists") {
        match found {
            Ok(_) => AssertionResult::pass(cat2(path, " exists")),
            Err(_) => AssertionResult::fail(cat2(path, " does not exist"), Json::Bool(true), Json::Bool(false)),
        }
    } else if same(op, "notExists") {
        match found {
            Ok(v) => AssertionResult::fail(cat2(path, " exists"), Json::Null, v),
            Err(_) => AssertionResult::pass(cat2(path, " does not exist")),
        }
    } else {
        match found {
            Err(d) => AssertionResult::fail(d.message, Json::Null, Json::Null),
            Ok(v) => if same(op, "equals") {
                let wanted = json_or_null(expected);
                if equal(&v, &wanted) {
                    AssertionResult::pass(cat2(path, " equals expected"))
                } else {
                    AssertionResult::fail(cat2(path, " != expected"), wanted, v)
                }
            } else if same(op, "contains") {
                match v {
                    Json::String(s) => {
                        let needle = match expected {
                            Some(e) => text_or(e.as_str(), none),
                            None => none,
                        };
                        if contains(s.as_str(), needle) {
                            AssertionResult::pass(cat3(path, " contains ", quote(needle).as_str()))
                        } else {
                            AssertionResult::fail(
                                cat3(path, " does not contain ", quote(needle).as_str()),
                                json_or_null(expected),
                                Json::String(s),
                            )
                        }
                    },
                    _ => AssertionResult::fail(
                        cat2("unsupported operator ", quote(op).as_str()),
                        Json::Null,
                        Json::Null,
                    ),
                }
            } else {
                AssertionResult::fail(cat2("unsupported operator ", quote(op).as_str()), Json::Null, Json::Null)
            },
        }
    };
    r.path = Some(path.to_owned());
    r
}

/// Apply an operator to what a JSONPath finds in the response body.
pub fn assert_json_path(res: &ResponseView, path: &str, op: &str, expected: Option<&Json>) -> (r: AssertionResult)
    ensures
        r@ == path_check(query_result(res.body@, path@), path@, op@, ref_view(expected)),
{
    check_found(query_one(res, path), path, op, expected)
}

/// Compare a response header with the expected value, or ask for it at all.
pub fn assert_header(name: &str, expected: Option<&str>, actual: Option<&str>) -> (r: AssertionResult)
    ensures
        r@ == header_check(name@, ref_view(expected), ref_view(actual)),
{
    match (expected, actual) {
        (None, Some(_)) => {
            return AssertionResult::pass(cat3("header ", name, " present"));
        },
        (Some(e), Some(a)) => {
            if eq_ignore_case(e, a) {
                return AssertionResult::pass(cat4("header ", name, " == ", e));
            }
        },
        _ => {},
    }
    AssertionResult::fail(cat3("header ", name, " mismatch"), string_or_null(expected), string_or_null(actual))
}

/// Validate the response body against a JSON Schema.
pub fn assert_schema(schema: &Json, body: Option<Json>) -> (r: AssertionResult)
    ensures
        r@ == schema_check(schema@, opt_view(body)),
{
    match body {
        None => AssertionResult::fail("response body is not JSON".to_owned(), Json::Null, Json::Null),
        Some(v) => match crate::schema::validate(schema, &v) {
            Ok(()) => AssertionResult::pass("response body matches the schema".to_owned()),
            Err(_) => AssertionResult::fail(
                "response body does not match the schema".to_owned(),
                schema.copy(),
                v,
            ),
        },
    }
}

/// Run one builtin assertion or extractor.
pub fn run_after_response(entry: &ResolvedPipelineEntry, res: &ResponseView) -> (r: Result<
    (Vec<AssertionResult>, TextMap<Json>),
    Diagnostic,
>)
    ensures
        reaction_view(r) == reaction_outcome(entry@, res@),
{
    let name = entry.asset.address.as_str();
    let input = &entry.input;
    if same(name, "assert-status") {
        let expected: u64 = match input.get("expected") {
            Some(v) => match v.as_u64() {
                Some(n) => n,
                None => 0,
            },
            None => 0,
        };
        Ok(one_result(assert_status(expected, res.status)))
    } else if same(name, "assert-json-path") {
        let path = text_of_member(input, "path");
        let op = text_or(input.get_str("operator"), "exists");
        Ok(one_result(assert_json_path(res, path, op, input.get("value"))))
    } else if same(name, "assert-header") {
        let header = text_of_member(input, "name");
        Ok(one_result(assert_header(header, input.get_str("value"), res.header(header))))
    } else if same(name, "assert-schema") {
        let schema = json_or_null(input.get("schema"));
        Ok(one_result(assert_schema(&schema, res.json())))
    } else if same(name, "extract-json-path") {
        let path = text_of_member(input, "path");
        let target = text_of_member(input, "target");
        match query_one(res, path) {
            Ok(v) => {
                let ghost value = v@;
                let results: Vec<AssertionResult> = Vec::new();
                let mut runtime: TextMap<Json> = TextMap::new();
                runtime.insert(target.to_owned(), v);
                assert(views(results@) =~= Seq::<AssertionV>::empty());
                assert(runtime@ =~= seq![(target@, value)]);
                Ok((results, runtime))
            },
            Err(d) => Err(d.with_ref(entry.asset.raw.as_str())),
        }
    } else {
        Err(
            Diagnostic::new(
                Code::AssetNotFound,
                cat2("unknown builtin afterResponse asset ", quote(name).as_str()),
            ).with_ref(entry.asset.raw.as_str()),
        )
    }
}

/// Whether an asset belongs to the project rather than to the builtins.
pub fn is_project_asset(entry: &ResolvedPipelineEntry) -> (r: bool)
    ensures
        r == (entry@.asset.scheme != RefScheme::Builtin),
{
    entry.asset.scheme != RefScheme::Builtin
}

} // verus!
