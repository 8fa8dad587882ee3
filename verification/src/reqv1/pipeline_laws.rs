//! What holds of the builtin assets, over the response and the input that they
//! are given.

use vstd::prelude::*;
use vstd::utf8::{decode_utf8, encode_utf8, valid_utf8};

use crate::json::{canonical, json_parse, member, same_value, JsonV, NumV};
use crate::schema::schema_passes;
use crate::text::{occurs, same_ignoring_case};

use super::diag::{Code, DiagnosticV, Severity};
use super::ir::EntryV;
use super::pipeline::{
    base64_char, base64_text, header_check, header_value, hook_outcome, path_check, path_error, path_nodes, query_result,
    reaction_outcome, schema_check, status_check, ReactionV, ResponseV,
};

verus! {

broadcast use vstd::string::group_string_axioms;

// ---------------------------------------------------------------------
// Headers
// ---------------------------------------------------------------------

/// A header has the value of the first of its name, whatever the case, and none
/// where there is none of that name.
pub proof fn lemma_first_header_of_a_name_counts(headers: Seq<(Seq<char>, Seq<char>)>, name: Seq<char>)
    ensures
        header_value(headers, name) is None <==> forall|i: int|
            0 <= i < headers.len() ==> !same_ignoring_case((#[trigger] headers[i]).0, name),
        forall|i: int|
            0 <= i < headers.len() && same_ignoring_case((#[trigger] headers[i]).0, name) && (forall|j: int|
                0 <= j < i ==> !same_ignoring_case((#[trigger] headers[j]).0, name)) ==> header_value(headers, name)
                == Some(headers[i].1),
    decreases headers.len(),
{
    if headers.len() > 0 {
        let rest = headers.skip(1);
        lemma_first_header_of_a_name_counts(rest, name);
        if same_ignoring_case(headers[0].0, name) {
            assert(same_ignoring_case(headers[0].0, name));
        } else {
            assert forall|i: int|
                0 <= i < headers.len() && same_ignoring_case((#[trigger] headers[i]).0, name) && (forall|j: int|
                    0 <= j < i ==> !same_ignoring_case((#[trigger] headers[j]).0, name)) implies header_value(
                headers,
                name,
            ) == Some(headers[i].1) by {
                assert(rest[i - 1] == headers[i]);
                assert forall|j: int| 0 <= j < i - 1 implies !same_ignoring_case((#[trigger] rest[j]).0, name) by {
                    assert(rest[j] == headers[j + 1]);
                }
            }
            if header_value(headers, name) is None {
                assert forall|i: int| 0 <= i < headers.len() implies !same_ignoring_case((#[trigger] headers[i]).0, name) by {
                    if i > 0 {
                        assert(rest[i - 1] == headers[i]);
                    }
                }
            } else {
                let k = choose|k: int| 0 <= k < rest.len() && same_ignoring_case((#[trigger] rest[k]).0, name);
                assert(same_ignoring_case(headers[k + 1].0, name));
            }
        }
    }
}

/// An assertion on a header holds exactly where the header is there and has the
/// value that is expected, whatever the case; where none is expected any value
/// will do. One that does not hold tells both values.
pub proof fn lemma_header_holds_where_it_matches(
    name: Seq<char>,
    expected: Option<Seq<char>>,
    actual: Option<Seq<char>>,
)
    ensures
        header_check(name, expected, actual).passed <==> (actual matches Some(a) && (expected matches Some(e)
            ==> same_ignoring_case(e, a))),
        !header_check(name, expected, actual).passed ==> {
            let r = header_check(name, expected, actual);
            &&& expected matches Some(e) ==> r.expected == Some(JsonV::String(e))
            &&& expected is None ==> r.expected == Some(JsonV::Null)
            &&& actual matches Some(a) ==> r.actual == Some(JsonV::String(a))
            &&& actual is None ==> r.actual == Some(JsonV::Null)
        },
{
}

/// Texts are the same whatever the case exactly where they are as long as each
/// other and differ at most in letters, one in upper and one in lower case.
pub proof fn lemma_case_is_all_that_differs(s: Seq<char>, t: Seq<char>)
    ensures
        same_ignoring_case(s, t) <==> s.len() == t.len() && forall|i: int|
            0 <= i < s.len() ==> (#[trigger] s[i]) == t[i] || ('A' <= s[i] <= 'Z' && t[i] as u32 == s[i] as u32 + 32) || (
            'A' <= t[i] <= 'Z' && s[i] as u32 == t[i] as u32 + 32),
{
    assert('A' as u32 == 65 && 'Z' as u32 == 90 && 'a' as u32 == 97 && 'z' as u32 == 122);
    if same_ignoring_case(s, t) {
        assert forall|i: int| 0 <= i < s.len() implies (#[trigger] s[i]) == t[i] || ('A' <= s[i] <= 'Z' && t[i] as u32
            == s[i] as u32 + 32) || ('A' <= t[i] <= 'Z' && s[i] as u32 == t[i] as u32 + 32) by {
            assert(crate::text::ascii_lower(s[i]) == crate::text::ascii_lower(t[i]));
        }
    }
    if s.len() == t.len() && forall|i: int|
        0 <= i < s.len() ==> (#[trigger] s[i]) == t[i] || ('A' <= s[i] <= 'Z' && t[i] as u32 == s[i] as u32 + 32) || (
        'A' <= t[i] <= 'Z' && s[i] as u32 == t[i] as u32 + 32) {
        assert forall|i: int| 0 <= i < s.len() implies crate::text::ascii_lower(#[trigger] s[i])
            == crate::text::ascii_lower(t[i]) by {
            assert(s[i] == t[i] || ('A' <= s[i] <= 'Z' && t[i] as u32 == s[i] as u32 + 32) || ('A' <= t[i] <= 'Z'
                && s[i] as u32 == t[i] as u32 + 32));
        }
    }
}

// ---------------------------------------------------------------------
// Status, paths and schemas
// ---------------------------------------------------------------------

/// An assertion on the status holds exactly where the status is the one
/// expected. One that does not hold tells both.
pub proof fn lemma_status_holds_where_it_is_equal(expected: u64, actual: u16)
    ensures
        status_check(expected, actual).passed <==> expected as int == actual as int,
        expected as int != actual as int ==> status_check(expected, actual).expected == Some(
            JsonV::Number(NumV::Pos(expected)),
        ) && status_check(expected, actual).actual == Some(JsonV::Number(NumV::Pos(actual as u64))),
{
}

/// A path finds a value exactly where the body is JSON and the path selects one
/// node of it; then it finds that node.
pub proof fn lemma_path_finds_the_one_node(body: Seq<u8>, path: Seq<char>)
    ensures
        query_result(body, path) is Ok <==> valid_utf8(body) && json_parse(decode_utf8(body)) is Ok && path_error(path)
            is None && path_nodes(path, json_parse(decode_utf8(body))->Ok_0).len() == 1,
        query_result(body, path) matches Ok(v) ==> v == path_nodes(path, json_parse(decode_utf8(body))->Ok_0)[0],
        query_result(body, path) matches Err(d) ==> d.code == Code::AssetError && d.severity == Severity::Error,
{
}

/// `exists` holds where the path finds a value, `notExists` where it finds none,
/// `equals` where it finds the value expected, `contains` where it finds a text
/// that holds the one expected. No other operator holds.
pub proof fn lemma_path_assertion_holds_by_its_operator(
    found: Result<JsonV, DiagnosticV>,
    path: Seq<char>,
    op: Seq<char>,
    expected: Option<JsonV>,
)
    ensures
        path_check(found, path, op, expected).path == Some(path),
        op == "exists"@ ==> (path_check(found, path, op, expected).passed <==> found is Ok),
        op == "notExists"@ ==> (path_check(found, path, op, expected).passed <==> found is Err),
        op == "equals"@ ==> (path_check(found, path, op, expected).passed <==> (found matches Ok(v) && same_value(
            v,
            match expected {
                Some(e) => e,
                None => JsonV::Null,
            },
        ))),
        op == "contains"@ ==> (path_check(found, path, op, expected).passed <==> (found matches Ok(JsonV::String(s))
            && occurs(
            s,
            match expected {
                Some(JsonV::String(e)) => e,
                _ => seq![],
            },
        ))),
        op != "exists"@ && op != "notExists"@ && op != "equals"@ && op != "contains"@ ==> !path_check(
            found,
            path,
            op,
            expected,
        ).passed,
        (op == "equals"@ || op == "contains"@) && !path_check(found, path, op, expected).passed ==> (found matches Ok(v)
            ==> (op == "equals"@ || v is String) ==> path_check(found, path, op, expected).actual == Some(v) && path_check(
            found,
            path,
            op,
            expected,
        ).expected == Some(
            match expected {
                Some(e) => e,
                None => JsonV::Null,
            },
        )),
{
    reveal_strlit("exists");
    reveal_strlit("notExists");
    reveal_strlit("equals");
    reveal_strlit("contains");
    assert("exists"@[1] == 'x' && "equals"@[1] == 'q' && "notExists"@.len() == 9 && "contains"@.len() == 8);
}

/// An assertion on the schema holds exactly where the body is JSON and meets the
/// schema.
pub proof fn lemma_schema_holds_where_the_body_meets_it(schema: JsonV, body: Option<JsonV>)
    ensures
        schema_check(schema, body).passed <==> (body matches Some(v) && schema_passes(canonical(schema), canonical(v))),
        body matches Some(v) ==> (!schema_check(schema, body).passed ==> schema_check(schema, body).expected == Some(
            schema,
        ) && schema_check(schema, body).actual == Some(v)),
{
}

// ---------------------------------------------------------------------
// Reactions
// ---------------------------------------------------------------------

/// The text under a key of an input, nothing where there is none.
pub open spec fn told(input: JsonV, key: Seq<char>) -> Seq<char> {
    match member(input, key) {
        Some(JsonV::String(s)) => s,
        _ => seq![],
    }
}

/// One assertion and nothing to write.
pub open spec fn asserts(r: Result<ReactionV, DiagnosticV>, a: super::pipeline::AssertionV) -> bool {
    r matches Ok(reaction) && reaction.0 == seq![a] && reaction.1.len() == 0
}

/// The JSON value of a body.
pub open spec fn json_in(body: Seq<u8>) -> Option<JsonV> {
    if valid_utf8(body) && json_parse(decode_utf8(body)) is Ok {
        Some(json_parse(decode_utf8(body))->Ok_0)
    } else {
        None
    }
}

/// Each builtin looks at its own part of the response and of the input: the
/// status, a path, a header, the body as a whole. An extractor writes what its
/// path finds under its target. There is no other builtin.
pub proof fn lemma_builtin_does_what_its_name_says(entry: EntryV, res: ResponseV)
    ensures
        entry.asset.address == "assert-status"@ ==> asserts(
            reaction_outcome(entry, res),
            status_check(
                match member(entry.input, "expected"@) {
                    Some(JsonV::Number(NumV::Pos(n))) => n,
                    _ => 0,
                },
                res.status,
            ),
        ),
        entry.asset.address == "assert-json-path"@ ==> asserts(
            reaction_outcome(entry, res),
            path_check(
                query_result(res.body, told(entry.input, "path"@)),
                told(entry.input, "path"@),
                match member(entry.input, "operator"@) {
                    Some(JsonV::String(s)) => s,
                    _ => "exists"@,
                },
                member(entry.input, "value"@),
            ),
        ),
        entry.asset.address == "assert-header"@ ==> asserts(
            reaction_outcome(entry, res),
            header_check(
                told(entry.input, "name"@),
                match member(entry.input, "value"@) {
                    Some(JsonV::String(s)) => Some(s),
                    _ => None,
                },
                header_value(res.headers, told(entry.input, "name"@)),
            ),
        ),
        entry.asset.address == "assert-schema"@ ==> asserts(
            reaction_outcome(entry, res),
            schema_check(
                match member(entry.input, "schema"@) {
                    Some(v) => v,
                    None => JsonV::Null,
                },
                json_in(res.body),
            ),
        ),
        entry.asset.address == "extract-json-path"@ ==> match query_result(res.body, told(entry.input, "path"@)) {
            Ok(v) => reaction_outcome(entry, res) matches Ok(r) && r.0.len() == 0 && r.1 == seq![
                (told(entry.input, "target"@), v),
            ],
            Err(d) => reaction_outcome(entry, res) matches Err(e) && e.message == d.message && e.code == d.code
                && e.asset_ref == Some(entry.asset.raw),
        },
        entry.asset.address != "assert-status"@ && entry.asset.address != "assert-json-path"@ && entry.asset.address
            != "assert-header"@ && entry.asset.address != "assert-schema"@ && entry.asset.address
            != "extract-json-path"@ ==> (reaction_outcome(entry, res) matches Err(e) && e.code == Code::AssetNotFound
            && e.severity == Severity::Error && e.asset_ref == Some(entry.asset.raw)),
{
    reveal_strlit("assert-status");
    reveal_strlit("assert-json-path");
    reveal_strlit("assert-header");
    reveal_strlit("assert-schema");
    reveal_strlit("extract-json-path");
    assert("assert-status"@.len() == 13 && "assert-json-path"@.len() == 16 && "extract-json-path"@.len() == 17
        && "assert-header"@.len() == 13 && "assert-schema"@.len() == 13 && "assert-status"@[8] == 't'
        && "assert-header"@[8] == 'e' && "assert-schema"@[8] == 'c');
}

// ---------------------------------------------------------------------
// Hooks
// ---------------------------------------------------------------------

/// One header to set and no new URL.
pub open spec fn sets_header(r: Result<super::pipeline::PatchV, DiagnosticV>, name: Seq<char>, value: Seq<char>) -> bool {
    r matches Ok(patch) && patch.headers == seq![(name, value)] && patch.url is None
}

/// Each builtin hook sets one header: a token behind its prefix, a name and its
/// password in base64, or any header with any value. There is no other hook.
pub proof fn lemma_hook_does_what_its_name_says(entry: EntryV)
    ensures
        entry.asset.address == "bearer"@ ==> sets_header(
            hook_outcome(entry),
            "Authorization"@,
            match member(entry.input, "prefix"@) {
                Some(JsonV::String(s)) => s,
                _ => "Bearer"@,
            } + " "@ + told(entry.input, "token"@),
        ),
        entry.asset.address == "basic"@ ==> sets_header(
            hook_outcome(entry),
            "Authorization"@,
            "Basic "@ + base64_text(encode_utf8(told(entry.input, "username"@) + ":"@ + told(entry.input, "password"@))),
        ),
        entry.asset.address == "header"@ ==> sets_header(
            hook_outcome(entry),
            told(entry.input, "name"@),
            told(entry.input, "value"@),
        ),
        entry.asset.address != "bearer"@ && entry.asset.address != "basic"@ && entry.asset.address != "header"@ ==> (
        hook_outcome(entry) matches Err(d) && d.code == Code::AssetNotFound && d.severity == Severity::Error
            && d.asset_ref == Some(entry.asset.raw)),
{
    reveal_strlit("bearer");
    reveal_strlit("basic");
    reveal_strlit("header");
    assert("bearer"@[0] == 'b' && "basic"@.len() == 5 && "header"@[0] == 'h' && "bearer"@.len() == 6);
}

// ---------------------------------------------------------------------
// Base64
// ---------------------------------------------------------------------

/// The number that three bytes make, the first one the highest.
pub open spec fn group(a: int, b: int, c: int) -> int {
    a * 65536 + b * 256 + c
}

/// The six bits of a character: `A` to `Z`, `a` to `z`, `0` to `9`, `+` and `/`.
pub open spec fn bits_of(c: char) -> int {
    if 'A' <= c <= 'Z' {
        c as u32 - 65
    } else if 'a' <= c <= 'z' {
        c as u32 - 97 + 26
    } else if '0' <= c <= '9' {
        c as u32 - 48 + 52
    } else if c == '+' {
        62
    } else {
        63
    }
}

/// The number that four characters make, six bits each.
pub open spec fn digits(w: char, x: char, y: char, z: char) -> int {
    bits_of(w) * 262144 + bits_of(x) * 4096 + bits_of(y) * 64 + bits_of(z)
}

proof fn lemma_base64_char(bits: int)
    requires
        0 <= bits < 64,
    ensures
        bits_of(base64_char(bits)) == bits,
        base64_char(bits) != '=',
{
    assert('A' as u32 == 65 && 'Z' as u32 == 90 && 'a' as u32 == 97 && 'z' as u32 == 122 && '0' as u32 == 48 && '9' as u32
        == 57);
}

/// In base64 every three bytes are four characters that make the same number;
/// one or two bytes at the end are padded with `=` and make the same number with
/// zero bits behind.
pub proof fn lemma_base64_makes_the_same_number(bytes: Seq<u8>)
    ensures
        base64_text(bytes).len() == (bytes.len() + 2) / 3 * 4,
        forall|k: int|
            #![trigger bytes[3 * k + 2]]
            0 <= k && 3 * k + 2 < bytes.len() ==> {
                let t = base64_text(bytes);
                digits(t[4 * k], t[4 * k + 1], t[4 * k + 2], t[4 * k + 3]) == group(
                    bytes[3 * k] as int,
                    bytes[3 * k + 1] as int,
                    bytes[3 * k + 2] as int,
                )
            },
        bytes.len() % 3 == 1 ==> {
            let t = base64_text(bytes);
            let n = t.len();
            &&& t[n - 1] == '=' && t[n - 2] == '='
            &&& bits_of(t[n - 4]) * 64 + bits_of(t[n - 3]) == bytes.last() * 16
        },
        bytes.len() % 3 == 2 ==> {
            let t = base64_text(bytes);
            let n = t.len();
            &&& t[n - 1] == '='
            &&& t[n - 2] != '='
            &&& bits_of(t[n - 4]) * 4096 + bits_of(t[n - 3]) * 64 + bits_of(t[n - 2]) == (bytes[bytes.len() - 2] * 256
                + bytes.last()) * 4
        },
    decreases bytes.len(),
{
    let t = base64_text(bytes);
    if bytes.len() > 0 {
        let a = bytes[0] as int;
        let b = if bytes.len() > 1 {
            bytes[1] as int
        } else {
            0
        };
        let c = if bytes.len() > 2 {
            bytes[2] as int
        } else {
            0
        };
        lemma_base64_char(a / 4);
        lemma_base64_char(a % 4 * 16 + b / 16);
        lemma_base64_char(b % 16 * 4 + c / 64);
        lemma_base64_char(c % 64);
        if bytes.len() > 2 {
            let rest = bytes.skip(3);
            lemma_base64_makes_the_same_number(rest);
            let more = base64_text(rest);
            assert forall|k: int|
                #![trigger bytes[3 * k + 2]]
                0 <= k && 3 * k + 2 < bytes.len() implies digits(t[4 * k], t[4 * k + 1], t[4 * k + 2], t[4 * k + 3])
                == group(bytes[3 * k] as int, bytes[3 * k + 1] as int, bytes[3 * k + 2] as int) by {
                if k > 0 {
                    let j = k - 1;
                    assert(rest[3 * j + 2] == bytes[3 * k + 2]);
                    assert(rest[3 * j] == bytes[3 * k]);
                    assert(rest[3 * j + 1] == bytes[3 * k + 1]);
                    assert(t[4 * k] == more[4 * j] && t[4 * k + 1] == more[4 * j + 1] && t[4 * k + 2] == more[4 * j + 2]
                        && t[4 * k + 3] == more[4 * j + 3]);
                }
            }
            if rest.len() > 0 {
                assert(rest.last() == bytes.last());
                let n = t.len();
                let m = more.len();
                assert(m >= 4);
                assert(t[n - 1] == more[m - 1] && t[n - 2] == more[m - 2] && t[n - 3] == more[m - 3] && t[n - 4]
                    == more[m - 4]);
                if rest.len() > 1 {
                    assert(rest[rest.len() - 2] == bytes[bytes.len() - 2]);
                }
            }
        }
    }
}

} // verus!
