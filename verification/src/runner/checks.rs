//! What a response is checked for, and what is taken from it.

use vstd::prelude::*;

use crate::exec::text_pairs;
use crate::json::{canonical, equal, print, printed, same_value, Json, JsonV};
use crate::model::request::{
    AssertionDef, AssertionDefV, Check, CheckV, Extractor, ExtractorSource, ExtractorSourceV, ExtractorV, NumberOp, TextOp,
};
use crate::reqv1::diag::DiagnosticV;
use crate::reqv1::pipeline::{body_json, header_value, query_one, query_result, ResponseV, ResponseView};
use crate::reqv1::vars::{inline_text, to_inline};
use crate::runner::run::{AssertionOutcome, CheckedV, ExtractReport};
use crate::schema::{schema_passes, validate};
use crate::text::{cat2, cat3, cat4, contains, has_prefix, occurs, same, starts_with};
use crate::view::{group_views, opt_view, ref_view, views};
use crate::words::{decimal, lossy_text, number_text};

verus! {

broadcast use vstd::string::group_string_axioms;

/// What `regex` finds: why a pattern is none, else whether it matches, and if
/// so the text of the group, where the group took part.
pub uninterp spec fn regex_found(pattern: Seq<char>, text: Seq<char>, group: usize) -> Result<
    Option<Option<Seq<char>>>,
    Seq<char>,
>;

/// `regex::Regex::new` reads a pattern, or says why it is none; `captures`
/// finds its first match in a text, and `get` gives the text of a group. The
/// result depends on the three arguments alone.
#[verifier::external_body]
fn capture(pattern: &str, text: &str, group: usize) -> (r: Result<Option<Option<String>>, String>)
    ensures
        regex_found(pattern@, text@, group) == match r {
            Err(e) => Err::<Option<Option<Seq<char>>>, Seq<char>>(e@),
            Ok(None) => Ok::<Option<Option<Seq<char>>>, Seq<char>>(None),
            Ok(Some(found)) => Ok::<Option<Option<Seq<char>>>, Seq<char>>(Some(opt_view(found))),
        },
{
    let regex = regex::Regex::new(pattern).map_err(|e| e.to_string())?;
    Ok(regex.captures(text).map(|c| c.get(group).map(|m| m.as_str().to_string())))
}

/// A pattern matches somewhere in a text.
pub open spec fn pattern_matches(pattern: Seq<char>, text: Seq<char>) -> bool {
    regex_found(pattern, text, 0) matches Ok(Some(_))
}

fn matches_pattern(pattern: &str, text: &str) -> (r: bool)
    ensures
        r == pattern_matches(pattern@, text@),
{
    match capture(pattern, text, 0) {
        Ok(Some(_)) => true,
        _ => false,
    }
}

// ---------------------------------------------------------------------
// Checks
// ---------------------------------------------------------------------

/// How a comparison of numbers is written.
pub open spec fn number_sign(op: NumberOp) -> Seq<char> {
    match op {
        NumberOp::Eq => "=="@,
        NumberOp::Ne => "!="@,
        NumberOp::Lt => "<"@,
        NumberOp::Le => "<="@,
        NumberOp::Gt => ">"@,
        NumberOp::Ge => ">="@,
    }
}

/// How a comparison of texts is written.
pub open spec fn text_sign(op: TextOp) -> Seq<char> {
    match op {
        TextOp::Eq => "=="@,
        TextOp::Ne => "!="@,
        TextOp::Contains => "contains"@,
        TextOp::Matches => "matches"@,
        TextOp::Exists => "exists"@,
    }
}

/// A comparison in words; existence needs no value.
pub open spec fn compared(subject: Seq<char>, op: TextOp, value: Seq<char>) -> Seq<char> {
    if op == TextOp::Exists {
        subject + " exists"@
    } else {
        subject + " "@ + text_sign(op) + " "@ + value
    }
}

/// A check in words.
pub open spec fn check_text(check: CheckV) -> Seq<char> {
    match check {
        CheckV::StatusCode { op, value } => "status "@ + number_sign(op) + " "@ + decimal(value as nat),
        CheckV::StatusClass { class } => "status "@ + decimal(class as nat) + "xx"@,
        CheckV::Header { name, op, value } => compared("header "@ + name, op, value),
        CheckV::ContentType { value } => "content type "@ + value,
        CheckV::JsonPath { path, op, value } => compared(path, op, printed(value)),
        CheckV::BodyContains { value } => "body contains "@ + value,
        CheckV::BodyMatches { regex } => "body matches "@ + regex,
        CheckV::ResponseTimeBelow { max_ms } => "response time below "@ + decimal(max_ms as nat) + " ms"@,
        CheckV::JsonSchema { .. } => "body matches the JSON schema"@,
    }
}

/// Whether two numbers compare as asked.
pub open spec fn number_holds(op: NumberOp, actual: int, expected: int) -> bool {
    match op {
        NumberOp::Eq => actual == expected,
        NumberOp::Ne => actual != expected,
        NumberOp::Lt => actual < expected,
        NumberOp::Le => actual <= expected,
        NumberOp::Gt => actual > expected,
        NumberOp::Ge => actual >= expected,
    }
}

/// Whether a text compares as asked; one that is not there never does.
pub open spec fn text_holds(op: TextOp, actual: Option<Seq<char>>, expected: Seq<char>) -> bool {
    match actual {
        None => false,
        Some(a) => match op {
            TextOp::Eq => a == expected,
            TextOp::Ne => a != expected,
            TextOp::Contains => occurs(a, expected),
            TextOp::Matches => pattern_matches(expected, a),
            TextOp::Exists => true,
        },
    }
}

/// Whether a value compares as asked. Containing and matching go by the text
/// of the value.
pub open spec fn value_holds(op: TextOp, actual: Result<JsonV, DiagnosticV>, expected: JsonV) -> bool {
    match actual {
        Err(_) => false,
        Ok(a) => match op {
            TextOp::Eq => same_value(a, expected),
            TextOp::Ne => !same_value(a, expected),
            _ => text_holds(op, Some(inline_text(a)), inline_text(expected)),
        },
    }
}

/// A content type without its parameters is what is asked for.
pub open spec fn type_holds(actual: Option<Seq<char>>, expected: Seq<char>) -> bool {
    match actual {
        None => false,
        Some(a) => a == expected || has_prefix(a, expected + ";"@),
    }
}

/// A body is accepted by a schema.
pub open spec fn schema_holds(body: Option<JsonV>, schema: JsonV) -> bool {
    match body {
        None => false,
        Some(v) => schema_passes(canonical(schema), canonical(v)),
    }
}

/// Whether a response passes a check.
pub open spec fn check_holds(check: CheckV, res: ResponseV) -> bool {
    match check {
        CheckV::StatusCode { op, value } => number_holds(op, res.status as int, value as int),
        CheckV::StatusClass { class } => res.status as int / 100 == class as int,
        CheckV::Header { name, op, value } => text_holds(op, header_value(res.headers, name), value),
        CheckV::ContentType { value } => type_holds(header_value(res.headers, "content-type"@), value),
        CheckV::JsonPath { path, op, value } => value_holds(op, query_result(res.body, path), value),
        CheckV::BodyContains { value } => occurs(lossy_text(res.body), value),
        CheckV::BodyMatches { regex } => pattern_matches(regex, lossy_text(res.body)),
        CheckV::ResponseTimeBelow { max_ms } => res.time_ms < max_ms,
        CheckV::JsonSchema { schema } => schema_holds(body_json(res.body), schema),
    }
}

/// What a response has in place of what a check asks for.
pub open spec fn found_text(check: CheckV, res: ResponseV) -> Seq<char> {
    match check {
        CheckV::StatusCode { .. } => decimal(res.status as nat),
        CheckV::StatusClass { .. } => decimal(res.status as nat),
        CheckV::Header { name, .. } => text_or_nothing(header_value(res.headers, name)),
        CheckV::ContentType { .. } => text_or_nothing(header_value(res.headers, "content-type"@)),
        CheckV::JsonPath { path, .. } => match query_result(res.body, path) {
            Ok(v) => printed(v),
            Err(d) => d.message,
        },
        CheckV::ResponseTimeBelow { .. } => decimal(res.time_ms as nat) + " ms"@,
        _ => "another body"@,
    }
}

/// A text, or the word for none.
pub open spec fn text_or_nothing(s: Option<Seq<char>>) -> Seq<char> {
    match s {
        Some(s) => s,
        None => "nothing"@,
    }
}

/// The outcome of a check. A failed one says what was found.
pub open spec fn checked(check: CheckV, res: ResponseV) -> CheckedV {
    CheckedV {
        label: check_text(check),
        passed: check_holds(check, res),
        message: if check_holds(check, res) {
            seq![]
        } else {
            "got "@ + found_text(check, res)
        },
    }
}

fn sign_of_number(op: NumberOp) -> (r: &'static str)
    ensures
        r@ == number_sign(op),
{
    match op {
        NumberOp::Eq => "==",
        NumberOp::Ne => "!=",
        NumberOp::Lt => "<",
        NumberOp::Le => "<=",
        NumberOp::Gt => ">",
        NumberOp::Ge => ">=",
    }
}

fn sign_of_text(op: TextOp) -> (r: &'static str)
    ensures
        r@ == text_sign(op),
{
    match op {
        TextOp::Eq => "==",
        TextOp::Ne => "!=",
        TextOp::Contains => "contains",
        TextOp::Matches => "matches",
        TextOp::Exists => "exists",
    }
}

fn compare_in_words(subject: &str, op: TextOp, value: &str) -> (r: String)
    ensures
        r@ == compared(subject@, op, value@),
{
    if op == TextOp::Exists {
        cat2(subject, " exists")
    } else {
        let mut out = cat4(subject, " ", sign_of_text(op), " ");
        out.append(value);
        out
    }
}

/// A check in words.
pub fn summary(check: &Check) -> (r: String)
    ensures
        r@ == check_text(check@),
{
    match check {
        Check::StatusCode { op, value } => cat4("status ", sign_of_number(*op), " ", number_text(*value as u64).as_str()),
        Check::StatusClass { class } => cat3("status ", number_text(*class as u64).as_str(), "xx"),
        Check::Header { name, op, value } => compare_in_words(
            cat2("header ", name.as_str()).as_str(),
            *op,
            value.as_str(),
        ),
        Check::ContentType { value } => cat2("content type ", value.as_str()),
        Check::JsonPath { path, op, value } => compare_in_words(path.as_str(), *op, print(value).as_str()),
        Check::BodyContains { value } => cat2("body contains ", value.as_str()),
        Check::BodyMatches { regex } => cat2("body matches ", regex.as_str()),
        Check::ResponseTimeBelow { max_ms } => cat3("response time below ", number_text(*max_ms).as_str(), " ms"),
        Check::JsonSchema { .. } => "body matches the JSON schema".to_owned(),
    }
}

fn compare_numbers(op: NumberOp, actual: u16, expected: u16) -> (r: bool)
    ensures
        r == number_holds(op, actual as int, expected as int),
{
    match op {
        NumberOp::Eq => actual == expected,
        NumberOp::Ne => actual != expected,
        NumberOp::Lt => actual < expected,
        NumberOp::Le => actual <= expected,
        NumberOp::Gt => actual > expected,
        NumberOp::Ge => actual >= expected,
    }
}

fn compare_texts(op: TextOp, actual: Option<&str>, expected: &str) -> (r: bool)
    ensures
        r == text_holds(op, ref_view(actual), expected@),
{
    match actual {
        None => false,
        Some(a) => match op {
            TextOp::Eq => same(a, expected),
            TextOp::Ne => !same(a, expected),
            TextOp::Contains => contains(a, expected),
            TextOp::Matches => matches_pattern(expected, a),
            TextOp::Exists => true,
        },
    }
}

fn compare_values(op: TextOp, actual: &Json, expected: &Json) -> (r: bool)
    ensures
        r == value_holds(op, Ok(actual@), expected@),
{
    match op {
        TextOp::Eq => equal(actual, expected),
        TextOp::Ne => !equal(actual, expected),
        _ => compare_texts(op, Some(to_inline(actual).as_str()), to_inline(expected).as_str()),
    }
}

fn or_nothing(s: Option<&str>) -> (r: String)
    ensures
        r@ == text_or_nothing(ref_view(s)),
{
    match s {
        Some(s) => s.to_owned(),
        None => "nothing".to_owned(),
    }
}

fn judge(check: &Check, res: &ResponseView) -> (r: (bool, String))
    ensures
        r.0 == check_holds(check@, res@),
        r.1@ == found_text(check@, res@),
{
    match check {
        Check::StatusCode { op, value } => (
            compare_numbers(*op, res.status, *value),
            number_text(res.status as u64),
        ),
        Check::StatusClass { class } => (res.status / 100 == *class as u16, number_text(res.status as u64)),
        Check::Header { name, op, value } => {
            let actual = res.header(name.as_str());
            (compare_texts(*op, actual, value.as_str()), or_nothing(actual))
        },
        Check::ContentType { value } => {
            let actual = res.header("content-type");
            let holds = match actual {
                None => false,
                Some(a) => same(a, value.as_str()) || starts_with(a, cat2(value.as_str(), ";").as_str()),
            };
            (holds, or_nothing(actual))
        },
        Check::JsonPath { path, op, value } => match query_one(res, path.as_str()) {
            Ok(v) => (compare_values(*op, &v, value), print(&v)),
            Err(d) => (false, d.message),
        },
        Check::BodyContains { value } => (
            contains(res.text().as_str(), value.as_str()),
            "another body".to_owned(),
        ),
        Check::BodyMatches { regex } => (
            matches_pattern(regex.as_str(), res.text().as_str()),
            "another body".to_owned(),
        ),
        Check::ResponseTimeBelow { max_ms } => (
            res.time_ms < *max_ms,
            cat2(number_text(res.time_ms).as_str(), " ms"),
        ),
        Check::JsonSchema { schema } => {
            let holds = match res.json() {
                None => false,
                Some(v) => validate(schema, &v).is_ok(),
            };
            (holds, "another body".to_owned())
        },
    }
}

/// Check a response.
pub fn evaluate(check: &Check, res: &ResponseView) -> (r: AssertionOutcome)
    ensures
        r@ == checked(check@, res@),
{
    let label = summary(check);
    let (passed, found) = judge(check, res);
    if passed {
        let r = AssertionOutcome::pass(label.as_str());
        assert(r@.message =~= checked(check@, res@).message);
        r
    } else {
        AssertionOutcome::fail(label.as_str(), cat2("got ", found.as_str()).as_str())
    }
}

/// The outcomes of the enabled ones among the first `n` assertions.
pub open spec fn outcomes(defs: Seq<AssertionDefV>, res: ResponseV, n: int) -> Seq<CheckedV>
    decreases n,
{
    if n <= 0 || n > defs.len() {
        seq![]
    } else {
        let before = outcomes(defs, res, n - 1);
        if defs[n - 1].enabled {
            before.push(checked(defs[n - 1].check, res))
        } else {
            before
        }
    }
}

/// Check a response for every enabled assertion.
pub fn evaluate_all(defs: &Vec<AssertionDef>, res: &ResponseView) -> (r: Vec<AssertionOutcome>)
    ensures
        views(r@) == outcomes(views(defs@), res@, defs@.len() as int),
{
    broadcast use group_views;

    let ghost all = views(defs@);
    let mut out: Vec<AssertionOutcome> = Vec::new();
    let mut i: usize = 0;
    while i < defs.len()
        invariant
            i <= defs.len(),
            all == views(defs@),
            views(out@) == outcomes(all, res@, i as int),
        decreases defs.len() - i,
    {
        assert(all[i as int] == defs@[i as int]@);
        if defs[i].enabled {
            out.push(evaluate(&defs[i].check, res));
        }
        i += 1;
    }
    out
}

// ---------------------------------------------------------------------
// Extractors
// ---------------------------------------------------------------------

/// What an extractor takes from a response, or why there is nothing to take.
pub open spec fn taken(source: ExtractorSourceV, res: ResponseV) -> Result<Seq<char>, Seq<char>> {
    match source {
        ExtractorSourceV::JsonPath { expr } => match query_result(res.body, expr) {
            Ok(v) => Ok(inline_text(v)),
            Err(d) => Err(d.message),
        },
        ExtractorSourceV::Header { name } => match header_value(res.headers, name) {
            Some(v) => Ok(v),
            None => Err("no header "@ + name),
        },
        ExtractorSourceV::Regex { pattern, group } => match regex_found(pattern, lossy_text(res.body), group) {
            Err(e) => Err(e),
            Ok(Some(Some(text))) => Ok(text),
            Ok(_) => Err("no match for "@ + pattern),
        },
    }
}

/// Take a value from a response.
pub fn extract(source: &ExtractorSource, res: &ResponseView) -> (r: Result<String, String>)
    ensures
        taken(source@, res@) == match r {
            Ok(s) => Ok::<Seq<char>, Seq<char>>(s@),
            Err(e) => Err::<Seq<char>, Seq<char>>(e@),
        },
{
    match source {
        ExtractorSource::JsonPath { expr } => match query_one(res, expr.as_str()) {
            Ok(v) => Ok(to_inline(&v)),
            Err(d) => Err(d.message),
        },
        ExtractorSource::Header { name } => match res.header(name.as_str()) {
            Some(v) => Ok(v.to_owned()),
            None => Err(cat2("no header ", name.as_str())),
        },
        ExtractorSource::Regex { pattern, group } => match capture(pattern.as_str(), res.text().as_str(), *group) {
            Err(e) => Err(e),
            Ok(Some(Some(text))) => Ok(text),
            Ok(_) => Err(cat2("no match for ", pattern.as_str())),
        },
    }
}

/// The values that the enabled ones among the first `n` extractors take.
pub open spec fn taken_values(list: Seq<ExtractorV>, res: ResponseV, n: int) -> Seq<(Seq<char>, Seq<char>)>
    decreases n,
{
    if n <= 0 || n > list.len() {
        seq![]
    } else {
        let before = taken_values(list, res, n - 1);
        match (list[n - 1].enabled, taken(list[n - 1].source, res)) {
            (true, Ok(v)) => before.push((list[n - 1].var, v)),
            _ => before,
        }
    }
}

/// What went wrong with the enabled ones among the first `n` extractors.
pub open spec fn taken_errors(list: Seq<ExtractorV>, res: ResponseV, n: int) -> Seq<Seq<char>>
    decreases n,
{
    if n <= 0 || n > list.len() {
        seq![]
    } else {
        let before = taken_errors(list, res, n - 1);
        match (list[n - 1].enabled, taken(list[n - 1].source, res)) {
            (true, Err(e)) => before.push(list[n - 1].var + ": "@ + e),
            _ => before,
        }
    }
}

/// Take what every enabled extractor asks for.
pub fn apply_extractors(list: &Vec<Extractor>, res: &ResponseView) -> (r: ExtractReport)
    ensures
        text_pairs(r.values@) == taken_values(views(list@), res@, list@.len() as int),
        views(r.errors@) == taken_errors(views(list@), res@, list@.len() as int),
{
    broadcast use group_views;

    let ghost all = views(list@);
    let mut values: Vec<(String, String)> = Vec::new();
    let mut errors: Vec<String> = Vec::new();
    let mut i: usize = 0;
    assert(text_pairs(values@) =~= seq![]);
    while i < list.len()
        invariant
            i <= list.len(),
            all == views(list@),
            text_pairs(values@) == taken_values(all, res@, i as int),
            views(errors@) == taken_errors(all, res@, i as int),
        decreases list.len() - i,
    {
        assert(all[i as int] == list@[i as int]@);
        if list[i].enabled {
            match extract(&list[i].source, res) {
                Ok(v) => {
                    let ghost before = text_pairs(values@);
                    let ghost view = (list@[i as int].var@, v@);
                    values.push((list[i].var.clone(), v));
                    assert(text_pairs(values@) =~= before.push(view));
                },
                Err(e) => {
                    errors.push(cat3(list[i].var.as_str(), ": ", e.as_str()));
                },
            }
        }
        i += 1;
    }
    ExtractReport { values, errors }
}

// ---------------------------------------------------------------------
// Laws
// ---------------------------------------------------------------------

/// Every enabled assertion is accounted for: there are as many outcomes.
pub proof fn lemma_every_assertion_counts(defs: Seq<AssertionDefV>, res: ResponseV, n: int)
    requires
        0 <= n <= defs.len(),
    ensures
        outcomes(defs, res, n).len() == defs.take(n).filter(|d: AssertionDefV| d.enabled).len(),
    decreases n,
{
    reveal(Seq::filter);
    if n > 0 {
        lemma_every_assertion_counts(defs, res, n - 1);
        assert(defs.take(n).drop_last() =~= defs.take(n - 1));
    }
}

/// Every enabled extractor either gives a value or an error.
pub proof fn lemma_every_extractor_counts(list: Seq<ExtractorV>, res: ResponseV, n: int)
    requires
        0 <= n <= list.len(),
    ensures
        taken_values(list, res, n).len() + taken_errors(list, res, n).len() == list.take(n).filter(
            |e: ExtractorV| e.enabled,
        ).len(),
    decreases n,
{
    reveal(Seq::filter);
    if n > 0 {
        lemma_every_extractor_counts(list, res, n - 1);
        assert(list.take(n).drop_last() =~= list.take(n - 1));
    }
}

} // verus!
