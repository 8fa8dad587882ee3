//! What holds of the words that a run uses: labels of checks, errors, what is
//! logged and what is told.

use vstd::prelude::*;

use crate::json::{printed, JsonV};
use crate::model::request::{bare_request, CheckV, NumberOp, TextOp};
use crate::model::workspace::default_settings;
use crate::model::{method_named, Method};
use crate::reqv1::pipeline::{header_value, query_result, ResponseV};
use crate::text::same_ignoring_case;
use crate::words::decimal;

use super::checks::{check_text, checked, found_text};
use super::events::{counts, step_tells, TellV};
use super::resolve::{error_text, ResolveErrorV};
use super::run::{extract_lines, NextStep, RunMachine, RunSummary};

verus! {

broadcast use vstd::string::group_string_axioms;

/// A check is told by what it looks at, how it compares, and with what.
pub proof fn lemma_check_is_told_in_words(
    name: Seq<char>,
    value: Seq<char>,
    number: u16,
    class: u8,
    max_ms: u64,
    json: JsonV,
)
    ensures
        check_text(CheckV::StatusCode { op: NumberOp::Eq, value: number }) == "status "@ + "=="@ + " "@ + decimal(
            number as nat,
        ),
        check_text(CheckV::StatusCode { op: NumberOp::Ne, value: number }) == "status "@ + "!="@ + " "@ + decimal(
            number as nat,
        ),
        check_text(CheckV::StatusCode { op: NumberOp::Lt, value: number }) == "status "@ + "<"@ + " "@ + decimal(
            number as nat,
        ),
        check_text(CheckV::StatusCode { op: NumberOp::Le, value: number }) == "status "@ + "<="@ + " "@ + decimal(
            number as nat,
        ),
        check_text(CheckV::StatusCode { op: NumberOp::Gt, value: number }) == "status "@ + ">"@ + " "@ + decimal(
            number as nat,
        ),
        check_text(CheckV::StatusCode { op: NumberOp::Ge, value: number }) == "status "@ + ">="@ + " "@ + decimal(
            number as nat,
        ),
        check_text(CheckV::StatusClass { class }) == "status "@ + decimal(class as nat) + "xx"@,
        check_text(CheckV::Header { name, op: TextOp::Exists, value }) == "header "@ + name + " exists"@,
        check_text(CheckV::Header { name, op: TextOp::Eq, value }) == "header "@ + name + " "@ + "=="@ + " "@ + value,
        check_text(CheckV::Header { name, op: TextOp::Ne, value }) == "header "@ + name + " "@ + "!="@ + " "@ + value,
        check_text(CheckV::Header { name, op: TextOp::Contains, value }) == "header "@ + name + " "@ + "contains"@ + " "@
            + value,
        check_text(CheckV::Header { name, op: TextOp::Matches, value }) == "header "@ + name + " "@ + "matches"@ + " "@
            + value,
        check_text(CheckV::ContentType { value }) == "content type "@ + value,
        check_text(CheckV::JsonPath { path: name, op: TextOp::Eq, value: json }) == name + " "@ + "=="@ + " "@ + printed(
            json,
        ),
        check_text(CheckV::JsonPath { path: name, op: TextOp::Exists, value: json }) == name + " exists"@,
        check_text(CheckV::BodyContains { value }) == "body contains "@ + value,
        check_text(CheckV::BodyMatches { regex: value }) == "body matches "@ + value,
        check_text(CheckV::ResponseTimeBelow { max_ms }) == "response time below "@ + decimal(max_ms as nat) + " ms"@,
{
}

/// A check that failed says what was found in its place.
pub proof fn lemma_failed_check_says_what_was_found(check: CheckV, res: ResponseV)
    ensures
        checked(check, res).passed ==> checked(check, res).message.len() == 0,
        !checked(check, res).passed ==> checked(check, res).message == "got "@ + found_text(check, res),
        check is StatusCode || check is StatusClass ==> found_text(check, res) == decimal(res.status as nat),
        check matches CheckV::Header { name, .. } ==> match header_value(res.headers, name) {
            Some(v) => found_text(check, res) == v,
            None => found_text(check, res) == "nothing"@,
        },
        check is ContentType ==> match header_value(res.headers, "content-type"@) {
            Some(v) => found_text(check, res) == v,
            None => found_text(check, res) == "nothing"@,
        },
        check matches CheckV::JsonPath { path, .. } ==> match query_result(res.body, path) {
            Ok(v) => found_text(check, res) == printed(v),
            Err(d) => found_text(check, res) == d.message,
        },
        check is ResponseTimeBelow ==> found_text(check, res) == decimal(res.time_ms as nat) + " ms"@,
{
}

/// An error that keeps a request from being sent is told with where it arose.
pub proof fn lemma_errors_are_told_with_their_cause(s: Seq<char>)
    ensures
        error_text(ResolveErrorV::Interpolate(s)) == "unresolved variable {{"@ + s + "}}"@,
        error_text(ResolveErrorV::Auth(s)) == "auth: "@ + s,
        error_text(ResolveErrorV::Exec(s)) == s,
        error_text(ResolveErrorV::Body(s)) == "invalid body: "@ + s,
{
}

/// What could not be extracted is logged, one line for each.
pub proof fn lemma_failed_extractors_are_logged(errors: Seq<Seq<char>>, i: int)
    requires
        0 <= i < errors.len(),
    ensures
        extract_lines(errors).len() == errors.len(),
        extract_lines(errors)[i] == "extract: "@ + errors[i],
{
}

/// Before a request is executed it is told that it starts, and before that that
/// its iteration does, where it is to be announced. At the end the summary is
/// told.
pub proof fn lemma_steps_are_told(iteration: usize, index: usize, summary: RunSummary)
    ensures
        step_tells(NextStep::Execute { iteration, index, announce: true }, summary) == seq![
            TellV::IterationStarted { iteration: iteration as int },
            TellV::RequestStarted { iteration: iteration as int, index: index as int },
        ],
        step_tells(NextStep::Execute { iteration, index, announce: false }, summary) == seq![
            TellV::RequestStarted { iteration: iteration as int, index: index as int },
        ],
        step_tells(NextStep::Finished, summary) == seq![TellV::RunFinished(summary)],
{
    let start = TellV::RequestStarted { iteration: iteration as int, index: index as int };
    let first = TellV::IterationStarted { iteration: iteration as int };
    assert(step_tells(NextStep::Execute { iteration, index, announce: true }, summary) =~= seq![first, start]);
    assert(step_tells(NextStep::Execute { iteration, index, announce: false }, summary) =~= seq![start]);
}

/// The summary of a run has the counts of the run, each under its own name.
pub proof fn lemma_summary_has_the_counts(m: RunMachine, duration_ms: u64)
    ensures
        counts(m, duration_ms).total == m.total,
        counts(m, duration_ms).passed == m.passed,
        counts(m, duration_ms).failed == m.failed,
        counts(m, duration_ms).skipped == m.skipped,
        counts(m, duration_ms).duration_ms == duration_ms,
{
}

/// A method is found by its name, whatever the case; a name of no method finds
/// none.
pub proof fn lemma_method_is_found_by_its_name(s: Seq<char>)
    ensures
        method_named(s, 8) matches Some(m) ==> same_ignoring_case(s, m.name()),
        method_named(s, 8) is None ==> forall|m: Method| !same_ignoring_case(s, #[trigger] m.name()),
{
    lemma_named(s, 8);
    if method_named(s, 8) is None {
        assert forall|m: Method| !same_ignoring_case(s, #[trigger] m.name()) by {
            let all = crate::model::all_methods();
            assert(all[0] == Method::Get && all[1] == Method::Post && all[2] == Method::Put && all[3] == Method::Patch
                && all[4] == Method::Delete && all[5] == Method::Head && all[6] == Method::Options && all[7]
                == Method::Trace);
            let k: int = match m {
                Method::Get => 0,
                Method::Post => 1,
                Method::Put => 2,
                Method::Patch => 3,
                Method::Delete => 4,
                Method::Head => 5,
                Method::Options => 6,
                Method::Trace => 7,
            };
            assert(all[k] == m);
            assert(!same_ignoring_case(s, all[k].name()));
        }
    }
}

proof fn lemma_named(s: Seq<char>, n: int)
    requires
        0 <= n <= 8,
    ensures
        method_named(s, n) matches Some(m) ==> same_ignoring_case(s, m.name()),
        method_named(s, n) is None ==> forall|j: int|
            0 <= j < n ==> !same_ignoring_case(s, #[trigger] crate::model::all_methods()[j].name()),
    decreases n,
{
    assert(crate::model::all_methods().len() == 8);
    if n > 0 {
        lemma_named(s, n - 1);
    }
}

/// A new request has its name, method and URL, and nothing else; a workspace
/// without settings waits half a minute, follows redirects, and checks
/// certificates.
pub proof fn lemma_new_request_is_bare(name: Seq<char>, method: Method, url: Seq<char>)
    ensures
        ({
            let r = bare_request(name, method, url);
            &&& r.name == name && r.method == method && r.url == url
            &&& r.params.len() == 0 && r.headers.len() == 0 && r.assertions.len() == 0 && r.extractors.len() == 0
            &&& r.auth is Inherit && r.body is Empty && r.description.len() == 0
            &&& r.scripts.pre_request is None && r.scripts.post_response is None
            &&& r.settings.timeout_ms is None && r.settings.follow_redirects is None && r.settings.max_redirects is None
                && r.settings.verify_tls is None && !r.settings.skip_in_runs
        }),
        default_settings().timeout_ms == 30_000 && default_settings().follow_redirects && default_settings().max_redirects
            == 10 && default_settings().verify_tls && default_settings().proxy is None && default_settings().user_agent
            is None,
{
}

} // verus!
