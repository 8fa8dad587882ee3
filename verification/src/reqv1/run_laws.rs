//! What holds of a run of a request document: what hooks set, what assets find
//! and write, how the run ends, and who gets the project's token.

use vstd::prelude::*;

use crate::json::{member, JsonV};
use crate::map::{lemma_put_is_read_back, lemma_put_leaves_others, lookup};
use crate::paths::path_parts;
use crate::text::{has_prefix, same_ignoring_case};
use crate::words::trimmed;

use super::auth::{
    explicit_auth, fetched_token, kept_token, project_path, serves, step_for, usable_token, AuthKey, AuthKeyV, AuthStepV,
    CachedAuth,
};
use super::diag::{Code, DiagnosticV, Severity};
use super::ir::{EntryV, RefScheme, RequestV};
use super::jshost::{may_answer, script_at, AnswerV, ScriptV};
use super::meaning::{after_context, before_context, hook_meaning, reaction_meaning};
use super::model::{DocumentV, PipelinePhase};
use super::pipeline::{header_value, hook_outcome, query_result, reaction_outcome, AssertionV, PatchV, ReactionV, ResponseV};
use super::runner::{
    arrived, authorized, figures, header_position, hook_link, hooked, hooks_reach, may_conclude, may_hook, may_react, may_stand,
    merged, overwrites, phase_reaches, public_result, react_link, status_of, with_header, with_headers, written,
    HooksV, HttpResultView, ProgressV, RunMode, RunStatus, StageV,
};

verus! {

broadcast use vstd::string::group_string_axioms;

// ---------------------------------------------------------------------
// Headers that hooks set
// ---------------------------------------------------------------------

proof fn lemma_position(headers: Seq<(Seq<char>, Seq<char>)>, name: Seq<char>, from: int)
    requires
        0 <= from <= headers.len(),
    ensures
        match header_position(headers, name, from) {
            Some(i) => from <= i < headers.len() && same_ignoring_case(headers[i].0, name) && forall|j: int|
                from <= j < i ==> !same_ignoring_case((#[trigger] headers[j]).0, name),
            None => forall|j: int| from <= j < headers.len() ==> !same_ignoring_case((#[trigger] headers[j]).0, name),
        },
    decreases headers.len() - from,
{
    if from < headers.len() && !same_ignoring_case(headers[from].0, name) {
        lemma_position(headers, name, from + 1);
    }
}

/// Setting a header replaces the value of the first of that name, in its place
/// and under the name it has; where there is none of that name, the header
/// comes last. Every other header stays.
pub proof fn lemma_header_is_set_in_its_place(
    headers: Seq<(Seq<char>, Seq<char>)>,
    name: Seq<char>,
    value: Seq<char>,
)
    ensures
        ({
            let after = with_header(headers, (name, value));
            let is_set = exists|i: int| 0 <= i < headers.len() && same_ignoring_case((#[trigger] headers[i]).0, name);
            &&& header_value(after, name) == Some(value)
            &&& !is_set ==> after == headers.push((name, value))
            &&& is_set ==> after.len() == headers.len() && exists|i: int|
                {
                    &&& 0 <= i < headers.len()
                    &&& same_ignoring_case((#[trigger] headers[i]).0, name)
                    &&& after[i] == (headers[i].0, value)
                    &&& forall|j: int| 0 <= j < headers.len() && j != i ==> #[trigger] after[j] == headers[j]
                    &&& forall|j: int| 0 <= j < i ==> !same_ignoring_case((#[trigger] headers[j]).0, name)
                }
        }),
{
    lemma_position(headers, name, 0);
    let after = with_header(headers, (name, value));
    super::pipeline_laws::lemma_first_header_of_a_name_counts(after, name);
    if let Some(i) = header_position(headers, name, 0) {
        assert(same_ignoring_case(headers[i].0, name));
        assert(after[i] == (headers[i].0, value));
        assert forall|j: int| 0 <= j < i implies !same_ignoring_case((#[trigger] after[j]).0, name) by {
            assert(after[j] == headers[j]);
        }
        assert(same_ignoring_case(after[i].0, name));
    } else {
        let n = headers.len() as int;
        super::pipeline_laws::lemma_case_is_all_that_differs(name, name);
        assert(after[n] == (name, value));
        assert forall|j: int| 0 <= j < n implies !same_ignoring_case((#[trigger] after[j]).0, name) by {
            assert(after[j] == headers[j]);
        }
        assert(same_ignoring_case(after[n].0, name));
    }
}

/// A patch sets its headers one after the other, and warns exactly where a
/// header had another value at that moment.
pub proof fn lemma_patch_sets_its_headers_in_order(
    headers: Seq<(Seq<char>, Seq<char>)>,
    patch: Seq<(Seq<char>, Seq<char>)>,
    name: Seq<char>,
    value: Seq<char>,
)
    ensures
        with_headers(headers, seq![]) == headers,
        with_headers(headers, patch.push((name, value))) == with_header(with_headers(headers, patch), (name, value)),
        overwrites(headers, seq![]).len() == 0,
        ({
            let had = header_value(with_headers(headers, patch), name);
            let before = overwrites(headers, patch);
            let after = overwrites(headers, patch.push((name, value)));
            &&& had is None || had == Some(value) ==> after == before
            &&& had is Some && had != Some(value) ==> after.len() == before.len() + 1 && after.drop_last() == before
                && after.last().code == Code::PipelineConflict && after.last().severity != Severity::Error
        }),
{
    assert(patch.push((name, value)).drop_last() =~= patch);
    let now = with_headers(headers, patch);
    lemma_position(now, name, 0);
    super::pipeline_laws::lemma_first_header_of_a_name_counts(now, name);
    if let Some(i) = header_position(now, name, 0) {
        assert(same_ignoring_case(now[i].0, name));
        assert(header_value(now, name) == Some(now[i].1));
        let after = overwrites(headers, patch.push((name, value)));
        if now[i].1 != value {
            assert(after.drop_last() =~= overwrites(headers, patch));
        }
    }
}

/// A hook that works sets its headers and, where it gives one, the URL; nothing
/// else of the request changes. One that fails changes nothing, and the first
/// failure is the error.
pub proof fn lemma_hook_changes_what_it_says(h: HooksV, outcome: Result<PatchV, DiagnosticV>)
    ensures
        outcome matches Ok(patch) ==> {
            let after = hooked(h, outcome);
            &&& patch.url matches Some(url) ==> after.request.url == url
            &&& patch.url is None ==> after.request.url == h.request.url
            &&& after.request.headers == with_headers(h.request.headers, patch.headers)
            &&& after.request == RequestV { url: after.request.url, headers: after.request.headers, ..h.request }
            &&& after.diagnostics == h.diagnostics + overwrites(h.request.headers, patch.headers)
            &&& after.error == h.error
        },
        outcome matches Err(d) ==> {
            let after = hooked(h, outcome);
            &&& after.request == h.request
            &&& after.diagnostics == h.diagnostics.push(d)
            &&& h.error is None ==> after.error == Some(d.message)
            &&& h.error is Some ==> after.error == h.error
        },
{
}

/// A hook of the project has the outcome that its script's answer means; a
/// builtin the one of its name. Entries of other phases do nothing before the
/// request is sent.
pub proof fn lemma_hooks_run_before_the_request(
    e: EntryV,
    scripts: Seq<(Seq<char>, ScriptV)>,
    g: HooksV,
    h: HooksV,
)
    ensures
        e.phase != PipelinePhase::BeforeRequest ==> (hook_link(e, scripts, g, h) <==> h == g),
        e.phase == PipelinePhase::BeforeRequest && e.asset.scheme == RefScheme::Builtin ==> (hook_link(e, scripts, g, h)
            <==> h == hooked(g, hook_outcome(e))),
        e.phase == PipelinePhase::BeforeRequest && e.asset.scheme != RefScheme::Builtin && hook_link(e, scripts, g, h)
            ==> exists|answer: AnswerV| #[trigger]
            may_answer(e.asset.address, script_at(scripts, e.asset.address), before_context(g.request), e.input, answer)
                && h == hooked(
                g,
                match answer {
                    Ok(reply) => hook_meaning(reply.0, e.asset.raw),
                    Err(d) => Err(DiagnosticV { asset_ref: Some(e.asset.raw), ..d }),
                },
            ),
{
    if e.phase == PipelinePhase::BeforeRequest && e.asset.scheme == RefScheme::Builtin {
        assert(may_hook(e, g.request, scripts, hook_outcome(e)));
        if h == hooked(g, hook_outcome(e)) {
            assert(super::runner::hook_step(e, scripts, g, h));
        }
    }
    if e.phase == PipelinePhase::BeforeRequest && e.asset.scheme != RefScheme::Builtin && hook_link(e, scripts, g, h) {
        let outcome = choose|outcome: Result<PatchV, DiagnosticV>|
            may_hook(e, g.request, scripts, outcome) && h == #[trigger] hooked(g, outcome);
        let answer = choose|answer: AnswerV|
            {
                &&& may_answer(
                    e.asset.address,
                    script_at(scripts, e.asset.address),
                    before_context(g.request),
                    e.input,
                    answer,
                )
                &&& outcome == #[trigger] super::runner::hook_answer(answer, e.asset.raw)
            };
        assert(may_answer(
            e.asset.address,
            script_at(scripts, e.asset.address),
            before_context(g.request),
            e.input,
            answer,
        ));
    }
}

/// The hooks run one after the other, in the order of the pipeline, each on the
/// request that the ones before it have left.
pub proof fn lemma_hooks_run_in_order(scripts: Seq<(Seq<char>, ScriptV)>, start: HooksV, n: nat, h: HooksV)
    ensures
        hooks_reach(scripts, start, 0, h) <==> h == start,
        hooks_reach(scripts, start, n + 1, h) ==> exists|g: HooksV|
            hooks_reach(scripts, start, n, g) && #[trigger] hook_link(start.request.pipeline[n as int], scripts, g, h),
{
    let m = (n + 1) as nat;
    assert((m - 1) as nat == n);
    if hooks_reach(scripts, start, m, h) {
        let g = choose|g: HooksV|
            hooks_reach(scripts, start, (m - 1) as nat, g) && #[trigger] hook_link(
                start.request.pipeline[m - 1],
                scripts,
                g,
                h,
            );
        assert(hook_link(start.request.pipeline[n as int], scripts, g, h));
    }
}

// ---------------------------------------------------------------------
// What assets find and write
// ---------------------------------------------------------------------

/// A runtime value is the last one that is written under its key; a key that is
/// written over is warned of, and nothing else is.
pub proof fn lemma_last_write_counts(p: ProgressV, pairs: Seq<(Seq<char>, JsonV)>, key: Seq<char>, value: JsonV, raw: Seq<char>)
    ensures
        ({
            let before = written(p, pairs, raw);
            let after = written(p, pairs.push((key, value)), raw);
            &&& written(p, seq![], raw) == p
            &&& lookup(after.runtime, key) == Some(value)
            &&& forall|other: Seq<char>| other != key ==> lookup(after.runtime, other) == #[trigger] lookup(
                before.runtime,
                other,
            )
            &&& after.assertions == before.assertions
            &&& after.error == before.error
            &&& lookup(before.runtime, key) is None ==> after.diagnostics == before.diagnostics
            &&& lookup(before.runtime, key) is Some ==> after.diagnostics.len() == before.diagnostics.len() + 1
                && after.diagnostics.drop_last() == before.diagnostics && after.diagnostics.last().code
                == Code::PipelineConflict && after.diagnostics.last().severity != Severity::Error
                && after.diagnostics.last().asset_ref == Some(raw)
        }),
{
    assert(pairs.push((key, value)).drop_last() =~= pairs);
    let before = written(p, pairs, raw);
    let after = written(p, pairs.push((key, value)), raw);
    lemma_put_is_read_back(before.runtime, key, value);
    assert forall|other: Seq<char>| other != key implies lookup(after.runtime, other) == #[trigger] lookup(
        before.runtime,
        other,
    ) by {
        lemma_put_leaves_others(before.runtime, key, value, other);
    }
    if lookup(before.runtime, key) is Some {
        assert(after.diagnostics.drop_last() =~= before.diagnostics);
    }
}

/// What an asset finds is added to what was found before it, and what it
/// extracts is written. An asset that fails adds its diagnostic; the first error
/// is kept, and a mere note is no error.
pub proof fn lemma_outcomes_are_added(p: ProgressV, outcome: Result<ReactionV, DiagnosticV>, raw: Seq<char>)
    ensures
        outcome matches Ok(r) ==> merged(p, outcome, raw).assertions == p.assertions + r.0 && merged(p, outcome, raw).error
            == p.error && merged(p, outcome, raw).runtime == written(p, r.1, raw).runtime && merged(
            p,
            outcome,
            raw,
        ).diagnostics == written(p, r.1, raw).diagnostics,
        outcome matches Err(d) ==> {
            let after = merged(p, outcome, raw);
            &&& after.assertions == p.assertions && after.runtime == p.runtime
            &&& after.diagnostics == p.diagnostics.push(d)
            &&& p.error is Some ==> after.error == p.error
            &&& p.error is None && d.severity == Severity::Error ==> after.error == Some(d.message)
            &&& p.error is None && d.severity != Severity::Error ==> after.error is None
        },
{
    if let Ok(r) = outcome {
        lemma_written_aside(p, ProgressV { assertions: p.assertions + r.0, ..p }, r.1, raw);
    }
}

proof fn lemma_written_aside(p: ProgressV, q: ProgressV, pairs: Seq<(Seq<char>, JsonV)>, raw: Seq<char>)
    requires
        p.runtime == q.runtime,
        p.diagnostics == q.diagnostics,
    ensures
        written(p, pairs, raw).runtime == written(q, pairs, raw).runtime,
        written(p, pairs, raw).diagnostics == written(q, pairs, raw).diagnostics,
        written(q, pairs, raw).assertions == q.assertions,
        written(q, pairs, raw).error == q.error,
    decreases pairs.len(),
{
    if pairs.len() > 0 {
        lemma_written_aside(p, q, pairs.drop_last(), raw);
    }
}

/// What an asset of a phase is told went wrong: nothing after a response, the
/// error that set the phase off, and finally whatever is wrong by then.
pub open spec fn told_of(phase: PipelinePhase, start: ProgressV, now: ProgressV) -> Option<Seq<char>> {
    if phase == PipelinePhase::OnError {
        start.error
    } else if phase == PipelinePhase::Finally {
        now.error
    } else {
        None
    }
}

/// Only the assets of a phase do anything in it. A builtin looks at the response,
/// and is passed over with a note where there is none; an asset of the project
/// has the outcome that its script's answer means.
pub proof fn lemma_assets_run_in_their_phase(
    e: EntryV,
    request: RequestV,
    scripts: Seq<(Seq<char>, ScriptV)>,
    phase: PipelinePhase,
    response: Option<ResponseV>,
    start: ProgressV,
    q: ProgressV,
    p: ProgressV,
)
    ensures
        e.phase != phase ==> (react_link(e, request, scripts, phase, response, start, q, p) <==> p == q),
        e.phase == phase && e.asset.scheme == RefScheme::Builtin ==> (response matches Some(r) ==> (react_link(
            e,
            request,
            scripts,
            phase,
            response,
            start,
            q,
            p,
        ) <==> p == merged(q, reaction_outcome(e, r), e.asset.raw))),
        e.phase == phase && e.asset.scheme == RefScheme::Builtin && response is None && react_link(
            e,
            request,
            scripts,
            phase,
            response,
            start,
            q,
            p,
        ) ==> p.assertions == q.assertions && p.runtime == q.runtime && p.error == q.error && p.diagnostics.len()
            == q.diagnostics.len() + 1 && p.diagnostics.last().severity != Severity::Error,
        e.phase == phase && e.asset.scheme != RefScheme::Builtin && react_link(
            e,
            request,
            scripts,
            phase,
            response,
            start,
            q,
            p,
        ) ==> exists|answer: AnswerV| #[trigger]
            may_answer(
                e.asset.address,
                script_at(scripts, e.asset.address),
                after_context(request, response, told_of(phase, start, q)),
                e.input,
                answer,
            ) && p == merged(
                q,
                match answer {
                    Ok(reply) => reaction_meaning(reply.0, e.asset.raw),
                    Err(d) => Err(DiagnosticV { asset_ref: Some(e.asset.raw), ..d }),
                },
                e.asset.raw,
            ),
{
    let error = super::runner::told_error(phase, start, q);
    if e.phase == phase && e.asset.scheme == RefScheme::Builtin {
        if let Some(r) = response {
            assert(may_react(e, request, scripts, response, error, reaction_outcome(e, r)));
            if p == merged(q, reaction_outcome(e, r), e.asset.raw) {
                assert(super::runner::react_step(e, request, scripts, response, error, q, p));
            }
        }
    }
    if e.phase == phase && e.asset.scheme != RefScheme::Builtin && react_link(
        e,
        request,
        scripts,
        phase,
        response,
        start,
        q,
        p,
    ) {
        let outcome = choose|outcome: Result<ReactionV, DiagnosticV>|
            may_react(e, request, scripts, response, error, outcome) && p == #[trigger] merged(q, outcome, e.asset.raw);
        let answer = choose|answer: AnswerV|
            {
                &&& may_answer(
                    e.asset.address,
                    script_at(scripts, e.asset.address),
                    after_context(request, response, error),
                    e.input,
                    answer,
                )
                &&& outcome == #[trigger] super::runner::reaction_answer(answer, e.asset.raw)
            };
        assert(may_answer(
            e.asset.address,
            script_at(scripts, e.asset.address),
            after_context(request, response, told_of(phase, start, q)),
            e.input,
            answer,
        ));
    }
}

/// The assets of a phase run in the order of the pipeline.
pub proof fn lemma_phase_runs_in_order(
    request: RequestV,
    scripts: Seq<(Seq<char>, ScriptV)>,
    phase: PipelinePhase,
    response: Option<ResponseV>,
    start: ProgressV,
    n: nat,
    p: ProgressV,
)
    ensures
        phase_reaches(request, scripts, phase, response, start, 0, p) <==> p == start,
        phase_reaches(request, scripts, phase, response, start, n + 1, p) <==> exists|q: ProgressV|
            phase_reaches(request, scripts, phase, response, start, n, q) && #[trigger] react_link(
                request.pipeline[n as int],
                request,
                scripts,
                phase,
                response,
                start,
                q,
                p,
            ),
{
    let m = (n + 1) as nat;
    assert((m - 1) as nat == n);
    if phase_reaches(request, scripts, phase, response, start, m, p) {
        let q = choose|q: ProgressV|
            phase_reaches(request, scripts, phase, response, start, (m - 1) as nat, q) && #[trigger] react_link(
                request.pipeline[m - 1],
                request,
                scripts,
                phase,
                response,
                start,
                q,
                p,
            );
        assert(react_link(request.pipeline[n as int], request, scripts, phase, response, start, q, p));
    }
    if exists|q: ProgressV|
        phase_reaches(request, scripts, phase, response, start, n, q) && #[trigger] react_link(
            request.pipeline[n as int],
            request,
            scripts,
            phase,
            response,
            start,
            q,
            p,
        ) {
        let q = choose|q: ProgressV|
            phase_reaches(request, scripts, phase, response, start, n, q) && #[trigger] react_link(
                request.pipeline[n as int],
                request,
                scripts,
                phase,
                response,
                start,
                q,
                p,
            );
        assert(react_link(request.pipeline[m - 1], request, scripts, phase, response, start, q, p));
    }
}

/// After the request is sent the assertions and extractors run where there is a
/// response, then the assets for errors where there is an error, and finally
/// those that always run.
pub proof fn lemma_phases_come_in_turn(
    request: RequestV,
    scripts: Seq<(Seq<char>, ScriptV)>,
    response: Option<ResponseV>,
    start: ProgressV,
    end: ProgressV,
)
    requires
        may_conclude(request, scripts, response, start, end),
    ensures
        response is None && start.error is None ==> phase_reaches(
            request,
            scripts,
            PipelinePhase::Finally,
            response,
            start,
            request.pipeline.len(),
            end,
        ),
        response is None && start.error is Some ==> exists|b: ProgressV|
            phase_reaches(request, scripts, PipelinePhase::OnError, response, start, request.pipeline.len(), b)
                && #[trigger] phase_reaches(
                request,
                scripts,
                PipelinePhase::Finally,
                response,
                b,
                request.pipeline.len(),
                end,
            ),
        response is Some ==> exists|a: ProgressV, b: ProgressV|
            {
                &&& #[trigger] phase_reaches(
                    request,
                    scripts,
                    PipelinePhase::AfterResponse,
                    response,
                    start,
                    request.pipeline.len(),
                    a,
                )
                &&& a.error is None ==> b == a
                &&& a.error is Some ==> phase_reaches(
                    request,
                    scripts,
                    PipelinePhase::OnError,
                    response,
                    a,
                    request.pipeline.len(),
                    b,
                )
                &&& #[trigger] phase_reaches(
                    request,
                    scripts,
                    PipelinePhase::Finally,
                    response,
                    b,
                    request.pipeline.len(),
                    end,
                )
            },
{
}

// ---------------------------------------------------------------------
// How a run begins and ends
// ---------------------------------------------------------------------

/// A run ends in an error where something was an error or no response came; else
/// it fails where an assertion did not hold, and passes where all held.
pub proof fn lemma_run_ends_by_what_was_found(p: ProgressV, response: Option<ResponseV>)
    ensures
        response is None ==> status_of(p, response) == RunStatus::Error,
        p.error is Some ==> status_of(p, response) == RunStatus::Error,
        forall|i: int|
            0 <= i < p.diagnostics.len() && (#[trigger] p.diagnostics[i]).severity == Severity::Error ==> status_of(
                p,
                response,
            ) == RunStatus::Error,
        response is Some && p.error is None && (forall|i: int|
            0 <= i < p.diagnostics.len() ==> (#[trigger] p.diagnostics[i]).severity != Severity::Error) ==> {
            &&& (forall|i: int| 0 <= i < p.assertions.len() ==> (#[trigger] p.assertions[i]).passed) ==> status_of(
                p,
                response,
            ) == RunStatus::Passed
            &&& (forall|i: int|
                0 <= i < p.assertions.len() && !(#[trigger] p.assertions[i]).passed ==> status_of(p, response)
                    == RunStatus::Failed)
        },
{
    if exists|i: int| 0 <= i < p.diagnostics.len() && (#[trigger] p.diagnostics[i]).is_error() {
    } else {
        assert forall|i: int|
            0 <= i < p.diagnostics.len() implies (#[trigger] p.diagnostics[i]).severity != Severity::Error by {
            assert(!p.diagnostics[i].is_error());
        }
    }
}

/// The figures of a response are its own; without one there are none.
pub proof fn lemma_figures_are_those_of_the_response(response: Option<ResponseV>)
    ensures
        response is None ==> figures(response) is None,
        response matches Some(r) ==> (figures(response) matches Some(f) && f.status == r.status && f.time_ms == r.time_ms && (
        r.body.len() <= usize::MAX ==> f.bytes == r.body.len())),
{
}

/// The token of the project is sent as a bearer token, behind every other
/// header, and counts as a secret. Nothing else of the request changes.
pub proof fn lemma_token_is_sent_and_kept_secret(request: RequestV, token: Option<Seq<char>>)
    ensures
        token is None ==> authorized(request, token) == request,
        token matches Some(t) ==> {
            let after = authorized(request, token);
            &&& after.headers == request.headers.push(("Authorization"@, "Bearer "@ + t))
            &&& after.secret_values == request.secret_values.push(t)
            &&& after == RequestV { headers: after.headers, secret_values: after.secret_values, ..request }
        },
{
}

/// Once the hooks have run, a run over HTTP waits for its request to be sent,
/// and a mock run has its answer. After an error nothing is sent and nothing
/// answered. A mock run without a mock is an error.
pub proof fn lemma_error_keeps_the_request_back(
    h: HooksV,
    mode: RunMode,
    scripts: Seq<(Seq<char>, ScriptV)>,
    s: StageV,
)
    requires
        may_stand(h, mode, scripts, s),
    ensures
        s.request == h.request,
        s.pending <==> h.error is None && mode == RunMode::Http,
        h.error is Some ==> s.response is None && s.progress.error == h.error && s.progress.diagnostics == h.diagnostics,
        h.error is None && mode == RunMode::Http ==> s.response is None && s.progress.error is None
            && s.progress.diagnostics == h.diagnostics && s.delay_ms == 0,
        h.error is None && mode == RunMode::Mock && h.request.mock is None ==> s.response is None && s.progress.error is Some
            && s.progress.diagnostics.len() == h.diagnostics.len() + 1 && s.progress.diagnostics.last().severity
            == Severity::Error,
        h.error is None && mode == RunMode::Mock ==> (h.request.mock matches Some(super::ir::MockV::Static {
            status,
            headers,
            body,
            delay_ms,
        }) ==> (s.response matches Some(r) && r.status == status && r.headers == headers && s.delay_ms == delay_ms
            && s.progress.error is None && s.progress.diagnostics == h.diagnostics)),
        s.progress.assertions.len() == 0 && s.progress.runtime.len() == 0,
{
}

/// What was sent comes back as the response, or as the error of the run.
pub proof fn lemma_answer_is_the_response(s: StageV, sent: Option<Result<ResponseV, Seq<char>>>)
    ensures
        sent is None ==> arrived(s, sent) == (s.response, s.progress),
        sent matches Some(Ok(r)) ==> arrived(s, sent) == (Some(r), s.progress),
        sent matches Some(Err(e)) ==> {
            let (response, p) = arrived(s, sent);
            &&& response is None
            &&& p.error == Some("request failed: "@ + e)
            &&& p.diagnostics.len() == s.progress.diagnostics.len() + 1
            &&& p.diagnostics.drop_last() == s.progress.diagnostics
            &&& p.diagnostics.last().code == Code::HttpError && p.diagnostics.last().severity == Severity::Error
        },
{
    if let Some(Err(e)) = sent {
        assert(arrived(s, sent).1.diagnostics.drop_last() =~= s.progress.diagnostics);
    }
}

/// What leaves the runner is about the request that was run, under its id, with
/// its status and figures as they are.
pub proof fn lemma_result_is_of_its_request(
    request: RequestV,
    status: RunStatus,
    http: Option<HttpResultView>,
    assertions: Seq<AssertionV>,
    runtime: Seq<(Seq<char>, JsonV)>,
    diagnostics: Seq<DiagnosticV>,
    duration_ms: u64,
)
    ensures
        ({
            let r = public_result(request, status, http, assertions, runtime, diagnostics, duration_ms);
            r.request_id == request.id && r.status == status && r.http == http && r.duration_ms == duration_ms
        }),
{
}

// ---------------------------------------------------------------------
// The project's token
// ---------------------------------------------------------------------

/// A path lies at another or below it: it begins with its parts.
pub open spec fn at_or_below(path: Seq<char>, base: Seq<char>) -> bool {
    let p = path_parts(path);
    let b = path_parts(base);
    b.len() <= p.len() && forall|i: int| 0 <= i < b.len() ==> #[trigger] p[i] == b[i]
}

/// The token is for every request at or below the place it applies to, but not
/// for the request that fetches it.
pub proof fn lemma_token_serves_its_scope(request: Seq<char>, apply_to: Seq<char>, target: Seq<char>)
    ensures
        serves(request, apply_to, target) <==> path_parts(target) != path_parts(request) && at_or_below(target, apply_to),
{
    let p = path_parts(target);
    let b = path_parts(apply_to);
    if at_or_below(target, apply_to) {
        assert(p.take(b.len() as int) =~= b);
    }
    if crate::paths::lies_under(target, apply_to) || crate::paths::same_path(target, apply_to) {
        assert forall|i: int| 0 <= i < b.len() implies #[trigger] p[i] == b[i] by {
            if p.take(b.len() as int) == b {
                assert(p.take(b.len() as int)[i] == b[i]);
            }
        }
    }
}

/// A document has auth of its own where an enabled header is `Authorization`,
/// whatever the case, or an enabled hook before the request sets it: the bearer
/// and basic hooks do, and the header hook where that is the name.
pub proof fn lemma_own_auth_is_a_header_or_a_hook(doc: DocumentV)
    ensures
        forall|i: int|
            0 <= i < doc.request.headers.len() && (#[trigger] doc.request.headers[i]).enabled && same_ignoring_case(
                doc.request.headers[i].name,
                "authorization"@,
            ) ==> explicit_auth(doc),
        forall|i: int|
            0 <= i < doc.pipeline.len() && (#[trigger] doc.pipeline[i]).enabled && doc.pipeline[i].phase
                == PipelinePhase::BeforeRequest && (has_prefix(doc.pipeline[i].uses, "builtin:bearer@"@) || has_prefix(
                doc.pipeline[i].uses,
                "builtin:basic@"@,
            ) || (has_prefix(doc.pipeline[i].uses, "builtin:header@"@) && (member(doc.pipeline[i].with, "name"@)
                matches Some(JsonV::String(name)) && same_ignoring_case(name, "authorization"@)))) ==> explicit_auth(doc),
        (forall|i: int|
            0 <= i < doc.request.headers.len() ==> !(#[trigger] doc.request.headers[i]).enabled || !same_ignoring_case(
                doc.request.headers[i].name,
                "authorization"@,
            )) && (forall|i: int|
            0 <= i < doc.pipeline.len() ==> !(#[trigger] doc.pipeline[i]).enabled || doc.pipeline[i].phase
                != PipelinePhase::BeforeRequest || !(has_prefix(doc.pipeline[i].uses, "builtin:bearer@"@) || has_prefix(
                doc.pipeline[i].uses,
                "builtin:basic@"@,
            ) || (has_prefix(doc.pipeline[i].uses, "builtin:header@"@) && (member(doc.pipeline[i].with, "name"@)
                matches Some(JsonV::String(name)) && same_ignoring_case(name, "authorization"@))))) ==> !explicit_auth(doc),
{
    assert forall|i: int|
        0 <= i < doc.request.headers.len() && (#[trigger] doc.request.headers[i]).enabled && same_ignoring_case(
            doc.request.headers[i].name,
            "authorization"@,
        ) implies explicit_auth(doc) by {
        assert(super::auth::authorizes(doc.request.headers[i]));
    }
    assert forall|i: int|
        0 <= i < doc.pipeline.len() && (#[trigger] doc.pipeline[i]).enabled && doc.pipeline[i].phase
            == PipelinePhase::BeforeRequest && (has_prefix(doc.pipeline[i].uses, "builtin:bearer@"@) || has_prefix(
            doc.pipeline[i].uses,
            "builtin:basic@"@,
        ) || (has_prefix(doc.pipeline[i].uses, "builtin:header@"@) && (member(doc.pipeline[i].with, "name"@)
            matches Some(JsonV::String(name)) && same_ignoring_case(name, "authorization"@)))) implies explicit_auth(doc) by {
        assert(super::auth::hook_authorizes(doc.pipeline[i]));
    }
}

/// A token comes of a run that passed and was answered with a status from two
/// hundred on and below three hundred: it is the text at its path, and not
/// empty. Otherwise there is none.
pub proof fn lemma_token_comes_of_a_good_answer(
    request: Seq<char>,
    token_path: Seq<char>,
    status: RunStatus,
    complaint: Option<Seq<char>>,
    response: Option<ResponseV>,
)
    ensures
        fetched_token(request, token_path, status, complaint, response) is Ok <==> (status == RunStatus::Passed && (
        response matches Some(r) && 200 <= r.status < 300 && (query_result(r.body, token_path) matches Ok(JsonV::String(s))
            && s.len() > 0))),
        fetched_token(request, token_path, status, complaint, response) matches Ok(t) ==> query_result(
            response->Some_0.body,
            token_path,
        ) == Ok::<JsonV, DiagnosticV>(JsonV::String(t)),
        fetched_token(request, token_path, status, complaint, response) matches Err(d) ==> d.severity == Severity::Error && (
        status != RunStatus::Passed || response is None ==> d.code == Code::HttpError),
{
}

/// A kept token serves exactly while it has longer to live than the window in
/// which it is refreshed and the longest run of the request together.
pub proof fn lemma_token_serves_while_it_lives(
    kept: Option<(Seq<char>, u128)>,
    now: u64,
    refresh_before_seconds: u64,
    estimated_ms: u64,
)
    ensures
        kept is None ==> usable_token(kept, now, refresh_before_seconds, estimated_ms) is None,
        kept matches Some((token, expires_at)) ==> usable_token(kept, now, refresh_before_seconds, estimated_ms) == if expires_at
            > now + refresh_before_seconds * 1_000_000_000 + estimated_ms * 1_000_000 {
            Some(token)
        } else {
            None
        },
{
}

/// A request that gets the token goes with the kept one, where there is one that
/// is good for long enough, and else waits for a new one. Every other request,
/// and one with auth of its own, goes without.
pub proof fn lemma_request_goes_with_the_token(served: bool, own_auth: bool, usable: Option<Seq<char>>)
    ensures
        step_for(served, own_auth, usable) is Plain <==> !served || own_auth,
        served && !own_auth ==> (usable matches Some(token) ==> step_for(served, own_auth, usable) == AuthStepV::Kept(
            token,
        )),
        served && !own_auth && usable is None ==> step_for(served, own_auth, usable) is Fetch,
{
}

/// The token kept for a key is that of its first entry.
pub proof fn lemma_token_is_kept_by_its_key(tokens: Seq<(AuthKey, CachedAuth)>, key: AuthKeyV, i: int)
    requires
        0 <= i < tokens.len(),
        tokens[i].0@ == key,
        forall|j: int| 0 <= j < i ==> (#[trigger] tokens[j]).0@ != key,
    ensures
        kept_token(tokens, key) == Some((tokens[i].1.value@, tokens[i].1.expires_at)),
    decreases tokens.len(),
{
    if i > 0 {
        assert(tokens[0].0@ != key);
        let rest = tokens.skip(1);
        assert forall|j: int| 0 <= j < i - 1 implies (#[trigger] rest[j]).0@ != key by {
            assert(rest[j] == tokens[j + 1]);
        }
        lemma_token_is_kept_by_its_key(rest, key, i - 1);
    }
}

/// A path that a project names is taken where it is written as one inside the
/// project and leads to a place inside the project, and nowhere else.
pub proof fn lemma_project_paths_stay_inside(
    value: Seq<char>,
    label: Seq<char>,
    root: Seq<char>,
    path: Seq<char>,
    real_root: Result<Seq<char>, Seq<char>>,
    real_path: Result<Seq<char>, Seq<char>>,
)
    ensures
        project_path(value, label, root, path, real_root, real_path) is Ok <==> trimmed(value).len() > 0 && value[0] != '/'
            && !path_parts(value).contains(".."@) && (real_root matches Ok(r) && (real_path matches Ok(p) && at_or_below(p, r))),
        project_path(value, label, root, path, real_root, real_path) matches Ok(p) ==> real_path == Ok::<
            Seq<char>,
            Seq<char>,
        >(p),
{
    reveal_strlit("..");
    assert(".."@ =~= seq!['.', '.']);
    if value.len() == 0 {
        assert(trimmed(value).len() == 0);
    }
    if let (Ok(r), Ok(p)) = (real_root, real_path) {
        let a = path_parts(p);
        let b = path_parts(r);
        if at_or_below(p, r) {
            assert(a.take(b.len() as int) =~= b);
        }
        if crate::paths::lies_under(p, r) {
            assert forall|i: int| 0 <= i < b.len() implies #[trigger] a[i] == b[i] by {
                assert(a.take(b.len() as int)[i] == b[i]);
            }
        }
    }
}

} // verus!
