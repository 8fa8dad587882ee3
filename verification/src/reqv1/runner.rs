//! The run of one request: hooks, the send or the mock, assertions and
//! extractors, and the result that leaves the runner. The send itself happens
//! between [`begin`] and [`complete`].

use vstd::prelude::*;

use crate::json::{Json, JsonV};
use crate::map::{ascending, lookup, put, TextMap};
use crate::reqv1::diag::{copy_text, diag, Code, Diagnostic, DiagnosticV};
use crate::reqv1::ir::{EntryV, RefScheme, RequestV, ResolvedHeader, ResolvedPipelineEntry, ResolvedRequest};
use crate::reqv1::jshost::{answer_view, may_answer, run_loaded, script_at, AnswerV, Script, ScriptV};
use crate::reqv1::meaning::{
    after_context, after_ctx, before_context, before_ctx, hook_meaning, patch_view, reaction_meaning, read_hook,
    read_reaction, response_opt,
};
use crate::reqv1::model::PipelinePhase;
use crate::reqv1::outgoing::{may_serve, serve_mock, served_view};
use crate::reqv1::pipeline::{
    hook_outcome, is_project_asset, reaction_outcome, reaction_view, run_after_response, run_before_request,
    AssertionResult, AssertionV, PatchV, ReactionV, RequestPatch, ResponseV, ResponseView,
};
use crate::mask::star_free;
use crate::reqv1::redact::{
    assertion_hides, diagnostic_hides, lemma_masked_assertion_hides, lemma_masked_diagnostic_hides,
    lemma_masked_pairs_hide, pairs_hide, mask_assertions, mask_diagnostics, mask_runtime_writes, masked_assertions, masked_diagnostics, masked_runtime,
};
use crate::text::{cat2, cat3, eq_ignore_case, same, same_ignoring_case};
use crate::view::{group_views, opt_or, opt_view, ref_view, views};
use crate::words::{quote, quoted};

verus! {

broadcast use vstd::string::group_string_axioms;

// ---------------------------------------------------------------------
// Results
// ---------------------------------------------------------------------

/// How a run ended.
#[derive(Debug, Clone, Copy, PartialEq, Eq, Structural)]
pub enum RunStatus {
    Passed,
    Failed,
    Error,
}

/// The response in figures.
#[derive(Debug, Clone, Copy, PartialEq, Eq, Structural)]
pub struct HttpResultView {
    pub status: u16,
    pub time_ms: u64,
    pub bytes: usize,
}

/// Where the response comes from.
#[derive(Debug, Clone, Copy, PartialEq, Eq, Structural)]
pub enum RunMode {
    /// Send the request over HTTP.
    Http,
    /// Serve the mock of the document.
    Mock,
}

/// The outcome of one request run.
#[derive(Debug)]
pub struct RunResult {
    pub request_id: String,
    pub status: RunStatus,
    pub http: Option<HttpResultView>,
    pub assertions: Vec<AssertionResult>,
    pub runtime: TextMap<Json>,
    pub diagnostics: Vec<Diagnostic>,
    pub duration_ms: u64,
}

/// What a [`RunResult`] says.
pub struct RunResultV {
    pub request_id: Seq<char>,
    pub status: RunStatus,
    pub http: Option<HttpResultView>,
    pub assertions: Seq<AssertionV>,
    pub runtime: Seq<(Seq<char>, JsonV)>,
    pub diagnostics: Seq<DiagnosticV>,
    pub duration_ms: u64,
}

impl View for RunResult {
    type V = RunResultV;

    open spec fn view(&self) -> RunResultV {
        RunResultV {
            request_id: self.request_id@,
            status: self.status,
            http: self.http,
            assertions: views(self.assertions@),
            runtime: self.runtime@,
            diagnostics: views(self.diagnostics@),
            duration_ms: self.duration_ms,
        }
    }
}

/// A run with what stays inside the process.
#[derive(Debug)]
pub struct RunExecution {
    pub result: RunResult,
    pub response: Option<ResponseView>,
    /// Extractor output before masking; it feeds the next request only.
    pub runtime_unmasked: TextMap<Json>,
}

/// The result of a run that ended before it had begun.
pub open spec fn failed_result(id: Seq<char>, diagnostics: Seq<DiagnosticV>, duration_ms: u64) -> RunResultV {
    RunResultV {
        request_id: id,
        status: RunStatus::Error,
        http: None,
        assertions: seq![],
        runtime: seq![],
        diagnostics,
        duration_ms,
    }
}

/// A run that ended before it had begun.
pub fn failed_execution(id: &str, diagnostics: Vec<Diagnostic>, duration_ms: u64) -> (r: RunExecution)
    ensures
        r.result@ == failed_result(id@, views(diagnostics@), duration_ms),
        r.response is None,
        r.runtime_unmasked@ == Seq::<(Seq<char>, JsonV)>::empty(),
{
    broadcast use group_views;

    RunExecution {
        result: RunResult {
            request_id: id.to_owned(),
            status: RunStatus::Error,
            http: None,
            assertions: Vec::new(),
            runtime: TextMap::new(),
            diagnostics,
            duration_ms,
        },
        response: None,
        runtime_unmasked: TextMap::new(),
    }
}

// ---------------------------------------------------------------------
// What a run has gathered so far
// ---------------------------------------------------------------------

/// What a run has gathered so far.
#[derive(Debug)]
pub struct Progress {
    pub assertions: Vec<AssertionResult>,
    pub runtime: TextMap<Json>,
    pub diagnostics: Vec<Diagnostic>,
    /// The first error.
    pub error: Option<String>,
}

/// What a [`Progress`] says.
pub struct ProgressV {
    pub assertions: Seq<AssertionV>,
    pub runtime: Seq<(Seq<char>, JsonV)>,
    pub diagnostics: Seq<DiagnosticV>,
    pub error: Option<Seq<char>>,
}

impl View for Progress {
    type V = ProgressV;

    open spec fn view(&self) -> ProgressV {
        ProgressV {
            assertions: views(self.assertions@),
            runtime: self.runtime@,
            diagnostics: views(self.diagnostics@),
            error: opt_view(self.error),
        }
    }
}

/// The warning that two extractors wrote one runtime key.
pub open spec fn write_conflict(key: Seq<char>, raw: Seq<char>) -> DiagnosticV {
    diag(
        Code::PipelineConflict,
        "runtime key "@ + quoted(key) + " written by more than one extractor"@,
    ).with_ref(raw)
}

/// `p` with runtime values written in order; each overwritten key is warned of.
pub open spec fn written(p: ProgressV, pairs: Seq<(Seq<char>, JsonV)>, raw: Seq<char>) -> ProgressV
    decreases pairs.len(),
{
    if pairs.len() == 0 {
        p
    } else {
        let q = written(p, pairs.drop_last(), raw);
        let (key, value) = pairs.last();
        ProgressV {
            runtime: put(q.runtime, key, value),
            diagnostics: if lookup(q.runtime, key) is Some {
                q.diagnostics.push(write_conflict(key, raw))
            } else {
                q.diagnostics
            },
            ..q
        }
    }
}

/// `p` with a diagnostic; the message of the first error is kept.
pub open spec fn noted(p: ProgressV, d: DiagnosticV) -> ProgressV {
    ProgressV {
        diagnostics: p.diagnostics.push(d),
        error: if d.is_error() && p.error is None {
            Some(d.message)
        } else {
            p.error
        },
        ..p
    }
}

/// `p` with the outcome of one asset.
pub open spec fn merged(p: ProgressV, outcome: Result<ReactionV, DiagnosticV>, raw: Seq<char>) -> ProgressV {
    match outcome {
        Ok((results, extracted)) => written(
            ProgressV { assertions: p.assertions + results, ..p },
            extracted,
            raw,
        ),
        Err(d) => noted(p, d),
    }
}

/// Add a diagnostic; the message of the first error is kept.
fn note(p: &mut Progress, d: Diagnostic)
    ensures
        final(p)@ == noted(old(p)@, d@),
{
    broadcast use group_views;

    if d.is_error() && p.error.is_none() {
        p.error = Some(d.message.clone());
    }
    p.diagnostics.push(d);
}

/// Add the outcome of one asset: assertions, runtime values with a warning for
/// each key that was written before, or a diagnostic.
pub fn merge_reaction(outcome: Result<(Vec<AssertionResult>, TextMap<Json>), Diagnostic>, raw: &str, p: &mut Progress)
    requires
        ascending(old(p)@.runtime),
    ensures
        final(p)@ == merged(old(p)@, reaction_view(outcome), raw@),
        ascending(final(p)@.runtime),
{
    broadcast use group_views;

    match outcome {
        Err(d) => note(p, d),
        Ok((results, extracted)) => {
            let mut results = results;
            let ghost before = p@;
            let ghost start = ProgressV { assertions: before.assertions + views(results@), ..before };
            let ghost pairs = extracted@;
            p.assertions.append(&mut results);
            assert(p@.assertions =~= start.assertions);
            let mut i: usize = 0;
            assert(pairs.take(0) =~= Seq::empty());
            while i < extracted.pairs.len()
                invariant
                    i <= extracted.pairs.len(),
                    pairs == extracted@,
                    p@ == written(start, pairs.take(i as int), raw@),
                    ascending(p@.runtime),
                decreases extracted.pairs.len() - i,
            {
                assert(pairs.take(i + 1).drop_last() =~= pairs.take(i as int));
                let ghost q = p@;
                let key = extracted.pairs[i].0.clone();
                let value = extracted.pairs[i].1.copy();
                assert(pairs.take(i + 1).last() == (key@, value@));
                let replaced = p.runtime.insert(key, value);
                if replaced {
                    let message = cat3(
                        "runtime key ",
                        quote(extracted.pairs[i].0.as_str()).as_str(),
                        " written by more than one extractor",
                    );
                    p.diagnostics.push(Diagnostic::new(Code::PipelineConflict, message).with_ref(raw));
                    assert(p@.diagnostics == q.diagnostics.push(write_conflict(extracted.pairs@[i as int].0@, raw@)));
                } else {
                    assert(p@.diagnostics == q.diagnostics);
                }
                assert(p@ == written(start, pairs.take(i + 1), raw@));
                i += 1;
            }
            assert(pairs.take(i as int) =~= pairs);
        },
    }
}

// ---------------------------------------------------------------------
// Patches
// ---------------------------------------------------------------------

/// The position, from `from` on, of the first header called `name`.
pub open spec fn header_position(headers: Seq<(Seq<char>, Seq<char>)>, name: Seq<char>, from: int) -> Option<int>
    decreases headers.len() - from,
{
    if from < 0 || from >= headers.len() {
        None
    } else if same_ignoring_case(headers[from].0, name) {
        Some(from)
    } else {
        header_position(headers, name, from + 1)
    }
}

/// `headers` with one header set: the value of the first of that name is
/// replaced, or the header comes last.
pub open spec fn with_header(headers: Seq<(Seq<char>, Seq<char>)>, h: (Seq<char>, Seq<char>)) -> Seq<
    (Seq<char>, Seq<char>),
> {
    match header_position(headers, h.0, 0) {
        Some(i) => headers.update(i, (headers[i].0, h.1)),
        None => headers.push(h),
    }
}

/// `headers` with every header of a patch set, in order.
pub open spec fn with_headers(headers: Seq<(Seq<char>, Seq<char>)>, patch: Seq<(Seq<char>, Seq<char>)>) -> Seq<
    (Seq<char>, Seq<char>),
>
    decreases patch.len(),
{
    if patch.len() == 0 {
        headers
    } else {
        with_header(with_headers(headers, patch.drop_last()), patch.last())
    }
}

/// The warning that a hook overwrote a header.
pub open spec fn overwrite_warning(name: Seq<char>) -> DiagnosticV {
    diag(Code::PipelineConflict, "header "@ + name + " overwritten by a beforeRequest hook"@)
}

/// The warnings that come with setting every header of a patch: one for each
/// header that had another value.
pub open spec fn overwrites(headers: Seq<(Seq<char>, Seq<char>)>, patch: Seq<(Seq<char>, Seq<char>)>) -> Seq<DiagnosticV>
    decreases patch.len(),
{
    if patch.len() == 0 {
        seq![]
    } else {
        let now = with_headers(headers, patch.drop_last());
        let before = overwrites(headers, patch.drop_last());
        let h = patch.last();
        match header_position(now, h.0, 0) {
            Some(i) => if now[i].1 != h.1 {
                before.push(overwrite_warning(h.0))
            } else {
                before
            },
            None => before,
        }
    }
}

/// The request with a patch applied.
pub open spec fn patched(request: RequestV, patch: PatchV) -> RequestV {
    RequestV {
        url: opt_or(patch.url, request.url),
        headers: with_headers(request.headers, patch.headers),
        ..request
    }
}

pub(crate) fn find_header(headers: &Vec<ResolvedHeader>, name: &str) -> (r: Option<usize>)
    ensures
        match r {
            Some(i) => i < headers@.len() && header_position(views(headers@), name@, 0) == Some(i as int),
            None => header_position(views(headers@), name@, 0) is None,
        },
{
    let mut i: usize = 0;
    while i < headers.len()
        invariant
            i <= headers.len(),
            header_position(views(headers@), name@, 0) == header_position(views(headers@), name@, i as int),
        decreases headers.len() - i,
    {
        if eq_ignore_case(headers[i].name.as_str(), name) {
            return Some(i);
        }
        i += 1;
    }
    None
}

/// Set headers by name, whatever the case; a warning tells of each overwritten
/// value.
pub fn set_headers(headers: &mut Vec<ResolvedHeader>, patch: &Vec<ResolvedHeader>, diagnostics: &mut Vec<Diagnostic>)
    ensures
        views(final(headers)@) == with_headers(views(old(headers)@), views(patch@)),
        views(final(diagnostics)@) == views(old(diagnostics)@) + overwrites(views(old(headers)@), views(patch@)),
{
    broadcast use group_views;

    let ghost before = views(headers@);
    let ghost told = views(diagnostics@);
    let ghost all = views(patch@);
    let mut i: usize = 0;
    assert(all.take(0) =~= Seq::empty());
    assert(told + Seq::<DiagnosticV>::empty() =~= told);
    while i < patch.len()
        invariant
            i <= patch.len(),
            all == views(patch@),
            views(headers@) == with_headers(before, all.take(i as int)),
            views(diagnostics@) == told + overwrites(before, all.take(i as int)),
        decreases patch.len() - i,
    {
        assert(all.take(i + 1).drop_last() =~= all.take(i as int));
        assert(all.take(i + 1).last() == patch@[i as int]@);
        let ghost now = views(headers@);
        match find_header(headers, patch[i].name.as_str()) {
            Some(at) => {
                if !same(headers[at].value.as_str(), patch[i].value.as_str()) {
                    let message = cat3("header ", patch[i].name.as_str(), " overwritten by a beforeRequest hook");
                    let ghost list = overwrites(before, all.take(i as int));
                    diagnostics.push(Diagnostic::new(Code::PipelineConflict, message));
                    assert((told + list).push(overwrite_warning(patch@[i as int].name@)) =~= told + list.push(
                        overwrite_warning(patch@[i as int].name@),
                    ));
                }
                let name = headers[at].name.clone();
                let value = patch[i].value.clone();
                headers.set(at, ResolvedHeader { name, value });
                assert(views(headers@) =~= now.update(at as int, (now[at as int].0, patch@[i as int]@.1)));
            },
            None => {
                headers.push(patch[i].copy());
                assert(views(headers@) == now.push(patch@[i as int]@));
            },
        }
        assert(views(headers@) == with_header(now, patch@[i as int]@));
        i += 1;
    }
    assert(all.take(i as int) =~= all);
}

/// Apply a hook's change to the request: the URL is replaced, headers are set
/// by name whatever the case, and a warning tells of each overwritten value.
pub fn apply_patch(ir: &mut ResolvedRequest, patch: RequestPatch, diagnostics: &mut Vec<Diagnostic>)
    ensures
        final(ir)@ == patched(old(ir)@, patch@),
        views(final(diagnostics)@) == views(old(diagnostics)@) + overwrites(old(ir)@.headers, patch@.headers),
{
    let RequestPatch { headers, url } = patch;
    if let Some(url) = url {
        ir.url = url;
    }
    set_headers(&mut ir.headers, &headers, diagnostics);
}

// ---------------------------------------------------------------------
// Hooks
// ---------------------------------------------------------------------

/// A request on its way through its hooks.
pub struct HooksV {
    pub request: RequestV,
    pub diagnostics: Seq<DiagnosticV>,
    pub error: Option<Seq<char>>,
}

/// What an answer of a project hook means.
pub open spec fn hook_answer(answer: AnswerV, raw: Seq<char>) -> Result<PatchV, DiagnosticV> {
    match answer {
        Ok((out, _)) => hook_meaning(out, raw),
        Err(d) => Err(d.with_ref(raw)),
    }
}

/// `h` after the outcome of one hook: its patch, or its error.
pub open spec fn hooked(h: HooksV, outcome: Result<PatchV, DiagnosticV>) -> HooksV {
    match outcome {
        Ok(patch) => HooksV {
            request: patched(h.request, patch),
            diagnostics: h.diagnostics + overwrites(h.request.headers, patch.headers),
            error: h.error,
        },
        Err(d) => HooksV {
            request: h.request,
            diagnostics: h.diagnostics.push(d),
            error: if h.error is None {
                Some(d.message)
            } else {
                h.error
            },
        },
    }
}

/// The outcomes that a hook may have on a request: a builtin has one, a
/// project asset whatever its script answers.
pub open spec fn may_hook(
    e: EntryV,
    request: RequestV,
    scripts: Seq<(Seq<char>, ScriptV)>,
    outcome: Result<PatchV, DiagnosticV>,
) -> bool {
    if e.asset.scheme != RefScheme::Builtin {
        exists|answer: AnswerV|
            {
                &&& may_answer(
                    e.asset.address,
                    script_at(scripts, e.asset.address),
                    before_context(request),
                    e.input,
                    answer,
                )
                &&& outcome == #[trigger] hook_answer(answer, e.asset.raw)
            }
    } else {
        outcome == hook_outcome(e)
    }
}

/// One hook takes `g` to `h`.
pub open spec fn hook_step(e: EntryV, scripts: Seq<(Seq<char>, ScriptV)>, g: HooksV, h: HooksV) -> bool {
    exists|outcome: Result<PatchV, DiagnosticV>|
        may_hook(e, g.request, scripts, outcome) && h == #[trigger] hooked(g, outcome)
}

/// One pipeline entry takes `g` to `h`; only hooks do anything.
pub open spec fn hook_link(e: EntryV, scripts: Seq<(Seq<char>, ScriptV)>, g: HooksV, h: HooksV) -> bool {
    if e.phase == PipelinePhase::BeforeRequest {
        hook_step(e, scripts, g, h)
    } else {
        h == g
    }
}

/// The hooks among the first `n` pipeline entries take `start` to `h`.
pub open spec fn hooks_reach(scripts: Seq<(Seq<char>, ScriptV)>, start: HooksV, n: nat, h: HooksV) -> bool
    decreases n,
{
    if n == 0 {
        h == start
    } else {
        exists|g: HooksV|
            hooks_reach(scripts, start, (n - 1) as nat, g) && #[trigger] hook_link(
                start.request.pipeline[n - 1],
                scripts,
                g,
                h,
            )
    }
}

/// Run the project hook `entry` and keep what it logs.
pub fn run_js_hook_with_logs(entry: &ResolvedPipelineEntry, ir: &ResolvedRequest, scripts: &TextMap<Script>) -> (r: Result<
    (RequestPatch, Vec<String>),
    Diagnostic,
>)
    ensures
        exists|answer: AnswerV|
            {
                &&& may_answer(
                    entry@.asset.address,
                    script_at(scripts@, entry@.asset.address),
                    before_context(ir@),
                    entry@.input,
                    answer,
                )
                &&& #[trigger] hook_answer(answer, entry@.asset.raw) == match r {
                    Ok((patch, _)) => Ok::<PatchV, DiagnosticV>(patch@),
                    Err(d) => Err::<PatchV, DiagnosticV>(d@),
                }
                &&& r matches Ok((_, logs)) ==> answer->Ok_0.1 == views(logs@)
            },
{
    let ctx = before_ctx(ir);
    let outcome = run_loaded(scripts, entry.asset.address.as_str(), &ctx, &entry.input);
    let ghost answer = answer_view(outcome);
    let r = match outcome {
        Err(d) => Err(d.with_ref(entry.asset.raw.as_str())),
        Ok((out, logs)) => match read_hook(&out, entry.asset.raw.as_str()) {
            Ok(patch) => Ok((patch, logs)),
            Err(d) => Err(d),
        },
    };
    assert(hook_answer(answer, entry@.asset.raw) == match r {
        Ok((patch, _)) => Ok::<PatchV, DiagnosticV>(patch@),
        Err(d) => Err::<PatchV, DiagnosticV>(d@),
    });
    r
}

/// Run one hook, builtin or project asset.
pub fn run_hook(entry: &ResolvedPipelineEntry, ir: &ResolvedRequest, scripts: &TextMap<Script>) -> (r: Result<
    RequestPatch,
    Diagnostic,
>)
    ensures
        may_hook(entry@, ir@, scripts@, patch_view(r)),
{
    if is_project_asset(entry) {
        match run_js_hook_with_logs(entry, ir, scripts) {
            Ok((patch, _)) => Ok(patch),
            Err(d) => Err(d),
        }
    } else {
        run_before_request(entry, ir)
    }
}

/// What a request and its diagnostics say on the way through the hooks.
pub open spec fn hooks_view(ir: ResolvedRequest, diagnostics: Seq<Diagnostic>, error: Option<String>) -> HooksV {
    HooksV { request: ir@, diagnostics: views(diagnostics), error: opt_view(error) }
}

/// Run every hook in pipeline order, and give the first error.
pub fn run_hooks(ir: &mut ResolvedRequest, scripts: &TextMap<Script>, diagnostics: &mut Vec<Diagnostic>) -> (error: Option<
    String,
>)
    ensures
        hooks_reach(
            scripts@,
            hooks_view(*old(ir), old(diagnostics)@, None),
            old(ir)@.pipeline.len(),
            hooks_view(*final(ir), final(diagnostics)@, error),
        ),
        final(ir)@.pipeline == old(ir)@.pipeline,
{
    broadcast use group_views;

    let ghost start = hooks_view(*ir, diagnostics@, None);
    let ghost entries = ir@.pipeline;
    let n: usize = ir.pipeline.len();
    let mut error: Option<String> = None;
    let mut i: usize = 0;
    while i < n
        invariant
            i <= n,
            n == entries.len(),
            ir@.pipeline == entries,
            start.request.pipeline == entries,
            hooks_reach(scripts@, start, i as nat, hooks_view(*ir, diagnostics@, error)),
        decreases n - i,
    {
        let ghost g = hooks_view(*ir, diagnostics@, error);
        assert(ir.pipeline@.len() == ir@.pipeline.len());
        assert(ir@.pipeline[i as int] == ir.pipeline@[i as int]@);
        if ir.pipeline[i].phase == PipelinePhase::BeforeRequest {
            let outcome = run_hook(&ir.pipeline[i], ir, scripts);
            let ghost view = patch_view(outcome);
            match outcome {
                Ok(patch) => {
                    apply_patch(ir, patch, diagnostics);
                    assert(hooks_view(*ir, diagnostics@, error) == hooked(g, view));
                },
                Err(d) => {
                    if error.is_none() {
                        error = Some(d.message.clone());
                    }
                    diagnostics.push(d);
                    assert(hooks_view(*ir, diagnostics@, error).diagnostics == hooked(g, view).diagnostics);
                    assert(hooks_view(*ir, diagnostics@, error) == hooked(g, view));
                },
            }
            assert(hook_step(entries[i as int], scripts@, g, hooks_view(*ir, diagnostics@, error)));
        }
        assert(hook_link(entries[(i + 1) - 1], scripts@, g, hooks_view(*ir, diagnostics@, error)));
        i += 1;
    }
    error
}

// ---------------------------------------------------------------------
// Assertions and extractors
// ---------------------------------------------------------------------

/// What a builtin finds; without a response it is passed over with a note.
pub open spec fn builtin_reaction(e: EntryV, response: Option<ResponseV>) -> Result<ReactionV, DiagnosticV> {
    match response {
        Some(r) => reaction_outcome(e, r),
        None => Err(
            diag(
                Code::AssetError,
                "builtin "@ + quoted(e.asset.raw) + " skipped: no response available in this phase"@,
            ).info().with_ref(e.asset.raw),
        ),
    }
}

/// What an answer of a project assertion or extractor means.
pub open spec fn reaction_answer(answer: AnswerV, raw: Seq<char>) -> Result<ReactionV, DiagnosticV> {
    match answer {
        Ok((out, _)) => reaction_meaning(out, raw),
        Err(d) => Err(d.with_ref(raw)),
    }
}

/// The outcomes that an assertion or extractor may have.
pub open spec fn may_react(
    e: EntryV,
    request: RequestV,
    scripts: Seq<(Seq<char>, ScriptV)>,
    response: Option<ResponseV>,
    error: Option<Seq<char>>,
    outcome: Result<ReactionV, DiagnosticV>,
) -> bool {
    if e.asset.scheme != RefScheme::Builtin {
        exists|answer: AnswerV|
            {
                &&& may_answer(
                    e.asset.address,
                    script_at(scripts, e.asset.address),
                    after_context(request, response, error),
                    e.input,
                    answer,
                )
                &&& outcome == #[trigger] reaction_answer(answer, e.asset.raw)
            }
    } else {
        outcome == builtin_reaction(e, response)
    }
}

/// The error that an asset of a phase is told of: none after a response, the
/// one that set the phase off on an error, the one of the moment finally.
pub open spec fn told_error(phase: PipelinePhase, start: ProgressV, now: ProgressV) -> Option<Seq<char>> {
    match phase {
        PipelinePhase::OnError => start.error,
        PipelinePhase::Finally => now.error,
        _ => None,
    }
}

/// One asset takes `q` to `p`.
pub open spec fn react_step(
    e: EntryV,
    request: RequestV,
    scripts: Seq<(Seq<char>, ScriptV)>,
    response: Option<ResponseV>,
    error: Option<Seq<char>>,
    q: ProgressV,
    p: ProgressV,
) -> bool {
    exists|outcome: Result<ReactionV, DiagnosticV>|
        may_react(e, request, scripts, response, error, outcome) && p == #[trigger] merged(q, outcome, e.asset.raw)
}

/// One pipeline entry takes `q` to `p`; only assets of `phase` do anything.
pub open spec fn react_link(
    e: EntryV,
    request: RequestV,
    scripts: Seq<(Seq<char>, ScriptV)>,
    phase: PipelinePhase,
    response: Option<ResponseV>,
    start: ProgressV,
    q: ProgressV,
    p: ProgressV,
) -> bool {
    if e.phase == phase {
        react_step(e, request, scripts, response, told_error(phase, start, q), q, p)
    } else {
        p == q
    }
}

/// The assets of `phase` among the first `n` pipeline entries take `start` to
/// `p`.
pub open spec fn phase_reaches(
    request: RequestV,
    scripts: Seq<(Seq<char>, ScriptV)>,
    phase: PipelinePhase,
    response: Option<ResponseV>,
    start: ProgressV,
    n: nat,
    p: ProgressV,
) -> bool
    decreases n,
{
    if n == 0 {
        p == start
    } else {
        exists|q: ProgressV|
            phase_reaches(request, scripts, phase, response, start, (n - 1) as nat, q) && #[trigger] react_link(
                request.pipeline[n - 1],
                request,
                scripts,
                phase,
                response,
                start,
                q,
                p,
            )
    }
}

/// Run a project assertion or extractor and keep what it logs.
pub fn run_js_after_with_logs(
    entry: &ResolvedPipelineEntry,
    ir: &ResolvedRequest,
    response: Option<&ResponseView>,
    error: Option<&str>,
    scripts: &TextMap<Script>,
) -> (r: Result<((Vec<AssertionResult>, TextMap<Json>), Vec<String>), Diagnostic>)
    ensures
        exists|answer: AnswerV|
            {
                &&& may_answer(
                    entry@.asset.address,
                    script_at(scripts@, entry@.asset.address),
                    after_context(ir@, response_opt(response), ref_view(error)),
                    entry@.input,
                    answer,
                )
                &&& #[trigger] reaction_answer(answer, entry@.asset.raw) == match r {
                    Ok((reaction, _)) => reaction_view(Ok(reaction)),
                    Err(d) => Err::<ReactionV, DiagnosticV>(d@),
                }
                &&& r matches Ok((_, logs)) ==> answer->Ok_0.1 == views(logs@)
            },
{
    let ctx = after_ctx(ir, response, error);
    let outcome = run_loaded(scripts, entry.asset.address.as_str(), &ctx, &entry.input);
    let ghost answer = answer_view(outcome);
    let r = match outcome {
        Err(d) => Err(d.with_ref(entry.asset.raw.as_str())),
        Ok((out, logs)) => match read_reaction(&out, entry.asset.raw.as_str()) {
            Ok(reaction) => Ok((reaction, logs)),
            Err(d) => Err(d),
        },
    };
    assert(reaction_answer(answer, entry@.asset.raw) == match r {
        Ok((reaction, _)) => reaction_view(Ok(reaction)),
        Err(d) => Err::<ReactionV, DiagnosticV>(d@),
    });
    r
}

/// Run one assertion or extractor. A builtin needs a response and is passed
/// over with a note where there is none; a project asset always runs, with the
/// response and the error, if any.
pub fn reaction_asset(
    entry: &ResolvedPipelineEntry,
    ir: &ResolvedRequest,
    response: Option<&ResponseView>,
    error: Option<&str>,
    scripts: &TextMap<Script>,
) -> (r: Result<(Vec<AssertionResult>, TextMap<Json>), Diagnostic>)
    ensures
        may_react(entry@, ir@, scripts@, response_opt(response), ref_view(error), reaction_view(r)),
{
    if is_project_asset(entry) {
        match run_js_after_with_logs(entry, ir, response, error, scripts) {
            Ok((reaction, _)) => Ok(reaction),
            Err(d) => Err(d),
        }
    } else {
        match response {
            Some(r) => run_after_response(entry, r),
            None => Err(
                Diagnostic::new(
                    Code::AssetError,
                    cat3(
                        "builtin ",
                        quote(entry.asset.raw.as_str()).as_str(),
                        " skipped: no response available in this phase",
                    ),
                ).info().with_ref(entry.asset.raw.as_str()),
            ),
        }
    }
}

/// Run the assets of one phase in pipeline order.
pub fn run_phase(
    ir: &ResolvedRequest,
    scripts: &TextMap<Script>,
    phase: PipelinePhase,
    response: Option<&ResponseView>,
    p: &mut Progress,
)
    requires
        ascending(old(p)@.runtime),
    ensures
        phase_reaches(ir@, scripts@, phase, response_opt(response), old(p)@, ir@.pipeline.len(), final(p)@),
        ascending(final(p)@.runtime),
{
    let ghost start = p@;
    let first = copy_text(&p.error);
    let mut i: usize = 0;
    while i < ir.pipeline.len()
        invariant
            i <= ir.pipeline.len(),
            opt_view(first) == start.error,
            ascending(p@.runtime),
            phase_reaches(ir@, scripts@, phase, response_opt(response), start, i as nat, p@),
        decreases ir.pipeline.len() - i,
    {
        let ghost q = p@;
        let ghost e = ir@.pipeline[i as int];
        assert(e == ir.pipeline@[i as int]@);
        if ir.pipeline[i].phase == phase {
            let told = match phase {
                PipelinePhase::OnError => copy_text(&first),
                PipelinePhase::Finally => copy_text(&p.error),
                _ => None,
            };
            let error: Option<&str> = match &told {
                Some(s) => Some(s.as_str()),
                None => None,
            };
            assert(ref_view(error) == told_error(phase, start, q));
            let outcome = reaction_asset(&ir.pipeline[i], ir, response, error, scripts);
            let ghost view = reaction_view(outcome);
            merge_reaction(outcome, ir.pipeline[i].asset.raw.as_str(), p);
            assert(p@ == merged(q, view, e.asset.raw));
            assert(react_step(e, ir@, scripts@, response_opt(response), told_error(phase, start, q), q, p@));
        }
        assert(react_link(
            ir@.pipeline[(i + 1) - 1],
            ir@,
            scripts@,
            phase,
            response_opt(response),
            start,
            q,
            p@,
        ));
        i += 1;
    }
}

// ---------------------------------------------------------------------
// From the request to the send
// ---------------------------------------------------------------------

/// The token that a project's auth request gave.
#[derive(Debug)]
pub struct ProjectAuthHeader {
    pub token: String,
    /// Whether it was fetched for this request.
    pub refreshed: bool,
}

/// A run between the hooks and the assertions.
#[derive(Debug)]
pub struct Stage {
    pub request: ResolvedRequest,
    pub progress: Progress,
    /// The response of a mock.
    pub response: Option<ResponseView>,
    /// How long to wait for that response.
    pub delay_ms: u64,
    /// Whether the request is to be sent.
    pub pending: bool,
}

/// What a [`Stage`] says.
pub struct StageV {
    pub request: RequestV,
    pub progress: ProgressV,
    pub response: Option<ResponseV>,
    pub delay_ms: u64,
    pub pending: bool,
}

impl View for Stage {
    type V = StageV;

    open spec fn view(&self) -> StageV {
        StageV {
            request: self.request@,
            progress: self.progress@,
            response: opt_view(self.response),
            delay_ms: self.delay_ms,
            pending: self.pending,
        }
    }
}

/// The request with the project token: the token is a secret and stands in
/// the `Authorization` header, which comes last.
pub open spec fn authorized(request: RequestV, token: Option<Seq<char>>) -> RequestV {
    match token {
        Some(token) => RequestV {
            secret_values: request.secret_values.push(token),
            headers: request.headers.push(("Authorization"@, "Bearer "@ + token)),
            ..request
        },
        None => request,
    }
}

/// The note that a token was fetched.
pub open spec fn auth_notes(refreshed: bool) -> Seq<DiagnosticV> {
    if refreshed {
        seq![diag(Code::AuthRefresh, "project auth refreshed before request"@)]
    } else {
        seq![]
    }
}

/// A token by its view.
pub open spec fn token_opt(auth: Option<ProjectAuthHeader>) -> Option<Seq<char>> {
    match auth {
        Some(a) => Some(a.token@),
        None => None,
    }
}

/// Nothing gathered but diagnostics and an error.
pub open spec fn early_progress(diagnostics: Seq<DiagnosticV>, error: Option<Seq<char>>) -> ProgressV {
    ProgressV { assertions: seq![], runtime: seq![], diagnostics, error }
}

/// A diagnostic that is also the error of the run.
pub open spec fn struck(p: ProgressV, d: DiagnosticV) -> ProgressV {
    ProgressV { diagnostics: p.diagnostics.push(d), error: Some(d.message), ..p }
}

/// The diagnostic for a mock run of a document without a mock.
pub open spec fn no_mock_error() -> DiagnosticV {
    diag(Code::HttpError, "mock mode requested but the document has no mock"@)
}

/// Where the run may stand once the hooks have led to `h`.
pub open spec fn may_stand(h: HooksV, mode: RunMode, scripts: Seq<(Seq<char>, ScriptV)>, s: StageV) -> bool {
    let early = early_progress(h.diagnostics, h.error);
    &&& s.request == h.request
    &&& if h.error is Some {
        s.progress == early && s.response is None && s.delay_ms == 0 && !s.pending
    } else {
        match mode {
            RunMode::Http => s.progress == early && s.response is None && s.delay_ms == 0 && s.pending,
            RunMode::Mock => !s.pending && match h.request.mock {
                None => s.progress == struck(early, no_mock_error()) && s.response is None && s.delay_ms == 0,
                Some(mock) => exists|outcome: Result<(ResponseV, u64), DiagnosticV>|
                    #[trigger] may_serve(mock, h.request, scripts, outcome) && match outcome {
                        Ok((r, delay)) => s.response == Some(r) && s.delay_ms == delay && s.progress == early,
                        Err(d) => s.response is None && s.delay_ms == 0 && s.progress == ProgressV {
                            diagnostics: h.diagnostics.push(d),
                            ..early
                        },
                    },
            },
        }
    }
}

/// Take a request through its hooks, and through its mock in mock mode.
pub fn begin(ir: ResolvedRequest, auth: Option<ProjectAuthHeader>, mode: RunMode, scripts: &TextMap<Script>) -> (r: Stage)
    ensures
        exists|h: HooksV|
            {
                &&& hooks_reach(
                    scripts@,
                    HooksV {
                        request: authorized(ir@, token_opt(auth)),
                        diagnostics: auth_notes(auth is Some && auth->Some_0.refreshed),
                        error: None,
                    },
                    ir@.pipeline.len(),
                    h,
                )
                &&& #[trigger] may_stand(h, mode, scripts@, r@)
            },
        ascending(r@.progress.runtime),
{
    broadcast use group_views;

    let mut request = ir;
    let mut diagnostics: Vec<Diagnostic> = Vec::new();
    let ghost plain = request@;
    let ghost refreshed = auth is Some && auth->Some_0.refreshed;
    let ghost token = token_opt(auth);
    if let Some(a) = auth {
        request.secret_values.push(a.token.clone());
        request.headers.push(
            ResolvedHeader { name: "Authorization".to_owned(), value: cat2("Bearer ", a.token.as_str()) },
        );
        if a.refreshed {
            diagnostics.push(
                Diagnostic::new(Code::AuthRefresh, "project auth refreshed before request".to_owned()),
            );
        }
    }
    assert(request@ == authorized(plain, token));
    assert(views(diagnostics@) =~= auth_notes(refreshed));
    let error = run_hooks(&mut request, scripts, &mut diagnostics);
    let ghost h = hooks_view(request, diagnostics@, error);
    let failed = error.is_some();
    let mut progress = Progress { assertions: Vec::new(), runtime: TextMap::new(), diagnostics, error };
    assert(progress@ == early_progress(h.diagnostics, h.error));
    if failed {
        let r = Stage { request, progress, response: None, delay_ms: 0, pending: false };
        assert(may_stand(h, mode, scripts@, r@));
        return r;
    }
    match mode {
        RunMode::Http => {
            let r = Stage { request, progress, response: None, delay_ms: 0, pending: true };
            assert(may_stand(h, mode, scripts@, r@));
            r
        },
        RunMode::Mock => {
            let mut response: Option<ResponseView> = None;
            let mut delay_ms: u64 = 0;
            match &request.mock {
                Some(mock) => {
                    let outcome = serve_mock(mock, &request, scripts);
                    let ghost view = served_view(outcome);
                    assert(may_serve(h.request.mock->Some_0, h.request, scripts@, view));
                    match outcome {
                        Ok((r, delay)) => {
                            response = Some(r);
                            delay_ms = delay;
                        },
                        Err(d) => {
                            progress.diagnostics.push(d);
                        },
                    }
                },
                None => {
                    let d = Diagnostic::new(
                        Code::HttpError,
                        "mock mode requested but the document has no mock".to_owned(),
                    );
                    progress.error = Some(d.message.clone());
                    progress.diagnostics.push(d);
                },
            }
            let r = Stage { request, progress, response, delay_ms, pending: false };
            assert(may_stand(h, mode, scripts@, r@));
            r
        },
    }
}

// ---------------------------------------------------------------------
// From the response to the result
// ---------------------------------------------------------------------

/// How a run ended: an error diagnostic, an error or no response is an error,
/// a failed assertion a failure.
pub open spec fn status_of(p: ProgressV, response: Option<ResponseV>) -> RunStatus {
    if (exists|i: int| 0 <= i < p.diagnostics.len() && (#[trigger] p.diagnostics[i]).is_error()) || p.error is Some
        || response is None {
        RunStatus::Error
    } else if exists|i: int| 0 <= i < p.assertions.len() && !(#[trigger] p.assertions[i]).passed {
        RunStatus::Failed
    } else {
        RunStatus::Passed
    }
}

/// The response in figures.
pub open spec fn figures(response: Option<ResponseV>) -> Option<HttpResultView> {
    match response {
        Some(r) => Some(HttpResultView { status: r.status, time_ms: r.time_ms, bytes: r.body.len() as usize }),
        None => None,
    }
}

/// The result that leaves the runner, with every secret masked.
pub open spec fn public_result(
    request: RequestV,
    status: RunStatus,
    http: Option<HttpResultView>,
    assertions: Seq<AssertionV>,
    runtime: Seq<(Seq<char>, JsonV)>,
    diagnostics: Seq<DiagnosticV>,
    duration_ms: u64,
) -> RunResultV {
    RunResultV {
        request_id: request.id,
        status,
        http,
        assertions: masked_assertions(request.secret_values, assertions),
        runtime: masked_runtime(request.secret_values, runtime),
        diagnostics: masked_diagnostics(request.secret_values, diagnostics),
        duration_ms,
    }
}

/// Mask secrets in every field that leaves the runner.
pub fn finish(
    ir: &ResolvedRequest,
    status: RunStatus,
    http: Option<HttpResultView>,
    assertions: &Vec<AssertionResult>,
    runtime: &TextMap<Json>,
    diagnostics: &Vec<Diagnostic>,
    duration_ms: u64,
) -> (r: RunResult)
    ensures
        r@ == public_result(ir@, status, http, views(assertions@), runtime@, views(diagnostics@), duration_ms),
{
    RunResult {
        request_id: ir.id.clone(),
        status,
        http,
        assertions: mask_assertions(ir, assertions),
        runtime: mask_runtime_writes(ir, runtime),
        diagnostics: mask_diagnostics(ir, diagnostics),
        duration_ms,
    }
}

/// Tell how a run ended.
pub fn run_status(p: &Progress, responded: bool) -> (r: RunStatus)
    ensures
        forall|response: Option<ResponseV>| response is Some == responded ==> r == #[trigger] status_of(p@, response),
{
    let ghost view = p@;
    let mut erred = false;
    let mut i: usize = 0;
    while i < p.diagnostics.len()
        invariant
            i <= p.diagnostics.len(),
            view == p@,
            erred == exists|k: int| 0 <= k < i && (#[trigger] view.diagnostics[k]).is_error(),
        decreases p.diagnostics.len() - i,
    {
        assert(view.diagnostics[i as int] == p.diagnostics@[i as int]@);
        if p.diagnostics[i].is_error() {
            erred = true;
        }
        i += 1;
    }
    let mut failed = false;
    let mut j: usize = 0;
    while j < p.assertions.len()
        invariant
            j <= p.assertions.len(),
            view == p@,
            failed == exists|k: int| 0 <= k < j && !(#[trigger] view.assertions[k]).passed,
        decreases p.assertions.len() - j,
    {
        assert(view.assertions[j as int] == p.assertions@[j as int]@);
        if !p.assertions[j].passed {
            failed = true;
        }
        j += 1;
    }
    if erred || p.error.is_some() || !responded {
        RunStatus::Error
    } else if failed {
        RunStatus::Failed
    } else {
        RunStatus::Passed
    }
}

/// What a sent request comes back with.
pub open spec fn arrived(s: StageV, sent: Option<Result<ResponseV, Seq<char>>>) -> (Option<ResponseV>, ProgressV) {
    match sent {
        None => (s.response, s.progress),
        Some(Ok(r)) => (Some(r), s.progress),
        Some(Err(e)) => (None, struck(s.progress, diag(Code::HttpError, "request failed: "@ + e))),
    }
}

/// The assets of the three phases after the send take `start` to `end`:
/// after a response, on an error, and finally.
pub open spec fn may_conclude(
    request: RequestV,
    scripts: Seq<(Seq<char>, ScriptV)>,
    response: Option<ResponseV>,
    start: ProgressV,
    end: ProgressV,
) -> bool {
    exists|a: ProgressV, b: ProgressV| #[trigger]
        after_link(request, scripts, response, start, a) && #[trigger] error_link(request, scripts, response, a, b)
            && phase_reaches(
            request,
            scripts,
            PipelinePhase::Finally,
            response,
            b,
            request.pipeline.len(),
            end,
        )
}

/// The assertions and extractors run where there is a response.
pub open spec fn after_link(
    request: RequestV,
    scripts: Seq<(Seq<char>, ScriptV)>,
    response: Option<ResponseV>,
    start: ProgressV,
    a: ProgressV,
) -> bool {
    if response is Some {
        phase_reaches(
            request,
            scripts,
            PipelinePhase::AfterResponse,
            response,
            start,
            request.pipeline.len(),
            a,
        )
    } else {
        a == start
    }
}

/// The assets for errors run where there is an error.
pub open spec fn error_link(
    request: RequestV,
    scripts: Seq<(Seq<char>, ScriptV)>,
    response: Option<ResponseV>,
    a: ProgressV,
    b: ProgressV,
) -> bool {
    if a.error is Some {
        phase_reaches(request, scripts, PipelinePhase::OnError, response, a, request.pipeline.len(), b)
    } else {
        b == a
    }
}

/// What a sent request comes back with, by its view.
pub open spec fn sent_view(sent: Option<Result<ResponseView, String>>) -> Option<Result<ResponseV, Seq<char>>> {
    match sent {
        None => None,
        Some(Ok(r)) => Some(Ok(r@)),
        Some(Err(e)) => Some(Err(e@)),
    }
}

/// Run the assertions, extractors and the assets for errors and teardown, and
/// make up the result. `sent` is what came back where the request was sent.
pub fn complete(
    stage: Stage,
    sent: Option<Result<ResponseView, String>>,
    scripts: &TextMap<Script>,
    duration_ms: u64,
) -> (r: RunExecution)
    requires
        stage.pending == (sent is Some),
        ascending(stage@.progress.runtime),
    ensures
        ({
            let (response, start) = arrived(stage@, sent_view(sent));
            exists|end: ProgressV| #[trigger]
                may_conclude(stage@.request, scripts@, response, start, end) && {
                    &&& r.result@ == public_result(
                        stage@.request,
                        status_of(end, response),
                        figures(response),
                        end.assertions,
                        end.runtime,
                        end.diagnostics,
                        duration_ms,
                    )
                    &&& opt_view(r.response) == response
                    &&& r.runtime_unmasked@ == end.runtime
                }
        }),
        ascending(r.runtime_unmasked@),
{
    broadcast use group_views;

    let ghost arrival = arrived(stage@, sent_view(sent));
    let Stage { request, progress, response, delay_ms: _, pending: _ } = stage;
    let mut p = progress;
    let mut response = response;
    match sent {
        None => {},
        Some(Ok(r)) => {
            response = Some(r);
        },
        Some(Err(e)) => {
            let d = Diagnostic::new(Code::HttpError, cat2("request failed: ", e.as_str()));
            p.error = Some(d.message.clone());
            p.diagnostics.push(d);
            response = None;
        },
    }
    assert(p@ == arrival.1);
    assert(opt_view(response) == arrival.0);
    let seen: Option<&ResponseView> = response.as_ref();
    assert(response_opt(seen) == arrival.0);
    let responded = seen.is_some();
    let ghost start = p@;
    if responded {
        run_phase(&request, scripts, PipelinePhase::AfterResponse, seen, &mut p);
    }
    let ghost a = p@;
    assert(after_link(request@, scripts@, arrival.0, start, a));
    if p.error.is_some() {
        run_phase(&request, scripts, PipelinePhase::OnError, seen, &mut p);
    }
    let ghost b = p@;
    assert(error_link(request@, scripts@, arrival.0, a, b));
    run_phase(&request, scripts, PipelinePhase::Finally, seen, &mut p);
    assert(may_conclude(request@, scripts@, arrival.0, start, p@));
    let status = run_status(&p, responded);
    assert(status == status_of(p@, arrival.0));
    let http = match seen {
        Some(r) => Some(HttpResultView { status: r.status, time_ms: r.time_ms, bytes: r.body.len() }),
        None => None,
    };
    let result = finish(&request, status, http, &p.assertions, &p.runtime, &p.diagnostics, duration_ms);
    RunExecution { result, response, runtime_unmasked: p.runtime }
}

// ---------------------------------------------------------------------
// Laws
// ---------------------------------------------------------------------

/// A result that leaves the runner holds no secret of the request in its
/// assertions, runtime values and diagnostics, unless the secret is empty or
/// holds a star.
pub proof fn lemma_public_result_hides(
    request: RequestV,
    status: RunStatus,
    http: Option<HttpResultView>,
    assertions: Seq<AssertionV>,
    runtime: Seq<(Seq<char>, JsonV)>,
    diagnostics: Seq<DiagnosticV>,
    duration_ms: u64,
    n: int,
)
    requires
        0 <= n < request.secret_values.len(),
        request.secret_values[n].len() > 0,
        star_free(request.secret_values[n]),
    ensures
        ({
            let r = public_result(request, status, http, assertions, runtime, diagnostics, duration_ms);
            let q = request.secret_values[n];
            &&& forall|i: int| 0 <= i < r.assertions.len() ==> assertion_hides(#[trigger] r.assertions[i], q)
            &&& pairs_hide(r.runtime, q)
            &&& forall|i: int| 0 <= i < r.diagnostics.len() ==> diagnostic_hides(#[trigger] r.diagnostics[i], q)
        }),
{
    let secrets = request.secret_values;
    let q = secrets[n];
    let r = public_result(request, status, http, assertions, runtime, diagnostics, duration_ms);
    assert forall|i: int| 0 <= i < r.assertions.len() implies assertion_hides(#[trigger] r.assertions[i], q) by {
        lemma_masked_assertion_hides(secrets, assertions[i], n);
    }
    lemma_masked_pairs_hide(secrets, runtime, n);
    assert forall|i: int| 0 <= i < r.diagnostics.len() implies diagnostic_hides(#[trigger] r.diagnostics[i], q) by {
        lemma_masked_diagnostic_hides(secrets, diagnostics[i], n);
    }
}

/// Hooks change nothing of a request but its URL and its headers.
pub proof fn lemma_hooks_change_url_and_headers(
    scripts: Seq<(Seq<char>, ScriptV)>,
    start: HooksV,
    n: nat,
    h: HooksV,
)
    requires
        hooks_reach(scripts, start, n, h),
    ensures
        h.request == (RequestV { url: h.request.url, headers: h.request.headers, ..start.request }),
    decreases n,
{
    if n > 0 {
        let e = start.request.pipeline[n - 1];
        let g = choose|g: HooksV|
            hooks_reach(scripts, start, (n - 1) as nat, g) && #[trigger] hook_link(e, scripts, g, h);
        lemma_hooks_change_url_and_headers(scripts, start, (n - 1) as nat, g);
    }
}

/// An error that a hook met is never lost.
pub proof fn lemma_hook_errors_stay(scripts: Seq<(Seq<char>, ScriptV)>, start: HooksV, n: nat, h: HooksV)
    requires
        hooks_reach(scripts, start, n, h),
    ensures
        start.error is Some ==> h.error == start.error,
        start.diagnostics.len() <= h.diagnostics.len(),
        h.diagnostics.take(start.diagnostics.len() as int) == start.diagnostics,
    decreases n,
{
    let len = start.diagnostics.len() as int;
    if n > 0 {
        let e = start.request.pipeline[n - 1];
        let g = choose|g: HooksV|
            hooks_reach(scripts, start, (n - 1) as nat, g) && #[trigger] hook_link(e, scripts, g, h);
        lemma_hook_errors_stay(scripts, start, (n - 1) as nat, g);
        if e.phase == PipelinePhase::BeforeRequest {
            let outcome = choose|outcome: Result<PatchV, DiagnosticV>|
                may_hook(e, g.request, scripts, outcome) && h == #[trigger] hooked(g, outcome);
            assert(h.diagnostics.take(len) =~= g.diagnostics.take(len));
        }
    } else {
        assert(h.diagnostics.take(len) =~= start.diagnostics);
    }
}

/// No asset of the pipeline is a project asset.
pub open spec fn all_builtin(pipeline: Seq<EntryV>) -> bool {
    forall|i: int| 0 <= i < pipeline.len() ==> (#[trigger] pipeline[i]).asset.scheme == RefScheme::Builtin
}

/// Where every asset is builtin, the request and the response decide the
/// outcome of a phase.
pub proof fn lemma_builtins_decide(
    request: RequestV,
    scripts: Seq<(Seq<char>, ScriptV)>,
    phase: PipelinePhase,
    response: Option<ResponseV>,
    start: ProgressV,
    n: nat,
    p: ProgressV,
    q: ProgressV,
)
    requires
        all_builtin(request.pipeline),
        n <= request.pipeline.len(),
        phase_reaches(request, scripts, phase, response, start, n, p),
        phase_reaches(request, scripts, phase, response, start, n, q),
    ensures
        p == q,
    decreases n,
{
    if n > 0 {
        let e = request.pipeline[n - 1];
        let a = choose|a: ProgressV|
            phase_reaches(request, scripts, phase, response, start, (n - 1) as nat, a) && #[trigger] react_link(
                e,
                request,
                scripts,
                phase,
                response,
                start,
                a,
                p,
            );
        let b = choose|b: ProgressV|
            phase_reaches(request, scripts, phase, response, start, (n - 1) as nat, b) && #[trigger] react_link(
                e,
                request,
                scripts,
                phase,
                response,
                start,
                b,
                q,
            );
        lemma_builtins_decide(request, scripts, phase, response, start, (n - 1) as nat, a, b);
    }
}

} // verus!
