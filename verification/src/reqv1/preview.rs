//! Previews of single assets: what a hook would change, and what an assertion
//! or extractor makes of the last response.

use vstd::prelude::*;

use crate::exec::text_pairs;
use crate::json::{Json, JsonV};
use crate::map::TextMap;
use crate::mask::{masked, star_free, lemma_masked_hides};
use crate::reqv1::diag::{diag, Code, Diagnostic, DiagnosticV};
use crate::reqv1::ir::{EntryV, RefScheme, RequestV, ResolvedHeader, ResolvedPipelineEntry, ResolvedRequest};
use crate::reqv1::jshost::{may_answer, script_at, AnswerV, Script, ScriptV};
use crate::reqv1::meaning::{after_context, before_context, response_opt};
use crate::reqv1::model::PipelinePhase;
use crate::reqv1::outgoing::header_pairs;
use crate::reqv1::pipeline::{
    hook_outcome, is_project_asset, reaction_outcome, run_after_response, run_before_request, AssertionResult,
    AssertionV, PatchV, ReactionV, RequestPatch, ResponseV, ResponseView,
};
use crate::reqv1::redact::{
    assertion_hides, diagnostic_hides, lemma_masked_assertion_hides, lemma_masked_diagnostic_hides,
    lemma_masked_pairs_hide, mask_assertions, mask_diagnostic, mask_diagnostics, mask_runtime_writes, mask_texts,
    masked_assertions, masked_diagnostic, masked_diagnostics, masked_runtime, masked_texts, pairs_hide,
};
use crate::reqv1::runner::{
    hook_answer, overwrites, patched, reaction_answer, run_js_after_with_logs, run_js_hook_with_logs, set_headers,
};
use crate::text::{cat2, occurs};
use crate::view::{group_views, opt_view, views};

verus! {

broadcast use vstd::string::group_string_axioms;

/// The part of a request that a hook can change.
#[derive(Debug)]
pub struct CatalogRequestView {
    pub url: String,
    pub headers: Vec<(String, String)>,
}

/// What a [`CatalogRequestView`] says.
pub struct CatalogV {
    pub url: Seq<char>,
    pub headers: Seq<(Seq<char>, Seq<char>)>,
}

impl View for CatalogRequestView {
    type V = CatalogV;

    open spec fn view(&self) -> CatalogV {
        CatalogV { url: self.url@, headers: text_pairs(self.headers@) }
    }
}

/// The preview of one asset.
#[derive(Debug)]
pub struct CatalogPreview {
    pub request_before: Option<CatalogRequestView>,
    pub request_after: Option<CatalogRequestView>,
    pub assertions: Vec<AssertionResult>,
    pub runtime_writes: TextMap<Json>,
    pub logs: Vec<String>,
    pub diagnostics: Vec<Diagnostic>,
}

/// What a [`CatalogPreview`] says.
pub struct PreviewV {
    pub request_before: Option<CatalogV>,
    pub request_after: Option<CatalogV>,
    pub assertions: Seq<AssertionV>,
    pub runtime_writes: Seq<(Seq<char>, JsonV)>,
    pub logs: Seq<Seq<char>>,
    pub diagnostics: Seq<DiagnosticV>,
}

impl View for CatalogPreview {
    type V = PreviewV;

    open spec fn view(&self) -> PreviewV {
        PreviewV {
            request_before: opt_view(self.request_before),
            request_after: opt_view(self.request_after),
            assertions: views(self.assertions@),
            runtime_writes: self.runtime_writes@,
            logs: views(self.logs@),
            diagnostics: views(self.diagnostics@),
        }
    }
}

/// The part of a request that a hook can change.
pub open spec fn catalog_of(request: RequestV) -> CatalogV {
    CatalogV { url: request.url, headers: request.headers }
}

/// The preview of a hook: the request before and after, and the warnings.
pub open spec fn hook_preview(request: RequestV, patch: PatchV, logs: Seq<Seq<char>>) -> PreviewV {
    PreviewV {
        request_before: Some(catalog_of(request)),
        request_after: Some(catalog_of(patched(request, patch))),
        assertions: seq![],
        runtime_writes: seq![],
        logs,
        diagnostics: overwrites(request.headers, patch.headers),
    }
}

/// The preview of an assertion or extractor: its results and writes.
pub open spec fn reaction_preview(reaction: ReactionV, logs: Seq<Seq<char>>) -> PreviewV {
    PreviewV {
        request_before: None,
        request_after: None,
        assertions: reaction.0,
        runtime_writes: reaction.1,
        logs,
        diagnostics: seq![],
    }
}

/// Each name and value masked.
pub open spec fn masked_headers(secrets: Seq<Seq<char>>, headers: Seq<(Seq<char>, Seq<char>)>) -> Seq<
    (Seq<char>, Seq<char>),
> {
    Seq::new(headers.len(), |i: int| (masked(secrets, headers[i].0), masked(secrets, headers[i].1)))
}

/// The request view with every text masked.
pub open spec fn masked_catalog(secrets: Seq<Seq<char>>, c: Option<CatalogV>) -> Option<CatalogV> {
    match c {
        Some(c) => Some(CatalogV { url: masked(secrets, c.url), headers: masked_headers(secrets, c.headers) }),
        None => None,
    }
}

/// The preview with every text and value masked.
pub open spec fn masked_preview(secrets: Seq<Seq<char>>, p: PreviewV) -> PreviewV {
    PreviewV {
        request_before: masked_catalog(secrets, p.request_before),
        request_after: masked_catalog(secrets, p.request_after),
        assertions: masked_assertions(secrets, p.assertions),
        runtime_writes: masked_runtime(secrets, p.runtime_writes),
        logs: masked_texts(secrets, p.logs),
        diagnostics: masked_diagnostics(secrets, p.diagnostics),
    }
}

/// The logs of an answer.
pub open spec fn logs_of(answer: AnswerV) -> Seq<Seq<char>> {
    match answer {
        Ok((_, logs)) => logs,
        Err(_) => seq![],
    }
}

/// A preview, or why there is none.
pub type OutlookV = Result<PreviewV, DiagnosticV>;

/// What the patch of a hook would do.
pub open spec fn hook_outlook(request: RequestV, outcome: Result<PatchV, DiagnosticV>, logs: Seq<Seq<char>>) -> OutlookV {
    match outcome {
        Ok(patch) => Ok(hook_preview(request, patch, logs)),
        Err(d) => Err(d),
    }
}

/// What a reaction would give.
pub open spec fn reaction_outlook(outcome: Result<ReactionV, DiagnosticV>, logs: Seq<Seq<char>>) -> OutlookV {
    match outcome {
        Ok(reaction) => Ok(reaction_preview(reaction, logs)),
        Err(d) => Err(d),
    }
}

/// The names of the phases that have no preview.
pub open spec fn phase_name(phase: PipelinePhase) -> Seq<char> {
    match phase {
        PipelinePhase::BeforeRequest => "BeforeRequest"@,
        PipelinePhase::AfterResponse => "AfterResponse"@,
        PipelinePhase::OnError => "OnError"@,
        PipelinePhase::Finally => "Finally"@,
    }
}

/// The previews that an asset may have, before masking.
pub open spec fn may_preview(
    e: EntryV,
    request: RequestV,
    scripts: Seq<(Seq<char>, ScriptV)>,
    response: Option<ResponseV>,
    outlook: OutlookV,
) -> bool {
    let script = script_at(scripts, e.asset.address);
    let raw = e.asset.raw;
    match e.phase {
        PipelinePhase::BeforeRequest => if e.asset.scheme != RefScheme::Builtin {
            exists|answer: AnswerV|
                {
                    &&& may_answer(e.asset.address, script, before_context(request), e.input, answer)
                    &&& outlook == hook_outlook(request, #[trigger] hook_answer(answer, raw), logs_of(answer))
                }
        } else {
            outlook == hook_outlook(request, hook_outcome(e), seq![])
        },
        PipelinePhase::AfterResponse => match response {
            None => outlook == Err::<PreviewV, DiagnosticV>(
                diag(
                    Code::InvalidAssetInput,
                    "run the request once before previewing an afterResponse asset"@,
                ).with_ref(raw),
            ),
            Some(r) => if e.asset.scheme != RefScheme::Builtin {
                exists|answer: AnswerV|
                    {
                        &&& may_answer(e.asset.address, script, after_context(request, response, None), e.input, answer)
                        &&& outlook == reaction_outlook(#[trigger] reaction_answer(answer, raw), logs_of(answer))
                    }
            } else {
                outlook == reaction_outlook(reaction_outcome(e, r), seq![])
            },
        },
        _ => outlook == Err::<PreviewV, DiagnosticV>(
            diag(
                Code::InvalidAssetInput,
                "catalog preview does not support phase "@ + phase_name(e.phase),
            ).with_ref(raw),
        ),
    }
}

/// A preview with everything in it masked.
pub open spec fn masked_outlook(secrets: Seq<Seq<char>>, outlook: OutlookV) -> OutlookV {
    match outlook {
        Ok(p) => Ok(masked_preview(secrets, p)),
        Err(d) => Err(masked_diagnostic(secrets, d)),
    }
}

/// A preview by the views of its two sides.
pub open spec fn outlook_view(r: Result<CatalogPreview, Diagnostic>) -> OutlookV {
    match r {
        Ok(p) => Ok(p@),
        Err(d) => Err(d@),
    }
}

/// The part of a request that a hook can change.
pub fn catalog_request_view(ir: &ResolvedRequest) -> (r: CatalogRequestView)
    ensures
        r@ == catalog_of(ir@),
{
    CatalogRequestView { url: ir.url.clone(), headers: header_pairs(&ir.headers) }
}

fn mask_catalog(ir: &ResolvedRequest, c: &Option<CatalogRequestView>) -> (r: Option<CatalogRequestView>)
    ensures
        opt_view(r) == masked_catalog(ir@.secret_values, opt_view(*c)),
{
    match c {
        None => None,
        Some(c) => {
            let mut headers: Vec<(String, String)> = Vec::new();
            let mut i: usize = 0;
            while i < c.headers.len()
                invariant
                    i <= c.headers.len(),
                    headers.len() == i,
                    forall|k: int|
                        0 <= k < i ==> (#[trigger] headers@[k]).0@ == masked(ir@.secret_values, c.headers@[k].0@)
                            && headers@[k].1@ == masked(ir@.secret_values, c.headers@[k].1@),
                decreases c.headers.len() - i,
            {
                headers.push((ir.mask(c.headers[i].0.as_str()), ir.mask(c.headers[i].1.as_str())));
                i += 1;
            }
            assert(text_pairs(headers@) =~= masked_headers(ir@.secret_values, text_pairs(c.headers@)));
            Some(CatalogRequestView { url: ir.mask(c.url.as_str()), headers })
        },
    }
}

/// Mask everything in a preview.
pub fn mask_catalog_preview(ir: &ResolvedRequest, p: &CatalogPreview) -> (r: CatalogPreview)
    ensures
        r@ == masked_preview(ir@.secret_values, p@),
{
    CatalogPreview {
        request_before: mask_catalog(ir, &p.request_before),
        request_after: mask_catalog(ir, &p.request_after),
        assertions: mask_assertions(ir, &p.assertions),
        runtime_writes: mask_runtime_writes(ir, &p.runtime_writes),
        logs: mask_texts(ir, &p.logs),
        diagnostics: mask_diagnostics(ir, &p.diagnostics),
    }
}

fn preview_patch(ir: &ResolvedRequest, patch: RequestPatch, logs: Vec<String>) -> (r: CatalogPreview)
    ensures
        r@ == hook_preview(ir@, patch@, views(logs@)),
{
    broadcast use group_views;

    let url = match &patch.url {
        Some(url) => url.clone(),
        None => ir.url.clone(),
    };
    let mut headers: Vec<ResolvedHeader> = Vec::new();
    let mut i: usize = 0;
    while i < ir.headers.len()
        invariant
            i <= ir.headers.len(),
            headers.len() == i,
            forall|k: int| 0 <= k < i ==> (#[trigger] headers@[k])@ == ir.headers@[k]@,
        decreases ir.headers.len() - i,
    {
        headers.push(ir.headers[i].copy());
        i += 1;
    }
    assert(views(headers@) =~= ir@.headers);
    let mut diagnostics: Vec<Diagnostic> = Vec::new();
    set_headers(&mut headers, &patch.headers, &mut diagnostics);
    assert(views(diagnostics@) =~= overwrites(ir@.headers, patch@.headers));
    CatalogPreview {
        request_before: Some(catalog_request_view(ir)),
        request_after: Some(CatalogRequestView { url, headers: header_pairs(&headers) }),
        assertions: Vec::new(),
        runtime_writes: TextMap::new(),
        logs,
        diagnostics,
    }
}

fn preview_reaction(reaction: (Vec<AssertionResult>, TextMap<Json>), logs: Vec<String>) -> (r: CatalogPreview)
    ensures
        r@ == reaction_preview((views(reaction.0@), reaction.1@), views(logs@)),
{
    broadcast use group_views;

    CatalogPreview {
        request_before: None,
        request_after: None,
        assertions: reaction.0,
        runtime_writes: reaction.1,
        logs,
        diagnostics: Vec::new(),
    }
}

fn preview_unmasked(
    ir: &ResolvedRequest,
    entry: &ResolvedPipelineEntry,
    response: Option<&ResponseView>,
    scripts: &TextMap<Script>,
) -> (r: Result<CatalogPreview, Diagnostic>)
    ensures
        may_preview(entry@, ir@, scripts@, response_opt(response), outlook_view(r)),
{
    broadcast use group_views;

    let raw = entry.asset.raw.as_str();
    match entry.phase {
        PipelinePhase::BeforeRequest => {
            if is_project_asset(entry) {
                match run_js_hook_with_logs(entry, ir, scripts) {
                    Ok((patch, logs)) => Ok(preview_patch(ir, patch, logs)),
                    Err(d) => Err(d),
                }
            } else {
                match run_before_request(entry, ir) {
                    Ok(patch) => Ok(preview_patch(ir, patch, Vec::new())),
                    Err(d) => Err(d),
                }
            }
        },
        PipelinePhase::AfterResponse => match response {
            None => Err(
                Diagnostic::new(
                    Code::InvalidAssetInput,
                    "run the request once before previewing an afterResponse asset".to_owned(),
                ).with_ref(raw),
            ),
            Some(r) => {
                if is_project_asset(entry) {
                    match run_js_after_with_logs(entry, ir, response, None, scripts) {
                        Ok((reaction, logs)) => Ok(preview_reaction(reaction, logs)),
                        Err(d) => Err(d),
                    }
                } else {
                    match run_after_response(entry, r) {
                        Ok(reaction) => Ok(preview_reaction(reaction, Vec::new())),
                        Err(d) => Err(d),
                    }
                }
            },
        },
        PipelinePhase::OnError => Err(
            Diagnostic::new(
                Code::InvalidAssetInput,
                cat2("catalog preview does not support phase ", "OnError"),
            ).with_ref(raw),
        ),
        PipelinePhase::Finally => Err(
            Diagnostic::new(
                Code::InvalidAssetInput,
                cat2("catalog preview does not support phase ", "Finally"),
            ).with_ref(raw),
        ),
    }
}

/// Execute one asset without sending a request. A hook is applied to the
/// request as it stands; an assertion or extractor reads the last response.
/// Everything that comes back is masked.
pub fn preview_asset(
    ir: &ResolvedRequest,
    entry: &ResolvedPipelineEntry,
    response: Option<&ResponseView>,
    scripts: &TextMap<Script>,
) -> (r: Result<CatalogPreview, Diagnostic>)
    ensures
        exists|outlook: OutlookV| #[trigger]
            may_preview(entry@, ir@, scripts@, response_opt(response), outlook) && outlook_view(r) == masked_outlook(
                ir@.secret_values,
                outlook,
            ),
{
    let preview = preview_unmasked(ir, entry, response, scripts);
    let ghost outlook = outlook_view(preview);
    assert(may_preview(entry@, ir@, scripts@, response_opt(response), outlook));
    match preview {
        Ok(p) => Ok(mask_catalog_preview(ir, &p)),
        Err(d) => Err(mask_diagnostic(ir, &d)),
    }
}

/// `q` stands nowhere in a request view.
pub open spec fn catalog_hides(c: Option<CatalogV>, q: Seq<char>) -> bool {
    c matches Some(c) ==> !occurs(c.url, q) && forall|i: int|
        0 <= i < c.headers.len() ==> !occurs((#[trigger] c.headers[i]).0, q) && !occurs(c.headers[i].1, q)
}

/// `q` stands nowhere in a preview.
pub open spec fn preview_hides(p: PreviewV, q: Seq<char>) -> bool {
    &&& catalog_hides(p.request_before, q)
    &&& catalog_hides(p.request_after, q)
    &&& forall|i: int| 0 <= i < p.assertions.len() ==> assertion_hides(#[trigger] p.assertions[i], q)
    &&& pairs_hide(p.runtime_writes, q)
    &&& forall|i: int| 0 <= i < p.logs.len() ==> !occurs(#[trigger] p.logs[i], q)
    &&& forall|i: int| 0 <= i < p.diagnostics.len() ==> diagnostic_hides(#[trigger] p.diagnostics[i], q)
}

proof fn lemma_masked_catalog_hides(secrets: Seq<Seq<char>>, c: Option<CatalogV>, n: int)
    requires
        0 <= n < secrets.len(),
        secrets[n].len() > 0,
        star_free(secrets[n]),
    ensures
        catalog_hides(masked_catalog(secrets, c), secrets[n]),
{
    if let Some(c) = c {
        let q = secrets[n];
        let headers = masked_headers(secrets, c.headers);
        lemma_masked_hides(secrets, c.url, n);
        assert forall|i: int| 0 <= i < headers.len() implies !occurs((#[trigger] headers[i]).0, q) && !occurs(
            headers[i].1,
            q,
        ) by {
            lemma_masked_hides(secrets, c.headers[i].0, n);
            lemma_masked_hides(secrets, c.headers[i].1, n);
        }
    }
}

/// No secret stands anywhere in a preview, nor in the diagnostic that stands
/// in its place, unless the secret is empty or holds a star.
pub proof fn lemma_preview_hides(secrets: Seq<Seq<char>>, outlook: OutlookV, n: int)
    requires
        0 <= n < secrets.len(),
        secrets[n].len() > 0,
        star_free(secrets[n]),
    ensures
        match masked_outlook(secrets, outlook) {
            Ok(p) => preview_hides(p, secrets[n]),
            Err(d) => diagnostic_hides(d, secrets[n]),
        },
{
    let q = secrets[n];
    match outlook {
        Err(d) => {
            lemma_masked_diagnostic_hides(secrets, d, n);
        },
        Ok(p) => {
            let m = masked_preview(secrets, p);
            lemma_masked_catalog_hides(secrets, p.request_before, n);
            lemma_masked_catalog_hides(secrets, p.request_after, n);
            lemma_masked_pairs_hide(secrets, p.runtime_writes, n);
            assert forall|i: int| 0 <= i < m.assertions.len() implies assertion_hides(#[trigger] m.assertions[i], q) by {
                lemma_masked_assertion_hides(secrets, p.assertions[i], n);
            }
            assert forall|i: int| 0 <= i < m.logs.len() implies !occurs(#[trigger] m.logs[i], q) by {
                lemma_masked_hides(secrets, p.logs[i], n);
            }
            assert forall|i: int| 0 <= i < m.diagnostics.len() implies diagnostic_hides(
                #[trigger] m.diagnostics[i],
                q,
            ) by {
                lemma_masked_diagnostic_hides(secrets, p.diagnostics[i], n);
            }
        },
    }
}

} // verus!
