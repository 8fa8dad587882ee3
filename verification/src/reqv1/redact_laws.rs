//! What masking leaves as it is, what a script's reply means, and what a preview
//! shows.

use vstd::prelude::*;

use crate::json::{json_parse, member, JsonV};
use crate::schema::{schema_report, MAX_ERRORS};
use crate::selection::{lemma_picks_more, lemma_picks_none, picks};
use crate::text::has_suffix;

use super::diag::{diag, severity_of, Code, DiagnosticV, Severity};
use super::ir::{EntryV, RefScheme, RequestV};
use super::jshost::{answer_of, may_answer, texts_among, AnswerV, FailureV, ScriptV};
use super::model::PipelinePhase;
use super::pipeline::{hook_outcome, reaction_outcome, AssertionV, ResponseV};
use super::preview::{masked_preview, may_preview, OutlookV, PreviewV};
use super::redact::{
    masked_assertion, masked_assertions, masked_diagnostic, masked_diagnostics, masked_json, masked_runtime,
};
use super::runner::{overwrites, patched};

verus! {

broadcast use vstd::string::group_string_axioms;

// ---------------------------------------------------------------------
// Diagnostics
// ---------------------------------------------------------------------

/// Every diagnostic is an error but two: a conflict is a warning, a refreshed
/// token a note. A diagnostic has its code and message, and no place.
pub proof fn lemma_diagnostics_are_errors_but_two(code: Code, message: Seq<char>)
    ensures
        code == Code::PipelineConflict ==> severity_of(code) == Severity::Warning,
        code == Code::AuthRefresh ==> severity_of(code) == Severity::Info,
        code != Code::PipelineConflict && code != Code::AuthRefresh ==> severity_of(code) == Severity::Error,
        diag(code, message).code == code && diag(code, message).message == message && diag(code, message).severity
            == severity_of(code) && diag(code, message).instance_path is None && diag(code, message).asset_ref is None,
{
}

/// A place and a reference are added to a diagnostic without changing the rest
/// of it. It is an error where its severity says so.
pub proof fn lemma_place_changes_nothing_else(d: DiagnosticV, text: Seq<char>)
    ensures
        d.at(text) == (DiagnosticV { instance_path: Some(text), ..d }),
        d.with_ref(text) == (DiagnosticV { asset_ref: Some(text), ..d }),
        d.info() == (DiagnosticV { severity: Severity::Info, ..d }),
        d.is_error() <==> d.severity == Severity::Error,
{
}

// ---------------------------------------------------------------------
// Masking
// ---------------------------------------------------------------------

/// Masking a value changes texts and keys alone: numbers, truth values and null
/// stay, a list keeps its items in order.
pub proof fn lemma_masking_keeps_the_shape(secrets: Seq<Seq<char>>, v: JsonV)
    ensures
        v is Null || v is Bool || v is Number ==> masked_json(secrets, v) == v,
        v matches JsonV::String(s) ==> masked_json(secrets, v) == JsonV::String(crate::mask::masked(secrets, s)),
        v matches JsonV::Array(items) ==> (masked_json(secrets, v) matches JsonV::Array(list) && list.len() == items.len()
            && forall|i: int| 0 <= i < items.len() ==> #[trigger] list[i] == masked_json(secrets, items[i])),
        v is Object ==> masked_json(secrets, v) is Object,
{
}

/// Masking an assertion or a diagnostic changes neither whether it passed nor
/// its code and severity, and drops nothing of it.
pub proof fn lemma_masking_keeps_the_verdict(secrets: Seq<Seq<char>>, a: AssertionV, d: DiagnosticV)
    ensures
        masked_assertion(secrets, a).passed == a.passed,
        masked_assertion(secrets, a).message == crate::mask::masked(secrets, a.message),
        a.expected matches Some(v) ==> masked_assertion(secrets, a).expected == Some(masked_json(secrets, v)),
        a.expected is None ==> masked_assertion(secrets, a).expected is None,
        a.actual matches Some(v) ==> masked_assertion(secrets, a).actual == Some(masked_json(secrets, v)),
        a.actual is None ==> masked_assertion(secrets, a).actual is None,
        a.path matches Some(s) ==> masked_assertion(secrets, a).path == Some(crate::mask::masked(secrets, s)),
        a.path is None ==> masked_assertion(secrets, a).path is None,
        masked_diagnostic(secrets, d).code == d.code,
        masked_diagnostic(secrets, d).severity == d.severity,
        masked_diagnostic(secrets, d).message == crate::mask::masked(secrets, d.message),
        d.instance_path matches Some(s) ==> masked_diagnostic(secrets, d).instance_path == Some(
            crate::mask::masked(secrets, s),
        ),
        d.instance_path is None ==> masked_diagnostic(secrets, d).instance_path is None,
        d.asset_ref matches Some(s) ==> masked_diagnostic(secrets, d).asset_ref == Some(crate::mask::masked(secrets, s)),
        d.asset_ref is None ==> masked_diagnostic(secrets, d).asset_ref is None,
{
}

/// No assertion and no diagnostic is lost in masking, and each keeps its place.
pub proof fn lemma_masking_loses_nothing(
    secrets: Seq<Seq<char>>,
    assertions: Seq<AssertionV>,
    diagnostics: Seq<DiagnosticV>,
)
    ensures
        masked_assertions(secrets, assertions).len() == assertions.len(),
        forall|i: int|
            0 <= i < assertions.len() ==> #[trigger] masked_assertions(secrets, assertions)[i] == masked_assertion(
                secrets,
                assertions[i],
            ),
        masked_diagnostics(secrets, diagnostics).len() == diagnostics.len(),
        forall|i: int|
            0 <= i < diagnostics.len() ==> #[trigger] masked_diagnostics(secrets, diagnostics)[i] == masked_diagnostic(
                secrets,
                diagnostics[i],
            ),
{
}

// ---------------------------------------------------------------------
// Replies
// ---------------------------------------------------------------------

proof fn lemma_texts(items: Seq<JsonV>)
    ensures
        picks(
            items,
            |v: JsonV| v is String,
            |v: JsonV, s: Seq<char>| v == JsonV::String(s),
            texts_among(items),
        ),
    decreases items.len(),
{
    let keep = |v: JsonV| v is String;
    let fits = |v: JsonV, s: Seq<char>| v == JsonV::String(s);
    if items.len() == 0 {
        lemma_picks_none(items, keep, fits, texts_among(items));
    } else {
        lemma_texts(items.drop_last());
        if keep(items.last()) {
            assert(texts_among(items).drop_last() =~= texts_among(items.drop_last()));
        }
        lemma_picks_more(items, keep, fits, texts_among(items.drop_last()), texts_among(items));
    }
}

/// A reply of the host is an object with what the asset returned, as JSON in a
/// text, and the lines that it logged. What is none is an error of the asset, and
/// so is a failure.
pub proof fn lemma_reply_means_what_the_asset_returned(path: Seq<char>, reply: Result<Seq<char>, FailureV>)
    ensures
        reply is Err ==> answer_of(path, reply) is Err,
        answer_of(path, reply) matches Err(d) ==> d.code == Code::AssetError && d.severity == Severity::Error,
        reply matches Ok(text) ==> match json_parse(text) {
            Ok(v) => match member(v, "out"@) {
                Some(JsonV::String(out)) => match json_parse(out) {
                    Ok(value) => answer_of(path, reply) matches Ok(a) && a.0 == value && (member(v, "logs"@) matches Some(
                        JsonV::Array(items),
                    ) ==> picks(
                        items,
                        |v: JsonV| v is String,
                        |v: JsonV, s: Seq<char>| v == JsonV::String(s),
                        a.1,
                    )) && (!(member(v, "logs"@) matches Some(JsonV::Array(_))) ==> a.1.len() == 0),
                    Err(_) => answer_of(path, reply) is Err,
                },
                _ => answer_of(path, reply) is Err,
            },
            Err(_) => answer_of(path, reply) is Err,
        },
{
    if let Ok(text) = reply {
        if let Ok(v) = json_parse(text) {
            if let Some(JsonV::Array(items)) = member(v, "logs"@) {
                lemma_texts(items);
            }
        }
    }
}

/// A TypeScript asset is refused, and one that could not be read is not found;
/// neither is run.
pub proof fn lemma_only_readable_scripts_run(path: Seq<char>, script: ScriptV, ctx: JsonV, input: JsonV, answer: AnswerV)
    requires
        may_answer(path, script, ctx, input, answer),
    ensures
        has_suffix(path, ".ts"@) ==> (answer matches Err(d) && d.code == Code::AssetError),
        !has_suffix(path, ".ts"@) && script is Unreadable ==> (answer matches Err(d) && d.code == Code::AssetNotFound),
        answer matches Err(d) ==> d.severity == Severity::Error,
{
}

// ---------------------------------------------------------------------
// Previews
// ---------------------------------------------------------------------

/// The preview of a hook shows the request before and after it, and the
/// warnings; that of an assertion or extractor its results and what it would
/// write. A builtin has the one outcome of its name.
pub proof fn lemma_preview_shows_what_would_happen(
    e: EntryV,
    request: RequestV,
    scripts: Seq<(Seq<char>, ScriptV)>,
    response: Option<ResponseV>,
    outlook: OutlookV,
)
    requires
        may_preview(e, request, scripts, response, outlook),
    ensures
        e.phase == PipelinePhase::OnError || e.phase == PipelinePhase::Finally ==> (outlook matches Err(d) && d.code
            == Code::InvalidAssetInput),
        e.phase == PipelinePhase::AfterResponse && response is None ==> (outlook matches Err(d) && d.code
            == Code::InvalidAssetInput && d.asset_ref == Some(e.asset.raw)),
        e.phase == PipelinePhase::BeforeRequest && e.asset.scheme == RefScheme::Builtin ==> match hook_outcome(e) {
            Ok(patch) => outlook matches Ok(p) && (p.request_before matches Some(c) && c.url == request.url && c.headers
                == request.headers) && (p.request_after matches Some(c) && c.url == patched(request, patch).url && c.headers
                == patched(request, patch).headers) && p.assertions.len() == 0 && p.runtime_writes.len() == 0
                && p.diagnostics == overwrites(request.headers, patch.headers),
            Err(d) => outlook == Err::<PreviewV, DiagnosticV>(d),
        },
        e.phase == PipelinePhase::AfterResponse && e.asset.scheme == RefScheme::Builtin ==> (response matches Some(r)
            ==> match reaction_outcome(e, r) {
            Ok(reaction) => outlook matches Ok(p) && p.request_before is None && p.request_after is None && p.assertions
                == reaction.0 && p.runtime_writes == reaction.1 && p.diagnostics.len() == 0,
            Err(d) => outlook == Err::<PreviewV, DiagnosticV>(d),
        }),
{
}

/// The preview that is shown is masked throughout, and nothing of it is lost.
pub proof fn lemma_masked_preview_loses_nothing(secrets: Seq<Seq<char>>, p: PreviewV)
    ensures
        ({
            let m = masked_preview(secrets, p);
            &&& m.request_before is Some <==> p.request_before is Some
            &&& m.request_after is Some <==> p.request_after is Some
            &&& p.request_after matches Some(c) ==> (m.request_after matches Some(d) && d.url == crate::mask::masked(
                secrets,
                c.url,
            ) && d.headers.len() == c.headers.len())
            &&& m.assertions == masked_assertions(secrets, p.assertions)
            &&& m.runtime_writes == masked_runtime(secrets, p.runtime_writes)
            &&& m.diagnostics == masked_diagnostics(secrets, p.diagnostics)
            &&& m.logs.len() == p.logs.len()
            &&& forall|i: int| 0 <= i < p.logs.len() ==> #[trigger] m.logs[i] == crate::mask::masked(secrets, p.logs[i])
        }),
{
}

// ---------------------------------------------------------------------
// Schemas
// ---------------------------------------------------------------------

/// A validation is reported by its errors, each with its place, as many as are
/// to be told; where there is none it holds. A schema that is none is told in one
/// line.
pub proof fn lemma_schema_errors_are_reported(rows: Seq<(Seq<char>, Seq<char>)>, why: Seq<char>)
    ensures
        rows.len() == 0 ==> schema_report(Ok(rows)) is Ok,
        rows.len() > 0 ==> (schema_report(Ok(rows)) matches Err(lines) && lines.len() == (if rows.len() <= MAX_ERRORS {
            rows.len() as int
        } else {
            MAX_ERRORS as int
        }) && forall|i: int| 0 <= i < lines.len() ==> #[trigger] lines[i] == rows[i].0 + ": "@ + rows[i].1),
        schema_report(Err(why)) == Err::<(), Seq<Seq<char>>>(seq!["invalid JSON schema: "@ + why]),
{
}

} // verus!
