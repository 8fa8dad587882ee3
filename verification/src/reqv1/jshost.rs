//! Project assets: JavaScript files that define a global
//! `function run(ctx, input)`, run by QuickJS with a memory limit and a time
//! budget. What `run` returns decides its meaning:
//!
//! - a hook returns `{ url?, headers?: [{ name, value }] }`;
//! - an assertion returns `{ passed, message, expected?, actual?, path? }` or
//!   an array of these;
//! - an extractor returns `{ runtime: { key: value } }`;
//! - a generator returns any JSON value;
//! - a mock returns `{ status, headers?, body?, delayMs? }`.

use rquickjs::{Context, Error, Exception, Runtime};
use std::time::Instant;
use vstd::prelude::*;

use crate::json::{items_in, json_parse, member, parse, print, printed, text_member, Json, JsonV};
use crate::map::{lookup, TextMap};
use crate::reqv1::diag::{diag, Code, Diagnostic, DiagnosticV};
use crate::text::{cat2, cat3, cat4, cat5, ends_with, has_suffix};
use crate::view::{group_views, opt_or, opt_view, views};

verus! {

broadcast use vstd::string::group_string_axioms;

/// How much memory an asset may use.
pub const MEMORY_LIMIT_BYTES: usize = 134_217_728;

/// How many seconds an asset may run.
pub const TIME_BUDGET_SECS: u64 = 5;

/// A JavaScript file: its text, or why it cannot be read.
#[derive(Debug)]
pub enum Script {
    Source(String),
    Unreadable(String),
}

/// What a [`Script`] holds.
pub enum ScriptV {
    Source(Seq<char>),
    Unreadable(Seq<char>),
}

impl View for Script {
    type V = ScriptV;

    open spec fn view(&self) -> ScriptV {
        match self {
            Script::Source(s) => ScriptV::Source(s@),
            Script::Unreadable(e) => ScriptV::Unreadable(e@),
        }
    }
}

/// Why an evaluation gave no text, with what `rquickjs` says.
#[derive(Debug)]
pub enum Failure {
    /// There is no runtime.
    NoRuntime(String),
    /// There is no context.
    NoContext(String),
    /// Something was thrown: the message of the exception, if it is one that
    /// has a message, and the thing itself in a form for programmers.
    Thrown(Option<String>, String),
    /// Any other error.
    Refused(String),
}

/// What a [`Failure`] says.
pub enum FailureV {
    NoRuntime(Seq<char>),
    NoContext(Seq<char>),
    Thrown(Option<Seq<char>>, Seq<char>),
    Refused(Seq<char>),
}

impl View for Failure {
    type V = FailureV;

    open spec fn view(&self) -> FailureV {
        match self {
            Failure::NoRuntime(e) => FailureV::NoRuntime(e@),
            Failure::NoContext(e) => FailureV::NoContext(e@),
            Failure::Thrown(message, shown) => FailureV::Thrown(opt_view(*message), shown@),
            Failure::Refused(e) => FailureV::Refused(e@),
        }
    }
}

/// The replies that QuickJS may give when it evaluates a source and then a
/// call, with so many bytes of memory and so many seconds: the text of the
/// call's value, or why there is none. A script can read the clock and random
/// numbers, so one of several replies comes.
pub uninterp spec fn script_replies(
    source: Seq<char>,
    call: Seq<char>,
    bytes: usize,
    seconds: u64,
) -> Set<Result<Seq<char>, FailureV>>;

/// A reply by the views of its two sides.
pub open spec fn reply_view(r: Result<String, Failure>) -> Result<Seq<char>, FailureV> {
    match r {
        Ok(s) => Ok(s@),
        Err(f) => Err(f@),
    }
}

/// Whether a script has used up its time, in whole seconds.
pub fn time_is_over(elapsed: u64, budget: u64) -> (r: bool)
    ensures
        r == (elapsed >= budget),
{
    elapsed >= budget
}

/// `rquickjs` evaluates two scripts in a fresh context, under a memory limit
/// and with an interrupt handler that it asks, as it goes, whether to stop.
/// The reply is the string that the last script evaluates to, or which step
/// failed and what `rquickjs` says of it. Nothing is claimed of the reply but
/// that QuickJS may give it.
#[verifier::external_body]
fn evaluate(source: &str, call: &str, bytes: usize, seconds: u64) -> (r: Result<String, Failure>)
    ensures
        script_replies(source@, call@, bytes, seconds).contains(reply_view(r)),
{
    let start = Instant::now();
    let runtime = Runtime::new().map_err(|e| Failure::NoRuntime(e.to_string()))?;
    runtime.set_memory_limit(bytes);
    runtime.set_interrupt_handler(Some(Box::new(move || time_is_over(start.elapsed().as_secs(), seconds))));
    Context::full(&runtime).map_err(|e| Failure::NoContext(e.to_string()))?.with(|ctx| {
        ctx.eval::<(), _>(source).and_then(|_| ctx.eval(call)).map_err(|e| match e {
            Error::Exception => {
                let caught = ctx.catch();
                Failure::Thrown(caught.as_exception().and_then(Exception::message), format!("{caught:?}"))
            },
            other => Failure::Refused(other.to_string()),
        })
    })
}

/// A failure in words. Of something thrown, the message of the exception is
/// shown where there is one.
pub open spec fn failure_words(f: FailureV) -> Seq<char> {
    match f {
        FailureV::NoRuntime(e) => "QuickJS start: "@ + e,
        FailureV::NoContext(e) => "QuickJS context: "@ + e,
        FailureV::Thrown(message, shown) => opt_or(message, shown),
        FailureV::Refused(e) => e,
    }
}

/// A failure in words.
pub fn failure_text(f: &Failure) -> (r: String)
    ensures
        r@ == failure_words(f@),
{
    match f {
        Failure::NoRuntime(e) => cat2("QuickJS start: ", e.as_str()),
        Failure::NoContext(e) => cat2("QuickJS context: ", e.as_str()),
        Failure::Thrown(message, shown) => match message {
            Some(m) => m.clone(),
            None => shown.clone(),
        },
        Failure::Refused(e) => e.clone(),
    }
}

/// What stands before the source of an asset: a `console` whose lines are kept.
pub open spec fn setup_text() -> Seq<char> {
    "var __logs = []; var console = (function () { function log() { __logs.push(Array.prototype.map.call(arguments, String).join(' ')); } return { log: log, info: log, warn: log, error: log, debug: log }; })();\n"@
}

/// The script that calls `run` with a frozen context and an input.
pub open spec fn call_text(ctx: JsonV, input: JsonV) -> Seq<char> {
    "(function () { var __ctx = Object.freeze(JSON.parse("@ + printed(JsonV::String(printed(ctx))) + ")); var __input = JSON.parse("@
        + printed(JsonV::String(printed(input)))
        + "); if (typeof run !== 'function') { throw new Error('asset must define a global function run(ctx, input)'); } var __out = run(__ctx, __input); return JSON.stringify({ logs: __logs, out: JSON.stringify(__out === undefined ? null : __out) }); })()"@
}

/// A text as a JavaScript string literal; JSON escaping is valid there.
pub fn js_string_literal(text: &str) -> (r: String)
    ensures
        r@ == printed(JsonV::String(text@)),
{
    print(&Json::String(text.to_owned()))
}

/// The diagnostic for what went wrong while the asset at `path` ran.
pub open spec fn host_error(path: Seq<char>, message: Seq<char>) -> DiagnosticV {
    diag(Code::AssetError, path + ": "@ + message)
}

/// The diagnostic for what went wrong while the asset at `path` ran.
pub fn host_err(path: &str, message: &str) -> (r: Diagnostic)
    ensures
        r@ == host_error(path@, message@),
{
    Diagnostic::new(Code::AssetError, cat3(path, ": ", message))
}

/// What an asset returned, and what it logged.
pub type AnswerV = Result<(JsonV, Seq<Seq<char>>), DiagnosticV>;

/// An answer by the views of its parts.
pub open spec fn answer_view(r: Result<(Json, Vec<String>), Diagnostic>) -> AnswerV {
    match r {
        Ok((out, logs)) => Ok((out@, views(logs@))),
        Err(d) => Err(d@),
    }
}

/// The texts among the items.
pub open spec fn texts_among(items: Seq<JsonV>) -> Seq<Seq<char>>
    decreases items.len(),
{
    if items.len() == 0 {
        seq![]
    } else {
        let before = texts_among(items.drop_last());
        match items.last() {
            JsonV::String(s) => before.push(s),
            _ => before,
        }
    }
}

/// What an asset returned that has no JSON text.
pub open spec fn no_json_error(path: Seq<char>, why: Seq<char>) -> DiagnosticV {
    host_error(path, "asset returned non-JSON-serializable value: "@ + why)
}

/// What a reply of the host means. The reply holds the JSON text of what the
/// asset returned, unless that has none, as a function has none.
pub open spec fn answer_of(path: Seq<char>, reply: Result<Seq<char>, FailureV>) -> AnswerV {
    match reply {
        Err(f) => Err(host_error(path, failure_words(f))),
        Ok(text) => match json_parse(text) {
            Err(e) => Err(no_json_error(path, e)),
            Ok(v) => match text_member(v, "out"@) {
                None => Err(no_json_error(path, "it has no JSON text"@)),
                Some(out) => match json_parse(out) {
                    Err(e) => Err(no_json_error(path, e)),
                    Ok(out) => Ok((out, texts_among(opt_or(items_in(member(v, "logs"@)), seq![])))),
                },
            },
        },
    }
}

/// The diagnostic for an asset that is not JavaScript.
pub open spec fn typescript_error(path: Seq<char>) -> DiagnosticV {
    diag(Code::AssetError, path + ": TypeScript assets are not executable in v1 — transpile to .js"@)
}

/// The diagnostic for an asset that cannot be read.
pub open spec fn unreadable_error(path: Seq<char>, why: Seq<char>) -> DiagnosticV {
    diag(Code::AssetNotFound, "cannot read asset "@ + path + ": "@ + why)
}

/// The answers that the asset at `path` may give.
pub open spec fn may_answer(path: Seq<char>, script: ScriptV, ctx: JsonV, input: JsonV, answer: AnswerV) -> bool {
    if has_suffix(path, ".ts"@) {
        answer == Err::<(JsonV, Seq<Seq<char>>), DiagnosticV>(typescript_error(path))
    } else {
        match script {
            ScriptV::Unreadable(why) => answer == Err::<(JsonV, Seq<Seq<char>>), DiagnosticV>(
                unreadable_error(path, why),
            ),
            ScriptV::Source(source) => exists|reply: Result<Seq<char>, FailureV>|
                {
                    &&& script_replies(
                        setup_text() + source,
                        call_text(ctx, input),
                        MEMORY_LIMIT_BYTES,
                        TIME_BUDGET_SECS,
                    ).contains(reply)
                    &&& answer == #[trigger] answer_of(path, reply)
                },
        }
    }
}

fn no_json(path: &str, why: &str) -> (r: Diagnostic)
    ensures
        r@ == no_json_error(path@, why@),
{
    host_err(path, cat2("asset returned non-JSON-serializable value: ", why).as_str())
}

/// Read a reply of the host.
pub fn read_reply(path: &str, reply: Result<String, Failure>) -> (r: Result<(Json, Vec<String>), Diagnostic>)
    ensures
        answer_view(r) == answer_of(path@, reply_view(reply)),
{
    broadcast use group_views;
    broadcast use crate::json::lemma_json_view;

    let text = match reply {
        Err(f) => {
            return Err(host_err(path, failure_text(&f).as_str()));
        },
        Ok(text) => text,
    };
    let v = match parse(text.as_str()) {
        Err(e) => {
            return Err(no_json(path, e.as_str()));
        },
        Ok(v) => v,
    };
    let out = match v.get_str("out") {
        None => {
            return Err(no_json(path, "it has no JSON text"));
        },
        Some(out) => match parse(out) {
            Err(e) => {
                return Err(no_json(path, e.as_str()));
            },
            Ok(out) => out,
        },
    };
    let mut logs: Vec<String> = Vec::new();
    if let Some(list) = v.get("logs") {
        if let Some(items) = list.as_array() {
            let ghost all = views(items@);
            let mut i: usize = 0;
            assert(all.take(0) =~= Seq::<JsonV>::empty());
            while i < items.len()
                invariant
                    i <= items.len(),
                    all == views(items@),
                    views(logs@) == texts_among(all.take(i as int)),
                decreases items.len() - i,
            {
                assert(all.take(i + 1).drop_last() =~= all.take(i as int));
                assert(all.take(i + 1).last() == items@[i as int]@);
                if let Some(s) = items[i].as_str() {
                    logs.push(s.to_owned());
                }
                i += 1;
            }
            assert(all.take(i as int) =~= all);
        }
    }
    Ok((out, logs))
}

/// Execute `run(ctx, input)` of the asset at `path` and keep what it logs.
/// `ctx` and `input` are handed over as JSON text.
pub fn run_js_asset_with_logs(path: &str, script: &Script, ctx: &Json, input: &Json) -> (r: Result<
    (Json, Vec<String>),
    Diagnostic,
>)
    ensures
        may_answer(path@, script@, ctx@, input@, answer_view(r)),
{
    if ends_with(path, ".ts") {
        return Err(
            Diagnostic::new(
                Code::AssetError,
                cat2(path, ": TypeScript assets are not executable in v1 — transpile to .js"),
            ),
        );
    }
    match script {
        Script::Unreadable(why) => Err(
            Diagnostic::new(Code::AssetNotFound, cat4("cannot read asset ", path, ": ", why.as_str())),
        ),
        Script::Source(source) => {
            let call = cat5(
                "(function () { var __ctx = Object.freeze(JSON.parse(",
                js_string_literal(print(ctx).as_str()).as_str(),
                ")); var __input = JSON.parse(",
                js_string_literal(print(input).as_str()).as_str(),
                "); if (typeof run !== 'function') { throw new Error('asset must define a global function run(ctx, input)'); } var __out = run(__ctx, __input); return JSON.stringify({ logs: __logs, out: JSON.stringify(__out === undefined ? null : __out) }); })()",
            );
            let whole = cat2(
                "var __logs = []; var console = (function () { function log() { __logs.push(Array.prototype.map.call(arguments, String).join(' ')); } return { log: log, info: log, warn: log, error: log, debug: log }; })();\n",
                source.as_str(),
            );
            let reply = evaluate(whole.as_str(), call.as_str(), MEMORY_LIMIT_BYTES, TIME_BUDGET_SECS);
            let ghost given = reply_view(reply);
            assert(call@ =~= call_text(ctx@, input@));
            assert(script_replies(setup_text() + source@, call_text(ctx@, input@), MEMORY_LIMIT_BYTES, TIME_BUDGET_SECS).contains(given));
            let r = read_reply(path, reply);
            assert(answer_view(r) == answer_of(path@, given));
            r
        },
    }
}

/// Execute `run(ctx, input)` of the asset at `path`.
pub fn run_js_asset(path: &str, script: &Script, ctx: &Json, input: &Json) -> (r: Result<Json, Diagnostic>)
    ensures
        exists|answer: AnswerV| #[trigger]
            may_answer(path@, script@, ctx@, input@, answer) && match r {
                Ok(out) => answer is Ok && answer->Ok_0.0 == out@,
                Err(d) => answer == Err::<(JsonV, Seq<Seq<char>>), DiagnosticV>(d@),
            },
{
    let r = run_js_asset_with_logs(path, script, ctx, input);
    let ghost answer = answer_view(r);
    assert(may_answer(path@, script@, ctx@, input@, answer));
    match r {
        Ok((out, _)) => Ok(out),
        Err(d) => Err(d),
    }
}

/// The script at `path` among those that were read.
pub open spec fn script_at(scripts: Seq<(Seq<char>, ScriptV)>, path: Seq<char>) -> ScriptV {
    opt_or(lookup(scripts, path), ScriptV::Unreadable("not loaded"@))
}

/// Execute the asset at `path`, whose file is among `scripts`.
pub fn run_loaded(scripts: &TextMap<Script>, path: &str, ctx: &Json, input: &Json) -> (r: Result<
    (Json, Vec<String>),
    Diagnostic,
>)
    ensures
        may_answer(path@, script_at(scripts@, path@), ctx@, input@, answer_view(r)),
{
    match scripts.get(path) {
        Some(script) => run_js_asset_with_logs(path, script, ctx, input),
        None => {
            let missing = Script::Unreadable("not loaded".to_owned());
            run_js_asset_with_logs(path, &missing, ctx, input)
        },
    }
}

} // verus!
