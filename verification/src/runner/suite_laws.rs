//! What holds of a run over many requests: where it starts, where it goes next,
//! how requests are counted, which hooks are due, and what its report says.

use vstd::prelude::*;

use crate::map::lookup;
use crate::selection::{lemma_picks_more, lemma_picks_none, picks};
use crate::store::{named_environment, CollectionV, LoadedV};
use crate::vars::{environment_layer, layered, lemma_layers_in_turn, LayerV};
use crate::words::decimal;

use super::data::{data_rows, DataV};
use super::execute::{layers_for, prepared, PreparedV};
use super::hooks::{entering, hooked_outcome, inside_out, leaving, HookKind};
use super::plan::{scope_plan, PlannedV, RunErrorV, ScopeV};
use super::report::{report, test_case, test_cases, xml_attribute, xml_text};
use super::run::{
    answered_outcome, failed_outcome, next_open, outcome_before_send, outcome_passed, CheckedV, ExecutionV, NextStep, OutcomeV, RunMachine,
    RunSummary, ScriptOutputV, SlotV,
};

verus! {

broadcast use vstd::string::group_string_axioms;

// ---------------------------------------------------------------------
// The start
// ---------------------------------------------------------------------

/// An environment is the first of its name, and none where there is none of
/// that name.
pub proof fn lemma_first_environment_of_a_name_counts(list: Seq<LoadedV>, name: Seq<char>, i: int)
    requires
        0 <= i <= list.len(),
        forall|j: int| 0 <= j < i ==> (#[trigger] list[j]).env.name != name,
    ensures
        i < list.len() && list[i].env.name == name ==> named_environment(list, name, 0) == Some(list[i]),
        i == list.len() ==> named_environment(list, name, 0) is None,
{
    lemma_environment_from(list, name, 0, i);
}

proof fn lemma_environment_from(list: Seq<LoadedV>, name: Seq<char>, from: int, i: int)
    requires
        0 <= from <= i <= list.len(),
        forall|j: int| 0 <= j < i ==> (#[trigger] list[j]).env.name != name,
    ensures
        i < list.len() && list[i].env.name == name ==> named_environment(list, name, from) == Some(list[i]),
        i == list.len() ==> named_environment(list, name, from) is None,
    decreases i - from,
{
    if from < i {
        assert(list[from].env.name != name);
        lemma_environment_from(list, name, from + 1, i);
    }
}

/// A run starts with the requests of its scope, the environment that is named,
/// and the rows of its data. It does not start where one of them is not to be
/// had; the scope is looked at first, then the environment, then the data.
pub proof fn lemma_run_starts_where_all_is_there(
    cols: Seq<CollectionV>,
    environments: Seq<LoadedV>,
    scope: ScopeV,
    environment: Option<Seq<char>>,
    data: Option<DataV>,
)
    ensures
        ({
            let r = prepared(cols, environments, scope, environment, data);
            &&& scope_plan(cols, scope) matches Err(e) ==> r == Err::<PreparedV, RunErrorV>(e)
            &&& scope_plan(cols, scope) matches Ok(plan) ==> {
                &&& environment matches Some(name) ==> (named_environment(environments, name, 0) is None ==> r == Err::<
                    PreparedV,
                    RunErrorV,
                >(RunErrorV::EnvironmentNotFound(name)))
                &&& (environment is None || named_environment(environments, environment->Some_0, 0) is Some) ==> match data_rows(
                    data,
                ) {
                    Err(e) => r == Err::<PreparedV, RunErrorV>(e),
                    Ok(rows) => r matches Ok(p) && p.planned == plan && p.iterations == rows && (environment is None
                        ==> p.environment is None) && (environment matches Some(name) ==> p.environment
                        == named_environment(environments, name, 0)),
                }
            }
        }),
{
}

// ---------------------------------------------------------------------
// The way
// ---------------------------------------------------------------------

/// The next request is the first from here on that is not passed over; what is
/// passed over on the way is counted. Where all the rest of an iteration is
/// passed over, the next iteration begins.
pub proof fn lemma_next_request_is_the_first_not_passed_over(
    skips: Seq<bool>,
    iterations: int,
    iteration: int,
    index: int,
    k: int,
)
    requires
        0 <= index <= k <= skips.len(),
        iteration < iterations,
        forall|j: int| index <= j < k ==> #[trigger] skips[j],
    ensures
        k < skips.len() && !skips[k] ==> next_open(skips, iterations, iteration, index) == (iteration, k, (k - index) as nat),
        k == skips.len() ==> next_open(skips, iterations, iteration, index) == (
            next_open(skips, iterations, iteration + 1, 0).0,
            next_open(skips, iterations, iteration + 1, 0).1,
            (next_open(skips, iterations, iteration + 1, 0).2 + (k - index)) as nat,
        ),
        next_open(skips, iterations, iterations, 0) == (iterations, 0int, 0nat),
    decreases k - index,
{
    if index < k {
        assert(skips[index]);
        lemma_next_request_is_the_first_not_passed_over(skips, iterations, iteration, index + 1, k);
    }
}

/// A run that is stopped or cancelled has no next request. Otherwise the next
/// one is executed, and its iteration announced where it is the first of it;
/// with a new iteration what requests have set is forgotten.
pub proof fn lemma_run_goes_on_until_it_is_stopped(m: RunMachine, cancelled: bool, now: RunMachine, r: NextStep)
    requires
        m.stepped(cancelled, now, r),
    ensures
        cancelled || m.stopped ==> r is Finished,
        now.stopped == (cancelled || m.stopped),
        now.passed == m.passed && now.failed == m.failed && now.total == m.total,
        r matches NextStep::Execute { iteration, index, announce } ==> {
            &&& !cancelled && !m.stopped
            &&& (iteration as int, index as int) == (
                next_open(m.skips@, m.iterations as int, m.iteration as int, m.index as int).0,
                next_open(m.skips@, m.iterations as int, m.iteration as int, m.index as int).1,
            )
            &&& announce <==> m.announced != Some(iteration)
            &&& announce ==> now.runtime@.len() == 0
            &&& !announce ==> now.runtime@ == m.runtime@
            &&& now.running
        },
        r is Finished ==> now.passed + now.failed + now.skipped == now.total && !now.running,
{
}

/// A request that was executed counts once, as passed or as failed; a failed one
/// stops the run where it is to stop at the first failure, and only then.
pub proof fn lemma_executed_request_counts_once(m: RunMachine, ok: bool, now: RunMachine)
    requires
        m.recorded(ok, now),
    ensures
        ok ==> now.passed == m.passed + 1 && now.failed == m.failed,
        !ok ==> now.failed == m.failed + 1 && now.passed == m.passed,
        now.skipped == m.skipped && now.total == m.total,
        now.index == m.index + 1 && now.iteration == m.iteration,
        m.stopped ==> now.stopped,
        !m.stopped ==> (now.stopped <==> m.bail && !ok),
        !now.running,
{
}

// ---------------------------------------------------------------------
// Outcomes
// ---------------------------------------------------------------------

/// A request passed exactly where it was answered, its scripts did not break,
/// and every assertion passed.
pub proof fn lemma_request_passes_where_nothing_failed(o: OutcomeV)
    ensures
        o.result is Err ==> !outcome_passed(o),
        o.script_error is Some ==> !outcome_passed(o),
        forall|i: int| 0 <= i < o.assertions.len() && !(#[trigger] o.assertions[i]).passed ==> !outcome_passed(o),
        o.result is Ok && o.script_error is None && (forall|i: int|
            0 <= i < o.assertions.len() ==> (#[trigger] o.assertions[i]).passed) ==> outcome_passed(o),
{
}

/// The outcome of a request is about that request: its id, its name and its
/// iteration. One that was not answered has an error and no assertions; an
/// answered one has its response, its assertions and then those of its script.
pub proof fn lemma_outcome_is_of_its_request(
    slot: SlotV,
    error: Seq<char>,
    log: Seq<Seq<char>>,
    broken: Option<Seq<char>>,
    response: ExecutionV,
    assertions: Seq<CheckedV>,
    extracted: Seq<(Seq<char>, Seq<char>)>,
    script: Option<ScriptOutputV>,
)
    ensures
        ({
            let o = failed_outcome(slot, error, log, broken);
            &&& o.id == slot.id && o.name == slot.name && o.iteration == slot.iteration
            &&& o.result == Err::<ExecutionV, Seq<char>>(error)
            &&& o.assertions.len() == 0 && o.extracted.len() == 0
            &&& o.script_log == log && o.script_error == broken
            &&& !outcome_passed(o)
        }),
        ({
            let o = answered_outcome(slot, response, assertions, log, extracted, script);
            &&& o.id == slot.id && o.name == slot.name && o.iteration == slot.iteration
            &&& o.result == Ok::<ExecutionV, Seq<char>>(response)
            &&& o.extracted == extracted
            &&& script is None ==> o.assertions == assertions && o.script_log == log && o.script_error is None
            &&& script matches Some(out) ==> o.assertions == assertions + out.assertions && o.script_log == log + out.log
                && o.script_error == out.error
        }),
{
}

/// A request is not sent where it cannot be made ready, or its script broke: then
/// it has its outcome already, with the reason. Otherwise it has none yet.
pub proof fn lemma_broken_request_is_not_sent(
    slot: SlotV,
    unresolved: Option<Seq<char>>,
    script: Option<ScriptOutputV>,
)
    ensures
        outcome_before_send(slot, unresolved, script) is None <==> unresolved is None && (script matches Some(out)
            ==> out.error is None),
        unresolved matches Some(e) ==> (outcome_before_send(slot, unresolved, script) matches Some(o) && o.result == Err::<
            ExecutionV,
            Seq<char>,
        >(e) && o.id == slot.id && o.script_error is None),
        unresolved is None ==> (script matches Some(out) ==> (out.error matches Some(e) ==> (outcome_before_send(
            slot,
            unresolved,
            script,
        ) matches Some(o) && o.result is Err && o.id == slot.id && o.script_error == Some(e) && o.script_log == out.log))),
        outcome_before_send(slot, unresolved, script) matches Some(o) ==> !outcome_passed(o),
{
}

/// A name in a request has the value that the run has set, else that of the data
/// row, else that of the nearest folder that has it, else that of the collection,
/// else that of the environment; a secret of the environment has the value that
/// is kept apart.
pub proof fn lemma_request_sees_its_variables(
    planned: PlannedV,
    environment: Option<LoadedV>,
    row: LayerV,
    runtime: LayerV,
    name: Seq<char>,
)
    ensures
        layered(layers_for(planned, environment, row, runtime), name) == if lookup(runtime, name) is Some {
            lookup(runtime, name)
        } else if lookup(row, name) is Some {
            lookup(row, name)
        } else if layered(planned.folder_vars, name) is Some {
            layered(planned.folder_vars, name)
        } else if lookup(planned.collection_vars, name) is Some {
            lookup(planned.collection_vars, name)
        } else {
            match environment {
                Some(e) => lookup(environment_layer(e.env.variables, e.secrets), name),
                None => None,
            }
        },
{
    let values = match environment {
        Some(e) => environment_layer(e.env.variables, e.secrets),
        None => seq![],
    };
    let none: LayerV = seq![];
    let first = seq![runtime] + seq![row];
    let last = seq![planned.collection_vars] + seq![values] + seq![none];
    assert(layers_for(planned, environment, row, runtime) =~= first + planned.folder_vars + last);
    lemma_layers_in_turn(first + planned.folder_vars, last, name);
    lemma_layers_in_turn(first, planned.folder_vars, name);
    lemma_layers_in_turn(seq![runtime], seq![row], name);
    lemma_layers_in_turn(seq![planned.collection_vars] + seq![values], seq![none], name);
    lemma_layers_in_turn(seq![planned.collection_vars], seq![values], name);
    lemma_single(runtime, name);
    lemma_single(row, name);
    lemma_single(planned.collection_vars, name);
    lemma_single(values, name);
    lemma_single(none, name);
}

proof fn lemma_single(layer: LayerV, name: Seq<char>)
    ensures
        layered(seq![layer], name) == lookup(layer, name),
{
    assert(seq![layer].skip(1) =~= Seq::empty());
    assert(layered(seq![layer].skip(1), name) is None);
}

// ---------------------------------------------------------------------
// Hooks
// ---------------------------------------------------------------------

/// From the inside out is the other way round.
pub proof fn lemma_inside_out_is_the_other_way_round(scopes: Seq<Seq<char>>, i: int)
    requires
        0 <= i < scopes.len(),
    ensures
        inside_out(scopes).len() == scopes.len(),
        inside_out(scopes)[i] == scopes[scopes.len() - 1 - i],
{
}

/// What is entered are the scopes that have not been entered, the outermost
/// first.
pub proof fn lemma_scopes_not_entered_are_entered(scopes: Seq<Seq<char>>, entered: Seq<Seq<char>>)
    ensures
        picks(
            scopes,
            |s: Seq<char>| !entered.contains(s),
            |s: Seq<char>, t: Seq<char>| s == t,
            entering(scopes, entered),
        ),
    decreases scopes.len(),
{
    let keep = |s: Seq<char>| !entered.contains(s);
    let fits = |s: Seq<char>, t: Seq<char>| s == t;
    if scopes.len() == 0 {
        lemma_picks_none(scopes, keep, fits, entering(scopes, entered));
    } else {
        lemma_scopes_not_entered_are_entered(scopes.drop_last(), entered);
        if keep(scopes.last()) {
            assert(entering(scopes, entered).drop_last() =~= entering(scopes.drop_last(), entered));
        }
        lemma_picks_more(scopes, keep, fits, entering(scopes.drop_last(), entered), entering(scopes, entered));
    }
}

/// A scope is left after a request exactly where no later request that is run
/// lies in it; an inner scope is left before the one around it.
pub proof fn lemma_scope_is_left_after_its_last_request(
    outer: Seq<Seq<char>>,
    scope: Seq<char>,
    chains: Seq<Seq<Seq<char>>>,
    skips: Seq<bool>,
    index: int,
)
    requires
        skips.len() == chains.len(),
    ensures
        leaving(seq![], chains, skips, index).len() == 0,
        (exists|j: int| index < j < chains.len() && !skips[j] && (#[trigger] chains[j]).contains(scope)) ==> leaving(
            outer.push(scope),
            chains,
            skips,
            index,
        ) == leaving(outer, chains, skips, index),
        !(exists|j: int| index < j < chains.len() && !skips[j] && (#[trigger] chains[j]).contains(scope)) ==> leaving(
            outer.push(scope),
            chains,
            skips,
            index,
        ) == seq![scope] + leaving(outer, chains, skips, index),
{
    assert(outer.push(scope).drop_last() =~= outer);
    assert(super::hooks::comes_again(chains, skips, index, scope) == exists|j: int|
        index < j < chains.len() && !skips[j] && (#[trigger] chains[j]).contains(scope));
}

/// The assertions of a hook count for the request; its log and its error are
/// told in the log of the request. Nothing else changes.
pub proof fn lemma_hook_adds_to_the_outcome(o: OutcomeV, kind: HookKind, out: ScriptOutputV)
    ensures
        ({
            let after = hooked_outcome(o, kind, out);
            let told = o.script_log.len() + out.log.len();
            &&& after.assertions == o.assertions + out.assertions
            &&& after.id == o.id && after.name == o.name && after.iteration == o.iteration && after.result == o.result
            &&& after.script_error == o.script_error && after.extracted == o.extracted
            &&& after.script_log.take(o.script_log.len() as int) == o.script_log
            &&& forall|i: int|
                0 <= i < out.log.len() ==> #[trigger] after.script_log[o.script_log.len() + i] == "hook: "@ + out.log[i]
            &&& out.error is None ==> after.script_log.len() == told
            &&& out.error matches Some(e) ==> after.script_log.len() == told + 1 && after.script_log.last() == kind.name()
                + ": "@ + e
        }),
{
    let after = hooked_outcome(o, kind, out);
    assert(after.script_log.take(o.script_log.len() as int) =~= o.script_log);
}

// ---------------------------------------------------------------------
// The report
// ---------------------------------------------------------------------

/// In XML the characters of markup are written as entities, quotes only in
/// attributes, and every other character as it is; texts that follow each other
/// are written one after the other.
pub proof fn lemma_markup_is_written_as_entities(s: Seq<char>, c: char)
    ensures
        xml_text(seq![]).len() == 0,
        xml_attribute(seq![]).len() == 0,
        c == '&' ==> xml_text(s.push(c)) == xml_text(s) + "&amp;"@ && xml_attribute(s.push(c)) == xml_attribute(s)
            + "&amp;"@,
        c == '<' ==> xml_text(s.push(c)) == xml_text(s) + "&lt;"@ && xml_attribute(s.push(c)) == xml_attribute(s)
            + "&lt;"@,
        c == '>' ==> xml_text(s.push(c)) == xml_text(s) + "&gt;"@ && xml_attribute(s.push(c)) == xml_attribute(s)
            + "&gt;"@,
        c == '"' ==> xml_text(s.push(c)) == xml_text(s).push(c) && xml_attribute(s.push(c)) == xml_attribute(s)
            + "&quot;"@,
        c != '&' && c != '<' && c != '>' && c != '"' ==> xml_text(s.push(c)) == xml_text(s).push(c) && xml_attribute(
            s.push(c),
        ) == xml_attribute(s).push(c),
{
    assert(s.push(c).drop_last() =~= s);
    assert(xml_text(s) + seq![c] =~= xml_text(s).push(c));
    assert(xml_attribute(s) + seq![c] =~= xml_attribute(s).push(c));
}

/// The element of something that went wrong.
pub open spec fn problem(tag: Seq<char>, message: Seq<char>, content: Seq<char>) -> Seq<char> {
    "      <"@ + tag + " message=\""@ + xml_attribute(message) + "\">"@ + xml_text(content) + "</"@ + tag + ">\n"@
}

/// A failed assertion is a failure in the report, under its label and with its
/// message; one that passed is not.
pub proof fn lemma_failed_assertions_are_failures(assertions: Seq<CheckedV>, a: CheckedV)
    ensures
        super::report::failures(seq![], 0).len() == 0,
        a.passed ==> super::report::failures(assertions.push(a), assertions.len() as int + 1) == super::report::failures(
            assertions,
            assertions.len() as int,
        ),
        !a.passed ==> super::report::failures(assertions.push(a), assertions.len() as int + 1) == super::report::failures(
            assertions,
            assertions.len() as int,
        ) + problem("failure"@, a.label, a.message),
{
    let n = assertions.len() as int;
    lemma_failures_prefix(assertions, a, n);
    let before = super::report::failures(assertions, n);
    assert(assertions.push(a)[n] == a);
    assert(before + Seq::empty() =~= before);
}

proof fn lemma_failures_prefix(assertions: Seq<CheckedV>, a: CheckedV, n: int)
    requires
        0 <= n <= assertions.len(),
    ensures
        super::report::failures(assertions.push(a), n) == super::report::failures(assertions, n),
    decreases n,
{
    if n > 0 {
        lemma_failures_prefix(assertions, a, n - 1);
    }
}

/// A request is a test case under its name and iteration, with an error where it
/// was not answered, its failures, and an error where a script broke.
pub proof fn lemma_request_is_a_test_case(o: OutcomeV)
    ensures
        test_case(o) == "    <testcase name=\""@ + xml_attribute(
            "[iter "@ + decimal(o.iteration as nat) + "] "@ + o.name,
        ) + "\" classname=\""@ + xml_attribute(o.id) + "\">\n"@ + (match o.result {
            Err(e) => problem("error"@, e, e),
            Ok(_) => seq![],
        }) + super::report::failures(o.assertions, o.assertions.len() as int) + (match o.script_error {
            Some(e) => problem("error"@, "script error"@, e),
            None => seq![],
        }) + "    </testcase>\n"@,
{
}

/// Every request that was executed has its test case, in order.
pub proof fn lemma_every_request_is_reported(outcomes: Seq<OutcomeV>, o: OutcomeV)
    ensures
        test_cases(seq![], 0).len() == 0,
        test_cases(outcomes.push(o), outcomes.len() as int + 1) == test_cases(outcomes, outcomes.len() as int) + test_case(
            o,
        ),
{
    lemma_cases_prefix(outcomes, o, outcomes.len() as int);
}

proof fn lemma_cases_prefix(outcomes: Seq<OutcomeV>, o: OutcomeV, n: int)
    requires
        0 <= n <= outcomes.len(),
    ensures
        test_cases(outcomes.push(o), n) == test_cases(outcomes, n),
    decreases n,
{
    if n > 0 {
        lemma_cases_prefix(outcomes, o, n - 1);
    }
}

/// The report has one suite under its name, with the counts of the run, each
/// under its own name, and the test cases inside.
pub proof fn lemma_report_has_the_counts_of_the_run(suite: Seq<char>, outcomes: Seq<OutcomeV>, summary: RunSummary)
    ensures
        report(suite, outcomes, summary) == "<?xml version=\"1.0\" encoding=\"UTF-8\"?>\n  <testsuite name=\""@
            + xml_attribute(suite) + "\""@ + (" "@ + "tests"@ + "=\""@ + decimal(summary.total as nat) + "\""@) + (" "@
            + "failures"@ + "=\""@ + decimal(summary.failed as nat) + "\""@) + (" "@ + "skipped"@ + "=\""@ + decimal(
            summary.skipped as nat,
        ) + "\""@) + (" "@ + "duration_ms"@ + "=\""@ + decimal(summary.duration_ms as nat) + "\""@) + ">\n"@ + test_cases(
            outcomes,
            outcomes.len() as int,
        ) + "  </testsuite>\n"@,
{
}

} // verus!
