//! Suite hooks: scripts of collections and folders that run around the
//! requests in them.

use vstd::prelude::*;

use crate::map::{put_all, TextMap};
use crate::runner::run::{extend_log, set_all, OutcomeV, RequestOutcome, ScriptOutput, ScriptOutputV};
use crate::text::{cat2, cat3, same};
use crate::view::{copy_list, group_views, opt_view, views};

verus! {

broadcast use vstd::string::group_string_axioms;

/// When a hook runs.
#[derive(Debug, Clone, Copy, PartialEq, Eq, Structural)]
pub enum HookKind {
    BeforeAll,
    BeforeEach,
    AfterEach,
    AfterAll,
}

impl HookKind {
    /// The name of the hook.
    pub open spec fn name(self) -> Seq<char> {
        match self {
            HookKind::BeforeAll => "beforeAll"@,
            HookKind::BeforeEach => "beforeEach"@,
            HookKind::AfterEach => "afterEach"@,
            HookKind::AfterAll => "afterAll"@,
        }
    }

    /// The name of the hook.
    pub fn as_str(&self) -> (r: &'static str)
        ensures
            r@ == self.name(),
    {
        match self {
            HookKind::BeforeAll => "beforeAll",
            HookKind::BeforeEach => "beforeEach",
            HookKind::AfterEach => "afterEach",
            HookKind::AfterAll => "afterAll",
        }
    }
}

// ---------------------------------------------------------------------
// Order
// ---------------------------------------------------------------------

/// The scopes of a request from the innermost outwards.
pub open spec fn inside_out(scopes: Seq<Seq<char>>) -> Seq<Seq<char>> {
    Seq::new(scopes.len(), |i: int| scopes[scopes.len() - 1 - i])
}

/// The scopes that `beforeAll` is due for: those that have not been entered,
/// the outermost first.
pub open spec fn entering(scopes: Seq<Seq<char>>, entered: Seq<Seq<char>>) -> Seq<Seq<char>>
    decreases scopes.len(),
{
    if scopes.len() == 0 {
        seq![]
    } else {
        let before = entering(scopes.drop_last(), entered);
        if entered.contains(scopes.last()) {
            before
        } else {
            before.push(scopes.last())
        }
    }
}

/// A request after the `index`-th that is not passed over lies in `scope`.
pub open spec fn comes_again(chains: Seq<Seq<Seq<char>>>, skips: Seq<bool>, index: int, scope: Seq<char>) -> bool {
    exists|j: int|
        index < j < chains.len() && j < skips.len() && !skips[j] && (#[trigger] chains[j]).contains(scope)
}

/// The scopes that `afterAll` is due for after the `index`-th request: those
/// that no later request lies in, the innermost first.
pub open spec fn leaving(
    scopes: Seq<Seq<char>>,
    chains: Seq<Seq<Seq<char>>>,
    skips: Seq<bool>,
    index: int,
) -> Seq<Seq<char>>
    decreases scopes.len(),
{
    if scopes.len() == 0 {
        seq![]
    } else {
        let outer = leaving(scopes.drop_last(), chains, skips, index);
        if comes_again(chains, skips, index, scopes.last()) {
            outer
        } else {
            seq![scopes.last()] + outer
        }
    }
}

/// Lists of texts, by the views of their texts.
pub open spec fn chain_views(chains: Seq<Vec<String>>) -> Seq<Seq<Seq<char>>> {
    Seq::new(chains.len(), |i: int| views(chains[i]@))
}

/// The scopes of a request from the innermost outwards: the order of
/// `afterEach`.
pub fn reversed(scopes: &Vec<String>) -> (r: Vec<String>)
    ensures
        views(r@) == inside_out(views(scopes@)),
{
    let mut out: Vec<String> = Vec::new();
    let mut i: usize = scopes.len();
    while i > 0
        invariant
            i <= scopes.len(),
            out.len() == scopes.len() - i,
            forall|k: int| 0 <= k < out.len() ==> (#[trigger] out@[k])@ == scopes@[scopes@.len() - 1 - k]@,
        decreases i,
    {
        i -= 1;
        out.push(scopes[i].clone());
    }
    assert(views(out@) =~= inside_out(views(scopes@)));
    out
}

fn among(list: &Vec<String>, name: &str) -> (r: bool)
    ensures
        r == views(list@).contains(name@),
{
    let ghost all = views(list@);
    let mut i: usize = 0;
    while i < list.len()
        invariant
            i <= list.len(),
            all == views(list@),
            forall|k: int| 0 <= k < i ==> all[k] != name@,
        decreases list.len() - i,
    {
        if same(list[i].as_str(), name) {
            assert(all[i as int] == name@);
            return true;
        }
        i += 1;
    }
    false
}

/// The scopes that `beforeAll` is due for.
pub fn scopes_to_enter(scopes: &Vec<String>, entered: &Vec<String>) -> (r: Vec<String>)
    ensures
        views(r@) == entering(views(scopes@), views(entered@)),
{
    broadcast use group_views;

    let ghost all = views(scopes@);
    let mut out: Vec<String> = Vec::new();
    let mut i: usize = 0;
    assert(all.take(0) =~= Seq::empty());
    while i < scopes.len()
        invariant
            i <= scopes.len(),
            all == views(scopes@),
            views(out@) == entering(all.take(i as int), views(entered@)),
        decreases scopes.len() - i,
    {
        assert(all.take(i + 1).drop_last() =~= all.take(i as int));
        assert(all.take(i + 1).last() == scopes@[i as int]@);
        if !among(entered, scopes[i].as_str()) {
            out.push(scopes[i].clone());
        }
        i += 1;
    }
    assert(all.take(i as int) =~= all);
    out
}

fn again(chains: &Vec<Vec<String>>, skips: &Vec<bool>, index: usize, scope: &str) -> (r: bool)
    ensures
        r == comes_again(chain_views(chains@), skips@, index as int, scope@),
{
    let ghost all = chain_views(chains@);
    let mut j: usize = index;
    while j < chains.len() && j < skips.len()
        invariant
            index <= j,
            all == chain_views(chains@),
            forall|k: int|
                index < k < j && k < all.len() && k < skips@.len() && !skips@[k] ==> !(#[trigger] all[k]).contains(scope@),
        decreases chains.len() - j,
    {
        if j > index && !skips[j] && among(&chains[j], scope) {
            assert(all[j as int].contains(scope@));
            return true;
        }
        j += 1;
    }
    false
}

/// The scopes that `afterAll` is due for after the `index`-th request.
pub fn scopes_to_leave(scopes: &Vec<String>, chains: &Vec<Vec<String>>, skips: &Vec<bool>, index: usize) -> (r: Vec<String>)
    ensures
        views(r@) == leaving(views(scopes@), chain_views(chains@), skips@, index as int),
{
    let ghost all = views(scopes@);
    let mut out: Vec<String> = Vec::new();
    let mut i: usize = 0;
    assert(all.take(0) =~= Seq::empty());
    assert(views(out@) =~= Seq::empty());
    while i < scopes.len()
        invariant
            i <= scopes.len(),
            all == views(scopes@),
            views(out@) == leaving(all.take(i as int), chain_views(chains@), skips@, index as int),
        decreases scopes.len() - i,
    {
        assert(all.take(i + 1).drop_last() =~= all.take(i as int));
        assert(all.take(i + 1).last() == scopes@[i as int]@);
        if !again(chains, skips, index, scopes[i].as_str()) {
            let ghost before = views(out@);
            out.insert(0, scopes[i].clone());
            assert(views(out@) =~= seq![all[i as int]] + before);
        }
        i += 1;
    }
    assert(all.take(i as int) =~= all);
    out
}

// ---------------------------------------------------------------------
// What hooks do to a request
// ---------------------------------------------------------------------

/// The log lines of a hook.
pub open spec fn hook_lines(log: Seq<Seq<char>>) -> Seq<Seq<char>> {
    Seq::new(log.len(), |i: int| "hook: "@ + log[i])
}

fn lines_of(log: &Vec<String>) -> (r: Vec<String>)
    ensures
        views(r@) == hook_lines(views(log@)),
{
    let mut out: Vec<String> = Vec::new();
    let mut i: usize = 0;
    while i < log.len()
        invariant
            i <= log.len(),
            out.len() == i,
            forall|k: int| 0 <= k < i ==> (#[trigger] out@[k])@ == "hook: "@ + log@[k]@,
        decreases log.len() - i,
    {
        out.push(cat2("hook: ", log[i].as_str()));
        i += 1;
    }
    assert(views(out@) =~= hook_lines(views(log@)));
    out
}

/// A hook before a request ran: its variables and its log are kept, its
/// assertions are dropped, and its error, if any, is the error of the request.
pub fn note_before_hook(kind: HookKind, out: &ScriptOutput, log: &mut Vec<String>, runtime: &mut TextMap<String>) -> (error: Option<
    String,
>)
    ensures
        views(final(log)@) == views(old(log)@) + hook_lines(out@.log),
        final(runtime)@ == put_all(old(runtime)@, out@.vars_set),
        opt_view(error) == match out@.error {
            Some(e) => Some(kind.name() + " hook failed: "@ + e),
            None => None,
        },
{
    extend_log(log, &lines_of(&out.log));
    set_all(runtime, &out.vars_set);
    match &out.error {
        Some(e) => Some(cat3(kind.as_str(), " hook failed: ", e.as_str())),
        None => None,
    }
}

/// An outcome after a hook: the assertions of the hook count, its log and its
/// error go into the log of the request.
pub open spec fn hooked_outcome(o: OutcomeV, kind: HookKind, out: ScriptOutputV) -> OutcomeV {
    OutcomeV {
        assertions: o.assertions + out.assertions,
        script_log: o.script_log + hook_lines(out.log) + match out.error {
            Some(e) => seq![kind.name() + ": "@ + e],
            None => seq![],
        },
        ..o
    }
}

/// A hook after a request ran.
pub fn note_after_hook(kind: HookKind, out: &ScriptOutput, outcome: RequestOutcome, runtime: &mut TextMap<String>) -> (r: RequestOutcome)
    ensures
        r@ == hooked_outcome(outcome@, kind, out@),
        r.result == outcome.result,
        final(runtime)@ == put_all(old(runtime)@, out@.vars_set),
{
    broadcast use group_views;

    let mut r = outcome;
    let ghost start = r@;
    extend_log(&mut r.script_log, &lines_of(&out.log));
    let ghost logged = start.script_log + hook_lines(out@.log);
    if let Some(e) = &out.error {
        let line = cat3(kind.as_str(), ": ", e.as_str());
        let ghost view = line@;
        r.script_log.push(line);
        assert(r@.script_log =~= logged + seq![view]);
    } else {
        assert(r@.script_log =~= logged + Seq::<Seq<char>>::empty());
    }
    let mut more = copy_list(&out.assertions);
    let ghost added = views(more@);
    r.assertions.append(&mut more);
    assert(r@.assertions =~= start.assertions + added);
    set_all(runtime, &out.vars_set);
    r
}

// ---------------------------------------------------------------------
// Laws
// ---------------------------------------------------------------------

/// An error of a hook that ran after a request does not turn a passed request
/// into a failed one.
pub proof fn lemma_after_hook_error_is_no_failure(o: OutcomeV, kind: HookKind, out: ScriptOutputV)
    requires
        crate::runner::run::outcome_passed(o),
        forall|i: int| 0 <= i < out.assertions.len() ==> (#[trigger] out.assertions[i]).passed,
    ensures
        crate::runner::run::outcome_passed(hooked_outcome(o, kind, out)),
{
    let h = hooked_outcome(o, kind, out);
    assert forall|i: int| 0 <= i < h.assertions.len() implies (#[trigger] h.assertions[i]).passed by {
        if i < o.assertions.len() {
            assert(h.assertions[i] == o.assertions[i]);
        } else {
            assert(h.assertions[i] == out.assertions[i - o.assertions.len()]);
        }
    }
}

/// A failed assertion of a hook that ran after a request fails the request.
pub proof fn lemma_after_hook_assertions_count(o: OutcomeV, kind: HookKind, out: ScriptOutputV, i: int)
    requires
        0 <= i < out.assertions.len(),
        !out.assertions[i].passed,
    ensures
        !crate::runner::run::outcome_passed(hooked_outcome(o, kind, out)),
{
    let h = hooked_outcome(o, kind, out);
    assert(h.assertions[o.assertions.len() + i] == out.assertions[i]);
}

/// Once its scopes have been entered, a request enters none of them again.
pub proof fn lemma_scopes_are_entered_once(scopes: Seq<Seq<char>>, entered: Seq<Seq<char>>)
    requires
        forall|i: int| 0 <= i < scopes.len() ==> entered.contains(#[trigger] scopes[i]),
    ensures
        entering(scopes, entered).len() == 0,
    decreases scopes.len(),
{
    if scopes.len() > 0 {
        assert(entered.contains(scopes[scopes.len() - 1]));
        assert forall|i: int| 0 <= i < scopes.drop_last().len() implies entered.contains(
            #[trigger] scopes.drop_last()[i],
        ) by {
            assert(entered.contains(scopes[i]));
        }
        lemma_scopes_are_entered_once(scopes.drop_last(), entered);
    }
}

/// After the last request of a run every scope is left.
pub proof fn lemma_last_request_leaves_all(
    scopes: Seq<Seq<char>>,
    chains: Seq<Seq<Seq<char>>>,
    skips: Seq<bool>,
    index: int,
)
    requires
        index >= chains.len() - 1,
    ensures
        leaving(scopes, chains, skips, index) == inside_out(scopes),
    decreases scopes.len(),
{
    if scopes.len() > 0 {
        lemma_last_request_leaves_all(scopes.drop_last(), chains, skips, index);
        assert(!comes_again(chains, skips, index, scopes.last()));
        assert(leaving(scopes, chains, skips, index) =~= inside_out(scopes));
    } else {
        assert(leaving(scopes, chains, skips, index) =~= inside_out(scopes));
    }
}

} // verus!
