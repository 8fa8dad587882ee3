//! The run itself: which request comes next, what it comes back with, and what
//! the run has found out so far.

use vstd::prelude::*;

use crate::exec::text_pairs;
use crate::map::{put_all, TextMap};
use crate::text::cat2;
use crate::view::{copy_list, group_views, opt_view, views, Copied};

verus! {

broadcast use vstd::string::group_string_axioms;

// ---------------------------------------------------------------------
// Outcomes
// ---------------------------------------------------------------------

/// The outcome of one assertion or script test.
#[derive(Debug)]
pub struct AssertionOutcome {
    pub label: String,
    pub passed: bool,
    pub message: String,
}

/// What an [`AssertionOutcome`] says.
pub struct CheckedV {
    pub label: Seq<char>,
    pub passed: bool,
    pub message: Seq<char>,
}

impl View for AssertionOutcome {
    type V = CheckedV;

    open spec fn view(&self) -> CheckedV {
        CheckedV { label: self.label@, passed: self.passed, message: self.message@ }
    }
}

impl Copied for AssertionOutcome {
    fn copied(&self) -> (r: Self) {
        AssertionOutcome { label: self.label.clone(), passed: self.passed, message: self.message.clone() }
    }
}

impl AssertionOutcome {
    /// An assertion that holds.
    pub fn pass(label: &str) -> (r: AssertionOutcome)
        ensures
            r@ == (CheckedV { label: label@, passed: true, message: seq![] }),
    {
        let r = AssertionOutcome { label: label.to_owned(), passed: true, message: String::new() };
        assert(r@.message =~= seq![]);
        r
    }

    /// An assertion that does not hold.
    pub fn fail(label: &str, message: &str) -> (r: AssertionOutcome)
        ensures
            r@ == (CheckedV { label: label@, passed: false, message: message@ }),
    {
        AssertionOutcome { label: label.to_owned(), passed: false, message: message.to_owned() }
    }
}

/// A response as a run keeps it.
#[derive(Debug)]
pub struct ExecutionResult {
    pub status: u16,
    pub headers: Vec<(String, String)>,
    pub body: Vec<u8>,
    pub total_ms: u64,
}

/// What an [`ExecutionResult`] says.
pub struct ExecutionV {
    pub status: u16,
    pub headers: Seq<(Seq<char>, Seq<char>)>,
    pub body: Seq<u8>,
    pub total_ms: u64,
}

impl View for ExecutionResult {
    type V = ExecutionV;

    open spec fn view(&self) -> ExecutionV {
        ExecutionV {
            status: self.status,
            headers: text_pairs(self.headers@),
            body: self.body@,
            total_ms: self.total_ms,
        }
    }
}

/// What one request of a run came back with.
#[derive(Debug)]
pub struct RequestOutcome {
    pub id: String,
    pub name: String,
    pub iteration: usize,
    pub result: Result<ExecutionResult, String>,
    pub assertions: Vec<AssertionOutcome>,
    pub script_log: Vec<String>,
    pub script_error: Option<String>,
    pub extracted: Vec<(String, String)>,
}

/// What a [`RequestOutcome`] says.
pub struct OutcomeV {
    pub id: Seq<char>,
    pub name: Seq<char>,
    pub iteration: usize,
    pub result: Result<ExecutionV, Seq<char>>,
    pub assertions: Seq<CheckedV>,
    pub script_log: Seq<Seq<char>>,
    pub script_error: Option<Seq<char>>,
    pub extracted: Seq<(Seq<char>, Seq<char>)>,
}

impl View for RequestOutcome {
    type V = OutcomeV;

    open spec fn view(&self) -> OutcomeV {
        OutcomeV {
            id: self.id@,
            name: self.name@,
            iteration: self.iteration,
            result: match self.result {
                Ok(res) => Ok(res@),
                Err(e) => Err(e@),
            },
            assertions: views(self.assertions@),
            script_log: views(self.script_log@),
            script_error: opt_view(self.script_error),
            extracted: text_pairs(self.extracted@),
        }
    }
}

/// A request passed: it was answered, no assertion failed and no script broke.
pub open spec fn outcome_passed(o: OutcomeV) -> bool {
    &&& o.result is Ok
    &&& o.script_error is None
    &&& forall|i: int| 0 <= i < o.assertions.len() ==> (#[trigger] o.assertions[i]).passed
}

impl RequestOutcome {
    /// Whether the request passed.
    pub fn passed(&self) -> (r: bool)
        ensures
            r == outcome_passed(self@),
    {
        if self.result.is_err() || self.script_error.is_some() {
            return false;
        }
        let ghost all = self@.assertions;
        let mut i: usize = 0;
        while i < self.assertions.len()
            invariant
                i <= self.assertions.len(),
                all == views(self.assertions@),
                all == self@.assertions,
                forall|k: int| 0 <= k < i ==> (#[trigger] all[k]).passed,
            decreases self.assertions.len() - i,
        {
            if !self.assertions[i].passed {
                assert(!all[i as int].passed);
                return false;
            }
            i += 1;
        }
        true
    }
}

/// What a script did.
#[derive(Debug)]
pub struct ScriptOutput {
    pub log: Vec<String>,
    pub vars_set: Vec<(String, String)>,
    pub assertions: Vec<AssertionOutcome>,
    pub error: Option<String>,
}

/// What a [`ScriptOutput`] says.
pub struct ScriptOutputV {
    pub log: Seq<Seq<char>>,
    pub vars_set: Seq<(Seq<char>, Seq<char>)>,
    pub assertions: Seq<CheckedV>,
    pub error: Option<Seq<char>>,
}

impl View for ScriptOutput {
    type V = ScriptOutputV;

    open spec fn view(&self) -> ScriptOutputV {
        ScriptOutputV {
            log: views(self.log@),
            vars_set: text_pairs(self.vars_set@),
            assertions: views(self.assertions@),
            error: opt_view(self.error),
        }
    }
}

/// Which request of a run an outcome is of.
#[derive(Debug)]
pub struct Slot {
    pub id: String,
    pub name: String,
    pub iteration: usize,
}

/// What a [`Slot`] says.
pub struct SlotV {
    pub id: Seq<char>,
    pub name: Seq<char>,
    pub iteration: usize,
}

impl View for Slot {
    type V = SlotV;

    open spec fn view(&self) -> SlotV {
        SlotV { id: self.id@, name: self.name@, iteration: self.iteration }
    }
}

/// The outcome of a request that was not answered.
pub open spec fn failed_outcome(slot: SlotV, error: Seq<char>, log: Seq<Seq<char>>, script_error: Option<Seq<char>>) -> OutcomeV {
    OutcomeV {
        id: slot.id,
        name: slot.name,
        iteration: slot.iteration,
        result: Err(error),
        assertions: seq![],
        script_log: log,
        script_error,
        extracted: seq![],
    }
}

/// The outcome of a request that was not answered.
pub fn unanswered(slot: Slot, error: String, script_log: Vec<String>, script_error: Option<String>) -> (r: RequestOutcome)
    ensures
        r@ == failed_outcome(slot@, error@, views(script_log@), opt_view(script_error)),
{
    broadcast use group_views;

    let r = RequestOutcome {
        id: slot.id,
        name: slot.name,
        iteration: slot.iteration,
        result: Err(error),
        assertions: Vec::new(),
        script_log,
        script_error,
        extracted: Vec::new(),
    };
    assert(r@.extracted =~= seq![]);
    r
}

pub(crate) fn set_all(runtime: &mut TextMap<String>, pairs: &Vec<(String, String)>)
    ensures
        final(runtime)@ == put_all(old(runtime)@, text_pairs(pairs@)),
{
    let ghost start = runtime@;
    let ghost all = text_pairs(pairs@);
    let mut i: usize = 0;
    assert(all.take(0) =~= Seq::empty());
    while i < pairs.len()
        invariant
            i <= pairs.len(),
            all == text_pairs(pairs@),
            runtime@ == put_all(start, all.take(i as int)),
        decreases pairs.len() - i,
    {
        assert(all.take(i + 1).drop_last() =~= all.take(i as int));
        assert(all.take(i + 1).last() == all[i as int]);
        let _ = runtime.insert(pairs[i].0.clone(), pairs[i].1.clone());
        i += 1;
    }
    assert(all.take(i as int) =~= all);
}

pub(crate) fn extend_log(log: &mut Vec<String>, lines: &Vec<String>)
    ensures
        views(final(log)@) == views(old(log)@) + views(lines@),
{
    let ghost before = views(log@);
    let mut copy = copy_list(lines);
    let ghost added = views(copy@);
    log.append(&mut copy);
    assert(views(log@) =~= before + added);
}

/// The outcome that a request has before it is sent: where it cannot be made
/// ready, or its script broke.
pub open spec fn outcome_before_send(
    slot: SlotV,
    unresolved: Option<Seq<char>>,
    script: Option<ScriptOutputV>,
) -> Option<OutcomeV> {
    match (unresolved, script) {
        (Some(e), _) => Some(failed_outcome(slot, e, seq![], None)),
        (None, Some(out)) => match out.error {
            Some(e) => Some(failed_outcome(slot, "pre-request script failed"@, out.log, Some(e))),
            None => None,
        },
        (None, None) => None,
    }
}

/// Before the send: the variables that the script before the request set are
/// kept, and a request that cannot be made ready, or whose script broke, has
/// its outcome already. Otherwise its log so far comes back.
pub fn before_send(
    slot: Slot,
    unresolved: Option<String>,
    script: Option<&ScriptOutput>,
    runtime: &mut TextMap<String>,
) -> (r: Result<(Slot, Vec<String>), RequestOutcome>)
    ensures
        match unresolved {
            Some(e) => r matches Err(o) && o@ == failed_outcome(slot@, e@, seq![], None) && final(runtime)@
                == old(runtime)@,
            None => match script {
                None => r matches Ok((s, log)) && s == slot && views(log@) == Seq::<Seq<char>>::empty()
                    && final(runtime)@ == old(runtime)@,
                Some(out) => final(runtime)@ == put_all(old(runtime)@, out@.vars_set) && match out@.error {
                    None => r matches Ok((s, log)) && s == slot && views(log@) == out@.log,
                    Some(e) => r matches Err(o) && o@ == failed_outcome(
                        slot@,
                        "pre-request script failed"@,
                        out@.log,
                        Some(e),
                    ),
                },
            },
        },
        (match r {
            Err(o) => Some(o@),
            Ok(_) => None,
        }) == outcome_before_send(
            slot@,
            opt_view(unresolved),
            match script {
                Some(out) => Some(out@),
                None => None,
            },
        ),
{
    broadcast use group_views;

    if let Some(e) = unresolved {
        return Err(unanswered(slot, e, Vec::new(), None));
    }
    let out = match script {
        None => {
            return Ok((slot, Vec::new()));
        },
        Some(out) => out,
    };
    let log = copy_list(&out.log);
    set_all(runtime, &out.vars_set);
    match &out.error {
        None => Ok((slot, log)),
        Some(e) => Err(unanswered(slot, "pre-request script failed".to_owned(), log, Some(e.clone()))),
    }
}

/// What extractors found, and what went wrong with them.
#[derive(Debug)]
pub struct ExtractReport {
    pub values: Vec<(String, String)>,
    pub errors: Vec<String>,
}

/// The log lines for what went wrong with extractors.
pub open spec fn extract_lines(errors: Seq<Seq<char>>) -> Seq<Seq<char>> {
    Seq::new(errors.len(), |i: int| "extract: "@ + errors[i])
}

/// After the response: keep the extracted values for the requests to come, and
/// log what could not be extracted.
pub fn note_extraction(report: &ExtractReport, runtime: &mut TextMap<String>, log: &mut Vec<String>)
    ensures
        final(runtime)@ == put_all(old(runtime)@, text_pairs(report.values@)),
        views(final(log)@) == views(old(log)@) + extract_lines(views(report.errors@)),
{
    set_all(runtime, &report.values);
    let mut lines: Vec<String> = Vec::new();
    let mut i: usize = 0;
    while i < report.errors.len()
        invariant
            i <= report.errors.len(),
            lines.len() == i,
            forall|k: int| 0 <= k < i ==> (#[trigger] lines@[k])@ == "extract: "@ + report.errors@[k]@,
        decreases report.errors.len() - i,
    {
        lines.push(cat2("extract: ", report.errors[i].as_str()));
        i += 1;
    }
    assert(views(lines@) =~= extract_lines(views(report.errors@)));
    extend_log(log, &lines);
}

/// The outcome of an answered request: its assertions and those of the script
/// after it, the log, and what was extracted.
pub open spec fn answered_outcome(
    slot: SlotV,
    response: ExecutionV,
    assertions: Seq<CheckedV>,
    log: Seq<Seq<char>>,
    extracted: Seq<(Seq<char>, Seq<char>)>,
    script: Option<ScriptOutputV>,
) -> OutcomeV {
    OutcomeV {
        id: slot.id,
        name: slot.name,
        iteration: slot.iteration,
        result: Ok(response),
        assertions: match script {
            Some(out) => assertions + out.assertions,
            None => assertions,
        },
        script_log: match script {
            Some(out) => log + out.log,
            None => log,
        },
        script_error: match script {
            Some(out) => out.error,
            None => None,
        },
        extracted,
    }
}

/// After the response and the script that follows it.
pub fn after_send(
    slot: Slot,
    response: ExecutionResult,
    assertions: Vec<AssertionOutcome>,
    log: Vec<String>,
    extracted: Vec<(String, String)>,
    script: Option<&ScriptOutput>,
    runtime: &mut TextMap<String>,
) -> (r: RequestOutcome)
    ensures
        r@ == answered_outcome(
            slot@,
            response@,
            views(assertions@),
            views(log@),
            text_pairs(extracted@),
            match script {
                Some(out) => Some(out@),
                None => None,
            },
        ),
        r.result == Ok::<ExecutionResult, String>(response),
        final(runtime)@ == match script {
            Some(out) => put_all(old(runtime)@, out@.vars_set),
            None => old(runtime)@,
        },
{
    let mut assertions = assertions;
    let mut log = log;
    let mut script_error: Option<String> = None;
    if let Some(out) = script {
        let ghost before = views(assertions@);
        extend_log(&mut log, &out.log);
        let mut more = copy_list(&out.assertions);
        let ghost added = views(more@);
        assertions.append(&mut more);
        assert(views(assertions@) =~= before + added);
        set_all(runtime, &out.vars_set);
        script_error = crate::view::copy_opt(&out.error);
    }
    RequestOutcome {
        id: slot.id,
        name: slot.name,
        iteration: slot.iteration,
        result: Ok(response),
        assertions,
        script_log: log,
        script_error,
        extracted,
    }
}

// ---------------------------------------------------------------------
// The order of the run
// ---------------------------------------------------------------------

/// How a run ended.
#[derive(Debug, Clone, Copy, PartialEq, Eq, Structural)]
pub struct RunSummary {
    pub total: usize,
    pub passed: usize,
    pub failed: usize,
    pub skipped: usize,
    pub duration_ms: u64,
}

/// What happens in a run.
#[derive(Debug)]
pub enum RunEvent {
    RunStarted { total: usize, iterations: usize },
    IterationStarted { iteration: usize },
    RequestStarted { id: String, name: String, iteration: usize },
    RequestFinished(Box<RequestOutcome>),
    RunFinished(RunSummary),
}

/// What a run does next.
#[derive(Debug, Clone, Copy, PartialEq, Eq, Structural)]
pub enum NextStep {
    /// Execute a request. The iteration is announced where this is its first.
    Execute { iteration: usize, index: usize, announce: bool },
    /// Nothing is left.
    Finished,
}

/// A run under way: which requests it passes over, where it stands, and what
/// it has counted.
#[derive(Debug)]
pub struct RunMachine {
    /// For each planned request, whether runs pass over it.
    pub skips: Vec<bool>,
    pub iterations: usize,
    pub bail: bool,
    pub iteration: usize,
    pub index: usize,
    pub announced: Option<usize>,
    pub running: bool,
    pub stopped: bool,
    pub total: usize,
    pub passed: usize,
    pub failed: usize,
    pub skipped: usize,
    /// What the requests of this iteration have found out.
    pub runtime: TextMap<String>,
}

/// The next place, from one on, whose request is not passed over, and how many
/// places lie before it.
pub open spec fn next_open(skips: Seq<bool>, iterations: int, iteration: int, index: int) -> (int, int, nat)
    decreases iterations - iteration, skips.len() - index,
{
    if iteration >= iterations {
        (iteration, 0, 0)
    } else if index >= skips.len() {
        next_open(skips, iterations, iteration + 1, 0)
    } else if skips[index] {
        let (i, k, over) = next_open(skips, iterations, iteration, index + 1);
        (i, k, over + 1)
    } else {
        (iteration, index, 0)
    }
}

impl RunMachine {
    /// How many places are left.
    pub open spec fn left(&self) -> int {
        (self.iterations - self.iteration) * self.skips@.len() - self.index
    }

    /// Every place is counted once, as passed, failed, skipped or left.
    pub open spec fn wf(&self) -> bool {
        &&& self.total == self.iterations * self.skips@.len()
        &&& self.iteration <= self.iterations
        &&& self.index <= self.skips@.len()
        &&& self.iteration == self.iterations ==> self.index == 0
        &&& self.passed + self.failed + self.skipped + self.left() == self.total
        &&& self.running ==> self.iteration < self.iterations && self.index < self.skips@.len()
    }

    /// A run at its start. All its places can be counted.
    pub fn new(skips: Vec<bool>, iterations: usize, bail: bool) -> (r: RunMachine)
        requires
            iterations * skips@.len() <= usize::MAX,
        ensures
            r.wf(),
            r.skips == skips,
            r.iterations == iterations,
            r.bail == bail,
            r.iteration == 0,
            r.index == 0,
            r.announced is None,
            !r.running,
            !r.stopped,
            r.passed == 0,
            r.failed == 0,
            r.skipped == 0,
            r.runtime@.len() == 0,
    {
        let total: usize = iterations * skips.len();
        RunMachine {
            skips,
            iterations,
            bail,
            iteration: 0,
            index: 0,
            announced: None,
            running: false,
            stopped: false,
            total,
            passed: 0,
            failed: 0,
            skipped: 0,
            runtime: TextMap::new(),
        }
    }

    /// How a run goes on, and to what: to the next request that is not passed
    /// over, or to its end.
    pub open spec fn stepped(&self, cancelled: bool, now: RunMachine, r: NextStep) -> bool {
        &&& now.wf()
        &&& now.skips == self.skips
        &&& now.iterations == self.iterations
        &&& now.bail == self.bail
        &&& now.total == self.total
        &&& now.passed == self.passed
        &&& now.failed == self.failed
        &&& now.stopped == (self.stopped || cancelled)
        &&& r is Finished ==> !now.running && now.passed + now.failed + now.skipped == now.total
        &&& self.stopped || cancelled ==> r is Finished && now.runtime@ == self.runtime@
        &&& !(self.stopped || cancelled) ==> {
            let (iteration, index, over) = next_open(
                self.skips@,
                self.iterations as int,
                self.iteration as int,
                self.index as int,
            );
            &&& now.skipped == self.skipped + over
            &&& now.iteration == iteration
            &&& now.index == index
            &&& if iteration < self.iterations {
                let announce = self.announced != Some(iteration as usize);
                &&& r == NextStep::Execute { iteration: iteration as usize, index: index as usize, announce }
                &&& now.running
                &&& now.announced == Some(iteration as usize)
                &&& now.runtime@ == if announce {
                    Seq::empty()
                } else {
                    self.runtime@
                }
            } else {
                r is Finished && now.runtime@ == self.runtime@
            }
        }
    }

    /// Go on to the next request that is not passed over. Once the run is
    /// stopped or cancelled, everything that is left is skipped. What one
    /// iteration has found out is not seen by the next.
    pub fn next(&mut self, cancelled: bool) -> (r: NextStep)
        requires
            old(self).wf(),
            !old(self).running,
        ensures
            old(self).stepped(cancelled, *final(self), r),
    {
        if cancelled {
            self.stopped = true;
        }
        if self.stopped {
            proof {
                lemma_left_bounds(*self);
                lemma_no_place_left(self.skips@.len() as int);
            }
            self.skipped = self.total - self.passed - self.failed;
            self.iteration = self.iterations;
            self.index = 0;
            return NextStep::Finished;
        }
        let ghost start = *self;
        let ghost n = self.skips@.len() as int;
        let mut over: usize = 0;
        proof {
            lemma_left_bounds(*self);
        }
        while self.iteration < self.iterations && (self.index >= self.skips.len() || self.skips[self.index])
            invariant
                start.wf(),
                !start.running,
                n == self.skips@.len(),
                start.skips == self.skips,
                start.iterations == self.iterations,
                start.bail == self.bail,
                start.total == self.total,
                start.passed == self.passed,
                start.failed == self.failed,
                start.skipped == self.skipped,
                start.stopped == self.stopped,
                start.announced == self.announced,
                start.running == self.running,
                start.runtime == self.runtime,
                self.iteration <= self.iterations,
                self.index <= self.skips@.len(),
                self.iteration == self.iterations ==> self.index == 0,
                self.left() + over == start.left(),
                0 <= self.left(),
                ({
                    let a = next_open(
                        start.skips@,
                        start.iterations as int,
                        start.iteration as int,
                        start.index as int,
                    );
                    let b = next_open(
                        self.skips@,
                        self.iterations as int,
                        self.iteration as int,
                        self.index as int,
                    );
                    a.0 == b.0 && a.1 == b.1 && a.2 == b.2 + over
                }),
            decreases self.iterations - self.iteration, self.skips@.len() - self.index,
        {
            proof {
                lemma_left_bounds(*self);
            }
            if self.index >= self.skips.len() {
                proof {
                    let d = self.iterations - self.iteration;
                    assert((d - 1) * n == d * n - n) by (nonlinear_arith);
                    assert((d - 1) * n >= 0) by (nonlinear_arith)
                        requires
                            d >= 1,
                            n >= 0,
                    ;
                }
                self.iteration = self.iteration + 1;
                self.index = 0;
            } else {
                self.index = self.index + 1;
                over = over + 1;
            }
        }
        self.skipped = self.skipped + over;
        if self.iteration >= self.iterations {
            proof {
                lemma_no_place_left(n);
            }
            return NextStep::Finished;
        }
        let announce = match self.announced {
            Some(i) => i != self.iteration,
            None => true,
        };
        if announce {
            self.runtime = TextMap::new();
        }
        self.announced = Some(self.iteration);
        self.running = true;
        NextStep::Execute { iteration: self.iteration, index: self.index, announce }
    }

    /// How a run goes on once a request was executed.
    pub open spec fn recorded(&self, ok: bool, now: RunMachine) -> bool {
        &&& now.wf()
        &&& !now.running
        &&& now.skips == self.skips
        &&& now.iterations == self.iterations
        &&& now.bail == self.bail
        &&& now.total == self.total
        &&& now.iteration == self.iteration
        &&& now.index == self.index + 1
        &&& now.announced == self.announced
        &&& now.runtime == self.runtime
        &&& now.skipped == self.skipped
        &&& now.passed == self.passed + if ok {
            1int
        } else {
            0
        }
        &&& now.failed == self.failed + if ok {
            0int
        } else {
            1
        }
        &&& now.stopped == (self.stopped || (!ok && self.bail))
    }

    /// Count the request that was executed. Where the run bails out, the first
    /// failure stops it.
    pub fn record(&mut self, ok: bool)
        requires
            old(self).wf(),
            old(self).running,
        ensures
            old(self).recorded(ok, *final(self)),
    {
        proof {
            lemma_left_bounds(*self);
            let d = self.iterations - self.iteration;
            let n = self.skips@.len() as int;
            assert(d * n >= n) by (nonlinear_arith)
                requires
                    d >= 1,
                    n >= 0,
            ;
        }
        if ok {
            self.passed = self.passed + 1;
        } else {
            self.failed = self.failed + 1;
            if self.bail {
                self.stopped = true;
            }
        }
        let places: usize = self.skips.len();
        assert(self.index < places);
        self.index = self.index + 1;
        self.running = false;
    }

    /// What the run has counted.
    pub fn summary(&self, duration_ms: u64) -> (r: RunSummary)
        ensures
            r == (RunSummary {
                total: self.total,
                passed: self.passed,
                failed: self.failed,
                skipped: self.skipped,
                duration_ms,
            }),
    {
        RunSummary {
            total: self.total,
            passed: self.passed,
            failed: self.failed,
            skipped: self.skipped,
            duration_ms,
        }
    }
}

proof fn lemma_no_place_left(n: int)
    ensures
        0 * n == 0,
{
}

proof fn lemma_left_bounds(m: RunMachine)
    requires
        m.iteration <= m.iterations,
        m.index <= m.skips@.len(),
        m.iteration == m.iterations ==> m.index == 0,
    ensures
        0 <= m.left(),
        m.iteration < m.iterations && m.index < m.skips@.len() ==> 1 <= m.left(),
{
    let d = m.iterations - m.iteration;
    let n = m.skips@.len() as int;
    if d >= 1 {
        assert(d * n >= n) by (nonlinear_arith)
            requires
                d >= 1,
                n >= 0,
        ;
    } else {
        lemma_no_place_left(n);
    }
}

} // verus!
