//! The events of a run: what is told when it starts, around every request, and
//! when it ends.

use vstd::prelude::*;

use crate::runner::run::{
    next_open, outcome_passed, NextStep, RequestOutcome, RunEvent, RunMachine, RunSummary,
};
use crate::view::views;

verus! {

broadcast use vstd::string::group_string_axioms;

/// The id and the name of a planned request.
#[derive(Debug)]
pub struct Label {
    pub id: String,
    pub name: String,
}

/// What a [`Label`] says.
pub struct LabelV {
    pub id: Seq<char>,
    pub name: Seq<char>,
}

impl View for Label {
    type V = LabelV;

    open spec fn view(&self) -> LabelV {
        LabelV { id: self.id@, name: self.name@ }
    }
}

/// An event by the place in the run that it is about.
pub enum TellV {
    RunStarted { total: int, iterations: int },
    IterationStarted { iteration: int },
    RequestStarted { iteration: int, index: int },
    RequestFinished { iteration: int, index: int, ok: bool },
    RunFinished(RunSummary),
}

/// An event tells what happened at a place.
pub open spec fn tells(e: RunEvent, t: TellV, labels: Seq<LabelV>) -> bool {
    match t {
        TellV::RunStarted { total, iterations } => e matches RunEvent::RunStarted { total: n, iterations: m } && n
            == total && m == iterations,
        TellV::IterationStarted { iteration } => e matches RunEvent::IterationStarted { iteration: i } && i == iteration,
        TellV::RequestStarted { iteration, index } => e matches RunEvent::RequestStarted {
            id,
            name,
            iteration: i,
        } && i == iteration && id@ == labels[index].id && name@ == labels[index].name,
        TellV::RequestFinished { ok, .. } => e matches RunEvent::RequestFinished(o) && outcome_passed(o@) == ok,
        TellV::RunFinished(summary) => e matches RunEvent::RunFinished(s) && s == summary,
    }
}

/// Events tell what happened, one after the other.
pub open spec fn tell_all(events: Seq<RunEvent>, told: Seq<TellV>, labels: Seq<LabelV>) -> bool {
    events.len() == told.len() && forall|i: int|
        0 <= i < events.len() ==> tells(#[trigger] events[i], told[i], labels)
}

/// What is told before a step is taken: that an iteration starts, where the
/// step is its first, and that the request starts; or that the run has ended.
pub open spec fn step_tells(step: NextStep, summary: RunSummary) -> Seq<TellV> {
    match step {
        NextStep::Execute { iteration, index, announce } => (if announce {
            seq![TellV::IterationStarted { iteration: iteration as int }]
        } else {
            seq![]
        }).push(TellV::RequestStarted { iteration: iteration as int, index: index as int }),
        NextStep::Finished => seq![TellV::RunFinished(summary)],
    }
}

/// How many requests have finished.
pub open spec fn finished_in(told: Seq<TellV>) -> nat
    decreases told.len(),
{
    if told.len() == 0 {
        0
    } else {
        finished_in(told.drop_last()) + if told.last() is RequestFinished {
            1nat
        } else {
            0
        }
    }
}

/// How many requests have started.
pub open spec fn started_in(told: Seq<TellV>) -> nat
    decreases told.len(),
{
    if told.len() == 0 {
        0
    } else {
        started_in(told.drop_last()) + if told.last() is RequestStarted {
            1nat
        } else {
            0
        }
    }
}

/// The counts of a run.
pub open spec fn counts(m: RunMachine, duration_ms: u64) -> RunSummary {
    RunSummary { total: m.total, passed: m.passed, failed: m.failed, skipped: m.skipped, duration_ms }
}

/// A run under way, and what has been told of it.
pub struct RunSession {
    pub machine: RunMachine,
    /// The planned requests.
    pub labels: Vec<Label>,
    /// Whether the end of the run has been told.
    pub ended: bool,
    pub told: Ghost<Seq<TellV>>,
}

impl RunSession {
    /// What has been told fits what has happened.
    pub open spec fn wf(&self) -> bool {
        let told = self.told@;
        &&& self.machine.wf()
        &&& self.labels@.len() == self.machine.skips@.len()
        &&& told.len() > 0
        &&& told[0] == TellV::RunStarted { total: self.machine.total as int, iterations: self.machine.iterations as int }
        &&& finished_in(told) == self.machine.passed + self.machine.failed
        &&& started_in(told) == finished_in(told) + if self.machine.running {
            1nat
        } else {
            0
        }
        &&& forall|i: int|
            0 <= i < told.len() ==> {
                &&& (#[trigger] told[i]) is RunStarted ==> i == 0
                &&& told[i] is RunFinished ==> self.ended && i == told.len() - 1
                &&& told[i] matches TellV::RequestStarted { index, .. } ==> 0 <= index < self.machine.skips@.len()
                    && !self.machine.skips@[index]
                &&& told[i] matches TellV::RequestFinished { index, .. } ==> 0 <= index < self.machine.skips@.len()
                    && !self.machine.skips@[index]
            }
        &&& self.machine.running ==> !self.ended && self.machine.index < self.machine.skips@.len()
            && !self.machine.skips@[self.machine.index as int]
        &&& self.ended ==> {
            &&& self.machine.passed + self.machine.failed + self.machine.skipped == self.machine.total
            &&& told.last() matches TellV::RunFinished(s) && s == counts(self.machine, s.duration_ms)
        }
    }

    /// Start a run: that is told first.
    pub fn start(machine: RunMachine, labels: Vec<Label>) -> (r: (RunSession, RunEvent))
        requires
            machine.wf(),
            !machine.running,
            machine.passed == 0,
            machine.failed == 0,
            labels@.len() == machine.skips@.len(),
        ensures
            r.0.wf(),
            r.0.machine == machine,
            r.0.labels == labels,
            !r.0.ended,
            r.0.told@ == seq![
                TellV::RunStarted { total: machine.total as int, iterations: machine.iterations as int },
            ],
            tells(r.1, r.0.told@[0], views(labels@)),
    {
        let event = RunEvent::RunStarted { total: machine.total, iterations: machine.iterations };
        let ghost first = seq![
            TellV::RunStarted { total: machine.total as int, iterations: machine.iterations as int },
        ];
        let session = RunSession { machine, labels, ended: false, told: Ghost(first) };
        proof {
            assert(first.drop_last() =~= Seq::<TellV>::empty());
            assert(finished_in(first.drop_last()) == 0);
            assert(started_in(first.drop_last()) == 0);
        }
        (session, event)
    }

    /// Go on to the next request, or to the end, and tell it.
    pub fn next(&mut self, cancelled: bool, duration_ms: u64) -> (r: (NextStep, Vec<RunEvent>))
        requires
            old(self).wf(),
            !old(self).machine.running,
            !old(self).ended,
        ensures
            final(self).wf(),
            final(self).labels == old(self).labels,
            old(self).machine.stepped(cancelled, final(self).machine, r.0),
            final(self).ended == (r.0 is Finished),
            final(self).told@ == old(self).told@ + step_tells(r.0, counts(final(self).machine, duration_ms)),
            tell_all(
                r.1@,
                step_tells(r.0, counts(final(self).machine, duration_ms)),
                views(final(self).labels@),
            ),
    {
        let ghost before = *self;
        let step = self.machine.next(cancelled);
        let mut events: Vec<RunEvent> = Vec::new();
        let ghost more = step_tells(step, counts(self.machine, duration_ms));
        proof {
            lemma_open_place(
                before.machine.skips@,
                before.machine.iterations as int,
                before.machine.iteration as int,
                before.machine.index as int,
            );
        }
        match step {
            NextStep::Execute { iteration, index, announce } => {
                if announce {
                    events.push(RunEvent::IterationStarted { iteration });
                }
                let label = &self.labels[index];
                assert(views(self.labels@)[index as int] == label@);
                events.push(
                    RunEvent::RequestStarted { id: label.id.clone(), name: label.name.clone(), iteration },
                );
                proof {
                    let first = before.told@;
                    let last = TellV::RequestStarted { iteration: iteration as int, index: index as int };
                    if announce {
                        let middle = first.push(TellV::IterationStarted { iteration: iteration as int });
                        assert(first + more =~= middle.push(last));
                        assert(middle.push(last).drop_last() =~= middle);
                        assert(middle.drop_last() =~= first);
                        assert(finished_in(middle) == finished_in(first));
                        assert(started_in(middle) == started_in(first));
                    } else {
                        assert(first + more =~= first.push(last));
                        assert(first.push(last).drop_last() =~= first);
                    }
                }
            },
            NextStep::Finished => {
                events.push(RunEvent::RunFinished(self.machine.summary(duration_ms)));
                self.ended = true;
                proof {
                    let first = before.told@;
                    let last = TellV::RunFinished(counts(self.machine, duration_ms));
                    assert(first + more =~= first.push(last));
                    assert(first.push(last).drop_last() =~= first);
                }
            },
        }
        self.told = Ghost(before.told@ + more);
        proof {
            let told = self.told@;
            let n = before.told@.len() as int;
            assert(finished_in(told) == finished_in(before.told@));
            assert forall|i: int| 0 <= i < told.len() implies {
                &&& (#[trigger] told[i]) is RunStarted ==> i == 0
                &&& told[i] is RunFinished ==> self.ended && i == told.len() - 1
                &&& told[i] matches TellV::RequestStarted { index, .. } ==> 0 <= index < self.machine.skips@.len()
                    && !self.machine.skips@[index]
                &&& told[i] matches TellV::RequestFinished { index, .. } ==> 0 <= index < self.machine.skips@.len()
                    && !self.machine.skips@[index]
            } by {
                if i < n {
                    assert(told[i] == before.told@[i]);
                } else {
                    assert(told[i] == more[i - n]);
                }
            }
        }
        (step, events)
    }

    /// Count a request that has finished, and tell its outcome.
    pub fn finish(&mut self, outcome: RequestOutcome) -> (r: RunEvent)
        requires
            old(self).wf(),
            old(self).machine.running,
        ensures
            final(self).wf(),
            !final(self).ended,
            final(self).labels == old(self).labels,
            old(self).machine.recorded(outcome_passed(outcome@), final(self).machine),
            final(self).told@ == old(self).told@.push(
                TellV::RequestFinished {
                    iteration: old(self).machine.iteration as int,
                    index: old(self).machine.index as int,
                    ok: outcome_passed(outcome@),
                },
            ),
            r == RunEvent::RequestFinished(Box::new(outcome)),
            tells(r, final(self).told@.last(), views(final(self).labels@)),
    {
        let ok = outcome.passed();
        let ghost before = self.told@;
        let ghost last = TellV::RequestFinished {
            iteration: self.machine.iteration as int,
            index: self.machine.index as int,
            ok,
        };
        self.machine.record(ok);
        proof {
            assert(before.push(last).drop_last() =~= before);
        }
        self.told = Ghost(before.push(last));
        RunEvent::RequestFinished(Box::new(outcome))
    }
}

proof fn lemma_open_place(skips: Seq<bool>, iterations: int, iteration: int, index: int)
    requires
        0 <= index,
    ensures
        ({
            let (i, k, _) = next_open(skips, iterations, iteration, index);
            i < iterations ==> 0 <= k < skips.len() && !skips[k]
        }),
    decreases iterations - iteration, skips.len() - index,
{
    if iteration < iterations {
        if index >= skips.len() {
            lemma_open_place(skips, iterations, iteration + 1, 0);
        } else if skips[index] {
            lemma_open_place(skips, iterations, iteration, index + 1);
        }
    }
}

// ---------------------------------------------------------------------
// Laws
// ---------------------------------------------------------------------

/// What is told of a run that has ended: its start first, with the number of
/// planned requests times iterations, its end last, with its counts, which add
/// up; in between as many finished requests as passed and failed, each of which
/// was started, and none of which runs pass over.
pub proof fn lemma_events_tell_the_run(session: RunSession)
    requires
        session.wf(),
        session.ended,
    ensures
        ({
            let told = session.told@;
            let m = session.machine;
            &&& told.first() == TellV::RunStarted { total: m.total as int, iterations: m.iterations as int }
            &&& told.last() is RunFinished
            &&& {
                let s = told.last()->RunFinished_0;
                &&& s.total == m.skips@.len() * m.iterations
                &&& s.total == s.passed + s.failed + s.skipped
                &&& finished_in(told) == s.passed + s.failed
                &&& started_in(told) == finished_in(told)
            }
            &&& forall|i: int|
                0 < i < told.len() - 1 ==> !((#[trigger] told[i]) is RunStarted) && !(told[i] is RunFinished)
            &&& forall|i: int|
                0 <= i < told.len() ==> ((#[trigger] told[i]) matches TellV::RequestStarted { index, .. }
                    ==> !m.skips@[index])
        }),
{
    let m = session.machine;
    assert(m.skips@.len() * m.iterations == m.iterations * m.skips@.len()) by (nonlinear_arith);
}

} // verus!
