//! A run from its start to the outcome of each request.

use vstd::prelude::*;

use crate::exec::text_pairs;
use crate::map::{put_all, TextMap};
use crate::model::request::RequestDef;
use crate::reqv1::pipeline::ResponseView;
use crate::runner::assertions::{filled_assertions, resolve_assertions};
use crate::runner::checks::{apply_extractors, evaluate_all, outcomes, taken_errors, taken_values};
use crate::runner::data::{data_rows, load_iterations, DataSource, DataV};
use crate::runner::events::{Label, LabelV, RunSession};
use crate::runner::plan::{plan_requests, scope_plan, PlannedRequest, PlannedV, RunError, RunErrorV, RunScope, ScopeV};
use crate::runner::run::{extract_lines, note_extraction, AssertionOutcome, RunEvent, RunMachine};
use crate::store::{named_environment, CollectionV, LoadedEnvironment, LoadedV, Workspace};
use crate::vars::{environment_layer, LayerV, VarScopes};
use crate::view::{opt_view, ref_view, views, Copied};

verus! {

broadcast use vstd::string::group_string_axioms;

/// What a run is asked for beside its scope.
#[derive(Debug)]
pub struct RunOptions {
    pub environment: Option<String>,
    pub data: Option<DataSource>,
    /// Stop at the first failure.
    pub bail: bool,
    /// How long to wait between requests.
    pub delay_ms: u64,
}

/// A run that can start: its requests, its environment, and its data rows.
#[derive(Debug)]
pub struct Prepared<'a> {
    pub planned: Vec<PlannedRequest<'a>>,
    pub environment: Option<&'a LoadedEnvironment>,
    pub iterations: Vec<TextMap<String>>,
}

/// What a [`Prepared`] run holds.
pub struct PreparedV {
    pub planned: Seq<PlannedV>,
    pub environment: Option<LoadedV>,
    pub iterations: Seq<LayerV>,
}

impl<'a> View for Prepared<'a> {
    type V = PreparedV;

    open spec fn view(&self) -> PreparedV {
        PreparedV {
            planned: views(self.planned@),
            environment: ref_view(self.environment),
            iterations: views(self.iterations@),
        }
    }
}

/// How a run starts. The scope is looked at first, the environment next, and
/// the data last; the first that is wrong is the error.
pub open spec fn prepared(
    cols: Seq<CollectionV>,
    environments: Seq<LoadedV>,
    scope: ScopeV,
    environment: Option<Seq<char>>,
    data: Option<DataV>,
) -> Result<PreparedV, RunErrorV> {
    match scope_plan(cols, scope) {
        Err(e) => Err(e),
        Ok(planned) => {
            let found = match environment {
                None => None,
                Some(name) => named_environment(environments, name, 0),
            };
            if environment is Some && found is None {
                Err(RunErrorV::EnvironmentNotFound(environment->Some_0))
            } else {
                match data_rows(data) {
                    Err(e) => Err(e),
                    Ok(iterations) => Ok(PreparedV { planned, environment: found, iterations }),
                }
            }
        },
    }
}

/// Start a run.
pub fn prepare<'a>(ws: &'a Workspace, scope: &RunScope, options: &RunOptions) -> (r: Result<Prepared<'a>, RunError>)
    ensures
        prepared(
            views(ws.collections@),
            views(ws.environments@),
            scope@,
            opt_view(options.environment),
            opt_view(options.data),
        ) == match r {
            Ok(p) => Ok::<PreparedV, RunErrorV>(p@),
            Err(e) => Err::<PreparedV, RunErrorV>(e@),
        },
{
    let planned = match plan_requests(&ws.collections, scope) {
        Ok(planned) => planned,
        Err(e) => {
            return Err(e);
        },
    };
    let environment = match &options.environment {
        None => None,
        Some(name) => match ws.environment(name.as_str()) {
            Some(e) => Some(e),
            None => {
                return Err(RunError::EnvironmentNotFound(name.clone()));
            },
        },
    };
    match load_iterations(&options.data) {
        Err(e) => Err(e),
        Ok(iterations) => Ok(Prepared { planned, environment, iterations }),
    }
}

impl<'a> Prepared<'a> {
    /// The order of the run. The requests of all iterations can be counted.
    pub fn machine(&self, bail: bool) -> (r: RunMachine)
        requires
            self@.planned.len() * self@.iterations.len() <= usize::MAX,
        ensures
            r.wf(),
            !r.running,
            !r.stopped,
            r.bail == bail,
            r.iterations == self@.iterations.len(),
            r.iteration == 0,
            r.index == 0,
            r.announced is None,
            r.skips@ == Seq::new(self@.planned.len(), |i: int| self@.planned[i].node.def.settings.skip_in_runs),
            r.total == self@.planned.len() * self@.iterations.len(),
            r.passed == 0,
            r.failed == 0,
            r.skipped == 0,
            r.runtime@.len() == 0,
    {
        let mut skips: Vec<bool> = Vec::new();
        let mut i: usize = 0;
        assert(self@.planned.len() == self.planned@.len());
        assert(self@.iterations.len() == self.iterations@.len());
        while i < self.planned.len()
            invariant
                i <= self.planned.len(),
                skips.len() == i,
                forall|k: int| 0 <= k < i ==> #[trigger] skips@[k] == self.planned@[k]@.node.def.settings.skip_in_runs,
            decreases self.planned.len() - i,
        {
            skips.push(self.planned[i].node.def.settings.skip_in_runs);
            i += 1;
        }
        assert(skips@ =~= Seq::new(
            self@.planned.len(),
            |i: int| self@.planned[i].node.def.settings.skip_in_runs,
        ));
        assert(self@.iterations.len() * self@.planned.len() == self@.planned.len() * self@.iterations.len())
            by (nonlinear_arith);
        RunMachine::new(skips, self.iterations.len(), bail)
    }

    /// The run at its start, and the event that tells it. The requests of all
    /// iterations can be counted.
    pub fn session(&self, bail: bool) -> (r: (RunSession, RunEvent))
        requires
            self@.planned.len() * self@.iterations.len() <= usize::MAX,
        ensures
            r.0.wf(),
            !r.0.ended,
            !r.0.machine.running,
            !r.0.machine.stopped,
            r.0.machine.bail == bail,
            r.0.machine.iterations == self@.iterations.len(),
            r.0.machine.iteration == 0,
            r.0.machine.index == 0,
            r.0.machine.announced is None,
            r.0.machine.skips@ == Seq::new(
                self@.planned.len(),
                |i: int| self@.planned[i].node.def.settings.skip_in_runs,
            ),
            r.0.machine.total == self@.planned.len() * self@.iterations.len(),
            r.0.machine.skipped == 0,
            r.0.machine.runtime@.len() == 0,
            views(r.0.labels@) == Seq::new(
                self@.planned.len(),
                |i: int| LabelV { id: self@.planned[i].node.file, name: self@.planned[i].node.def.name },
            ),
            r.1 matches RunEvent::RunStarted { total, iterations } && total == r.0.machine.total && iterations
                == self@.iterations.len(),
    {
        let mut labels: Vec<Label> = Vec::new();
        let mut i: usize = 0;
        assert(self@.planned.len() == self.planned@.len());
        while i < self.planned.len()
            invariant
                i <= self.planned.len(),
                labels.len() == i,
                forall|k: int|
                    0 <= k < i ==> (#[trigger] labels@[k])@ == (LabelV {
                        id: self.planned@[k]@.node.file,
                        name: self.planned@[k]@.node.def.name,
                    }),
            decreases self.planned.len() - i,
        {
            let node = &self.planned[i].node;
            labels.push(Label { id: node.file.clone(), name: node.def.name.clone() });
            i += 1;
        }
        assert(views(labels@) =~= Seq::new(
            self@.planned.len(),
            |i: int| LabelV { id: self@.planned[i].node.file, name: self@.planned[i].node.def.name },
        ));
        RunSession::start(self.machine(bail), labels)
    }
}

/// The layers that a request of a run is filled in from, the first that knows a
/// name deciding.
pub open spec fn layers_for(
    planned: PlannedV,
    environment: Option<LoadedV>,
    row: LayerV,
    runtime: LayerV,
) -> Seq<LayerV> {
    seq![runtime, row] + planned.folder_vars + seq![
        planned.collection_vars,
        match environment {
            Some(e) => environment_layer(e.env.variables, e.secrets),
            None => seq![],
        },
        seq![],
    ]
}

/// The scopes that a request of a run is filled in from: what the run has
/// found out, the row of the iteration, the folders, the collection, and the
/// environment.
pub fn request_scopes(
    planned: &PlannedRequest,
    environment: Option<&LoadedEnvironment>,
    row: &TextMap<String>,
    runtime: &TextMap<String>,
) -> (r: VarScopes)
    ensures
        r.runtime@ == runtime@,
        r.iteration@ == row@,
        views(r.folders@) == planned@.folder_vars,
        r.collection@ == planned@.collection_vars,
        r.environment@ == match ref_view(environment) {
            Some(e) => environment_layer(e.env.variables, e.secrets),
            None => seq![],
        },
        r.dynamic@.len() == 0,
        r@ == layers_for(planned@, ref_view(environment), row@, runtime@),
{
    let mut scopes = VarScopes::new();
    assert(scopes.environment@ =~= seq![]);
    if let Some(e) = environment {
        scopes = scopes.with_environment(&e.env, &e.secrets);
    }
    scopes.collection = planned.collection_vars.copied();
    let mut folders: Vec<TextMap<String>> = Vec::new();
    let mut i: usize = 0;
    while i < planned.folder_vars.len()
        invariant
            i <= planned.folder_vars.len(),
            folders.len() == i,
            forall|k: int| 0 <= k < i ==> (#[trigger] folders@[k])@ == planned.folder_vars@[k]@,
        decreases planned.folder_vars.len() - i,
    {
        folders.push(planned.folder_vars[i].copied());
        i += 1;
    }
    assert(views(folders@) =~= views(planned.folder_vars@));
    scopes.folders = folders;
    scopes.iteration = row.copied();
    scopes.runtime = runtime.copied();
    assert(scopes.dynamic@ =~= seq![]);
    scopes
}

/// Look at a response: its assertions, with their variables filled in, and
/// what is extracted from it. Extracted values are kept for the requests to
/// come, and what could not be extracted is logged.
pub fn check_response(
    def: &RequestDef,
    scopes: &VarScopes,
    res: &ResponseView,
    runtime: &mut TextMap<String>,
    log: &mut Vec<String>,
) -> (r: (Vec<AssertionOutcome>, Vec<(String, String)>))
    ensures
        views(r.0@) == outcomes(
            filled_assertions(def@.assertions, scopes@),
            res@,
            filled_assertions(def@.assertions, scopes@).len() as int,
        ),
        text_pairs(r.1@) == taken_values(def@.extractors, res@, def@.extractors.len() as int),
        final(runtime)@ == put_all(
            old(runtime)@,
            taken_values(def@.extractors, res@, def@.extractors.len() as int),
        ),
        views(final(log)@) == views(old(log)@) + extract_lines(
            taken_errors(def@.extractors, res@, def@.extractors.len() as int),
        ),
{
    let filled = resolve_assertions(&def.assertions, scopes);
    assert(views(filled@).len() == filled@.len());
    assert(views(def.extractors@).len() == def.extractors@.len());
    let assertions = evaluate_all(&filled, res);
    let report = apply_extractors(&def.extractors, res);
    note_extraction(&report, runtime, log);
    (assertions, report.values)
}

} // verus!
