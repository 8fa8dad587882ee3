//! Runs of several requests: environments, and the runtime values that one
//! request hands to the next.

use vstd::prelude::*;

use crate::json::{json_parse, parse, Json, JsonV};
use crate::map::{ascending, lemma_put_all_is_read_back, lemma_put_all_keeps_order, lookup, put_all, TextMap};
use crate::reqv1::diag::{diag, Code, Diagnostic, DiagnosticV};
use crate::reqv1::pipeline::{json_result, ResponseV, ResponseView};
use crate::reqv1::runner::{failed_execution, failed_result, RunExecution, RunResult, RunResultV};
use crate::text::{cat2, cat4, cat5, chars_of, same};
use crate::view::{opt_view, ref_view, views};
use crate::words::{decimal, number_text, quote, quoted};

verus! {

broadcast use vstd::string::group_string_axioms;

/// The diagnostic for what is wrong with an environment.
pub open spec fn environment_error(code: Code, name: Seq<char>, why: Seq<char>) -> DiagnosticV {
    diag(code, "environment "@ + name + ": "@ + why)
}

/// A name that names a file in the directory of environments, and nothing
/// outside it.
pub open spec fn plain_name(name: Seq<char>) -> bool {
    &&& name.len() > 0
    &&& !name.contains('/')
    &&& !name.contains('\\')
    &&& name != "."@
    &&& name != ".."@
}

/// The complaint about a name that could leave the directory.
pub open spec fn name_complaint(name: Seq<char>) -> Seq<char> {
    "invalid environment name "@ + quoted(name)
}

/// Check that a name names a file in the directory of environments.
pub fn validate_environment_name(name: &str) -> (r: Result<(), String>)
    ensures
        match r {
            Ok(_) => plain_name(name@),
            Err(e) => !plain_name(name@) && e@ == name_complaint(name@),
        },
{
    let chars = chars_of(name);
    let mut plain = chars.len() > 0 && !same(name, ".") && !same(name, "..");
    let mut i: usize = 0;
    while i < chars.len()
        invariant
            i <= chars.len(),
            chars@ == name@,
            plain == (name@.len() > 0 && name@ != "."@ && name@ != ".."@ && !name@.take(i as int).contains('/')
                && !name@.take(i as int).contains('\\')),
        decreases chars.len() - i,
    {
        let ghost before = name@.take(i as int);
        let ghost after = name@.take(i + 1);
        let c = chars[i];
        proof {
            assert(after =~= before.push(c));
            assert forall|x: char| after.contains(x) == (before.contains(x) || x == c) by {
                if before.contains(x) {
                    let k = choose|k: int| 0 <= k < before.len() && before[k] == x;
                    assert(after[k] == x);
                }
                if x == c {
                    assert(after[i as int] == x);
                }
            }
        }
        if c == '/' || c == '\\' {
            plain = false;
        }
        i += 1;
    }
    assert(name@.take(i as int) =~= name@);
    if plain {
        Ok(())
    } else {
        Err(cat2("invalid environment name ", quote(name).as_str()))
    }
}

/// The value of an environment: an empty object where none is named, else
/// what its file holds.
pub open spec fn environment(name: Option<Seq<char>>, file: Result<Seq<char>, Seq<char>>) -> Result<JsonV, DiagnosticV> {
    match name {
        None => Ok(JsonV::Object(seq![])),
        Some(name) => if !plain_name(name) {
            Err(diag(Code::InvalidAssetInput, name_complaint(name)))
        } else {
            match file {
                Err(e) => Err(environment_error(Code::AssetNotFound, name, e)),
                Ok(text) => match json_parse(text) {
                    Err(e) => Err(environment_error(Code::InvalidAssetInput, name, e)),
                    Ok(v) => Ok(v),
                },
            }
        },
    }
}

/// The value of an environment. `file` is the text of the environment's file,
/// or why it cannot be read.
pub fn load_environment(name: Option<&str>, file: Result<String, String>) -> (r: Result<Json, Diagnostic>)
    ensures
        json_result(r) == environment(
            ref_view(name),
            match file {
                Ok(s) => Ok(s@),
                Err(e) => Err(e@),
            },
        ),
{
    broadcast use crate::json::lemma_json_view;

    let name = match name {
        None => {
            let r = Json::Object(Vec::new());
            assert(r@->Object_0 =~= seq![]);
            return Ok(r);
        },
        Some(name) => name,
    };
    if let Err(message) = validate_environment_name(name) {
        return Err(Diagnostic::new(Code::InvalidAssetInput, message));
    }
    match file {
        Err(e) => Err(Diagnostic::new(Code::AssetNotFound, cat4("environment ", name, ": ", e.as_str()))),
        Ok(text) => match parse(text.as_str()) {
            Err(e) => Err(Diagnostic::new(Code::InvalidAssetInput, cat4("environment ", name, ": ", e.as_str()))),
            Ok(v) => Ok(v),
        },
    }
}

/// The environment of a request: the one that is asked for, else the closest
/// default. `inherited` is that default, or why it cannot be told.
pub fn request_environment(explicit: Option<&str>, inherited: Result<Option<String>, String>) -> (r: Result<
    Option<String>,
    Diagnostic,
>)
    ensures
        match explicit {
            Some(name) => r matches Ok(Some(n)) && n@ == name@,
            None => match inherited {
                Err(message) => r matches Err(d) && d@ == diag(Code::InvalidAssetInput, message@),
                Ok(name) => r is Ok && opt_view(r->Ok_0) == opt_view(name),
            },
        },
{
    match explicit {
        Some(name) => Ok(Some(name.to_owned())),
        None => match inherited {
            Err(message) => Err(Diagnostic::new(Code::InvalidAssetInput, message)),
            Ok(name) => Ok(name),
        },
    }
}

/// A sequence needs one environment value for each request.
pub fn check_lengths(requests: usize, environments: usize) -> (r: Result<(), Diagnostic>)
    ensures
        r is Ok <==> requests == environments,
        r matches Err(d) ==> d@ == diag(
            Code::InvalidAssetInput,
            "sequence has "@ + decimal(requests as nat) + " request(s), but "@ + decimal(environments as nat)
                + " environment value(s)"@,
        ),
{
    if requests == environments {
        Ok(())
    } else {
        Err(
            Diagnostic::new(
                Code::InvalidAssetInput,
                cat5(
                    "sequence has ",
                    number_text(requests as u64).as_str(),
                    " request(s), but ",
                    number_text(environments as u64).as_str(),
                    " environment value(s)",
                ),
            ),
        )
    }
}

/// Hand the runtime values of one request to the next: a key that was written
/// again has its new value.
pub fn thread_runtime(runtime: &mut TextMap<Json>, written: &TextMap<Json>)
    ensures
        final(runtime)@ == put_all(old(runtime)@, written@),
        ascending(old(runtime)@) ==> ascending(final(runtime)@),
{
    let ghost start = runtime@;
    let ghost all = written@;
    let mut i: usize = 0;
    assert(all.take(0) =~= Seq::empty());
    while i < written.pairs.len()
        invariant
            i <= written.pairs.len(),
            all == written@,
            runtime@ == put_all(start, all.take(i as int)),
        decreases written.pairs.len() - i,
    {
        assert(all.take(i + 1).drop_last() =~= all.take(i as int));
        assert(all.take(i + 1).last() == all[i as int]);
        let _ = runtime.insert(written.pairs[i].0.clone(), written.pairs[i].1.copy());
        i += 1;
    }
    assert(all.take(i as int) =~= all);
    proof {
        if ascending(start) {
            lemma_put_all_keeps_order(start, all);
        }
    }
}

/// A sequence of requests, part of which has been run.
#[derive(Debug)]
pub struct Sequence {
    /// How many requests there are.
    pub requests: usize,
    /// What the requests so far have written.
    pub runtime: TextMap<Json>,
    /// The results so far, each with its response.
    pub results: Vec<(RunResult, Option<ResponseView>)>,
}

/// What a [`Sequence`] says.
pub struct SequenceV {
    pub requests: usize,
    pub runtime: Seq<(Seq<char>, JsonV)>,
    pub results: Seq<(RunResultV, Option<ResponseV>)>,
}

impl View for Sequence {
    type V = SequenceV;

    open spec fn view(&self) -> SequenceV {
        SequenceV {
            requests: self.requests,
            runtime: self.runtime@,
            results: Seq::new(self.results@.len(), |i: int| (self.results@[i].0@, opt_view(self.results@[i].1))),
        }
    }
}

impl Sequence {
    /// A sequence before its first request: nothing has been written.
    pub fn new(requests: usize) -> (r: Sequence)
        ensures
            r@ == (SequenceV { requests, runtime: seq![], results: seq![] }),
    {
        let r = Sequence { requests, runtime: TextMap::new(), results: Vec::new() };
        assert(r@.results =~= seq![]);
        assert(r@.runtime =~= seq![]);
        r
    }

    /// The request that is next.
    pub fn next(&self) -> (r: Option<usize>)
        ensures
            r == if self@.results.len() < self@.requests {
                Some(self@.results.len() as usize)
            } else {
                None
            },
    {
        if self.results.len() < self.requests {
            Some(self.results.len())
        } else {
            None
        }
    }

    /// The next request could not be read from its file: it is an error, and
    /// the sequence goes on.
    pub fn not_read(&mut self, file: &str, message: String, duration_ms: u64)
        ensures
            final(self)@ == (SequenceV {
                results: old(self)@.results.push(
                    (failed_result(file@, seq![diag(Code::InvalidAssetInput, message@)], duration_ms), None),
                ),
                ..old(self)@
            }),
    {
        let ghost before = self@;
        let mut diagnostics: Vec<Diagnostic> = Vec::new();
        let ghost text = message@;
        diagnostics.push(Diagnostic::new(Code::InvalidAssetInput, message));
        assert(views(diagnostics@) =~= seq![diag(Code::InvalidAssetInput, text)]);
        let failed = failed_execution(file, diagnostics, duration_ms);
        let ghost entry = (failed.result@, None::<ResponseV>);
        self.results.push((failed.result, None));
        assert(self@.results =~= before.results.push(entry));
    }

    /// The next request was run: what it wrote is there for the ones after it.
    pub fn finished(&mut self, execution: RunExecution)
        ensures
            final(self)@ == (SequenceV {
                requests: old(self)@.requests,
                runtime: put_all(old(self)@.runtime, execution.runtime_unmasked@),
                results: old(self)@.results.push((execution.result@, opt_view(execution.response))),
            }),
    {
        let ghost before = self@;
        let ghost entry = (execution.result@, opt_view(execution.response));
        thread_runtime(&mut self.runtime, &execution.runtime_unmasked);
        self.results.push((execution.result, execution.response));
        assert(self@.results =~= before.results.push(entry));
    }
}

// ---------------------------------------------------------------------
// Laws
// ---------------------------------------------------------------------

/// What requests hand on, after the first `n` of those that write.
pub open spec fn handed_on(written: Seq<Seq<(Seq<char>, JsonV)>>, n: int) -> Seq<(Seq<char>, JsonV)>
    decreases n,
{
    if n <= 0 || n > written.len() {
        seq![]
    } else {
        put_all(handed_on(written, n - 1), written[n - 1])
    }
}

/// The value that was written last under `key` by the first `n` requests.
pub open spec fn last_written(written: Seq<Seq<(Seq<char>, JsonV)>>, key: Seq<char>, n: int) -> Option<JsonV>
    decreases n,
{
    if n <= 0 || n > written.len() {
        None
    } else if lookup(written[n - 1], key) is Some {
        lookup(written[n - 1], key)
    } else {
        last_written(written, key, n - 1)
    }
}

/// A request sees, under every key, what was written there last by a request
/// before it.
pub proof fn lemma_later_requests_see(written: Seq<Seq<(Seq<char>, JsonV)>>, key: Seq<char>, n: int)
    requires
        forall|i: int| 0 <= i < written.len() ==> ascending(#[trigger] written[i]),
        0 <= n <= written.len(),
    ensures
        lookup(handed_on(written, n), key) == last_written(written, key, n),
    decreases n,
{
    if n > 0 {
        lemma_later_requests_see(written, key, n - 1);
        assert(ascending(written[n - 1]));
        lemma_put_all_is_read_back(handed_on(written, n - 1), written[n - 1], key);
    }
}

} // verus!
