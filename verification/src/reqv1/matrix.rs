//! Matrix documents: one run for every combination of the listed values.

use vstd::prelude::*;

use crate::json::{Json, JsonV};
use crate::map::{put, TextMap};
use crate::reqv1::builder::{may_bind, object_of, resolve_single_binding, BuildInputs, InputsV};
use crate::reqv1::diag::{diag, Code, Diagnostic, DiagnosticV};
use crate::reqv1::model::{Binding, BindingV};
use crate::reqv1::vars::{json_filled, Filled};
use crate::text::{cat2, cat3};
use crate::view::{group_views, views, Copied};

verus! {

broadcast use vstd::string::group_string_axioms;

/// A name with the values that it takes in turn.
pub type ListV = (Seq<char>, Seq<JsonV>);

/// The cases that begin with `case`, one for each of the first `n` values.
pub open spec fn cases_of(case: Seq<(Seq<char>, JsonV)>, list: ListV, n: int) -> Seq<Seq<(Seq<char>, JsonV)>>
    decreases n,
{
    if n <= 0 || n > list.1.len() {
        seq![]
    } else {
        cases_of(case, list, n - 1).push(put(case, list.0, list.1[n - 1]))
    }
}

/// The first `n` cases, each once for every value of `list`.
pub open spec fn widened(cases: Seq<Seq<(Seq<char>, JsonV)>>, list: ListV, n: int) -> Seq<Seq<(Seq<char>, JsonV)>>
    decreases n,
{
    if n <= 0 || n > cases.len() {
        seq![]
    } else {
        widened(cases, list, n - 1) + cases_of(cases[n - 1], list, list.1.len() as int)
    }
}

/// Every combination of the values of the first `n` lists, the last list
/// changing fastest.
pub open spec fn combinations(lists: Seq<ListV>, n: int) -> Seq<Seq<(Seq<char>, JsonV)>>
    decreases n,
{
    if n <= 0 || n > lists.len() {
        seq![seq![]]
    } else {
        let before = combinations(lists, n - 1);
        widened(before, lists[n - 1], before.len() as int)
    }
}

/// The cases of a matrix. Without lists there is one, which is null.
pub open spec fn matrix_cases(lists: Seq<ListV>) -> Seq<JsonV> {
    if lists.len() == 0 {
        seq![JsonV::Null]
    } else {
        let all = combinations(lists, lists.len() as int);
        Seq::new(all.len(), |i: int| JsonV::Object(all[i]))
    }
}

/// The diagnostic for a list that is none.
pub open spec fn no_list(name: Seq<char>) -> DiagnosticV {
    diag(Code::InvalidAssetInput, "matrix \""@ + name + "\" must resolve to an array"@)
}

/// The place of a list in the document.
pub open spec fn matrix_path(name: Seq<char>) -> Seq<char> {
    "/matrix/"@ + name
}

/// Lists on the way to being resolved.
pub struct ListsV {
    pub lists: Seq<ListV>,
    pub errors: Seq<DiagnosticV>,
}

/// `s` after the outcome of the list `name`.
pub open spec fn listed(s: ListsV, name: Seq<char>, outcome: Result<JsonV, DiagnosticV>) -> ListsV {
    match outcome {
        Ok(JsonV::Array(items)) => ListsV { lists: s.lists.push((name, items)), ..s },
        Ok(_) => ListsV { errors: s.errors.push(no_list(name).at(matrix_path(name))), ..s },
        Err(d) => ListsV { errors: s.errors.push(d.at(matrix_path(name))), ..s },
    }
}

/// One list takes `s` to `t`.
pub open spec fn list_link(entry: (Seq<char>, BindingV), inputs: InputsV, s: ListsV, t: ListsV) -> bool {
    exists|f: Filled<JsonV>|
        may_bind(entry.1, inputs, JsonV::Object(seq![]), f) && t == #[trigger] listed(s, entry.0, f.outcome)
}

/// The first `n` lists of a matrix take nothing to `t`.
pub open spec fn lists_reach(matrix: Seq<(Seq<char>, BindingV)>, inputs: InputsV, n: nat, t: ListsV) -> bool
    decreases n,
{
    if n == 0 {
        t == ListsV { lists: seq![], errors: seq![] }
    } else {
        exists|s: ListsV|
            lists_reach(matrix, inputs, (n - 1) as nat, s) && #[trigger] list_link(matrix[n - 1], inputs, s, t)
    }
}

/// The cases of resolved lists, or their errors.
pub open spec fn cases_or_errors(t: ListsV) -> Result<Seq<JsonV>, Seq<DiagnosticV>> {
    if t.errors.len() > 0 {
        Err(t.errors)
    } else {
        Ok(matrix_cases(t.lists))
    }
}

/// Cases or errors by their views.
pub open spec fn cases_view(r: Result<Vec<Json>, Vec<Diagnostic>>) -> Result<Seq<JsonV>, Seq<DiagnosticV>> {
    match r {
        Ok(cases) => Ok(views(cases@)),
        Err(errors) => Err(views(errors@)),
    }
}

/// A name with the values that it takes in turn.
#[derive(Debug)]
pub struct CaseList {
    pub name: String,
    pub items: Vec<Json>,
}

impl View for CaseList {
    type V = ListV;

    open spec fn view(&self) -> ListV {
        (self.name@, views(self.items@))
    }
}

/// Every combination of the values of lists, the last list changing fastest.
/// Without lists there is one case, which is null.
pub fn cases(lists: &Vec<CaseList>) -> (r: Vec<Json>)
    ensures
        views(r@) == matrix_cases(views(lists@)),
{
    broadcast use group_views;

    let ghost all = views(lists@);
    assert(all.len() == lists@.len());
    if lists.len() == 0 {
        let mut out: Vec<Json> = Vec::new();
        out.push(Json::Null);
        assert(views(out@) =~= seq![JsonV::Null]);
        return out;
    }
    let mut now: Vec<TextMap<Json>> = Vec::new();
    now.push(TextMap::new());
    assert(now@[0]@ =~= seq![]);
    assert(views(now@) =~= combinations(all, 0));
    let mut i: usize = 0;
    while i < lists.len()
        invariant
            i <= lists.len(),
            all == views(lists@),
            views(now@) == combinations(all, i as int),
        decreases lists.len() - i,
    {
        assert(all[i as int] == lists@[i as int]@);
        now = widen(&now, &lists[i]);
        i += 1;
    }
    let mut out: Vec<Json> = Vec::new();
    let mut k: usize = 0;
    let ghost last = views(now@);
    while k < now.len()
        invariant
            k <= now.len(),
            last == views(now@),
            out.len() == k,
            forall|j: int| 0 <= j < k ==> (#[trigger] out@[j])@ == JsonV::Object(last[j]),
        decreases now.len() - k,
    {
        out.push(object_of(&now[k]));
        k += 1;
    }
    assert(views(out@) =~= matrix_cases(all));
    out
}

fn widen(now: &Vec<TextMap<Json>>, list: &CaseList) -> (r: Vec<TextMap<Json>>)
    ensures
        views(r@) == widened(views(now@), list@, now@.len() as int),
{
    broadcast use group_views;

    let ghost before = views(now@);
    let ghost values = list@;
    let mut out: Vec<TextMap<Json>> = Vec::new();
    let mut i: usize = 0;
    while i < now.len()
        invariant
            i <= now.len(),
            before == views(now@),
            values == list@,
            views(out@) == widened(before, values, i as int),
        decreases now.len() - i,
    {
        assert(before[i as int] == now@[i as int]@);
        let ghost start = views(out@);
        assert(start + Seq::<Seq<(Seq<char>, JsonV)>>::empty() =~= start);
        let mut k: usize = 0;
        while k < list.items.len()
            invariant
                k <= list.items.len(),
                i < now.len(),
                before == views(now@),
                before[i as int] == now@[i as int]@,
                values == list@,
                views(out@) == start + cases_of(before[i as int], values, k as int),
            decreases list.items.len() - k,
        {
            assert(values.1[k as int] == list.items@[k as int]@);
            let mut case = now[i].copied();
            let _ = case.insert(list.name.clone(), list.items[k].copy());
            let ghost view = case@;
            let ghost done = cases_of(before[i as int], values, k as int);
            out.push(case);
            assert((start + done).push(view) =~= start + done.push(view));
            k += 1;
        }
        i += 1;
    }
    out
}

/// Resolve the lists of a matrix and combine them. A binding that does not
/// resolve to an array is an error.
pub fn resolve_cases(matrix: &TextMap<Binding>, inputs: &BuildInputs) -> (r: Result<Vec<Json>, Vec<Diagnostic>>)
    ensures
        exists|t: ListsV| #[trigger]
            lists_reach(matrix@, inputs@, matrix@.len(), t) && cases_view(r) == cases_or_errors(t),
{
    broadcast use group_views;
    broadcast use crate::json::lemma_json_view;

    let ghost view = matrix@;
    let mut lists: Vec<CaseList> = Vec::new();
    let mut errors: Vec<Diagnostic> = Vec::new();
    let mut i: usize = 0;
    while i < matrix.pairs.len()
        invariant
            i <= matrix.pairs.len(),
            view == matrix@,
            lists_reach(view, inputs@, i as nat, ListsV { lists: views(lists@), errors: views(errors@) }),
        decreases matrix.pairs.len() - i,
    {
        let ghost s = ListsV { lists: views(lists@), errors: views(errors@) };
        let name = matrix.pairs[i].0.as_str();
        assert(view[i as int].0 == name@ && view[i as int].1 == matrix.pairs@[i as int].1@);
        let outcome = resolve_single_binding(&matrix.pairs[i].1, inputs);
        let ghost f = choose|f: Filled<JsonV>| #[trigger]
            may_bind(view[i as int].1, inputs@, JsonV::Object(seq![]), f) && f.outcome == json_filled(outcome);
        assert(outcome is Ok ==> (outcome->Ok_0@ is Array) == (outcome->Ok_0 is Array));
        proof {
            if outcome is Ok {
                crate::json::lemma_json_view(outcome->Ok_0);
            }
        }
        match outcome {
            Ok(Json::Array(items)) => {
                lists.push(CaseList { name: name.to_owned(), items });
            },
            Ok(_) => {
                let message = cat3("matrix \"", name, "\" must resolve to an array");
                errors.push(Diagnostic::new(Code::InvalidAssetInput, message).at(cat2("/matrix/", name).as_str()));
            },
            Err(d) => {
                errors.push(d.at(cat2("/matrix/", name).as_str()));
            },
        }
        let ghost t = ListsV { lists: views(lists@), errors: views(errors@) };
        assert(t.lists =~= listed(s, name@, f.outcome).lists);
        assert(t.errors =~= listed(s, name@, f.outcome).errors);
        assert(t == listed(s, name@, f.outcome));
        assert(list_link(view[i as int], inputs@, s, t));
        assert(view[(i + 1) - 1] == view[i as int]);
        i += 1;
    }
    let ghost t = ListsV { lists: views(lists@), errors: views(errors@) };
    assert(lists_reach(view, inputs@, view.len(), t));
    assert(views(errors@).len() == errors@.len());
    if errors.len() > 0 {
        return Err(errors);
    }
    let r = cases(&lists);
    assert(cases_or_errors(t) == Ok::<Seq<JsonV>, Seq<DiagnosticV>>(views(r@)));
    Ok(r)
}

// ---------------------------------------------------------------------
// Laws
// ---------------------------------------------------------------------

/// How many combinations the first `n` lists have.
pub open spec fn case_count(lists: Seq<ListV>, n: int) -> nat
    decreases n,
{
    if n <= 0 || n > lists.len() {
        1
    } else {
        case_count(lists, n - 1) * lists[n - 1].1.len()
    }
}

proof fn lemma_cases_of_length(case: Seq<(Seq<char>, JsonV)>, list: ListV, n: int)
    requires
        0 <= n <= list.1.len(),
    ensures
        cases_of(case, list, n).len() == n,
    decreases n,
{
    if n > 0 {
        lemma_cases_of_length(case, list, n - 1);
    }
}

proof fn lemma_widened_length(cases: Seq<Seq<(Seq<char>, JsonV)>>, list: ListV, n: int)
    requires
        0 <= n <= cases.len(),
    ensures
        widened(cases, list, n).len() == n * list.1.len(),
    decreases n,
{
    if n > 0 {
        lemma_widened_length(cases, list, n - 1);
        lemma_cases_of_length(cases[n - 1], list, list.1.len() as int);
        assert((n - 1) * list.1.len() + list.1.len() == n * list.1.len()) by (nonlinear_arith);
    } else {
        assert(0 * list.1.len() == 0) by (nonlinear_arith);
    }
}

/// A matrix has as many cases as there are ways to choose a value from each of
/// its lists.
pub proof fn lemma_a_case_for_every_choice(lists: Seq<ListV>, n: int)
    requires
        0 <= n <= lists.len(),
    ensures
        combinations(lists, n).len() == case_count(lists, n),
    decreases n,
{
    if n > 0 {
        lemma_a_case_for_every_choice(lists, n - 1);
        let before = combinations(lists, n - 1);
        lemma_widened_length(before, lists[n - 1], before.len() as int);
    }
}

} // verus!
