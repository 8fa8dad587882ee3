//! What holds of the bindings, the matrix and the references of a request
//! document.

use vstd::prelude::*;

use crate::json::{json_parse, JsonV, NumV};
use crate::map::{lemma_put_is_read_back, lemma_put_leaves_others, lookup, put};
use crate::pointer::at_pointer;
use crate::selection::{lemma_picks_more, lemma_picks_none, picks};
use crate::text::{first_at, lemma_first_at, occurs_at};

use super::builder::{
    bound, dependencies, generated, may_bind, may_generate, may_resolve, patched_data, scopes_with, BoundV, InputsV,
};
use super::diag::{Code, DiagnosticV, Severity};
use super::ir::RefScheme;
use super::matrix::{cases_or_errors, combinations, listed, ListV, ListsV};
use super::model::BindingV;
use super::order::{binding_names, dependency_order, names_in, names_in_text, DepsV};
use super::refs::{data_at, resolved_reference};
use super::sequence::environment;
use super::vars::{filled, Filled};

verus! {

broadcast use vstd::string::group_string_axioms;

// ---------------------------------------------------------------------
// Bindings
// ---------------------------------------------------------------------

/// A binding that works has its value under its name and leaves the others; one
/// that does not is an error at its place in the document. Secrets add up.
pub proof fn lemma_binding_has_its_value(s: BoundV, name: Seq<char>, f: Filled<JsonV>, other: Seq<char>)
    requires
        other != name,
    ensures
        f.outcome matches Ok(v) ==> lookup(bound(s, name, f).values, name) == Some(v) && bound(s, name, f).errors
            == s.errors,
        f.outcome matches Err(d) ==> bound(s, name, f).values == s.values && bound(s, name, f).errors == s.errors.push(
            DiagnosticV { instance_path: Some("/bindings/"@ + name), ..d },
        ),
        lookup(bound(s, name, f).values, other) == lookup(s.values, other),
        bound(s, name, f).secrets == s.secrets + f.secrets,
{
    if let Ok(v) = f.outcome {
        lemma_put_is_read_back(s.values, name, v);
        lemma_put_leaves_others(s.values, name, v, other);
    }
}

/// A value is filled in from what was bound before. A reference is the data that
/// was loaded for it, with its operations applied; without operations it is that
/// data. A generator gets its input filled in. What was not found is an error.
pub proof fn lemma_binding_is_of_its_kind(b: BindingV, inputs: InputsV, bindings: JsonV, r: Filled<JsonV>)
    requires
        may_bind(b, inputs, bindings, r),
    ensures
        b matches BindingV::Value(v) ==> r == filled(v, scopes_with(inputs, bindings)),
        b matches BindingV::Ref { reference, patch } ==> {
            &&& r.secrets.len() == 0
            &&& lookup(inputs.assets, reference) is None ==> r.outcome is Err
            &&& lookup(inputs.assets, reference) matches Some(Err(d)) ==> r.outcome == Err::<JsonV, DiagnosticV>(d)
            &&& (lookup(inputs.assets, reference) matches Some(Ok(_))) ==> {
                &&& lookup(inputs.data, reference) is None ==> r.outcome is Err
                &&& lookup(inputs.data, reference) matches Some(Err(d)) ==> r.outcome == Err::<JsonV, DiagnosticV>(d)
                &&& lookup(inputs.data, reference) matches Some(Ok(v)) ==> r.outcome == patched_data(v, patch) && (patch
                    == JsonV::Array(seq![]) ==> r.outcome == Ok::<JsonV, DiagnosticV>(v))
            }
        },
        b matches BindingV::Use { uses, with } ==> {
            &&& lookup(inputs.assets, uses) is None ==> r.outcome is Err
            &&& lookup(inputs.assets, uses) matches Some(Err(d)) ==> r.outcome == Err::<JsonV, DiagnosticV>(d)
            &&& lookup(inputs.assets, uses) matches Some(Ok(asset)) ==> {
                let input = filled(with, scopes_with(inputs, bindings));
                &&& r.secrets == input.secrets
                &&& input.outcome matches Err(d) ==> r.outcome == Err::<JsonV, DiagnosticV>(d)
                &&& input.outcome matches Ok(v) ==> may_generate(asset, uses, inputs, bindings, v, r.outcome)
            }
        },
{
}

/// References in a binding see the environment, the matrix and the runtime of
/// the run, the secrets, and what was bound so far, each in its own scope.
pub proof fn lemma_scopes_are_those_of_the_run(inputs: InputsV, bindings: JsonV)
    ensures
        scopes_with(inputs, bindings).env == inputs.env,
        scopes_with(inputs, bindings).bindings == bindings,
        scopes_with(inputs, bindings).matrix == inputs.matrix,
        scopes_with(inputs, bindings).runtime == inputs.runtime,
        scopes_with(inputs, bindings).secrets == inputs.secrets,
        scopes_with(inputs, bindings).placeholder == inputs.placeholder,
{
}

/// The generator `uuid` gives the identifier, `now` the time; both have the
/// version one alone, and there is no other.
pub proof fn lemma_generator_gives_what_its_name_says(
    name: Seq<char>,
    version: Option<u32>,
    raw: Seq<char>,
    uuid: Seq<char>,
    now: i64,
)
    ensures
        (version matches Some(v) && v != 1) ==> (generated(name, version, raw, uuid, now) matches Err(d) && d.code
            == Code::UnsupportedAssetVersion && d.severity == Severity::Error && d.asset_ref == Some(raw)),
        (version is None || version == Some(1u32)) ==> {
            &&& name == "uuid"@ ==> generated(name, version, raw, uuid, now) == Ok::<JsonV, DiagnosticV>(
                JsonV::String(uuid),
            )
            &&& name == "now"@ && now >= 0 ==> generated(name, version, raw, uuid, now) == Ok::<JsonV, DiagnosticV>(
                JsonV::Number(NumV::Pos(now as u64)),
            )
            &&& name == "now"@ && now < 0 ==> generated(name, version, raw, uuid, now) == Ok::<JsonV, DiagnosticV>(
                JsonV::Number(NumV::Neg(now)),
            )
            &&& name != "uuid"@ && name != "now"@ ==> (generated(name, version, raw, uuid, now) matches Err(d) && d.code
                == Code::AssetNotFound && d.asset_ref == Some(raw))
        },
{
    reveal_strlit("uuid");
    reveal_strlit("now");
    assert("uuid"@.len() == 4 && "now"@.len() == 3);
}

/// Bindings that refer to each other in a circle have no values, and one error
/// that says so.
pub proof fn lemma_circle_binds_nothing(bindings: Seq<(Seq<char>, BindingV)>, inputs: InputsV, t: BoundV)
    requires
        may_resolve(bindings, inputs, t),
        dependency_order(dependencies(bindings)).len() != bindings.len(),
    ensures
        t.values.len() == 0,
        t.errors.len() == 1,
        t.errors[0].code == Code::BindingCycle,
        t.errors[0].severity == Severity::Error,
        t.secrets.len() == 0,
{
}

// ---------------------------------------------------------------------
// The names that a binding refers to
// ---------------------------------------------------------------------

proof fn lemma_name_end(s: Seq<char>, i: int, end: int)
    requires
        0 <= i <= end < s.len(),
        s[end] == '.' || s[end] == '}',
        forall|k: int| i <= k < end ==> #[trigger] s[k] != '.' && s[k] != '}',
    ensures
        super::order::name_end(s, i) == end,
    decreases end - i,
{
    if i < end {
        assert(s[i] != '.' && s[i] != '}');
        lemma_name_end(s, i + 1, end);
    }
}

proof fn lemma_name_is_found(s: Seq<char>, at: int, end: int, from: int)
    requires
        0 <= from <= at,
        occurs_at(s, "${bindings."@, at),
        at + 11 < end < s.len(),
        s[end] == '.' || s[end] == '}',
        forall|k: int| at + 11 <= k < end ==> #[trigger] s[k] != '.' && s[k] != '}',
    ensures
        names_in_text(s, from).contains(s.subrange(at + 11, end)),
    decreases at - from,
{
    reveal_strlit("${bindings.");
    lemma_first_at(s, "${bindings."@, from);
    let first = first_at(s, "${bindings."@, from)->Some_0;
    assert(first_at(s, "${bindings."@, from) is Some);
    assert(first <= at);
    let start = first + 11;
    let rest = names_in_text(s, start);
    let all = names_in_text(s, from);
    let wanted = s.subrange(at + 11, end);
    if first == at {
        lemma_name_end(s, start, end);
        assert(all == seq![wanted] + rest);
        assert(all[0] == wanted);
    } else {
        if at < start {
            let d = at - first;
            assert(s.subrange(at, at + 11)[0] == '$');
            assert(s.subrange(first, first + 11)[d] == s[at]);
            assert("${bindings."@[d] == '$');
        }
        lemma_name_is_found(s, at, end, start);
        let k = choose|k: int| 0 <= k < rest.len() && rest[k] == wanted;
        let stop = super::order::name_end(s, start);
        if stop > start {
            assert(all == seq![s.subrange(start, stop)] + rest);
            assert(all[k + 1] == wanted);
        } else {
            assert(all == rest);
        }
    }
}

/// A text refers to a binding wherever `${bindings.` and its name stand in it,
/// whatever stands before and behind.
pub proof fn lemma_text_refers_to_the_names_in_it(before: Seq<char>, name: Seq<char>, end: char, after: Seq<char>)
    requires
        name.len() > 0,
        !name.contains('.'),
        !name.contains('}'),
        end == '.' || end == '}',
    ensures
        names_in(JsonV::String(before + "${bindings."@ + name + seq![end] + after)).contains(name),
{
    reveal_strlit("${bindings.");
    let s = before + "${bindings."@ + name + seq![end] + after;
    let at = before.len() as int;
    let stop = at + 11 + name.len();
    assert(s.subrange(at, at + 11) =~= "${bindings."@);
    assert(s[stop] == end);
    assert forall|k: int| at + 11 <= k < stop implies #[trigger] s[k] != '.' && s[k] != '}' by {
        assert(s[k] == name[k - at - 11]);
        assert(name.contains(name[k - at - 11]));
    }
    lemma_name_is_found(s, at, stop, 0);
    assert(s.subrange(at + 11, stop) =~= name);
}

proof fn lemma_names_of_an_item(items: Seq<JsonV>, n: int, i: int, name: Seq<char>)
    requires
        0 <= i < n <= items.len(),
        names_in(items[i]).contains(name),
    ensures
        super::order::names_in_items(items, n).contains(name),
    decreases n,
{
    let before = super::order::names_in_items(items, n - 1);
    let here = names_in(items[n - 1]);
    let all = super::order::names_in_items(items, n);
    if i == n - 1 {
        let k = choose|k: int| 0 <= k < here.len() && here[k] == name;
        assert(all[before.len() + k] == name);
    } else {
        lemma_names_of_an_item(items, n - 1, i, name);
        let k = choose|k: int| 0 <= k < before.len() && before[k] == name;
        assert(all[k] == name);
    }
}

proof fn lemma_names_of_a_member(pairs: Seq<(Seq<char>, JsonV)>, n: int, i: int, name: Seq<char>)
    requires
        0 <= i < n <= pairs.len(),
        names_in(pairs[i].1).contains(name),
    ensures
        super::order::names_in_pairs(pairs, n).contains(name),
    decreases n,
{
    let before = super::order::names_in_pairs(pairs, n - 1);
    let here = names_in(pairs[n - 1].1);
    let all = super::order::names_in_pairs(pairs, n);
    if i == n - 1 {
        let k = choose|k: int| 0 <= k < here.len() && here[k] == name;
        assert(all[before.len() + k] == name);
    } else {
        lemma_names_of_a_member(pairs, n - 1, i, name);
        let k = choose|k: int| 0 <= k < before.len() && before[k] == name;
        assert(all[k] == name);
    }
}

/// A value refers to what its items and members refer to, however deep they
/// stand. A binding refers to what its value, or the input of its generator,
/// refers to; data that is loaded refers to nothing.
pub proof fn lemma_value_refers_to_the_names_in_it(
    items: Seq<JsonV>,
    pairs: Seq<(Seq<char>, JsonV)>,
    v: JsonV,
    uses: Seq<char>,
    i: int,
    name: Seq<char>,
)
    ensures
        0 <= i < items.len() && names_in(items[i]).contains(name) ==> names_in(JsonV::Array(items)).contains(name),
        0 <= i < pairs.len() && names_in(pairs[i].1).contains(name) ==> names_in(JsonV::Object(pairs)).contains(name),
        names_in(JsonV::Null).len() == 0,
        binding_names(BindingV::Value(v)) == names_in(v),
        binding_names(BindingV::Use { uses, with: v }) == names_in(v),
        binding_names(BindingV::Ref { reference: uses, patch: v }).len() == 0,
{
    if 0 <= i < items.len() && names_in(items[i]).contains(name) {
        lemma_names_of_an_item(items, items.len() as int, i, name);
    }
    if 0 <= i < pairs.len() && names_in(pairs[i].1).contains(name) {
        lemma_names_of_a_member(pairs, pairs.len() as int, i, name);
    }
}

// ---------------------------------------------------------------------
// The order of bindings
// ---------------------------------------------------------------------

/// A name is one of those that are to be ordered.
pub open spec fn is_named(deps: DepsV, name: Seq<char>) -> bool {
    exists|i: int| 0 <= i < deps.len() && (#[trigger] deps[i]).0 == name
}

/// A name can come next: it has not come yet, and all that it depends on has.
pub open spec fn can_come(deps: DepsV, done: Seq<Seq<char>>, i: int) -> bool {
    &&& !done.contains(deps[i].0)
    &&& forall|k: int|
        0 <= k < deps[i].1.len() && is_named(deps, #[trigger] deps[i].1[k]) ==> done.contains(deps[i].1[k])
}

proof fn lemma_ready_can_come(deps: DepsV, done: Seq<Seq<char>>, i: int)
    ensures
        super::order::is_ready(deps, done, i) == can_come(deps, done, i),
{
    assert forall|name: Seq<char>| #[trigger] super::order::is_known(deps, name) == is_named(deps, name) by {}
    if can_come(deps, done, i) {
        assert forall|k: int|
            0 <= k < deps[i].1.len() && super::order::is_known(deps, #[trigger] deps[i].1[k]) implies done.contains(
            deps[i].1[k],
        ) by {
            assert(is_named(deps, deps[i].1[k]));
        }
    }
    if super::order::is_ready(deps, done, i) {
        assert forall|k: int| 0 <= k < deps[i].1.len() && is_named(deps, #[trigger] deps[i].1[k]) implies done.contains(
            deps[i].1[k],
        ) by {
            assert(super::order::is_known(deps, deps[i].1[k]));
        }
    }
}

proof fn lemma_last(deps: DepsV, done: Seq<Seq<char>>, n: int)
    requires
        0 <= n <= deps.len(),
    ensures
        match super::order::last_ready(deps, done, n) {
            Some(i) => 0 <= i < n && can_come(deps, done, i) && forall|j: int| i < j < n ==> !can_come(deps, done, j),
            None => forall|j: int| 0 <= j < n ==> !can_come(deps, done, j),
        },
    decreases n,
{
    if n > 0 {
        lemma_ready_can_come(deps, done, n - 1);
        if !super::order::is_ready(deps, done, n - 1) {
            lemma_last(deps, done, n - 1);
        }
    }
}

proof fn lemma_order(deps: DepsV, done: Seq<Seq<char>>, steps: nat, k: int)
    ensures
        ({
            let order = super::order::order_after(deps, done, steps);
            &&& order.len() >= done.len()
            &&& order.take(done.len() as int) == done
            &&& done.len() <= k < order.len() ==> (super::order::last_ready(deps, order.take(k), deps.len() as int)
                matches Some(i) && 0 <= i < deps.len() && order[k] == deps[i].0)
        }),
    decreases steps,
{
    let order = super::order::order_after(deps, done, steps);
    let n = done.len() as int;
    assert(done.take(n) =~= done);
    if steps > 0 {
        lemma_last(deps, done, deps.len() as int);
        if let Some(i) = super::order::last_ready(deps, done, deps.len() as int) {
            let next = done.push(deps[i].0);
            lemma_order(deps, next, (steps - 1) as nat, k);
            assert(order.take(n + 1) == next);
            assert(order.take(n) =~= order.take(n + 1).take(n));
            assert(next.take(n) =~= done);
            assert(order[n] == order.take(n + 1)[n]);
        }
    }
}

/// At each place of the order stands a name of which everything that it depends
/// on has come before, and which has not come before itself; of several such
/// names it is the last.
pub proof fn lemma_dependencies_come_before(deps: DepsV, k: int)
    requires
        0 <= k < dependency_order(deps).len(),
    ensures
        exists|i: int|
            {
                &&& 0 <= i < deps.len()
                &&& (#[trigger] deps[i]).0 == dependency_order(deps)[k]
                &&& can_come(deps, dependency_order(deps).take(k), i)
                &&& forall|j: int| i < j < deps.len() ==> !can_come(deps, dependency_order(deps).take(k), j)
            },
{
    let order = dependency_order(deps);
    lemma_order(deps, seq![], deps.len(), k);
    lemma_last(deps, order.take(k), deps.len() as int);
    let i = super::order::last_ready(deps, order.take(k), deps.len() as int)->Some_0;
    assert(deps[i].0 == order[k]);
}

/// The names that are not done, in their order.
pub proof fn lemma_names_left_over(deps: DepsV, done: Seq<Seq<char>>)
    ensures
        picks(
            deps,
            |d: (Seq<char>, Seq<Seq<char>>)| !done.contains(d.0),
            |d: (Seq<char>, Seq<Seq<char>>), name: Seq<char>| d.0 == name,
            super::order::not_done(deps, done, deps.len() as int),
        ),
{
    lemma_left_prefix(deps, done, deps.len() as int);
    assert(deps.take(deps.len() as int) =~= deps);
}

proof fn lemma_left_prefix(deps: DepsV, done: Seq<Seq<char>>, n: int)
    requires
        0 <= n <= deps.len(),
    ensures
        picks(
            deps.take(n),
            |d: (Seq<char>, Seq<Seq<char>>)| !done.contains(d.0),
            |d: (Seq<char>, Seq<Seq<char>>), name: Seq<char>| d.0 == name,
            super::order::not_done(deps, done, n),
        ),
    decreases n,
{
    let keep = |d: (Seq<char>, Seq<Seq<char>>)| !done.contains(d.0);
    let fits = |d: (Seq<char>, Seq<Seq<char>>), name: Seq<char>| d.0 == name;
    if n == 0 {
        lemma_picks_none(deps.take(0), keep, fits, super::order::not_done(deps, done, 0));
    } else {
        lemma_left_prefix(deps, done, n - 1);
        assert(deps.take(n).drop_last() =~= deps.take(n - 1));
        assert(deps.take(n).last() == deps[n - 1]);
        let before = super::order::not_done(deps, done, n - 1);
        let after = super::order::not_done(deps, done, n);
        if keep(deps[n - 1]) {
            assert(after.drop_last() =~= before);
        }
        lemma_picks_more(deps.take(n), keep, fits, before, after);
    }
}

// ---------------------------------------------------------------------
// The matrix
// ---------------------------------------------------------------------

proof fn lemma_cases_of(case: Seq<(Seq<char>, JsonV)>, list: ListV, n: int)
    requires
        0 <= n <= list.1.len(),
    ensures
        super::matrix::cases_of(case, list, n).len() == n,
        forall|j: int|
            0 <= j < n ==> #[trigger] super::matrix::cases_of(case, list, n)[j] == put(case, list.0, list.1[j]),
    decreases n,
{
    if n > 0 {
        lemma_cases_of(case, list, n - 1);
    }
}

proof fn lemma_widened(cases: Seq<Seq<(Seq<char>, JsonV)>>, list: ListV, n: int, i: int, j: int)
    requires
        0 <= i < n <= cases.len(),
        0 <= j < list.1.len(),
    ensures
        super::matrix::widened(cases, list, n).len() == n * list.1.len(),
        i * list.1.len() + j < n * list.1.len(),
        super::matrix::widened(cases, list, n)[i * list.1.len() + j] == put(cases[i], list.0, list.1[j]),
    decreases n,
{
    let m = list.1.len() as int;
    lemma_widened_length(cases, list, n - 1);
    lemma_widened_length(cases, list, n);
    lemma_cases_of(cases[n - 1], list, m);
    assert(i * m + j < n * m) by (nonlinear_arith)
        requires
            0 <= i < n,
            0 <= j < m,
    ;
    if i == n - 1 {
    } else {
        lemma_widened(cases, list, n - 1, i, j);
        assert(0 <= i * m + j) by (nonlinear_arith)
            requires
                0 <= i,
                0 <= j,
                0 <= m,
        ;
    }
}

proof fn lemma_widened_length(cases: Seq<Seq<(Seq<char>, JsonV)>>, list: ListV, n: int)
    requires
        0 <= n <= cases.len(),
    ensures
        super::matrix::widened(cases, list, n).len() == n * list.1.len(),
    decreases n,
{
    let m = list.1.len() as int;
    if n > 0 {
        lemma_widened_length(cases, list, n - 1);
        lemma_cases_of(cases[n - 1], list, m);
        assert((n - 1) * m + m == n * m) by (nonlinear_arith);
    } else {
        assert(0 * m == 0);
    }
}

/// One list more makes every case into as many as the list has values, in the
/// order of the values: the last list changes fastest. Each case has the value
/// of each list under its name.
pub proof fn lemma_last_list_changes_fastest(lists: Seq<ListV>, list: ListV, i: int, j: int)
    requires
        0 <= i < combinations(lists, lists.len() as int).len(),
        0 <= j < list.1.len(),
    ensures
        ({
            let n = lists.len() as int;
            let before = combinations(lists, n);
            let after = combinations(lists.push(list), n + 1);
            let case = after[i * list.1.len() + j];
            &&& combinations(seq![], 0).len() == 1 && combinations(seq![], 0)[0].len() == 0
            &&& after.len() == before.len() * list.1.len()
            &&& lookup(case, list.0) == Some(list.1[j])
            &&& forall|name: Seq<char>| name != list.0 ==> lookup(case, name) == #[trigger] lookup(before[i], name)
        }),
{
    let n = lists.len() as int;
    let before = combinations(lists, n);
    lemma_combinations_prefix(lists, list, n);
    lemma_widened(before, list, before.len() as int, i, j);
    let case = put(before[i], list.0, list.1[j]);
    lemma_put_is_read_back(before[i], list.0, list.1[j]);
    assert forall|name: Seq<char>| name != list.0 implies lookup(case, name) == #[trigger] lookup(before[i], name) by {
        lemma_put_leaves_others(before[i], list.0, list.1[j], name);
    }
}

proof fn lemma_combinations_prefix(lists: Seq<ListV>, list: ListV, n: int)
    requires
        0 <= n <= lists.len(),
    ensures
        combinations(lists.push(list), n) == combinations(lists, n),
    decreases n,
{
    if n > 0 {
        lemma_combinations_prefix(lists, list, n - 1);
    }
}

/// A matrix without lists has one case, which is null; one with lists has a case
/// for each combination. A list that is no array, or that failed, is an error at
/// its place, and with an error there are no cases.
pub proof fn lemma_matrix_has_its_cases(t: ListsV, name: Seq<char>, outcome: Result<JsonV, DiagnosticV>)
    ensures
        t.errors.len() > 0 ==> cases_or_errors(t) == Err::<Seq<JsonV>, Seq<DiagnosticV>>(t.errors),
        t.errors.len() == 0 ==> (cases_or_errors(t) matches Ok(cases) && {
            &&& t.lists.len() == 0 ==> cases == seq![JsonV::Null]
            &&& t.lists.len() > 0 ==> {
                let all = combinations(t.lists, t.lists.len() as int);
                cases.len() == all.len() && forall|i: int|
                    0 <= i < all.len() ==> #[trigger] cases[i] == JsonV::Object(all[i])
            }
        }),
        outcome matches Ok(JsonV::Array(items)) ==> listed(t, name, outcome).lists == t.lists.push((name, items)) && listed(
            t,
            name,
            outcome,
        ).errors == t.errors,
        outcome matches Ok(v) ==> (!(v is Array) ==> listed(t, name, outcome).lists == t.lists && listed(
            t,
            name,
            outcome,
        ).errors.len() == t.errors.len() + 1 && listed(t, name, outcome).errors.last().code == Code::InvalidAssetInput
            && listed(t, name, outcome).errors.last().instance_path == Some("/matrix/"@ + name)),
        outcome matches Err(d) ==> listed(t, name, outcome).lists == t.lists && listed(t, name, outcome).errors
            == t.errors.push(DiagnosticV { instance_path: Some("/matrix/"@ + name), ..d }),
{
}

// ---------------------------------------------------------------------
// References
// ---------------------------------------------------------------------

/// A reference without a scheme is a file, from the directory of the request.
/// One of the project is found among its aliases, from the root of the project;
/// one that is not among them is unknown.
pub proof fn lemma_reference_is_of_its_scheme(
    raw: Seq<char>,
    aliases: Seq<(Seq<char>, Seq<char>)>,
    root: Seq<char>,
    base_dir: Seq<char>,
)
    requires
        !raw.contains('#'),
    ensures
        ({
            let r = resolved_reference(raw, aliases, root, base_dir);
            let builtin = crate::text::has_prefix(raw, "builtin:"@);
            let data = crate::text::has_prefix(raw, "data:"@);
            let project = crate::text::has_prefix(raw, "project:"@);
            &&& !builtin && !data && !project ==> (r matches Ok(a) && a.scheme == RefScheme::File && a.address
                == crate::runner::resolve::joined_path(base_dir, raw) && a.raw == raw && a.pointer is None && a.version
                is None)
            &&& (data || project) ==> match lookup(aliases, raw) {
                Some(path) => r matches Ok(a) && a.scheme == (if data {
                    RefScheme::Data
                } else {
                    RefScheme::Project
                }) && a.address == crate::runner::resolve::joined_path(root, path) && a.raw == raw && a.pointer is None,
                None => r matches Err(d) && d.code == Code::InvalidAlias && d.severity == Severity::Error && d.asset_ref
                    == Some(raw),
            }
            &&& builtin ==> (r matches Ok(a) ==> a.scheme == RefScheme::Builtin && a.raw == raw && a.pointer is None)
        }),
{
    reveal_strlit("#");
    reveal_strlit("builtin:");
    reveal_strlit("data:");
    reveal_strlit("project:");
    lemma_first_at(raw, "#"@, 0);
    if let Some(i) = first_at(raw, "#"@, 0) {
        assert(raw.subrange(i, i + 1)[0] == '#');
        assert(raw.contains(raw[i]));
    }
    if crate::text::has_prefix(raw, "builtin:"@) {
        assert(raw.subrange(0, 8)[0] == 'b');
        if crate::text::has_prefix(raw, "data:"@) {
            assert(raw.subrange(0, 5)[0] == 'd');
        }
        if crate::text::has_prefix(raw, "project:"@) {
            assert(raw.subrange(0, 8)[0] == 'p');
        }
    }
}

/// The data of a reference is its file as JSON, and in it what its pointer leads
/// to. A file that cannot be read, that is no JSON, or in which the pointer leads
/// nowhere, is an error of its own kind.
pub proof fn lemma_data_is_what_the_file_holds(
    raw: Seq<char>,
    pointer: Option<Seq<char>>,
    file: Result<Seq<char>, Seq<char>>,
)
    ensures
        ({
            let r = data_at(raw, pointer, file);
            &&& file is Err ==> (r matches Err(d) && d.code == Code::AssetNotFound)
            &&& file matches Ok(text) ==> {
                &&& json_parse(text) is Err ==> (r matches Err(d) && d.code == Code::InvalidAssetInput)
                &&& json_parse(text) matches Ok(v) ==> {
                    &&& pointer is None ==> r == Ok::<JsonV, DiagnosticV>(v)
                    &&& pointer matches Some(p) ==> match at_pointer(v, p) {
                        Some(found) => r == Ok::<JsonV, DiagnosticV>(found),
                        None => r matches Err(d) && d.code == Code::InvalidPointer,
                    }
                }
            }
            &&& r matches Err(d) ==> d.severity == Severity::Error && d.asset_ref == Some(raw)
        }),
{
}

/// An environment is an empty object where none is named, else what its file
/// holds. A name that could lead out of the directory is refused, whatever the
/// file.
pub proof fn lemma_environment_is_what_its_file_holds(name: Option<Seq<char>>, file: Result<Seq<char>, Seq<char>>)
    ensures
        name is None ==> environment(name, file) == Ok::<JsonV, DiagnosticV>(JsonV::Object(seq![])),
        name matches Some(n) ==> {
            let refused = n.len() == 0 || n.contains('/') || n.contains('\\') || n == "."@ || n == ".."@;
            &&& refused ==> (environment(name, file) matches Err(d) && d.code == Code::InvalidAssetInput)
            &&& !refused ==> {
                &&& file is Err ==> (environment(name, file) matches Err(d) && d.code == Code::AssetNotFound)
                &&& file matches Ok(text) ==> match json_parse(text) {
                    Ok(v) => environment(name, file) == Ok::<JsonV, DiagnosticV>(v),
                    Err(_) => environment(name, file) matches Err(d) && d.code == Code::InvalidAssetInput,
                }
            }
        },
        environment(name, file) matches Err(d) ==> d.severity == Severity::Error,
{
}

} // verus!
