//! What holds of a document in its project: which files it needs, what is loaded
//! for it, in which order its bindings and lists are resolved, and when two
//! values are the same.

use vstd::prelude::*;

use crate::json::{canonical, same_value, JsonV, NumV};
use crate::map::{lemma_put_is_read_back, lemma_put_leaves_others, lookup};

use super::builder::{
    assembled, bindings_reach, bound, dependencies, may_bind, may_resolve, BoundV, InputsV,
};
use super::diag::{Code, DiagnosticV, Severity};
use super::ir::{RefScheme, RequestV};
use super::jshost::{failure_words, script_at, FailureV, ScriptV};
use super::matrix::{list_link, listed, lists_reach, ListsV};
use super::model::{BindingV, BodySpecV, DocumentV, MockDefV};
use super::order::dependency_order;
use super::refs::{binding_refs, data_at, document_refs, resolved_reference};
use super::runner::{auth_notes, failed_result, RunStatus};
use super::validate::{data_among, inputs_for, may_validate, paths_among, ProjectV};
use super::vars::Filled;

verus! {

broadcast use vstd::string::group_string_axioms;

// ---------------------------------------------------------------------
// Files
// ---------------------------------------------------------------------

/// What a file was found to hold.
pub open spec fn text_in_file(file: ScriptV) -> Result<Seq<char>, Seq<char>> {
    match file {
        ScriptV::Source(s) => Ok(s),
        ScriptV::Unreadable(e) => Err(e),
    }
}

proof fn lemma_data(refs: Seq<Seq<char>>, project: ProjectV, base_dir: Seq<char>, n: int, i: int)
    requires
        0 <= i < n <= refs.len(),
    ensures
        resolved_reference(refs[i], project.aliases, project.root, base_dir) matches Ok(a) ==> (a.scheme
            != RefScheme::Builtin ==> lookup(data_among(refs, project, base_dir, n), refs[i]) == Some(
            data_at(refs[i], a.pointer, text_in_file(script_at(project.files, a.address))),
        )),
    decreases n,
{
    let before = data_among(refs, project, base_dir, n - 1);
    let raw = refs[n - 1];
    if let Ok(a) = resolved_reference(raw, project.aliases, project.root, base_dir) {
        if a.scheme != RefScheme::Builtin {
            let value = data_at(raw, a.pointer, text_in_file(script_at(project.files, a.address)));
            lemma_put_is_read_back(before, raw, value);
            if refs[i] != raw {
                lemma_put_leaves_others(before, raw, value, refs[i]);
            }
        }
    }
    if i < n - 1 {
        lemma_data(refs, project, base_dir, n - 1, i);
    }
}

/// For every reference of a document that leads to a file, what the file holds is
/// at hand; the scripts are the files of the project, and the rest is what the
/// run brings.
pub proof fn lemma_every_file_is_loaded(
    doc: DocumentV,
    project: ProjectV,
    base_dir: Seq<char>,
    env: JsonV,
    matrix: JsonV,
    runtime: JsonV,
    i: int,
)
    requires
        0 <= i < document_refs(doc).len(),
    ensures
        ({
            let raw = document_refs(doc)[i];
            let inputs = inputs_for(doc, project, base_dir, env, matrix, runtime);
            &&& resolved_reference(raw, project.aliases, project.root, base_dir) matches Ok(a) ==> (a.scheme
                != RefScheme::Builtin ==> lookup(inputs.data, raw) == Some(
                data_at(raw, a.pointer, text_in_file(script_at(project.files, a.address))),
            ))
            &&& inputs.scripts == project.files
            &&& inputs.env == env && inputs.matrix == matrix && inputs.runtime == runtime
            &&& inputs.secrets == project.secrets && inputs.placeholder == project.placeholder
        }),
{
    let refs = document_refs(doc);
    lemma_data(refs, project, base_dir, refs.len() as int, i);
}

proof fn lemma_paths(
    refs: Seq<Seq<char>>,
    aliases: Seq<(Seq<char>, Seq<char>)>,
    root: Seq<char>,
    base_dir: Seq<char>,
    n: int,
    i: int,
)
    requires
        0 <= i < n <= refs.len(),
    ensures
        resolved_reference(refs[i], aliases, root, base_dir) matches Ok(a) ==> (a.scheme != RefScheme::Builtin
            ==> paths_among(refs, aliases, root, base_dir, n).contains(a.address)),
    decreases n,
{
    let before = paths_among(refs, aliases, root, base_dir, n - 1);
    let after = paths_among(refs, aliases, root, base_dir, n);
    if let Ok(a) = resolved_reference(refs[i], aliases, root, base_dir) {
        if a.scheme != RefScheme::Builtin {
            if i == n - 1 {
                assert(after[before.len() as int] == a.address);
            } else {
                lemma_paths(refs, aliases, root, base_dir, n - 1, i);
                let k = choose|k: int| 0 <= k < before.len() && before[k] == a.address;
                assert(after[k] == a.address);
            }
        }
    }
}

/// Every file that a reference leads to is among those that are needed.
pub proof fn lemma_every_file_is_needed(
    refs: Seq<Seq<char>>,
    aliases: Seq<(Seq<char>, Seq<char>)>,
    root: Seq<char>,
    base_dir: Seq<char>,
    i: int,
)
    requires
        0 <= i < refs.len(),
    ensures
        resolved_reference(refs[i], aliases, root, base_dir) matches Ok(a) ==> (a.scheme != RefScheme::Builtin
            ==> paths_among(refs, aliases, root, base_dir, refs.len() as int).contains(a.address)),
{
    lemma_paths(refs, aliases, root, base_dir, refs.len() as int, i);
}

/// A validation resolves the bindings and builds the request from them.
pub proof fn lemma_validation_builds_on_the_bindings(
    doc: DocumentV,
    inputs: InputsV,
    outcome: Result<RequestV, Seq<DiagnosticV>>,
)
    requires
        may_validate(doc, inputs, outcome),
    ensures
        exists|b: BoundV| may_resolve(doc.bindings, inputs, b) && #[trigger] assembled(doc, inputs, b) == outcome,
{
    let b = choose|b: BoundV| #[trigger] may_resolve(doc.bindings, inputs, b) && assembled(doc, inputs, b) == outcome;
    assert(assembled(doc, inputs, b) == outcome);
}

proof fn lemma_binding_ref(bindings: Seq<(Seq<char>, BindingV)>, n: int, i: int)
    requires
        0 <= i < n <= bindings.len(),
    ensures
        bindings[i].1 matches BindingV::Ref { reference, .. } ==> binding_refs(bindings, n).contains(reference),
        bindings[i].1 matches BindingV::Use { uses, .. } ==> binding_refs(bindings, n).contains(uses),
    decreases n,
{
    let before = binding_refs(bindings, n - 1);
    let after = binding_refs(bindings, n);
    if i == n - 1 {
        if !(bindings[i].1 is Value) {
            assert(after[before.len() as int] == after.last());
        }
    } else {
        lemma_binding_ref(bindings, n - 1, i);
        assert forall|x: Seq<char>| before.contains(x) implies #[trigger] after.contains(x) by {
            let k = choose|k: int| 0 <= k < before.len() && before[k] == x;
            assert(after[k] == x);
        }
    }
}

proof fn lemma_in_five<A>(x: A, a: Seq<A>, b: Seq<A>, c: Seq<A>, d: Seq<A>, e: Seq<A>)
    ensures
        a.contains(x) || b.contains(x) || c.contains(x) || d.contains(x) || e.contains(x) ==> (a + b + c + d + e).contains(x),
{
    let all = a + b + c + d + e;
    if a.contains(x) {
        let k = choose|k: int| 0 <= k < a.len() && a[k] == x;
        assert(all[k] == x);
    }
    if b.contains(x) {
        let k = choose|k: int| 0 <= k < b.len() && b[k] == x;
        assert(all[a.len() + k] == x);
    }
    if c.contains(x) {
        let k = choose|k: int| 0 <= k < c.len() && c[k] == x;
        assert(all[a.len() + b.len() + k] == x);
    }
    if d.contains(x) {
        let k = choose|k: int| 0 <= k < d.len() && d[k] == x;
        assert(all[a.len() + b.len() + c.len() + k] == x);
    }
    if e.contains(x) {
        let k = choose|k: int| 0 <= k < e.len() && e[k] == x;
        assert(all[a.len() + b.len() + c.len() + d.len() + k] == x);
    }
}

/// Whatever a document refers to is among its references: the data and
/// generators of its bindings and of its matrix, the data of its body, the assets
/// of its pipeline, and the asset or the data of its mock.
pub proof fn lemma_references_are_those_of_the_document(doc: DocumentV, i: int)
    ensures
        ({
            let refs = document_refs(doc);
            &&& 0 <= i < doc.bindings.len() ==> (doc.bindings[i].1 matches BindingV::Ref { reference, .. }
                ==> refs.contains(reference)) && (doc.bindings[i].1 matches BindingV::Use { uses, .. } ==> refs.contains(
                uses,
            ))
            &&& 0 <= i < doc.matrix.len() ==> (doc.matrix[i].1 matches BindingV::Ref { reference, .. } ==> refs.contains(
                reference,
            )) && (doc.matrix[i].1 matches BindingV::Use { uses, .. } ==> refs.contains(uses))
            &&& doc.request.body matches Some(BodySpecV::Ref { reference, .. }) ==> refs.contains(reference)
            &&& 0 <= i < doc.pipeline.len() ==> refs.contains(doc.pipeline[i].uses)
            &&& doc.mock matches Some(MockDefV::Dynamic { uses, .. }) ==> refs.contains(uses)
            &&& doc.mock matches Some(MockDefV::Static { body: Some(BodySpecV::Ref { reference, .. }), .. })
                ==> refs.contains(reference)
        }),
{
    let a = binding_refs(doc.bindings, doc.bindings.len() as int);
    let b = binding_refs(doc.matrix, doc.matrix.len() as int);
    let c = super::refs::body_refs(doc.request.body);
    let d = super::refs::pipeline_refs(doc.pipeline);
    let e = super::refs::mock_refs(doc.mock);
    assert forall|x: Seq<char>| a.contains(x) || b.contains(x) || c.contains(x) || d.contains(x) || e.contains(
        x,
    ) implies #[trigger] document_refs(doc).contains(x) by {
        lemma_in_five(x, a, b, c, d, e);
    }
    if 0 <= i < doc.bindings.len() {
        lemma_binding_ref(doc.bindings, doc.bindings.len() as int, i);
    }
    if 0 <= i < doc.matrix.len() {
        lemma_binding_ref(doc.matrix, doc.matrix.len() as int, i);
    }
    if let Some(BodySpecV::Ref { reference, .. }) = doc.request.body {
        assert(c[0] == reference);
    }
    if 0 <= i < doc.pipeline.len() {
        assert(d[i] == doc.pipeline[i].uses);
    }
    if let Some(MockDefV::Dynamic { uses, .. }) = doc.mock {
        assert(e[0] == uses);
    }
    if let Some(MockDefV::Static { body: Some(BodySpecV::Ref { reference, .. }), .. }) = doc.mock {
        assert(e[0] == reference);
    }
}

/// What stands behind the first `#` of a reference is a pointer into the data; it
/// changes nothing of where the reference leads.
pub proof fn lemma_pointer_stands_behind_the_reference(
    name: Seq<char>,
    pointer: Seq<char>,
    aliases: Seq<(Seq<char>, Seq<char>)>,
    root: Seq<char>,
    base_dir: Seq<char>,
)
    requires
        !name.contains('#'),
    ensures
        match resolved_reference(name, aliases, root, base_dir) {
            Ok(plain) => resolved_reference(name + "#"@ + pointer, aliases, root, base_dir) matches Ok(a) && a.scheme
                == plain.scheme && a.address == plain.address && a.version == plain.version && a.pointer == Some(pointer)
                && a.raw == name + "#"@ + pointer && plain.pointer is None,
            Err(d) => resolved_reference(name + "#"@ + pointer, aliases, root, base_dir) matches Err(e) && e.code == d.code,
        },
{
    reveal_strlit("#");
    let raw = name + "#"@ + pointer;
    let n = name.len() as int;
    assert(raw.subrange(n, n + 1) =~= "#"@);
    assert forall|k: int| 0 <= k < n implies !#[trigger] crate::text::occurs_at(raw, "#"@, k) by {
        if crate::text::occurs_at(raw, "#"@, k) {
            assert(raw.subrange(k, k + 1)[0] == '#');
            assert(name.contains(name[k]));
        }
    }
    crate::filling_laws::lemma_first_is(raw, "#"@, n, 0);
    assert(raw.take(n) =~= name);
    assert(raw.skip(n + 1) =~= pointer);
    crate::text::lemma_first_at(name, "#"@, 0);
    if let Some(k) = crate::text::first_at(name, "#"@, 0) {
        assert(name.subrange(k, k + 1)[0] == '#');
        assert(name.contains(name[k]));
    }
}

// ---------------------------------------------------------------------
// The order of resolution
// ---------------------------------------------------------------------

/// Bindings are resolved one after the other, each from what was bound before
/// it; a name without a binding changes nothing.
pub proof fn lemma_bindings_build_on_each_other(
    bindings: Seq<(Seq<char>, BindingV)>,
    inputs: InputsV,
    order: Seq<Seq<char>>,
    n: nat,
    t: BoundV,
)
    requires
        bindings_reach(bindings, inputs, order, n + 1, t),
    ensures
        exists|s: BoundV| #[trigger]
            bindings_reach(bindings, inputs, order, n, s) && match lookup(bindings, order[n as int]) {
                None => t == s,
                Some(b) => exists|f: Filled<JsonV>|
                    may_bind(b, inputs, JsonV::Object(s.values), f) && t == #[trigger] bound(s, order[n as int], f),
            },
{
    let m = (n + 1) as nat;
    let s = choose|s: BoundV|
        bindings_reach(bindings, inputs, order, (m - 1) as nat, s) && #[trigger] super::builder::bind_link(
            bindings,
            inputs,
            order[m - 1],
            s,
            t,
        );
    assert((m - 1) as nat == n);
    assert(bindings_reach(bindings, inputs, order, n, s));
}

/// Before the first binding nothing is bound. Bindings without a circle are all
/// resolved, in an order in which each comes after those that it refers to.
pub proof fn lemma_all_bindings_are_resolved(bindings: Seq<(Seq<char>, BindingV)>, inputs: InputsV, order: Seq<Seq<char>>, t: BoundV)
    ensures
        bindings_reach(bindings, inputs, order, 0, t) <==> t.values.len() == 0 && t.errors.len() == 0 && t.secrets.len()
            == 0,
        dependency_order(dependencies(bindings)).len() == bindings.len() ==> (may_resolve(bindings, inputs, t)
            <==> bindings_reach(
            bindings,
            inputs,
            dependency_order(dependencies(bindings)),
            bindings.len(),
            t,
        )),
        dependencies(bindings).len() == bindings.len(),
        forall|i: int|
            0 <= i < bindings.len() ==> (#[trigger] dependencies(bindings)[i]).0 == bindings[i].0 && dependencies(
                bindings,
            )[i].1 == super::order::binding_names(bindings[i].1),
{
    if t.values.len() == 0 && t.errors.len() == 0 && t.secrets.len() == 0 {
        assert(t.values =~= Seq::empty());
        assert(t.errors =~= Seq::empty());
        assert(t.secrets =~= Seq::empty());
    }
}

/// The lists of a matrix are resolved in their order, and none of them sees a
/// binding.
pub proof fn lemma_lists_see_no_bindings(
    matrix: Seq<(Seq<char>, BindingV)>,
    inputs: InputsV,
    n: nat,
    t: ListsV,
)
    requires
        lists_reach(matrix, inputs, n + 1, t),
    ensures
        exists|s: ListsV, f: Filled<JsonV>|
            {
                &&& lists_reach(matrix, inputs, n, s)
                &&& may_bind(matrix[n as int].1, inputs, JsonV::Object(seq![]), f)
                &&& t == #[trigger] listed(s, matrix[n as int].0, f.outcome)
            },
{
    let m = (n + 1) as nat;
    let s = choose|s: ListsV|
        lists_reach(matrix, inputs, (m - 1) as nat, s) && #[trigger] list_link(matrix[m - 1], inputs, s, t);
    assert((m - 1) as nat == n);
    let f = choose|f: Filled<JsonV>|
        may_bind(matrix[n as int].1, inputs, JsonV::Object(seq![]), f) && t == #[trigger] listed(
            s,
            matrix[n as int].0,
            f.outcome,
        );
    assert(t == listed(s, matrix[n as int].0, f.outcome));
}

// ---------------------------------------------------------------------
// Results and failures
// ---------------------------------------------------------------------

/// A run that ended before it had begun is an error, with its diagnostics and
/// nothing else. A token that was fetched is noted, one that was kept is not.
pub proof fn lemma_run_that_did_not_begin(id: Seq<char>, diagnostics: Seq<DiagnosticV>, duration_ms: u64)
    ensures
        ({
            let r = failed_result(id, diagnostics, duration_ms);
            &&& r.request_id == id && r.status == RunStatus::Error && r.diagnostics == diagnostics && r.duration_ms
                == duration_ms
            &&& r.http is None && r.assertions.len() == 0 && r.runtime.len() == 0
        }),
        auth_notes(false).len() == 0,
        auth_notes(true).len() == 1 && auth_notes(true)[0].code == Code::AuthRefresh && auth_notes(true)[0].severity
            == Severity::Info,
{
}

/// What a script threw is told by its message, and by how it shows where it has
/// none.
pub proof fn lemma_thrown_message_is_told(message: Seq<char>, shown: Seq<char>)
    ensures
        failure_words(FailureV::Thrown(Some(message), shown)) == message,
        failure_words(FailureV::Thrown(None, shown)) == shown,
        failure_words(FailureV::Refused(shown)) == shown,
        failure_words(FailureV::NoRuntime(shown)) == "QuickJS start: "@ + shown,
        failure_words(FailureV::NoContext(shown)) == "QuickJS context: "@ + shown,
{
}

// ---------------------------------------------------------------------
// Values
// ---------------------------------------------------------------------

/// Two values are the same where they are of one kind and the same part by part:
/// texts, truth values and whole numbers equal, lists item by item, objects
/// member by member.
pub proof fn lemma_same_values_are_the_same_part_by_part(a: JsonV, b: JsonV)
    ensures
        same_value(JsonV::Null, JsonV::Null),
        a is Null ==> (same_value(a, b) <==> b is Null),
        a is Bool ==> (same_value(a, b) <==> a == b),
        a is String ==> (same_value(a, b) <==> a == b),
        a matches JsonV::Number(NumV::Pos(n)) ==> (same_value(a, b) <==> b == JsonV::Number(NumV::Pos(n))),
        a matches JsonV::Number(NumV::Neg(n)) ==> (same_value(a, b) <==> b == JsonV::Number(NumV::Neg(n))),
        a matches JsonV::Number(NumV::Float(s)) ==> (b == a ==> same_value(a, b)),
        a matches JsonV::Array(x) ==> (same_value(a, b) <==> (b matches JsonV::Array(y) && x.len() == y.len() && forall|
            i: int,
        | 0 <= i < x.len() ==> same_value(#[trigger] x[i], y[i]))),
        a matches JsonV::Object(x) ==> (same_value(a, b) <==> (b matches JsonV::Object(y) && x.len() == y.len() && forall|
            i: int,
        | 0 <= i < x.len() ==> (#[trigger] x[i]).0 == y[i].0 && same_value(x[i].1, y[i].1))),
{
}

/// A value as it is held: texts, truth values and null stay, whole numbers keep
/// their value, lists keep their items in order.
pub proof fn lemma_held_value_is_the_value(v: JsonV)
    ensures
        v is Null || v is Bool || v is String ==> canonical(v) == v,
        v matches JsonV::Number(NumV::Pos(n)) ==> canonical(v) == v,
        v matches JsonV::Number(NumV::Neg(n)) ==> (n < 0 ==> canonical(v) == v) && (n >= 0 ==> canonical(v)
            == JsonV::Number(NumV::Pos(n as u64))),
        v matches JsonV::Array(items) ==> (canonical(v) matches JsonV::Array(list) && list.len() == items.len() && forall|i:
            int| 0 <= i < items.len() ==> #[trigger] list[i] == canonical(items[i])),
        v is Object ==> canonical(v) is Object,
{
}

} // verus!
