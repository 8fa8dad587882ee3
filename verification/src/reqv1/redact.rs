//! Masking of everything that leaves the runner.

use vstd::prelude::*;

use crate::json::{Json, JsonV};
use crate::map::{lemma_put_all_members, pairs_view, put_all, put_in, TextMap};
use crate::mask::{lemma_masked_hides, masked, star_free};
use crate::reqv1::diag::{Diagnostic, DiagnosticV};
use crate::reqv1::ir::ResolvedRequest;
use crate::reqv1::pipeline::{AssertionResult, AssertionV};
use crate::text::occurs;
use crate::view::{opt_view, views};

verus! {

broadcast use vstd::string::group_string_axioms;

// ---------------------------------------------------------------------
// JSON values
// ---------------------------------------------------------------------

/// `v` with every text and every key in it masked. Where two keys become one,
/// the later value stays.
pub open spec fn masked_json(secrets: Seq<Seq<char>>, v: JsonV) -> JsonV
    decreases v,
{
    match v {
        JsonV::String(s) => JsonV::String(masked(secrets, s)),
        JsonV::Array(items) => JsonV::Array(masked_items(secrets, items)),
        JsonV::Object(pairs) => JsonV::Object(put_all(Seq::empty(), masked_pairs(secrets, pairs))),
        _ => v,
    }
}

/// Each item masked.
pub open spec fn masked_items(secrets: Seq<Seq<char>>, items: Seq<JsonV>) -> Seq<JsonV>
    decreases items,
{
    Seq::new(
        items.len(),
        |i: int|
            if 0 <= i < items.len() {
                masked_json(secrets, items[i])
            } else {
                JsonV::Null
            },
    )
}

/// Each key and value masked.
pub open spec fn masked_pairs(secrets: Seq<Seq<char>>, pairs: Seq<(Seq<char>, JsonV)>) -> Seq<(Seq<char>, JsonV)>
    decreases pairs,
{
    Seq::new(
        pairs.len(),
        |i: int|
            if 0 <= i < pairs.len() {
                (masked(secrets, pairs[i].0), masked_json(secrets, pairs[i].1))
            } else {
                (Seq::empty(), JsonV::Null)
            },
    )
}

/// `v` with every text and every key in it masked.
pub fn mask_value(ir: &ResolvedRequest, v: &Json) -> (r: Json)
    ensures
        r@ == masked_json(ir@.secret_values, v@),
    decreases v,
{
    broadcast use crate::json::lemma_json_view;

    match v {
        Json::Null => Json::Null,
        Json::Bool(b) => Json::Bool(*b),
        Json::Number(n) => Json::Number(n.copy()),
        Json::String(s) => Json::String(ir.mask(s.as_str())),
        Json::Array(items) => {
            let mut out: Vec<Json> = Vec::new();
            let mut i: usize = 0;
            while i < items.len()
                invariant
                    i <= items.len(),
                    *v == Json::Array(*items),
                    out.len() == i,
                    forall|k: int|
                        0 <= k < i ==> (#[trigger] out@[k])@ == masked_json(ir@.secret_values, items@[k]@),
                decreases items.len() - i,
            {
                proof {
                    crate::json::lemma_item_decreases(*v, i as int);
                }
                out.push(mask_value(ir, &items[i]));
                i += 1;
            }
            assert(views(out@) =~= masked_items(ir@.secret_values, views(items@)));
            Json::Array(out)
        },
        Json::Object(pairs) => {
            let ghost secrets = ir@.secret_values;
            let ghost all = masked_pairs(secrets, pairs_view(pairs@));
            let mut out: Vec<(String, Json)> = Vec::new();
            let mut i: usize = 0;
            assert(all.take(0) =~= Seq::empty());
            assert(pairs_view(out@) =~= Seq::empty());
            while i < pairs.len()
                invariant
                    i <= pairs.len(),
                    *v == Json::Object(*pairs),
                    secrets == ir@.secret_values,
                    all == masked_pairs(secrets, pairs_view(pairs@)),
                    pairs_view(out@) == put_all(Seq::empty(), all.take(i as int)),
                decreases pairs.len() - i,
            {
                proof {
                    crate::json::lemma_member_decreases(*v, i as int);
                    assert(all.take(i + 1).drop_last() =~= all.take(i as int));
                }
                let key = ir.mask(pairs[i].0.as_str());
                let value = mask_value(ir, &pairs[i].1);
                assert(all.take(i + 1).last() == (key@, value@));
                let _ = put_in(&mut out, key, value);
                i += 1;
            }
            assert(all.take(i as int) =~= all);
            Json::Object(out)
        },
    }
}

/// `q` stands in no text and in no key of `v`.
pub open spec fn json_hides(v: JsonV, q: Seq<char>) -> bool
    decreases v,
{
    match v {
        JsonV::String(s) => !occurs(s, q),
        JsonV::Array(items) => forall|i: int| 0 <= i < items.len() ==> json_hides(#[trigger] items[i], q),
        JsonV::Object(pairs) => forall|i: int|
            0 <= i < pairs.len() ==> !occurs((#[trigger] pairs[i]).0, q) && json_hides(pairs[i].1, q),
        _ => true,
    }
}

/// `q` stands in no key and in no value of a map.
pub open spec fn pairs_hide(pairs: Seq<(Seq<char>, JsonV)>, q: Seq<char>) -> bool {
    forall|i: int| 0 <= i < pairs.len() ==> !occurs((#[trigger] pairs[i]).0, q) && json_hides(pairs[i].1, q)
}

/// No secret stands anywhere in a masked value, unless the secret is empty or
/// holds a star.
pub proof fn lemma_masked_json_hides(secrets: Seq<Seq<char>>, v: JsonV, n: int)
    requires
        0 <= n < secrets.len(),
        secrets[n].len() > 0,
        star_free(secrets[n]),
    ensures
        json_hides(masked_json(secrets, v), secrets[n]),
    decreases v,
{
    let q = secrets[n];
    match v {
        JsonV::String(s) => {
            lemma_masked_hides(secrets, s, n);
        },
        JsonV::Array(items) => {
            let out = masked_items(secrets, items);
            assert forall|i: int| 0 <= i < out.len() implies json_hides(#[trigger] out[i], q) by {
                lemma_masked_json_hides(secrets, items[i], n);
            }
        },
        JsonV::Object(pairs) => {
            lemma_masked_pairs_hide(secrets, pairs, n);
        },
        _ => {},
    }
}

/// No secret stands anywhere in a masked map, unless the secret is empty or
/// holds a star.
pub proof fn lemma_masked_pairs_hide(secrets: Seq<Seq<char>>, pairs: Seq<(Seq<char>, JsonV)>, n: int)
    requires
        0 <= n < secrets.len(),
        secrets[n].len() > 0,
        star_free(secrets[n]),
    ensures
        pairs_hide(put_all(Seq::empty(), masked_pairs(secrets, pairs)), secrets[n]),
    decreases pairs,
{
    let q = secrets[n];
    let list = masked_pairs(secrets, pairs);
    let out = put_all(Seq::empty(), list);
    assert forall|i: int| 0 <= i < out.len() implies !occurs((#[trigger] out[i]).0, q) && json_hides(out[i].1, q) by {
        lemma_put_all_members(Seq::empty(), list, i);
        let j = choose|j: int| 0 <= j < list.len() && list[j] == out[i];
        lemma_masked_hides(secrets, pairs[j].0, n);
        lemma_masked_json_hides(secrets, pairs[j].1, n);
    }
}

// ---------------------------------------------------------------------
// Assertions, runtime values and diagnostics
// ---------------------------------------------------------------------

/// A masked text, if there is one.
pub open spec fn masked_opt(secrets: Seq<Seq<char>>, s: Option<Seq<char>>) -> Option<Seq<char>> {
    match s {
        Some(s) => Some(masked(secrets, s)),
        None => None,
    }
}

/// A masked value, if there is one.
pub open spec fn masked_json_opt(secrets: Seq<Seq<char>>, v: Option<JsonV>) -> Option<JsonV> {
    match v {
        Some(v) => Some(masked_json(secrets, v)),
        None => None,
    }
}

/// An assertion result with every text and value in it masked.
pub open spec fn masked_assertion(secrets: Seq<Seq<char>>, a: AssertionV) -> AssertionV {
    AssertionV {
        passed: a.passed,
        message: masked(secrets, a.message),
        expected: masked_json_opt(secrets, a.expected),
        actual: masked_json_opt(secrets, a.actual),
        path: masked_opt(secrets, a.path),
    }
}

/// A diagnostic with every text in it masked.
pub open spec fn masked_diagnostic(secrets: Seq<Seq<char>>, d: DiagnosticV) -> DiagnosticV {
    DiagnosticV {
        code: d.code,
        severity: d.severity,
        message: masked(secrets, d.message),
        instance_path: masked_opt(secrets, d.instance_path),
        asset_ref: masked_opt(secrets, d.asset_ref),
    }
}

/// Runtime values with every key and value masked.
pub open spec fn masked_runtime(secrets: Seq<Seq<char>>, runtime: Seq<(Seq<char>, JsonV)>) -> Seq<
    (Seq<char>, JsonV),
> {
    put_all(Seq::empty(), masked_pairs(secrets, runtime))
}

fn mask_opt(ir: &ResolvedRequest, s: &Option<String>) -> (r: Option<String>)
    ensures
        opt_view(r) == masked_opt(ir@.secret_values, opt_view(*s)),
{
    match s {
        Some(s) => Some(ir.mask(s.as_str())),
        None => None,
    }
}

fn mask_value_opt(ir: &ResolvedRequest, v: &Option<Json>) -> (r: Option<Json>)
    ensures
        opt_view(r) == masked_json_opt(ir@.secret_values, opt_view(*v)),
{
    match v {
        Some(v) => Some(mask_value(ir, v)),
        None => None,
    }
}

/// An assertion result with every text and value in it masked.
pub fn mask_assertion(ir: &ResolvedRequest, a: &AssertionResult) -> (r: AssertionResult)
    ensures
        r@ == masked_assertion(ir@.secret_values, a@),
{
    AssertionResult {
        passed: a.passed,
        message: ir.mask(a.message.as_str()),
        expected: mask_value_opt(ir, &a.expected),
        actual: mask_value_opt(ir, &a.actual),
        path: mask_opt(ir, &a.path),
    }
}

/// A diagnostic with every text in it masked.
pub fn mask_diagnostic(ir: &ResolvedRequest, d: &Diagnostic) -> (r: Diagnostic)
    ensures
        r@ == masked_diagnostic(ir@.secret_values, d@),
{
    Diagnostic {
        code: d.code,
        severity: d.severity,
        message: ir.mask(d.message.as_str()),
        instance_path: mask_opt(ir, &d.instance_path),
        asset_ref: mask_opt(ir, &d.asset_ref),
    }
}

/// Runtime values with every key and value masked.
pub fn mask_runtime_writes(ir: &ResolvedRequest, runtime: &TextMap<Json>) -> (r: TextMap<Json>)
    ensures
        r@ == masked_runtime(ir@.secret_values, runtime@),
{
    let ghost secrets = ir@.secret_values;
    let ghost all = masked_pairs(secrets, runtime@);
    let mut out: TextMap<Json> = TextMap::new();
    let mut i: usize = 0;
    assert(all.take(0) =~= Seq::empty());
    while i < runtime.pairs.len()
        invariant
            i <= runtime.pairs.len(),
            secrets == ir@.secret_values,
            all == masked_pairs(secrets, runtime@),
            out@ == put_all(Seq::empty(), all.take(i as int)),
        decreases runtime.pairs.len() - i,
    {
        assert(all.take(i + 1).drop_last() =~= all.take(i as int));
        let key = ir.mask(runtime.pairs[i].0.as_str());
        let value = mask_value(ir, &runtime.pairs[i].1);
        assert(all.take(i + 1).last() == (key@, value@));
        let _ = out.insert(key, value);
        i += 1;
    }
    assert(all.take(i as int) =~= all);
    out
}

/// Each assertion result masked.
pub open spec fn masked_assertions(secrets: Seq<Seq<char>>, list: Seq<AssertionV>) -> Seq<AssertionV> {
    Seq::new(list.len(), |i: int| masked_assertion(secrets, list[i]))
}

/// Each diagnostic masked.
pub open spec fn masked_diagnostics(secrets: Seq<Seq<char>>, list: Seq<DiagnosticV>) -> Seq<DiagnosticV> {
    Seq::new(list.len(), |i: int| masked_diagnostic(secrets, list[i]))
}

/// Each text masked.
pub open spec fn masked_texts(secrets: Seq<Seq<char>>, list: Seq<Seq<char>>) -> Seq<Seq<char>> {
    Seq::new(list.len(), |i: int| masked(secrets, list[i]))
}

/// Each assertion result masked.
pub fn mask_assertions(ir: &ResolvedRequest, list: &Vec<AssertionResult>) -> (r: Vec<AssertionResult>)
    ensures
        views(r@) == masked_assertions(ir@.secret_values, views(list@)),
{
    let mut out: Vec<AssertionResult> = Vec::new();
    let mut i: usize = 0;
    while i < list.len()
        invariant
            i <= list.len(),
            out.len() == i,
            forall|k: int| 0 <= k < i ==> (#[trigger] out@[k])@ == masked_assertion(ir@.secret_values, list@[k]@),
        decreases list.len() - i,
    {
        out.push(mask_assertion(ir, &list[i]));
        i += 1;
    }
    assert(views(out@) =~= masked_assertions(ir@.secret_values, views(list@)));
    out
}

/// Each diagnostic masked.
pub fn mask_diagnostics(ir: &ResolvedRequest, list: &Vec<Diagnostic>) -> (r: Vec<Diagnostic>)
    ensures
        views(r@) == masked_diagnostics(ir@.secret_values, views(list@)),
{
    let mut out: Vec<Diagnostic> = Vec::new();
    let mut i: usize = 0;
    while i < list.len()
        invariant
            i <= list.len(),
            out.len() == i,
            forall|k: int| 0 <= k < i ==> (#[trigger] out@[k])@ == masked_diagnostic(ir@.secret_values, list@[k]@),
        decreases list.len() - i,
    {
        out.push(mask_diagnostic(ir, &list[i]));
        i += 1;
    }
    assert(views(out@) =~= masked_diagnostics(ir@.secret_values, views(list@)));
    out
}

/// Each text masked.
pub fn mask_texts(ir: &ResolvedRequest, list: &Vec<String>) -> (r: Vec<String>)
    ensures
        views(r@) == masked_texts(ir@.secret_values, views(list@)),
{
    let mut out: Vec<String> = Vec::new();
    let mut i: usize = 0;
    while i < list.len()
        invariant
            i <= list.len(),
            out.len() == i,
            forall|k: int| 0 <= k < i ==> (#[trigger] out@[k])@ == masked(ir@.secret_values, list@[k]@),
        decreases list.len() - i,
    {
        out.push(ir.mask(list[i].as_str()));
        i += 1;
    }
    assert(views(out@) =~= masked_texts(ir@.secret_values, views(list@)));
    out
}

/// `q` does not stand in an optional text.
pub open spec fn opt_hides(s: Option<Seq<char>>, q: Seq<char>) -> bool {
    s matches Some(s) ==> !occurs(s, q)
}

/// `q` stands nowhere in an optional value.
pub open spec fn json_opt_hides(v: Option<JsonV>, q: Seq<char>) -> bool {
    v matches Some(v) ==> json_hides(v, q)
}

/// `q` stands nowhere in an assertion result.
pub open spec fn assertion_hides(a: AssertionV, q: Seq<char>) -> bool {
    &&& !occurs(a.message, q)
    &&& json_opt_hides(a.expected, q)
    &&& json_opt_hides(a.actual, q)
    &&& opt_hides(a.path, q)
}

/// `q` stands nowhere in a diagnostic.
pub open spec fn diagnostic_hides(d: DiagnosticV, q: Seq<char>) -> bool {
    &&& !occurs(d.message, q)
    &&& opt_hides(d.instance_path, q)
    &&& opt_hides(d.asset_ref, q)
}

/// No secret stands in a masked assertion result, unless the secret is empty
/// or holds a star.
pub proof fn lemma_masked_assertion_hides(secrets: Seq<Seq<char>>, a: AssertionV, n: int)
    requires
        0 <= n < secrets.len(),
        secrets[n].len() > 0,
        star_free(secrets[n]),
    ensures
        assertion_hides(masked_assertion(secrets, a), secrets[n]),
{
    lemma_masked_hides(secrets, a.message, n);
    if let Some(v) = a.expected {
        lemma_masked_json_hides(secrets, v, n);
    }
    if let Some(v) = a.actual {
        lemma_masked_json_hides(secrets, v, n);
    }
    if let Some(s) = a.path {
        lemma_masked_hides(secrets, s, n);
    }
}

/// No secret stands in a masked diagnostic, unless the secret is empty or
/// holds a star.
pub proof fn lemma_masked_diagnostic_hides(secrets: Seq<Seq<char>>, d: DiagnosticV, n: int)
    requires
        0 <= n < secrets.len(),
        secrets[n].len() > 0,
        star_free(secrets[n]),
    ensures
        diagnostic_hides(masked_diagnostic(secrets, d), secrets[n]),
{
    lemma_masked_hides(secrets, d.message, n);
    if let Some(s) = d.instance_path {
        lemma_masked_hides(secrets, s, n);
    }
    if let Some(s) = d.asset_ref {
        lemma_masked_hides(secrets, s, n);
    }
}

} // verus!
