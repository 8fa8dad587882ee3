//! Variables in assertions. The request has been sent by the time they are
//! looked at, so what no scope knows stays as it is written.

use vstd::prelude::*;

use crate::json::{Json, JsonV};
use crate::map::pairs_view;
use crate::model::request::{AssertionDef, AssertionDefV, Check, CheckV};
use crate::vars::{expanded, interpolate, LayerV, VarScopes};
use crate::view::{copy_opt, views, Copied};

verus! {

broadcast use vstd::string::group_string_axioms;

/// A text with its variables filled in, or as it is where one is unknown.
pub open spec fn filled_or_kept(s: Seq<char>, layers: Seq<LayerV>) -> Seq<char> {
    match expanded(s, layers) {
        Ok(t) => t,
        Err(_) => s,
    }
}

/// A value with every text in it filled in.
pub open spec fn filled_value(v: JsonV, layers: Seq<LayerV>) -> JsonV
    decreases v,
{
    match v {
        JsonV::String(s) => JsonV::String(filled_or_kept(s, layers)),
        JsonV::Array(items) => JsonV::Array(filled_list(items, layers)),
        JsonV::Object(pairs) => JsonV::Object(filled_members(pairs, layers)),
        _ => v,
    }
}

/// Each item filled in.
pub open spec fn filled_list(items: Seq<JsonV>, layers: Seq<LayerV>) -> Seq<JsonV>
    decreases items,
{
    Seq::new(
        items.len(),
        |i: int|
            if 0 <= i < items.len() {
                filled_value(items[i], layers)
            } else {
                JsonV::Null
            },
    )
}

/// Each member filled in, under its key as it is.
pub open spec fn filled_members(pairs: Seq<(Seq<char>, JsonV)>, layers: Seq<LayerV>) -> Seq<(Seq<char>, JsonV)>
    decreases pairs,
{
    Seq::new(
        pairs.len(),
        |i: int|
            if 0 <= i < pairs.len() {
                (pairs[i].0, filled_value(pairs[i].1, layers))
            } else {
                (Seq::empty(), JsonV::Null)
            },
    )
}

/// A check with the texts that a user writes filled in. A schema is left as it
/// is.
pub open spec fn filled_check(check: CheckV, layers: Seq<LayerV>) -> CheckV {
    match check {
        CheckV::Header { name, op, value } => CheckV::Header {
            name: filled_or_kept(name, layers),
            op,
            value: filled_or_kept(value, layers),
        },
        CheckV::ContentType { value } => CheckV::ContentType { value: filled_or_kept(value, layers) },
        CheckV::JsonPath { path, op, value } => CheckV::JsonPath {
            path: filled_or_kept(path, layers),
            op,
            value: filled_value(value, layers),
        },
        CheckV::BodyContains { value } => CheckV::BodyContains { value: filled_or_kept(value, layers) },
        CheckV::BodyMatches { regex } => CheckV::BodyMatches { regex: filled_or_kept(regex, layers) },
        _ => check,
    }
}

/// Each assertion with its check filled in.
pub open spec fn filled_assertions(defs: Seq<AssertionDefV>, layers: Seq<LayerV>) -> Seq<AssertionDefV> {
    Seq::new(
        defs.len(),
        |i: int| AssertionDefV { check: filled_check(defs[i].check, layers), ..defs[i] },
    )
}

fn interp(s: &str, scopes: &VarScopes) -> (r: String)
    ensures
        r@ == filled_or_kept(s@, scopes@),
{
    match interpolate(s, scopes) {
        Ok(t) => t,
        Err(_) => s.to_owned(),
    }
}

/// Fill in every text of a value.
pub fn interp_json(v: &Json, scopes: &VarScopes) -> (r: Json)
    ensures
        r@ == filled_value(v@, scopes@),
    decreases v,
{
    broadcast use crate::json::lemma_json_view;

    match v {
        Json::String(s) => Json::String(interp(s.as_str(), scopes)),
        Json::Array(items) => {
            let mut out: Vec<Json> = Vec::new();
            let mut i: usize = 0;
            while i < items.len()
                invariant
                    i <= items.len(),
                    *v == Json::Array(*items),
                    out.len() == i,
                    forall|k: int| 0 <= k < i ==> (#[trigger] out@[k])@ == filled_value(items@[k]@, scopes@),
                decreases items.len() - i,
            {
                proof {
                    crate::json::lemma_item_decreases(*v, i as int);
                }
                out.push(interp_json(&items[i], scopes));
                i += 1;
            }
            assert(views(out@) =~= filled_list(views(items@), scopes@));
            Json::Array(out)
        },
        Json::Object(pairs) => {
            let mut out: Vec<(String, Json)> = Vec::new();
            let mut i: usize = 0;
            while i < pairs.len()
                invariant
                    i <= pairs.len(),
                    *v == Json::Object(*pairs),
                    out.len() == i,
                    forall|k: int|
                        0 <= k < i ==> (#[trigger] out@[k]).0@ == pairs@[k].0@ && out@[k].1@ == filled_value(
                            pairs@[k].1@,
                            scopes@,
                        ),
                decreases pairs.len() - i,
            {
                proof {
                    crate::json::lemma_member_decreases(*v, i as int);
                }
                out.push((pairs[i].0.clone(), interp_json(&pairs[i].1, scopes)));
                i += 1;
            }
            assert(pairs_view(out@) =~= filled_members(pairs_view(pairs@), scopes@));
            Json::Object(out)
        },
        _ => v.copy(),
    }
}

fn resolve_check(check: &Check, scopes: &VarScopes) -> (r: Check)
    ensures
        r@ == filled_check(check@, scopes@),
{
    match check {
        Check::Header { name, op, value } => Check::Header {
            name: interp(name.as_str(), scopes),
            op: *op,
            value: interp(value.as_str(), scopes),
        },
        Check::ContentType { value } => Check::ContentType { value: interp(value.as_str(), scopes) },
        Check::JsonPath { path, op, value } => Check::JsonPath {
            path: interp(path.as_str(), scopes),
            op: *op,
            value: interp_json(value, scopes),
        },
        Check::BodyContains { value } => Check::BodyContains { value: interp(value.as_str(), scopes) },
        Check::BodyMatches { regex } => Check::BodyMatches { regex: interp(regex.as_str(), scopes) },
        _ => check.copied(),
    }
}

/// Fill in the variables of assertions.
pub fn resolve_assertions(defs: &Vec<AssertionDef>, scopes: &VarScopes) -> (r: Vec<AssertionDef>)
    ensures
        views(r@) == filled_assertions(views(defs@), scopes@),
{
    let mut out: Vec<AssertionDef> = Vec::new();
    let mut i: usize = 0;
    while i < defs.len()
        invariant
            i <= defs.len(),
            out.len() == i,
            forall|k: int|
                0 <= k < i ==> (#[trigger] out@[k])@ == (AssertionDefV {
                    check: filled_check(defs@[k]@.check, scopes@),
                    ..defs@[k]@
                }),
        decreases defs.len() - i,
    {
        out.push(
            AssertionDef {
                check: resolve_check(&defs[i].check, scopes),
                enabled: defs[i].enabled,
                note: copy_opt(&defs[i].note),
            },
        );
        i += 1;
    }
    assert(views(out@) =~= filled_assertions(views(defs@), scopes@));
    out
}

} // verus!
