//! From the document to the resolved request: bindings in dependency order,
//! references filled in, assets located.

use vstd::prelude::*;

use crate::json::{canonical, from_tree, printed, to_tree, value_json, Json, JsonV, Num, NumV};
use crate::map::{lookup, pairs_view, put, TextMap};
use crate::reqv1::diag::{diag, Code, Diagnostic, DiagnosticV};
use crate::reqv1::ir::{
    AssetDescriptor, AssetV, BodyV, EntryV, MockV, RefScheme, RequestV, ResolvedBody, ResolvedHeader, ResolvedMock,
    ResolvedPipelineEntry, ResolvedRequest,
};
use crate::reqv1::jshost::{answer_view, may_answer, run_loaded, script_at, AnswerV, Script, ScriptV};
use crate::reqv1::model::{
    Binding, BindingV, BodySpec, BodySpecV, BodyType, DocumentV, HeaderSpec, HeaderSpecV, MockDef, MockDefV,
    PipelineEntry, PipelineEntryV, RequestDocument, RequestSpec, RequestSpecV,
};
use crate::reqv1::order::{
    binding_deps, binding_names, dependency_order, deps_view, not_done, topo_order, DepsV,
};
use crate::reqv1::vars::{filled, inline_text, interpolate, json_filled, to_inline, Filled, Scopes, ScopesV};
use crate::text::{cat2, cat4, is_digit, same};
use crate::view::{copy_opt, group_views, opt_view, views, Copied};
use crate::words::{decimal, join, joined, number_text, quote, quoted};

verus! {

broadcast use vstd::string::group_string_axioms;

// ---------------------------------------------------------------------
// Inputs
// ---------------------------------------------------------------------

/// An asset reference that was looked up.
#[derive(Debug)]
pub enum Located {
    Found(AssetDescriptor),
    Missing(Diagnostic),
}

impl View for Located {
    type V = Result<AssetV, DiagnosticV>;

    open spec fn view(&self) -> Result<AssetV, DiagnosticV> {
        match self {
            Located::Found(a) => Ok(a@),
            Located::Missing(d) => Err(d@),
        }
    }
}

/// A data reference that was read.
#[derive(Debug)]
pub enum Loaded {
    Value(Json),
    Missing(Diagnostic),
}

impl View for Loaded {
    type V = Result<JsonV, DiagnosticV>;

    open spec fn view(&self) -> Result<JsonV, DiagnosticV> {
        match self {
            Loaded::Value(v) => Ok(v@),
            Loaded::Missing(d) => Err(d@),
        }
    }
}

/// What a document is resolved with. The tables hold what was found for each
/// reference of the document.
#[derive(Debug)]
pub struct BuildInputs {
    pub assets: TextMap<Located>,
    pub data: TextMap<Loaded>,
    pub scripts: TextMap<Script>,
    pub env: Json,
    /// One matrix case, or null.
    pub matrix: Json,
    /// What earlier requests of a sequence extracted.
    pub runtime: Json,
    pub secrets: TextMap<String>,
    /// The value of every secret that is not among these, if there is one.
    pub placeholder: Option<String>,
}

/// What [`BuildInputs`] hold.
pub struct InputsV {
    pub assets: Seq<(Seq<char>, Result<AssetV, DiagnosticV>)>,
    pub data: Seq<(Seq<char>, Result<JsonV, DiagnosticV>)>,
    pub scripts: Seq<(Seq<char>, ScriptV)>,
    pub env: JsonV,
    pub matrix: JsonV,
    pub runtime: JsonV,
    pub secrets: Seq<(Seq<char>, Seq<char>)>,
    pub placeholder: Option<Seq<char>>,
}

impl View for BuildInputs {
    type V = InputsV;

    open spec fn view(&self) -> InputsV {
        InputsV {
            assets: self.assets@,
            data: self.data@,
            scripts: self.scripts@,
            env: self.env@,
            matrix: self.matrix@,
            runtime: self.runtime@,
            secrets: self.secrets@,
            placeholder: opt_view(self.placeholder),
        }
    }
}

/// The scopes with the bindings resolved so far.
pub open spec fn scopes_with(inputs: InputsV, bindings: JsonV) -> ScopesV {
    ScopesV {
        env: inputs.env,
        bindings,
        matrix: inputs.matrix,
        runtime: inputs.runtime,
        secrets: inputs.secrets,
        placeholder: inputs.placeholder,
    }
}

/// The asset that a reference was found to be.
pub open spec fn located(inputs: InputsV, reference: Seq<char>) -> Result<AssetV, DiagnosticV> {
    match lookup(inputs.assets, reference) {
        Some(r) => r,
        None => Err(diag(Code::AssetNotFound, "cannot locate asset "@ + quoted(reference)).with_ref(reference)),
    }
}

/// The data that a reference was found to hold.
pub open spec fn loaded(inputs: InputsV, reference: Seq<char>) -> Result<JsonV, DiagnosticV> {
    match lookup(inputs.data, reference) {
        Some(r) => r,
        None => Err(diag(Code::AssetNotFound, "cannot load data "@ + quoted(reference)).with_ref(reference)),
    }
}

fn scopes_of(inputs: &BuildInputs, bindings: &Json) -> (r: Scopes)
    ensures
        r@ == scopes_with(inputs@, bindings@),
{
    Scopes {
        env: inputs.env.copy(),
        bindings: bindings.copy(),
        matrix: inputs.matrix.copy(),
        runtime: inputs.runtime.copy(),
        secrets: inputs.secrets.copied(),
        placeholder: copy_opt(&inputs.placeholder),
    }
}

fn locate(inputs: &BuildInputs, reference: &str) -> (r: Result<AssetDescriptor, Diagnostic>)
    ensures
        located(inputs@, reference@) == match r {
            Ok(a) => Ok::<AssetV, DiagnosticV>(a@),
            Err(d) => Err::<AssetV, DiagnosticV>(d@),
        },
{
    match inputs.assets.get(reference) {
        Some(Located::Found(a)) => Ok(a.copy()),
        Some(Located::Missing(d)) => Err(d.copy()),
        None => Err(
            Diagnostic::new(
                Code::AssetNotFound,
                cat2("cannot locate asset ", quote(reference).as_str()),
            ).with_ref(reference),
        ),
    }
}

fn load(inputs: &BuildInputs, reference: &str) -> (r: Result<Json, Diagnostic>)
    ensures
        json_filled(r) == loaded(inputs@, reference@),
{
    match inputs.data.get(reference) {
        Some(Loaded::Value(v)) => Ok(v.copy()),
        Some(Loaded::Missing(d)) => Err(d.copy()),
        None => Err(
            Diagnostic::new(Code::AssetNotFound, cat2("cannot load data ", quote(reference).as_str())).with_ref(
                reference,
            ),
        ),
    }
}

// ---------------------------------------------------------------------
// Generators and patches
// ---------------------------------------------------------------------

/// A value with JSON Patch operations applied, or why they cannot be.
pub uninterp spec fn json_patched(doc: JsonV, operations: JsonV) -> Result<JsonV, Seq<char>>;

/// `json_patch::patch_unsafe` applies JSON Patch operations, which `serde_json`
/// reads as `json_patch::Patch`; where one fails, the value is dropped as it
/// then is. The result, or the error, depends on the value and the operations
/// alone.
#[verifier::external_body]
fn patch_tree(doc: serde_json::Value, operations: serde_json::Value) -> (r: Result<serde_json::Value, String>)
    ensures
        json_patched(value_json(doc), value_json(operations)) == match r {
            Ok(v) => Ok::<JsonV, Seq<char>>(value_json(v)),
            Err(e) => Err::<JsonV, Seq<char>>(e@),
        },
{
    let mut doc = doc;
    let patch: json_patch::Patch = serde_json::from_value(operations).map_err(|e| e.to_string())?;
    json_patch::patch_unsafe(&mut doc, &patch).map_err(|e| e.to_string())?;
    Ok(doc)
}

/// A random identifier as it is printed: thirty-two hexadecimal digits in five
/// groups, with the version 4 and the variant of RFC 4122.
pub open spec fn uuid_text(s: Seq<char>) -> bool {
    &&& s.len() == 36
    &&& s[14] == '4'
    &&& s[19] == '8' || s[19] == '9' || s[19] == 'a' || s[19] == 'b'
    &&& forall|i: int|
        0 <= i < 36 ==> if i == 8 || i == 13 || i == 18 || i == 23 {
            #[trigger] s[i] == '-'
        } else {
            is_digit(s[i]) || 'a' <= s[i] <= 'f'
        }
}

/// `uuid::Uuid::new_v4` makes a random identifier, and `to_string` prints it
/// with hyphens, in lower case.
#[verifier::external_body]
fn random_uuid() -> (r: String)
    ensures
        uuid_text(r@),
{
    uuid::Uuid::new_v4().to_string()
}

/// `chrono::Utc::now` tells the time, in seconds since the epoch.
#[verifier::external_body]
fn unix_time() -> (r: i64) {
    chrono::Utc::now().timestamp()
}

/// Data with the operations of a binding applied; without operations it stays
/// as it is.
pub open spec fn patched_data(v: JsonV, operations: JsonV) -> Result<JsonV, DiagnosticV> {
    if operations == JsonV::Array(seq![]) {
        Ok(v)
    } else {
        match json_patched(canonical(v), canonical(operations)) {
            Ok(v) => Ok(v),
            Err(e) => Err(diag(Code::InvalidAssetInput, "patch: "@ + e)),
        }
    }
}

fn patch_data(v: Json, operations: &Json) -> (r: Result<Json, Diagnostic>)
    ensures
        json_filled(r) == patched_data(v@, operations@),
{
    broadcast use crate::json::lemma_json_view;

    if let Json::Array(items) = operations {
        if items.len() == 0 {
            assert(views(items@) =~= seq![]);
            return Ok(v);
        }
        assert(views(items@).len() > 0);
    }
    match patch_tree(to_tree(&v), to_tree(operations)) {
        Ok(v) => Ok(from_tree(v)),
        Err(e) => Err(Diagnostic::new(Code::InvalidAssetInput, cat2("patch: ", e.as_str()))),
    }
}

/// A whole number as JSON.
pub open spec fn integer(n: i64) -> JsonV {
    if n >= 0 {
        JsonV::Number(NumV::Pos(n as u64))
    } else {
        JsonV::Number(NumV::Neg(n))
    }
}

/// What a builtin generator gives, for a random identifier and a time.
pub open spec fn generated(name: Seq<char>, version: Option<u32>, raw: Seq<char>, uuid: Seq<char>, now: i64) -> Result<
    JsonV,
    DiagnosticV,
> {
    if version is Some && version->Some_0 != 1 {
        Err(
            diag(
                Code::UnsupportedAssetVersion,
                "builtin generator "@ + name + "@"@ + decimal(version->Some_0 as nat) + " not available (have @1)"@,
            ).with_ref(raw),
        )
    } else if name == "uuid"@ {
        Ok(JsonV::String(uuid))
    } else if name == "now"@ {
        Ok(integer(now))
    } else {
        Err(diag(Code::AssetNotFound, "unknown builtin generator "@ + quoted(name)).with_ref(raw))
    }
}

/// Run a builtin generator on a random identifier and a time.
pub fn generate(name: &str, version: Option<u32>, raw: &str, uuid: String, now: i64) -> (r: Result<Json, Diagnostic>)
    ensures
        json_filled(r) == generated(name@, version, raw@, uuid@, now),
{
    if let Some(v) = version {
        if v != 1 {
            let mut message = cat4("builtin generator ", name, "@", number_text(v as u64).as_str());
            message.append(" not available (have @1)");
            return Err(Diagnostic::new(Code::UnsupportedAssetVersion, message).with_ref(raw));
        }
    }
    if same(name, "uuid") {
        Ok(Json::String(uuid))
    } else if same(name, "now") {
        if now >= 0 {
            Ok(Json::Number(Num::Pos(now as u64)))
        } else {
            Ok(Json::Number(Num::Neg(now)))
        }
    } else {
        Err(
            Diagnostic::new(Code::AssetNotFound, cat2("unknown builtin generator ", quote(name).as_str())).with_ref(
                raw,
            ),
        )
    }
}

/// Run a builtin generator.
pub fn run_generator(name: &str, version: Option<u32>, raw: &str) -> (r: Result<Json, Diagnostic>)
    ensures
        exists|uuid: Seq<char>, now: i64|
            uuid_text(uuid) && json_filled(r) == #[trigger] generated(name@, version, raw@, uuid, now),
{
    let uuid = random_uuid();
    let now: i64 = unix_time();
    let ghost id = uuid@;
    let r = generate(name, version, raw, uuid, now);
    assert(json_filled(r) == generated(name@, version, raw@, id, now));
    r
}

// ---------------------------------------------------------------------
// Bindings
// ---------------------------------------------------------------------

/// The context of a project generator.
pub open spec fn generator_context(bindings: JsonV) -> JsonV {
    JsonV::Object(seq![("bindings"@, bindings)])
}

/// What an answer of a project generator means.
pub open spec fn generator_answer(answer: AnswerV, raw: Seq<char>) -> Result<JsonV, DiagnosticV> {
    match answer {
        Ok((v, _)) => Ok(v),
        Err(d) => Err(d.with_ref(raw)),
    }
}

/// The values that a generator may give for an input.
pub open spec fn may_generate(
    asset: AssetV,
    uses: Seq<char>,
    inputs: InputsV,
    bindings: JsonV,
    input: JsonV,
    outcome: Result<JsonV, DiagnosticV>,
) -> bool {
    if asset.scheme == RefScheme::Builtin {
        exists|uuid: Seq<char>, now: i64|
            uuid_text(uuid) && outcome == #[trigger] generated(asset.address, asset.version, uses, uuid, now)
    } else {
        exists|answer: AnswerV|
            {
                &&& may_answer(
                    asset.address,
                    script_at(inputs.scripts, asset.address),
                    generator_context(bindings),
                    input,
                    answer,
                )
                &&& outcome == #[trigger] generator_answer(answer, uses)
            }
    }
}

/// The outcomes that a binding may have, given the bindings resolved so far.
pub open spec fn may_bind(b: BindingV, inputs: InputsV, bindings: JsonV, r: Filled<JsonV>) -> bool {
    match b {
        BindingV::Value(v) => r == filled(v, scopes_with(inputs, bindings)),
        BindingV::Ref { reference, patch } => r.secrets == Seq::<Seq<char>>::empty() && r.outcome == match located(
            inputs,
            reference,
        ) {
            Err(d) => Err(d),
            Ok(_) => match loaded(inputs, reference) {
                Err(d) => Err(d),
                Ok(v) => patched_data(v, patch),
            },
        },
        BindingV::Use { uses, with } => match located(inputs, uses) {
            Err(d) => r.secrets == Seq::<Seq<char>>::empty() && r.outcome == Err::<JsonV, DiagnosticV>(d),
            Ok(asset) => {
                let input = filled(with, scopes_with(inputs, bindings));
                r.secrets == input.secrets && match input.outcome {
                    Err(d) => r.outcome == Err::<JsonV, DiagnosticV>(d),
                    Ok(v) => may_generate(asset, uses, inputs, bindings, v, r.outcome),
                }
            },
        },
    }
}

fn generate_value(asset: &AssetDescriptor, uses: &str, inputs: &BuildInputs, bindings: &Json, input: &Json) -> (r: Result<
    Json,
    Diagnostic,
>)
    ensures
        may_generate(asset@, uses@, inputs@, bindings@, input@, json_filled(r)),
{
    broadcast use crate::json::lemma_json_view;

    if asset.scheme == RefScheme::Builtin {
        run_generator(asset.address.as_str(), asset.version, uses)
    } else {
        let mut pairs: Vec<(String, Json)> = Vec::new();
        pairs.push(("bindings".to_owned(), bindings.copy()));
        let ctx = Json::Object(pairs);
        assert(ctx@->Object_0 =~= seq![("bindings"@, bindings@)]);
        let outcome = run_loaded(&inputs.scripts, asset.address.as_str(), &ctx, input);
        let ghost answer = answer_view(outcome);
        let r = match outcome {
            Ok((v, _)) => Ok(v),
            Err(d) => Err(d.with_ref(uses)),
        };
        assert(json_filled(r) == generator_answer(answer, uses@));
        r
    }
}

/// Resolve one binding, given the bindings resolved so far.
pub fn resolve_one_binding(b: &Binding, inputs: &BuildInputs, bindings: &Json, secrets: &mut Vec<String>) -> (r: Result<
    Json,
    Diagnostic,
>)
    ensures
        exists|f: Filled<JsonV>| #[trigger]
            may_bind(b@, inputs@, bindings@, f) && f.outcome == json_filled(r) && views(final(secrets)@) == views(
                old(secrets)@,
            ) + f.secrets,
{
    let ghost start = views(secrets@);
    let ghost nothing = Seq::<Seq<char>>::empty();
    assert(start + nothing =~= start);
    match b {
        Binding::Value(v) => {
            let scopes = scopes_of(inputs, bindings);
            let r = interpolate(&v.value, &scopes, secrets);
            assert(may_bind(b@, inputs@, bindings@, filled(v.value@, scopes@)));
            r
        },
        Binding::Ref(v) => {
            let r = match locate(inputs, v.reference.as_str()) {
                Err(d) => Err(d),
                Ok(_) => match load(inputs, v.reference.as_str()) {
                    Err(d) => Err(d),
                    Ok(x) => patch_data(x, &v.patch),
                },
            };
            assert(may_bind(b@, inputs@, bindings@, Filled { outcome: json_filled(r), secrets: nothing }));
            r
        },
        Binding::Use(v) => match locate(inputs, v.uses.as_str()) {
            Err(d) => {
                assert(may_bind(b@, inputs@, bindings@, Filled { outcome: Err(d@), secrets: nothing }));
                Err(d)
            },
            Ok(asset) => {
                let scopes = scopes_of(inputs, bindings);
                let ghost input = filled(v.with@, scopes@);
                let r = match interpolate(&v.with, &scopes, secrets) {
                    Err(d) => Err(d),
                    Ok(x) => generate_value(&asset, v.uses.as_str(), inputs, bindings, &x),
                };
                assert(may_bind(
                    b@,
                    inputs@,
                    bindings@,
                    Filled { outcome: json_filled(r), secrets: input.secrets },
                ));
                r
            },
        },
    }
}

/// Resolve one binding with no other binding in scope.
pub fn resolve_single_binding(b: &Binding, inputs: &BuildInputs) -> (r: Result<Json, Diagnostic>)
    ensures
        exists|f: Filled<JsonV>| #[trigger]
            may_bind(b@, inputs@, JsonV::Object(seq![]), f) && f.outcome == json_filled(r),
{
    broadcast use crate::json::lemma_json_view;

    let none = Json::Object(Vec::new());
    assert(none@->Object_0 =~= seq![]);
    let mut secrets: Vec<String> = Vec::new();
    resolve_one_binding(b, inputs, &none, &mut secrets)
}

/// Bindings on the way to being resolved.
pub struct BoundV {
    pub values: Seq<(Seq<char>, JsonV)>,
    pub errors: Seq<DiagnosticV>,
    pub secrets: Seq<Seq<char>>,
}

/// The place of a binding in the document.
pub open spec fn binding_path(name: Seq<char>) -> Seq<char> {
    "/bindings/"@ + name
}

/// `s` after the outcome of the binding `name`.
pub open spec fn bound(s: BoundV, name: Seq<char>, f: Filled<JsonV>) -> BoundV {
    BoundV {
        values: match f.outcome {
            Ok(v) => put(s.values, name, v),
            Err(_) => s.values,
        },
        errors: match f.outcome {
            Ok(_) => s.errors,
            Err(d) => s.errors.push(d.at(binding_path(name))),
        },
        secrets: s.secrets + f.secrets,
    }
}

/// One binding takes `s` to `t`; a name without a binding does nothing.
pub open spec fn bind_link(
    bindings: Seq<(Seq<char>, BindingV)>,
    inputs: InputsV,
    name: Seq<char>,
    s: BoundV,
    t: BoundV,
) -> bool {
    match lookup(bindings, name) {
        None => t == s,
        Some(b) => exists|f: Filled<JsonV>|
            may_bind(b, inputs, JsonV::Object(s.values), f) && t == #[trigger] bound(s, name, f),
    }
}

/// The first `n` names of `order` take nothing to `t`.
pub open spec fn bindings_reach(
    bindings: Seq<(Seq<char>, BindingV)>,
    inputs: InputsV,
    order: Seq<Seq<char>>,
    n: nat,
    t: BoundV,
) -> bool
    decreases n,
{
    if n == 0 {
        t == BoundV { values: seq![], errors: seq![], secrets: seq![] }
    } else {
        exists|s: BoundV|
            bindings_reach(bindings, inputs, order, (n - 1) as nat, s) && #[trigger] bind_link(
                bindings,
                inputs,
                order[n - 1],
                s,
                t,
            )
    }
}

/// Each binding with the names that it refers to.
pub open spec fn dependencies(bindings: Seq<(Seq<char>, BindingV)>) -> DepsV {
    Seq::new(bindings.len(), |i: int| (bindings[i].0, binding_names(bindings[i].1)))
}

/// The diagnostic for bindings that refer to each other in a circle.
pub open spec fn cycle_error(names: Seq<Seq<char>>) -> DiagnosticV {
    diag(Code::BindingCycle, "binding cycle: "@ + joined(names, " -> "@))
}

/// Where the resolution of all bindings may end.
pub open spec fn may_resolve(bindings: Seq<(Seq<char>, BindingV)>, inputs: InputsV, t: BoundV) -> bool {
    let deps = dependencies(bindings);
    let order = dependency_order(deps);
    if order.len() != deps.len() {
        t == BoundV {
            values: seq![],
            errors: seq![cycle_error(not_done(deps, order, deps.len() as int))],
            secrets: seq![],
        }
    } else {
        bindings_reach(bindings, inputs, order, order.len(), t)
    }
}

/// The values of bindings, their errors and their secrets.
pub struct Bound {
    pub values: TextMap<Json>,
    pub errors: Vec<Diagnostic>,
    pub secrets: Vec<String>,
}

impl View for Bound {
    type V = BoundV;

    open spec fn view(&self) -> BoundV {
        BoundV { values: self.values@, errors: views(self.errors@), secrets: views(self.secrets@) }
    }
}

pub(crate) fn object_of(values: &TextMap<Json>) -> (r: Json)
    ensures
        r@ == JsonV::Object(values@),
{
    broadcast use crate::json::lemma_json_view;

    let mut pairs: Vec<(String, Json)> = Vec::new();
    let mut i: usize = 0;
    while i < values.pairs.len()
        invariant
            i <= values.pairs.len(),
            pairs.len() == i,
            forall|k: int|
                0 <= k < i ==> (#[trigger] pairs@[k]).0@ == values.pairs@[k].0@ && pairs@[k].1@
                    == values.pairs@[k].1@,
        decreases values.pairs.len() - i,
    {
        pairs.push((values.pairs[i].0.clone(), values.pairs[i].1.copy()));
        i += 1;
    }
    assert(pairs_view(pairs@) =~= values@);
    Json::Object(pairs)
}

/// Resolve all bindings, each after those that it refers to. Bindings that
/// refer to each other in a circle are an error.
pub fn resolve_bindings(bindings: &TextMap<Binding>, inputs: &BuildInputs) -> (r: Bound)
    ensures
        may_resolve(bindings@, inputs@, r@),
{
    broadcast use group_views;

    let ghost view = bindings@;
    let mut deps: Vec<(String, Vec<String>)> = Vec::new();
    let mut i: usize = 0;
    while i < bindings.pairs.len()
        invariant
            i <= bindings.pairs.len(),
            view == bindings@,
            deps.len() == i,
            forall|k: int|
                0 <= k < i ==> (#[trigger] deps@[k]).0@ == view[k].0 && views(deps@[k].1@) == binding_names(view[k].1),
        decreases bindings.pairs.len() - i,
    {
        deps.push((bindings.pairs[i].0.clone(), binding_deps(&bindings.pairs[i].1)));
        i += 1;
    }
    assert(deps_view(deps@) =~= dependencies(view));
    let mut out = Bound { values: TextMap::new(), errors: Vec::new(), secrets: Vec::new() };
    let order = match topo_order(&deps) {
        Err(left) => {
            out.errors.push(
                Diagnostic::new(Code::BindingCycle, cat2("binding cycle: ", join(&left, " -> ").as_str())),
            );
            assert(out@.errors =~= seq![cycle_error(views(left@))]);
            return out;
        },
        Ok(order) => order,
    };
    let ghost names = views(order@);
    let mut n: usize = 0;
    while n < order.len()
        invariant
            n <= order.len(),
            view == bindings@,
            names == views(order@),
            bindings_reach(view, inputs@, names, n as nat, out@),
        decreases order.len() - n,
    {
        let ghost s = out@;
        let name = order[n].as_str();
        assert(names[(n + 1) - 1] == name@);
        if let Some(b) = bindings.get(name) {
            let partial = object_of(&out.values);
            let outcome = resolve_one_binding(b, inputs, &partial, &mut out.secrets);
            let ghost f = choose|f: Filled<JsonV>| #[trigger]
                may_bind(b@, inputs@, JsonV::Object(s.values), f) && f.outcome == json_filled(outcome) && views(
                    out.secrets@,
                ) == s.secrets + f.secrets;
            match outcome {
                Ok(v) => {
                    let _ = out.values.insert(order[n].clone(), v);
                },
                Err(d) => {
                    let placed = d.at(cat2("/bindings/", name).as_str());
                    out.errors.push(placed);
                },
            }
            assert(out@.errors == bound(s, name@, f).errors);
            assert(out@ == bound(s, name@, f));
        }
        assert(bind_link(view, inputs@, names[(n + 1) - 1], s, out@));
        n += 1;
    }
    assert(names.len() == order@.len());
    out
}

// ---------------------------------------------------------------------
// Request, pipeline and mock
// ---------------------------------------------------------------------

/// A part of the request with the errors and secrets that came with it.
pub struct Step<T> {
    pub value: T,
    pub errors: Seq<DiagnosticV>,
    pub secrets: Seq<Seq<char>>,
}

/// A text of the document at `path` with its references filled in; a lone
/// reference to something else than a text gives its JSON text.
pub open spec fn text_step(s: Seq<char>, scopes: ScopesV, path: Seq<char>) -> Step<Option<Seq<char>>> {
    let f = filled(JsonV::String(s), scopes);
    match f.outcome {
        Ok(v) => Step { value: Some(inline_text(v)), errors: seq![], secrets: f.secrets },
        Err(d) => Step { value: None, errors: seq![d.at(path)], secrets: f.secrets },
    }
}

/// The place of the value of the `i`-th header below `base`.
pub open spec fn header_path(base: Seq<char>, i: int) -> Seq<char> {
    base + "/"@ + decimal(i as nat) + "/value"@
}

/// The first `n` headers: the enabled ones, with their values filled in.
pub open spec fn headers_step(headers: Seq<HeaderSpecV>, scopes: ScopesV, base: Seq<char>, n: int) -> Step<
    Seq<(Seq<char>, Seq<char>)>,
>
    decreases n,
{
    if n <= 0 || n > headers.len() {
        Step { value: seq![], errors: seq![], secrets: seq![] }
    } else {
        let before = headers_step(headers, scopes, base, n - 1);
        let h = headers[n - 1];
        if !h.enabled {
            before
        } else {
            let t = text_step(h.value, scopes, header_path(base, n - 1));
            Step {
                value: match t.value {
                    Some(value) => before.value.push((h.name, value)),
                    None => before.value,
                },
                errors: before.errors + t.errors,
                secrets: before.secrets + t.secrets,
            }
        }
    }
}

/// The fields of a form: the members of an object, texts as they are and
/// anything else as JSON.
pub open spec fn form_of(v: JsonV) -> Seq<(Seq<char>, Seq<char>)> {
    match v {
        JsonV::Object(pairs) => Seq::new(pairs.len(), |i: int| (pairs[i].0, inline_text(pairs[i].1))),
        _ => seq![],
    }
}

/// A body without errors and secrets.
pub open spec fn plain_body(value: BodyV) -> Step<BodyV> {
    Step { value, errors: seq![], secrets: seq![] }
}

/// No body, and an error.
pub open spec fn body_error(d: DiagnosticV, secrets: Seq<Seq<char>>) -> Step<BodyV> {
    Step { value: BodyV::Empty, errors: seq![d], secrets }
}

/// The body of a request or a mock.
pub open spec fn body_step(body: Option<BodySpecV>, inputs: InputsV, scopes: ScopesV) -> Step<BodyV> {
    match body {
        None => plain_body(BodyV::Empty),
        Some(BodySpecV::Inline { body_type, value }) => match value {
            None => plain_body(BodyV::Empty),
            Some(v) => {
                let f = filled(v, scopes);
                match f.outcome {
                    Err(d) => body_error(d.at("/request/body/value"@), f.secrets),
                    Ok(v) => {
                        let value = match body_type {
                            BodyType::Json => BodyV::Json(v),
                            BodyType::Text => BodyV::Text(
                                match v {
                                    JsonV::String(s) => s,
                                    _ => seq![],
                                },
                            ),
                            BodyType::Form => BodyV::Form(form_of(v)),
                            _ => BodyV::Empty,
                        };
                        let errors = match body_type {
                            BodyType::Multipart | BodyType::Binary => seq![
                                diag(
                                    Code::InvalidAssetInput,
                                    "multipart/binary bodies are not supported in v1"@,
                                ).at("/request/body"@),
                            ],
                            _ => seq![],
                        };
                        Step { value, errors, secrets: f.secrets }
                    },
                }
            },
        },
        Some(BodySpecV::Ref { reference, .. }) => match located(inputs, reference) {
            Err(d) => body_error(d.at("/request/body/ref"@), seq![]),
            Ok(_) => match loaded(inputs, reference) {
                Err(d) => body_error(d.at("/request/body/ref"@), seq![]),
                Ok(v) => plain_body(BodyV::Json(v)),
            },
        },
    }
}

/// The place of the `i`-th pipeline entry.
pub open spec fn entry_path(i: int) -> Seq<char> {
    "/pipeline/"@ + decimal(i as nat)
}

/// The first `n` pipeline entries: the enabled ones, located and filled in.
pub open spec fn pipeline_step(entries: Seq<PipelineEntryV>, inputs: InputsV, scopes: ScopesV, n: int) -> Step<
    Seq<EntryV>,
>
    decreases n,
{
    if n <= 0 || n > entries.len() {
        Step { value: seq![], errors: seq![], secrets: seq![] }
    } else {
        let before = pipeline_step(entries, inputs, scopes, n - 1);
        let e = entries[n - 1];
        if !e.enabled {
            before
        } else {
            match located(inputs, e.uses) {
                Err(d) => Step { errors: before.errors.push(d.at(entry_path(n - 1))), ..before },
                Ok(asset) => {
                    let f = filled(e.with, scopes);
                    Step {
                        value: match f.outcome {
                            Ok(input) => before.value.push(EntryV { phase: e.phase, asset, input }),
                            Err(_) => before.value,
                        },
                        errors: match f.outcome {
                            Ok(_) => before.errors,
                            Err(d) => before.errors.push(d.at(entry_path(n - 1) + "/with"@)),
                        },
                        secrets: before.secrets + f.secrets,
                    }
                },
            }
        }
    }
}

/// The mock of the document.
pub open spec fn mock_step(mock: Option<MockDefV>, inputs: InputsV, scopes: ScopesV) -> Step<Option<MockV>> {
    match mock {
        None => Step { value: None, errors: seq![], secrets: seq![] },
        Some(MockDefV::Static { status, headers, body, delay_ms }) => {
            let h = headers_step(headers, scopes, "/mock/headers"@, headers.len() as int);
            let b = body_step(body, inputs, scopes);
            Step {
                value: Some(
                    MockV::Static {
                        status,
                        headers: h.value,
                        body: b.value,
                        delay_ms: match delay_ms {
                            Some(ms) => ms,
                            None => 0,
                        },
                    },
                ),
                errors: h.errors + b.errors,
                secrets: h.secrets + b.secrets,
            }
        },
        Some(MockDefV::Dynamic { uses, with }) => match located(inputs, uses) {
            Err(d) => Step { value: None, errors: seq![d.at("/mock/use"@)], secrets: seq![] },
            Ok(asset) => {
                let f = filled(with, scopes);
                match f.outcome {
                    Ok(input) => Step {
                        value: Some(MockV::Dynamic { asset, input }),
                        errors: seq![],
                        secrets: f.secrets,
                    },
                    Err(d) => Step { value: None, errors: seq![d.at("/mock/with"@)], secrets: f.secrets },
                }
            },
        },
    }
}

/// URL, headers, query and body of a request.
pub struct RequestPartsV {
    pub url: Seq<char>,
    pub headers: Seq<(Seq<char>, Seq<char>)>,
    pub query: Seq<(Seq<char>, Seq<char>)>,
    pub body: BodyV,
}

/// The request of the document. Where the URL has an error there is no request,
/// and the errors of the other parts are told with it.
pub open spec fn request_step(spec: RequestSpecV, inputs: InputsV, scopes: ScopesV) -> Step<Option<RequestPartsV>> {
    let u = text_step(spec.url, scopes, "/request/url"@);
    let h = headers_step(spec.headers, scopes, "/request/headers"@, spec.headers.len() as int);
    let q = headers_step(spec.query, scopes, "/request/query"@, spec.query.len() as int);
    let b = body_step(spec.body, inputs, scopes);
    Step {
        value: match u.value {
            Some(url) => Some(RequestPartsV { url, headers: h.value, query: q.value, body: b.value }),
            None => None,
        },
        errors: u.errors + h.errors + q.errors + b.errors,
        secrets: u.secrets + h.secrets + q.secrets + b.secrets,
    }
}

/// The bindings that the request sees: none where one of them has an error.
pub open spec fn visible_bindings(b: BoundV) -> JsonV {
    if b.errors.len() > 0 {
        JsonV::Object(seq![])
    } else {
        JsonV::Object(b.values)
    }
}

/// The resolved request, or every error, once the bindings are resolved.
pub open spec fn assembled(doc: DocumentV, inputs: InputsV, b: BoundV) -> Result<RequestV, Seq<DiagnosticV>> {
    let bindings = visible_bindings(b);
    let scopes = scopes_with(inputs, bindings);
    let r = request_step(doc.request, inputs, scopes);
    let p = pipeline_step(doc.pipeline, inputs, scopes, doc.pipeline.len() as int);
    let m = mock_step(doc.mock, inputs, scopes);
    let errors = b.errors + r.errors + p.errors + m.errors;
    if errors.len() > 0 || r.value is None {
        Err(errors)
    } else {
        let parts = r.value->Some_0;
        Ok(
            RequestV {
                id: doc.id,
                name: doc.name,
                method: doc.request.method,
                url: parts.url,
                headers: parts.headers,
                query: parts.query,
                body: parts.body,
                pipeline: p.value,
                mock: m.value,
                bindings,
                secret_values: b.secrets + r.secrets + p.secrets + m.secrets,
            },
        )
    }
}

/// What is gathered while a request is built.
pub struct Gathered {
    pub errors: Vec<Diagnostic>,
    pub secrets: Vec<String>,
}

/// `g` holds what it held before and what a step brought.
pub open spec fn gathers<T>(before: Gathered, g: Gathered, step: Step<T>) -> bool {
    &&& views(g.errors@) == views(before.errors@) + step.errors
    &&& views(g.secrets@) == views(before.secrets@) + step.secrets
}

fn interp_string(s: &str, scopes: &Scopes, path: &str, g: &mut Gathered) -> (r: Option<String>)
    ensures
        opt_view(r) == text_step(s@, scopes@, path@).value,
        gathers(*old(g), *final(g), text_step(s@, scopes@, path@)),
{
    broadcast use group_views;

    let ghost start = views(g.errors@);
    assert(start + Seq::<DiagnosticV>::empty() =~= start);
    match interpolate(&Json::String(s.to_owned()), scopes, &mut g.secrets) {
        Ok(v) => Some(to_inline(&v)),
        Err(d) => {
            let placed = d.at(path);
            let ghost view = placed@;
            g.errors.push(placed);
            assert(start.push(view) =~= start + seq![view]);
            None
        },
    }
}

fn resolve_headers(headers: &Vec<HeaderSpec>, scopes: &Scopes, base: &str, g: &mut Gathered) -> (r: Vec<ResolvedHeader>)
    ensures
        views(r@) == headers_step(views(headers@), scopes@, base@, headers@.len() as int).value,
        gathers(*old(g), *final(g), headers_step(views(headers@), scopes@, base@, headers@.len() as int)),
{
    broadcast use group_views;

    let ghost all = views(headers@);
    let ghost errors = views(g.errors@);
    let ghost secrets = views(g.secrets@);
    let mut out: Vec<ResolvedHeader> = Vec::new();
    let mut i: usize = 0;
    assert(errors + Seq::<DiagnosticV>::empty() =~= errors);
    assert(secrets + Seq::<Seq<char>>::empty() =~= secrets);
    while i < headers.len()
        invariant
            i <= headers.len(),
            all == views(headers@),
            views(out@) == headers_step(all, scopes@, base@, i as int).value,
            views(g.errors@) == errors + headers_step(all, scopes@, base@, i as int).errors,
            views(g.secrets@) == secrets + headers_step(all, scopes@, base@, i as int).secrets,
        decreases headers.len() - i,
    {
        let ghost before = headers_step(all, scopes@, base@, i as int);
        let h = &headers[i];
        assert(all[i as int] == h@);
        if h.enabled {
            let path = cat4(base, "/", number_text(i as u64).as_str(), "/value");
            let ghost t = text_step(h@.value, scopes@, path@);
            assert(path@ == header_path(base@, i as int));
            let value = interp_string(h.value.as_str(), scopes, path.as_str(), g);
            assert(errors + before.errors + t.errors =~= errors + (before.errors + t.errors));
            assert(secrets + before.secrets + t.secrets =~= secrets + (before.secrets + t.secrets));
            if let Some(value) = value {
                let ghost list = views(out@);
                let ghost pair = (h@.name, value@);
                out.push(ResolvedHeader { name: h.name.clone(), value });
                assert(views(out@) == list.push(pair));
            }
        }
        i += 1;
    }
    out
}

/// The fields of a form: the members of an object, texts as they are and
/// anything else as JSON.
pub fn value_to_form(v: &Json) -> (r: Vec<ResolvedHeader>)
    ensures
        views(r@) == form_of(v@),
{
    broadcast use group_views;

    let mut out: Vec<ResolvedHeader> = Vec::new();
    if let Some(pairs) = v.as_object() {
        let mut i: usize = 0;
        while i < pairs.len()
            invariant
                i <= pairs.len(),
                out.len() == i,
                forall|k: int|
                    0 <= k < i ==> (#[trigger] out@[k]).name@ == pairs@[k].0@ && out@[k].value@ == inline_text(
                        pairs@[k].1@,
                    ),
            decreases pairs.len() - i,
        {
            out.push(ResolvedHeader { name: pairs[i].0.clone(), value: to_inline(&pairs[i].1) });
            i += 1;
        }
        assert(views(out@) =~= form_of(v@));
    }
    out
}

fn note_error(g: &mut Gathered, d: Diagnostic)
    ensures
        views(final(g).errors@) == views(old(g).errors@) + seq![d@],
        final(g).secrets == old(g).secrets,
{
    broadcast use group_views;

    let ghost start = views(g.errors@);
    let ghost view = d@;
    g.errors.push(d);
    assert(start.push(view) =~= start + seq![view]);
}

fn build_body(body: &Option<BodySpec>, inputs: &BuildInputs, scopes: &Scopes, g: &mut Gathered) -> (r: ResolvedBody)
    ensures
        r@ == body_step(opt_view(*body), inputs@, scopes@).value,
        gathers(*old(g), *final(g), body_step(opt_view(*body), inputs@, scopes@)),
{
    broadcast use group_views;

    let ghost errors = views(g.errors@);
    let ghost secrets = views(g.secrets@);
    assert(errors + Seq::<DiagnosticV>::empty() =~= errors);
    assert(secrets + Seq::<Seq<char>>::empty() =~= secrets);
    match body {
        None => ResolvedBody::Empty,
        Some(BodySpec::Inline(b)) => match &b.value {
            None => ResolvedBody::Empty,
            Some(v) => match interpolate(v, scopes, &mut g.secrets) {
                Err(d) => {
                    note_error(g, d.at("/request/body/value"));
                    ResolvedBody::Empty
                },
                Ok(v) => match b.body_type {
                    BodyType::Json => ResolvedBody::Json(v),
                    BodyType::Text => match v {
                        Json::String(s) => ResolvedBody::Text(s),
                        _ => ResolvedBody::Text(String::new()),
                    },
                    BodyType::Form => ResolvedBody::Form(value_to_form(&v)),
                    BodyType::Empty => ResolvedBody::Empty,
                    BodyType::Multipart | BodyType::Binary => {
                        note_error(
                            g,
                            Diagnostic::new(
                                Code::InvalidAssetInput,
                                "multipart/binary bodies are not supported in v1".to_owned(),
                            ).at("/request/body"),
                        );
                        ResolvedBody::Empty
                    },
                },
            },
        },
        Some(BodySpec::Ref(b)) => match locate(inputs, b.reference.as_str()) {
            Err(d) => {
                note_error(g, d.at("/request/body/ref"));
                ResolvedBody::Empty
            },
            Ok(_) => match load(inputs, b.reference.as_str()) {
                Err(d) => {
                    note_error(g, d.at("/request/body/ref"));
                    ResolvedBody::Empty
                },
                Ok(v) => ResolvedBody::Json(v),
            },
        },
    }
}

fn build_pipeline(entries: &Vec<PipelineEntry>, inputs: &BuildInputs, scopes: &Scopes, g: &mut Gathered) -> (r: Vec<
    ResolvedPipelineEntry,
>)
    ensures
        views(r@) == pipeline_step(views(entries@), inputs@, scopes@, entries@.len() as int).value,
        gathers(*old(g), *final(g), pipeline_step(views(entries@), inputs@, scopes@, entries@.len() as int)),
{
    broadcast use group_views;

    let ghost all = views(entries@);
    let ghost errors = views(g.errors@);
    let ghost secrets = views(g.secrets@);
    let mut out: Vec<ResolvedPipelineEntry> = Vec::new();
    let mut i: usize = 0;
    assert(errors + Seq::<DiagnosticV>::empty() =~= errors);
    assert(secrets + Seq::<Seq<char>>::empty() =~= secrets);
    while i < entries.len()
        invariant
            i <= entries.len(),
            all == views(entries@),
            views(out@) == pipeline_step(all, inputs@, scopes@, i as int).value,
            views(g.errors@) == errors + pipeline_step(all, inputs@, scopes@, i as int).errors,
            views(g.secrets@) == secrets + pipeline_step(all, inputs@, scopes@, i as int).secrets,
        decreases entries.len() - i,
    {
        let ghost before = pipeline_step(all, inputs@, scopes@, i as int);
        let ghost after = pipeline_step(all, inputs@, scopes@, i + 1);
        let e = &entries[i];
        assert(all[i as int] == e@);
        if e.enabled {
            let path = cat2("/pipeline/", number_text(i as u64).as_str());
            match locate(inputs, e.uses.as_str()) {
                Err(d) => {
                    let placed = d.at(path.as_str());
                    let ghost view = placed@;
                    note_error(g, placed);
                    assert(errors + before.errors + seq![view] =~= errors + before.errors.push(view));
                },
                Ok(asset) => {
                    let ghost f = filled(e@.with, scopes@);
                    match interpolate(&e.with, scopes, &mut g.secrets) {
                        Ok(input) => {
                            let ghost list = views(out@);
                            let entry = ResolvedPipelineEntry { phase: e.phase, asset, input };
                            let ghost view = entry@;
                            out.push(entry);
                            assert(views(out@) == list.push(view));
                        },
                        Err(d) => {
                            let placed = d.at(cat2(path.as_str(), "/with").as_str());
                            let ghost view = placed@;
                            note_error(g, placed);
                            assert(errors + before.errors + seq![view] =~= errors + before.errors.push(view));
                        },
                    }
                    assert(secrets + before.secrets + f.secrets =~= secrets + (before.secrets + f.secrets));
                },
            }
        }
        i += 1;
    }
    out
}

fn build_mock(mock: &Option<MockDef>, inputs: &BuildInputs, scopes: &Scopes, g: &mut Gathered) -> (r: Option<ResolvedMock>)
    ensures
        opt_view(r) == mock_step(opt_view(*mock), inputs@, scopes@).value,
        gathers(*old(g), *final(g), mock_step(opt_view(*mock), inputs@, scopes@)),
{
    broadcast use group_views;

    let ghost errors = views(g.errors@);
    let ghost secrets = views(g.secrets@);
    assert(errors + Seq::<DiagnosticV>::empty() =~= errors);
    assert(secrets + Seq::<Seq<char>>::empty() =~= secrets);
    match mock {
        None => None,
        Some(MockDef::Static(m)) => {
            let ghost h = headers_step(views(m.headers@), scopes@, "/mock/headers"@, m.headers@.len() as int);
            let ghost b = body_step(opt_view(m.body), inputs@, scopes@);
            let headers = resolve_headers(&m.headers, scopes, "/mock/headers", g);
            let body = build_body(&m.body, inputs, scopes, g);
            assert(errors + h.errors + b.errors =~= errors + (h.errors + b.errors));
            assert(secrets + h.secrets + b.secrets =~= secrets + (h.secrets + b.secrets));
            let delay_ms: u64 = match m.delay_ms {
                Some(ms) => ms,
                None => 0,
            };
            Some(ResolvedMock::Static { status: m.status, headers, body, delay_ms })
        },
        Some(MockDef::Dynamic(m)) => match locate(inputs, m.uses.as_str()) {
            Err(d) => {
                note_error(g, d.at("/mock/use"));
                None
            },
            Ok(asset) => match interpolate(&m.with, scopes, &mut g.secrets) {
                Ok(input) => Some(ResolvedMock::Dynamic { asset, input }),
                Err(d) => {
                    note_error(g, d.at("/mock/with"));
                    None
                },
            },
        },
    }
}

/// URL, headers, query and body of a request.
pub struct RequestParts {
    pub url: String,
    pub headers: Vec<ResolvedHeader>,
    pub query: Vec<ResolvedHeader>,
    pub body: ResolvedBody,
}

impl View for RequestParts {
    type V = RequestPartsV;

    open spec fn view(&self) -> RequestPartsV {
        RequestPartsV {
            url: self.url@,
            headers: views(self.headers@),
            query: views(self.query@),
            body: self.body@,
        }
    }
}

fn build_request(spec: &RequestSpec, inputs: &BuildInputs, scopes: &Scopes, g: &mut Gathered) -> (r: Option<RequestParts>)
    ensures
        opt_view(r) == request_step(spec@, inputs@, scopes@).value,
        gathers(*old(g), *final(g), request_step(spec@, inputs@, scopes@)),
{
    let ghost errors = views(g.errors@);
    let ghost secrets = views(g.secrets@);
    let ghost u = text_step(spec@.url, scopes@, "/request/url"@);
    let url = interp_string(spec.url.as_str(), scopes, "/request/url", g);
    let ghost h = headers_step(views(spec.headers@), scopes@, "/request/headers"@, spec.headers@.len() as int);
    let ghost q = headers_step(views(spec.query@), scopes@, "/request/query"@, spec.query@.len() as int);
    let ghost b = body_step(opt_view(spec.body), inputs@, scopes@);
    let headers = resolve_headers(&spec.headers, scopes, "/request/headers", g);
    let query = resolve_headers(&spec.query, scopes, "/request/query", g);
    let body = build_body(&spec.body, inputs, scopes, g);
    proof {
        assert(errors + u.errors + h.errors + q.errors + b.errors =~= errors + (u.errors + h.errors + q.errors
            + b.errors));
        assert(secrets + u.secrets + h.secrets + q.secrets + b.secrets =~= secrets + (u.secrets + h.secrets + q.secrets
            + b.secrets));
    }
    match url {
        Some(url) => Some(RequestParts { url, headers, query, body }),
        None => None,
    }
}

/// Build the resolved request, or give every independent error of the
/// document.
pub fn build_ir(doc: &RequestDocument, inputs: &BuildInputs) -> (r: Result<ResolvedRequest, Vec<Diagnostic>>)
    ensures
        exists|b: BoundV| #[trigger]
            may_resolve(doc@.bindings, inputs@, b) && assembled(doc@, inputs@, b) == match r {
                Ok(ir) => Ok::<RequestV, Seq<DiagnosticV>>(ir@),
                Err(errors) => Err::<RequestV, Seq<DiagnosticV>>(views(errors@)),
            },
{
    broadcast use crate::json::lemma_json_view;

    let Bound { values, errors, secrets } = resolve_bindings(&doc.bindings, inputs);
    let ghost b = BoundV { values: values@, errors: views(errors@), secrets: views(secrets@) };
    assert(may_resolve(doc@.bindings, inputs@, b));
    assert(errors@.len() == b.errors.len());
    let bindings = if errors.len() > 0 {
        let none = Json::Object(Vec::new());
        assert(none@->Object_0 =~= seq![]);
        none
    } else {
        object_of(&values)
    };
    assert(bindings@ == visible_bindings(b));
    let scopes = scopes_of(inputs, &bindings);
    let ghost r = request_step(doc@.request, inputs@, scopes@);
    let ghost p = pipeline_step(doc@.pipeline, inputs@, scopes@, doc@.pipeline.len() as int);
    let ghost m = mock_step(doc@.mock, inputs@, scopes@);
    let mut g = Gathered { errors, secrets };
    let parts = build_request(&doc.request, inputs, &scopes, &mut g);
    let pipeline = build_pipeline(&doc.pipeline, inputs, &scopes, &mut g);
    let mock = build_mock(&doc.mock, inputs, &scopes, &mut g);
    assert(views(g.errors@) =~= b.errors + r.errors + p.errors + m.errors);
    assert(views(g.secrets@) =~= b.secrets + r.secrets + p.secrets + m.secrets);
    assert(views(g.errors@).len() == g.errors@.len());
    if g.errors.len() > 0 {
        return Err(g.errors);
    }
    match parts {
        None => Err(g.errors),
        Some(parts) => Ok(
            ResolvedRequest {
                id: doc.meta.id.clone(),
                name: doc.meta.name.clone(),
                method: doc.request.method,
                url: parts.url,
                headers: parts.headers,
                query: parts.query,
                body: parts.body,
                pipeline,
                mock,
                bindings,
                secret_values: g.secrets,
            },
        ),
    }
}

// ---------------------------------------------------------------------
// Laws
// ---------------------------------------------------------------------

/// A document that cannot be resolved is refused with every independent error:
/// those of the bindings, of the URL, the headers, the query and the body, of
/// the pipeline, and of the mock. No part keeps the errors of another back.
pub proof fn lemma_every_error_is_told(doc: DocumentV, inputs: InputsV, b: BoundV)
    ensures
        ({
            let scopes = scopes_with(inputs, visible_bindings(b));
            let spec = doc.request;
            let errors = b.errors + text_step(spec.url, scopes, "/request/url"@).errors + headers_step(
                spec.headers,
                scopes,
                "/request/headers"@,
                spec.headers.len() as int,
            ).errors + headers_step(spec.query, scopes, "/request/query"@, spec.query.len() as int).errors + body_step(
                spec.body,
                inputs,
                scopes,
            ).errors + pipeline_step(doc.pipeline, inputs, scopes, doc.pipeline.len() as int).errors + mock_step(
                doc.mock,
                inputs,
                scopes,
            ).errors;
            match assembled(doc, inputs, b) {
                Ok(_) => errors.len() == 0,
                Err(told) => told == errors && errors.len() > 0,
            }
        }),
{
    let scopes = scopes_with(inputs, visible_bindings(b));
    let spec = doc.request;
    let u = text_step(spec.url, scopes, "/request/url"@);
    let h = headers_step(spec.headers, scopes, "/request/headers"@, spec.headers.len() as int);
    let q = headers_step(spec.query, scopes, "/request/query"@, spec.query.len() as int);
    let y = body_step(spec.body, inputs, scopes);
    let p = pipeline_step(doc.pipeline, inputs, scopes, doc.pipeline.len() as int);
    let m = mock_step(doc.mock, inputs, scopes);
    assert(b.errors + (u.errors + h.errors + q.errors + y.errors) + p.errors + m.errors =~= b.errors + u.errors
        + h.errors + q.errors + y.errors + p.errors + m.errors);
    assert(u.value is None ==> u.errors.len() == 1);
}

} // verus!
