//! `${scope.name}` references in request documents.

use vstd::prelude::*;

use crate::json::{member, print, printed, Json, JsonV};
use crate::map::{lookup, pairs_view, TextMap};
use crate::reqv1::diag::{diag, Code, Diagnostic, DiagnosticV};
use crate::text::{cat3, chars_of, find_from, first_at, lemma_first_at, occurs_at, same, text_between};
use crate::view::{group_views, opt_view, views};
use crate::words::{split, split_on};

verus! {

broadcast use vstd::string::group_string_axioms;

/// The values that references are looked up in.
#[derive(Debug)]
pub struct Scopes {
    pub env: Json,
    pub bindings: Json,
    pub matrix: Json,
    pub runtime: Json,
    pub secrets: TextMap<String>,
    /// The value of every secret that is not among these, if there is one.
    pub placeholder: Option<String>,
}

/// What [`Scopes`] hold.
pub struct ScopesV {
    pub env: JsonV,
    pub bindings: JsonV,
    pub matrix: JsonV,
    pub runtime: JsonV,
    pub secrets: Seq<(Seq<char>, Seq<char>)>,
    pub placeholder: Option<Seq<char>>,
}

impl View for Scopes {
    type V = ScopesV;

    open spec fn view(&self) -> ScopesV {
        ScopesV {
            env: self.env@,
            bindings: self.bindings@,
            matrix: self.matrix@,
            runtime: self.runtime@,
            secrets: self.secrets@,
            placeholder: opt_view(self.placeholder),
        }
    }
}

/// What a reference gives, and whether that is a secret.
pub struct FoundV {
    pub value: JsonV,
    pub secret: bool,
}

/// The value at the end of a path of member names.
pub open spec fn walk(v: JsonV, path: Seq<Seq<char>>) -> Option<JsonV>
    decreases path.len(),
{
    if path.len() == 0 {
        Some(v)
    } else {
        match member(v, path[0]) {
            Some(inner) => walk(inner, path.skip(1)),
            None => None,
        }
    }
}

/// The scope called `name`.
pub open spec fn scope_value(scopes: ScopesV, name: Seq<char>) -> Option<JsonV> {
    if name == "env"@ {
        Some(scopes.env)
    } else if name == "bindings"@ {
        Some(scopes.bindings)
    } else if name == "matrix"@ {
        Some(scopes.matrix)
    } else if name == "runtime"@ {
        Some(scopes.runtime)
    } else {
        None
    }
}

/// The value of a secret.
pub open spec fn secret_found(scopes: ScopesV, name: Seq<char>) -> Option<Seq<char>> {
    match lookup(scopes.secrets, name) {
        Some(s) => Some(s),
        None => scopes.placeholder,
    }
}

/// What the reference `name` gives: a member of a scope, or a secret.
pub open spec fn found(scopes: ScopesV, name: Seq<char>) -> Option<FoundV> {
    let path = split_on(name, '.');
    if path[0] == "secret"@ {
        if path.len() == 2 {
            match secret_found(scopes, path[1]) {
                Some(s) => Some(FoundV { value: JsonV::String(s), secret: true }),
                None => None,
            }
        } else {
            None
        }
    } else {
        match scope_value(scopes, path[0]) {
            None => None,
            Some(v) => match walk(v, path.skip(1)) {
                Some(value) => Some(FoundV { value, secret: false }),
                None => None,
            },
        }
    }
}

/// The diagnostic for a reference that gives nothing.
pub open spec fn missing(name: Seq<char>) -> DiagnosticV {
    diag(Code::MissingVariable, "unresolved variable ${"@ + name + "}"@)
}

/// A value in the midst of a text: a text as it is, anything else as JSON.
pub open spec fn inline_text(v: JsonV) -> Seq<char> {
    match v {
        JsonV::String(s) => s,
        _ => printed(v),
    }
}

/// An outcome and the secrets that went into it.
pub struct Filled<T> {
    pub outcome: Result<T, DiagnosticV>,
    pub secrets: Seq<Seq<char>>,
}

/// The secrets that a reference brings.
pub open spec fn secrets_of(f: FoundV) -> Seq<Seq<char>> {
    if f.secret {
        seq![inline_text(f.value)]
    } else {
        seq![]
    }
}

/// The text from `from` on with every reference filled in; what is not closed
/// is no reference.
pub open spec fn filled_text(s: Seq<char>, scopes: ScopesV, from: int) -> Filled<Seq<char>>
    decreases s.len() - from,
{
    if from < 0 || from > s.len() {
        Filled { outcome: Ok(seq![]), secrets: seq![] }
    } else {
        match first_at(s, "${"@, from) {
            None => Filled { outcome: Ok(s.skip(from)), secrets: seq![] },
            Some(open) => match first_at(s, "}"@, open + 2) {
                None => Filled { outcome: Ok(s.skip(from)), secrets: seq![] },
                Some(close) => if !(from <= open && open + 2 <= close && close < s.len()) {
                    Filled { outcome: Ok(seq![]), secrets: seq![] }
                } else {
                    match found(scopes, s.subrange(open + 2, close)) {
                        None => Filled { outcome: Err(missing(s.subrange(open + 2, close))), secrets: seq![] },
                        Some(f) => {
                            let rest = filled_text(s, scopes, close + 1);
                            Filled {
                                outcome: match rest.outcome {
                                    Ok(tail) => Ok(s.subrange(from, open) + inline_text(f.value) + tail),
                                    Err(d) => Err(d),
                                },
                                secrets: secrets_of(f) + rest.secrets,
                            }
                        },
                    }
                },
            },
        }
    }
}

/// The name in a text that is one reference and nothing else.
pub open spec fn lone_reference(s: Seq<char>) -> Option<Seq<char>> {
    if occurs_at(s, "${"@, 0) && first_at(s, "}"@, 2) == Some(s.len() - 1) {
        Some(s.subrange(2, s.len() - 1))
    } else {
        None
    }
}

/// The value with every reference in its texts filled in. A text that is one
/// reference becomes the value itself.
pub open spec fn filled(v: JsonV, scopes: ScopesV) -> Filled<JsonV>
    decreases v,
{
    match v {
        JsonV::String(s) => match lone_reference(s) {
            Some(name) => match found(scopes, name) {
                Some(f) => Filled { outcome: Ok(f.value), secrets: secrets_of(f) },
                None => Filled { outcome: Err(missing(name)), secrets: seq![] },
            },
            None => {
                let t = filled_text(s, scopes, 0);
                Filled {
                    outcome: match t.outcome {
                        Ok(text) => Ok(JsonV::String(text)),
                        Err(d) => Err(d),
                    },
                    secrets: t.secrets,
                }
            },
        },
        JsonV::Array(items) => {
            let f = filled_items(items, scopes, items.len() as int);
            Filled {
                outcome: match f.outcome {
                    Ok(items) => Ok(JsonV::Array(items)),
                    Err(d) => Err(d),
                },
                secrets: f.secrets,
            }
        },
        JsonV::Object(pairs) => {
            let f = filled_pairs(pairs, scopes, pairs.len() as int);
            Filled {
                outcome: match f.outcome {
                    Ok(pairs) => Ok(JsonV::Object(pairs)),
                    Err(d) => Err(d),
                },
                secrets: f.secrets,
            }
        },
        _ => Filled { outcome: Ok(v), secrets: seq![] },
    }
}

/// The first `n` items filled in; the first error ends it.
pub open spec fn filled_items(items: Seq<JsonV>, scopes: ScopesV, n: int) -> Filled<Seq<JsonV>>
    decreases items, n,
{
    if n <= 0 || n > items.len() {
        Filled { outcome: Ok(seq![]), secrets: seq![] }
    } else {
        let before = filled_items(items, scopes, n - 1);
        match before.outcome {
            Err(_) => before,
            Ok(list) => {
                let f = filled(items[n - 1], scopes);
                Filled {
                    outcome: match f.outcome {
                        Ok(v) => Ok(list.push(v)),
                        Err(d) => Err(d),
                    },
                    secrets: before.secrets + f.secrets,
                }
            },
        }
    }
}

/// The values of the first `n` pairs filled in; the first error ends it.
pub open spec fn filled_pairs(pairs: Seq<(Seq<char>, JsonV)>, scopes: ScopesV, n: int) -> Filled<
    Seq<(Seq<char>, JsonV)>,
>
    decreases pairs, n,
{
    if n <= 0 || n > pairs.len() {
        Filled { outcome: Ok(seq![]), secrets: seq![] }
    } else {
        let before = filled_pairs(pairs, scopes, n - 1);
        match before.outcome {
            Err(_) => before,
            Ok(list) => {
                let f = filled(pairs[n - 1].1, scopes);
                Filled {
                    outcome: match f.outcome {
                        Ok(v) => Ok(list.push((pairs[n - 1].0, v))),
                        Err(d) => Err(d),
                    },
                    secrets: before.secrets + f.secrets,
                }
            },
        }
    }
}

fn follow<'a>(v: &'a Json, path: &Vec<String>, from: usize) -> (r: Option<&'a Json>)
    requires
        from <= path@.len(),
    ensures
        match r {
            Some(x) => walk(v@, views(path@).skip(from as int)) == Some(x@),
            None => walk(v@, views(path@).skip(from as int)) is None,
        },
    decreases path@.len() - from,
{
    let ghost left = views(path@).skip(from as int);
    if from == path.len() {
        return Some(v);
    }
    assert(left[0] == path@[from as int]@);
    assert(left.skip(1) =~= views(path@).skip(from + 1));
    match v.get(path[from].as_str()) {
        Some(inner) => follow(inner, path, from + 1),
        None => None,
    }
}

/// Look a reference up; the flag tells whether it is a secret.
pub fn find_variable(scopes: &Scopes, name: &str) -> (r: Option<(Json, bool)>)
    ensures
        match r {
            Some((v, secret)) => found(scopes@, name@) == Some(FoundV { value: v@, secret }),
            None => found(scopes@, name@) is None,
        },
{
    let path = split(name, '.');
    assert(views(path@)[0] == path@[0]@);
    let head = path[0].as_str();
    if same(head, "secret") {
        if path.len() != 2 {
            return None;
        }
        assert(views(path@)[1] == path@[1]@);
        return match scopes.secrets.get(path[1].as_str()) {
            Some(s) => Some((Json::String(s.clone()), true)),
            None => match &scopes.placeholder {
                Some(s) => Some((Json::String(s.clone()), true)),
                None => None,
            },
        };
    }
    let scope = if same(head, "env") {
        &scopes.env
    } else if same(head, "bindings") {
        &scopes.bindings
    } else if same(head, "matrix") {
        &scopes.matrix
    } else if same(head, "runtime") {
        &scopes.runtime
    } else {
        return None;
    };
    match follow(scope, &path, 1) {
        Some(v) => Some((v.copy(), false)),
        None => None,
    }
}

/// A value in the midst of a text: a text as it is, anything else as JSON.
pub fn to_inline(v: &Json) -> (r: String)
    ensures
        r@ == inline_text(v@),
{
    match v {
        Json::String(s) => s.clone(),
        _ => print(v),
    }
}

fn missing_variable(name: &str) -> (r: Diagnostic)
    ensures
        r@ == missing(name@),
{
    Diagnostic::new(Code::MissingVariable, cat3("unresolved variable ${", name, "}"))
}

/// A text or a diagnostic, by their views.
pub open spec fn text_filled(r: Result<String, Diagnostic>) -> Result<Seq<char>, DiagnosticV> {
    match r {
        Ok(s) => Ok(s@),
        Err(d) => Err(d@),
    }
}

fn fill_from(chars: &Vec<char>, scopes: &Scopes, from: usize, secrets: &mut Vec<String>) -> (r: Result<
    String,
    Diagnostic,
>)
    requires
        from <= chars@.len(),
    ensures
        text_filled(r) == filled_text(chars@, scopes@, from as int).outcome,
        views(final(secrets)@) == views(old(secrets)@) + filled_text(chars@, scopes@, from as int).secrets,
    decreases chars@.len() - from,
{
    broadcast use group_views;

    proof {
        reveal_strlit("${");
        reveal_strlit("}");
        lemma_first_at(chars@, "${"@, from as int);
        assert(chars@.subrange(from as int, chars@.len() as int) =~= chars@.skip(from as int));
        assert(views(secrets@) + Seq::<Seq<char>>::empty() =~= views(secrets@));
    }
    let open = match find_from(chars, &chars_of("${"), from) {
        None => {
            return Ok(text_between(chars, from, chars.len()));
        },
        Some(open) => open,
    };
    proof {
        lemma_first_at(chars@, "}"@, open + 2);
    }
    let close = match find_from(chars, &chars_of("}"), open + 2) {
        None => {
            return Ok(text_between(chars, from, chars.len()));
        },
        Some(close) => close,
    };
    let name = text_between(chars, open + 2, close);
    match find_variable(scopes, name.as_str()) {
        None => Err(missing_variable(name.as_str())),
        Some((v, secret)) => {
            let ghost f = FoundV { value: v@, secret };
            let ghost before = views(secrets@);
            let text = to_inline(&v);
            if secret {
                secrets.push(text.clone());
            }
            assert(views(secrets@) =~= before + secrets_of(f));
            let rest = fill_from(chars, scopes, close + 1, secrets);
            let ghost tail = filled_text(chars@, scopes@, close + 1);
            assert(before + secrets_of(f) + tail.secrets =~= before + (secrets_of(f) + tail.secrets));
            match rest {
                Err(d) => Err(d),
                Ok(tail) => {
                    let mut out = text_between(chars, from, open);
                    out.append(text.as_str());
                    out.append(tail.as_str());
                    Ok(out)
                },
            }
        },
    }
}

fn one_reference(s: &str) -> (r: Option<String>)
    ensures
        match r {
            Some(name) => lone_reference(s@) == Some(name@),
            None => lone_reference(s@) is None,
        },
{
    let chars = chars_of(s);
    let opening = chars_of("${");
    proof {
        reveal_strlit("${");
        reveal_strlit("}");
        lemma_first_at(s@, "}"@, 2);
    }
    if !crate::text::matches_at(&chars, &opening, 0) {
        return None;
    }
    match find_from(&chars, &chars_of("}"), 2) {
        Some(at) => {
            if at == chars.len() - 1 {
                Some(text_between(&chars, 2, at))
            } else {
                None
            }
        },
        None => None,
    }
}

/// A value or a diagnostic, by their views.
pub open spec fn json_filled(r: Result<Json, Diagnostic>) -> Result<JsonV, DiagnosticV> {
    match r {
        Ok(v) => Ok(v@),
        Err(d) => Err(d@),
    }
}

proof fn lemma_items_cut(items: Seq<JsonV>, scopes: ScopesV, n: int, m: int)
    requires
        0 <= n <= m <= items.len(),
        filled_items(items, scopes, n).outcome is Err,
    ensures
        filled_items(items, scopes, m) == filled_items(items, scopes, n),
    decreases m - n,
{
    if n < m {
        lemma_items_cut(items, scopes, n, m - 1);
    }
}

proof fn lemma_pairs_cut(pairs: Seq<(Seq<char>, JsonV)>, scopes: ScopesV, n: int, m: int)
    requires
        0 <= n <= m <= pairs.len(),
        filled_pairs(pairs, scopes, n).outcome is Err,
    ensures
        filled_pairs(pairs, scopes, m) == filled_pairs(pairs, scopes, n),
    decreases m - n,
{
    if n < m {
        lemma_pairs_cut(pairs, scopes, n, m - 1);
    }
}

/// Fill in every reference in the texts of a value, and keep the secrets that
/// went into it.
pub fn interpolate(v: &Json, scopes: &Scopes, secrets: &mut Vec<String>) -> (r: Result<Json, Diagnostic>)
    ensures
        json_filled(r) == filled(v@, scopes@).outcome,
        views(final(secrets)@) == views(old(secrets)@) + filled(v@, scopes@).secrets,
    decreases v,
{
    broadcast use group_views;
    broadcast use crate::json::lemma_json_view;

    let ghost start = views(secrets@);
    assert(start + Seq::<Seq<char>>::empty() =~= start);
    match v {
        Json::Null => Ok(Json::Null),
        Json::Bool(b) => Ok(Json::Bool(*b)),
        Json::Number(n) => Ok(Json::Number(n.copy())),
        Json::String(s) => {
            if let Some(name) = one_reference(s.as_str()) {
                return match find_variable(scopes, name.as_str()) {
                    None => Err(missing_variable(name.as_str())),
                    Some((value, secret)) => {
                        if secret {
                            secrets.push(to_inline(&value));
                        }
                        assert(views(secrets@) =~= start + secrets_of(FoundV { value: value@, secret }));
                        Ok(value)
                    },
                };
            }
            let chars = chars_of(s.as_str());
            match fill_from(&chars, scopes, 0, secrets) {
                Ok(text) => Ok(Json::String(text)),
                Err(d) => Err(d),
            }
        },
        Json::Array(items) => {
            let ghost all = views(items@);
            let mut out: Vec<Json> = Vec::new();
            let mut i: usize = 0;
            while i < items.len()
                invariant
                    i <= items.len(),
                    *v == Json::Array(*items),
                    all == views(items@),
                    v@ == JsonV::Array(all),
                    start == views(old(secrets)@),
                    filled_items(all, scopes@, i as int).outcome == Ok::<Seq<JsonV>, DiagnosticV>(views(out@)),
                    views(secrets@) == start + filled_items(all, scopes@, i as int).secrets,
                decreases items.len() - i,
            {
                proof {
                    crate::json::lemma_item_decreases(*v, i as int);
                }
                let ghost before = filled_items(all, scopes@, i as int);
                let ghost f = filled(all[i as int], scopes@);
                match interpolate(&items[i], scopes, secrets) {
                    Ok(x) => {
                        let ghost list = views(out@);
                        let ghost item = x@;
                        out.push(x);
                        assert(views(out@) == list.push(item));
                        assert(start + before.secrets + f.secrets =~= start + (before.secrets + f.secrets));
                    },
                    Err(d) => {
                        proof {
                            assert(start + before.secrets + f.secrets =~= start + (before.secrets + f.secrets));
                            lemma_items_cut(all, scopes@, i + 1, all.len() as int);
                        }
                        return Err(d);
                    },
                }
                i += 1;
            }
            Ok(Json::Array(out))
        },
        Json::Object(pairs) => {
            let ghost all = pairs_view(pairs@);
            let mut out: Vec<(String, Json)> = Vec::new();
            let mut i: usize = 0;
            assert(pairs_view(out@) =~= Seq::empty());
            while i < pairs.len()
                invariant
                    i <= pairs.len(),
                    *v == Json::Object(*pairs),
                    all == pairs_view(pairs@),
                    v@ == JsonV::Object(all),
                    start == views(old(secrets)@),
                    filled_pairs(all, scopes@, i as int).outcome == Ok::<Seq<(Seq<char>, JsonV)>, DiagnosticV>(
                        pairs_view(out@),
                    ),
                    views(secrets@) == start + filled_pairs(all, scopes@, i as int).secrets,
                decreases pairs.len() - i,
            {
                proof {
                    crate::json::lemma_member_decreases(*v, i as int);
                }
                let ghost before = filled_pairs(all, scopes@, i as int);
                let ghost f = filled(all[i as int].1, scopes@);
                match interpolate(&pairs[i].1, scopes, secrets) {
                    Ok(x) => {
                        let ghost list = pairs_view(out@);
                        let ghost item = x@;
                        out.push((pairs[i].0.clone(), x));
                        assert(pairs_view(out@) =~= list.push((all[i as int].0, item)));
                        assert(start + before.secrets + f.secrets =~= start + (before.secrets + f.secrets));
                    },
                    Err(d) => {
                        proof {
                            assert(start + before.secrets + f.secrets =~= start + (before.secrets + f.secrets));
                            lemma_pairs_cut(all, scopes@, i + 1, all.len() as int);
                        }
                        return Err(d);
                    },
                }
                i += 1;
            }
            Ok(Json::Object(out))
        },
    }
}

// ---------------------------------------------------------------------
// Laws
// ---------------------------------------------------------------------

/// Two scopes that differ in their secrets at most.
pub open spec fn same_but_secrets(a: ScopesV, b: ScopesV) -> bool {
    a.env == b.env && a.bindings == b.bindings && a.matrix == b.matrix && a.runtime == b.runtime
}

proof fn lemma_plain_reference(a: ScopesV, b: ScopesV, name: Seq<char>)
    requires
        same_but_secrets(a, b),
        found(a, name) is Some,
        !found(a, name)->Some_0.secret,
    ensures
        found(b, name) == found(a, name),
{
}

proof fn lemma_unnoted_text(s: Seq<char>, a: ScopesV, b: ScopesV, from: int)
    requires
        same_but_secrets(a, b),
        filled_text(s, a, from).outcome is Ok,
        filled_text(s, a, from).secrets.len() == 0,
    ensures
        filled_text(s, b, from) == filled_text(s, a, from),
    decreases s.len() - from,
{
    if 0 <= from <= s.len() {
        if let Some(open) = first_at(s, "${"@, from) {
            if let Some(close) = first_at(s, "}"@, open + 2) {
                if from <= open && open + 2 <= close && close < s.len() {
                    let name = s.subrange(open + 2, close);
                    lemma_plain_reference(a, b, name);
                    lemma_unnoted_text(s, a, b, close + 1);
                }
            }
        }
    }
}

/// Every secret that goes into a value is noted: a value with which no secret
/// was noted does not depend on the secrets at all.
pub proof fn lemma_every_secret_is_noted(v: JsonV, a: ScopesV, b: ScopesV)
    requires
        same_but_secrets(a, b),
        filled(v, a).outcome is Ok,
        filled(v, a).secrets.len() == 0,
    ensures
        filled(v, b) == filled(v, a),
    decreases v,
{
    match v {
        JsonV::String(s) => match lone_reference(s) {
            Some(name) => {
                lemma_plain_reference(a, b, name);
            },
            None => {
                lemma_unnoted_text(s, a, b, 0);
            },
        },
        JsonV::Array(items) => {
            lemma_unnoted_items(items, a, b, items.len() as int);
        },
        JsonV::Object(pairs) => {
            lemma_unnoted_pairs(pairs, a, b, pairs.len() as int);
        },
        _ => {},
    }
}

proof fn lemma_unnoted_items(items: Seq<JsonV>, a: ScopesV, b: ScopesV, n: int)
    requires
        same_but_secrets(a, b),
        filled_items(items, a, n).outcome is Ok,
        filled_items(items, a, n).secrets.len() == 0,
    ensures
        filled_items(items, b, n) == filled_items(items, a, n),
    decreases items, n,
{
    if 0 < n <= items.len() {
        lemma_unnoted_items(items, a, b, n - 1);
        assert(decreases_to!(items => items[n - 1]));
        lemma_every_secret_is_noted(items[n - 1], a, b);
    }
}

proof fn lemma_unnoted_pairs(pairs: Seq<(Seq<char>, JsonV)>, a: ScopesV, b: ScopesV, n: int)
    requires
        same_but_secrets(a, b),
        filled_pairs(pairs, a, n).outcome is Ok,
        filled_pairs(pairs, a, n).secrets.len() == 0,
    ensures
        filled_pairs(pairs, b, n) == filled_pairs(pairs, a, n),
    decreases pairs, n,
{
    if 0 < n <= pairs.len() {
        lemma_unnoted_pairs(pairs, a, b, n - 1);
        assert(decreases_to!(pairs => pairs[n - 1]));
        lemma_every_secret_is_noted(pairs[n - 1].1, a, b);
    }
}

} // verus!
