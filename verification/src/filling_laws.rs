//! What holds of texts whose variables are filled in: `{{name}}` in stored
//! requests, `${scope.name}` in request documents.

use vstd::prelude::*;

use crate::json::{member, printed, JsonV};
use crate::map::lookup;
use crate::model::environment::EnvVarV;
use crate::reqv1::diag::{Code, DiagnosticV, Severity};
use crate::reqv1::vars::{
    filled, filled_items, filled_pairs, filled_text, found, inline_text, lone_reference, secrets_of, walk, Filled, FoundV,
    ScopesV,
};
use crate::text::{first_at, is_space, lemma_first_at, occurs_at};
use crate::vars::{environment_layer, expanded, expanded_from, layered, LayerV};
use crate::words::{lemma_split_on, split_on, trimmed, trimmed_end, trimmed_start};

verus! {

broadcast use vstd::string::group_string_axioms;

// ---------------------------------------------------------------------
// Texts
// ---------------------------------------------------------------------

/// No white space at either end.
pub open spec fn bare(s: Seq<char>) -> bool {
    s.len() > 0 ==> !is_space(s[0]) && !is_space(s.last())
}

/// All of it is white space.
pub open spec fn blank(s: Seq<char>) -> bool {
    forall|i: int| 0 <= i < s.len() ==> is_space(#[trigger] s[i])
}

proof fn lemma_trim_start(space: Seq<char>, s: Seq<char>)
    requires
        blank(space),
        s.len() > 0 ==> !is_space(s[0]),
    ensures
        trimmed_start(space + s) == s,
    decreases space.len(),
{
    if space.len() == 0 {
        assert(space + s =~= s);
    } else {
        assert(is_space(space[0]));
        assert((space + s).skip(1) =~= space.skip(1) + s);
        assert forall|i: int| 0 <= i < space.skip(1).len() implies is_space(#[trigger] space.skip(1)[i]) by {
            assert(is_space(space[i + 1]));
        }
        lemma_trim_start(space.skip(1), s);
    }
}

proof fn lemma_trim_end(s: Seq<char>, space: Seq<char>)
    requires
        blank(space),
        s.len() > 0 ==> !is_space(s.last()),
    ensures
        trimmed_end(s + space) == s,
    decreases space.len(),
{
    if space.len() == 0 {
        assert(s + space =~= s);
    } else {
        assert(is_space(space[space.len() - 1]));
        assert((s + space).drop_last() =~= s + space.drop_last());
        assert forall|i: int| 0 <= i < space.drop_last().len() implies is_space(#[trigger] space.drop_last()[i]) by {
            assert(is_space(space[i]));
        }
        lemma_trim_end(s, space.drop_last());
    }
}

/// White space around a text is trimmed, and nothing else.
pub proof fn lemma_trim_takes_the_space_around(before: Seq<char>, s: Seq<char>, after: Seq<char>)
    requires
        blank(before),
        bare(s),
        blank(after),
    ensures
        trimmed(before + s + after) == s,
{
    if s.len() == 0 {
        assert(before + s + after =~= (before + after) + Seq::empty());
        assert forall|i: int| 0 <= i < (before + after).len() implies is_space(#[trigger] (before + after)[i]) by {
            if i < before.len() {
                assert(is_space(before[i]));
            } else {
                assert(is_space(after[i - before.len()]));
            }
        }
        lemma_trim_start(before + after, Seq::empty());
        lemma_trim_end(Seq::empty(), Seq::empty());
        assert(Seq::<char>::empty() + Seq::<char>::empty() =~= Seq::<char>::empty());
        assert(s =~= Seq::empty());
    } else {
        assert(before + s + after =~= before + (s + after));
        lemma_trim_start(before, s + after);
        lemma_trim_end(s, after);
    }
}

proof fn lemma_first_at_shift(s: Seq<char>, pat: Seq<char>, from: int, k: int)
    requires
        0 <= k <= from <= s.len(),
    ensures
        first_at(s, pat, from) == match first_at(s.skip(k), pat, from - k) {
            Some(i) => Some(i + k),
            None => None,
        },
    decreases s.len() - from,
{
    let t = s.skip(k);
    assert(occurs_at(s, pat, from) == occurs_at(t, pat, from - k)) by {
        if from + pat.len() <= s.len() {
            assert(s.subrange(from, from + pat.len()) =~= t.subrange(from - k, from - k + pat.len()));
        }
    }
    if !occurs_at(s, pat, from) && from < s.len() {
        lemma_first_at_shift(s, pat, from + 1, k);
    } else if !occurs_at(s, pat, from) {
        assert(first_at(s, pat, from + 1) is None);
        assert(first_at(t, pat, from - k + 1) is None);
    }
}

/// The first place at which a text stands.
pub(crate) proof fn lemma_first_is(s: Seq<char>, pat: Seq<char>, at: int, from: int)
    requires
        0 <= from <= at,
        occurs_at(s, pat, at),
        forall|k: int| from <= k < at ==> !#[trigger] occurs_at(s, pat, k),
    ensures
        first_at(s, pat, from) == Some(at),
{
    lemma_first_at(s, pat, from);
}

proof fn lemma_expanded_shift(s: Seq<char>, layers: Seq<LayerV>, from: int)
    requires
        0 <= from <= s.len(),
    ensures
        expanded_from(s, layers, from) == expanded(s.skip(from), layers),
    decreases s.len() - from,
{
    let t = s.skip(from);
    lemma_first_at_shift(s, "{{"@, from, from);
    lemma_first_at(s, "{{"@, from);
    reveal_strlit("{{");
    reveal_strlit("}}");
    assert(t.skip(0) =~= t);
    if let Some(open) = first_at(s, "{{"@, from) {
        assert(open + 2 <= s.len());
        lemma_first_at_shift(s, "}}"@, open + 2, from);
        lemma_first_at(s, "}}"@, open + 2);
        if let Some(close) = first_at(s, "}}"@, open + 2) {
            assert(close + 2 <= s.len());
            assert(s.subrange(open + 2, close) =~= t.subrange(open - from + 2, close - from));
            assert(s.subrange(from, open) =~= t.subrange(0, open - from));
            lemma_expanded_shift(s, layers, close + 2);
            lemma_expanded_shift(t, layers, close - from + 2);
            assert(t.skip(close - from + 2) =~= s.skip(close + 2));
        }
    }
}

// ---------------------------------------------------------------------
// Stored requests
// ---------------------------------------------------------------------

/// A variable in a text is replaced by its value, what stands before it stays
/// as it is, and the rest is filled in in turn. White space around the name
/// does not count. A name that no layer knows is the error.
pub proof fn lemma_variable_is_replaced(
    before: Seq<char>,
    left: Seq<char>,
    name: Seq<char>,
    right: Seq<char>,
    rest: Seq<char>,
    layers: Seq<LayerV>,
)
    requires
        !before.contains('{'),
        !name.contains('}'),
        bare(name),
        blank(left),
        blank(right),
    ensures
        expanded(before + "{{"@ + left + name + right + "}}"@ + rest, layers) == match layered(layers, name) {
            None => Err::<Seq<char>, Seq<char>>(name),
            Some(value) => match expanded(rest, layers) {
                Ok(tail) => Ok::<Seq<char>, Seq<char>>(before + value + tail),
                Err(other) => Err(other),
            },
        },
{
    reveal_strlit("{{");
    reveal_strlit("}}");
    let inner = left + name + right;
    let s = before + "{{"@ + left + name + right + "}}"@ + rest;
    let open = before.len() as int;
    let close = open + 2 + inner.len();
    assert(s =~= before + "{{"@ + inner + "}}"@ + rest);
    assert(s.subrange(open, open + 2) =~= "{{"@);
    assert forall|k: int| 0 <= k < open implies !#[trigger] occurs_at(s, "{{"@, k) by {
        if occurs_at(s, "{{"@, k) {
            assert(s.subrange(k, k + 2)[0] == '{');
            assert(before[k] == '{');
            assert(before.contains(before[k]));
        }
    }
    lemma_first_is(s, "{{"@, open, 0);
    assert(s.subrange(close, close + 2) =~= "}}"@);
    assert forall|k: int| open + 2 <= k < close implies !#[trigger] occurs_at(s, "}}"@, k) by {
        if occurs_at(s, "}}"@, k) {
            assert(s.subrange(k, k + 2)[0] == '}');
            let i = k - open - 2;
            assert(inner[i] == '}');
            if i < left.len() {
                assert(is_space(left[i]));
            } else if i < left.len() + name.len() {
                assert(name.contains(name[i - left.len()]));
            } else {
                assert(is_space(right[i - left.len() - name.len()]));
            }
        }
    }
    lemma_first_is(s, "}}"@, close, open + 2);
    assert(s.subrange(open + 2, close) =~= inner);
    lemma_trim_takes_the_space_around(left, name, right);
    assert(s.subrange(0, open) =~= before);
    lemma_expanded_shift(s, layers, close + 2);
    assert(s.skip(close + 2) =~= rest);
}

/// A name has the value of the first layer that knows it, and none where no
/// layer does.
pub proof fn lemma_first_layer_decides(layers: Seq<LayerV>, name: Seq<char>)
    ensures
        layered(layers, name) is None <==> forall|i: int|
            0 <= i < layers.len() ==> lookup(#[trigger] layers[i], name) is None,
        forall|i: int|
            #![trigger lookup(layers[i], name)]
            0 <= i < layers.len() && lookup(layers[i], name) is Some && (forall|j: int|
                0 <= j < i ==> lookup(#[trigger] layers[j], name) is None) ==> layered(layers, name) == lookup(
                layers[i],
                name,
            ),
    decreases layers.len(),
{
    if layers.len() > 0 {
        let rest = layers.skip(1);
        lemma_first_layer_decides(rest, name);
        if lookup(layers[0], name) is None {
            assert forall|i: int|
                #![trigger lookup(layers[i], name)]
                0 <= i < layers.len() && lookup(layers[i], name) is Some && (forall|j: int|
                    0 <= j < i ==> lookup(#[trigger] layers[j], name) is None) implies layered(layers, name) == lookup(
                layers[i],
                name,
            ) by {
                assert(rest[i - 1] == layers[i]);
                assert forall|j: int| 0 <= j < i - 1 implies lookup(#[trigger] rest[j], name) is None by {
                    assert(rest[j] == layers[j + 1]);
                }
                assert(lookup(rest[i - 1], name) is Some);
            }
            if layered(layers, name) is None {
                assert forall|i: int| 0 <= i < layers.len() implies lookup(#[trigger] layers[i], name) is None by {
                    if i > 0 {
                        assert(rest[i - 1] == layers[i]);
                    }
                }
            } else if forall|i: int| 0 <= i < layers.len() ==> lookup(#[trigger] layers[i], name) is None {
                assert forall|i: int| 0 <= i < rest.len() implies lookup(#[trigger] rest[i], name) is None by {
                    assert(rest[i] == layers[i + 1]);
                }
            }
        }
    }
}

/// A variable of an environment has the value that it is given; a secret has
/// the value that is kept apart, never one that stands in the environment. A
/// variable without a value has none.
pub proof fn lemma_environment_values(vars: Seq<(Seq<char>, EnvVarV)>, secrets: LayerV, i: int)
    requires
        crate::map::ascending(vars),
        0 <= i < vars.len(),
    ensures
        lookup(environment_layer(vars, secrets), vars[i].0) == if vars[i].1.secret {
            lookup(secrets, vars[i].0)
        } else {
            vars[i].1.value
        },
{
    lemma_environment_prefix(vars, secrets, vars.len() as int, i);
    assert(vars.take(vars.len() as int) =~= vars);
}

proof fn lemma_environment_prefix(vars: Seq<(Seq<char>, EnvVarV)>, secrets: LayerV, n: int, i: int)
    requires
        crate::map::ascending(vars),
        0 <= n <= vars.len(),
        0 <= i < vars.len(),
    ensures
        lookup(environment_layer(vars.take(n), secrets), vars[i].0) == if i >= n {
            None
        } else if vars[i].1.secret {
            lookup(secrets, vars[i].0)
        } else {
            vars[i].1.value
        },
    decreases n,
{
    if n > 0 {
        lemma_environment_prefix(vars, secrets, n - 1, i);
        assert(vars.take(n).drop_last() =~= vars.take(n - 1));
        let before = environment_layer(vars.take(n - 1), secrets);
        let (name, var) = vars[n - 1];
        let value = if var.secret {
            lookup(secrets, name)
        } else {
            var.value
        };
        if i == n - 1 {
            if let Some(v) = value {
                crate::map::lemma_put_is_read_back(before, name, v);
            }
        } else {
            if i < n - 1 {
                assert(crate::map::precedes(vars[i].0, vars[n - 1].0));
            } else {
                assert(crate::map::precedes(vars[n - 1].0, vars[i].0));
            }
            crate::map::lemma_precedes_irreflexive(name);
            if let Some(v) = value {
                crate::map::lemma_put_leaves_others(before, name, v, vars[i].0);
            }
        }
    }
}

// ---------------------------------------------------------------------
// Request documents
// ---------------------------------------------------------------------

proof fn lemma_split_more(a: Seq<char>, b: Seq<char>)
    requires
        !b.contains('.'),
    ensures
        split_on(a + seq!['.'] + b, '.') == split_on(a, '.').push(b),
    decreases b.len(),
{
    let whole = a + seq!['.'] + b;
    lemma_split_on(a, '.');
    if b.len() == 0 {
        assert(whole.drop_last() =~= a);
        assert(b =~= Seq::empty());
    } else {
        assert(whole.drop_last() =~= a + seq!['.'] + b.drop_last());
        assert forall|i: int| 0 <= i < b.drop_last().len() implies b.drop_last()[i] != '.' by {
            assert(b.contains(b[i]));
        }
        lemma_split_more(a, b.drop_last());
        assert(b.contains(b.last()));
        let before = split_on(a, '.').push(b.drop_last());
        assert(before.drop_last() =~= split_on(a, '.'));
        assert(b.drop_last().push(b.last()) =~= b);
    }
}

proof fn lemma_split_one(s: Seq<char>)
    requires
        !s.contains('.'),
    ensures
        split_on(s, '.') == seq![s],
    decreases s.len(),
{
    if s.len() == 0 {
        assert(s =~= Seq::empty());
    } else {
        assert forall|i: int| 0 <= i < s.drop_last().len() implies s.drop_last()[i] != '.' by {
            assert(s.contains(s[i]));
        }
        lemma_split_one(s.drop_last());
        assert(s.contains(s.last()));
        assert(seq![s.drop_last()].drop_last() =~= Seq::empty());
        assert(s.drop_last().push(s.last()) =~= s);
        assert(split_on(s, '.') =~= seq![s]);
    }
}

/// `env`, `bindings`, `matrix` and `runtime` name the scopes of a run, and
/// nothing else does.
pub proof fn lemma_scopes_have_their_names(scopes: ScopesV, name: Seq<char>)
    requires
        !name.contains('.'),
    ensures
        name == "env"@ ==> found(scopes, name) == Some(FoundV { value: scopes.env, secret: false }),
        name == "bindings"@ ==> found(scopes, name) == Some(FoundV { value: scopes.bindings, secret: false }),
        name == "matrix"@ ==> found(scopes, name) == Some(FoundV { value: scopes.matrix, secret: false }),
        name == "runtime"@ ==> found(scopes, name) == Some(FoundV { value: scopes.runtime, secret: false }),
        name != "env"@ && name != "bindings"@ && name != "matrix"@ && name != "runtime"@ ==> found(scopes, name) is None,
{
    reveal_strlit("env");
    reveal_strlit("bindings");
    reveal_strlit("matrix");
    reveal_strlit("runtime");
    reveal_strlit("secret");
    lemma_split_one(name);
    assert(split_on(name, '.').skip(1) =~= Seq::empty());
    assert("env"@[0] == 'e' && "bindings"@[0] == 'b' && "matrix"@[0] == 'm' && "runtime"@[0] == 'r' && "secret"@[0]
        == 's');
}

proof fn lemma_walk_more(v: JsonV, path: Seq<Seq<char>>, key: Seq<char>)
    ensures
        walk(v, path.push(key)) == match walk(v, path) {
            Some(inner) => member(inner, key),
            None => None,
        },
    decreases path.len(),
{
    let longer = path.push(key);
    if path.len() == 0 {
        assert(longer.skip(1) =~= Seq::empty());
        if let Some(inner) = member(v, key) {
            assert(walk(inner, longer.skip(1)) == Some(inner));
        }
    } else {
        assert(longer.skip(1) =~= path.skip(1).push(key));
        if let Some(inner) = member(v, path[0]) {
            lemma_walk_more(inner, path.skip(1), key);
        }
    }
}

/// A reference with one name more gives the member of that name; where there is
/// no such member it gives nothing.
pub proof fn lemma_reference_leads_to_members(scopes: ScopesV, name: Seq<char>, key: Seq<char>)
    requires
        !key.contains('.'),
        found(scopes, name) is Some,
        !found(scopes, name)->Some_0.secret,
    ensures
        found(scopes, name + seq!['.'] + key) == match member(found(scopes, name)->Some_0.value, key) {
            Some(value) => Some(FoundV { value, secret: false }),
            None => None,
        },
{
    lemma_split_more(name, key);
    lemma_split_on(name, '.');
    let path = split_on(name, '.');
    let longer = path.push(key);
    assert(longer[0] == path[0]);
    assert(longer.skip(1) =~= path.skip(1).push(key));
    if let Some(v) = crate::reqv1::vars::scope_value(scopes, path[0]) {
        lemma_walk_more(v, path.skip(1), key);
    }
}

/// `secret.NAME` gives the secret of that name, and it is known to be one;
/// where it is not among the secrets, the placeholder stands for it, if there
/// is one.
pub proof fn lemma_secrets_are_found_by_name(scopes: ScopesV, key: Seq<char>)
    requires
        !key.contains('.'),
    ensures
        lookup(scopes.secrets, key) matches Some(s) ==> found(scopes, "secret."@ + key) == Some(
            FoundV { value: JsonV::String(s), secret: true },
        ),
        lookup(scopes.secrets, key) is None ==> found(scopes, "secret."@ + key) == match scopes.placeholder {
            Some(s) => Some(FoundV { value: JsonV::String(s), secret: true }),
            None => None,
        },
{
    reveal_strlit("secret");
    reveal_strlit("secret.");
    assert("secret."@ + key =~= "secret"@ + seq!['.'] + key);
    assert(!"secret"@.contains('.'));
    lemma_split_one("secret"@);
    lemma_split_more("secret"@, key);
}

/// Values without texts stay as they are, and bring no secret.
pub proof fn lemma_plain_values_stay(v: JsonV, scopes: ScopesV)
    requires
        v is Null || v is Bool || v is Number,
    ensures
        filled(v, scopes).outcome == Ok::<JsonV, DiagnosticV>(v),
        filled(v, scopes).secrets.len() == 0,
{
}

/// A text without a reference stays as it is.
pub proof fn lemma_plain_text_stays_in_documents(s: Seq<char>, scopes: ScopesV)
    requires
        forall|k: int| !#[trigger] occurs_at(s, "${"@, k),
    ensures
        filled(JsonV::String(s), scopes).outcome == Ok::<JsonV, DiagnosticV>(JsonV::String(s)),
        filled(JsonV::String(s), scopes).secrets.len() == 0,
{
    lemma_first_at(s, "${"@, 0);
    assert(s.skip(0) =~= s);
}

/// A text that is one reference becomes the value itself, whatever it is. A
/// reference to nothing is an error that names it.
pub proof fn lemma_lone_reference_is_the_value(name: Seq<char>, scopes: ScopesV)
    requires
        !name.contains('}'),
    ensures
        match found(scopes, name) {
            Some(f) => filled(JsonV::String("${"@ + name + "}"@), scopes).outcome == Ok::<JsonV, DiagnosticV>(f.value),
            None => filled(JsonV::String("${"@ + name + "}"@), scopes).outcome matches Err(d) && d.code
                == Code::MissingVariable && d.severity == Severity::Error && d.message == "unresolved variable ${"@
                + name + "}"@,
        },
{
    reveal_strlit("${");
    reveal_strlit("}");
    let s = "${"@ + name + "}"@;
    assert(s.subrange(0, 2) =~= "${"@);
    let close = s.len() - 1;
    assert(s.subrange(close, close + 1) =~= "}"@);
    assert forall|k: int| 2 <= k < close implies !#[trigger] occurs_at(s, "}"@, k) by {
        if occurs_at(s, "}"@, k) {
            assert(s.subrange(k, k + 1)[0] == '}');
            assert(name.contains(name[k - 2]));
        }
    }
    lemma_first_is(s, "}"@, close, 2);
    assert(s.subrange(2, close) =~= name);
}

proof fn lemma_filled_text_shift(s: Seq<char>, scopes: ScopesV, from: int)
    requires
        0 <= from <= s.len(),
    ensures
        filled_text(s, scopes, from) == filled_text(s.skip(from), scopes, 0),
    decreases s.len() - from,
{
    let t = s.skip(from);
    lemma_first_at_shift(s, "${"@, from, from);
    lemma_first_at(s, "${"@, from);
    reveal_strlit("${");
    reveal_strlit("}");
    assert(t.skip(0) =~= t);
    if let Some(open) = first_at(s, "${"@, from) {
        lemma_first_at_shift(s, "}"@, open + 2, from);
        lemma_first_at(s, "}"@, open + 2);
        if let Some(close) = first_at(s, "}"@, open + 2) {
            assert(s.subrange(open + 2, close) =~= t.subrange(open - from + 2, close - from));
            assert(s.subrange(from, open) =~= t.subrange(0, open - from));
            lemma_filled_text_shift(s, scopes, close + 1);
            lemma_filled_text_shift(t, scopes, close - from + 1);
            assert(t.skip(close - from + 1) =~= s.skip(close + 1));
        }
    }
}

/// A reference in a text is replaced by its value, a text as it is and anything
/// else as JSON; what stands before it stays as it is, and the rest is filled
/// in in turn.
pub proof fn lemma_reference_is_replaced(before: Seq<char>, name: Seq<char>, rest: Seq<char>, scopes: ScopesV)
    requires
        !before.contains('$'),
        !name.contains('}'),
    ensures
        filled_text(before + "${"@ + name + "}"@ + rest, scopes, 0).outcome == match found(scopes, name) {
            None => Err::<Seq<char>, DiagnosticV>(crate::reqv1::vars::missing(name)),
            Some(f) => match filled_text(rest, scopes, 0).outcome {
                Ok(tail) => Ok::<Seq<char>, DiagnosticV>(
                    before + match f.value {
                        JsonV::String(s) => s,
                        _ => printed(f.value),
                    } + tail,
                ),
                Err(d) => Err(d),
            },
        },
{
    lemma_text_is_filled_in_turn(before, name, rest, scopes);
}

/// The reference that comes first in a text, and then the rest.
pub(crate) proof fn lemma_text_is_filled_in_turn(before: Seq<char>, name: Seq<char>, rest: Seq<char>, scopes: ScopesV)
    requires
        !before.contains('$'),
        !name.contains('}'),
    ensures
        filled_text(before + "${"@ + name + "}"@ + rest, scopes, 0) == match found(scopes, name) {
            None => Filled { outcome: Err(crate::reqv1::vars::missing(name)), secrets: seq![] },
            Some(f) => Filled {
                outcome: match filled_text(rest, scopes, 0).outcome {
                    Ok(tail) => Ok(before + inline_text(f.value) + tail),
                    Err(d) => Err(d),
                },
                secrets: secrets_of(f) + filled_text(rest, scopes, 0).secrets,
            },
        },
{
    reveal_strlit("${");
    reveal_strlit("}");
    let s = before + "${"@ + name + "}"@ + rest;
    let open = before.len() as int;
    let close = open + 2 + name.len();
    assert(s.subrange(open, open + 2) =~= "${"@);
    assert forall|k: int| 0 <= k < open implies !#[trigger] occurs_at(s, "${"@, k) by {
        if occurs_at(s, "${"@, k) {
            assert(s.subrange(k, k + 2)[0] == '$');
            assert(before.contains(before[k]));
        }
    }
    lemma_first_is(s, "${"@, open, 0);
    assert(s.subrange(close, close + 1) =~= "}"@);
    assert forall|k: int| open + 2 <= k < close implies !#[trigger] occurs_at(s, "}"@, k) by {
        if occurs_at(s, "}"@, k) {
            assert(s.subrange(k, k + 1)[0] == '}');
            assert(name.contains(name[k - open - 2]));
        }
    }
    lemma_first_is(s, "}"@, close, open + 2);
    assert(s.subrange(open + 2, close) =~= name);
    assert(s.subrange(0, open) =~= before);
    lemma_filled_text_shift(s, scopes, close + 1);
    assert(s.skip(close + 1) =~= rest);
}

/// A text with something beside a reference becomes the text with every
/// reference filled in.
pub proof fn lemma_mixed_text_stays_a_text(s: Seq<char>, scopes: ScopesV)
    requires
        lone_reference(s) is None,
    ensures
        filled(JsonV::String(s), scopes).outcome == match filled_text(s, scopes, 0).outcome {
            Ok(text) => Ok::<JsonV, DiagnosticV>(JsonV::String(text)),
            Err(d) => Err(d),
        },
{
}

proof fn lemma_items_filled(items: Seq<JsonV>, scopes: ScopesV, n: int)
    requires
        0 <= n <= items.len(),
    ensures
        match filled_items(items, scopes, n).outcome {
            Ok(list) => list.len() == n && forall|i: int|
                0 <= i < n ==> filled(#[trigger] items[i], scopes).outcome == Ok::<JsonV, DiagnosticV>(list[i]),
            Err(d) => exists|i: int|
                0 <= i < n && filled(#[trigger] items[i], scopes).outcome == Err::<JsonV, DiagnosticV>(d),
        },
    decreases n,
{
    if n > 0 {
        lemma_items_filled(items, scopes, n - 1);
        if let Ok(list) = filled_items(items, scopes, n - 1).outcome {
            if let Err(d) = filled(items[n - 1], scopes).outcome {
                assert(filled(items[n - 1], scopes).outcome == Err::<JsonV, DiagnosticV>(d));
            }
        }
    }
}

proof fn lemma_pairs_filled(pairs: Seq<(Seq<char>, JsonV)>, scopes: ScopesV, n: int)
    requires
        0 <= n <= pairs.len(),
    ensures
        match filled_pairs(pairs, scopes, n).outcome {
            Ok(list) => list.len() == n && forall|i: int|
                0 <= i < n ==> (#[trigger] pairs[i]).0 == list[i].0 && filled(pairs[i].1, scopes).outcome == Ok::<
                    JsonV,
                    DiagnosticV,
                >(list[i].1),
            Err(d) => exists|i: int|
                0 <= i < n && filled((#[trigger] pairs[i]).1, scopes).outcome == Err::<JsonV, DiagnosticV>(d),
        },
    decreases n,
{
    if n > 0 {
        lemma_pairs_filled(pairs, scopes, n - 1);
        if let Ok(list) = filled_pairs(pairs, scopes, n - 1).outcome {
            if let Err(d) = filled(pairs[n - 1].1, scopes).outcome {
                assert(filled(pairs[n - 1].1, scopes).outcome == Err::<JsonV, DiagnosticV>(d));
            }
        }
    }
}

/// A list is filled in item by item, an object member by member under its keys;
/// neither loses or moves anything, and an error in one of them is the error.
pub proof fn lemma_values_are_filled_in_throughout(v: JsonV, scopes: ScopesV)
    ensures
        v matches JsonV::Array(items) ==> match filled(v, scopes).outcome {
            Ok(r) => r matches JsonV::Array(list) && list.len() == items.len() && forall|i: int|
                0 <= i < items.len() ==> filled(#[trigger] items[i], scopes).outcome == Ok::<JsonV, DiagnosticV>(
                    list[i],
                ),
            Err(d) => exists|i: int|
                0 <= i < items.len() && filled(#[trigger] items[i], scopes).outcome == Err::<JsonV, DiagnosticV>(d),
        },
        v matches JsonV::Object(pairs) ==> match filled(v, scopes).outcome {
            Ok(r) => r matches JsonV::Object(list) && list.len() == pairs.len() && forall|i: int|
                0 <= i < pairs.len() ==> (#[trigger] pairs[i]).0 == list[i].0 && filled(pairs[i].1, scopes).outcome
                    == Ok::<JsonV, DiagnosticV>(list[i].1),
            Err(d) => exists|i: int|
                0 <= i < pairs.len() && filled((#[trigger] pairs[i]).1, scopes).outcome == Err::<JsonV, DiagnosticV>(d),
        },
{
    match v {
        JsonV::Array(items) => lemma_items_filled(items, scopes, items.len() as int),
        JsonV::Object(pairs) => lemma_pairs_filled(pairs, scopes, pairs.len() as int),
        _ => {},
    }
}

} // verus!
