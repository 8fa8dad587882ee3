//! `{{variables}}` and the scopes that they are looked up in.

use vstd::prelude::*;

use crate::map::{lookup, pairs_view, put, TextMap};
use crate::model::environment::{EnvVarV, Environment};
use crate::text::{cat3, chars_of, find_from, first_at, lemma_first_at, text_between};
use crate::view::{ref_view, views};
use crate::words::{trim, trimmed};

verus! {

broadcast use vstd::string::group_string_axioms;

/// Names and values of one scope.
pub type LayerV = Seq<(Seq<char>, Seq<char>)>;

/// The scopes of a request, the first one that knows a name decides: what the
/// run has found out, the data row, the folders from the nearest outwards, the
/// collection, the environment, and the dynamic values.
#[derive(Debug)]
pub struct VarScopes {
    pub runtime: TextMap<String>,
    pub iteration: TextMap<String>,
    /// The nearest folder first.
    pub folders: Vec<TextMap<String>>,
    pub collection: TextMap<String>,
    pub environment: TextMap<String>,
    /// Values made for this request, such as `$uuid`.
    pub dynamic: TextMap<String>,
}

impl View for VarScopes {
    type V = Seq<LayerV>;

    open spec fn view(&self) -> Seq<LayerV> {
        seq![self.runtime@, self.iteration@] + views(self.folders@) + seq![
            self.collection@,
            self.environment@,
            self.dynamic@,
        ]
    }
}

/// The value of a name in the first layer that knows it.
pub open spec fn layered(layers: Seq<LayerV>, name: Seq<char>) -> Option<Seq<char>>
    decreases layers.len(),
{
    if layers.len() == 0 {
        None
    } else {
        match lookup(layers[0], name) {
            Some(v) => Some(v),
            None => layered(layers.skip(1), name),
        }
    }
}

/// The names and values of an environment; a secret has the value that is
/// kept apart, if there is one.
pub open spec fn environment_layer(vars: Seq<(Seq<char>, EnvVarV)>, secrets: LayerV) -> LayerV
    decreases vars.len(),
{
    if vars.len() == 0 {
        seq![]
    } else {
        let before = environment_layer(vars.drop_last(), secrets);
        let (name, var) = vars.last();
        let value = if var.secret {
            lookup(secrets, name)
        } else {
            var.value
        };
        match value {
            Some(value) => put(before, name, value),
            None => before,
        }
    }
}

/// Layers that come after others decide only what the others leave open.
pub proof fn lemma_layers_in_turn(first: Seq<LayerV>, rest: Seq<LayerV>, name: Seq<char>)
    ensures
        layered(first + rest, name) == match layered(first, name) {
            Some(v) => Some(v),
            None => layered(rest, name),
        },
    decreases first.len(),
{
    if first.len() == 0 {
        assert(first + rest =~= rest);
    } else {
        assert((first + rest).skip(1) =~= first.skip(1) + rest);
        lemma_layers_in_turn(first.skip(1), rest, name);
    }
}

impl VarScopes {
    /// Scopes that know nothing.
    pub fn new() -> (r: VarScopes)
        ensures
            forall|name: Seq<char>| layered(r@, name) is None,
            r.runtime@.len() == 0,
            r.iteration@.len() == 0,
            r.folders@.len() == 0,
            r.collection@.len() == 0,
            r.environment@.len() == 0,
            r.dynamic@.len() == 0,
    {
        let r = VarScopes {
            runtime: TextMap::new(),
            iteration: TextMap::new(),
            folders: Vec::new(),
            collection: TextMap::new(),
            environment: TextMap::new(),
            dynamic: TextMap::new(),
        };
        proof {
            assert forall|name: Seq<char>| layered(r@, name) is None by {
                lemma_no_layer_knows(r@, name);
            }
        }
        r
    }

    /// The value of a name.
    pub fn get(&self, name: &str) -> (r: Option<&String>)
        ensures
            ref_view(r) == layered(self@, name@),
    {
        let ghost inner = views(self.folders@);
        let ghost outer = seq![self.collection@, self.environment@, self.dynamic@];
        proof {
            lemma_layers_in_turn(seq![self.runtime@, self.iteration@] + inner, outer, name@);
            lemma_layers_in_turn(seq![self.runtime@, self.iteration@], inner, name@);
            lemma_two_layers(self.runtime@, self.iteration@, name@);
            lemma_three_layers(self.collection@, self.environment@, self.dynamic@, name@);
        }
        if let Some(v) = self.runtime.get(name) {
            return Some(v);
        }
        if let Some(v) = self.iteration.get(name) {
            return Some(v);
        }
        let mut i: usize = 0;
        assert(inner.skip(0) =~= inner);
        while i < self.folders.len()
            invariant
                i <= self.folders.len(),
                inner == views(self.folders@),
                layered(inner, name@) == layered(inner.skip(i as int), name@),
                layered(self@, name@) == match layered(inner, name@) {
                    Some(v) => Some(v),
                    None => layered(seq![self.collection@, self.environment@, self.dynamic@], name@),
                },
            decreases self.folders.len() - i,
        {
            assert(inner.skip(i as int)[0] == self.folders@[i as int]@);
            assert(inner.skip(i as int).skip(1) =~= inner.skip(i + 1));
            if let Some(v) = self.folders[i].get(name) {
                return Some(v);
            }
            i += 1;
        }
        if let Some(v) = self.collection.get(name) {
            return Some(v);
        }
        if let Some(v) = self.environment.get(name) {
            return Some(v);
        }
        self.dynamic.get(name)
    }

    /// The scopes with an environment and the values of its secrets.
    pub fn with_environment(self, env: &Environment, secrets: &TextMap<String>) -> (r: VarScopes)
        ensures
            r.environment@ == environment_layer(env@.variables, secrets@),
            r.runtime == self.runtime,
            r.iteration == self.iteration,
            r.folders == self.folders,
            r.collection == self.collection,
            r.dynamic == self.dynamic,
    {
        let ghost all = env@.variables;
        let mut layer: TextMap<String> = TextMap::new();
        let vars = &env.variables.pairs;
        let mut i: usize = 0;
        assert(all.take(0) =~= Seq::empty());
        while i < vars.len()
            invariant
                i <= vars.len(),
                all == pairs_view(vars@),
                layer@ == environment_layer(all.take(i as int), secrets@),
            decreases vars.len() - i,
        {
            assert(all.take(i + 1).drop_last() =~= all.take(i as int));
            assert(all.take(i + 1).last() == all[i as int]);
            let name = vars[i].0.as_str();
            let var = &vars[i].1;
            if var.secret {
                if let Some(v) = secrets.get(name) {
                    let _ = layer.insert(name.to_owned(), v.clone());
                }
            } else if let Some(v) = &var.value {
                let _ = layer.insert(name.to_owned(), v.clone());
            }
            i += 1;
        }
        assert(all.take(i as int) =~= all);
        let mut r = self;
        r.environment = layer;
        r
    }
}

proof fn lemma_no_layer_knows(layers: Seq<LayerV>, name: Seq<char>)
    requires
        forall|i: int| 0 <= i < layers.len() ==> (#[trigger] layers[i]).len() == 0,
    ensures
        layered(layers, name) is None,
    decreases layers.len(),
{
    if layers.len() > 0 {
        assert(layers[0].len() == 0);
        assert forall|i: int| 0 <= i < layers.skip(1).len() implies (#[trigger] layers.skip(1)[i]).len() == 0 by {
            assert(layers[i + 1].len() == 0);
        }
        lemma_no_layer_knows(layers.skip(1), name);
    }
}

proof fn lemma_two_layers(a: LayerV, b: LayerV, name: Seq<char>)
    ensures
        layered(seq![a, b], name) == match lookup(a, name) {
            Some(v) => Some(v),
            None => lookup(b, name),
        },
{
    assert(seq![a, b].skip(1) =~= seq![b]);
    assert(seq![b].skip(1) =~= Seq::<LayerV>::empty());
    assert(layered(seq![b], name) == lookup(b, name)) by {
        assert(layered(Seq::<LayerV>::empty(), name) is None);
    }
}

proof fn lemma_three_layers(a: LayerV, b: LayerV, c: LayerV, name: Seq<char>)
    ensures
        layered(seq![a, b, c], name) == match lookup(a, name) {
            Some(v) => Some(v),
            None => match lookup(b, name) {
                Some(v) => Some(v),
                None => lookup(c, name),
            },
        },
{
    assert(seq![a, b, c].skip(1) =~= seq![b, c]);
    lemma_two_layers(b, c, name);
}

/// Why a text could not be filled in.
#[derive(Debug)]
pub enum InterpolateError {
    /// No scope knows the name.
    Unresolved(String),
}

impl View for InterpolateError {
    type V = Seq<char>;

    open spec fn view(&self) -> Seq<char> {
        match self {
            InterpolateError::Unresolved(name) => name@,
        }
    }
}

/// The error in words.
pub open spec fn unresolved_text(name: Seq<char>) -> Seq<char> {
    "unresolved variable {{"@ + name + "}}"@
}

impl InterpolateError {
    /// The error in words.
    pub fn message(&self) -> (r: String)
        ensures
            r@ == unresolved_text(self@),
    {
        match self {
            InterpolateError::Unresolved(name) => cat3("unresolved variable {{", name.as_str(), "}}"),
        }
    }
}

/// The text from `from` on with every variable filled in, or the name that no
/// layer knows. What is not closed is no variable.
pub open spec fn expanded_from(s: Seq<char>, layers: Seq<LayerV>, from: int) -> Result<Seq<char>, Seq<char>>
    decreases s.len() - from,
{
    if from < 0 || from > s.len() {
        Ok(seq![])
    } else {
        match first_at(s, "{{"@, from) {
            None => Ok(s.skip(from)),
            Some(open) => match first_at(s, "}}"@, open + 2) {
                None => Ok(s.skip(from)),
                Some(close) => if !(from <= open && open + 2 <= close && close + 2 <= s.len()) {
                    Ok(seq![])
                } else {
                    let name = trimmed(s.subrange(open + 2, close));
                    match layered(layers, name) {
                        None => Err(name),
                        Some(value) => match expanded_from(s, layers, close + 2) {
                            Ok(tail) => Ok(s.subrange(from, open) + value + tail),
                            Err(name) => Err(name),
                        },
                    }
                },
            },
        }
    }
}

/// A text with every variable filled in, or the name that no layer knows.
pub open spec fn expanded(s: Seq<char>, layers: Seq<LayerV>) -> Result<Seq<char>, Seq<char>> {
    expanded_from(s, layers, 0)
}

/// A text or the unknown name, by their views.
pub open spec fn expansion_view(r: Result<String, InterpolateError>) -> Result<Seq<char>, Seq<char>> {
    match r {
        Ok(s) => Ok(s@),
        Err(e) => Err(e@),
    }
}

fn expand_from(chars: &Vec<char>, scopes: &VarScopes, from: usize) -> (r: Result<String, InterpolateError>)
    requires
        from <= chars@.len(),
    ensures
        expansion_view(r) == expanded_from(chars@, scopes@, from as int),
    decreases chars@.len() - from,
{
    proof {
        reveal_strlit("{{");
        reveal_strlit("}}");
        lemma_first_at(chars@, "{{"@, from as int);
        assert(chars@.subrange(from as int, chars@.len() as int) =~= chars@.skip(from as int));
    }
    let open = match find_from(chars, &chars_of("{{"), from) {
        None => {
            return Ok(text_between(chars, from, chars.len()));
        },
        Some(open) => open,
    };
    proof {
        lemma_first_at(chars@, "}}"@, open + 2);
    }
    let close = match find_from(chars, &chars_of("}}"), open + 2) {
        None => {
            return Ok(text_between(chars, from, chars.len()));
        },
        Some(close) => close,
    };
    let name = trim(text_between(chars, open + 2, close).as_str());
    match scopes.get(name.as_str()) {
        None => Err(InterpolateError::Unresolved(name)),
        Some(value) => match expand_from(chars, scopes, close + 2) {
            Err(e) => Err(e),
            Ok(tail) => {
                let mut out = text_between(chars, from, open);
                out.append(value.as_str());
                out.append(tail.as_str());
                Ok(out)
            },
        },
    }
}

/// Fill in every `{{variable}}` of a text.
pub fn interpolate(s: &str, scopes: &VarScopes) -> (r: Result<String, InterpolateError>)
    ensures
        expansion_view(r) == expanded(s@, scopes@),
{
    expand_from(&chars_of(s), scopes, 0)
}

/// A text without `{{` stays as it is.
pub proof fn lemma_plain_text_stays(s: Seq<char>, layers: Seq<LayerV>)
    requires
        !crate::text::occurs(s, "{{"@),
    ensures
        expanded(s, layers) == Ok::<Seq<char>, Seq<char>>(s),
{
    lemma_first_at(s, "{{"@, 0);
    assert(s.skip(0) =~= s);
    if let Some(at) = first_at(s, "{{"@, 0) {
        assert(crate::text::occurs_at(s, "{{"@, at));
    }
}

} // verus!
