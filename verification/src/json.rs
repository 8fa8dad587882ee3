//! JSON values as plain data, and the calls that read and print JSON text.

use serde_json::Value;
use vstd::prelude::*;

use crate::map::{lookup, pairs_view, position, put_all};
use crate::text::same;
use crate::view::{opt_or, opt_view, ref_view, views, Copied};

verus! {

broadcast use vstd::string::group_string_axioms;

/// A JSON number. A number with a fraction or an exponent is held as the text
/// that JSON prints for it.
#[derive(Debug)]
pub enum Num {
    Pos(u64),
    Neg(i64),
    Float(String),
}

/// A JSON value. The entries of an object stand in ascending order of their
/// keys.
#[derive(Debug)]
pub enum Json {
    Null,
    Bool(bool),
    Number(Num),
    String(String),
    Array(Vec<Json>),
    Object(Vec<(String, Json)>),
}

/// What a [`Num`] denotes.
pub enum NumV {
    Pos(u64),
    Neg(i64),
    Float(Seq<char>),
}

/// What a [`Json`] denotes.
pub enum JsonV {
    Null,
    Bool(bool),
    Number(NumV),
    String(Seq<char>),
    Array(Seq<JsonV>),
    Object(Seq<(Seq<char>, JsonV)>),
}

impl View for Num {
    type V = NumV;

    open spec fn view(&self) -> NumV {
        match self {
            Num::Pos(n) => NumV::Pos(*n),
            Num::Neg(n) => NumV::Neg(*n),
            Num::Float(s) => NumV::Float(s@),
        }
    }
}

impl Json {
    /// The value that `self` denotes.
    pub open spec fn denotes(&self) -> JsonV
        decreases self,
    {
        match self {
            Json::Null => JsonV::Null,
            Json::Bool(b) => JsonV::Bool(*b),
            Json::Number(n) => JsonV::Number(n@),
            Json::String(s) => JsonV::String(s@),
            Json::Array(items) => JsonV::Array(
                Seq::new(
                    items@.len(),
                    |i: int|
                        if 0 <= i < items@.len() {
                            items@[i].denotes()
                        } else {
                            JsonV::Null
                        },
                ),
            ),
            Json::Object(pairs) => JsonV::Object(
                Seq::new(
                    pairs@.len(),
                    |i: int|
                        if 0 <= i < pairs@.len() {
                            (pairs@[i].0@, pairs@[i].1.denotes())
                        } else {
                            (Seq::empty(), JsonV::Null)
                        },
                ),
            ),
        }
    }
}

impl View for Json {
    type V = JsonV;

    open spec fn view(&self) -> JsonV {
        self.denotes()
    }
}

/// How the value of an array and of an object is made of its parts.
pub broadcast proof fn lemma_json_view(v: Json)
    ensures
        #![trigger v@]
        match v {
            Json::Array(items) => v@ == JsonV::Array(views(items@)),
            Json::Object(pairs) => v@ == JsonV::Object(pairs_view(pairs@)),
            _ => true,
        },
{
    match v {
        Json::Array(items) => {
            assert(v@->Array_0 =~= views(items@));
        },
        Json::Object(pairs) => {
            assert(v@->Object_0 =~= pairs_view(pairs@));
        },
        _ => {},
    }
}

/// An item of an array is smaller than the array.
pub proof fn lemma_item_decreases(v: Json, i: int)
    requires
        v is Array,
        0 <= i < v->Array_0@.len(),
    ensures
        decreases_to!(v => v->Array_0@[i]),
{
    assert(decreases_to!(v => v->Array_0));
    assert(decreases_to!(v->Array_0@ => v->Array_0@[i]));
}

/// A member of an object is smaller than the object.
pub proof fn lemma_member_decreases(v: Json, i: int)
    requires
        v is Object,
        0 <= i < v->Object_0@.len(),
    ensures
        decreases_to!(v => v->Object_0@[i].1),
{
    assert(decreases_to!(v => v->Object_0));
    assert(decreases_to!(v->Object_0@ => v->Object_0@[i]));
    assert(decreases_to!(v->Object_0@[i] => v->Object_0@[i].1));
}

impl Num {
    /// A copy of the number.
    pub fn copy(&self) -> (r: Num)
        ensures
            r@ == self@,
    {
        match self {
            Num::Pos(n) => Num::Pos(*n),
            Num::Neg(n) => Num::Neg(*n),
            Num::Float(s) => Num::Float(s.clone()),
        }
    }
}

impl Json {
    /// A copy of the value.
    pub fn copy(&self) -> (r: Json)
        ensures
            r@ == self@,
        decreases self,
    {
        broadcast use lemma_json_view;

        match self {
            Json::Null => Json::Null,
            Json::Bool(b) => Json::Bool(*b),
            Json::Number(n) => Json::Number(n.copy()),
            Json::String(s) => Json::String(s.clone()),
            Json::Array(items) => {
                let mut out: Vec<Json> = Vec::new();
                let mut i: usize = 0;
                while i < items.len()
                    invariant
                        i <= items.len(),
                        *self == Json::Array(*items),
                        out.len() == i,
                        forall|k: int| 0 <= k < i ==> (#[trigger] out@[k])@ == items@[k]@,
                    decreases items.len() - i,
                {
                    proof {
                        lemma_item_decreases(*self, i as int);
                    }
                    out.push(items[i].copy());
                    i += 1;
                }
                assert(views(out@) =~= views(items@));
                Json::Array(out)
            },
            Json::Object(pairs) => {
                let mut out: Vec<(String, Json)> = Vec::new();
                let mut i: usize = 0;
                while i < pairs.len()
                    invariant
                        i <= pairs.len(),
                        *self == Json::Object(*pairs),
                        out.len() == i,
                        forall|k: int|
                            0 <= k < i ==> (#[trigger] out@[k]).0@ == pairs@[k].0@ && out@[k].1@ == pairs@[k].1@,
                    decreases pairs.len() - i,
                {
                    proof {
                        lemma_member_decreases(*self, i as int);
                    }
                    out.push((pairs[i].0.clone(), pairs[i].1.copy()));
                    i += 1;
                }
                assert(pairs_view(out@) =~= pairs_view(pairs@));
                Json::Object(out)
            },
        }
    }
}

impl Copied for Json {
    fn copied(&self) -> (r: Self) {
        self.copy()
    }
}

// ---------------------------------------------------------------------
// Reading a value
// ---------------------------------------------------------------------

/// The member `key` of an object; nothing else has members.
pub open spec fn member(v: JsonV, key: Seq<char>) -> Option<JsonV> {
    match v {
        JsonV::Object(pairs) => lookup(pairs, key),
        _ => None,
    }
}

/// The text that a JSON string holds.
pub open spec fn text_in(v: Option<JsonV>) -> Option<Seq<char>> {
    match v {
        Some(JsonV::String(s)) => Some(s),
        _ => None,
    }
}

/// The text of the member `key`.
pub open spec fn text_member(v: JsonV, key: Seq<char>) -> Option<Seq<char>> {
    text_in(member(v, key))
}

/// The whole number, not negative, that a value holds.
pub open spec fn nat_in(v: Option<JsonV>) -> Option<u64> {
    match v {
        Some(JsonV::Number(NumV::Pos(n))) => Some(n),
        _ => None,
    }
}

/// The items of the array that a value holds.
pub open spec fn items_in(v: Option<JsonV>) -> Option<Seq<JsonV>> {
    match v {
        Some(JsonV::Array(items)) => Some(items),
        _ => None,
    }
}

/// The pairs of the object that a value holds.
pub open spec fn pairs_in(v: Option<JsonV>) -> Option<Seq<(Seq<char>, JsonV)>> {
    match v {
        Some(JsonV::Object(pairs)) => Some(pairs),
        _ => None,
    }
}

/// The member `key`, or null where there is none.
pub open spec fn at(v: JsonV, key: Seq<char>) -> JsonV {
    opt_or(member(v, key), JsonV::Null)
}

/// The text of the member `key`, empty where there is none.
pub open spec fn text_at(v: JsonV, key: Seq<char>) -> Seq<char> {
    opt_or(text_member(v, key), seq![])
}

/// The member `key` is `true`.
pub open spec fn flag_at(v: JsonV, key: Seq<char>) -> bool {
    member(v, key) == Some(JsonV::Bool(true))
}

/// The items of the member `key`; none where it is no array.
pub open spec fn items_at(v: JsonV, key: Seq<char>) -> Seq<JsonV> {
    opt_or(items_in(member(v, key)), seq![])
}

/// A member is smaller than the object.
pub proof fn lemma_member_smaller(v: JsonV, key: Seq<char>)
    ensures
        member(v, key) is Some ==> decreases_to!(v => member(v, key)->Some_0),
{
    if let JsonV::Object(pairs) = v {
        if lookup(pairs, key) is Some {
            lemma_lookup_at(pairs, key);
            let i = choose|i: int| 0 <= i < pairs.len() && (#[trigger] pairs[i]).1 == lookup(pairs, key)->Some_0;
            assert(decreases_to!(v => pairs));
            assert(decreases_to!(pairs => pairs[i]));
            assert(decreases_to!(pairs[i] => pairs[i].1));
        }
    }
}

proof fn lemma_lookup_at(pairs: Seq<(Seq<char>, JsonV)>, key: Seq<char>)
    requires
        lookup(pairs, key) is Some,
    ensures
        exists|i: int| 0 <= i < pairs.len() && (#[trigger] pairs[i]).1 == lookup(pairs, key)->Some_0,
    decreases pairs.len(),
{
    if pairs[0].0 != key {
        lemma_lookup_at(pairs.skip(1), key);
        let j = choose|j: int|
            0 <= j < pairs.skip(1).len() && (#[trigger] pairs.skip(1)[j]).1 == lookup(pairs, key)->Some_0;
        assert(pairs[j + 1].1 == lookup(pairs, key)->Some_0);
    }
}

impl Json {
    /// The text of the member `key`, empty where there is none.
    pub fn text(&self, key: &str) -> (r: String)
        ensures
            r@ == text_at(self@, key@),
    {
        match self.get_str(key) {
            Some(s) => s.to_owned(),
            None => {
                let r = String::new();
                assert(r@ =~= seq![]);
                r
            },
        }
    }

    /// Whether the member `key` is `true`.
    pub fn flag(&self, key: &str) -> (r: bool)
        ensures
            r == flag_at(self@, key@),
    {
        match self.get(key) {
            Some(Json::Bool(b)) => *b,
            _ => false,
        }
    }

    /// The items of the member `key`, if it is an array.
    pub fn list(&self, key: &str) -> (r: Option<&Vec<Json>>)
        ensures
            match r {
                Some(items) => items_in(member(self@, key@)) == Some(views(items@)),
                None => items_in(member(self@, key@)) is None,
            },
    {
        match self.get(key) {
            Some(v) => v.as_array(),
            None => None,
        }
    }

    /// The member `key` of an object.
    pub fn get(&self, key: &str) -> (r: Option<&Json>)
        ensures
            ref_view(r) == member(self@, key@),
    {
        broadcast use lemma_json_view;

        match self {
            Json::Object(pairs) => match position(pairs, key) {
                Some(i) => Some(&pairs[i].1),
                None => None,
            },
            _ => None,
        }
    }

    /// The text of a string.
    pub fn as_str(&self) -> (r: Option<&str>)
        ensures
            ref_view(r) == text_in(Some(self@)),
    {
        match self {
            Json::String(s) => Some(s.as_str()),
            _ => None,
        }
    }

    /// The text of the member `key`.
    pub fn get_str(&self, key: &str) -> (r: Option<&str>)
        ensures
            ref_view(r) == text_member(self@, key@),
    {
        match self.get(key) {
            Some(v) => v.as_str(),
            None => None,
        }
    }

    /// The value of a whole number that is not negative.
    pub fn as_u64(&self) -> (r: Option<u64>)
        ensures
            r == nat_in(Some(self@)),
    {
        match self {
            Json::Number(Num::Pos(n)) => Some(*n),
            _ => None,
        }
    }

    /// The truth value of a boolean.
    pub fn as_bool(&self) -> (r: Option<bool>)
        ensures
            r == match self@ {
                JsonV::Bool(b) => Some(b),
                _ => None,
            },
    {
        match self {
            Json::Bool(b) => Some(*b),
            _ => None,
        }
    }

    /// The items of an array.
    pub fn as_array(&self) -> (r: Option<&Vec<Json>>)
        ensures
            match r {
                Some(items) => self@ == JsonV::Array(views(items@)),
                None => !(self@ is Array),
            },
    {
        broadcast use lemma_json_view;

        match self {
            Json::Array(items) => Some(items),
            _ => None,
        }
    }

    /// The pairs of an object.
    pub fn as_object(&self) -> (r: Option<&Vec<(String, Json)>>)
        ensures
            match r {
                Some(pairs) => self@ == JsonV::Object(pairs_view(pairs@)),
                None => !(self@ is Object),
            },
    {
        broadcast use lemma_json_view;

        match self {
            Json::Object(pairs) => Some(pairs),
            _ => None,
        }
    }
}

/// A copy of the text, if there is one.
pub fn own(s: Option<&str>) -> (r: Option<String>)
    ensures
        opt_view(r) == ref_view(s),
{
    match s {
        Some(s) => Some(s.to_owned()),
        None => None,
    }
}

/// A copy of the value, if there is one.
pub fn own_json(v: Option<&Json>) -> (r: Option<Json>)
    ensures
        opt_view(r) == ref_view(v),
{
    match v {
        Some(v) => Some(v.copy()),
        None => None,
    }
}

/// The text itself, or `other` where there is none.
pub fn text_or<'a>(s: Option<&'a str>, other: &'a str) -> (r: &'a str)
    ensures
        r@ == opt_or(ref_view(s), other@),
{
    match s {
        Some(s) => s,
        None => other,
    }
}

// ---------------------------------------------------------------------
// Equality
// ---------------------------------------------------------------------

/// The texts of the two zeros with a fraction, which are one number.
pub open spec fn zero_text(s: Seq<char>) -> bool {
    s == "0.0"@ || s == "-0.0"@
}

/// Numbers of one form are equal where they are the same number.
pub open spec fn same_num(a: NumV, b: NumV) -> bool {
    match (a, b) {
        (NumV::Float(s), NumV::Float(t)) => s == t || (zero_text(s) && zero_text(t)),
        _ => a == b,
    }
}

/// JSON equality: part by part.
pub open spec fn same_value(a: JsonV, b: JsonV) -> bool
    decreases a,
{
    match (a, b) {
        (JsonV::Number(x), JsonV::Number(y)) => same_num(x, y),
        (JsonV::Array(x), JsonV::Array(y)) => x.len() == y.len() && forall|i: int|
            0 <= i < x.len() ==> same_value(#[trigger] x[i], y[i]),
        (JsonV::Object(x), JsonV::Object(y)) => x.len() == y.len() && forall|i: int|
            0 <= i < x.len() ==> (#[trigger] x[i]).0 == y[i].0 && same_value(x[i].1, y[i].1),
        _ => a == b,
    }
}

fn equal_num(a: &Num, b: &Num) -> (r: bool)
    ensures
        r == same_num(a@, b@),
{
    match (a, b) {
        (Num::Pos(x), Num::Pos(y)) => *x == *y,
        (Num::Neg(x), Num::Neg(y)) => *x == *y,
        (Num::Float(x), Num::Float(y)) => {
            let (x, y): (&str, &str) = (x.as_str(), y.as_str());
            same(x, y) || ((same(x, "0.0") || same(x, "-0.0")) && (same(y, "0.0") || same(y, "-0.0")))
        },
        _ => false,
    }
}

/// Whether two values are equal.
pub fn equal(a: &Json, b: &Json) -> (r: bool)
    ensures
        r == same_value(a@, b@),
    decreases a,
{
    broadcast use lemma_json_view;

    match (a, b) {
        (Json::Null, Json::Null) => true,
        (Json::Bool(x), Json::Bool(y)) => *x == *y,
        (Json::Number(x), Json::Number(y)) => equal_num(x, y),
        (Json::String(x), Json::String(y)) => same(x.as_str(), y.as_str()),
        (Json::Array(x), Json::Array(y)) => {
            if x.len() != y.len() {
                return false;
            }
            let mut i: usize = 0;
            while i < x.len()
                invariant
                    i <= x.len(),
                    x.len() == y.len(),
                    *a == Json::Array(*x),
                    *b == Json::Array(*y),
                    a@ == JsonV::Array(views(x@)),
                    b@ == JsonV::Array(views(y@)),
                    forall|k: int|
                        0 <= k < i ==> same_value(#[trigger] views(x@)[k], views(y@)[k]),
                decreases x.len() - i,
            {
                proof {
                    lemma_item_decreases(*a, i as int);
                }
                if !equal(&x[i], &y[i]) {
                    assert(!same_value(views(x@)[i as int], views(y@)[i as int]));
                    return false;
                }
                i += 1;
            }
            true
        },
        (Json::Object(x), Json::Object(y)) => {
            if x.len() != y.len() {
                return false;
            }
            let mut i: usize = 0;
            while i < x.len()
                invariant
                    i <= x.len(),
                    x.len() == y.len(),
                    *a == Json::Object(*x),
                    *b == Json::Object(*y),
                    a@ == JsonV::Object(pairs_view(x@)),
                    b@ == JsonV::Object(pairs_view(y@)),
                    forall|k: int|
                        0 <= k < i ==> (#[trigger] pairs_view(x@)[k]).0 == pairs_view(y@)[k].0 && same_value(
                            pairs_view(x@)[k].1,
                            pairs_view(y@)[k].1,
                        ),
                decreases x.len() - i,
            {
                proof {
                    lemma_member_decreases(*a, i as int);
                }
                if !same(x[i].0.as_str(), y[i].0.as_str()) || !equal(&x[i].1, &y[i].1) {
                    assert(pairs_view(x@)[i as int].0 != pairs_view(y@)[i as int].0 || !same_value(
                        pairs_view(x@)[i as int].1,
                        pairs_view(y@)[i as int].1,
                    ));
                    return false;
                }
                i += 1;
            }
            true
        },
        _ => false,
    }
}

// ---------------------------------------------------------------------
// JSON text
// ---------------------------------------------------------------------

/// A tree of `serde_json`.
#[verifier::external_type_specification]
#[verifier::external_body]
pub struct ExValue(serde_json::Value);

/// The value that a tree of `serde_json` holds.
pub uninterp spec fn value_json(v: serde_json::Value) -> JsonV;

/// What `serde_json::from_str` makes of a text: a value, or why it is none.
pub uninterp spec fn json_parse(text: Seq<char>) -> Result<JsonV, Seq<char>>;

/// The text that `serde_json` prints for a value, without white space.
pub uninterp spec fn json_print(v: JsonV) -> Seq<char>;

/// What `serde_json::Number::from_f64` makes of the number, with a fraction or
/// an exponent, that a text reads as.
pub uninterp spec fn float_json(text: Seq<char>) -> JsonV;

/// The topmost node of a tree, its subtrees still trees of `serde_json`.
pub enum Node {
    Null,
    Bool(bool),
    Number(Num),
    String(String),
    Array(Vec<serde_json::Value>),
    Object(Vec<(String, serde_json::Value)>),
}

/// The values of a list of trees.
pub open spec fn trees_json(items: Seq<serde_json::Value>) -> Seq<JsonV> {
    Seq::new(items.len(), |i: int| value_json(items[i]))
}

/// The keys and values of a list of keyed trees.
pub open spec fn keyed_json(pairs: Seq<(String, serde_json::Value)>) -> Seq<(Seq<char>, JsonV)> {
    Seq::new(pairs.len(), |i: int| (pairs[i].0@, value_json(pairs[i].1)))
}

/// The value of a tree whose topmost node is `node`.
pub open spec fn node_json(node: Node) -> JsonV {
    match node {
        Node::Null => JsonV::Null,
        Node::Bool(b) => JsonV::Bool(b),
        Node::Number(n) => JsonV::Number(n@),
        Node::String(s) => JsonV::String(s@),
        Node::Array(items) => JsonV::Array(trees_json(items@)),
        Node::Object(pairs) => JsonV::Object(keyed_json(pairs@)),
    }
}

/// The number as `serde_json` holds it.
pub open spec fn canonical_num(n: NumV) -> JsonV {
    match n {
        NumV::Neg(i) => JsonV::Number(
            if i >= 0 {
                NumV::Pos(i as u64)
            } else {
                n
            },
        ),
        NumV::Float(s) => float_json(s),
        NumV::Pos(_) => JsonV::Number(n),
    }
}

/// The value as `serde_json` holds it: the keys of each object ascend, the
/// last of several bindings of one key stays, and each number with a fraction
/// is written as JSON prints it.
pub open spec fn canonical(v: JsonV) -> JsonV
    decreases v,
{
    match v {
        JsonV::Number(n) => canonical_num(n),
        JsonV::Array(items) => JsonV::Array(canonical_items(items)),
        JsonV::Object(pairs) => JsonV::Object(put_all(Seq::empty(), canonical_pairs(pairs))),
        _ => v,
    }
}

/// Each item as `serde_json` holds it.
pub open spec fn canonical_items(items: Seq<JsonV>) -> Seq<JsonV>
    decreases items,
{
    Seq::new(
        items.len(),
        |i: int|
            if 0 <= i < items.len() {
                canonical(items[i])
            } else {
                JsonV::Null
            },
    )
}

/// Each pair with its value as `serde_json` holds it.
pub open spec fn canonical_pairs(pairs: Seq<(Seq<char>, JsonV)>) -> Seq<(Seq<char>, JsonV)>
    decreases pairs,
{
    Seq::new(
        pairs.len(),
        |i: int|
            if 0 <= i < pairs.len() {
                (pairs[i].0, canonical(pairs[i].1))
            } else {
                (Seq::empty(), JsonV::Null)
            },
    )
}

/// The JSON text of a value, without white space.
pub open spec fn printed(v: JsonV) -> Seq<char> {
    json_print(canonical(v))
}

/// `serde_json::from_str` reads a text as one JSON value. Which texts it
/// reads, and what it says of the others, is its own; the result depends on
/// the text alone.
#[verifier::external_body]
fn read_tree(text: &str) -> (r: Result<serde_json::Value, String>)
    ensures
        json_parse(text@) == match r {
            Ok(v) => Ok::<JsonV, Seq<char>>(value_json(v)),
            Err(e) => Err::<JsonV, Seq<char>>(e@),
        },
{
    serde_json::from_str(text).map_err(|e| e.to_string())
}

/// `Display` of `serde_json::Value` prints a tree without white space; the
/// text depends on the value alone.
#[verifier::external_body]
fn print_tree(v: &serde_json::Value) -> (r: String)
    ensures
        r@ == json_print(value_json(*v)),
{
    v.to_string()
}

/// Takes the topmost node of a `serde_json::Value` off, variant by variant.
/// `serde_json::Number` tells a whole number that fits `u64` by `as_u64`, a
/// negative one by `as_i64`; any other number is held as its text, which
/// reads as that number again.
#[verifier::external_body]
fn take_apart(v: serde_json::Value) -> (r: Node)
    ensures
        node_json(r) == value_json(v),
        r matches Node::Number(Num::Float(s)) ==> float_json(s@) == node_json(r),
{
    match v {
        Value::Null => Node::Null,
        Value::Bool(b) => Node::Bool(b),
        Value::Number(n) => match (n.as_u64(), n.as_i64()) {
            (Some(u), _) => Node::Number(Num::Pos(u)),
            (None, Some(i)) => Node::Number(Num::Neg(i)),
            (None, None) => Node::Number(Num::Float(n.to_string())),
        },
        Value::String(s) => Node::String(s),
        Value::Array(items) => Node::Array(items),
        Value::Object(map) => Node::Object(map.into_iter().collect()),
    }
}

/// Makes a `serde_json::Value` of a topmost node, variant by variant. Its
/// `Map` holds the keys in ascending order and keeps the last of several
/// bindings of one key. `Value::from` holds an `i64` that is not negative like
/// a `u64`. A number held as text becomes what `serde_json::Number::from_f64`
/// makes of the number that the text reads as.
#[verifier::external_body]
fn put_together(node: Node) -> (r: serde_json::Value)
    ensures
        value_json(r) == match node {
            Node::Number(n) => canonical_num(n@),
            Node::Object(pairs) => JsonV::Object(put_all(Seq::empty(), keyed_json(pairs@))),
            _ => node_json(node),
        },
{
    match node {
        Node::Null => Value::Null,
        Node::Bool(b) => Value::Bool(b),
        Node::Number(Num::Pos(u)) => Value::from(u),
        Node::Number(Num::Neg(i)) => Value::from(i),
        Node::Number(Num::Float(s)) => serde_json::Number::from_f64(s.parse().unwrap_or_default()).into(),
        Node::String(s) => Value::String(s),
        Node::Array(items) => Value::Array(items),
        Node::Object(pairs) => Value::Object(pairs.into_iter().collect()),
    }
}

/// The value of a tree of `serde_json`.
pub fn from_tree(v: serde_json::Value) -> (r: Json)
    ensures
        r@ == value_json(v),
    decreases value_json(v),
{
    broadcast use lemma_json_view;

    let ghost whole = value_json(v);
    match take_apart(v) {
        Node::Null => Json::Null,
        Node::Bool(b) => Json::Bool(b),
        Node::Number(n) => Json::Number(n),
        Node::String(s) => Json::String(s),
        Node::Array(items) => {
            let ghost trees = items@;
            let mut left = items;
            let mut out: Vec<Json> = Vec::new();
            while left.len() > 0
                invariant
                    whole == JsonV::Array(trees_json(trees)),
                    whole == value_json(v),
                    left@ == trees.take(left@.len() as int),
                    left@.len() <= trees.len(),
                    out@.len() == trees.len() - left@.len(),
                    forall|k: int|
                        0 <= k < out@.len() ==> (#[trigger] out@[k])@ == value_json(trees[left@.len() + k]),
                decreases left@.len(),
            {
                let ghost at = left@.len() - 1;
                let last = left.pop().unwrap();
                proof {
                    assert(last == trees[at]);
                    assert(decreases_to!(whole => whole->Array_0[at]));
                    assert(left@ =~= trees.take(at));
                }
                let item = from_tree(last);
                out.insert(0, item);
                assert forall|k: int| 0 <= k < out@.len() implies (#[trigger] out@[k])@ == value_json(
                    trees[left@.len() + k],
                ) by {}
            }
            assert(views(out@) =~= trees_json(trees));
            Json::Array(out)
        },
        Node::Object(pairs) => {
            let ghost trees = pairs@;
            let mut left = pairs;
            let mut out: Vec<(String, Json)> = Vec::new();
            while left.len() > 0
                invariant
                    whole == JsonV::Object(keyed_json(trees)),
                    whole == value_json(v),
                    left@ == trees.take(left@.len() as int),
                    left@.len() <= trees.len(),
                    out@.len() == trees.len() - left@.len(),
                    forall|k: int|
                        0 <= k < out@.len() ==> (#[trigger] out@[k]).0@ == trees[left@.len() + k].0@ && out@[k].1@
                            == value_json(trees[left@.len() + k].1),
                decreases left@.len(),
            {
                let ghost at = left@.len() - 1;
                let (key, last) = left.pop().unwrap();
                proof {
                    assert((key, last) == trees[at]);
                    assert(decreases_to!(whole => whole->Object_0[at].1));
                    assert(left@ =~= trees.take(at));
                }
                let item = from_tree(last);
                out.insert(0, (key, item));
            }
            assert(pairs_view(out@) =~= keyed_json(trees));
            Json::Object(out)
        },
    }
}

/// The tree of `serde_json` for a value.
pub fn to_tree(v: &Json) -> (r: serde_json::Value)
    ensures
        value_json(r) == canonical(v@),
    decreases v,
{
    broadcast use lemma_json_view;

    match v {
        Json::Null => put_together(Node::Null),
        Json::Bool(b) => put_together(Node::Bool(*b)),
        Json::Number(n) => put_together(Node::Number(n.copy())),
        Json::String(s) => put_together(Node::String(s.clone())),
        Json::Array(items) => {
            let mut out: Vec<serde_json::Value> = Vec::new();
            let mut i: usize = 0;
            while i < items.len()
                invariant
                    i <= items.len(),
                    *v == Json::Array(*items),
                    out.len() == i,
                    forall|k: int| 0 <= k < i ==> value_json(#[trigger] out@[k]) == canonical(items@[k]@),
                decreases items.len() - i,
            {
                proof {
                    lemma_item_decreases(*v, i as int);
                }
                out.push(to_tree(&items[i]));
                i += 1;
            }
            assert(trees_json(out@) =~= canonical_items(views(items@)));
            put_together(Node::Array(out))
        },
        Json::Object(pairs) => {
            let mut out: Vec<(String, serde_json::Value)> = Vec::new();
            let mut i: usize = 0;
            while i < pairs.len()
                invariant
                    i <= pairs.len(),
                    *v == Json::Object(*pairs),
                    out.len() == i,
                    forall|k: int|
                        0 <= k < i ==> (#[trigger] out@[k]).0@ == pairs@[k].0@ && value_json(out@[k].1) == canonical(
                            pairs@[k].1@,
                        ),
                decreases pairs.len() - i,
            {
                proof {
                    lemma_member_decreases(*v, i as int);
                }
                out.push((pairs[i].0.clone(), to_tree(&pairs[i].1)));
                i += 1;
            }
            assert(keyed_json(out@) =~= canonical_pairs(pairs_view(pairs@)));
            put_together(Node::Object(out))
        },
    }
}

/// Read a text as one JSON value.
pub fn parse(text: &str) -> (r: Result<Json, String>)
    ensures
        json_parse(text@) == match r {
            Ok(v) => Ok::<JsonV, Seq<char>>(v@),
            Err(e) => Err::<JsonV, Seq<char>>(e@),
        },
{
    match read_tree(text) {
        Ok(v) => Ok(from_tree(v)),
        Err(e) => Err(e),
    }
}

/// The JSON text of a value, without white space.
pub fn print(v: &Json) -> (r: String)
    ensures
        r@ == printed(v@),
{
    print_tree(&to_tree(v))
}

} // verus!
