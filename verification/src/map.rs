//! A map from texts to values, kept in ascending order of its keys.

use vstd::prelude::*;

use crate::text::{chars_of, same};
use crate::view::Copied;

verus! {

broadcast use vstd::string::group_string_axioms;

/// `a` comes before `b` in the lexicographic order of their characters.
pub open spec fn precedes(a: Seq<char>, b: Seq<char>) -> bool
    decreases a.len(),
{
    if b.len() == 0 {
        false
    } else if a.len() == 0 {
        true
    } else if a[0] != b[0] {
        a[0] < b[0]
    } else {
        precedes(a.skip(1), b.skip(1))
    }
}

/// Whether `a` comes before `b` in the lexicographic order of their characters.
pub fn before(a: &str, b: &str) -> (r: bool)
    ensures
        r == precedes(a@, b@),
{
    let x = chars_of(a);
    let y = chars_of(b);
    let mut i: usize = 0;
    assert(x@.skip(0) =~= x@);
    assert(y@.skip(0) =~= y@);
    while i < x.len() && i < y.len() && x[i] == y[i]
        invariant
            i <= x.len(),
            i <= y.len(),
            precedes(x@, y@) == precedes(x@.skip(i as int), y@.skip(i as int)),
        decreases x.len() - i,
    {
        assert(x@.skip(i as int).skip(1) =~= x@.skip(i + 1));
        assert(y@.skip(i as int).skip(1) =~= y@.skip(i + 1));
        i += 1;
    }
    if i >= y.len() {
        false
    } else if i >= x.len() {
        true
    } else {
        x[i] < y[i]
    }
}

/// The order on texts is strict.
pub proof fn lemma_precedes_irreflexive(a: Seq<char>)
    ensures
        !precedes(a, a),
    decreases a.len(),
{
    if a.len() > 0 {
        lemma_precedes_irreflexive(a.skip(1));
    }
}

/// The order on texts is transitive.
pub proof fn lemma_precedes_transitive(a: Seq<char>, b: Seq<char>, c: Seq<char>)
    requires
        precedes(a, b),
        precedes(b, c),
    ensures
        precedes(a, c),
    decreases a.len(),
{
    if a.len() > 0 && a[0] == b[0] && b[0] == c[0] {
        lemma_precedes_transitive(a.skip(1), b.skip(1), c.skip(1));
    }
}

/// Of two different texts one comes before the other.
pub proof fn lemma_precedes_total(a: Seq<char>, b: Seq<char>)
    ensures
        a == b || precedes(a, b) || precedes(b, a),
    decreases a.len(),
{
    if a.len() > 0 && b.len() > 0 && a[0] == b[0] {
        lemma_precedes_total(a.skip(1), b.skip(1));
        if a.skip(1) == b.skip(1) {
            assert(a =~= seq![a[0]] + a.skip(1));
            assert(b =~= seq![b[0]] + b.skip(1));
        }
    } else if a.len() == 0 && b.len() == 0 {
        assert(a =~= b);
    }
}

/// The value of the first pair whose key is `key`.
pub open spec fn lookup<T>(m: Seq<(Seq<char>, T)>, key: Seq<char>) -> Option<T>
    decreases m.len(),
{
    if m.len() == 0 {
        None
    } else if m[0].0 == key {
        Some(m[0].1)
    } else {
        lookup(m.skip(1), key)
    }
}

/// A key is bound to the value of its first binding, and to nothing where it has
/// none.
pub proof fn lemma_first_binding_counts<T>(m: Seq<(Seq<char>, T)>, key: Seq<char>)
    ensures
        lookup(m, key) is None <==> forall|i: int| 0 <= i < m.len() ==> (#[trigger] m[i]).0 != key,
        forall|i: int|
            0 <= i < m.len() && (#[trigger] m[i]).0 == key && (forall|j: int|
                0 <= j < i ==> (#[trigger] m[j]).0 != key) ==> lookup(m, key) == Some(m[i].1),
    decreases m.len(),
{
    if m.len() > 0 && m[0].0 != key {
        let rest = m.skip(1);
        lemma_first_binding_counts(rest, key);
        assert forall|i: int|
            0 <= i < m.len() && (#[trigger] m[i]).0 == key && (forall|j: int|
                0 <= j < i ==> (#[trigger] m[j]).0 != key) implies lookup(m, key) == Some(m[i].1) by {
            assert(rest[i - 1] == m[i]);
            assert forall|j: int| 0 <= j < i - 1 implies (#[trigger] rest[j]).0 != key by {
                assert(rest[j] == m[j + 1]);
            }
        }
        if lookup(m, key) is None {
            assert forall|i: int| 0 <= i < m.len() implies (#[trigger] m[i]).0 != key by {
                if i > 0 {
                    assert(rest[i - 1] == m[i]);
                }
            }
        } else {
            let k = choose|k: int| 0 <= k < rest.len() && (#[trigger] rest[k]).0 == key;
            assert(m[k + 1].0 == key);
        }
    } else if m.len() > 0 {
        assert(m[0].0 == key);
    }
}

/// `m` with `key` bound to `value`: a binding of the same key is replaced, a
/// new one goes before the first greater key.
pub open spec fn put<T>(m: Seq<(Seq<char>, T)>, key: Seq<char>, value: T) -> Seq<(Seq<char>, T)>
    decreases m.len(),
{
    if m.len() == 0 {
        seq![(key, value)]
    } else if m[0].0 == key {
        seq![(key, value)] + m.skip(1)
    } else if precedes(key, m[0].0) {
        seq![(key, value)] + m
    } else {
        seq![m[0]] + put(m.skip(1), key, value)
    }
}

/// `m` with every pair of `pairs` put in, from the first to the last.
pub open spec fn put_all<T>(m: Seq<(Seq<char>, T)>, pairs: Seq<(Seq<char>, T)>) -> Seq<(Seq<char>, T)>
    decreases pairs.len(),
{
    if pairs.len() == 0 {
        m
    } else {
        let last = pairs.last();
        put(put_all(m, pairs.drop_last()), last.0, last.1)
    }
}

/// The keys ascend, so each occurs once.
pub open spec fn ascending<T>(m: Seq<(Seq<char>, T)>) -> bool {
    forall|i: int, j: int| 0 <= i < j < m.len() ==> precedes(#[trigger] m[i].0, #[trigger] m[j].0)
}

/// A value that was put in is read back under its key.
pub proof fn lemma_put_is_read_back<T>(m: Seq<(Seq<char>, T)>, key: Seq<char>, value: T)
    ensures
        lookup(put(m, key, value), key) == Some(value),
    decreases m.len(),
{
    let after = put(m, key, value);
    if m.len() > 0 && m[0].0 != key && !precedes(key, m[0].0) {
        lemma_put_is_read_back(m.skip(1), key, value);
        assert(after.skip(1) =~= put(m.skip(1), key, value));
    }
}

/// Putting a value in leaves every other key as it was.
pub proof fn lemma_put_leaves_others<T>(m: Seq<(Seq<char>, T)>, key: Seq<char>, value: T, other: Seq<char>)
    requires
        key != other,
    ensures
        lookup(put(m, key, value), other) == lookup(m, other),
    decreases m.len(),
{
    let after = put(m, key, value);
    if m.len() == 0 {
        assert(after.skip(1) =~= m);
    } else if m[0].0 == key {
        assert(after.skip(1) =~= m.skip(1));
    } else if precedes(key, m[0].0) {
        assert(after.skip(1) =~= m);
    } else {
        assert(after.skip(1) =~= put(m.skip(1), key, value));
        lemma_put_leaves_others(m.skip(1), key, value, other);
    }
}

proof fn lemma_put_keys<T>(m: Seq<(Seq<char>, T)>, key: Seq<char>, value: T)
    ensures
        forall|i: int|
            0 <= i < put(m, key, value).len() ==> (#[trigger] put(m, key, value)[i]).0 == key || exists|j: int|
                0 <= j < m.len() && (#[trigger] m[j]).0 == put(m, key, value)[i].0,
    decreases m.len(),
{
    let after = put(m, key, value);
    assert forall|i: int| 0 <= i < after.len() implies (#[trigger] after[i]).0 == key || exists|j: int|
        0 <= j < m.len() && (#[trigger] m[j]).0 == after[i].0 by {
        if m.len() == 0 {
        } else if m[0].0 == key {
            if i > 0 {
                assert(m[i].0 == after[i].0);
            }
        } else if precedes(key, m[0].0) {
            if i > 0 {
                assert(m[i - 1].0 == after[i].0);
            }
        } else {
            let rest = put(m.skip(1), key, value);
            if i == 0 {
                assert(m[0].0 == after[0].0);
            } else {
                lemma_put_keys(m.skip(1), key, value);
                assert(rest[i - 1] == after[i]);
                if rest[i - 1].0 != key {
                    let j = choose|j: int| 0 <= j < m.skip(1).len() && (#[trigger] m.skip(1)[j]).0 == rest[i - 1].0;
                    assert(m[j + 1].0 == after[i].0);
                }
            }
        }
    }
}

/// Putting a value in keeps the keys in ascending order.
pub proof fn lemma_put_keeps_order<T>(m: Seq<(Seq<char>, T)>, key: Seq<char>, value: T)
    requires
        ascending(m),
    ensures
        ascending(put(m, key, value)),
    decreases m.len(),
{
    let after = put(m, key, value);
    if m.len() == 0 {
    } else if m[0].0 == key {
        assert forall|i: int, j: int| 0 <= i < j < after.len() implies precedes(
            #[trigger] after[i].0,
            #[trigger] after[j].0,
        ) by {
            assert(after[i].0 == m[i].0 && after[j].0 == m[j].0);
        }
    } else if precedes(key, m[0].0) {
        assert forall|i: int, j: int| 0 <= i < j < after.len() implies precedes(
            #[trigger] after[i].0,
            #[trigger] after[j].0,
        ) by {
            assert(after[j] == m[j - 1]);
            if i == 0 {
                if j > 1 {
                    lemma_precedes_transitive(key, m[0].0, m[j - 1].0);
                }
            } else {
                assert(after[i] == m[i - 1]);
            }
        }
    } else {
        let rest = m.skip(1);
        assert(ascending(rest)) by {
            assert forall|i: int, j: int| 0 <= i < j < rest.len() implies precedes(
                #[trigger] rest[i].0,
                #[trigger] rest[j].0,
            ) by {
                assert(precedes(m[i + 1].0, m[j + 1].0));
            }
        }
        lemma_put_keeps_order(rest, key, value);
        lemma_put_keys(rest, key, value);
        lemma_precedes_total(key, m[0].0);
        let tail = put(rest, key, value);
        assert forall|i: int, j: int| 0 <= i < j < after.len() implies precedes(
            #[trigger] after[i].0,
            #[trigger] after[j].0,
        ) by {
            assert(after[j] == tail[j - 1]);
            if i == 0 {
                if tail[j - 1].0 != key {
                    let k = choose|k: int| 0 <= k < rest.len() && (#[trigger] rest[k]).0 == tail[j - 1].0;
                    assert(rest[k] == m[k + 1]);
                }
            } else {
                assert(after[i] == tail[i - 1]);
            }
        }
    }
}

/// A pair of the outcome is the new one or one of before.
pub proof fn lemma_put_members<T>(m: Seq<(Seq<char>, T)>, key: Seq<char>, value: T, i: int)
    requires
        0 <= i < put(m, key, value).len(),
    ensures
        put(m, key, value)[i] == (key, value) || m.contains(put(m, key, value)[i]),
    decreases m.len(),
{
    let after = put(m, key, value);
    if m.len() == 0 {
    } else if m[0].0 == key {
        if i > 0 {
            assert(m[i] == after[i]);
        }
    } else if precedes(key, m[0].0) {
        if i > 0 {
            assert(m[i - 1] == after[i]);
        }
    } else if i == 0 {
        assert(m[0] == after[0]);
    } else {
        lemma_put_members(m.skip(1), key, value, i - 1);
        assert(after[i] == put(m.skip(1), key, value)[i - 1]);
        if after[i] != (key, value) {
            let j = choose|j: int| 0 <= j < m.skip(1).len() && m.skip(1)[j] == after[i];
            assert(m[j + 1] == after[i]);
        }
    }
}

/// A pair of the outcome is one that was put in or one of before.
pub proof fn lemma_put_all_members<T>(m: Seq<(Seq<char>, T)>, pairs: Seq<(Seq<char>, T)>, i: int)
    requires
        0 <= i < put_all(m, pairs).len(),
    ensures
        m.contains(put_all(m, pairs)[i]) || pairs.contains(put_all(m, pairs)[i]),
    decreases pairs.len(),
{
    if pairs.len() == 0 {
        assert(m[i] == put_all(m, pairs)[i]);
    } else {
        let last = pairs.last();
        let before = put_all(m, pairs.drop_last());
        lemma_put_members(before, last.0, last.1, i);
        let pair = put_all(m, pairs)[i];
        if pair == (last.0, last.1) {
            assert(pairs[pairs.len() - 1] == pair);
        } else {
            let j = choose|j: int| 0 <= j < before.len() && before[j] == pair;
            lemma_put_all_members(m, pairs.drop_last(), j);
            if pairs.drop_last().contains(pair) {
                let k = choose|k: int| 0 <= k < pairs.drop_last().len() && pairs.drop_last()[k] == pair;
                assert(pairs[k] == pair);
            }
        }
    }
}

/// Putting pairs into a map with ascending keys keeps them ascending.
pub proof fn lemma_put_all_keeps_order<T>(m: Seq<(Seq<char>, T)>, pairs: Seq<(Seq<char>, T)>)
    requires
        ascending(m),
    ensures
        ascending(put_all(m, pairs)),
    decreases pairs.len(),
{
    if pairs.len() > 0 {
        lemma_put_all_keeps_order(m, pairs.drop_last());
        lemma_put_keeps_order(put_all(m, pairs.drop_last()), pairs.last().0, pairs.last().1);
    }
}

/// Where the keys ascend, putting a value in adds a pair exactly if the key was
/// not bound.
pub proof fn lemma_put_length<T>(m: Seq<(Seq<char>, T)>, key: Seq<char>, value: T)
    requires
        ascending(m),
    ensures
        put(m, key, value).len() == if lookup(m, key) is Some {
            m.len()
        } else {
            m.len() + 1
        },
    decreases m.len(),
{
    if m.len() > 0 && m[0].0 != key {
        let rest = m.skip(1);
        assert forall|i: int, j: int| 0 <= i < j < rest.len() implies precedes(
            #[trigger] rest[i].0,
            #[trigger] rest[j].0,
        ) by {
            assert(precedes(m[i + 1].0, m[j + 1].0));
        }
        if precedes(key, m[0].0) {
            lemma_lower_key_is_unbound(rest, key, m[0].0);
        } else {
            lemma_put_length(rest, key, value);
        }
    }
}

proof fn lemma_lower_key_is_unbound<T>(m: Seq<(Seq<char>, T)>, key: Seq<char>, first: Seq<char>)
    requires
        precedes(key, first),
        forall|i: int| 0 <= i < m.len() ==> precedes(first, #[trigger] m[i].0),
    ensures
        lookup(m, key) is None,
    decreases m.len(),
{
    if m.len() > 0 {
        assert(precedes(first, m[0].0));
        lemma_precedes_transitive(key, first, m[0].0);
        lemma_precedes_irreflexive(key);
        assert forall|i: int| 0 <= i < m.skip(1).len() implies precedes(first, #[trigger] m.skip(1)[i].0) by {
            assert(precedes(first, m[i + 1].0));
        }
        lemma_lower_key_is_unbound(m.skip(1), key, first);
    }
}

proof fn lemma_lookup_last<T>(m: Seq<(Seq<char>, T)>, key: Seq<char>)
    requires
        m.len() > 0,
    ensures
        lookup(m, key) == if lookup(m.drop_last(), key) is Some {
            lookup(m.drop_last(), key)
        } else if m.last().0 == key {
            Some(m.last().1)
        } else {
            None
        },
    decreases m.len(),
{
    if m.len() > 1 {
        assert(m.drop_last().skip(1) =~= m.skip(1).drop_last());
        assert(m.skip(1).last() == m.last());
        lemma_lookup_last(m.skip(1), key);
    } else {
        assert(m.drop_last() =~= Seq::empty());
        assert(m.skip(1) =~= Seq::empty());
    }
}

proof fn lemma_lookup_below<T>(m: Seq<(Seq<char>, T)>, key: Seq<char>)
    requires
        forall|i: int| 0 <= i < m.len() ==> (#[trigger] m[i]).0 != key,
    ensures
        lookup(m, key) is None,
    decreases m.len(),
{
    if m.len() > 0 {
        assert forall|i: int| 0 <= i < m.skip(1).len() implies (#[trigger] m.skip(1)[i]).0 != key by {
            assert(m[i + 1].0 != key);
        }
        lemma_lookup_below(m.skip(1), key);
    }
}

/// After pairs were put in, their keys have their values, and every other key
/// is as it was.
pub proof fn lemma_put_all_is_read_back<T>(m: Seq<(Seq<char>, T)>, pairs: Seq<(Seq<char>, T)>, key: Seq<char>)
    requires
        ascending(pairs),
    ensures
        lookup(put_all(m, pairs), key) == if lookup(pairs, key) is Some {
            lookup(pairs, key)
        } else {
            lookup(m, key)
        },
    decreases pairs.len(),
{
    if pairs.len() > 0 {
        let rest = pairs.drop_last();
        let last = pairs.last();
        assert forall|i: int, j: int| 0 <= i < j < rest.len() implies precedes(
            #[trigger] rest[i].0,
            #[trigger] rest[j].0,
        ) by {
            assert(precedes(pairs[i].0, pairs[j].0));
        }
        lemma_put_all_is_read_back(m, rest, key);
        lemma_lookup_last(pairs, key);
        if last.0 == key {
            lemma_put_is_read_back(put_all(m, rest), last.0, last.1);
            assert forall|i: int| 0 <= i < rest.len() implies (#[trigger] rest[i]).0 != key by {
                assert(precedes(pairs[i].0, pairs[pairs.len() - 1].0));
                lemma_precedes_irreflexive(key);
            }
            lemma_lookup_below(rest, key);
        } else {
            lemma_put_leaves_others(put_all(m, rest), last.0, last.1, key);
        }
    }
}

/// The pairs of a list, each key and value by its view.
pub open spec fn pairs_view<V: View>(pairs: Seq<(String, V)>) -> Seq<(Seq<char>, V::V)> {
    Seq::new(pairs.len(), |i: int| (pairs[i].0@, pairs[i].1@))
}

/// The position of the first pair whose key is `key`.
pub fn position<V: View>(pairs: &Vec<(String, V)>, key: &str) -> (r: Option<usize>)
    ensures
        match r {
            Some(i) => i < pairs@.len() && lookup(pairs_view(pairs@), key@) == Some(pairs@[i as int].1@),
            None => lookup(pairs_view(pairs@), key@) is None,
        },
{
    let mut i: usize = 0;
    let ghost m = pairs_view(pairs@);
    assert(m.skip(0) =~= m);
    while i < pairs.len()
        invariant
            i <= pairs.len(),
            m == pairs_view(pairs@),
            lookup(m, key@) == lookup(m.skip(i as int), key@),
        decreases pairs.len() - i,
    {
        if same(pairs[i].0.as_str(), key) {
            return Some(i);
        }
        assert(m.skip(i as int).skip(1) =~= m.skip(i + 1));
        i += 1;
    }
    None
}

/// Bind `key` to `value`; the value it was bound to before, if any.
pub fn put_in<V: View>(pairs: &mut Vec<(String, V)>, key: String, value: V) -> (r: Option<V>)
    ensures
        pairs_view(final(pairs)@) == put(pairs_view(old(pairs)@), key@, value@),
        r is Some ==> lookup(pairs_view(old(pairs)@), key@) is Some,
        r is None ==> final(pairs)@.len() == old(pairs)@.len() + 1,
        r is Some ==> final(pairs)@.len() == old(pairs)@.len(),
{
    let ghost m = pairs_view(pairs@);
    let ghost start = pairs@;
    let mut i: usize = 0;
    assert(m.skip(0) =~= m);
    assert(m.take(0) + put(m, key@, value@) =~= put(m, key@, value@));
    while i < pairs.len()
        invariant
            i <= pairs.len(),
            pairs@ == start,
            start == old(pairs)@,
            m == pairs_view(start),
            lookup(m, key@) == lookup(m.skip(i as int), key@),
            put(m, key@, value@) == m.take(i as int) + put(m.skip(i as int), key@, value@),
        decreases pairs.len() - i,
    {
        let ghost rest = m.skip(i as int);
        assert(rest[0] == m[i as int]);
        if same(pairs[i].0.as_str(), key.as_str()) {
            let ghost v = value@;
            let ghost k = key@;
            pairs.push((key, value));
            let old_pair = pairs.swap_remove(i);
            proof {
                assert(rest.skip(1) =~= m.skip(i + 1));
                assert(pairs_view(pairs@) =~= m.take(i as int) + (seq![(k, v)] + m.skip(i + 1)));
            }
            return Some(old_pair.1);
        }
        if before(key.as_str(), pairs[i].0.as_str()) {
            let ghost v = value@;
            let ghost k = key@;
            pairs.insert(i, (key, value));
            proof {
                assert(pairs_view(pairs@) =~= m.take(i as int) + (seq![(k, v)] + rest));
            }
            return None;
        }
        proof {
            assert(rest.skip(1) =~= m.skip(i + 1));
            assert(m.take(i as int) + (seq![rest[0]] + put(m.skip(i + 1), key@, value@)) =~= m.take(i + 1) + put(
                m.skip(i + 1),
                key@,
                value@,
            ));
        }
        i += 1;
    }
    let ghost v = value@;
    let ghost k = key@;
    pairs.push((key, value));
    proof {
        assert(m.skip(i as int) =~= Seq::empty());
        assert(pairs_view(pairs@) =~= m.take(i as int) + seq![(k, v)]);
    }
    None
}

/// A map from texts to values of type `V`.
#[derive(Debug)]
pub struct TextMap<V> {
    pub pairs: Vec<(String, V)>,
}

impl<V: View> View for TextMap<V> {
    type V = Seq<(Seq<char>, V::V)>;

    open spec fn view(&self) -> Seq<(Seq<char>, V::V)> {
        pairs_view(self.pairs@)
    }
}

impl<V: View> TextMap<V> {
    /// The map without a binding.
    pub fn new() -> (r: Self)
        ensures
            r@ == Seq::<(Seq<char>, V::V)>::empty(),
            r.pairs@.len() == 0,
    {
        let r = TextMap { pairs: Vec::new() };
        assert(r@ =~= Seq::empty());
        r
    }

    /// The number of bindings.
    pub fn len(&self) -> (r: usize)
        ensures
            r == self@.len(),
    {
        self.pairs.len()
    }

    /// Whether there is no binding.
    pub fn is_empty(&self) -> (r: bool)
        ensures
            r == (self@.len() == 0),
    {
        self.pairs.len() == 0
    }

    /// The value bound to `key`.
    pub fn get(&self, key: &str) -> (r: Option<&V>)
        ensures
            match r {
                Some(v) => lookup(self@, key@) == Some(v@),
                None => lookup(self@, key@) is None,
            },
    {
        match position(&self.pairs, key) {
            Some(i) => Some(&self.pairs[i].1),
            None => None,
        }
    }

    /// Whether `key` is bound.
    pub fn contains_key(&self, key: &str) -> (r: bool)
        ensures
            r == lookup(self@, key@) is Some,
    {
        position(&self.pairs, key).is_some()
    }

    /// Bind `key` to `value`, and tell whether it was bound before.
    pub fn insert(&mut self, key: String, value: V) -> (replaced: bool)
        ensures
            final(self)@ == put(old(self)@, key@, value@),
            ascending(old(self)@) ==> ascending(final(self)@) && replaced == lookup(old(self)@, key@) is Some,
    {
        proof {
            if ascending(self@) {
                lemma_put_keeps_order(self@, key@, value@);
                lemma_put_length(self@, key@, value@);
            }
        }
        put_in(&mut self.pairs, key, value).is_some()
    }
}

impl<V: Copied> Copied for TextMap<V> {
    fn copied(&self) -> (r: Self) {
        let mut pairs: Vec<(String, V)> = Vec::new();
        let mut i: usize = 0;
        while i < self.pairs.len()
            invariant
                i <= self.pairs.len(),
                pairs.len() == i,
                forall|k: int|
                    0 <= k < i ==> (#[trigger] pairs@[k]).0@ == self.pairs@[k].0@ && pairs@[k].1@
                        == self.pairs@[k].1@,
            decreases self.pairs.len() - i,
        {
            pairs.push((self.pairs[i].0.clone(), self.pairs[i].1.copied()));
            i += 1;
        }
        let r = TextMap { pairs };
        assert(r@ =~= self@);
        r
    }
}

} // verus!
