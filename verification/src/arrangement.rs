//! The order of the children of a collection or folder: those that its `order`
//! lists come first, as listed, and the others follow alphabetically.

use vstd::prelude::*;

use crate::map::{
    ascending, lemma_precedes_irreflexive, lemma_put_is_read_back, lemma_put_keeps_order, lemma_put_leaves_others, lookup,
    put, TextMap,
};
use crate::text::same;
use crate::view::{group_views, views};

verus! {

broadcast use vstd::string::group_string_axioms;

/// The children among the first `n` listed names, each once.
pub open spec fn listed(names: Seq<Seq<char>>, order: Seq<Seq<char>>, n: int) -> Seq<Seq<char>>
    decreases n,
{
    if n <= 0 || n > order.len() {
        seq![]
    } else {
        let before = listed(names, order, n - 1);
        if names.contains(order[n - 1]) && !before.contains(order[n - 1]) {
            before.push(order[n - 1])
        } else {
            before
        }
    }
}

/// The first `n` children that are not in front, in ascending order.
pub open spec fn unlisted(names: Seq<Seq<char>>, front: Seq<Seq<char>>, n: int) -> Seq<(Seq<char>, Seq<char>)>
    decreases n,
{
    if n <= 0 || n > names.len() {
        seq![]
    } else {
        let before = unlisted(names, front, n - 1);
        if front.contains(names[n - 1]) {
            before
        } else {
            put(before, names[n - 1], seq![])
        }
    }
}

/// The keys of pairs.
pub open spec fn keys(pairs: Seq<(Seq<char>, Seq<char>)>) -> Seq<Seq<char>> {
    Seq::new(pairs.len(), |i: int| pairs[i].0)
}

/// The children in their order.
pub open spec fn arranged(names: Seq<Seq<char>>, order: Seq<Seq<char>>) -> Seq<Seq<char>> {
    let front = listed(names, order, order.len() as int);
    front + keys(unlisted(names, front, names.len() as int))
}

fn among(list: &Vec<String>, name: &str) -> (r: bool)
    ensures
        r == views(list@).contains(name@),
{
    let ghost all = views(list@);
    let mut i: usize = 0;
    while i < list.len()
        invariant
            i <= list.len(),
            all == views(list@),
            forall|k: int| 0 <= k < i ==> all[k] != name@,
        decreases list.len() - i,
    {
        if same(list[i].as_str(), name) {
            assert(all[i as int] == name@);
            return true;
        }
        i += 1;
    }
    false
}

/// Put the children of a collection or folder in order.
pub fn arrange(names: &Vec<String>, order: &Vec<String>) -> (r: Vec<String>)
    ensures
        views(r@) == arranged(views(names@), views(order@)),
{
    broadcast use group_views;

    let ghost all = views(names@);
    let ghost asked = views(order@);
    let mut out: Vec<String> = Vec::new();
    let mut i: usize = 0;
    while i < order.len()
        invariant
            i <= order.len(),
            all == views(names@),
            asked == views(order@),
            views(out@) == listed(all, asked, i as int),
        decreases order.len() - i,
    {
        assert(asked[i as int] == order@[i as int]@);
        if among(names, order[i].as_str()) && !among(&out, order[i].as_str()) {
            out.push(order[i].clone());
        }
        i += 1;
    }
    let ghost front = views(out@);
    let mut rest: TextMap<String> = TextMap::new();
    let mut k: usize = 0;
    while k < names.len()
        invariant
            k <= names.len(),
            all == views(names@),
            front == views(out@),
            rest@ == unlisted(all, front, k as int),
        decreases names.len() - k,
    {
        assert(all[k as int] == names@[k as int]@);
        if !among(&out, names[k].as_str()) {
            let empty = String::new();
            assert(empty@ =~= seq![]);
            let _ = rest.insert(names[k].clone(), empty);
        }
        k += 1;
    }
    let ghost tail = keys(rest@);
    let mut j: usize = 0;
    assert(front + tail.take(0) =~= front);
    while j < rest.pairs.len()
        invariant
            j <= rest.pairs.len(),
            tail == keys(rest@),
            views(out@) == front + tail.take(j as int),
        decreases rest.pairs.len() - j,
    {
        out.push(rest.pairs[j].0.clone());
        assert(tail[j as int] == rest.pairs@[j as int].0@);
        assert((front + tail.take(j as int)).push(tail[j as int]) =~= front + tail.take(j + 1));
        j += 1;
    }
    assert(tail.take(j as int) =~= tail);
    out
}

// ---------------------------------------------------------------------
// Laws
// ---------------------------------------------------------------------

proof fn lemma_listed(names: Seq<Seq<char>>, order: Seq<Seq<char>>, n: int)
    requires
        0 <= n <= order.len(),
    ensures
        listed(names, order, n).no_duplicates(),
        forall|x: Seq<char>| #[trigger]
            listed(names, order, n).contains(x) <==> names.contains(x) && order.take(n).contains(x),
    decreases n,
{
    let now = listed(names, order, n);
    if n == 0 {
        assert(order.take(0) =~= seq![]);
    } else {
        lemma_listed(names, order, n - 1);
        let before = listed(names, order, n - 1);
        let last = order[n - 1];
        assert forall|x: Seq<char>| #[trigger] now.contains(x) <==> names.contains(x) && order.take(n).contains(x) by {
            assert(order.take(n) =~= order.take(n - 1).push(last));
            assert(order.take(n).contains(x) <==> order.take(n - 1).contains(x) || x == last) by {
                lemma_pushed(order.take(n - 1), last, x);
            }
            lemma_pushed(before, last, x);
        }
    }
}

proof fn lemma_pushed(s: Seq<Seq<char>>, last: Seq<char>, x: Seq<char>)
    ensures
        s.push(last).contains(x) <==> s.contains(x) || x == last,
{
    if s.contains(x) {
        let i = choose|i: int| 0 <= i < s.len() && s[i] == x;
        assert(s.push(last)[i] == x);
    }
    assert(s.push(last)[s.len() as int] == last);
}

proof fn lemma_lookup_is_membership(m: Seq<(Seq<char>, Seq<char>)>, x: Seq<char>)
    ensures
        lookup(m, x) is Some <==> keys(m).contains(x),
    decreases m.len(),
{
    if m.len() > 0 {
        lemma_lookup_is_membership(m.skip(1), x);
        assert(keys(m)[0] == m[0].0);
        assert(keys(m).skip(1) =~= keys(m.skip(1)));
        if keys(m.skip(1)).contains(x) {
            let i = choose|i: int| 0 <= i < m.skip(1).len() && keys(m.skip(1))[i] == x;
            assert(keys(m)[i + 1] == x);
        }
        if keys(m).contains(x) && m[0].0 != x {
            let i = choose|i: int| 0 <= i < m.len() && keys(m)[i] == x;
            assert(keys(m.skip(1))[i - 1] == x);
        }
    }
}

proof fn lemma_unlisted(names: Seq<Seq<char>>, front: Seq<Seq<char>>, n: int)
    requires
        0 <= n <= names.len(),
    ensures
        ascending(unlisted(names, front, n)),
        forall|x: Seq<char>|
            (#[trigger] lookup(unlisted(names, front, n), x)) is Some <==> names.take(n).contains(x)
                && !front.contains(x),
    decreases n,
{
    let now = unlisted(names, front, n);
    if n == 0 {
        assert(names.take(0) =~= seq![]);
    } else {
        lemma_unlisted(names, front, n - 1);
        let before = unlisted(names, front, n - 1);
        let last = names[n - 1];
        assert(names.take(n) =~= names.take(n - 1).push(last));
        if !front.contains(last) {
            lemma_put_keeps_order(before, last, seq![]);
        }
        assert forall|x: Seq<char>| (#[trigger] lookup(now, x)) is Some <==> names.take(n).contains(x)
            && !front.contains(x) by {
            lemma_pushed(names.take(n - 1), last, x);
            assert(lookup(before, x) is Some <==> names.take(n - 1).contains(x) && !front.contains(x));
            if !front.contains(last) {
                if x == last {
                    lemma_put_is_read_back(before, last, seq![]);
                } else {
                    lemma_put_leaves_others(before, last, seq![], x);
                }
            }
        }
    }
}

/// Every child has one place: nothing is lost, added or repeated. Those that
/// are not listed ascend, behind those that are.
pub proof fn lemma_every_child_has_one_place(names: Seq<Seq<char>>, order: Seq<Seq<char>>)
    ensures
        arranged(names, order).no_duplicates(),
        forall|x: Seq<char>| #[trigger] arranged(names, order).contains(x) <==> names.contains(x),
        ascending(unlisted(names, listed(names, order, order.len() as int), names.len() as int)),
{
    let front = listed(names, order, order.len() as int);
    let rest = unlisted(names, front, names.len() as int);
    let all = arranged(names, order);
    lemma_listed(names, order, order.len() as int);
    lemma_unlisted(names, front, names.len() as int);
    assert(order.take(order.len() as int) =~= order);
    assert(names.take(names.len() as int) =~= names);
    assert forall|x: Seq<char>| #[trigger] all.contains(x) <==> names.contains(x) by {
        lemma_lookup_is_membership(rest, x);
        if front.contains(x) {
            let i = choose|i: int| 0 <= i < front.len() && front[i] == x;
            assert(all[i] == x);
        }
        if keys(rest).contains(x) {
            let i = choose|i: int| 0 <= i < rest.len() && keys(rest)[i] == x;
            assert(all[front.len() + i] == x);
        }
        if all.contains(x) {
            let i = choose|i: int| 0 <= i < all.len() && all[i] == x;
            if i < front.len() {
                assert(front[i] == x);
                assert(front.contains(x));
            } else {
                assert(keys(rest)[i - front.len()] == x);
                assert(lookup(rest, x) is Some);
            }
        }
        if names.contains(x) && !front.contains(x) {
            assert(lookup(rest, x) is Some);
        }
    }
    assert forall|i: int, j: int| 0 <= i < j < all.len() implies all[i] != all[j] by {
        if j < front.len() {
            assert(front[i] != front[j]);
        } else if i >= front.len() {
            let a = rest[i - front.len()];
            let b = rest[j - front.len()];
            assert(crate::map::precedes(a.0, b.0));
            lemma_precedes_irreflexive(a.0);
        } else {
            let x = all[j];
            assert(keys(rest)[j - front.len()] == x);
            lemma_lookup_is_membership(rest, x);
            assert(lookup(rest, x) is Some);
            assert(front[i] == all[i]);
            if all[i] == x {
                assert(front.contains(x));
            }
        }
    }
}

} // verus!
