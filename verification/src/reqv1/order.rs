//! The order in which bindings are resolved: each after those that it refers
//! to by `${bindings.NAME}`.

use vstd::prelude::*;

use crate::json::{Json, JsonV};
use crate::map::pairs_view;
use crate::reqv1::model::{Binding, BindingV};
use crate::text::{chars_of, find_from, first_at, lemma_first_at, same, text_between};
use crate::view::{group_views, views};

verus! {

broadcast use vstd::string::group_string_axioms;

// ---------------------------------------------------------------------
// References
// ---------------------------------------------------------------------

/// Where a name that begins at `i` ends: before the next `.` or `}`.
pub open spec fn name_end(s: Seq<char>, i: int) -> int
    decreases s.len() - i,
{
    if i >= s.len() || s[i] == '.' || s[i] == '}' {
        i
    } else {
        name_end(s, i + 1)
    }
}

/// The names that a text refers to, from `from` on.
pub open spec fn names_in_text(s: Seq<char>, from: int) -> Seq<Seq<char>>
    decreases s.len() - from,
{
    match first_at(s, "${bindings."@, from) {
        None => seq![],
        Some(at) => {
            let start = at + 11;
            if !(from < start <= s.len()) {
                seq![]
            } else {
                let end = name_end(s, start);
                let rest = names_in_text(s, start);
                if end > start {
                    seq![s.subrange(start, end)] + rest
                } else {
                    rest
                }
            }
        },
    }
}

/// The names that the texts of a value refer to.
pub open spec fn names_in(v: JsonV) -> Seq<Seq<char>>
    decreases v,
{
    match v {
        JsonV::String(s) => names_in_text(s, 0),
        JsonV::Array(items) => names_in_items(items, items.len() as int),
        JsonV::Object(pairs) => names_in_pairs(pairs, pairs.len() as int),
        _ => seq![],
    }
}

/// The names that the first `n` items refer to.
pub open spec fn names_in_items(items: Seq<JsonV>, n: int) -> Seq<Seq<char>>
    decreases items, n,
{
    if n <= 0 || n > items.len() {
        seq![]
    } else {
        names_in_items(items, n - 1) + names_in(items[n - 1])
    }
}

/// The names that the values of the first `n` pairs refer to.
pub open spec fn names_in_pairs(pairs: Seq<(Seq<char>, JsonV)>, n: int) -> Seq<Seq<char>>
    decreases pairs, n,
{
    if n <= 0 || n > pairs.len() {
        seq![]
    } else {
        names_in_pairs(pairs, n - 1) + names_in(pairs[n - 1].1)
    }
}

/// The names that a binding refers to.
pub open spec fn binding_names(b: BindingV) -> Seq<Seq<char>> {
    match b {
        BindingV::Value(v) => names_in(v),
        BindingV::Use { with, .. } => names_in(with),
        BindingV::Ref { .. } => seq![],
    }
}

fn collect_text(s: &str, out: &mut Vec<String>)
    ensures
        views(final(out)@) == views(old(out)@) + names_in_text(s@, 0),
{
    broadcast use group_views;

    let chars = chars_of(s);
    let mark = chars_of("${bindings.");
    proof {
        reveal_strlit("${bindings.");
        assert("${bindings."@.len() == 11);
    }
    let ghost start = views(out@);
    let mut from: usize = 0;
    assert(start + names_in_text(s@, 0) =~= views(out@) + names_in_text(s@, 0));
    loop
        invariant
            from <= chars.len(),
            chars@ == s@,
            mark@ == "${bindings."@,
            mark@.len() == 11,
            start == views(old(out)@),
            start + names_in_text(s@, 0) == views(out@) + names_in_text(s@, from as int),
        decreases chars.len() - from,
    {
        proof {
            lemma_first_at(s@, "${bindings."@, from as int);
        }
        match find_from(&chars, &mark, from) {
            None => {
                assert(views(out@) + Seq::<Seq<char>>::empty() =~= views(out@));
                return ;
            },
            Some(at) => {
                let begin: usize = at + 11;
                let mut end: usize = begin;
                while end < chars.len() && chars[end] != '.' && chars[end] != '}'
                    invariant
                        begin <= end <= chars.len(),
                        chars@ == s@,
                        name_end(s@, begin as int) == name_end(s@, end as int),
                    decreases chars.len() - end,
                {
                    end += 1;
                }
                if end > begin {
                    let ghost before = views(out@);
                    let name = text_between(&chars, begin, end);
                    out.push(name);
                    assert(before + (seq![s@.subrange(begin as int, end as int)] + names_in_text(s@, begin as int))
                        =~= views(out@) + names_in_text(s@, begin as int));
                }
                from = begin;
            },
        }
    }
}

/// Collect the names that the texts of a value refer to.
pub fn collect_binding_refs(v: &Json, out: &mut Vec<String>)
    ensures
        views(final(out)@) == views(old(out)@) + names_in(v@),
    decreases v,
{
    broadcast use crate::json::lemma_json_view;

    let ghost start = views(out@);
    assert(start + Seq::<Seq<char>>::empty() =~= start);
    match v {
        Json::String(s) => collect_text(s.as_str(), out),
        Json::Array(items) => {
            let ghost all = views(items@);
            let mut i: usize = 0;
            while i < items.len()
                invariant
                    i <= items.len(),
                    *v == Json::Array(*items),
                    all == views(items@),
                    views(out@) == start + names_in_items(all, i as int),
                decreases items.len() - i,
            {
                proof {
                    crate::json::lemma_item_decreases(*v, i as int);
                }
                collect_binding_refs(&items[i], out);
                assert(start + names_in_items(all, i as int) + names_in(all[i as int]) =~= start + (names_in_items(
                    all,
                    i as int,
                ) + names_in(all[i as int])));
                i += 1;
            }
        },
        Json::Object(pairs) => {
            let ghost all = pairs_view(pairs@);
            let mut i: usize = 0;
            while i < pairs.len()
                invariant
                    i <= pairs.len(),
                    *v == Json::Object(*pairs),
                    all == pairs_view(pairs@),
                    views(out@) == start + names_in_pairs(all, i as int),
                decreases pairs.len() - i,
            {
                proof {
                    crate::json::lemma_member_decreases(*v, i as int);
                }
                collect_binding_refs(&pairs[i].1, out);
                assert(start + names_in_pairs(all, i as int) + names_in(all[i as int].1) =~= start + (names_in_pairs(
                    all,
                    i as int,
                ) + names_in(all[i as int].1)));
                i += 1;
            }
        },
        _ => {},
    }
}

/// The names that a binding refers to.
pub fn binding_deps(b: &Binding) -> (r: Vec<String>)
    ensures
        views(r@) == binding_names(b@),
{
    broadcast use group_views;

    let mut out: Vec<String> = Vec::new();
    match b {
        Binding::Value(b) => collect_binding_refs(&b.value, &mut out),
        Binding::Use(b) => collect_binding_refs(&b.with, &mut out),
        Binding::Ref(_) => {},
    }
    assert(views(out@) =~= binding_names(b@));
    out
}

// ---------------------------------------------------------------------
// Order
// ---------------------------------------------------------------------

/// Names with the names that they depend on.
pub type DepsV = Seq<(Seq<char>, Seq<Seq<char>>)>;

/// `name` is one of the names.
pub open spec fn is_known(deps: DepsV, name: Seq<char>) -> bool {
    exists|i: int| 0 <= i < deps.len() && (#[trigger] deps[i]).0 == name
}

/// The `i`-th name is not done, and each known name that it depends on is.
pub open spec fn is_ready(deps: DepsV, done: Seq<Seq<char>>, i: int) -> bool {
    &&& !done.contains(deps[i].0)
    &&& forall|k: int|
        0 <= k < deps[i].1.len() && is_known(deps, #[trigger] deps[i].1[k]) ==> done.contains(deps[i].1[k])
}

/// The last of the first `n` names that is ready.
pub open spec fn last_ready(deps: DepsV, done: Seq<Seq<char>>, n: int) -> Option<int>
    decreases n,
{
    if n <= 0 || n > deps.len() {
        None
    } else if is_ready(deps, done, n - 1) {
        Some(n - 1)
    } else {
        last_ready(deps, done, n - 1)
    }
}

/// `done` and what can be done after it, at most `steps` names: at each step
/// the last name that is ready, which is the greatest.
pub open spec fn order_after(deps: DepsV, done: Seq<Seq<char>>, steps: nat) -> Seq<Seq<char>>
    decreases steps,
{
    if steps == 0 {
        done
    } else {
        match last_ready(deps, done, deps.len() as int) {
            None => done,
            Some(i) => order_after(deps, done.push(deps[i].0), (steps - 1) as nat),
        }
    }
}

/// The order in which the names are done, as far as there is one.
pub open spec fn dependency_order(deps: DepsV) -> Seq<Seq<char>> {
    order_after(deps, seq![], deps.len())
}

/// The names that are not among `done`.
pub open spec fn not_done(deps: DepsV, done: Seq<Seq<char>>, n: int) -> Seq<Seq<char>>
    decreases n,
{
    if n <= 0 || n > deps.len() {
        seq![]
    } else {
        let before = not_done(deps, done, n - 1);
        if done.contains(deps[n - 1].0) {
            before
        } else {
            before.push(deps[n - 1].0)
        }
    }
}

/// Names with their dependencies, by their views.
pub open spec fn deps_view(deps: Seq<(String, Vec<String>)>) -> DepsV {
    Seq::new(deps.len(), |i: int| (deps[i].0@, views(deps[i].1@)))
}

fn among(list: &Vec<String>, name: &str) -> (r: bool)
    ensures
        r == views(list@).contains(name@),
{
    let ghost all = views(list@);
    let mut i: usize = 0;
    while i < list.len()
        invariant
            i <= list.len(),
            all == views(list@),
            forall|k: int| 0 <= k < i ==> all[k] != name@,
        decreases list.len() - i,
    {
        if same(list[i].as_str(), name) {
            assert(all[i as int] == name@);
            return true;
        }
        i += 1;
    }
    false
}

fn known(deps: &Vec<(String, Vec<String>)>, name: &str) -> (r: bool)
    ensures
        r == is_known(deps_view(deps@), name@),
{
    let ghost all = deps_view(deps@);
    let mut i: usize = 0;
    while i < deps.len()
        invariant
            i <= deps.len(),
            all == deps_view(deps@),
            forall|k: int| 0 <= k < i ==> (#[trigger] all[k]).0 != name@,
        decreases deps.len() - i,
    {
        if same(deps[i].0.as_str(), name) {
            assert(all[i as int].0 == name@);
            return true;
        }
        i += 1;
    }
    false
}

fn ready(deps: &Vec<(String, Vec<String>)>, done: &Vec<String>, i: usize) -> (r: bool)
    requires
        i < deps@.len(),
    ensures
        r == is_ready(deps_view(deps@), views(done@), i as int),
{
    if among(done, deps[i].0.as_str()) {
        return false;
    }
    let ghost all = deps_view(deps@);
    let ghost placed = views(done@);
    let needs = &deps[i].1;
    assert(all[i as int].1 == views(needs@));
    let mut k: usize = 0;
    while k < needs.len()
        invariant
            k <= needs.len(),
            i < deps@.len(),
            all == deps_view(deps@),
            placed == views(done@),
            all[i as int].1 == views(needs@),
            forall|j: int|
                0 <= j < k && is_known(all, #[trigger] all[i as int].1[j]) ==> placed.contains(all[i as int].1[j]),
        decreases needs.len() - k,
    {
        assert(all[i as int].1[k as int] == needs@[k as int]@);
        if known(deps, needs[k].as_str()) && !among(done, needs[k].as_str()) {
            return false;
        }
        k += 1;
    }
    true
}

/// Put names into an order in which each comes after the known names that it
/// depends on. Of several that could come next the last one comes. Where there
/// is no such order, the names that cannot be placed are given.
pub fn topo_order(deps: &Vec<(String, Vec<String>)>) -> (r: Result<Vec<String>, Vec<String>>)
    ensures
        match r {
            Ok(order) => views(order@) == dependency_order(deps_view(deps@)) && order@.len() == deps@.len(),
            Err(left) => dependency_order(deps_view(deps@)).len() != deps@.len() && views(left@) == not_done(
                deps_view(deps@),
                dependency_order(deps_view(deps@)),
                deps@.len() as int,
            ),
        },
{
    broadcast use group_views;

    let ghost all = deps_view(deps@);
    let mut done: Vec<String> = Vec::new();
    let mut steps: usize = deps.len();
    let mut stuck = false;
    while steps > 0 && !stuck
        invariant
            all == deps_view(deps@),
            steps <= deps.len(),
            stuck ==> dependency_order(all) == views(done@),
            !stuck ==> dependency_order(all) == order_after(all, views(done@), steps as nat),
        decreases
            steps,
            if stuck {
                0int
            } else {
                1int
            },
    {
        let mut n: usize = deps.len();
        while n > 0 && !ready(deps, &done, n - 1)
            invariant
                n <= deps.len(),
                all == deps_view(deps@),
                last_ready(all, views(done@), all.len() as int) == last_ready(all, views(done@), n as int),
            decreases n,
        {
            n -= 1;
        }
        if n == 0 {
            stuck = true;
        } else {
            let ghost before = views(done@);
            assert(last_ready(all, before, all.len() as int) == Some(n - 1));
            done.push(deps[n - 1].0.clone());
            assert(views(done@) == before.push(all[n - 1].0));
            assert(order_after(all, before, steps as nat) == order_after(all, views(done@), (steps - 1) as nat));
            steps -= 1;
        }
    }
    if done.len() == deps.len() {
        return Ok(done);
    }
    let mut left: Vec<String> = Vec::new();
    let mut i: usize = 0;
    while i < deps.len()
        invariant
            i <= deps.len(),
            all == deps_view(deps@),
            views(left@) == not_done(all, views(done@), i as int),
        decreases deps.len() - i,
    {
        if !among(&done, deps[i].0.as_str()) {
            left.push(deps[i].0.clone());
        }
        i += 1;
    }
    assert(views(done@).len() == done@.len());
    Err(left)
}

// ---------------------------------------------------------------------
// Laws
// ---------------------------------------------------------------------

/// Each name of `order` is a known name, occurs once, and comes after the
/// known names that it depends on.
pub open spec fn respects(deps: DepsV, order: Seq<Seq<char>>) -> bool {
    forall|k: int| 0 <= k < order.len() ==> placed_well(deps, order, k)
}

/// The `k`-th name of `order` stands for a name of `deps` that was ready when
/// the names before it were done.
pub open spec fn placed_well(deps: DepsV, order: Seq<Seq<char>>, k: int) -> bool {
    exists|i: int|
        0 <= i < deps.len() && (#[trigger] deps[i]).0 == order[k] && is_ready(deps, order.take(k), i)
}

proof fn lemma_last_ready(deps: DepsV, done: Seq<Seq<char>>, n: int)
    requires
        0 <= n <= deps.len(),
    ensures
        match last_ready(deps, done, n) {
            Some(i) => 0 <= i < n && is_ready(deps, done, i),
            None => forall|i: int| 0 <= i < n ==> !#[trigger] is_ready(deps, done, i),
        },
    decreases n,
{
    if n > 0 && !is_ready(deps, done, n - 1) {
        lemma_last_ready(deps, done, n - 1);
    }
}

proof fn lemma_order_respects(deps: DepsV, done: Seq<Seq<char>>, steps: nat)
    requires
        respects(deps, done),
    ensures
        respects(deps, order_after(deps, done, steps)),
    decreases steps,
{
    if steps > 0 {
        lemma_last_ready(deps, done, deps.len() as int);
        if let Some(i) = last_ready(deps, done, deps.len() as int) {
            let next = done.push(deps[i].0);
            assert forall|k: int| 0 <= k < next.len() implies placed_well(deps, next, k) by {
                if k < done.len() {
                    assert(placed_well(deps, done, k));
                    assert(next.take(k) =~= done.take(k));
                } else {
                    assert(next.take(k) =~= done);
                    assert(deps[i].0 == next[k]);
                }
            }
            lemma_order_respects(deps, next, (steps - 1) as nat);
        }
    }
}

/// Every binding is resolved after the bindings that it refers to, and once.
pub proof fn lemma_dependencies_come_first(deps: DepsV)
    ensures
        respects(deps, dependency_order(deps)),
{
    lemma_order_respects(deps, seq![], deps.len());
}

proof fn lemma_order_exhausts(deps: DepsV, done: Seq<Seq<char>>, steps: nat)
    ensures
        order_after(deps, done, steps).len() <= done.len() + steps,
        order_after(deps, done, steps).len() < done.len() + steps ==> last_ready(
            deps,
            order_after(deps, done, steps),
            deps.len() as int,
        ) is None,
    decreases steps,
{
    if steps > 0 {
        if let Some(i) = last_ready(deps, done, deps.len() as int) {
            lemma_order_exhausts(deps, done.push(deps[i].0), (steps - 1) as nat);
        }
    }
}

/// A name that cannot be placed depends on a known name that cannot be placed
/// either: names are left over only where there is a cycle.
pub proof fn lemma_left_over_means_cycle(deps: DepsV, i: int)
    requires
        0 <= i < deps.len(),
        !dependency_order(deps).contains(deps[i].0),
        dependency_order(deps).len() != deps.len(),
    ensures
        exists|k: int|
            0 <= k < deps[i].1.len() && is_known(deps, #[trigger] deps[i].1[k]) && !dependency_order(deps).contains(
                deps[i].1[k],
            ),
{
    let order = dependency_order(deps);
    lemma_order_exhausts(deps, seq![], deps.len());
    lemma_last_ready(deps, order, deps.len() as int);
    assert(!is_ready(deps, order, i));
}

} // verus!
