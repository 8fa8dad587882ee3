//! The values of a data asset as rows, each with the reference to it.

use vstd::prelude::*;

use crate::gui::assets::{can_shorten, child_names, child_ref, escape_ptr, line_of, shorten, shortened, value_line};
use crate::json::{lemma_item_decreases, lemma_json_view, lemma_member_decreases, Json, JsonV};
use crate::map::{ascending, lemma_precedes_irreflexive, lookup, pairs_view, precedes};
use crate::pointer::{at_pointer, lemma_item_is_found, lemma_member_is_found, pointer_segment};
use crate::text::{cat3, cat4};
use crate::view::{group_views, views};
use crate::words::{decimal, number_text};

verus! {

broadcast use vstd::string::group_string_axioms;

/// What a node holds: so many members or items, or a value in one line.
#[derive(Debug)]
pub enum Held {
    Members(usize),
    Items(usize),
    Leaf(String),
}

/// What a [`Held`] says.
pub enum HeldV {
    Members(nat),
    Items(nat),
    Leaf(Seq<char>),
}

impl View for Held {
    type V = HeldV;

    open spec fn view(&self) -> HeldV {
        match self {
            Held::Members(n) => HeldV::Members(*n as nat),
            Held::Items(n) => HeldV::Items(*n as nat),
            Held::Leaf(s) => HeldV::Leaf(s@),
        }
    }
}

/// A node of a value.
#[derive(Debug)]
pub struct NodeRow {
    /// Its key, or its position in digits.
    pub key: String,
    /// The key as a segment of a pointer.
    pub segment: String,
    pub pointer: String,
    /// The reference to the asset, `#`, and the pointer.
    pub reference: String,
    pub held: Held,
}

/// What a [`NodeRow`] says.
pub struct NodeRowV {
    pub key: Seq<char>,
    pub segment: Seq<char>,
    pub pointer: Seq<char>,
    pub reference: Seq<char>,
    pub held: HeldV,
}

impl View for NodeRow {
    type V = NodeRowV;

    open spec fn view(&self) -> NodeRowV {
        NodeRowV {
            key: self.key@,
            segment: self.segment@,
            pointer: self.pointer@,
            reference: self.reference@,
            held: self.held@,
        }
    }
}

/// What a value holds.
pub open spec fn held_by(v: JsonV) -> HeldV {
    match v {
        JsonV::Object(pairs) => HeldV::Members(pairs.len()),
        JsonV::Array(items) => HeldV::Items(items.len()),
        _ => HeldV::Leaf(value_line(v)),
    }
}

/// The row of a child.
pub open spec fn row_of(base: Seq<char>, pointer: Seq<char>, key: Seq<char>, segment: Seq<char>, child: JsonV) -> NodeRowV {
    NodeRowV {
        key,
        segment,
        pointer: pointer + "/"@ + segment,
        reference: base + "#"@ + (pointer + "/"@ + segment),
        held: held_by(child),
    }
}

/// The rows below the first `n` children of the node at `pointer`: each child,
/// and then what is below it.
pub open spec fn node_rows(base: Seq<char>, pointer: Seq<char>, node: JsonV, n: int) -> Seq<NodeRowV>
    decreases node, n,
{
    match node {
        JsonV::Object(pairs) => if n <= 0 || n > pairs.len() {
            seq![]
        } else {
            let (key, child) = pairs[n - 1];
            let row = row_of(base, pointer, key, pointer_segment(key), child);
            node_rows(base, pointer, node, n - 1) + (seq![row] + node_rows(
                base,
                row.pointer,
                child,
                child_names(child).len() as int,
            ))
        },
        JsonV::Array(items) => if n <= 0 || n > items.len() {
            seq![]
        } else {
            let child = items[n - 1];
            let row = row_of(base, pointer, decimal((n - 1) as nat), decimal((n - 1) as nat), child);
            node_rows(base, pointer, node, n - 1) + (seq![row] + node_rows(
                base,
                row.pointer,
                child,
                child_names(child).len() as int,
            ))
        },
        _ => seq![],
    }
}

fn what_is_held(v: &Json) -> (r: Held)
    ensures
        r@ == held_by(v@),
{
    broadcast use lemma_json_view;

    match v {
        Json::Object(pairs) => Held::Members(pairs.len()),
        Json::Array(items) => Held::Items(items.len()),
        _ => Held::Leaf(line_of(v)),
    }
}

fn put_row(base: &str, pointer: &str, key: String, segment: String, child: &Json, out: &mut Vec<NodeRow>)
    ensures
        views(final(out)@) == views(old(out)@) + seq![row_of(base@, pointer@, key@, segment@, child@)],
{
    broadcast use group_views;

    let ghost before = views(out@);
    let (place, reference) = child_ref(base, pointer, segment.as_str());
    let row = NodeRow { key, segment, pointer: place, reference, held: what_is_held(child) };
    let ghost view = row@;
    out.push(row);
    assert(before.push(view) =~= before + seq![view]);
}

/// Add the rows below the node at `pointer`, in order.
pub fn list_nodes(base: &str, pointer: &str, node: &Json, out: &mut Vec<NodeRow>)
    ensures
        views(final(out)@) == views(old(out)@) + node_rows(base@, pointer@, node@, child_names(node@).len() as int),
    decreases node,
{
    let ghost start = views(out@);
    proof {
        lemma_json_view(*node);
    }
    assert(start + Seq::<NodeRowV>::empty() =~= start);
    match node {
        Json::Object(pairs) => {
            let ghost all = pairs_view(pairs@);
            let mut i: usize = 0;
            while i < pairs.len()
                invariant
                    i <= pairs.len(),
                    *node == Json::Object(*pairs),
                    all == pairs_view(pairs@),
                    node@ == JsonV::Object(all),
                    views(out@) == start + node_rows(base@, pointer@, node@, i as int),
                decreases pairs.len() - i,
            {
                let ghost before = node_rows(base@, pointer@, node@, i as int);
                let key = pairs[i].0.as_str();
                let child = &pairs[i].1;
                assert(all[i as int] == (pairs@[i as int].0@, child@));
                let segment = escape_ptr(key);
                let place = cat3(pointer, "/", segment.as_str());
                let ghost row = row_of(base@, pointer@, key@, segment@, child@);
                put_row(base, pointer, key.to_owned(), segment, child, out);
                proof {
                    lemma_member_decreases(*node, i as int);
                }
                let ghost below = node_rows(base@, place@, child@, child_names(child@).len() as int);
                list_nodes(base, place.as_str(), child, out);
                assert(start + before + seq![row] + below =~= start + (before + (seq![row] + below)));
                i += 1;
            }
        },
        Json::Array(items) => {
            let ghost all = views(items@);
            let mut i: usize = 0;
            while i < items.len()
                invariant
                    i <= items.len(),
                    *node == Json::Array(*items),
                    all == views(items@),
                    node@ == JsonV::Array(all),
                    views(out@) == start + node_rows(base@, pointer@, node@, i as int),
                decreases items.len() - i,
            {
                let ghost before = node_rows(base@, pointer@, node@, i as int);
                let child = &items[i];
                assert(all[i as int] == child@);
                let segment = number_text(i as u64);
                let place = cat3(pointer, "/", segment.as_str());
                let ghost row = row_of(base@, pointer@, segment@, segment@, child@);
                put_row(base, pointer, segment.clone(), segment, child, out);
                proof {
                    lemma_item_decreases(*node, i as int);
                }
                let ghost below = node_rows(base@, place@, child@, child_names(child@).len() as int);
                list_nodes(base, place.as_str(), child, out);
                assert(start + before + seq![row] + below =~= start + (before + (seq![row] + below)));
                i += 1;
            }
        },
        _ => {},
    }
}

// ---------------------------------------------------------------------
// Labels
// ---------------------------------------------------------------------

/// How a node is shown in the browser: its key and how much it holds, or its
/// key and its value.
pub open spec fn browser_text(row: NodeRowV) -> Seq<char> {
    match row.held {
        HeldV::Members(n) => row.key + "  ("@ + decimal(n) + ")"@,
        HeldV::Items(n) => row.key + "  ("@ + decimal(n) + ")"@,
        HeldV::Leaf(s) => row.key + ": "@ + shortened(s, 40),
    }
}

/// How a node is shown beside the editor: its segment and how much it holds,
/// or its segment and its value.
pub open spec fn palette_text(row: NodeRowV) -> Seq<char> {
    match row.held {
        HeldV::Members(n) => row.segment + " {"@ + decimal(n) + "}"@,
        HeldV::Items(n) => row.segment + " ["@ + decimal(n) + "]"@,
        HeldV::Leaf(s) => row.segment + ": "@ + shortened(s, 30),
    }
}

/// The value of a row, if it has one, can be shortened to `limit` bytes.
pub open spec fn fits(row: NodeRowV, limit: nat) -> bool {
    row.held is Leaf ==> can_shorten(row.held->Leaf_0, limit)
}

/// How a node is shown in the browser. A long value has to have a character
/// end at the cut.
pub fn browser_label(row: &NodeRow) -> (r: String)
    requires
        fits(row@, 40),
    ensures
        r@ == browser_text(row@),
{
    match &row.held {
        Held::Members(n) => cat4(row.key.as_str(), "  (", number_text(*n as u64).as_str(), ")"),
        Held::Items(n) => cat4(row.key.as_str(), "  (", number_text(*n as u64).as_str(), ")"),
        Held::Leaf(s) => cat3(row.key.as_str(), ": ", shorten(s.as_str(), 40).as_str()),
    }
}

/// How a node is shown beside the editor. A long value has to have a character
/// end at the cut.
pub fn palette_label(row: &NodeRow) -> (r: String)
    requires
        fits(row@, 30),
    ensures
        r@ == palette_text(row@),
{
    match &row.held {
        Held::Members(n) => cat4(row.segment.as_str(), " {", number_text(*n as u64).as_str(), "}"),
        Held::Items(n) => cat4(row.segment.as_str(), " [", number_text(*n as u64).as_str(), "]"),
        Held::Leaf(s) => cat3(row.segment.as_str(), ": ", shorten(s.as_str(), 30).as_str()),
    }
}

/// What is put into a document for a node.
pub fn node_snippet(row: &NodeRow) -> (r: String)
    ensures
        r@ == "{ \"ref\": \""@ + row@.reference + "\" }"@,
{
    cat3("{ \"ref\": \"", row.reference.as_str(), "\" }")
}

// ---------------------------------------------------------------------
// Laws
// ---------------------------------------------------------------------

/// In every object of a value the keys ascend, so each occurs once.
pub open spec fn keys_ascend(v: JsonV) -> bool
    decreases v,
{
    match v {
        JsonV::Object(pairs) => ascending(pairs) && forall|i: int|
            0 <= i < pairs.len() ==> keys_ascend((#[trigger] pairs[i]).1),
        JsonV::Array(items) => forall|i: int| 0 <= i < items.len() ==> keys_ascend(#[trigger] items[i]),
        _ => true,
    }
}

proof fn lemma_lookup_own_key(m: Seq<(Seq<char>, JsonV)>, i: int)
    requires
        ascending(m),
        0 <= i < m.len(),
    ensures
        lookup(m, m[i].0) == Some(m[i].1),
    decreases i,
{
    if i > 0 {
        assert(precedes(m[0].0, m[i].0));
        lemma_precedes_irreflexive(m[i].0);
        let rest = m.skip(1);
        assert forall|a: int, b: int| 0 <= a < b < rest.len() implies precedes(
            #[trigger] rest[a].0,
            #[trigger] rest[b].0,
        ) by {
            assert(precedes(m[a + 1].0, m[b + 1].0));
        }
        lemma_lookup_own_key(rest, i - 1);
        assert(rest[i - 1] == m[i]);
    }
}

/// What a row of the tree of `whole` leads to.
pub open spec fn leads_there(whole: JsonV, base: Seq<char>, row: NodeRowV) -> bool {
    &&& row.reference == base + "#"@ + row.pointer
    &&& at_pointer(whole, row.pointer) is Some
    &&& held_by(at_pointer(whole, row.pointer)->Some_0) == row.held
}

spec fn child_of(node: JsonV, i: int) -> JsonV {
    match node {
        JsonV::Object(pairs) => pairs[i].1,
        JsonV::Array(items) => items[i],
        _ => node,
    }
}

spec fn child_row(base: Seq<char>, pointer: Seq<char>, node: JsonV, i: int) -> NodeRowV {
    match node {
        JsonV::Object(pairs) => row_of(base, pointer, pairs[i].0, pointer_segment(pairs[i].0), pairs[i].1),
        _ => row_of(base, pointer, decimal(i as nat), decimal(i as nat), child_of(node, i)),
    }
}

proof fn lemma_rows_unfold(base: Seq<char>, pointer: Seq<char>, node: JsonV, n: int)
    requires
        node_rows(base, pointer, node, n).len() > 0,
    ensures
        0 < n <= child_names(node).len(),
        decreases_to!(node => child_of(node, n - 1)),
        node_rows(base, pointer, node, n) == node_rows(base, pointer, node, n - 1) + (seq![
            child_row(base, pointer, node, n - 1),
        ] + node_rows(
            base,
            child_row(base, pointer, node, n - 1).pointer,
            child_of(node, n - 1),
            child_names(child_of(node, n - 1)).len() as int,
        )),
{
    match node {
        JsonV::Object(pairs) => {
            assert(decreases_to!(node => pairs));
            assert(decreases_to!(pairs => pairs[n - 1]));
            assert(decreases_to!(pairs[n - 1] => pairs[n - 1].1));
        },
        JsonV::Array(items) => {
            assert(decreases_to!(node => items));
            assert(decreases_to!(items => items[n - 1]));
        },
        _ => {},
    }
}

proof fn lemma_child_is_found(whole: JsonV, base: Seq<char>, pointer: Seq<char>, node: JsonV, i: int)
    requires
        keys_ascend(node),
        at_pointer(whole, pointer) == Some(node),
        0 <= i < child_names(node).len(),
    ensures
        keys_ascend(child_of(node, i)),
        at_pointer(whole, child_row(base, pointer, node, i).pointer) == Some(child_of(node, i)),
        leads_there(whole, base, child_row(base, pointer, node, i)),
{
    reveal_strlit("/");
    assert("/"@ =~= seq!['/']);
    match node {
        JsonV::Object(pairs) => {
            lemma_member_is_found(whole, pointer, pairs[i].0);
            lemma_lookup_own_key(pairs, i);
            assert(keys_ascend(pairs[i].1));
        },
        JsonV::Array(items) => {
            lemma_item_is_found(whole, pointer, i);
            assert(keys_ascend(items[i]));
        },
        _ => {},
    }
}

/// The reference that a row gives leads to the value that the row shows.
pub proof fn lemma_references_lead_there(whole: JsonV, base: Seq<char>, pointer: Seq<char>, node: JsonV, n: int, i: int)
    requires
        keys_ascend(node),
        at_pointer(whole, pointer) == Some(node),
        0 <= i < node_rows(base, pointer, node, n).len(),
    ensures
        leads_there(whole, base, node_rows(base, pointer, node, n)[i]),
    decreases node, n,
{
    lemma_rows_unfold(base, pointer, node, n);
    let before = node_rows(base, pointer, node, n - 1);
    if i < before.len() {
        lemma_references_lead_there(whole, base, pointer, node, n - 1, i);
    } else {
        lemma_child_is_found(whole, base, pointer, node, n - 1);
        if i > before.len() {
            let child = child_of(node, n - 1);
            lemma_references_lead_there(
                whole,
                base,
                child_row(base, pointer, node, n - 1).pointer,
                child,
                child_names(child).len() as int,
                i - before.len() - 1,
            );
        }
    }
}

} // verus!
