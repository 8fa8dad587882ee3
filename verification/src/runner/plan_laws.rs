//! What holds of the plan of a run, over the tree that it is made of.

use vstd::prelude::*;

use crate::map::lookup;
use crate::store::{CollectionV, NodeMetaV, RequestNodeV, TreeV};
use crate::vars::{layered, lemma_layers_in_turn, LayerV};
use crate::view::views;

use super::plan::{
    collections_plan, folder_plan, folders_plan, planned, request_plan, scope_plan, subtree_plan,
    without_slashes, workspace_plan, PlannedV, RunErrorV, ScopeV,
};

verus! {

// ---------------------------------------------------------------------
// One request
// ---------------------------------------------------------------------

/// The folders of a planned request come from the inside out: first the one that
/// holds the request, last the outermost. So do their auths, and that of the
/// collection comes after them. The scopes come from the outside in.
pub proof fn lemma_nearest_folder_comes_first(col: NodeMetaV, ancestors: Seq<NodeMetaV>, node: RequestNodeV)
    ensures
        ({
            let p = planned(col, ancestors, node);
            let n = ancestors.len();
            &&& p.node == node
            &&& p.collection_vars == col.variables
            &&& p.folder_vars.len() == n
            &&& n > 0 ==> p.folder_vars[0] == ancestors.last().variables && p.auth_chain[0] == ancestors.last().auth
            &&& forall|i: int| 0 <= i < n ==> p.folder_vars[n - 1 - i] == (#[trigger] ancestors[i]).variables
            &&& p.auth_chain.len() == n + 1
            &&& forall|i: int| 0 <= i < n ==> p.auth_chain[n - 1 - i] == (#[trigger] ancestors[i]).auth
            &&& p.auth_chain[n as int] == col.auth
            &&& p.scopes.len() == n + 1
            &&& p.scopes[0] == col
            &&& forall|i: int| 0 <= i < n ==> p.scopes[i + 1] == #[trigger] ancestors[i]
        }),
{
}

/// A layer that comes before any other that knows the name decides; layers that
/// do not know it change nothing.
proof fn lemma_layer_decides(layers: Seq<LayerV>, name: Seq<char>, i: int)
    requires
        0 <= i < layers.len(),
        lookup(layers[i], name) is Some,
        forall|j: int| 0 <= j < i ==> lookup(#[trigger] layers[j], name) is None,
    ensures
        layered(layers, name) == lookup(layers[i], name),
    decreases layers.len(),
{
    if i > 0 {
        assert(lookup(layers[0], name) is None);
        let rest = layers.skip(1);
        assert forall|j: int| 0 <= j < i - 1 implies lookup(#[trigger] rest[j], name) is None by {
            assert(rest[j] == layers[j + 1]);
        }
        lemma_layer_decides(rest, name, i - 1);
    }
}

/// A name has the value of the innermost folder that defines it, where neither
/// the run nor its data row does; folders further out, the collection and the
/// environment do not count.
pub proof fn lemma_innermost_folder_decides(
    col: NodeMetaV,
    ancestors: Seq<NodeMetaV>,
    node: RequestNodeV,
    before: Seq<LayerV>,
    after: Seq<LayerV>,
    name: Seq<char>,
    i: int,
)
    requires
        0 <= i < ancestors.len(),
        lookup(ancestors[i].variables, name) is Some,
        forall|j: int| i < j < ancestors.len() ==> lookup((#[trigger] ancestors[j]).variables, name) is None,
        forall|j: int| 0 <= j < before.len() ==> lookup(#[trigger] before[j], name) is None,
    ensures
        layered(before + planned(col, ancestors, node).folder_vars + after, name) == lookup(
            ancestors[i].variables,
            name,
        ),
{
    let vars = planned(col, ancestors, node).folder_vars;
    let layers = before + vars + after;
    let at = before.len() + ancestors.len() - 1 - i;
    assert(layers[at] == vars[ancestors.len() - 1 - i]);
    assert forall|j: int| 0 <= j < at implies lookup(#[trigger] layers[j], name) is None by {
        if j < before.len() {
            assert(layers[j] == before[j]);
        } else {
            let k = ancestors.len() - 1 - (j - before.len());
            assert(layers[j] == ancestors[k].variables);
        }
    }
    lemma_layer_decides(layers, name, at);
}

/// The variables of a request that is sent: what the run has set, the data row,
/// the folders from the inside out, the collection, the environment, and the
/// values made on the spot. Whatever comes first in this order decides.
pub proof fn lemma_variables_have_their_order(scopes: crate::vars::VarScopes, name: Seq<char>)
    ensures
        layered(scopes@, name) == if lookup(scopes.runtime@, name) is Some {
            lookup(scopes.runtime@, name)
        } else if lookup(scopes.iteration@, name) is Some {
            lookup(scopes.iteration@, name)
        } else if layered(views(scopes.folders@), name) is Some {
            layered(views(scopes.folders@), name)
        } else if lookup(scopes.collection@, name) is Some {
            lookup(scopes.collection@, name)
        } else if lookup(scopes.environment@, name) is Some {
            lookup(scopes.environment@, name)
        } else {
            lookup(scopes.dynamic@, name)
        },
{
    let folders = views(scopes.folders@);
    let end = seq![scopes.collection@, scopes.environment@, scopes.dynamic@];
    let first = seq![scopes.runtime@, scopes.iteration@];
    lemma_layers_in_turn(first + folders, end, name);
    lemma_layers_in_turn(first, folders, name);
    lemma_layers_in_turn(seq![scopes.runtime@], seq![scopes.iteration@], name);
    assert(first =~= seq![scopes.runtime@] + seq![scopes.iteration@]);
    lemma_one(scopes.runtime@, name);
    lemma_one(scopes.iteration@, name);
    lemma_layers_in_turn(seq![scopes.collection@], seq![scopes.environment@, scopes.dynamic@], name);
    assert(end =~= seq![scopes.collection@] + seq![scopes.environment@, scopes.dynamic@]);
    lemma_layers_in_turn(seq![scopes.environment@], seq![scopes.dynamic@], name);
    assert(seq![scopes.environment@, scopes.dynamic@] =~= seq![scopes.environment@] + seq![scopes.dynamic@]);
    lemma_one(scopes.collection@, name);
    lemma_one(scopes.environment@, name);
    lemma_one(scopes.dynamic@, name);
    assert(scopes@ =~= first + folders + end);
}

proof fn lemma_one(layer: LayerV, name: Seq<char>)
    ensures
        layered(seq![layer], name) == lookup(layer, name),
{
    assert(seq![layer].skip(1) =~= Seq::empty());
    assert(layered(seq![layer].skip(1), name) is None);
}

// ---------------------------------------------------------------------
// A tree
// ---------------------------------------------------------------------

proof fn lemma_subtree_prefix(col: NodeMetaV, a: Seq<TreeV>, b: Seq<TreeV>, ancestors: Seq<NodeMetaV>, n: int)
    requires
        0 <= n <= a.len(),
    ensures
        subtree_plan(col, a + b, ancestors, n) == subtree_plan(col, a, ancestors, n),
    decreases n,
{
    if n > 0 {
        lemma_subtree_prefix(col, a, b, ancestors, n - 1);
        assert((a + b)[n - 1] == a[n - 1]);
    }
}

proof fn lemma_subtree_rest(col: NodeMetaV, a: Seq<TreeV>, b: Seq<TreeV>, ancestors: Seq<NodeMetaV>, n: int)
    requires
        0 <= n <= b.len(),
    ensures
        subtree_plan(col, a + b, ancestors, a.len() + n) == subtree_plan(col, a, ancestors, a.len() as int)
            + subtree_plan(col, b, ancestors, n),
    decreases n,
{
    if n == 0 {
        lemma_subtree_prefix(col, a, b, ancestors, a.len() as int);
        assert(subtree_plan(col, a, ancestors, a.len() as int) + Seq::empty() =~= subtree_plan(
            col,
            a,
            ancestors,
            a.len() as int,
        ));
    } else {
        lemma_subtree_rest(col, a, b, ancestors, n - 1);
        assert((a + b)[a.len() + n - 1] == b[n - 1]);
        assert(subtree_plan(col, a + b, ancestors, a.len() + n) =~= subtree_plan(col, a, ancestors, a.len() as int)
            + subtree_plan(col, b, ancestors, n));
    }
}

/// Every request of a tree is run once, in the order of the tree: what comes
/// first runs first, and the requests of a folder run where the folder stands,
/// with the folder as the nearest one around them.
pub proof fn lemma_plan_follows_the_tree(
    col: NodeMetaV,
    ancestors: Seq<NodeMetaV>,
    first: Seq<TreeV>,
    rest: Seq<TreeV>,
    request: RequestNodeV,
    meta: NodeMetaV,
    children: Seq<TreeV>,
)
    ensures
        subtree_plan(col, first + rest, ancestors, (first.len() + rest.len()) as int) == subtree_plan(
            col,
            first,
            ancestors,
            first.len() as int,
        ) + subtree_plan(col, rest, ancestors, rest.len() as int),
        subtree_plan(col, seq![], ancestors, 0).len() == 0,
        subtree_plan(col, seq![TreeV::Request(request)], ancestors, 1) == seq![planned(col, ancestors, request)],
        subtree_plan(col, seq![TreeV::Folder { meta, children }], ancestors, 1) == subtree_plan(
            col,
            children,
            ancestors.push(meta),
            children.len() as int,
        ),
{
    lemma_subtree_rest(col, first, rest, ancestors, rest.len() as int);
    let one = seq![TreeV::Request(request)];
    assert(subtree_plan(col, one, ancestors, 0).len() == 0);
    assert(subtree_plan(col, one, ancestors, 1) =~= seq![planned(col, ancestors, request)]);
    let folder = seq![TreeV::Folder { meta, children }];
    assert(subtree_plan(col, folder, ancestors, 0).len() == 0);
    assert(subtree_plan(col, folder, ancestors, 1) =~= subtree_plan(
        col,
        children,
        ancestors.push(meta),
        children.len() as int,
    ));
}

/// The first of a plan that is stored at `file`.
pub open spec fn first_stored_at(plan: Seq<PlannedV>, file: Seq<char>, found: Option<PlannedV>) -> bool {
    match found {
        Some(p) => exists|k: int|
            0 <= k < plan.len() && #[trigger] plan[k] == p && p.node.file == file && forall|j: int|
                0 <= j < k ==> (#[trigger] plan[j]).node.file != file,
        None => forall|j: int| 0 <= j < plan.len() ==> (#[trigger] plan[j]).node.file != file,
    }
}

proof fn lemma_first_in_either(a: Seq<PlannedV>, b: Seq<PlannedV>, file: Seq<char>, x: Option<PlannedV>, y: Option<PlannedV>)
    requires
        first_stored_at(a, file, x),
        first_stored_at(b, file, y),
    ensures
        first_stored_at(
            a + b,
            file,
            if x is Some {
                x
            } else {
                y
            },
        ),
{
    let all = a + b;
    if let Some(p) = x {
        let k = choose|k: int|
            0 <= k < a.len() && #[trigger] a[k] == p && p.node.file == file && forall|j: int|
                0 <= j < k ==> (#[trigger] a[j]).node.file != file;
        assert(all[k] == p);
        assert forall|j: int| 0 <= j < k implies (#[trigger] all[j]).node.file != file by {
            assert(all[j] == a[j]);
        }
    } else if let Some(p) = y {
        let k = choose|k: int|
            0 <= k < b.len() && #[trigger] b[k] == p && p.node.file == file && forall|j: int|
                0 <= j < k ==> (#[trigger] b[j]).node.file != file;
        assert(all[a.len() + k] == p);
        assert forall|j: int| 0 <= j < a.len() + k implies (#[trigger] all[j]).node.file != file by {
            if j < a.len() {
                assert(all[j] == a[j]);
            } else {
                assert(all[j] == b[j - a.len()]);
            }
        }
    } else {
        assert forall|j: int| 0 <= j < all.len() implies (#[trigger] all[j]).node.file != file by {
            if j < a.len() {
                assert(all[j] == a[j]);
            } else {
                assert(all[j] == b[j - a.len()]);
            }
        }
    }
}

proof fn lemma_request_rest(col: NodeMetaV, nodes: Seq<TreeV>, ancestors: Seq<NodeMetaV>, file: Seq<char>, i: int)
    requires
        0 <= i <= nodes.len(),
    ensures
        first_stored_at(
            subtree_plan(col, nodes.skip(i), ancestors, nodes.len() - i),
            file,
            request_plan(col, nodes, ancestors, file, i),
        ),
    decreases nodes, nodes.len() - i,
{
    if i < nodes.len() {
        let head = seq![nodes[i]];
        let tail = nodes.skip(i + 1);
        lemma_request_rest(col, nodes, ancestors, file, i + 1);
        assert(nodes.skip(i) =~= head + tail);
        lemma_subtree_rest(col, head, tail, ancestors, tail.len() as int);
        let later = request_plan(col, nodes, ancestors, file, i + 1);
        match nodes[i] {
            TreeV::Request(r) => {
                assert(subtree_plan(col, head, ancestors, 0).len() == 0);
                let plan = subtree_plan(col, head, ancestors, 1);
                assert(plan =~= seq![planned(col, ancestors, r)]);
                let found = if r.file == file {
                    Some(planned(col, ancestors, r))
                } else {
                    None
                };
                assert(plan[0] == planned(col, ancestors, r));
                lemma_first_in_either(plan, subtree_plan(col, tail, ancestors, tail.len() as int), file, found, later);
            },
            TreeV::Folder { meta, children } => {
                let next = ancestors.push(meta);
                assert(subtree_plan(col, head, ancestors, 0).len() == 0);
                let plan = subtree_plan(col, head, ancestors, 1);
                assert(plan =~= subtree_plan(col, children, next, children.len() as int));
                lemma_request_rest(col, children, next, file, 0);
                assert(children.skip(0) =~= children);
                lemma_first_in_either(
                    plan,
                    subtree_plan(col, tail, ancestors, tail.len() as int),
                    file,
                    request_plan(col, children, next, file, 0),
                    later,
                );
            },
        }
    }
}

/// A single request is the first of its collection that is stored at that file,
/// planned as in a run of the whole collection.
pub proof fn lemma_one_request_is_planned_as_in_the_whole(
    col: NodeMetaV,
    nodes: Seq<TreeV>,
    ancestors: Seq<NodeMetaV>,
    file: Seq<char>,
)
    ensures
        first_stored_at(
            subtree_plan(col, nodes, ancestors, nodes.len() as int),
            file,
            request_plan(col, nodes, ancestors, file, 0),
        ),
{
    lemma_request_rest(col, nodes, ancestors, file, 0);
    assert(nodes.skip(0) =~= nodes);
}

proof fn lemma_folder_suffix(
    col: NodeMetaV,
    a: Seq<TreeV>,
    b: Seq<TreeV>,
    ancestors: Seq<NodeMetaV>,
    rel: Seq<char>,
    i: int,
)
    requires
        0 <= i <= a.len() + b.len(),
    ensures
        folder_plan(col, a + b, ancestors, rel, i) == if i >= a.len() {
            folder_plan(col, b, ancestors, rel, i - a.len())
        } else if folder_plan(col, a, ancestors, rel, i) is Some {
            folder_plan(col, a, ancestors, rel, i)
        } else {
            folder_plan(col, b, ancestors, rel, 0)
        },
    decreases a.len() + b.len() - i,
{
    if i < a.len() + b.len() {
        lemma_folder_suffix(col, a, b, ancestors, rel, i + 1);
        if i < a.len() {
            assert((a + b)[i] == a[i]);
        } else {
            assert((a + b)[i] == b[i - a.len()]);
        }
    }
}

/// A folder's run holds what is below the first folder at that place, a folder
/// before those in it. A folder that stands elsewhere is searched in turn.
pub proof fn lemma_folder_is_found_where_it_stands(
    col: NodeMetaV,
    ancestors: Seq<NodeMetaV>,
    first: Seq<TreeV>,
    rest: Seq<TreeV>,
    request: RequestNodeV,
    meta: NodeMetaV,
    children: Seq<TreeV>,
    rel: Seq<char>,
)
    ensures
        folder_plan(col, first + rest, ancestors, rel, 0) == match folder_plan(col, first, ancestors, rel, 0) {
            Some(plan) => Some(plan),
            None => folder_plan(col, rest, ancestors, rel, 0),
        },
        folder_plan(col, seq![], ancestors, rel, 0) is None,
        folder_plan(col, seq![TreeV::Request(request)], ancestors, rel, 0) is None,
        folder_plan(col, seq![TreeV::Folder { meta, children }], ancestors, rel, 0) == if without_slashes(meta.dir)
            == without_slashes(rel) {
            Some(subtree_plan(col, children, ancestors.push(meta), children.len() as int))
        } else {
            folder_plan(col, children, ancestors.push(meta), rel, 0)
        },
{
    lemma_folder_suffix(col, first, rest, ancestors, rel, 0);
    let request_only = seq![TreeV::Request(request)];
    assert(folder_plan(col, request_only, ancestors, rel, 1) is None);
    let folder_only = seq![TreeV::Folder { meta, children }];
    assert(folder_plan(col, folder_only, ancestors, rel, 1) is None);
    assert(folder_only[0] == TreeV::Folder { meta, children });
}

/// All of it is slashes.
pub open spec fn slashes(s: Seq<char>) -> bool {
    forall|i: int| 0 <= i < s.len() ==> #[trigger] s[i] == '/'
}

/// Slashes at either end of a path do not count; those inside do.
pub proof fn lemma_outer_slashes_do_not_count(before: Seq<char>, s: Seq<char>, after: Seq<char>)
    requires
        slashes(before),
        slashes(after),
        s.len() > 0 ==> s[0] != '/' && s.last() != '/',
    ensures
        without_slashes(before + s + after) == s,
    decreases before.len() + after.len(),
{
    let whole = before + s + after;
    if before.len() > 0 {
        assert(whole[0] == before[0]);
        assert(whole.skip(1) =~= before.skip(1) + s + after);
        assert forall|i: int| 0 <= i < before.skip(1).len() implies #[trigger] before.skip(1)[i] == '/' by {
            assert(before[i + 1] == '/');
        }
        lemma_outer_slashes_do_not_count(before.skip(1), s, after);
    } else if after.len() > 0 {
        if s.len() == 0 {
            assert(whole[0] == after[0]);
            assert(whole.skip(1) =~= before + s + after.skip(1));
            assert forall|i: int| 0 <= i < after.skip(1).len() implies #[trigger] after.skip(1)[i] == '/' by {
                assert(after[i + 1] == '/');
            }
            lemma_outer_slashes_do_not_count(before, s, after.skip(1));
        } else {
            assert(whole[0] == s[0]);
            assert(whole.last() == after[after.len() - 1]);
            assert(whole.drop_last() =~= before + s + after.drop_last());
            assert forall|i: int| 0 <= i < after.drop_last().len() implies #[trigger] after.drop_last()[i] == '/' by {
                assert(after[i] == '/');
            }
            lemma_outer_slashes_do_not_count(before, s, after.drop_last());
        }
    } else {
        assert(whole =~= s);
    }
}

// ---------------------------------------------------------------------
// A workspace
// ---------------------------------------------------------------------

proof fn lemma_workspace_prefix(cols: Seq<CollectionV>, col: CollectionV, n: int)
    requires
        0 <= n <= cols.len(),
    ensures
        workspace_plan(cols.push(col), n) == workspace_plan(cols, n),
    decreases n,
{
    if n > 0 {
        lemma_workspace_prefix(cols, col, n - 1);
    }
}

proof fn lemma_collections_prefix(cols: Seq<CollectionV>, col: CollectionV, rel: Seq<char>, n: int)
    requires
        0 <= n <= cols.len(),
    ensures
        collections_plan(cols.push(col), rel, n) == collections_plan(cols, rel, n),
    decreases n,
{
    if n > 0 {
        lemma_collections_prefix(cols, col, rel, n - 1);
    }
}

proof fn lemma_folders_prefix(cols: Seq<CollectionV>, col: CollectionV, rel: Seq<char>, n: int)
    requires
        0 <= n <= cols.len(),
    ensures
        folders_plan(cols.push(col), rel, n) == folders_plan(cols, rel, n),
    decreases n,
{
    if n > 0 {
        lemma_folders_prefix(cols, col, rel, n - 1);
    }
}

/// A workspace's run is that of its collections, one after the other, each
/// whole.
pub proof fn lemma_workspace_runs_every_collection(cols: Seq<CollectionV>, col: CollectionV)
    ensures
        scope_plan(seq![], ScopeV::Workspace) == Ok::<Seq<PlannedV>, RunErrorV>(seq![]),
        scope_plan(cols, ScopeV::Workspace) is Ok,
        scope_plan(cols.push(col), ScopeV::Workspace) == Ok::<Seq<PlannedV>, RunErrorV>(
            scope_plan(cols, ScopeV::Workspace)->Ok_0 + subtree_plan(
                col.meta,
                col.children,
                seq![],
                col.children.len() as int,
            ),
        ),
{
    lemma_workspace_prefix(cols, col, cols.len() as int);
}

/// A collection's run is that of the whole collection at that place; where none
/// is there, the place is not found.
pub proof fn lemma_collection_runs_as_a_whole(cols: Seq<CollectionV>, col: CollectionV, rel: Seq<char>)
    ensures
        scope_plan(seq![], ScopeV::Collection(rel)) == Err::<Seq<PlannedV>, RunErrorV>(RunErrorV::ScopeNotFound(rel)),
        without_slashes(col.meta.dir) != without_slashes(rel) ==> scope_plan(cols.push(col), ScopeV::Collection(rel))
            == scope_plan(cols, ScopeV::Collection(rel)),
        without_slashes(col.meta.dir) == without_slashes(rel) ==> scope_plan(cols.push(col), ScopeV::Collection(rel))
            == Ok::<Seq<PlannedV>, RunErrorV>(
            match scope_plan(cols, ScopeV::Collection(rel)) {
                Ok(plan) => plan,
                Err(_) => seq![],
            } + subtree_plan(col.meta, col.children, seq![], col.children.len() as int),
        ),
{
    lemma_collections_prefix(cols, col, rel, cols.len() as int);
}

/// A folder's run is that of the folder at that place in each collection that
/// has one; where none has, the place is not found.
pub proof fn lemma_folder_runs_in_every_collection(cols: Seq<CollectionV>, col: CollectionV, rel: Seq<char>)
    ensures
        scope_plan(seq![], ScopeV::Folder(rel)) == Err::<Seq<PlannedV>, RunErrorV>(RunErrorV::ScopeNotFound(rel)),
        match folder_plan(col.meta, col.children, seq![], rel, 0) {
            None => scope_plan(cols.push(col), ScopeV::Folder(rel)) == scope_plan(cols, ScopeV::Folder(rel)),
            Some(more) => scope_plan(cols.push(col), ScopeV::Folder(rel)) == Ok::<Seq<PlannedV>, RunErrorV>(
                match scope_plan(cols, ScopeV::Folder(rel)) {
                    Ok(plan) => plan,
                    Err(_) => seq![],
                } + more,
            ),
        },
{
    lemma_folders_prefix(cols, col, rel, cols.len() as int);
}

proof fn lemma_file_rest(cols: Seq<CollectionV>, file: Seq<char>, i: int)
    requires
        0 <= i <= cols.len(),
    ensures
        super::plan::file_plan(cols, file, i) == super::plan::file_plan(cols.skip(i), file, 0),
    decreases cols.len() - i,
{
    if i < cols.len() {
        let tail = cols.skip(i);
        lemma_file_rest(cols, file, i + 1);
        lemma_file_rest(tail, file, 1);
        assert(tail.skip(1) =~= cols.skip(i + 1));
        assert(tail[0] == cols[i]);
    }
}

/// A request's run is that request alone, the first one stored at that file;
/// the collections are searched in their order.
pub proof fn lemma_request_runs_alone(col: CollectionV, cols: Seq<CollectionV>, file: Seq<char>)
    ensures
        scope_plan(seq![], ScopeV::Request(file)) == Err::<Seq<PlannedV>, RunErrorV>(RunErrorV::ScopeNotFound(file)),
        match request_plan(col.meta, col.children, seq![], file, 0) {
            Some(p) => scope_plan(seq![col] + cols, ScopeV::Request(file)) == Ok::<Seq<PlannedV>, RunErrorV>(seq![p]),
            None => scope_plan(seq![col] + cols, ScopeV::Request(file)) == scope_plan(cols, ScopeV::Request(file)),
        },
{
    let all = seq![col] + cols;
    lemma_file_rest(all, file, 1);
    assert(all.skip(1) =~= cols);
    assert(all[0] == col);
}

} // verus!
