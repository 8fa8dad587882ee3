//! Which requests a run executes, and what each has from its ancestors.

use vstd::prelude::*;

use crate::map::TextMap;
use crate::model::auth::{AuthConfig, AuthV};
use crate::store::{lemma_tree_view, CollectionNode, CollectionV, NodeMeta, NodeMetaV, RequestNode, RequestNodeV, TreeNode, TreeV};
use crate::text::{chars_of, same, text_between};
use crate::vars::LayerV;
use crate::view::{group_views, opt_view, views};

verus! {

broadcast use vstd::string::group_string_axioms;

/// What a run covers.
#[derive(Debug)]
pub enum RunScope {
    /// One request, by the path of its file from the workspace root.
    Request(String),
    /// A folder, by its path from the workspace root.
    Folder(String),
    /// A collection, by its path from the workspace root.
    Collection(String),
    Workspace,
}

/// What a [`RunScope`] says.
pub enum ScopeV {
    Request(Seq<char>),
    Folder(Seq<char>),
    Collection(Seq<char>),
    Workspace,
}

impl View for RunScope {
    type V = ScopeV;

    open spec fn view(&self) -> ScopeV {
        match self {
            RunScope::Request(s) => ScopeV::Request(s@),
            RunScope::Folder(s) => ScopeV::Folder(s@),
            RunScope::Collection(s) => ScopeV::Collection(s@),
            RunScope::Workspace => ScopeV::Workspace,
        }
    }
}

/// Why a run cannot start.
#[derive(Debug)]
pub enum RunError {
    ScopeNotFound(String),
    EnvironmentNotFound(String),
    Data(String),
}

/// What a [`RunError`] says.
pub enum RunErrorV {
    ScopeNotFound(Seq<char>),
    EnvironmentNotFound(Seq<char>),
    Data(Seq<char>),
}

impl View for RunError {
    type V = RunErrorV;

    open spec fn view(&self) -> RunErrorV {
        match self {
            RunError::ScopeNotFound(s) => RunErrorV::ScopeNotFound(s@),
            RunError::EnvironmentNotFound(s) => RunErrorV::EnvironmentNotFound(s@),
            RunError::Data(s) => RunErrorV::Data(s@),
        }
    }
}

/// A request of a run, with what it has from its ancestors.
#[derive(Debug)]
pub struct PlannedRequest<'a> {
    pub node: &'a RequestNode,
    pub collection_vars: &'a TextMap<String>,
    /// The nearest folder first.
    pub folder_vars: Vec<&'a TextMap<String>>,
    /// The nearest ancestor first, the collection last.
    pub auth_chain: Vec<&'a AuthConfig>,
    /// The collection and the folders that the request is in, the outermost
    /// first.
    pub scopes: Vec<&'a NodeMeta>,
}

/// What a [`PlannedRequest`] says.
pub struct PlannedV {
    pub node: RequestNodeV,
    pub collection_vars: LayerV,
    pub folder_vars: Seq<LayerV>,
    pub auth_chain: Seq<AuthV>,
    pub scopes: Seq<NodeMetaV>,
}

impl<'a> View for PlannedRequest<'a> {
    type V = PlannedV;

    open spec fn view(&self) -> PlannedV {
        PlannedV {
            node: self.node@,
            collection_vars: self.collection_vars@,
            folder_vars: views(self.folder_vars@),
            auth_chain: views(self.auth_chain@),
            scopes: views(self.scopes@),
        }
    }
}

/// The variables of the folders, the nearest first.
pub open spec fn nearest_vars(ancestors: Seq<NodeMetaV>) -> Seq<LayerV> {
    Seq::new(ancestors.len(), |i: int| ancestors[ancestors.len() - 1 - i].variables)
}

/// The auth of the folders, the nearest first.
pub open spec fn nearest_auth(ancestors: Seq<NodeMetaV>) -> Seq<AuthV> {
    Seq::new(ancestors.len(), |i: int| ancestors[ancestors.len() - 1 - i].auth)
}

/// A request below `ancestors`, the outermost folder first.
pub open spec fn planned(col: NodeMetaV, ancestors: Seq<NodeMetaV>, node: RequestNodeV) -> PlannedV {
    PlannedV {
        node,
        collection_vars: col.variables,
        folder_vars: nearest_vars(ancestors),
        auth_chain: nearest_auth(ancestors).push(col.auth),
        scopes: seq![col] + ancestors,
    }
}

/// Every request among the first `n` nodes and below them, in tree order.
pub open spec fn subtree_plan(col: NodeMetaV, nodes: Seq<TreeV>, ancestors: Seq<NodeMetaV>, n: int) -> Seq<PlannedV>
    decreases nodes, n,
{
    if n <= 0 || n > nodes.len() {
        seq![]
    } else {
        let before = subtree_plan(col, nodes, ancestors, n - 1);
        match nodes[n - 1] {
            TreeV::Request(r) => before.push(planned(col, ancestors, r)),
            TreeV::Folder { meta, children, .. } => before + subtree_plan(
                col,
                children,
                ancestors.push(meta),
                children.len() as int,
            ),
        }
    }
}

/// `s` without the slashes at either side.
pub open spec fn without_slashes(s: Seq<char>) -> Seq<char>
    decreases s.len(),
{
    if s.len() > 0 && s[0] == '/' {
        without_slashes(s.skip(1))
    } else if s.len() > 0 && s.last() == '/' {
        without_slashes(s.drop_last())
    } else {
        s
    }
}

/// The requests of the first folder at `rel`, from the `i`-th node on; a folder
/// comes before what is in it.
pub open spec fn folder_plan(
    col: NodeMetaV,
    nodes: Seq<TreeV>,
    ancestors: Seq<NodeMetaV>,
    rel: Seq<char>,
    i: int,
) -> Option<Seq<PlannedV>>
    decreases nodes, nodes.len() - i,
{
    if i < 0 || i >= nodes.len() {
        None
    } else {
        match nodes[i] {
            TreeV::Request(_) => folder_plan(col, nodes, ancestors, rel, i + 1),
            TreeV::Folder { meta, children } => {
                let next = ancestors.push(meta);
                if without_slashes(meta.dir) == without_slashes(rel) {
                    Some(subtree_plan(col, children, next, children.len() as int))
                } else {
                    match folder_plan(col, children, next, rel, 0) {
                        Some(plan) => Some(plan),
                        None => folder_plan(col, nodes, ancestors, rel, i + 1),
                    }
                }
            },
        }
    }
}

/// The first request stored at `file`, from the `i`-th node on.
pub open spec fn request_plan(
    col: NodeMetaV,
    nodes: Seq<TreeV>,
    ancestors: Seq<NodeMetaV>,
    file: Seq<char>,
    i: int,
) -> Option<PlannedV>
    decreases nodes, nodes.len() - i,
{
    if i < 0 || i >= nodes.len() {
        None
    } else {
        match nodes[i] {
            TreeV::Request(r) => if r.file == file {
                Some(planned(col, ancestors, r))
            } else {
                request_plan(col, nodes, ancestors, file, i + 1)
            },
            TreeV::Folder { meta, children, .. } => match request_plan(
                col,
                children,
                ancestors.push(meta),
                file,
                0,
            ) {
                Some(plan) => Some(plan),
                None => request_plan(col, nodes, ancestors, file, i + 1),
            },
        }
    }
}

/// Trim the slashes at either side of a path.
pub fn norm(s: &str) -> (r: String)
    ensures
        r@ == without_slashes(s@),
{
    let chars = chars_of(s);
    let mut from: usize = 0;
    let mut to: usize = chars.len();
    assert(chars@.subrange(0, chars@.len() as int) =~= chars@);
    while from < to && chars[from] == '/'
        invariant
            from <= to,
            to == chars.len(),
            without_slashes(chars@) == without_slashes(chars@.subrange(from as int, to as int)),
        decreases to - from,
    {
        assert(chars@.subrange(from as int, to as int).skip(1) =~= chars@.subrange(from + 1, to as int));
        from += 1;
    }
    while from < to && chars[to - 1] == '/'
        invariant
            from <= to <= chars.len(),
            from < to ==> chars@[from as int] != '/',
            without_slashes(chars@) == without_slashes(chars@.subrange(from as int, to as int)),
        decreases to,
    {
        let ghost now = chars@.subrange(from as int, to as int);
        assert(now.drop_last() =~= chars@.subrange(from as int, to - 1));
        assert(now[0] == chars@[from as int]);
        to -= 1;
    }
    proof {
        let now = chars@.subrange(from as int, to as int);
        if from < to {
            assert(now[0] == chars@[from as int]);
            assert(now.last() == chars@[to - 1]);
        }
    }
    text_between(&chars, from, to)
}

fn build_planned<'a>(col: &'a NodeMeta, ancestors: &Vec<&'a NodeMeta>, node: &'a RequestNode) -> (r: PlannedRequest<'a>)
    ensures
        r@ == planned(col@, views(ancestors@), node@),
{
    let ghost all = views(ancestors@);
    let mut folder_vars: Vec<&'a TextMap<String>> = Vec::new();
    let mut auth_chain: Vec<&'a AuthConfig> = Vec::new();
    let mut i: usize = ancestors.len();
    while i > 0
        invariant
            i <= ancestors.len(),
            all == views(ancestors@),
            folder_vars.len() == ancestors.len() - i,
            auth_chain.len() == ancestors.len() - i,
            forall|k: int|
                0 <= k < folder_vars.len() ==> (#[trigger] folder_vars@[k])@ == all[all.len() - 1 - k].variables,
            forall|k: int| 0 <= k < auth_chain.len() ==> (#[trigger] auth_chain@[k])@ == all[all.len() - 1 - k].auth,
        decreases i,
    {
        i -= 1;
        assert(all[i as int] == ancestors@[i as int]@);
        folder_vars.push(&ancestors[i].variables);
        auth_chain.push(&ancestors[i].auth);
    }
    auth_chain.push(&col.auth);
    let mut scopes: Vec<&'a NodeMeta> = Vec::new();
    scopes.push(col);
    assert(scopes@ =~= seq![col] + ancestors@.take(0));
    let mut k: usize = 0;
    while k < ancestors.len()
        invariant
            k <= ancestors.len(),
            scopes@ == seq![col] + ancestors@.take(k as int),
        decreases ancestors.len() - k,
    {
        scopes.push(ancestors[k]);
        assert(seq![col] + ancestors@.take(k + 1) =~= (seq![col] + ancestors@.take(k as int)).push(ancestors@[k as int]));
        k += 1;
    }
    let r = PlannedRequest { node, collection_vars: &col.variables, folder_vars, auth_chain, scopes };
    assert(ancestors@.take(k as int) =~= ancestors@);
    assert(r@.scopes =~= seq![col@] + all);
    assert(r@.folder_vars =~= nearest_vars(all));
    assert(r@.auth_chain =~= nearest_auth(all).push(col@.auth));
    r
}

fn with_ancestor<'a>(ancestors: &Vec<&'a NodeMeta>, meta: &'a NodeMeta) -> (r: Vec<&'a NodeMeta>)
    ensures
        views(r@) == views(ancestors@).push(meta@),
{
    let mut out: Vec<&'a NodeMeta> = Vec::new();
    let mut i: usize = 0;
    while i < ancestors.len()
        invariant
            i <= ancestors.len(),
            out@ == ancestors@.take(i as int),
        decreases ancestors.len() - i,
    {
        out.push(ancestors[i]);
        assert(ancestors@.take(i + 1) =~= ancestors@.take(i as int).push(ancestors@[i as int]));
        i += 1;
    }
    out.push(meta);
    assert(views(out@) =~= views(ancestors@).push(meta@));
    out
}

/// Collect every request below `nodes`, in tree order.
pub fn collect_subtree<'a>(
    col: &'a NodeMeta,
    nodes: &'a Vec<TreeNode>,
    ancestors: &Vec<&'a NodeMeta>,
    out: &mut Vec<PlannedRequest<'a>>,
)
    ensures
        views(final(out)@) == views(old(out)@) + subtree_plan(
            col@,
            views(nodes@),
            views(ancestors@),
            nodes@.len() as int,
        ),
    decreases views(nodes@),
{
    broadcast use group_views;

    let ghost start = views(out@);
    let ghost all = views(nodes@);
    let ghost above = views(ancestors@);
    let mut i: usize = 0;
    assert(start + Seq::<PlannedV>::empty() =~= start);
    while i < nodes.len()
        invariant
            i <= nodes.len(),
            all == views(nodes@),
            above == views(ancestors@),
            views(out@) == start + subtree_plan(col@, all, above, i as int),
        decreases nodes.len() - i,
    {
        let ghost before = subtree_plan(col@, all, above, i as int);
        proof {
            lemma_tree_view(nodes@[i as int]);
            assert(all[i as int] == nodes@[i as int]@);
        }
        match &nodes[i] {
            TreeNode::Request(r) => {
                let p = build_planned(col, ancestors, r);
                let ghost view = p@;
                out.push(p);
                assert((start + before).push(view) =~= start + before.push(view));
            },
            TreeNode::Folder(f) => {
                let next = with_ancestor(ancestors, &f.meta);
                proof {
                    assert(decreases_to!(all => all[i as int]));
                    assert(decreases_to!(all[i as int] => all[i as int]->children));
                    assert(all[i as int]->children == views(f.children@));
                }
                let ghost inner = subtree_plan(col@, views(f.children@), views(next@), f.children@.len() as int);
                collect_subtree(col, &f.children, &next, out);
                assert(start + before + inner =~= start + (before + inner));
            },
        }
        i += 1;
    }
}

/// Collect the requests of the first folder at `rel`, and tell whether there
/// is one.
pub fn collect_folder<'a>(
    col: &'a NodeMeta,
    nodes: &'a Vec<TreeNode>,
    ancestors: &Vec<&'a NodeMeta>,
    rel: &str,
    out: &mut Vec<PlannedRequest<'a>>,
) -> (found: bool)
    ensures
        match folder_plan(col@, views(nodes@), views(ancestors@), rel@, 0) {
            Some(plan) => found && views(final(out)@) == views(old(out)@) + plan,
            None => !found && final(out)@ == old(out)@,
        },
    decreases views(nodes@),
{
    let ghost all = views(nodes@);
    let ghost above = views(ancestors@);
    let mut i: usize = 0;
    while i < nodes.len()
        invariant
            i <= nodes.len(),
            all == views(nodes@),
            above == views(ancestors@),
            out@ == old(out)@,
            folder_plan(col@, all, above, rel@, 0) == folder_plan(col@, all, above, rel@, i as int),
        decreases nodes.len() - i,
    {
        proof {
            lemma_tree_view(nodes@[i as int]);
            assert(all[i as int] == nodes@[i as int]@);
        }
        if let TreeNode::Folder(f) = &nodes[i] {
            let next = with_ancestor(ancestors, &f.meta);
            proof {
                assert(decreases_to!(all => all[i as int]));
                assert(decreases_to!(all[i as int] => all[i as int]->children));
                assert(all[i as int]->children == views(f.children@));
            }
            if same(norm(f.meta.dir.as_str()).as_str(), norm(rel).as_str()) {
                collect_subtree(col, &f.children, &next, out);
                return true;
            }
            if collect_folder(col, &f.children, &next, rel, out) {
                return true;
            }
        }
        i += 1;
    }
    false
}

/// Find the first request stored at `file`.
pub fn find_request_in<'a>(
    col: &'a NodeMeta,
    nodes: &'a Vec<TreeNode>,
    ancestors: &Vec<&'a NodeMeta>,
    file: &str,
) -> (r: Option<PlannedRequest<'a>>)
    ensures
        opt_view(r) == request_plan(col@, views(nodes@), views(ancestors@), file@, 0),
    decreases views(nodes@),
{
    let ghost all = views(nodes@);
    let ghost above = views(ancestors@);
    let mut i: usize = 0;
    while i < nodes.len()
        invariant
            i <= nodes.len(),
            all == views(nodes@),
            above == views(ancestors@),
            request_plan(col@, all, above, file@, 0) == request_plan(col@, all, above, file@, i as int),
        decreases nodes.len() - i,
    {
        proof {
            lemma_tree_view(nodes@[i as int]);
            assert(all[i as int] == nodes@[i as int]@);
        }
        match &nodes[i] {
            TreeNode::Request(r) => {
                if same(r.file.as_str(), file) {
                    return Some(build_planned(col, ancestors, r));
                }
            },
            TreeNode::Folder(f) => {
                let next = with_ancestor(ancestors, &f.meta);
                proof {
                    assert(decreases_to!(all => all[i as int]));
                    assert(decreases_to!(all[i as int] => all[i as int]->children));
                    assert(all[i as int]->children == views(f.children@));
                }
                let found = find_request_in(col, &f.children, &next, file);
                if found.is_some() {
                    return found;
                }
            },
        }
        i += 1;
    }
    None
}

/// The requests of one whole collection.
pub open spec fn collection_plan(col: CollectionV) -> Seq<PlannedV> {
    subtree_plan(col.meta, col.children, seq![], col.children.len() as int)
}

/// The requests of the first `n` collections.
pub open spec fn workspace_plan(cols: Seq<CollectionV>, n: int) -> Seq<PlannedV>
    decreases n,
{
    if n <= 0 || n > cols.len() {
        seq![]
    } else {
        workspace_plan(cols, n - 1) + collection_plan(cols[n - 1])
    }
}

/// The requests of those of the first `n` collections that are at `rel`;
/// nothing where none is.
pub open spec fn collections_plan(cols: Seq<CollectionV>, rel: Seq<char>, n: int) -> Option<Seq<PlannedV>>
    decreases n,
{
    if n <= 0 || n > cols.len() {
        None
    } else {
        let before = collections_plan(cols, rel, n - 1);
        if without_slashes(cols[n - 1].meta.dir) == without_slashes(rel) {
            Some(
                match before {
                    Some(plan) => plan,
                    None => seq![],
                } + collection_plan(cols[n - 1]),
            )
        } else {
            before
        }
    }
}

/// The requests of the folder at `rel` in each of the first `n` collections.
pub open spec fn folders_plan(cols: Seq<CollectionV>, rel: Seq<char>, n: int) -> Option<Seq<PlannedV>>
    decreases n,
{
    if n <= 0 || n > cols.len() {
        None
    } else {
        let before = folders_plan(cols, rel, n - 1);
        let col = cols[n - 1];
        match folder_plan(col.meta, col.children, seq![], rel, 0) {
            Some(plan) => Some(
                match before {
                    Some(b) => b,
                    None => seq![],
                } + plan,
            ),
            None => before,
        }
    }
}

/// The first request stored at `file`, from the `i`-th collection on.
pub open spec fn file_plan(cols: Seq<CollectionV>, file: Seq<char>, i: int) -> Option<PlannedV>
    decreases cols.len() - i,
{
    if i < 0 || i >= cols.len() {
        None
    } else {
        match request_plan(cols[i].meta, cols[i].children, seq![], file, 0) {
            Some(p) => Some(p),
            None => file_plan(cols, file, i + 1),
        }
    }
}

/// The requests that a scope covers.
pub open spec fn scope_plan(cols: Seq<CollectionV>, scope: ScopeV) -> Result<Seq<PlannedV>, RunErrorV> {
    match scope {
        ScopeV::Request(file) => match file_plan(cols, file, 0) {
            Some(p) => Ok(seq![p]),
            None => Err(RunErrorV::ScopeNotFound(file)),
        },
        ScopeV::Collection(rel) => match collections_plan(cols, rel, cols.len() as int) {
            Some(plan) => Ok(plan),
            None => Err(RunErrorV::ScopeNotFound(rel)),
        },
        ScopeV::Folder(rel) => match folders_plan(cols, rel, cols.len() as int) {
            Some(plan) => Ok(plan),
            None => Err(RunErrorV::ScopeNotFound(rel)),
        },
        ScopeV::Workspace => Ok(workspace_plan(cols, cols.len() as int)),
    }
}

/// A plan by the views of its two sides.
pub open spec fn plan_view(r: Result<Vec<PlannedRequest<'_>>, RunError>) -> Result<Seq<PlannedV>, RunErrorV> {
    match r {
        Ok(list) => Ok(views(list@)),
        Err(e) => Err(e@),
    }
}

/// Find the first request stored at `file`.
pub fn plan_request<'a>(cols: &'a Vec<CollectionNode>, file: &str) -> (r: Option<PlannedRequest<'a>>)
    ensures
        opt_view(r) == file_plan(views(cols@), file@, 0),
{
    broadcast use group_views;

    let ghost all = views(cols@);
    let none: Vec<&'a NodeMeta> = Vec::new();
    let mut i: usize = 0;
    while i < cols.len()
        invariant
            i <= cols.len(),
            all == views(cols@),
            views(none@) == Seq::<NodeMetaV>::empty(),
            file_plan(all, file@, 0) == file_plan(all, file@, i as int),
        decreases cols.len() - i,
    {
        assert(all[i as int] == cols@[i as int]@);
        let found = find_request_in(&cols[i].meta, &cols[i].children, &none, file);
        if found.is_some() {
            return found;
        }
        i += 1;
    }
    None
}

fn plan_collection<'a>(cols: &'a Vec<CollectionNode>, rel: &str) -> (r: Option<Vec<PlannedRequest<'a>>>)
    ensures
        collections_plan(views(cols@), rel@, cols@.len() as int) == match r {
            Some(list) => Some(views(list@)),
            None => None,
        },
{
    broadcast use group_views;

    let ghost all = views(cols@);
    let none: Vec<&'a NodeMeta> = Vec::new();
    let mut out: Vec<PlannedRequest<'a>> = Vec::new();
    let mut found = false;
    let mut i: usize = 0;
    while i < cols.len()
        invariant
            i <= cols.len(),
            all == views(cols@),
            views(none@) == Seq::<NodeMetaV>::empty(),
            !found ==> views(out@) == Seq::<PlannedV>::empty(),
            collections_plan(all, rel@, i as int) == if found {
                Some(views(out@))
            } else {
                None
            },
        decreases cols.len() - i,
    {
        assert(all[i as int] == cols@[i as int]@);
        if same(norm(cols[i].meta.dir.as_str()).as_str(), norm(rel).as_str()) {
            found = true;
            collect_subtree(&cols[i].meta, &cols[i].children, &none, &mut out);
        }
        i += 1;
    }
    if found {
        Some(out)
    } else {
        None
    }
}

fn plan_folder<'a>(cols: &'a Vec<CollectionNode>, rel: &str) -> (r: Option<Vec<PlannedRequest<'a>>>)
    ensures
        folders_plan(views(cols@), rel@, cols@.len() as int) == match r {
            Some(list) => Some(views(list@)),
            None => None,
        },
{
    broadcast use group_views;

    let ghost all = views(cols@);
    let none: Vec<&'a NodeMeta> = Vec::new();
    let mut out: Vec<PlannedRequest<'a>> = Vec::new();
    let mut found = false;
    let mut i: usize = 0;
    while i < cols.len()
        invariant
            i <= cols.len(),
            all == views(cols@),
            views(none@) == Seq::<NodeMetaV>::empty(),
            !found ==> views(out@) == Seq::<PlannedV>::empty(),
            folders_plan(all, rel@, i as int) == if found {
                Some(views(out@))
            } else {
                None
            },
        decreases cols.len() - i,
    {
        assert(all[i as int] == cols@[i as int]@);
        if collect_folder(&cols[i].meta, &cols[i].children, &none, rel, &mut out) {
            found = true;
        }
        i += 1;
    }
    if found {
        Some(out)
    } else {
        None
    }
}

fn plan_workspace<'a>(cols: &'a Vec<CollectionNode>) -> (r: Vec<PlannedRequest<'a>>)
    ensures
        views(r@) == workspace_plan(views(cols@), cols@.len() as int),
{
    broadcast use group_views;

    let ghost all = views(cols@);
    let none: Vec<&'a NodeMeta> = Vec::new();
    let mut out: Vec<PlannedRequest<'a>> = Vec::new();
    let mut i: usize = 0;
    while i < cols.len()
        invariant
            i <= cols.len(),
            all == views(cols@),
            views(none@) == Seq::<NodeMetaV>::empty(),
            views(out@) == workspace_plan(all, i as int),
        decreases cols.len() - i,
    {
        assert(all[i as int] == cols@[i as int]@);
        collect_subtree(&cols[i].meta, &cols[i].children, &none, &mut out);
        i += 1;
    }
    out
}

/// The requests that a scope covers, in tree order.
pub fn plan_requests<'a>(cols: &'a Vec<CollectionNode>, scope: &RunScope) -> (r: Result<
    Vec<PlannedRequest<'a>>,
    RunError,
>)
    ensures
        plan_view(r) == scope_plan(views(cols@), scope@),
{
    broadcast use group_views;

    match scope {
        RunScope::Request(file) => match plan_request(cols, file.as_str()) {
            Some(p) => {
                let ghost view = p@;
                let mut out: Vec<PlannedRequest<'a>> = Vec::new();
                out.push(p);
                assert(views(out@) =~= seq![view]);
                Ok(out)
            },
            None => Err(RunError::ScopeNotFound(file.clone())),
        },
        RunScope::Collection(rel) => match plan_collection(cols, rel.as_str()) {
            Some(out) => Ok(out),
            None => Err(RunError::ScopeNotFound(rel.clone())),
        },
        RunScope::Folder(rel) => match plan_folder(cols, rel.as_str()) {
            Some(out) => Ok(out),
            None => Err(RunError::ScopeNotFound(rel.clone())),
        },
        RunScope::Workspace => Ok(plan_workspace(cols)),
    }
}

} // verus!
