//! The tree of collections: its rows, and what is asked of it.

use vstd::prelude::*;

use crate::gui::app::RunCommand;
use crate::gui::settings::StatusMessage;
use crate::gui::state::{tab_index, tab_position, AppState, AppV, RunState, Tab, TabV};
use crate::model::request::{bare_request, RequestDef, RequestDefV};
use crate::model::Method;
use crate::paths::{equal_paths, join_parts, lies_under, parts_of, path_of, path_parts, same_path, under};
use crate::runner::plan::{subtree_plan, PlannedV, RunScope, ScopeV};
use crate::store::{depth_of, lemma_depth_grows, lemma_tree_view, CollectionNode, CollectionV, NodeMetaV, TreeNode, TreeV, Workspace};
use crate::text::{cat3, replace_all, replaced};
use crate::view::{copy_opt, group_views, opt_view, ref_view, views};
use crate::words::{trim, trimmed};

verus! {

broadcast use vstd::string::group_string_axioms;

/// What a row stands for.
#[derive(Debug, Clone, Copy, PartialEq, Eq, Structural)]
pub enum RowKind {
    Collection,
    Folder,
    Request { method: Method },
}

/// A row of the tree.
#[derive(Debug)]
pub struct Row {
    /// The directory of a collection or folder, the file of a request.
    pub path: String,
    /// The path from the workspace root.
    pub rel_id: String,
    pub depth: usize,
    pub name: String,
    pub kind: RowKind,
}

/// What a [`Row`] says.
pub struct RowV {
    pub path: Seq<char>,
    pub rel_id: Seq<char>,
    pub depth: nat,
    pub name: Seq<char>,
    pub kind: RowKind,
}

impl View for Row {
    type V = RowV;

    open spec fn view(&self) -> RowV {
        RowV {
            path: self.path@,
            rel_id: self.rel_id@,
            depth: self.depth as nat,
            name: self.name@,
            kind: self.kind,
        }
    }
}

/// A path from the workspace root, with `/` throughout. A path that does not
/// lie under the root stays whole.
pub open spec fn rel_id(root: Seq<char>, path: Seq<char>) -> Seq<char> {
    let rest = if lies_under(path, root) {
        path_of(path_parts(path).skip(path_parts(root).len() as int))
    } else {
        path
    };
    replaced(rest, "\\"@, "/"@)
}

/// A path from the workspace root, with `/` throughout.
pub fn rel_id_of(root: &str, path: &str) -> (r: String)
    ensures
        r@ == rel_id(root@, path@),
{
    if under(path, root) {
        let parts = parts_of(path);
        let base = parts_of(root);
        let ghost all = views(parts@);
        assert(all.len() == parts@.len());
        assert(views(base@).len() == base@.len());
        let mut rest: Vec<String> = Vec::new();
        let mut i: usize = base.len();
        while i < parts.len()
            invariant
                base.len() <= i <= parts.len(),
                all == views(parts@),
                rest.len() == i - base.len(),
                forall|k: int| 0 <= k < rest.len() ==> (#[trigger] rest@[k])@ == all[k + base.len()],
            decreases parts.len() - i,
        {
            rest.push(parts[i].clone());
            i += 1;
        }
        assert(views(rest@) =~= all.skip(base@.len() as int));
        replace_all(join_parts(rest).as_str(), "\\", "/")
    } else {
        replace_all(path, "\\", "/")
    }
}

/// A directory is among the collapsed ones.
pub open spec fn is_collapsed(collapsed: Seq<Seq<char>>, dir: Seq<char>) -> bool {
    exists|i: int| 0 <= i < collapsed.len() && same_path(#[trigger] collapsed[i], dir)
}

/// The rows of the first `n` nodes and of what is below them. What is in a
/// collapsed folder has no row.
pub open spec fn tree_rows(
    nodes: Seq<TreeV>,
    root: Seq<char>,
    depth: nat,
    collapsed: Seq<Seq<char>>,
    n: int,
) -> Seq<RowV>
    decreases nodes, n,
{
    if n <= 0 || n > nodes.len() {
        seq![]
    } else {
        let before = tree_rows(nodes, root, depth, collapsed, n - 1);
        match nodes[n - 1] {
            TreeV::Folder { meta, children } => {
                let row = RowV {
                    path: meta.dir,
                    rel_id: rel_id(root, meta.dir),
                    depth,
                    name: meta.name,
                    kind: RowKind::Folder,
                };
                if is_collapsed(collapsed, meta.dir) {
                    before.push(row)
                } else {
                    before.push(row) + tree_rows(children, root, depth + 1, collapsed, children.len() as int)
                }
            },
            TreeV::Request(r) => before.push(
                RowV {
                    path: r.file,
                    rel_id: rel_id(root, r.file),
                    depth,
                    name: r.def.name,
                    kind: RowKind::Request { method: r.def.method },
                },
            ),
        }
    }
}

/// The rows of the first `n` collections.
pub open spec fn collection_rows(
    cols: Seq<CollectionV>,
    root: Seq<char>,
    collapsed: Seq<Seq<char>>,
    n: int,
) -> Seq<RowV>
    decreases n,
{
    if n <= 0 || n > cols.len() {
        seq![]
    } else {
        let before = collection_rows(cols, root, collapsed, n - 1);
        let col = cols[n - 1];
        let row = RowV {
            path: col.meta.dir,
            rel_id: rel_id(root, col.meta.dir),
            depth: 0,
            name: col.meta.name,
            kind: RowKind::Collection,
        };
        if is_collapsed(collapsed, col.meta.dir) {
            before.push(row)
        } else {
            before.push(row) + tree_rows(col.children, root, 1, collapsed, col.children.len() as int)
        }
    }
}

/// Whether a directory is among the collapsed ones.
pub fn collapsed_here(collapsed: &Vec<String>, dir: &str) -> (r: bool)
    ensures
        r == is_collapsed(views(collapsed@), dir@),
{
    let ghost all = views(collapsed@);
    let mut i: usize = 0;
    while i < collapsed.len()
        invariant
            i <= collapsed.len(),
            all == views(collapsed@),
            forall|k: int| 0 <= k < i ==> !same_path(#[trigger] all[k], dir@),
        decreases collapsed.len() - i,
    {
        if equal_paths(collapsed[i].as_str(), dir) {
            assert(same_path(all[i as int], dir@));
            return true;
        }
        i += 1;
    }
    false
}

/// Add the rows of nodes and of what is below them. Folders do not nest deeper
/// than can be counted.
pub fn flatten_children(nodes: &Vec<TreeNode>, root: &str, depth: usize, collapsed: &Vec<String>, out: &mut Vec<Row>)
    requires
        depth + depth_of(views(nodes@), nodes@.len() as int) <= usize::MAX,
    ensures
        views(final(out)@) == views(old(out)@) + tree_rows(
            views(nodes@),
            root@,
            depth as nat,
            views(collapsed@),
            nodes@.len() as int,
        ),
    decreases views(nodes@),
{
    broadcast use group_views;

    let ghost start = views(out@);
    let ghost all = views(nodes@);
    let ghost shut = views(collapsed@);
    let mut i: usize = 0;
    assert(start + Seq::<RowV>::empty() =~= start);
    while i < nodes.len()
        invariant
            i <= nodes.len(),
            all == views(nodes@),
            shut == views(collapsed@),
            depth + depth_of(all, all.len() as int) <= usize::MAX,
            views(out@) == start + tree_rows(all, root@, depth as nat, shut, i as int),
        decreases nodes.len() - i,
    {
        let ghost before = tree_rows(all, root@, depth as nat, shut, i as int);
        proof {
            lemma_tree_view(nodes@[i as int]);
            assert(all[i as int] == nodes@[i as int]@);
            lemma_depth_grows(all, i + 1, all.len() as int);
        }
        match &nodes[i] {
            TreeNode::Folder(f) => {
                proof {
                    assert(decreases_to!(all => all[i as int]));
                    assert(decreases_to!(all[i as int] => all[i as int]->children));
                    assert(all[i as int]->children == views(f.children@));
                }
                let row = Row {
                    rel_id: rel_id_of(root, f.meta.dir.as_str()),
                    path: f.meta.dir.clone(),
                    depth,
                    name: f.meta.name.clone(),
                    kind: RowKind::Folder,
                };
                let ghost view = row@;
                out.push(row);
                assert((start + before).push(view) =~= start + before.push(view));
                if !collapsed_here(collapsed, f.meta.dir.as_str()) {
                    let ghost inner = tree_rows(
                        views(f.children@),
                        root@,
                        (depth + 1) as nat,
                        shut,
                        f.children@.len() as int,
                    );
                    flatten_children(&f.children, root, depth + 1, collapsed, out);
                    assert(start + before.push(view) + inner =~= start + (before.push(view) + inner));
                }
            },
            TreeNode::Request(r) => {
                let row = Row {
                    rel_id: rel_id_of(root, r.file.as_str()),
                    path: r.file.clone(),
                    depth,
                    name: r.def.name.clone(),
                    kind: RowKind::Request { method: r.def.method },
                };
                let ghost view = row@;
                out.push(row);
                assert((start + before).push(view) =~= start + before.push(view));
            },
        }
        i += 1;
    }
}

/// The rows of the tree. Folders do not nest deeper than can be counted.
pub fn flatten(collections: &Vec<CollectionNode>, root: &str, collapsed: &Vec<String>) -> (r: Vec<Row>)
    requires
        forall|i: int|
            0 <= i < collections@.len() ==> 1 + depth_of(
                (#[trigger] collections@[i])@.children,
                collections@[i]@.children.len() as int,
            ) <= usize::MAX,
    ensures
        views(r@) == collection_rows(views(collections@), root@, views(collapsed@), collections@.len() as int),
{
    broadcast use group_views;

    let ghost all = views(collections@);
    let ghost shut = views(collapsed@);
    let mut rows: Vec<Row> = Vec::new();
    let mut i: usize = 0;
    while i < collections.len()
        invariant
            i <= collections.len(),
            all == views(collections@),
            shut == views(collapsed@),
            forall|k: int|
                0 <= k < collections@.len() ==> 1 + depth_of(
                    (#[trigger] collections@[k])@.children,
                    collections@[k]@.children.len() as int,
                ) <= usize::MAX,
            views(rows@) == collection_rows(all, root@, shut, i as int),
        decreases collections.len() - i,
    {
        let col = &collections[i];
        assert(all[i as int] == collections@[i as int]@);
        let row = Row {
            rel_id: rel_id_of(root, col.meta.dir.as_str()),
            path: col.meta.dir.clone(),
            depth: 0,
            name: col.meta.name.clone(),
            kind: RowKind::Collection,
        };
        rows.push(row);
        if !collapsed_here(collapsed, col.meta.dir.as_str()) {
            flatten_children(&col.children, root, 1, collapsed, &mut rows);
        }
        i += 1;
    }
    rows
}

/// A change that waits for a name or for a yes.
#[derive(Debug)]
pub enum PendingAction {
    NewCollection,
    /// Below a directory.
    NewFolder(String),
    NewRequest(String),
    /// A path and the name it has.
    RenameFolder(String, String),
    RenameRequest(String, String),
    DeleteDir(String, String),
    DeleteRequest(String, String),
}

/// What a [`PendingAction`] says.
pub enum PendingV {
    NewCollection,
    NewFolder(Seq<char>),
    NewRequest(Seq<char>),
    RenameFolder(Seq<char>, Seq<char>),
    RenameRequest(Seq<char>, Seq<char>),
    DeleteDir(Seq<char>, Seq<char>),
    DeleteRequest(Seq<char>, Seq<char>),
}

impl View for PendingAction {
    type V = PendingV;

    open spec fn view(&self) -> PendingV {
        match self {
            PendingAction::NewCollection => PendingV::NewCollection,
            PendingAction::NewFolder(p) => PendingV::NewFolder(p@),
            PendingAction::NewRequest(p) => PendingV::NewRequest(p@),
            PendingAction::RenameFolder(p, n) => PendingV::RenameFolder(p@, n@),
            PendingAction::RenameRequest(p, n) => PendingV::RenameRequest(p@, n@),
            PendingAction::DeleteDir(p, n) => PendingV::DeleteDir(p@, n@),
            PendingAction::DeleteRequest(p, n) => PendingV::DeleteRequest(p@, n@),
        }
    }
}

/// What the panel remembers between two frames.
#[derive(Debug)]
pub struct CollectionsUiState {
    pub collapsed: Vec<String>,
    pub pending: Option<PendingAction>,
    pub pending_input: String,
}

/// The directories that stay collapsed once `dir` is expanded.
pub open spec fn expanded(collapsed: Seq<Seq<char>>, dir: Seq<char>) -> Seq<Seq<char>>
    decreases collapsed.len(),
{
    if collapsed.len() == 0 {
        seq![]
    } else {
        let before = expanded(collapsed.drop_last(), dir);
        if same_path(collapsed.last(), dir) {
            before
        } else {
            before.push(collapsed.last())
        }
    }
}

/// The collapsed directories once `dir` was clicked.
pub open spec fn toggled(collapsed: Seq<Seq<char>>, dir: Seq<char>) -> Seq<Seq<char>> {
    if is_collapsed(collapsed, dir) {
        expanded(collapsed, dir)
    } else {
        collapsed.push(dir)
    }
}

/// The text that the name field of a change begins with.
pub open spec fn first_input(pending: PendingV) -> Seq<char> {
    match pending {
        PendingV::RenameFolder(_, name) => name,
        PendingV::RenameRequest(_, name) => name,
        _ => seq![],
    }
}

impl CollectionsUiState {
    /// Everything expanded, nothing pending.
    pub fn new() -> (r: CollectionsUiState)
        ensures
            r.collapsed@.len() == 0,
            r.pending is None,
            r.pending_input@.len() == 0,
    {
        CollectionsUiState { collapsed: Vec::new(), pending: None, pending_input: String::new() }
    }

    /// Collapse or expand a directory.
    pub fn toggle(&mut self, dir: &str)
        ensures
            views(final(self).collapsed@) == toggled(views(old(self).collapsed@), dir@),
            final(self).pending == old(self).pending,
            final(self).pending_input == old(self).pending_input,
    {
        broadcast use group_views;

        let ghost all = views(self.collapsed@);
        if !collapsed_here(&self.collapsed, dir) {
            self.collapsed.push(dir.to_owned());
            return;
        }
        let mut kept: Vec<String> = Vec::new();
        let mut i: usize = 0;
        assert(all.take(0) =~= Seq::empty());
        while i < self.collapsed.len()
            invariant
                i <= self.collapsed.len(),
                all == views(self.collapsed@),
                views(kept@) == expanded(all.take(i as int), dir@),
            decreases self.collapsed.len() - i,
        {
            assert(all.take(i + 1).drop_last() =~= all.take(i as int));
            assert(all.take(i + 1).last() == self.collapsed@[i as int]@);
            if !equal_paths(self.collapsed[i].as_str(), dir) {
                kept.push(self.collapsed[i].clone());
            }
            i += 1;
        }
        assert(all.take(i as int) =~= all);
        self.collapsed = kept;
    }

    /// Ask for a name or a yes.
    pub fn ask(&mut self, pending: PendingAction)
        ensures
            opt_view(final(self).pending) == Some(pending@),
            final(self).pending_input@ == first_input(pending@),
            final(self).collapsed == old(self).collapsed,
    {
        self.pending_input = match &pending {
            PendingAction::RenameFolder(_, name) => name.clone(),
            PendingAction::RenameRequest(_, name) => name.clone(),
            _ => String::new(),
        };
        assert(self.pending_input@ =~= first_input(pending@));
        self.pending = Some(pending);
    }

    /// What a frame of the dialog settles: the change to make, where it was
    /// confirmed. Without a decision it stays open, otherwise it is dropped.
    pub fn settle(&mut self, confirmed: bool, cancelled: bool, kept_open: bool) -> (r: Option<PendingAction>)
        ensures
            opt_view(r) == if confirmed {
                opt_view(old(self).pending)
            } else {
                None
            },
            final(self).pending == if !confirmed && !cancelled && kept_open {
                old(self).pending
            } else {
                None
            },
            final(self).pending_input == old(self).pending_input,
            final(self).collapsed == old(self).collapsed,
    {
        let pending = self.pending.take();
        if confirmed {
            pending
        } else {
            if !cancelled && kept_open {
                self.pending = pending;
            }
            None
        }
    }
}

/// The title of the dialog for a change, and whether it asks for a yes.
pub fn modal_title(pending: &PendingAction) -> (r: (&'static str, bool))
    ensures
        (r.0@, r.1) == match pending@ {
            PendingV::NewCollection => ("New Collection"@, false),
            PendingV::NewFolder(_) => ("New Folder"@, false),
            PendingV::NewRequest(_) => ("New Request"@, false),
            PendingV::RenameFolder(_, _) => ("Rename"@, false),
            PendingV::RenameRequest(_, _) => ("Rename"@, false),
            PendingV::DeleteDir(_, _) => ("Delete"@, true),
            PendingV::DeleteRequest(_, _) => ("Delete"@, true),
        },
{
    match pending {
        PendingAction::NewCollection => ("New Collection", false),
        PendingAction::NewFolder(_) => ("New Folder", false),
        PendingAction::NewRequest(_) => ("New Request", false),
        PendingAction::RenameFolder(_, _) => ("Rename", false),
        PendingAction::RenameRequest(_, _) => ("Rename", false),
        PendingAction::DeleteDir(_, _) => ("Delete", true),
        PendingAction::DeleteRequest(_, _) => ("Delete", true),
    }
}

/// The question before something is deleted.
pub fn delete_question(pending: &PendingAction) -> (r: Option<String>)
    ensures
        opt_view(r) == match pending@ {
            PendingV::DeleteDir(_, name) => Some("Delete \""@ + name + "\"? This cannot be undone."@),
            PendingV::DeleteRequest(_, name) => Some("Delete \""@ + name + "\"? This cannot be undone."@),
            _ => None,
        },
{
    match pending {
        PendingAction::DeleteDir(_, name) => Some(cat3("Delete \"", name.as_str(), "\"? This cannot be undone.")),
        PendingAction::DeleteRequest(_, name) => Some(cat3("Delete \"", name.as_str(), "\"? This cannot be undone.")),
        _ => None,
    }
}

/// A change of what is stored.
#[derive(Debug)]
#[allow(inconsistent_fields)]
pub enum StoreChange {
    CreateCollection { root: String, name: String },
    CreateFolder { parent: String, name: String },
    CreateRequest { parent: String, def: RequestDef },
    RenameFolder { dir: String, name: String },
    RenameRequest { file: String, name: String },
    DeleteDir { dir: String },
    DeleteRequest { file: String },
}

/// What a [`StoreChange`] says.
#[allow(inconsistent_fields)]
pub enum ChangeV {
    CreateCollection { root: Seq<char>, name: Seq<char> },
    CreateFolder { parent: Seq<char>, name: Seq<char> },
    CreateRequest { parent: Seq<char>, def: RequestDefV },
    RenameFolder { dir: Seq<char>, name: Seq<char> },
    RenameRequest { file: Seq<char>, name: Seq<char> },
    DeleteDir { dir: Seq<char> },
    DeleteRequest { file: Seq<char> },
}

impl View for StoreChange {
    type V = ChangeV;

    open spec fn view(&self) -> ChangeV {
        match self {
            StoreChange::CreateCollection { root, name } => ChangeV::CreateCollection { root: root@, name: name@ },
            StoreChange::CreateFolder { parent, name } => ChangeV::CreateFolder { parent: parent@, name: name@ },
            StoreChange::CreateRequest { parent, def } => ChangeV::CreateRequest { parent: parent@, def: def@ },
            StoreChange::RenameFolder { dir, name } => ChangeV::RenameFolder { dir: dir@, name: name@ },
            StoreChange::RenameRequest { file, name } => ChangeV::RenameRequest { file: file@, name: name@ },
            StoreChange::DeleteDir { dir } => ChangeV::DeleteDir { dir: dir@ },
            StoreChange::DeleteRequest { file } => ChangeV::DeleteRequest { file: file@ },
        }
    }
}

/// The change that a confirmed dialog makes. Nothing is created or renamed
/// without a name, and a collection needs a workspace.
pub open spec fn change_of(pending: PendingV, input: Seq<char>, root: Option<Seq<char>>) -> Option<ChangeV> {
    let name = trimmed(input);
    match pending {
        PendingV::DeleteDir(dir, _) => Some(ChangeV::DeleteDir { dir }),
        PendingV::DeleteRequest(file, _) => Some(ChangeV::DeleteRequest { file }),
        _ => if name.len() == 0 {
            None
        } else {
            match pending {
                PendingV::NewCollection => match root {
                    Some(root) => Some(ChangeV::CreateCollection { root, name }),
                    None => None,
                },
                PendingV::NewFolder(parent) => Some(ChangeV::CreateFolder { parent, name }),
                PendingV::NewRequest(parent) => Some(
                    ChangeV::CreateRequest { parent, def: bare_request(name, Method::Get, "https://"@) },
                ),
                PendingV::RenameFolder(dir, _) => Some(ChangeV::RenameFolder { dir, name }),
                PendingV::RenameRequest(file, _) => Some(ChangeV::RenameRequest { file, name }),
                _ => None,
            }
        },
    }
}

/// The change that a confirmed dialog makes.
pub fn apply_pending(pending: &PendingAction, input: &str, root: Option<&str>) -> (r: Option<StoreChange>)
    ensures
        opt_view(r) == change_of(pending@, input@, ref_view(root)),
{
    let name = trim(input);
    match pending {
        PendingAction::DeleteDir(dir, _) => {
            return Some(StoreChange::DeleteDir { dir: dir.clone() });
        },
        PendingAction::DeleteRequest(file, _) => {
            return Some(StoreChange::DeleteRequest { file: file.clone() });
        },
        _ => {},
    }
    if name.as_str().unicode_len() == 0 {
        return None;
    }
    match pending {
        PendingAction::NewCollection => match root {
            Some(root) => Some(StoreChange::CreateCollection { root: root.to_owned(), name }),
            None => None,
        },
        PendingAction::NewFolder(parent) => Some(StoreChange::CreateFolder { parent: parent.clone(), name }),
        PendingAction::NewRequest(parent) => Some(
            StoreChange::CreateRequest {
                parent: parent.clone(),
                def: RequestDef::new(name.as_str(), Method::Get, "https://"),
            },
        ),
        PendingAction::RenameFolder(dir, _) => Some(StoreChange::RenameFolder { dir: dir.clone(), name }),
        PendingAction::RenameRequest(file, _) => Some(StoreChange::RenameRequest { file: file.clone(), name }),
        _ => None,
    }
}

/// The tabs once the request at `old_rel` has a new file and name.
pub open spec fn renamed(tabs: Seq<TabV>, old_rel: Seq<char>, new_rel: Seq<char>, name: Seq<char>) -> Seq<TabV> {
    match tab_position(tabs, old_rel, 0) {
        None => tabs,
        Some(i) => tabs.update(
            i,
            TabV { rel_id: new_rel, def: RequestDefV { name, ..tabs[i].def }, ..tabs[i] },
        ),
    }
}

/// The change was made, or failed: the tab of a renamed request follows it, and
/// an error shows in the status line. `made` holds the new file of a renamed
/// request.
pub fn finish_pending(state: &mut AppState, change: &StoreChange, made: Result<String, String>)
    ensures
        final(state).workspace == old(state).workspace,
        final(state).run_state == old(state).run_state,
        final(state).next_run_id == old(state).next_run_id,
        match made {
            Err(e) => opt_view(final(state).status) == Some((e@, true)) && final(state)@ == old(state)@
                && final(state).tabs == old(state).tabs,
            Ok(new_file) => final(state).status == old(state).status && final(state)@ == match change@ {
                ChangeV::RenameRequest { file, name } => match old(state).workspace {
                    Some(ws) => AppV {
                        tabs: renamed(
                            old(state)@.tabs,
                            rel_id(ws.root@, file),
                            rel_id(ws.root@, new_file@),
                            name,
                        ),
                        ..old(state)@
                    },
                    None => old(state)@,
                },
                _ => old(state)@,
            },
        },
{
    match made {
        Err(e) => {
            state.status = Some(StatusMessage::error(e.as_str()));
        },
        Ok(new_file) => {
            if let StoreChange::RenameRequest { file, name } = change {
                let rels = match &state.workspace {
                    Some(ws) => Some(
                        (
                            rel_id_of(ws.root.as_str(), file.as_str()),
                            rel_id_of(ws.root.as_str(), new_file.as_str()),
                        ),
                    ),
                    None => None,
                };
                if let Some((old_rel, new_rel)) = rels {
                    let ghost before = state@.tabs;
                    if let Some(i) = tab_index(&state.tabs, old_rel.as_str()) {
                        let ghost rel = new_rel@;
                        let tab = state.tabs.remove(i);
                        let Tab { rel_id: _, def, dirty, run_id, response } = tab;
                        let mut def = def;
                        def.name = name.clone();
                        state.tabs.insert(i, Tab { rel_id: new_rel, def, dirty, run_id, response });
                        assert(state@.tabs =~= renamed(before, old_rel@, rel, name@));
                    }
                }
            }
        },
    }
}

/// The workspace was read again: it takes the place of the old one, and the
/// tabs keep what was edited. Where it could not be read, the old one stays and
/// the status line tells.
pub fn reload_workspace(state: &mut AppState, loaded: Result<Workspace, String>)
    ensures
        final(state)@ == old(state)@,
        final(state).tabs == old(state).tabs,
        final(state).run_state == old(state).run_state,
        final(state).next_run_id == old(state).next_run_id,
        match loaded {
            _ if old(state).workspace is None => *final(state) == *old(state),
            Ok(ws) => final(state).workspace == Some(ws) && final(state).status == old(state).status,
            Err(e) => final(state).workspace == old(state).workspace && opt_view(final(state).status) == Some(
                (e@, true),
            ),
        },
{
    if state.workspace.is_none() {
        return;
    }
    match loaded {
        Ok(ws) => {
            state.workspace = Some(ws);
        },
        Err(e) => {
            state.status = Some(StatusMessage::error(e.as_str()));
        },
    }
}

/// What running a row runs.
pub fn scope_of(row: &Row) -> (r: RunScope)
    ensures
        r@ == match row.kind {
            RowKind::Collection => ScopeV::Collection(row.rel_id@),
            RowKind::Folder => ScopeV::Folder(row.rel_id@),
            RowKind::Request { .. } => ScopeV::Request(row.rel_id@),
        },
{
    match row.kind {
        RowKind::Collection => RunScope::Collection(row.rel_id.clone()),
        RowKind::Folder => RunScope::Folder(row.rel_id.clone()),
        RowKind::Request { .. } => RunScope::Request(row.rel_id.clone()),
    }
}

/// Ask for a run of a part of the workspace; without a workspace nothing
/// happens.
pub fn run_scope(state: &mut AppState, scope: RunScope) -> (r: Option<RunCommand>)
    requires
        old(state).next_run_id < u64::MAX,
    ensures
        final(state)@ == old(state)@,
        final(state).tabs == old(state).tabs,
        final(state).workspace == old(state).workspace,
        final(state).status == old(state).status,
        old(state).workspace is None ==> r is None && *final(state) == *old(state),
        old(state).workspace is Some ==> {
            &&& r is Some
            &&& r->Some_0.run_id == old(state).next_run_id
            &&& r->Some_0.scope == scope
            &&& opt_view(r->Some_0.environment) == old(state)@.active_env
            &&& final(state).next_run_id == old(state).next_run_id + 1
            &&& final(state).run_state == (RunState { run_id: Some(r->Some_0.run_id), total: 0, completed: 0 })
        },
{
    if state.workspace.is_none() {
        return None;
    }
    let run_id: u64 = state.alloc_run_id();
    state.run_state = RunState { run_id: Some(run_id), total: 0, completed: 0 };
    let environment = copy_opt(&state.active_env);
    Some(RunCommand { run_id, scope, environment })
}

// ---------------------------------------------------------------------
// Laws
// ---------------------------------------------------------------------

proof fn lemma_expanded_members(collapsed: Seq<Seq<char>>, dir: Seq<char>, other: Seq<char>)
    ensures
        is_collapsed(expanded(collapsed, dir), other) == (is_collapsed(collapsed, other) && !same_path(dir, other)),
    decreases collapsed.len(),
{
    if collapsed.len() > 0 {
        let rest = collapsed.drop_last();
        lemma_expanded_members(rest, dir, other);
        let last = collapsed.last();
        lemma_pushed_member(rest, last, other);
        assert(rest.push(last) =~= collapsed);
        lemma_pushed_member(expanded(rest, dir), last, other);
    }
}

proof fn lemma_pushed_member(collapsed: Seq<Seq<char>>, dir: Seq<char>, other: Seq<char>)
    ensures
        is_collapsed(collapsed.push(dir), other) == (is_collapsed(collapsed, other) || same_path(dir, other)),
{
    let more = collapsed.push(dir);
    if is_collapsed(collapsed, other) {
        let i = choose|i: int| 0 <= i < collapsed.len() && same_path(#[trigger] collapsed[i], other);
        assert(same_path(more[i], other));
    }
    if same_path(dir, other) {
        assert(same_path(more[collapsed.len() as int], other));
    }
    if is_collapsed(more, other) {
        let i = choose|i: int| 0 <= i < more.len() && same_path(#[trigger] more[i], other);
        if i < collapsed.len() {
            assert(same_path(collapsed[i], other));
        }
    }
}

/// A click turns a directory over, and no other one. So a second click undoes
/// the first.
pub proof fn lemma_click_turns_over(collapsed: Seq<Seq<char>>, dir: Seq<char>, other: Seq<char>)
    ensures
        is_collapsed(toggled(collapsed, dir), other) == if same_path(dir, other) {
            !is_collapsed(collapsed, other)
        } else {
            is_collapsed(collapsed, other)
        },
        is_collapsed(toggled(toggled(collapsed, dir), dir), other) == is_collapsed(collapsed, other),
{
    lemma_turned_once(collapsed, dir, other);
    lemma_turned_once(toggled(collapsed, dir), dir, other);
}

proof fn lemma_turned_once(collapsed: Seq<Seq<char>>, dir: Seq<char>, other: Seq<char>)
    ensures
        is_collapsed(toggled(collapsed, dir), other) == if same_path(dir, other) {
            !is_collapsed(collapsed, other)
        } else {
            is_collapsed(collapsed, other)
        },
{
    lemma_expanded_members(collapsed, dir, other);
    lemma_pushed_member(collapsed, dir, other);
    if same_path(dir, other) {
        assert(is_collapsed(collapsed, dir) == is_collapsed(collapsed, other)) by {
            if is_collapsed(collapsed, dir) {
                let i = choose|i: int| 0 <= i < collapsed.len() && same_path(#[trigger] collapsed[i], dir);
                assert(same_path(collapsed[i], other));
            }
            if is_collapsed(collapsed, other) {
                let i = choose|i: int| 0 <= i < collapsed.len() && same_path(#[trigger] collapsed[i], other);
                assert(same_path(collapsed[i], dir));
            }
        }
    }
}

/// The files of the request rows, in order.
pub open spec fn request_files(rows: Seq<RowV>) -> Seq<Seq<char>>
    decreases rows.len(),
{
    if rows.len() == 0 {
        seq![]
    } else {
        let before = request_files(rows.drop_last());
        match rows.last().kind {
            RowKind::Request { .. } => before.push(rows.last().path),
            _ => before,
        }
    }
}

/// The files of the requests of a run, in order.
pub open spec fn plan_files(plan: Seq<PlannedV>) -> Seq<Seq<char>> {
    Seq::new(plan.len(), |i: int| plan[i].node.file)
}

proof fn lemma_request_files_join(a: Seq<RowV>, b: Seq<RowV>)
    ensures
        request_files(a + b) == request_files(a) + request_files(b),
    decreases b.len(),
{
    if b.len() == 0 {
        assert(a + b =~= a);
        assert(request_files(a) + Seq::<Seq<char>>::empty() =~= request_files(a));
    } else {
        assert((a + b).drop_last() =~= a + b.drop_last());
        lemma_request_files_join(a, b.drop_last());
        let x = request_files(a);
        let y = request_files(b.drop_last());
        assert((x + y).push(b.last().path) =~= x + y.push(b.last().path));
    }
}

/// Where everything is expanded, the request rows are the requests that a run
/// executes, in the order in which it executes them.
pub proof fn lemma_rows_show_the_run(
    col: NodeMetaV,
    nodes: Seq<TreeV>,
    ancestors: Seq<NodeMetaV>,
    root: Seq<char>,
    depth: nat,
    n: int,
)
    requires
        0 <= n <= nodes.len(),
    ensures
        request_files(tree_rows(nodes, root, depth, seq![], n)) == plan_files(subtree_plan(col, nodes, ancestors, n)),
    decreases nodes, n,
{
    let rows = tree_rows(nodes, root, depth, seq![], n);
    let plan = subtree_plan(col, nodes, ancestors, n);
    if n == 0 {
        assert(request_files(rows) =~= plan_files(plan));
    } else {
        lemma_rows_show_the_run(col, nodes, ancestors, root, depth, n - 1);
        let rows_before = tree_rows(nodes, root, depth, seq![], n - 1);
        let plan_before = subtree_plan(col, nodes, ancestors, n - 1);
        match nodes[n - 1] {
            TreeV::Request(r) => {
                assert(rows.drop_last() =~= rows_before);
                assert(request_files(rows) =~= plan_files(plan));
            },
            TreeV::Folder { meta, children } => {
                assert(decreases_to!(nodes => nodes[n - 1]));
                let len = children.len() as int;
                lemma_rows_show_the_run(col, children, ancestors.push(meta), root, depth + 1, len);
                let inner = tree_rows(children, root, depth + 1, seq![], len);
                let row = RowV {
                    path: meta.dir,
                    rel_id: rel_id(root, meta.dir),
                    depth,
                    name: meta.name,
                    kind: RowKind::Folder,
                };
                assert(rows == rows_before.push(row) + inner);
                assert(rows_before.push(row).drop_last() =~= rows_before);
                lemma_request_files_join(rows_before.push(row), inner);
                assert(plan_files(plan) =~= plan_files(plan_before) + plan_files(
                    subtree_plan(col, children, ancestors.push(meta), len),
                ));
            },
        }
    }
}

} // verus!
