//! A workspace: its collections, folders and requests, and its environments.

use vstd::prelude::*;

use crate::map::TextMap;
use crate::model::auth::{AuthConfig, AuthV};
use crate::model::environment::{Environment, EnvironmentV};
use crate::model::request::{HooksDefV, RequestDef, RequestDefV, SuiteHooks};
use crate::model::workspace::WorkspaceMeta;
use crate::runner::plan::{file_plan, plan_request};
use crate::text::{ascii_lower, chars_of, is_digit, is_letter, lower, same};
use crate::vars::LayerV;
use crate::view::{views, Copied};

verus! {

broadcast use vstd::string::group_string_axioms;

/// What a collection or folder sets for the requests in it.
#[derive(Debug)]
pub struct NodeMeta {
    pub name: String,
    /// Its path from the workspace root.
    pub dir: String,
    pub variables: TextMap<String>,
    pub auth: AuthConfig,
    pub hooks: SuiteHooks,
}

/// What [`NodeMeta`] holds.
pub struct NodeMetaV {
    pub name: Seq<char>,
    pub dir: Seq<char>,
    pub variables: Seq<(Seq<char>, Seq<char>)>,
    pub auth: AuthV,
    pub hooks: HooksDefV,
}

impl View for NodeMeta {
    type V = NodeMetaV;

    open spec fn view(&self) -> NodeMetaV {
        NodeMetaV {
            name: self.name@,
            dir: self.dir@,
            variables: self.variables@,
            auth: self.auth@,
            hooks: self.hooks@,
        }
    }
}

impl Copied for NodeMeta {
    fn copied(&self) -> (r: Self) {
        NodeMeta {
            name: self.name.clone(),
            dir: self.dir.clone(),
            variables: self.variables.copied(),
            auth: self.auth.copied(),
            hooks: self.hooks.copied(),
        }
    }
}

/// A request and where it is stored.
#[derive(Debug)]
pub struct RequestNode {
    /// The path of its file from the workspace root.
    pub file: String,
    pub def: RequestDef,
}

/// What [`RequestNode`] holds.
pub struct RequestNodeV {
    pub file: Seq<char>,
    pub def: RequestDefV,
}

impl View for RequestNode {
    type V = RequestNodeV;

    open spec fn view(&self) -> RequestNodeV {
        RequestNodeV {
            file: self.file@,
            def: self.def@,
        }
    }
}

impl Copied for RequestNode {
    fn copied(&self) -> (r: Self) {
        RequestNode {
            file: self.file.clone(),
            def: self.def.copied(),
        }
    }
}

/// A folder and what is in it.
#[derive(Debug)]
pub struct FolderNode {
    pub meta: NodeMeta,
    pub children: Vec<TreeNode>,
}

/// A request or a folder.
#[derive(Debug)]
pub enum TreeNode {
    Request(RequestNode),
    Folder(FolderNode),
}

/// What a [`TreeNode`] holds.
pub enum TreeV {
    Request(RequestNodeV),
    Folder { meta: NodeMetaV, children: Seq<TreeV> },
}

impl TreeNode {
    /// The node that `self` denotes.
    pub open spec fn denotes(&self) -> TreeV
        decreases self,
    {
        match self {
            TreeNode::Request(r) => TreeV::Request(r@),
            TreeNode::Folder(f) => TreeV::Folder {
                meta: f.meta@,
                children: Seq::new(
                    f.children@.len(),
                    |i: int|
                        if 0 <= i < f.children@.len() {
                            f.children@[i].denotes()
                        } else {
                            arbitrary()
                        },
                ),
            },
        }
    }
}

impl View for TreeNode {
    type V = TreeV;

    open spec fn view(&self) -> TreeV {
        self.denotes()
    }
}

/// How a folder is made of what is in it.
pub proof fn lemma_tree_view(node: TreeNode)
    ensures
        match node {
            TreeNode::Request(r) => node@ == TreeV::Request(r@),
            TreeNode::Folder(f) => node@ == (TreeV::Folder { meta: f.meta@, children: views(f.children@) }),
        },
{
    if let TreeNode::Folder(f) = node {
        assert(node@->children =~= views(f.children@));
    }
}

/// A collection and what is in it.
#[derive(Debug)]
pub struct CollectionNode {
    pub meta: NodeMeta,
    pub children: Vec<TreeNode>,
}

/// What a [`CollectionNode`] holds.
pub struct CollectionV {
    pub meta: NodeMetaV,
    pub children: Seq<TreeV>,
}

impl View for CollectionNode {
    type V = CollectionV;

    open spec fn view(&self) -> CollectionV {
        CollectionV { meta: self.meta@, children: views(self.children@) }
    }
}

/// The depth of nested folders.
pub open spec fn depth_of(nodes: Seq<TreeV>, n: int) -> nat
    decreases nodes, n,
{
    if n <= 0 || n > nodes.len() {
        0
    } else {
        let before = depth_of(nodes, n - 1);
        let here = match nodes[n - 1] {
            TreeV::Folder { children, .. } => depth_of(children, children.len() as int) + 1,
            TreeV::Request(_) => 0,
        };
        if here > before {
            here
        } else {
            before
        }
    }
}

/// More nodes nest no less deep.
pub proof fn lemma_depth_grows(nodes: Seq<TreeV>, n: int, m: int)
    requires
        0 <= n <= m <= nodes.len(),
    ensures
        depth_of(nodes, n) <= depth_of(nodes, m),
    decreases m - n,
{
    if n < m {
        lemma_depth_grows(nodes, n, m - 1);
    }
}

/// An environment with the values of its secrets.
#[derive(Debug)]
pub struct LoadedEnvironment {
    pub env: Environment,
    pub secrets: TextMap<String>,
}

/// What a [`LoadedEnvironment`] holds.
pub struct LoadedV {
    pub env: EnvironmentV,
    pub secrets: LayerV,
}

impl View for LoadedEnvironment {
    type V = LoadedV;

    open spec fn view(&self) -> LoadedV {
        LoadedV { env: self.env@, secrets: self.secrets@ }
    }
}

/// An open workspace.
#[derive(Debug)]
pub struct Workspace {
    pub root: String,
    pub meta: WorkspaceMeta,
    pub collections: Vec<CollectionNode>,
    pub environments: Vec<LoadedEnvironment>,
}

/// The request stored at `file`.
pub open spec fn stored_request(cols: Seq<CollectionV>, file: Seq<char>) -> Option<RequestNodeV> {
    match file_plan(cols, file, 0) {
        Some(p) => Some(p.node),
        None => None,
    }
}

/// The first environment called `name`, from the `i`-th on.
pub open spec fn named_environment(list: Seq<LoadedV>, name: Seq<char>, i: int) -> Option<LoadedV>
    decreases list.len() - i,
{
    if i < 0 || i >= list.len() {
        None
    } else if list[i].env.name == name {
        Some(list[i])
    } else {
        named_environment(list, name, i + 1)
    }
}

impl Workspace {
    /// The request stored at `file`.
    pub fn find_request(&self, file: &str) -> (r: Option<&RequestNode>)
        ensures
            match r {
                Some(node) => stored_request(views(self.collections@), file@) == Some(node@),
                None => stored_request(views(self.collections@), file@) is None,
            },
    {
        match plan_request(&self.collections, file) {
            Some(p) => Some(p.node),
            None => None,
        }
    }

    /// The environment called `name`.
    pub fn environment(&self, name: &str) -> (r: Option<&LoadedEnvironment>)
        ensures
            match r {
                Some(e) => named_environment(views(self.environments@), name@, 0) == Some(e@),
                None => named_environment(views(self.environments@), name@, 0) is None,
            },
    {
        let ghost all = views(self.environments@);
        let mut i: usize = 0;
        while i < self.environments.len()
            invariant
                i <= self.environments.len(),
                all == views(self.environments@),
                named_environment(all, name@, 0) == named_environment(all, name@, i as int),
            decreases self.environments.len() - i,
        {
            assert(all[i as int] == self.environments@[i as int]@);
            if same(self.environments[i].env.name.as_str(), name) {
                return Some(&self.environments[i]);
            }
            i += 1;
        }
        None
    }
}

/// The character that stands for `c` in a file name.
pub open spec fn file_char(c: char) -> char {
    if is_letter(c) || is_digit(c) {
        ascii_lower(c)
    } else {
        '-'
    }
}

/// The file name that a display name gives, without its extension: letters and
/// digits in lower case, and `-` for everything else.
pub open spec fn file_stem(name: Seq<char>) -> Seq<char> {
    Seq::new(name.len(), |i: int| file_char(name[i]))
}

/// The file name that a display name gives, without its extension.
pub fn stem_of(name: &str) -> (r: String)
    ensures
        r@ == file_stem(name@),
{
    let chars = chars_of(name);
    let mut out = String::new();
    let mut i: usize = 0;
    assert(file_stem(name@).take(0) =~= seq![]);
    while i < chars.len()
        invariant
            i <= chars.len(),
            chars@ == name@,
            out@ == file_stem(name@).take(i as int),
        decreases chars.len() - i,
    {
        let c = chars[i];
        if ('a' <= c && c <= 'z') || ('A' <= c && c <= 'Z') || ('0' <= c && c <= '9') {
            out.push(lower(c));
        } else {
            out.push('-');
        }
        assert(file_stem(name@).take(i + 1) =~= file_stem(name@).take(i as int).push(file_char(name@[i as int])));
        i += 1;
    }
    assert(file_stem(name@).take(i as int) =~= file_stem(name@));
    out
}

/// Whatever a request is called, its file lies in its folder: the file name
/// holds neither a separator nor a dot.
pub proof fn lemma_file_stays_in_its_folder(name: Seq<char>, i: int)
    requires
        0 <= i < name.len(),
    ensures
        file_stem(name)[i] != '/',
        file_stem(name)[i] != '\\',
        file_stem(name)[i] != '.',
{
}

} // verus!
