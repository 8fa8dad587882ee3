//! From a document and the files of its project to the request it stands for.

use vstd::prelude::*;

use crate::json::{Json, JsonV};
use crate::map::{lemma_put_is_read_back, lemma_put_leaves_others, lookup, put, TextMap};
use crate::reqv1::builder::{assembled, build_ir, may_resolve, BoundV, BuildInputs, InputsV, Located};
use crate::reqv1::diag::{Diagnostic, DiagnosticV};
use crate::reqv1::ir::{AssetV, RefScheme, RequestV, ResolvedRequest};
use crate::reqv1::jshost::{script_at, Script, ScriptV};
use crate::reqv1::model::{DocumentV, RequestDocument};
use crate::reqv1::refs::{data_at, document_refs, read_data, references, resolve_reference, resolved_reference};
use crate::view::{copy_opt, group_views, opt_view, views, Copied};

verus! {

broadcast use vstd::string::group_string_axioms;

/// A project: where it lies, what its aliases stand for, and its files as far
/// as they were read.
#[derive(Debug)]
pub struct Project {
    pub root: String,
    pub aliases: TextMap<String>,
    /// Files by their paths.
    pub files: TextMap<Script>,
    pub secrets: TextMap<String>,
    /// The value of every other secret, if there is one.
    pub placeholder: Option<String>,
}

/// What a [`Project`] says.
pub struct ProjectV {
    pub root: Seq<char>,
    pub aliases: Seq<(Seq<char>, Seq<char>)>,
    pub files: Seq<(Seq<char>, ScriptV)>,
    pub secrets: Seq<(Seq<char>, Seq<char>)>,
    pub placeholder: Option<Seq<char>>,
}

impl View for Project {
    type V = ProjectV;

    open spec fn view(&self) -> ProjectV {
        ProjectV {
            root: self.root@,
            aliases: self.aliases@,
            files: self.files@,
            secrets: self.secrets@,
            placeholder: opt_view(self.placeholder),
        }
    }
}

impl Copied for Script {
    fn copied(&self) -> (r: Self) {
        match self {
            Script::Source(s) => Script::Source(s.clone()),
            Script::Unreadable(e) => Script::Unreadable(e.clone()),
        }
    }
}

// ---------------------------------------------------------------------
// What is to be read
// ---------------------------------------------------------------------

/// The paths of the files that the first `n` references lead to.
pub open spec fn paths_among(
    refs: Seq<Seq<char>>,
    aliases: Seq<(Seq<char>, Seq<char>)>,
    root: Seq<char>,
    base_dir: Seq<char>,
    n: int,
) -> Seq<Seq<char>>
    decreases n,
{
    if n <= 0 || n > refs.len() {
        seq![]
    } else {
        let before = paths_among(refs, aliases, root, base_dir, n - 1);
        match resolved_reference(refs[n - 1], aliases, root, base_dir) {
            Ok(a) => if a.scheme == RefScheme::Builtin {
                before
            } else {
                before.push(a.address)
            },
            Err(_) => before,
        }
    }
}

/// The paths of the files that a document refers to: what is to be read before
/// it is validated.
pub fn needed_files(doc: &RequestDocument, aliases: &TextMap<String>, root: &str, base_dir: &str) -> (r: Vec<String>)
    ensures
        views(r@) == paths_among(
            document_refs(doc@),
            aliases@,
            root@,
            base_dir@,
            document_refs(doc@).len() as int,
        ),
{
    broadcast use group_views;

    let refs = references(doc);
    let ghost all = views(refs@);
    let mut out: Vec<String> = Vec::new();
    let mut i: usize = 0;
    while i < refs.len()
        invariant
            i <= refs.len(),
            all == views(refs@),
            views(out@) == paths_among(all, aliases@, root@, base_dir@, i as int),
        decreases refs.len() - i,
    {
        assert(all[i as int] == refs@[i as int]@);
        match resolve_reference(refs[i].as_str(), aliases, root, base_dir) {
            Located::Found(a) => {
                if a.scheme != RefScheme::Builtin {
                    out.push(a.address);
                }
            },
            Located::Missing(_) => {},
        }
        i += 1;
    }
    out
}

// ---------------------------------------------------------------------
// What a document is resolved with
// ---------------------------------------------------------------------

/// Where the first `n` references lead.
pub open spec fn assets_among(refs: Seq<Seq<char>>, project: ProjectV, base_dir: Seq<char>, n: int) -> Seq<
    (Seq<char>, Result<AssetV, DiagnosticV>),
>
    decreases n,
{
    if n <= 0 || n > refs.len() {
        seq![]
    } else {
        put(
            assets_among(refs, project, base_dir, n - 1),
            refs[n - 1],
            resolved_reference(refs[n - 1], project.aliases, project.root, base_dir),
        )
    }
}

/// The text of a file, or why it cannot be read.
pub open spec fn text_of_file(file: ScriptV) -> Result<Seq<char>, Seq<char>> {
    match file {
        ScriptV::Source(s) => Ok(s),
        ScriptV::Unreadable(e) => Err(e),
    }
}

/// The data that the first `n` references lead to.
pub open spec fn data_among(refs: Seq<Seq<char>>, project: ProjectV, base_dir: Seq<char>, n: int) -> Seq<
    (Seq<char>, Result<JsonV, DiagnosticV>),
>
    decreases n,
{
    if n <= 0 || n > refs.len() {
        seq![]
    } else {
        let before = data_among(refs, project, base_dir, n - 1);
        let raw = refs[n - 1];
        match resolved_reference(raw, project.aliases, project.root, base_dir) {
            Ok(a) => if a.scheme == RefScheme::Builtin {
                before
            } else {
                put(before, raw, data_at(raw, a.pointer, text_of_file(script_at(project.files, a.address))))
            },
            Err(_) => before,
        }
    }
}

/// What a document is resolved with.
pub open spec fn inputs_for(
    doc: DocumentV,
    project: ProjectV,
    base_dir: Seq<char>,
    env: JsonV,
    matrix: JsonV,
    runtime: JsonV,
) -> InputsV {
    let refs = document_refs(doc);
    InputsV {
        assets: assets_among(refs, project, base_dir, refs.len() as int),
        data: data_among(refs, project, base_dir, refs.len() as int),
        scripts: project.files,
        env,
        matrix,
        runtime,
        secrets: project.secrets,
        placeholder: project.placeholder,
    }
}

fn file_text(files: &TextMap<Script>, path: &str) -> (r: Result<String, String>)
    ensures
        text_of_file(script_at(files@, path@)) == match r {
            Ok(s) => Ok::<Seq<char>, Seq<char>>(s@),
            Err(e) => Err::<Seq<char>, Seq<char>>(e@),
        },
{
    match files.get(path) {
        Some(Script::Source(s)) => Ok(s.clone()),
        Some(Script::Unreadable(e)) => Err(e.clone()),
        None => Err("not loaded".to_owned()),
    }
}

/// Gather what a document is resolved with.
pub fn gather(
    doc: &RequestDocument,
    project: &Project,
    base_dir: &str,
    env: Json,
    matrix: Json,
    runtime: Json,
) -> (r: BuildInputs)
    ensures
        r@ == inputs_for(doc@, project@, base_dir@, env@, matrix@, runtime@),
{
    let refs = references(doc);
    let ghost all = views(refs@);
    let mut assets: TextMap<Located> = TextMap::new();
    let mut data = TextMap::new();
    let mut i: usize = 0;
    while i < refs.len()
        invariant
            i <= refs.len(),
            all == views(refs@),
            assets@ == assets_among(all, project@, base_dir@, i as int),
            data@ == data_among(all, project@, base_dir@, i as int),
        decreases refs.len() - i,
    {
        assert(all[i as int] == refs@[i as int]@);
        let raw = refs[i].as_str();
        let located = resolve_reference(raw, &project.aliases, project.root.as_str(), base_dir);
        if let Located::Found(a) = &located {
            if a.scheme != RefScheme::Builtin {
                let pointer = match &a.pointer {
                    Some(p) => Some(p.as_str()),
                    None => None,
                };
                let text = file_text(&project.files, a.address.as_str());
                let _ = data.insert(raw.to_owned(), read_data(raw, pointer, text));
            }
        }
        let _ = assets.insert(raw.to_owned(), located);
        i += 1;
    }
    BuildInputs {
        assets,
        data,
        scripts: project.files.copied(),
        env,
        matrix,
        runtime,
        secrets: project.secrets.copied(),
        placeholder: copy_opt(&project.placeholder),
    }
}

/// What a document stands for, with what it is resolved with: the request, or
/// every independent error.
pub open spec fn may_validate(doc: DocumentV, inputs: InputsV, outcome: Result<RequestV, Seq<DiagnosticV>>) -> bool {
    exists|b: BoundV| #[trigger] may_resolve(doc.bindings, inputs, b) && assembled(doc, inputs, b) == outcome
}

/// The outcome of a validation by its view.
pub open spec fn validated(r: Result<ResolvedRequest, Vec<Diagnostic>>) -> Result<RequestV, Seq<DiagnosticV>> {
    match r {
        Ok(ir) => Ok(ir@),
        Err(errors) => Err(views(errors@)),
    }
}

/// Take a document to the request it stands for, for one case of its matrix
/// and with what earlier requests have written. Nothing is sent.
pub fn validate_case(
    doc: &RequestDocument,
    project: &Project,
    base_dir: &str,
    env: Json,
    matrix: Json,
    runtime: Json,
) -> (r: Result<ResolvedRequest, Vec<Diagnostic>>)
    ensures
        may_validate(doc@, inputs_for(doc@, project@, base_dir@, env@, matrix@, runtime@), validated(r)),
{
    let inputs = gather(doc, project, base_dir, env, matrix, runtime);
    build_ir(doc, &inputs)
}

/// Take a document to the request it stands for, on its own.
pub fn validate(doc: &RequestDocument, project: &Project, base_dir: &str, env: Json) -> (r: Result<
    ResolvedRequest,
    Vec<Diagnostic>,
>)
    ensures
        may_validate(
            doc@,
            inputs_for(doc@, project@, base_dir@, env@, JsonV::Null, JsonV::Object(seq![])),
            validated(r),
        ),
{
    let nothing = Json::Object(Vec::new());
    proof {
        crate::json::lemma_json_view(nothing);
        assert(nothing@->Object_0 =~= seq![]);
    }
    validate_case(doc, project, base_dir, env, Json::Null, nothing)
}

// ---------------------------------------------------------------------
// Laws
// ---------------------------------------------------------------------

/// Every reference of a document is looked up before it is resolved.
pub proof fn lemma_every_reference_is_looked_up(
    doc: DocumentV,
    project: ProjectV,
    base_dir: Seq<char>,
    env: JsonV,
    matrix: JsonV,
    runtime: JsonV,
    i: int,
)
    requires
        0 <= i < document_refs(doc).len(),
    ensures
        ({
            let raw = document_refs(doc)[i];
            lookup(inputs_for(doc, project, base_dir, env, matrix, runtime).assets, raw) == Some(
                resolved_reference(raw, project.aliases, project.root, base_dir),
            )
        }),
{
    let refs = document_refs(doc);
    lemma_looked_up(refs, project, base_dir, refs.len() as int, i);
}

proof fn lemma_looked_up(refs: Seq<Seq<char>>, project: ProjectV, base_dir: Seq<char>, n: int, i: int)
    requires
        0 <= i < n <= refs.len(),
    ensures
        lookup(assets_among(refs, project, base_dir, n), refs[i]) == Some(
            resolved_reference(refs[i], project.aliases, project.root, base_dir),
        ),
    decreases n,
{
    let before = assets_among(refs, project, base_dir, n - 1);
    let last = resolved_reference(refs[n - 1], project.aliases, project.root, base_dir);
    if refs[n - 1] == refs[i] {
        lemma_put_is_read_back(before, refs[n - 1], last);
    } else {
        lemma_looked_up(refs, project, base_dir, n - 1, i);
        lemma_put_leaves_others(before, refs[n - 1], last, refs[i]);
    }
}

} // verus!
