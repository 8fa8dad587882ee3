//! What the commands list: workspaces, projects, gRPC methods and mock routes.

use vstd::prelude::*;
use vstd::utf8::encode_utf8;

use crate::cli::{
    asset_lines, diagnostic_lines, exit_code, list_assets, list_children, mock_path, placed_lines, put_diagnostics,
    put_line, put_placed, put_text, run_v1_code, statuses, tree_lines, worse, worst_of, AssetRow, AssetRowV, Line, LineV,
};
use crate::gui::assets::{BrokenRef, BrokenV, RequestEntry, RequestEntryV};
use crate::json::Json;
use crate::map::pairs_view;
use crate::protocols::GrpcResponse;
use crate::reqv1::diag::{Diagnostic, DiagnosticV};
use crate::reqv1::pipeline::{ResponseV, ResponseView};
use crate::reqv1::runner::{RunResult, RunStatus};
use crate::runner::resolve::{parse_address, path_in, url_parsed, url_path};
use crate::store::{depth_of, CollectionNode, CollectionV};
use crate::text::{cat2, cat3, cat4, cat5, same};
use crate::view::{opt_view, views};
use crate::words::{bytes_of, decimal, join, joined, number_text, quote, quoted, split_on};

verus! {

broadcast use vstd::string::group_string_axioms;

// ---------------------------------------------------------------------
// Workspaces
// ---------------------------------------------------------------------

/// The lines that list the first `n` collections: each by its name, and below
/// it what it holds.
pub open spec fn workspace_lines(cols: Seq<CollectionV>, n: int) -> Seq<Seq<char>>
    decreases n,
{
    if n <= 0 || n > cols.len() {
        seq![]
    } else {
        let col = cols[n - 1];
        workspace_lines(cols, n - 1) + seq![col.meta.name + "/"@] + tree_lines(
            col.children,
            1,
            col.children.len() as int,
        )
    }
}

/// List collections. Folders do not nest deeper than can be counted.
pub fn list_workspace(cols: &Vec<CollectionNode>) -> (r: Vec<String>)
    requires
        forall|i: int|
            0 <= i < cols@.len() ==> depth_of((#[trigger] cols@[i])@.children, cols@[i]@.children.len() as int)
                < usize::MAX,
    ensures
        views(r@) == workspace_lines(views(cols@), cols@.len() as int),
{
    let ghost all = views(cols@);
    let mut lines: Vec<String> = Vec::new();
    let mut i: usize = 0;
    assert(views(lines@) =~= seq![]);
    while i < cols.len()
        invariant
            i <= cols.len(),
            all == views(cols@),
            forall|i: int|
                0 <= i < cols@.len() ==> depth_of((#[trigger] cols@[i])@.children, cols@[i]@.children.len() as int)
                    < usize::MAX,
            views(lines@) == workspace_lines(all, i as int),
        decreases cols.len() - i,
    {
        assert(all[i as int] == cols@[i as int]@);
        put_text(&mut lines, cat2(cols[i].meta.name.as_str(), "/"));
        list_children(&cols[i].children, 1, &mut lines);
        i += 1;
    }
    lines
}

// ---------------------------------------------------------------------
// Projects
// ---------------------------------------------------------------------

/// The lines that list the first `n` requests.
pub open spec fn request_lines(requests: Seq<RequestEntryV>, n: int) -> Seq<LineV>
    decreases n,
{
    if n <= 0 || n > requests.len() {
        seq![]
    } else {
        let r = requests[n - 1];
        request_lines(requests, n - 1) + seq![
            LineV::Out("  "@ + r.id + "  ("@ + r.rel_path + ", "@ + decimal(r.refs.len()) + " ref(s))"@),
        ]
    }
}

/// The lines about the first `n` references that lead nowhere.
pub open spec fn broken_notes(broken: Seq<BrokenV>, n: int) -> Seq<LineV>
    decreases n,
{
    if n <= 0 || n > broken.len() {
        seq![]
    } else {
        let b = broken[n - 1];
        broken_notes(broken, n - 1) + seq![
            LineV::Note("  "@ + b.request + " "@ + b.instance_path + " "@ + quoted(b.reference) + ": "@ + b.message),
        ]
    }
}

/// Lines on standard output.
pub open spec fn on_output(lines: Seq<Seq<char>>) -> Seq<LineV> {
    Seq::new(lines.len(), |i: int| LineV::Out(lines[i]))
}

/// What is printed about a project: its assets, requests and environments, and
/// the references that lead nowhere. A part that is empty is left out.
pub open spec fn index_lines(
    assets: Seq<AssetRowV>,
    requests: Seq<RequestEntryV>,
    environments: Seq<Seq<char>>,
    broken: Seq<BrokenV>,
) -> Seq<LineV> {
    on_output(asset_lines(assets, assets.len() as int)) + (if requests.len() == 0 {
        seq![]
    } else {
        seq![LineV::Out("requests:"@)] + request_lines(requests, requests.len() as int)
    }) + (if environments.len() == 0 {
        seq![]
    } else {
        seq![LineV::Out("environments: "@ + joined(environments, ", "@))]
    }) + (if broken.len() == 0 {
        seq![]
    } else {
        seq![LineV::Note("broken refs:"@)] + broken_notes(broken, broken.len() as int)
    })
}

fn put_output(lines: &mut Vec<Line>, texts: Vec<String>)
    ensures
        views(final(lines)@) == views(old(lines)@) + on_output(views(texts@)),
{
    let ghost start = views(lines@);
    let ghost all = views(texts@);
    let ghost shown = on_output(all);
    let mut i: usize = 0;
    assert(start + shown.take(0) =~= start);
    while i < texts.len()
        invariant
            i <= texts.len(),
            all == views(texts@),
            shown == on_output(all),
            views(lines@) == start + shown.take(i as int),
        decreases texts.len() - i,
    {
        assert(all[i as int] == texts@[i as int]@);
        put_line(lines, Line::Out(texts[i].clone()));
        assert(shown.take(i + 1) =~= shown.take(i as int) + seq![shown[i as int]]);
        assert(start + shown.take(i + 1) =~= start + shown.take(i as int) + seq![shown[i as int]]);
        i += 1;
    }
    assert(shown.take(i as int) =~= shown);
}

fn put_requests(lines: &mut Vec<Line>, requests: &Vec<RequestEntry>)
    ensures
        views(final(lines)@) == views(old(lines)@) + request_lines(views(requests@), requests@.len() as int),
{
    let ghost start = views(lines@);
    let ghost all = views(requests@);
    let mut i: usize = 0;
    assert(start + Seq::<LineV>::empty() =~= start);
    while i < requests.len()
        invariant
            i <= requests.len(),
            all == views(requests@),
            views(lines@) == start + request_lines(all, i as int),
        decreases requests.len() - i,
    {
        let r = &requests[i];
        assert(all[i as int] == r@);
        let mut text = cat5("  ", r.id.as_str(), "  (", r.rel_path.as_str(), ", ");
        text.append(number_text(r.refs.len() as u64).as_str());
        text.append(" ref(s))");
        let ghost before = request_lines(all, i as int);
        let ghost view = LineV::Out(text@);
        put_line(lines, Line::Out(text));
        assert(start + before + seq![view] =~= start + (before + seq![view]));
        i += 1;
    }
}

fn put_broken(lines: &mut Vec<Line>, broken: &Vec<BrokenRef>)
    ensures
        views(final(lines)@) == views(old(lines)@) + broken_notes(views(broken@), broken@.len() as int),
{
    let ghost start = views(lines@);
    let ghost all = views(broken@);
    let mut i: usize = 0;
    assert(start + Seq::<LineV>::empty() =~= start);
    while i < broken.len()
        invariant
            i <= broken.len(),
            all == views(broken@),
            views(lines@) == start + broken_notes(all, i as int),
        decreases broken.len() - i,
    {
        let b = &broken[i];
        assert(all[i as int] == b@);
        let mut text = cat5("  ", b.request.as_str(), " ", b.instance_path.as_str(), " ");
        text.append(quote(b.reference.as_str()).as_str());
        text.append(": ");
        text.append(b.message.as_str());
        let ghost before = broken_notes(all, i as int);
        let ghost view = LineV::Note(text@);
        put_line(lines, Line::Note(text));
        assert(start + before + seq![view] =~= start + (before + seq![view]));
        i += 1;
    }
}

/// What is printed about a project, and the exit code: one where a reference
/// leads nowhere.
pub fn list_index(
    assets: &Vec<AssetRow>,
    requests: &Vec<RequestEntry>,
    environments: &Vec<String>,
    broken: &Vec<BrokenRef>,
) -> (r: (Vec<Line>, i32))
    ensures
        views(r.0@) == index_lines(views(assets@), views(requests@), views(environments@), views(broken@)),
        r.1 == if broken@.len() == 0 {
            0i32
        } else {
            1i32
        },
{
    let mut lines: Vec<Line> = Vec::new();
    assert(views(lines@) =~= seq![]);
    put_output(&mut lines, list_assets(assets));
    let ghost first = on_output(asset_lines(views(assets@), assets@.len() as int));
    assert(views(lines@) =~= first);
    if requests.len() > 0 {
        put_line(&mut lines, Line::Out("requests:".to_owned()));
        put_requests(&mut lines, requests);
        assert(views(lines@) =~= first + (seq![LineV::Out("requests:"@)] + request_lines(
            views(requests@),
            requests@.len() as int,
        )));
    } else {
        assert(views(lines@) =~= first + Seq::<LineV>::empty());
    }
    let ghost second = views(lines@);
    if environments.len() > 0 {
        put_line(&mut lines, Line::Out(cat2("environments: ", join(environments, ", ").as_str())));
    } else {
        assert(views(lines@) =~= second + Seq::<LineV>::empty());
    }
    let ghost third = views(lines@);
    if broken.len() > 0 {
        put_line(&mut lines, Line::Note("broken refs:".to_owned()));
        put_broken(&mut lines, broken);
        assert(views(lines@) =~= third + (seq![LineV::Note("broken refs:"@)] + broken_notes(
            views(broken@),
            broken@.len() as int,
        )));
        (lines, 1)
    } else {
        assert(views(lines@) =~= third + Seq::<LineV>::empty());
        (lines, 0)
    }
}

// ---------------------------------------------------------------------
// The lock file
// ---------------------------------------------------------------------

/// What keeps a frozen run from starting: what has drifted from the lock file,
/// or why that cannot be told. Nothing where nothing has drifted.
pub open spec fn frozen_lines(checked: Result<Seq<DiagnosticV>, Seq<char>>) -> Seq<LineV> {
    match checked {
        Ok(drifts) => if drifts.len() == 0 {
            seq![]
        } else {
            diagnostic_lines(drifts, drifts.len() as int) + seq![
                LineV::Note("error: --frozen and the project drifted from .forge/lock.json"@),
            ]
        },
        Err(message) => seq![LineV::Note("error: --frozen: "@ + message)],
    }
}

/// Whether a frozen run may start; where it may not, what is printed.
pub fn check_frozen(checked: &Result<Vec<Diagnostic>, Diagnostic>) -> (r: Result<(), Vec<Line>>)
    ensures
        ({
            let said = frozen_lines(drift_view(*checked));
            &&& r is Ok <==> said.len() == 0
            &&& r is Ok <==> (checked matches Ok(drifts) && drifts@.len() == 0)
            &&& r is Err ==> views(r->Err_0@) == said
        }),
{
    let mut lines: Vec<Line> = Vec::new();
    assert(views(lines@) =~= seq![]);
    match checked {
        Ok(drifts) => {
            if drifts.len() == 0 {
                return Ok(());
            }
            put_diagnostics(&mut lines, drifts);
            put_line(
                &mut lines,
                Line::Note("error: --frozen and the project drifted from .forge/lock.json".to_owned()),
            );
            assert(views(lines@) =~= frozen_lines(Ok(views(drifts@))));
        },
        Err(d) => {
            put_line(&mut lines, Line::Note(cat2("error: --frozen: ", d.message.as_str())));
            assert(views(lines@) =~= frozen_lines(Err(d@.message)));
        },
    }
    Err(lines)
}

/// What keeps a run of documents from starting, in the order in which it is
/// looked at: the lock file, where the run is frozen, the environment, the
/// document, and the cases of its matrix. Nothing where all are in order.
pub open spec fn refusal(
    frozen: Option<Result<Seq<DiagnosticV>, Seq<char>>>,
    env: Option<Seq<char>>,
    doc: Option<Seq<char>>,
    cases: Option<Seq<DiagnosticV>>,
) -> Option<Seq<LineV>> {
    if frozen is Some && frozen_lines(frozen->Some_0).len() > 0 {
        Some(frozen_lines(frozen->Some_0))
    } else {
        match (env, doc, cases) {
            (Some(e), _, _) => Some(seq![LineV::Note("error: "@ + e)]),
            (None, Some(e), _) => Some(seq![LineV::Note("error: "@ + e)]),
            (None, None, Some(list)) => Some(placed_lines(list, list.len() as int)),
            (None, None, None) => None,
        }
    }
}

/// The drifts from a lock file, or why they cannot be told, by their views.
pub open spec fn drift_view(checked: Result<Vec<Diagnostic>, Diagnostic>) -> Result<Seq<DiagnosticV>, Seq<char>> {
    match checked {
        Ok(drifts) => Ok(views(drifts@)),
        Err(d) => Err(d@.message),
    }
}

/// The lock file, where it was looked at, has no drifts.
pub open spec fn lock_holds(frozen: Option<Result<Vec<Diagnostic>, Diagnostic>>) -> bool {
    frozen matches Some(checked) ==> (checked matches Ok(drifts) && drifts@.len() == 0)
}

/// Whether a run of documents may start: the lock file was not asked for or
/// has no drifts, and the environment, the document and the cases of its matrix
/// are in order. Where it may not, nothing is sent; what is printed then, and
/// the exit code, two.
pub fn run_v1_start(
    frozen: Option<Result<Vec<Diagnostic>, Diagnostic>>,
    env: &Result<Json, Diagnostic>,
    doc: &Result<(), String>,
    cases: &Result<Vec<Json>, Vec<Diagnostic>>,
) -> (r: Result<(), (Vec<Line>, i32)>)
    ensures
        r is Ok <==> lock_holds(frozen) && env is Ok && doc is Ok && cases is Ok,
        r matches Err((_, code)) ==> code == 2,
        match r {
            Ok(()) => None,
            Err((lines, _)) => Some(views(lines@)),
        } == refusal(
            match frozen {
                Some(checked) => Some(drift_view(checked)),
                None => None,
            },
            match env {
                Err(d) => Some(d@.message),
                Ok(_) => None,
            },
            match doc {
                Err(e) => Some(e@),
                Ok(_) => None,
            },
            match cases {
                Err(list) => Some(views(list@)),
                Ok(_) => None,
            },
        ),
{
    if let Some(checked) = &frozen {
        if let Err(lines) = check_frozen(checked) {
            return Err((lines, 2));
        }
    }
    let mut lines: Vec<Line> = Vec::new();
    assert(views(lines@) =~= seq![]);
    match (env, doc, cases) {
        (Err(d), _, _) => {
            put_line(&mut lines, Line::Note(cat2("error: ", d.message.as_str())));
            assert(views(lines@) =~= seq![LineV::Note("error: "@ + d@.message)]);
        },
        (Ok(_), Err(e), _) => {
            put_line(&mut lines, Line::Note(cat2("error: ", e.as_str())));
            assert(views(lines@) =~= seq![LineV::Note("error: "@ + e@)]);
        },
        (Ok(_), Ok(_), Err(list)) => {
            put_placed(&mut lines, list);
            assert(views(lines@) =~= placed_lines(views(list@), list@.len() as int));
        },
        (Ok(_), Ok(_), Ok(_)) => {
            return Ok(());
        },
    }
    Err((lines, 2))
}

/// The exit code of a run of documents that was refused, or of its endings.
pub open spec fn run_v1_exit_code(refused: bool, endings: Seq<RunStatus>) -> i32 {
    if refused {
        2
    } else {
        exit_code(worst_of(endings))
    }
}

/// The exit code of a run of documents: two where it could not start, else that
/// of its worst ending.
pub fn run_v1_exit(start: &Result<(), (Vec<Line>, i32)>, results: &Vec<RunResult>) -> (r: i32)
    ensures
        r == run_v1_exit_code(start is Err, statuses(results@)),
{
    match start {
        Err(_) => 2,
        Ok(()) => run_v1_code(results),
    }
}

/// One of the results ended so.
pub open spec fn ends_so(endings: Seq<RunStatus>, s: RunStatus) -> bool {
    exists|i: int| 0 <= i < endings.len() && #[trigger] endings[i] == s
}

/// The exit code of a run of documents is two exactly if the run could not
/// start or met an error, one exactly if it started, met no error and a result
/// failed, and zero exactly if it started and every result passed. So the order
/// of the results does not count.
pub proof fn lemma_run_v1_exit_tells(refused: bool, endings: Seq<RunStatus>)
    ensures
        ({
            let code = run_v1_exit_code(refused, endings);
            let erred = ends_so(endings, RunStatus::Error);
            let failed = ends_so(endings, RunStatus::Failed);
            &&& code == 2 <==> refused || erred
            &&& code == 1 <==> !refused && !erred && failed
            &&& code == 0 <==> !refused && !erred && !failed
        }),
    decreases endings.len(),
{
    if endings.len() > 0 {
        let rest = endings.drop_last();
        lemma_run_v1_exit_tells(refused, rest);
        let last = endings.last();
        lemma_ending_among(endings, RunStatus::Error);
        lemma_ending_among(endings, RunStatus::Failed);
        lemma_ending_among(endings, RunStatus::Passed);
        assert(worst_of(endings) == worse(worst_of(rest), last));
    }
}

proof fn lemma_ending_among(endings: Seq<RunStatus>, s: RunStatus)
    requires
        endings.len() > 0,
    ensures
        ends_so(endings, s) == (endings.last() == s || ends_so(endings.drop_last(), s)),
{
    let rest = endings.drop_last();
    assert(endings[endings.len() - 1] == endings.last());
    if ends_so(rest, s) {
        let i = choose|i: int| 0 <= i < rest.len() && #[trigger] rest[i] == s;
        assert(endings[i] == s);
    }
    if ends_so(endings, s) {
        let i = choose|i: int| 0 <= i < endings.len() && #[trigger] endings[i] == s;
        if i < rest.len() {
            assert(rest[i] == s);
        }
    }
}

/// What is printed once a lock file with `n` assets was written, or could not
/// be, and the exit code.
pub fn describe_lock_written(outcome: &Result<usize, Diagnostic>) -> (r: (Line, i32))
    ensures
        match outcome {
            Ok(n) => r.0@ == LineV::Out("wrote .forge/lock.json ("@ + decimal(*n as nat) + " asset(s))"@) && r.1 == 0,
            Err(d) => r.0@ == LineV::Note("error: "@ + d@.message) && r.1 == 2,
        },
{
    match outcome {
        Ok(n) => (Line::Out(cat3("wrote .forge/lock.json (", number_text(*n as u64).as_str(), " asset(s))")), 0),
        Err(d) => (Line::Note(cat2("error: ", d.message.as_str())), 2),
    }
}

// ---------------------------------------------------------------------
// gRPC
// ---------------------------------------------------------------------

/// A method of a gRPC service.
#[derive(Debug)]
pub struct MethodInfo {
    pub path: String,
    pub input_type: String,
    pub output_type: String,
    pub is_unary: bool,
}

/// The line that lists a method.
pub fn describe_method(m: &MethodInfo) -> (r: String)
    ensures
        r@ == m.path@ + "  "@ + m.input_type@ + " -> "@ + m.output_type@ + (if m.is_unary {
            "  [unary]"@
        } else {
            "  [streaming]"@
        }),
{
    let mut text = cat5(m.path.as_str(), "  ", m.input_type.as_str(), " -> ", m.output_type.as_str());
    text.append(
        if m.is_unary {
            "  [unary]"
        } else {
            "  [streaming]"
        },
    );
    text
}

/// The lines about the metadata of a response.
pub open spec fn metadata_notes(metadata: Seq<(Seq<char>, Seq<char>)>) -> Seq<LineV> {
    Seq::new(metadata.len(), |i: int| LineV::Note("# "@ + metadata[i].0 + ": "@ + metadata[i].1))
}

/// What is printed about a call, and the exit code: the messages and the
/// metadata, or the error.
pub fn describe_call(outcome: &Result<GrpcResponse, String>) -> (r: (Vec<Line>, i32))
    ensures
        match outcome {
            Ok(response) => views(r.0@) == on_output(views(response.messages@)) + metadata_notes(
                pairs_view(response.metadata@),
            ) && r.1 == 0,
            Err(e) => views(r.0@) == seq![LineV::Note("error: "@ + e@)] && r.1 == 1,
        },
{
    let mut lines: Vec<Line> = Vec::new();
    assert(views(lines@) =~= seq![]);
    match outcome {
        Err(e) => {
            put_line(&mut lines, Line::Note(cat2("error: ", e.as_str())));
            assert(views(lines@) =~= seq![LineV::Note("error: "@ + e@)]);
            (lines, 1)
        },
        Ok(response) => {
            let ghost texts = views(response.messages@);
            let ghost shown = on_output(texts);
            let ghost pairs = pairs_view(response.metadata@);
            let ghost notes = metadata_notes(pairs);
            let mut i: usize = 0;
            assert(views(lines@) =~= shown.take(0));
            while i < response.messages.len()
                invariant
                    i <= response.messages.len(),
                    texts == views(response.messages@),
                    shown == on_output(texts),
                    views(lines@) == shown.take(i as int),
                decreases response.messages.len() - i,
            {
                assert(texts[i as int] == response.messages@[i as int]@);
                put_line(&mut lines, Line::Out(response.messages[i].clone()));
                assert(shown.take(i + 1) =~= shown.take(i as int) + seq![shown[i as int]]);
                i += 1;
            }
            assert(shown.take(i as int) =~= shown);
            let mut j: usize = 0;
            assert(shown + notes.take(0) =~= shown);
            while j < response.metadata.len()
                invariant
                    j <= response.metadata.len(),
                    pairs == pairs_view(response.metadata@),
                    notes == metadata_notes(pairs),
                    views(lines@) == shown + notes.take(j as int),
                decreases response.metadata.len() - j,
            {
                let text = cat4("# ", response.metadata[j].0.as_str(), ": ", response.metadata[j].1.as_str());
                assert(notes[j as int] == LineV::Note(text@));
                put_line(&mut lines, Line::Note(text));
                assert(shown + notes.take(j + 1) =~= shown + notes.take(j as int) + seq![notes[j as int]]);
                j += 1;
            }
            assert(notes.take(j as int) =~= notes);
            (lines, 0)
        },
    }
}

// ---------------------------------------------------------------------
// Mocks
// ---------------------------------------------------------------------

/// A method and path that a mock answers.
#[derive(Debug)]
pub struct Route {
    pub method: String,
    pub path: String,
    /// The request that owns the mock.
    pub id: String,
}

/// What a [`Route`] says.
pub struct RouteV {
    pub method: Seq<char>,
    pub path: Seq<char>,
    pub id: Seq<char>,
}

impl View for Route {
    type V = RouteV;

    open spec fn view(&self) -> RouteV {
        RouteV { method: self.method@, path: self.path@, id: self.id@ }
    }
}

/// The line that lists a route.
pub fn describe_route(route: &Route) -> (r: String)
    ensures
        r@ == "  "@ + route@.method + " "@ + route@.path + "  → "@ + route@.id,
{
    let mut text = cat5("  ", route.method.as_str(), " ", route.path.as_str(), "  → ");
    text.append(route.id.as_str());
    text
}

/// The path that a mock with this URL answers: the path of the URL, or, where
/// it is none, what stands before its query.
pub open spec fn mocked_path(url: Seq<char>) -> Seq<char> {
    match url_parsed(url) {
        Ok((text, _)) => url_path(text),
        Err(_) => split_on(url, '?')[0],
    }
}

/// The path that a mock with this URL answers.
pub fn route_path(url: &str) -> (r: String)
    ensures
        r@ == mocked_path(url@),
{
    match parse_address(url) {
        Ok(u) => path_in(&u),
        Err(_) => mock_path(url),
    }
}

/// A route answers a request with its method and path.
pub open spec fn answers(route: RouteV, method: Seq<char>, path: Seq<char>) -> bool {
    route.method == method && route.path == path
}

/// The first route that answers a request.
pub fn find_route(routes: &Vec<Route>, method: &str, path: &str) -> (r: Option<usize>)
    ensures
        match r {
            Some(i) => i < routes@.len() && answers(routes@[i as int]@, method@, path@) && forall|k: int|
                0 <= k < i ==> !answers((#[trigger] routes@[k])@, method@, path@),
            None => forall|k: int| 0 <= k < routes@.len() ==> !answers((#[trigger] routes@[k])@, method@, path@),
        },
{
    let mut i: usize = 0;
    while i < routes.len()
        invariant
            i <= routes.len(),
            forall|k: int| 0 <= k < i ==> !answers((#[trigger] routes@[k])@, method@, path@),
        decreases routes.len() - i,
    {
        if same(routes[i].method.as_str(), method) && same(routes[i].path.as_str(), path) {
            return Some(i);
        }
        i += 1;
    }
    None
}

/// A text as an answer.
pub open spec fn text_answer(status: u16, text: Seq<char>) -> ResponseV {
    ResponseV {
        status,
        headers: seq![("Content-Type"@, "text/plain; charset=UTF-8"@)],
        body: encode_utf8(text),
        time_ms: 0,
    }
}

/// What a mock server sends back: what the mock of the route gives, that there
/// is no route, or what went wrong.
pub open spec fn mock_answer(served: Result<Option<ResponseV>, Seq<char>>) -> ResponseV {
    match served {
        Ok(Some(response)) => response,
        Ok(None) => text_answer(404, "no mock route"@),
        Err(message) => text_answer(500, message),
    }
}

fn plain_answer(status: u16, text: &str) -> (r: ResponseView)
    ensures
        r@ == text_answer(status, text@),
{
    let mut headers: Vec<(String, String)> = Vec::new();
    headers.push(("Content-Type".to_owned(), "text/plain; charset=UTF-8".to_owned()));
    let r = ResponseView { status, headers, body: bytes_of(text), time_ms: 0 };
    assert(r@.headers =~= text_answer(status, text@).headers);
    r
}

/// What a mock server sends back.
pub fn mock_reply(served: Result<Option<ResponseView>, String>) -> (r: ResponseView)
    ensures
        r@ == mock_answer(
            match served {
                Ok(response) => Ok(opt_view(response)),
                Err(message) => Err(message@),
            },
        ),
{
    match served {
        Ok(Some(response)) => response,
        Ok(None) => plain_answer(404, "no mock route"),
        Err(message) => plain_answer(500, message.as_str()),
    }
}

} // verus!
