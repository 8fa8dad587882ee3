//! The editor of request documents.

use vstd::prelude::*;
use vstd::utf8::encode_utf8;

use crate::gui::assets::{
    can_shorten, cut_at, cut_point, cuttable, line_of, shorten, shortened, value_line, AssetEntry, AssetKind,
    ProjectIndex,
};
use crate::json::{print, printed, Json};
use crate::reqv1::diag::{Diagnostic, DiagnosticV};
use crate::reqv1::ir::{RequestV, ResolvedRequest};
use crate::reqv1::pipeline::{AssertionResult, AssertionV};
use crate::reqv1::runner::{RunResult, RunResultV, RunStatus};
use crate::runner::resolve::{file_name, file_name_of, joined_path, resolve_body_path};
use crate::text::{cat2, cat3, cat4, cat5, chars_of, text_between};
use crate::view::{copy_opt, group_views, opt_or, opt_view, views};
use crate::words::{bytes_of, decimal, number_text};

verus! {

broadcast use vstd::string::group_string_axioms;

/// How an asset is written in a request document.
pub open spec fn snippet(kind: AssetKind, base_ref: Seq<char>) -> Seq<char> {
    match kind {
        AssetKind::Data => "{ \"ref\": \""@ + base_ref + "\" }"@,
        AssetKind::Generator | AssetKind::Mock => "{ \"use\": \""@ + base_ref + "\", \"with\": {} }"@,
        AssetKind::Hook => "{ \"phase\": \"beforeRequest\", \"use\": \""@ + base_ref + "\", \"with\": {} }"@,
        AssetKind::Assertion | AssetKind::Extractor => "{ \"phase\": \"afterResponse\", \"use\": \""@ + base_ref
            + "\", \"with\": {} }"@,
        AssetKind::Executable => "\""@ + base_ref + "\""@,
    }
}

/// How an asset is written in a request document: a binding for data, a
/// pipeline entry for what runs.
pub fn snippet_for(asset: &AssetEntry, base_ref: &str) -> (r: String)
    ensures
        r@ == snippet(asset.kind, base_ref@),
{
    match asset.kind {
        AssetKind::Data => cat3("{ \"ref\": \"", base_ref, "\" }"),
        AssetKind::Generator | AssetKind::Mock => cat3("{ \"use\": \"", base_ref, "\", \"with\": {} }"),
        AssetKind::Hook => cat3(
            "{ \"phase\": \"beforeRequest\", \"use\": \"",
            base_ref,
            "\", \"with\": {} }",
        ),
        AssetKind::Assertion | AssetKind::Extractor => cat3(
            "{ \"phase\": \"afterResponse\", \"use\": \"",
            base_ref,
            "\", \"with\": {} }",
        ),
        AssetKind::Executable => cat3("\"", base_ref, "\""),
    }
}

/// A value in one short line. A long text has to have a character end at its
/// twenty-ninth byte.
pub fn short(v: &Json) -> (r: String)
    requires
        can_shorten(value_line(v@), 30),
    ensures
        r@ == shortened(value_line(v@), 30),
{
    shorten(line_of(v).as_str(), 30)
}

/// A value in one short line, or nothing where a long text cannot be cut.
pub fn try_short(v: &Json) -> (r: Option<String>)
    ensures
        opt_view(r) == if can_shorten(value_line(v@), 30) {
            Some(shortened(value_line(v@), 30))
        } else {
            None
        },
{
    if cuttable(line_of(v).as_str(), 30) {
        Some(short(v))
    } else {
        None
    }
}

/// The number of bytes before the `index`-th character of a text; all of them
/// where there is no such character.
pub fn byte_offset(text: &str, index: usize) -> (r: usize)
    ensures
        r == if index < text@.len() {
            encode_utf8(text@.take(index as int)).len()
        } else {
            encode_utf8(text@).len()
        },
{
    let chars = chars_of(text);
    if index < chars.len() {
        let head = text_between(&chars, 0, index);
        assert(head@ =~= text@.take(index as int));
        bytes_of(head.as_str()).len()
    } else {
        bytes_of(text).len()
    }
}

/// The state of the editor.
#[derive(Debug)]
pub struct V1EditorState {
    pub open: bool,
    pub file: Option<String>,
    pub root: Option<String>,
    pub text: String,
    pub dirty: bool,
    pub index: Option<ProjectIndex>,
    /// The assets that are unfolded, by their paths.
    pub expanded: Vec<String>,
    /// The number of bytes before the cursor.
    pub cursor: usize,
    pub env_name: Option<String>,
    pub mock: bool,
    pub next_run_id: u64,
    pub active_run: Option<u64>,
    pub in_flight: bool,
    pub diagnostics: Vec<String>,
    pub result: Option<RunResult>,
}

/// The document that a new request begins with.
pub open spec fn skeleton_text() -> Seq<char> {
    r#"{
  "formatVersion": 1,
  "kind": "request",
  "meta": { "id": "new.request", "name": "New request" },
  "bindings": {
  },
  "request": {
    "method": "GET",
    "url": "${env.baseUrl}/",
    "headers": []
  },
  "pipeline": [
    { "phase": "afterResponse", "use": "builtin:assert-status@1", "with": { "expected": 200 } }
  ]
}
"#@
}

/// The document that a new request begins with.
pub fn skeleton() -> (r: String)
    ensures
        r@ == skeleton_text(),
{
    r#"{
  "formatVersion": 1,
  "kind": "request",
  "meta": { "id": "new.request", "name": "New request" },
  "bindings": {
  },
  "request": {
    "method": "GET",
    "url": "${env.baseUrl}/",
    "headers": []
  },
  "pipeline": [
    { "phase": "afterResponse", "use": "builtin:assert-status@1", "with": { "expected": 200 } }
  ]
}
"#.to_owned()
}

/// A run that the editor asks for.
#[derive(Debug)]
pub struct RunRequest {
    pub run_id: u64,
    pub root: String,
    pub file: String,
    pub text: String,
    pub env_name: Option<String>,
    pub mock: bool,
}

impl V1EditorState {
    /// The editor at the start of the program.
    pub fn new() -> (r: V1EditorState)
        ensures
            !r.open,
            r.file is None,
            r.root is None,
            r.text@.len() == 0,
            !r.dirty,
            r.index is None,
            r.expanded@.len() == 0,
            r.cursor == 0,
            r.env_name is None,
            !r.mock,
            r.next_run_id == 0,
            r.active_run is None,
            !r.in_flight,
            r.diagnostics@.len() == 0,
            r.result is None,
    {
        V1EditorState {
            open: false,
            file: None,
            root: None,
            text: String::new(),
            dirty: false,
            index: None,
            expanded: Vec::new(),
            cursor: 0,
            env_name: None,
            mock: false,
            next_run_id: 0,
            active_run: None,
            in_flight: false,
            diagnostics: Vec::new(),
            result: None,
        }
    }

    /// Open a document: its text is not changed yet, and nothing was run.
    pub fn open_file(
        &mut self,
        file: String,
        text: String,
        root: String,
        active_env: Option<String>,
        index: Option<ProjectIndex>,
    )
        ensures
            final(self).open,
            final(self).file == Some(file),
            final(self).text == text,
            final(self).root == Some(root),
            final(self).env_name == active_env,
            final(self).index == index,
            !final(self).dirty,
            final(self).result is None,
            final(self).diagnostics@.len() == 0,
            final(self).expanded == old(self).expanded,
            final(self).cursor == old(self).cursor,
            final(self).mock == old(self).mock,
            final(self).next_run_id == old(self).next_run_id,
            final(self).active_run == old(self).active_run,
            final(self).in_flight == old(self).in_flight,
    {
        self.text = text;
        self.root = Some(root);
        self.env_name = active_env;
        self.index = index;
        self.file = Some(file);
        self.dirty = false;
        self.result = None;
        self.diagnostics = Vec::new();
        self.open = true;
    }

    /// Open a new document, which is still to be saved.
    pub fn open_new(&mut self, root: String, active_env: Option<String>, index: Option<ProjectIndex>)
        ensures
            final(self).open,
            final(self).file is None,
            final(self).text@ == skeleton_text(),
            final(self).root == Some(root),
            final(self).env_name == active_env,
            final(self).index == index,
            final(self).dirty,
            final(self).result is None,
            final(self).diagnostics@.len() == 0,
            final(self).expanded == old(self).expanded,
            final(self).cursor == old(self).cursor,
            final(self).mock == old(self).mock,
            final(self).next_run_id == old(self).next_run_id,
            final(self).active_run == old(self).active_run,
            final(self).in_flight == old(self).in_flight,
    {
        self.text = skeleton();
        self.root = Some(root);
        self.env_name = active_env;
        self.index = index;
        self.file = None;
        self.dirty = true;
        self.result = None;
        self.diagnostics = Vec::new();
        self.open = true;
    }

    /// Take over the outcome of a run. That of another run than the current
    /// one changes nothing.
    pub fn handle_result(&mut self, run_id: u64, result: Result<RunResult, String>)
        ensures
            old(self).active_run != Some(run_id) ==> *final(self) == *old(self),
            old(self).active_run == Some(run_id) ==> {
                &&& !final(self).in_flight
                &&& final(self).active_run is None
                &&& match result {
                    Ok(r) => final(self).result == Some(r) && final(self).diagnostics == old(self).diagnostics,
                    Err(e) => final(self).result == old(self).result && views(final(self).diagnostics@) == seq![e@],
                }
                &&& final(self).text == old(self).text
                &&& final(self).file == old(self).file
                &&& final(self).dirty == old(self).dirty
                &&& final(self).next_run_id == old(self).next_run_id
                &&& final(self).open == old(self).open
                &&& final(self).root == old(self).root
                &&& final(self).index == old(self).index
                &&& final(self).expanded == old(self).expanded
                &&& final(self).cursor == old(self).cursor
                &&& final(self).env_name == old(self).env_name
                &&& final(self).mock == old(self).mock
            },
    {
        let current = match self.active_run {
            Some(id) => id == run_id,
            None => false,
        };
        if !current {
            return;
        }
        self.in_flight = false;
        self.active_run = None;
        match result {
            Ok(r) => {
                self.result = Some(r);
            },
            Err(e) => {
                let ghost text = e@;
                let mut list: Vec<String> = Vec::new();
                list.push(e);
                assert(views(list@) =~= seq![text]);
                self.diagnostics = list;
            },
        }
    }

    /// Ask for a run of the text as it stands. An unsaved document is given a
    /// name below the root. Nothing is run without a root.
    pub fn run_now(&mut self) -> (r: Option<RunRequest>)
        requires
            old(self).next_run_id < u64::MAX,
        ensures
            final(self).text == old(self).text,
            final(self).file == old(self).file,
            final(self).root == old(self).root,
            final(self).dirty == old(self).dirty,
            final(self).open == old(self).open,
            final(self).index == old(self).index,
            final(self).expanded == old(self).expanded,
            final(self).cursor == old(self).cursor,
            final(self).env_name == old(self).env_name,
            final(self).mock == old(self).mock,
            match old(self).root {
                None => r is None && *final(self) == *old(self),
                Some(root) => {
                    &&& r is Some
                    &&& r->Some_0.run_id == old(self).next_run_id
                    &&& r->Some_0.root@ == root@
                    &&& r->Some_0.file@ == match old(self).file {
                        Some(f) => f@,
                        None => joined_path(root@, "__unsaved__.request.json"@),
                    }
                    &&& r->Some_0.text@ == old(self).text@
                    &&& opt_view(r->Some_0.env_name) == opt_view(old(self).env_name)
                    &&& r->Some_0.mock == old(self).mock
                    &&& final(self).next_run_id == old(self).next_run_id + 1
                    &&& final(self).active_run == Some(old(self).next_run_id)
                    &&& final(self).in_flight
                    &&& final(self).result is None
                    &&& final(self).diagnostics@.len() == 0
                },
            },
    {
        let root = match &self.root {
            None => {
                return None;
            },
            Some(root) => root.clone(),
        };
        let file = match &self.file {
            Some(f) => f.clone(),
            None => resolve_body_path(root.as_str(), "__unsaved__.request.json"),
        };
        let run_id: u64 = self.next_run_id;
        self.next_run_id = run_id + 1;
        self.active_run = Some(run_id);
        self.in_flight = true;
        self.result = None;
        self.diagnostics = Vec::new();
        Some(
            RunRequest {
                run_id,
                root,
                file,
                text: self.text.clone(),
                env_name: copy_opt(&self.env_name),
                mock: self.mock,
            },
        )
    }

    /// Where a snippet goes: at the cursor, or at the end where the cursor is
    /// beyond it, as a number of bytes.
    pub open spec fn insertion(&self) -> nat {
        let end = encode_utf8(self.text@).len();
        if self.cursor <= end {
            self.cursor as nat
        } else {
            end
        }
    }

    /// Whether a character ends where a snippet would go.
    pub fn can_insert(&self) -> (r: bool)
        ensures
            r == cut_point(self.text@, self.insertion(), 0) is Some,
    {
        let end: usize = bytes_of(self.text.as_str()).len();
        let at: usize = if self.cursor <= end {
            self.cursor
        } else {
            end
        };
        cut_at(self.text.as_str(), at).is_some()
    }

    /// Put a snippet in at the cursor, or at the end where the cursor is
    /// beyond it. A character has to end there. The cursor moves behind the
    /// snippet.
    pub fn insert(&mut self, snippet: &str)
        requires
            cut_point(old(self).text@, old(self).insertion(), 0) is Some,
            old(self).insertion() + encode_utf8(snippet@).len() <= usize::MAX,
        ensures
            ({
                let k = cut_point(old(self).text@, old(self).insertion(), 0)->Some_0;
                &&& final(self).text@ == old(self).text@.take(k) + snippet@ + old(self).text@.skip(k)
                &&& final(self).cursor == old(self).insertion() + encode_utf8(snippet@).len()
            }),
            final(self).dirty,
            final(self).open == old(self).open,
            final(self).file == old(self).file,
            final(self).root == old(self).root,
            final(self).index == old(self).index,
            final(self).expanded == old(self).expanded,
            final(self).env_name == old(self).env_name,
            final(self).mock == old(self).mock,
            final(self).next_run_id == old(self).next_run_id,
            final(self).active_run == old(self).active_run,
            final(self).in_flight == old(self).in_flight,
            final(self).diagnostics == old(self).diagnostics,
            final(self).result == old(self).result,
    {
        let end: usize = bytes_of(self.text.as_str()).len();
        let at: usize = if self.cursor <= end {
            self.cursor
        } else {
            end
        };
        if let Some(k) = cut_at(self.text.as_str(), at) {
            let chars = chars_of(self.text.as_str());
            let n: usize = chars.len();
            let head = text_between(&chars, 0, k);
            let tail = text_between(&chars, k, n);
            assert(head@ =~= chars@.take(k as int));
            assert(tail@ =~= chars@.skip(k as int));
            let added: usize = bytes_of(snippet).len();
            self.text = cat3(head.as_str(), snippet, tail.as_str());
            self.cursor = at + added;
            self.dirty = true;
        }
    }

    /// What the window is headed by: the name of the file.
    pub fn title(&self) -> (r: String)
        ensures
            r@ == match self.file {
                Some(f) => opt_or(file_name(f@), seq![]),
                None => "unsaved"@,
            },
    {
        match &self.file {
            Some(f) => match file_name_of(f.as_str()) {
                Some(name) => name,
                None => {
                    let r = String::new();
                    assert(r@ =~= seq![]);
                    r
                },
            },
            None => "unsaved".to_owned(),
        }
    }

    /// Whether a run can be asked for: there is a root, and no run under way.
    pub fn can_run(&self) -> (r: bool)
        ensures
            r == (!self.in_flight && self.root is Some),
    {
        !self.in_flight && self.root.is_some()
    }

    /// Show the outcome of a validation in place of what was shown before: the
    /// document that was read, validated, or why it cannot be read. Nothing is
    /// validated without a root.
    pub fn validate_now(&mut self, checked: Result<Result<ResolvedRequest, Vec<Diagnostic>>, String>)
        ensures
            views(final(self).diagnostics@) == if old(self).root is None {
                seq!["no project root"@]
            } else {
                match checked {
                    Err(e) => seq!["invalid JSON: "@ + e@],
                    Ok(Ok(ir)) => validation_lines(Ok(ir@)),
                    Ok(Err(list)) => validation_lines(Err(views(list@))),
                }
            },
            final(self).result is None,
            final(self).text == old(self).text,
            final(self).file == old(self).file,
            final(self).root == old(self).root,
            final(self).dirty == old(self).dirty,
            final(self).open == old(self).open,
            final(self).index == old(self).index,
            final(self).expanded == old(self).expanded,
            final(self).cursor == old(self).cursor,
            final(self).env_name == old(self).env_name,
            final(self).mock == old(self).mock,
            final(self).next_run_id == old(self).next_run_id,
            final(self).active_run == old(self).active_run,
            final(self).in_flight == old(self).in_flight,
    {
        self.result = None;
        let mut lines: Vec<String> = Vec::new();
        if self.root.is_none() {
            lines.push("no project root".to_owned());
            assert(views(lines@) =~= seq!["no project root"@]);
        } else {
            match &checked {
                Err(e) => {
                    lines.push(cat2("invalid JSON: ", e.as_str()));
                    assert(views(lines@) =~= seq!["invalid JSON: "@ + e@]);
                },
                Ok(outcome) => {
                    lines = describe_validation(outcome);
                },
            }
        }
        self.diagnostics = lines;
    }

    /// Take over that the text was written to `path`. Where it was not,
    /// nothing changes.
    pub fn finish_save(&mut self, path: String, written: bool, index: Option<ProjectIndex>)
        ensures
            !written ==> *final(self) == *old(self),
            written ==> {
                &&& final(self).file == Some(path)
                &&& !final(self).dirty
                &&& final(self).index == index
                &&& final(self).text == old(self).text
                &&& final(self).root == old(self).root
                &&& final(self).open == old(self).open
                &&& final(self).expanded == old(self).expanded
                &&& final(self).cursor == old(self).cursor
                &&& final(self).env_name == old(self).env_name
                &&& final(self).mock == old(self).mock
                &&& final(self).next_run_id == old(self).next_run_id
                &&& final(self).active_run == old(self).active_run
                &&& final(self).in_flight == old(self).in_flight
                &&& final(self).diagnostics == old(self).diagnostics
                &&& final(self).result == old(self).result
            },
    {
        if written {
            self.file = Some(path);
            self.dirty = false;
            self.index = index;
        }
    }
}

/// What is shown of a run.
#[derive(Debug)]
pub struct ResultStrip {
    pub label: &'static str,
    /// The color of the label; that of errors where there is none.
    pub color: Option<(u8, u8, u8)>,
    /// The status and the time of the response, if there is one.
    pub http: Option<String>,
    pub lines: Vec<String>,
}

/// The label of an ending.
pub open spec fn ending_label(status: RunStatus) -> Seq<char> {
    match status {
        RunStatus::Passed => "PASSED"@,
        RunStatus::Failed => "FAILED"@,
        RunStatus::Error => "ERROR"@,
    }
}

/// The color of an ending.
pub open spec fn ending_color(status: RunStatus) -> Option<(u8, u8, u8)> {
    match status {
        RunStatus::Passed => Some((0x49u8, 0x9Cu8, 0x54u8)),
        RunStatus::Failed => Some((0xC7u8, 0x5Au8, 0x3Bu8)),
        RunStatus::Error => None,
    }
}

/// The line about an assertion.
pub open spec fn assertion_line(a: AssertionV) -> Seq<char> {
    (if a.passed {
        "✓"@
    } else {
        "✗"@
    }) + " "@ + a.message
}

/// The lines about a run: its assertions, what it wrote, and its diagnostics.
pub open spec fn strip_lines(r: RunResultV) -> Seq<Seq<char>> {
    Seq::new(r.assertions.len(), |i: int| assertion_line(r.assertions[i])) + Seq::new(
        r.runtime.len(),
        |i: int| "→ "@ + r.runtime[i].0 + " = "@ + printed(r.runtime[i].1),
    ) + Seq::new(
        r.diagnostics.len(),
        |i: int| "["@ + r.diagnostics[i].code.name() + "] "@ + r.diagnostics[i].message,
    )
}

fn assertion_texts(assertions: &Vec<AssertionResult>) -> (r: Vec<String>)
    ensures
        views(r@) == Seq::new(assertions@.len(), |i: int| assertion_line(assertions@[i]@)),
{
    let mut out: Vec<String> = Vec::new();
    let mut i: usize = 0;
    while i < assertions.len()
        invariant
            i <= assertions.len(),
            out.len() == i,
            forall|k: int| 0 <= k < i ==> (#[trigger] out@[k])@ == assertion_line(assertions@[k]@),
        decreases assertions.len() - i,
    {
        let mark = if assertions[i].passed {
            "✓"
        } else {
            "✗"
        };
        out.push(cat3(mark, " ", assertions[i].message.as_str()));
        i += 1;
    }
    assert(views(out@) =~= Seq::new(assertions@.len(), |i: int| assertion_line(assertions@[i]@)));
    out
}

/// What is shown of a run.
pub fn results_strip(r: &RunResult) -> (strip: ResultStrip)
    ensures
        strip.label@ == ending_label(r@.status),
        strip.color == ending_color(r@.status),
        opt_view(strip.http) == match r@.http {
            Some(h) => Some(decimal(h.status as nat) + " · "@ + decimal(h.time_ms as nat) + " ms"@),
            None => None,
        },
        views(strip.lines@) == strip_lines(r@),
{
    broadcast use group_views;

    let ghost view = r@;
    let ghost writes = Seq::new(
        view.runtime.len(),
        |i: int| "→ "@ + view.runtime[i].0 + " = "@ + printed(view.runtime[i].1),
    );
    let ghost notes = Seq::new(
        view.diagnostics.len(),
        |i: int| "["@ + view.diagnostics[i].code.name() + "] "@ + view.diagnostics[i].message,
    );
    let (label, color) = match r.status {
        RunStatus::Passed => ("PASSED", Some((0x49u8, 0x9Cu8, 0x54u8))),
        RunStatus::Failed => ("FAILED", Some((0xC7u8, 0x5Au8, 0x3Bu8))),
        RunStatus::Error => ("ERROR", None),
    };
    let http = match &r.http {
        Some(h) => Some(
            cat4(number_text(h.status as u64).as_str(), " · ", number_text(h.time_ms).as_str(), " ms"),
        ),
        None => None,
    };
    let mut lines = assertion_texts(&r.assertions);
    let ghost first = views(lines@);
    assert(first =~= Seq::new(view.assertions.len(), |i: int| assertion_line(view.assertions[i])));
    let mut i: usize = 0;
    assert(views(lines@) =~= first + writes.take(0));
    while i < r.runtime.pairs.len()
        invariant
            i <= r.runtime.pairs.len(),
            view == r@,
            writes.len() == view.runtime.len(),
            writes == Seq::new(
                view.runtime.len(),
                |i: int| "→ "@ + view.runtime[i].0 + " = "@ + printed(view.runtime[i].1),
            ),
            views(lines@) == first + writes.take(i as int),
        decreases r.runtime.pairs.len() - i,
    {
        let text = cat4(
            "→ ",
            r.runtime.pairs[i].0.as_str(),
            " = ",
            print(&r.runtime.pairs[i].1).as_str(),
        );
        assert(text@ == writes[i as int]);
        lines.push(text);
        assert(writes.take(i + 1) =~= writes.take(i as int).push(writes[i as int]));
        assert(first + writes.take(i + 1) =~= (first + writes.take(i as int)).push(writes[i as int]));
        i += 1;
    }
    assert(writes.take(i as int) =~= writes);
    let ghost second = first + writes;
    let mut j: usize = 0;
    assert(views(lines@) =~= second + notes.take(0));
    while j < r.diagnostics.len()
        invariant
            j <= r.diagnostics.len(),
            view == r@,
            notes == Seq::new(
                view.diagnostics.len(),
                |i: int| "["@ + view.diagnostics[i].code.name() + "] "@ + view.diagnostics[i].message,
            ),
            views(lines@) == second + notes.take(j as int),
        decreases r.diagnostics.len() - j,
    {
        let text = cat4("[", r.diagnostics[j].code.as_str(), "] ", r.diagnostics[j].message.as_str());
        assert(text@ == notes[j as int]);
        lines.push(text);
        assert(notes.take(j + 1) =~= notes.take(j as int).push(notes[j as int]));
        assert(second + notes.take(j + 1) =~= (second + notes.take(j as int)).push(notes[j as int]));
        j += 1;
    }
    assert(notes.take(j as int) =~= notes);
    ResultStrip { label, color, http, lines }
}

/// The line about a diagnostic: code, place and message.
pub open spec fn diagnostic_line(d: DiagnosticV) -> Seq<char> {
    "["@ + d.code.name() + "] "@ + opt_or(d.instance_path, seq![]) + " "@ + d.message
}

/// The lines about a validation: one that all is well, or one for each
/// diagnostic.
pub open spec fn validation_lines(outcome: Result<RequestV, Seq<DiagnosticV>>) -> Seq<Seq<char>> {
    match outcome {
        Ok(ir) => seq!["ok — "@ + ir.method.name() + " "@ + ir.url],
        Err(list) => Seq::new(list.len(), |i: int| diagnostic_line(list[i])),
    }
}

/// What the editor shows about a validation.
pub fn describe_validation(outcome: &Result<ResolvedRequest, Vec<Diagnostic>>) -> (r: Vec<String>)
    ensures
        views(r@) == validation_lines(
            match outcome {
                Ok(ir) => Ok(ir@),
                Err(list) => Err(views(list@)),
            },
        ),
{
    let mut out: Vec<String> = Vec::new();
    match outcome {
        Ok(ir) => {
            out.push(cat4("ok — ", ir.method.as_str(), " ", ir.url.as_str()));
            assert(views(out@) =~= seq!["ok — "@ + ir@.method.name() + " "@ + ir@.url]);
        },
        Err(list) => {
            let mut i: usize = 0;
            while i < list.len()
                invariant
                    i <= list.len(),
                    out.len() == i,
                    forall|k: int| 0 <= k < i ==> (#[trigger] out@[k])@ == diagnostic_line(list@[k]@),
                decreases list.len() - i,
            {
                let place = match &list[i].instance_path {
                    Some(p) => p.clone(),
                    None => String::new(),
                };
                assert(place@ =~= opt_or(list@[i as int]@.instance_path, seq![]));
                let mut text = cat5("[", list[i].code.as_str(), "] ", place.as_str(), " ");
                text.append(list[i].message.as_str());
                out.push(text);
                i += 1;
            }
            assert(views(out@) =~= validation_lines(Err(views(list@))));
        },
    }
    out
}

} // verus!
