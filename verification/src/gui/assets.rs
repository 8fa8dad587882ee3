//! The browser of a project's asset store.

use vstd::prelude::*;
use vstd::utf8::encode_utf8;

use crate::json::{print, printed, Json, JsonV};
use crate::paths::{parent_of, parent_path};
use crate::pointer::pointer_segment;
use crate::runner::resolve::{joined_path, resolve_body_path};
use crate::text::{cat2, cat3, cat4, chars_of, replace_all, same, text_between};
use crate::view::{group_views, opt_or, opt_view, views};
use crate::words::{bytes_of, decimal, lemma_split_on, number_text, split, split_on};

verus! {

broadcast use vstd::string::group_string_axioms;

/// What an asset is for.
#[derive(Debug, Clone, Copy, PartialEq, Eq, Structural)]
pub enum AssetKind {
    Data,
    Hook,
    Assertion,
    Extractor,
    Generator,
    Mock,
    Executable,
}

/// A use of an asset by a request.
#[derive(Debug)]
pub struct Usage {
    pub request: String,
    pub instance_path: String,
}

/// An asset of a project.
#[derive(Debug)]
pub struct AssetEntry {
    pub path: String,
    pub rel_path: String,
    pub kind: AssetKind,
    pub alias: Option<String>,
    pub prefix_ref: Option<String>,
    pub used_by: Vec<Usage>,
    pub data: Option<Json>,
}

/// A request document of a project, and the references in it.
#[derive(Debug)]
pub struct RequestEntry {
    pub id: String,
    pub path: String,
    pub rel_path: String,
    pub refs: Vec<String>,
}

/// A reference that leads nowhere.
#[derive(Debug)]
pub struct BrokenRef {
    pub request: String,
    pub instance_path: String,
    pub reference: String,
    pub message: String,
}

/// The assets of a project.
#[derive(Debug)]
pub struct ProjectIndex {
    pub root: String,
    pub assets: Vec<AssetEntry>,
    pub requests: Vec<RequestEntry>,
    pub environments: Vec<String>,
    pub broken: Vec<BrokenRef>,
}

/// What a [`Usage`] says.
pub struct UsageV {
    pub request: Seq<char>,
    pub instance_path: Seq<char>,
}

impl View for Usage {
    type V = UsageV;

    open spec fn view(&self) -> UsageV {
        UsageV { request: self.request@, instance_path: self.instance_path@ }
    }
}

/// What an [`AssetEntry`] says.
pub struct AssetV {
    pub path: Seq<char>,
    pub rel_path: Seq<char>,
    pub kind: AssetKind,
    pub alias: Option<Seq<char>>,
    pub prefix_ref: Option<Seq<char>>,
    pub used_by: Seq<UsageV>,
    pub data: Option<JsonV>,
}

impl View for AssetEntry {
    type V = AssetV;

    open spec fn view(&self) -> AssetV {
        AssetV {
            path: self.path@,
            rel_path: self.rel_path@,
            kind: self.kind,
            alias: opt_view(self.alias),
            prefix_ref: opt_view(self.prefix_ref),
            used_by: views(self.used_by@),
            data: opt_view(self.data),
        }
    }
}

/// What a [`RequestEntry`] says.
pub struct RequestEntryV {
    pub id: Seq<char>,
    pub path: Seq<char>,
    pub rel_path: Seq<char>,
    pub refs: Seq<Seq<char>>,
}

impl View for RequestEntry {
    type V = RequestEntryV;

    open spec fn view(&self) -> RequestEntryV {
        RequestEntryV { id: self.id@, path: self.path@, rel_path: self.rel_path@, refs: views(self.refs@) }
    }
}

/// What a [`BrokenRef`] says.
pub struct BrokenV {
    pub request: Seq<char>,
    pub instance_path: Seq<char>,
    pub reference: Seq<char>,
    pub message: Seq<char>,
}

impl View for BrokenRef {
    type V = BrokenV;

    open spec fn view(&self) -> BrokenV {
        BrokenV {
            request: self.request@,
            instance_path: self.instance_path@,
            reference: self.reference@,
            message: self.message@,
        }
    }
}

/// The state of the browser.
#[derive(Debug)]
pub struct AssetsState {
    /// The project that was looked at last.
    pub root: Option<String>,
    pub index: Option<ProjectIndex>,
    pub error: Option<String>,
    /// The assets that are unfolded, by their paths.
    pub expanded: Vec<String>,
    /// The directory of the request that is being edited.
    pub base_dir: Option<String>,
}

impl AssetsState {
    /// The browser at the start of the program.
    pub fn new() -> (r: AssetsState)
        ensures
            r.root is None,
            r.index is None,
            r.error is None,
            r.expanded@.len() == 0,
            r.base_dir is None,
    {
        AssetsState { root: None, index: None, error: None, expanded: Vec::new(), base_dir: None }
    }

    /// Take over the outcome of a scan of `root`: the index, or the error in
    /// its place.
    pub fn load(&mut self, root: String, scanned: Result<ProjectIndex, String>)
        ensures
            final(self).root == Some(root),
            final(self).expanded == old(self).expanded,
            final(self).base_dir == old(self).base_dir,
            match scanned {
                Ok(index) => final(self).index == Some(index) && final(self).error is None,
                Err(e) => final(self).index is None && final(self).error == Some(e),
            },
    {
        match scanned {
            Ok(index) => {
                self.index = Some(index);
                self.error = None;
            },
            Err(e) => {
                self.index = None;
                self.error = Some(e);
            },
        }
        self.root = Some(root);
    }

    /// Whether there is an index.
    pub fn is_loaded(&self) -> (r: bool)
        ensures
            r == self.index is Some,
    {
        self.index.is_some()
    }
}

// ---------------------------------------------------------------------
// Rows
// ---------------------------------------------------------------------

/// How an asset is referred to: by its alias, by its prefix form, else by its
/// path.
pub open spec fn asset_reference(alias: Option<Seq<char>>, prefix_ref: Option<Seq<char>>, rel_path: Seq<char>) -> Seq<
    char,
> {
    opt_or(alias, opt_or(prefix_ref, rel_path))
}

/// How an asset is referred to.
pub fn reference_to(alias: &Option<String>, prefix_ref: &Option<String>, rel_path: &str) -> (r: String)
    ensures
        r@ == asset_reference(opt_view(*alias), opt_view(*prefix_ref), rel_path@),
{
    match alias {
        Some(s) => s.clone(),
        None => match prefix_ref {
            Some(s) => s.clone(),
            None => rel_path.to_owned(),
        },
    }
}

/// An asset as it is shown in a list.
#[derive(Debug)]
pub struct AssetLine {
    /// The kind, where it begins a group.
    pub heading: Option<AssetKind>,
    /// The name of its file.
    pub name: String,
    pub reference: String,
    /// Whether it has values to look into.
    pub browsable: bool,
    pub unfolded: bool,
    /// Who uses it.
    pub hover: Vec<String>,
}

/// What an [`AssetLine`] says.
pub struct AssetLineV {
    pub heading: Option<AssetKind>,
    pub name: Seq<char>,
    pub reference: Seq<char>,
    pub browsable: bool,
    pub unfolded: bool,
    pub hover: Seq<Seq<char>>,
}

impl View for AssetLine {
    type V = AssetLineV;

    open spec fn view(&self) -> AssetLineV {
        AssetLineV {
            heading: self.heading,
            name: self.name@,
            reference: self.reference@,
            browsable: self.browsable,
            unfolded: self.unfolded,
            hover: views(self.hover@),
        }
    }
}

/// Who uses an asset, in words.
pub open spec fn usage_lines(used_by: Seq<UsageV>) -> Seq<Seq<char>> {
    if used_by.len() == 0 {
        seq!["unused"@]
    } else {
        Seq::new(used_by.len(), |i: int| used_by[i].request + " "@ + used_by[i].instance_path)
    }
}

/// Who uses an asset, in words.
pub fn describe_usage(used_by: &Vec<Usage>) -> (r: Vec<String>)
    ensures
        views(r@) == usage_lines(views(used_by@)),
{
    let mut out: Vec<String> = Vec::new();
    if used_by.len() == 0 {
        out.push("unused".to_owned());
        assert(views(out@) =~= seq!["unused"@]);
        return out;
    }
    let mut i: usize = 0;
    while i < used_by.len()
        invariant
            i <= used_by.len(),
            out.len() == i,
            forall|k: int|
                0 <= k < i ==> (#[trigger] out@[k])@ == used_by@[k]@.request + " "@ + used_by@[k]@.instance_path,
        decreases used_by.len() - i,
    {
        out.push(cat3(used_by[i].request.as_str(), " ", used_by[i].instance_path.as_str()));
        i += 1;
    }
    assert(views(out@) =~= usage_lines(views(used_by@)));
    out
}

/// An asset can be looked into where it is data that was read.
pub open spec fn is_browsable(a: AssetV) -> bool {
    a.kind == AssetKind::Data && a.data is Some
}

/// The `n`-th asset as it is shown in a list.
pub open spec fn asset_line(assets: Seq<AssetV>, expanded: Seq<Seq<char>>, n: int) -> AssetLineV {
    let a = assets[n];
    AssetLineV {
        heading: if n == 0 || assets[n - 1].kind != a.kind {
            Some(a.kind)
        } else {
            None
        },
        name: split_on(a.rel_path, '/').last(),
        reference: asset_reference(a.alias, a.prefix_ref, a.rel_path),
        browsable: is_browsable(a),
        unfolded: is_browsable(a) && expanded.contains(a.rel_path),
        hover: usage_lines(a.used_by),
    }
}

fn stands_in(list: &Vec<String>, name: &str) -> (r: bool)
    ensures
        r == views(list@).contains(name@),
{
    let ghost all = views(list@);
    let mut i: usize = 0;
    while i < list.len()
        invariant
            i <= list.len(),
            all == views(list@),
            forall|k: int| 0 <= k < i ==> #[trigger] all[k] != name@,
        decreases list.len() - i,
    {
        assert(all[i as int] == list@[i as int]@);
        if same(list[i].as_str(), name) {
            return true;
        }
        i += 1;
    }
    false
}

/// The assets as they are shown in a list, grouped as they stand.
pub fn asset_list(assets: &Vec<AssetEntry>, expanded: &Vec<String>) -> (r: Vec<AssetLine>)
    ensures
        views(r@) == Seq::new(assets@.len(), |i: int| asset_line(views(assets@), views(expanded@), i)),
{
    let ghost all = views(assets@);
    let ghost open = views(expanded@);
    let mut out: Vec<AssetLine> = Vec::new();
    let mut i: usize = 0;
    while i < assets.len()
        invariant
            i <= assets.len(),
            out.len() == i,
            all == views(assets@),
            open == views(expanded@),
            forall|k: int| 0 <= k < i ==> (#[trigger] out@[k])@ == asset_line(all, open, k),
        decreases assets.len() - i,
    {
        let a = &assets[i];
        assert(all[i as int] == a@);
        if i > 0 {
            assert(all[i - 1] == assets@[i - 1]@);
        }
        let heading = if i == 0 || assets[i - 1].kind != a.kind {
            Some(a.kind)
        } else {
            None
        };
        let pieces = split(a.rel_path.as_str(), '/');
        proof {
            lemma_split_on(a.rel_path@, '/');
            assert(views(pieces@).last() == pieces@.last()@);
        }
        let n: usize = pieces.len();
        let browsable = a.kind == AssetKind::Data && a.data.is_some();
        let line = AssetLine {
            heading,
            name: pieces[n - 1].clone(),
            reference: reference_to(&a.alias, &a.prefix_ref, a.rel_path.as_str()),
            browsable,
            unfolded: browsable && stands_in(expanded, a.rel_path.as_str()),
            hover: describe_usage(&a.used_by),
        };
        out.push(line);
        i += 1;
    }
    assert(views(out@) =~= Seq::new(assets@.len(), |i: int| asset_line(all, open, i)));
    out
}

/// The names that stay in a list once `name` is taken out.
pub open spec fn taken_out(list: Seq<Seq<char>>, name: Seq<char>) -> Seq<Seq<char>>
    decreases list.len(),
{
    if list.len() == 0 {
        seq![]
    } else {
        let before = taken_out(list.drop_last(), name);
        if list.last() == name {
            before
        } else {
            before.push(list.last())
        }
    }
}

/// The unfolded assets once the one at `rel_path` was clicked.
pub open spec fn folded_over(expanded: Seq<Seq<char>>, rel_path: Seq<char>) -> Seq<Seq<char>> {
    if expanded.contains(rel_path) {
        taken_out(expanded, rel_path)
    } else {
        expanded.push(rel_path)
    }
}

/// Unfold or fold the asset at `rel_path`.
pub fn fold_over(expanded: &mut Vec<String>, rel_path: &str)
    ensures
        views(final(expanded)@) == folded_over(views(old(expanded)@), rel_path@),
{
    broadcast use group_views;

    let ghost all = views(expanded@);
    if !stands_in(expanded, rel_path) {
        expanded.push(rel_path.to_owned());
        return;
    }
    let mut kept: Vec<String> = Vec::new();
    let mut i: usize = 0;
    assert(all.take(0) =~= Seq::empty());
    while i < expanded.len()
        invariant
            i <= expanded.len(),
            all == views(expanded@),
            views(kept@) == taken_out(all.take(i as int), rel_path@),
        decreases expanded.len() - i,
    {
        assert(all.take(i + 1).drop_last() =~= all.take(i as int));
        assert(all.take(i + 1).last() == expanded@[i as int]@);
        if !same(expanded[i].as_str(), rel_path) {
            kept.push(expanded[i].clone());
        }
        i += 1;
    }
    assert(all.take(i as int) =~= all);
    *expanded = kept;
}

proof fn lemma_taken_out(list: Seq<Seq<char>>, name: Seq<char>, other: Seq<char>)
    ensures
        taken_out(list, name).contains(other) == (list.contains(other) && other != name),
    decreases list.len(),
{
    if list.len() > 0 {
        let rest = list.drop_last();
        let before = taken_out(rest, name);
        lemma_taken_out(rest, name, other);
        assert(rest.push(list.last()) =~= list);
        assert(list.contains(other) == (rest.contains(other) || other == list.last())) by {
            if rest.contains(other) {
                let k = choose|k: int| 0 <= k < rest.len() && rest[k] == other;
                assert(list[k] == other);
            }
            if other == list.last() {
                assert(list[list.len() - 1] == other);
            }
        }
        assert(before.push(list.last()).contains(other) == (before.contains(other) || other == list.last())) by {
            let more = before.push(list.last());
            if before.contains(other) {
                let k = choose|k: int| 0 <= k < before.len() && before[k] == other;
                assert(more[k] == other);
            }
            if other == list.last() {
                assert(more[before.len() as int] == other);
            }
        }
    }
}

/// A click unfolds or folds the asset that was clicked, and no other one.
pub proof fn lemma_click_folds_one(expanded: Seq<Seq<char>>, rel_path: Seq<char>, other: Seq<char>)
    ensures
        folded_over(expanded, rel_path).contains(other) == if other == rel_path {
            !expanded.contains(other)
        } else {
            expanded.contains(other)
        },
{
    lemma_taken_out(expanded, rel_path, other);
    let more = expanded.push(rel_path);
    if expanded.contains(other) {
        let k = choose|k: int| 0 <= k < expanded.len() && expanded[k] == other;
        assert(more[k] == other);
    }
    assert(more[expanded.len() as int] == rel_path);
}

/// The lines about references that lead nowhere, under a heading with their
/// number; none where there are none.
pub open spec fn broken_lines(broken: Seq<BrokenV>, n: int) -> Seq<Seq<char>>
    decreases n,
{
    if n <= 0 || n > broken.len() {
        if broken.len() == 0 {
            seq![]
        } else {
            seq![decimal(broken.len()) + " broken ref(s)"@]
        }
    } else {
        let b = broken[n - 1];
        broken_lines(broken, n - 1) + seq![
            b.request + " "@ + b.instance_path,
            "  "@ + b.reference + " — "@ + b.message,
        ]
    }
}

/// The lines about references that lead nowhere.
pub fn describe_broken(broken: &Vec<BrokenRef>) -> (r: Vec<String>)
    ensures
        views(r@) == broken_lines(views(broken@), broken@.len() as int),
{
    let ghost all = views(broken@);
    let mut out: Vec<String> = Vec::new();
    if broken.len() > 0 {
        out.push(cat2(number_text(broken.len() as u64).as_str(), " broken ref(s)"));
    }
    assert(views(out@) =~= broken_lines(all, 0));
    let mut i: usize = 0;
    while i < broken.len()
        invariant
            i <= broken.len(),
            all == views(broken@),
            views(out@) == broken_lines(all, i as int),
        decreases broken.len() - i,
    {
        let ghost before = views(out@);
        let b = &broken[i];
        assert(all[i as int] == b@);
        out.push(cat3(b.request.as_str(), " ", b.instance_path.as_str()));
        out.push(cat4("  ", b.reference.as_str(), " — ", b.message.as_str()));
        assert(views(out@) =~= before + seq![
            b@.request + " "@ + b@.instance_path,
            "  "@ + b@.reference + " — "@ + b@.message,
        ]);
        i += 1;
    }
    out
}

/// Write a key as a segment of a JSON pointer.
pub fn escape_ptr(s: &str) -> (r: String)
    ensures
        r@ == pointer_segment(s@),
{
    replace_all(replace_all(s, "~", "~0").as_str(), "/", "~1")
}

/// The names of the children of a node: keys written as segments, or positions.
pub open spec fn child_names(node: JsonV) -> Seq<Seq<char>> {
    match node {
        JsonV::Object(pairs) => Seq::new(pairs.len(), |i: int| pointer_segment(pairs[i].0)),
        JsonV::Array(items) => Seq::new(items.len(), |i: int| decimal(i as nat)),
        _ => seq![],
    }
}

/// The names of the children of a node, as segments of a JSON pointer.
pub fn children(node: &Json) -> (r: Vec<String>)
    ensures
        views(r@) == child_names(node@),
{
    broadcast use crate::json::lemma_json_view;

    let mut out: Vec<String> = Vec::new();
    match node {
        Json::Object(pairs) => {
            let mut i: usize = 0;
            while i < pairs.len()
                invariant
                    i <= pairs.len(),
                    out.len() == i,
                    forall|k: int| 0 <= k < i ==> (#[trigger] out@[k])@ == pointer_segment(pairs@[k].0@),
                decreases pairs.len() - i,
            {
                out.push(escape_ptr(pairs[i].0.as_str()));
                i += 1;
            }
        },
        Json::Array(items) => {
            let mut i: usize = 0;
            while i < items.len()
                invariant
                    i <= items.len(),
                    out.len() == i,
                    forall|k: int| 0 <= k < i ==> (#[trigger] out@[k])@ == decimal(k as nat),
                decreases items.len() - i,
            {
                out.push(number_text(i as u64));
                i += 1;
            }
        },
        _ => {},
    }
    assert(views(out@) =~= child_names(node@));
    out
}

/// The reference to a child: the reference to the asset, `#`, and the pointer.
pub fn child_ref(base_ref: &str, pointer: &str, name: &str) -> (r: (String, String))
    ensures
        r.0@ == pointer@ + "/"@ + name@,
        r.1@ == base_ref@ + "#"@ + (pointer@ + "/"@ + name@),
{
    let child = cat3(pointer, "/", name);
    let full = cat3(base_ref, "#", child.as_str());
    (child, full)
}

// ---------------------------------------------------------------------
// Previews
// ---------------------------------------------------------------------

/// The number of characters from `k` on after which a text has exactly `bytes`
/// bytes.
pub open spec fn cut_point(s: Seq<char>, bytes: nat, k: int) -> Option<int>
    decreases s.len() + 1 - k,
{
    if k < 0 || k > s.len() {
        None
    } else if encode_utf8(s.take(k)).len() == bytes {
        Some(k)
    } else {
        cut_point(s, bytes, k + 1)
    }
}

/// A text of more than `limit` bytes cut to one byte less, with an ellipsis.
pub open spec fn shortened(s: Seq<char>, limit: nat) -> Seq<char> {
    if encode_utf8(s).len() > limit {
        s.take(cut_point(s, (limit - 1) as nat, 0)->Some_0) + "…"@
    } else {
        s
    }
}

/// A text can be shortened where a character ends at the cut.
pub open spec fn can_shorten(s: Seq<char>, limit: nat) -> bool {
    encode_utf8(s).len() > limit ==> cut_point(s, (limit - 1) as nat, 0) is Some
}

/// A value in one line: a text in quotes, anything else as JSON.
pub open spec fn value_line(v: JsonV) -> Seq<char> {
    match v {
        JsonV::String(s) => "\""@ + s + "\""@,
        _ => printed(v),
    }
}

/// A value in one line: a text in quotes, anything else as JSON.
pub fn line_of(v: &Json) -> (r: String)
    ensures
        r@ == value_line(v@),
{
    match v {
        Json::String(s) => cat3("\"", s.as_str(), "\""),
        _ => print(v),
    }
}

/// The number of characters after which a text has exactly `bytes` bytes.
pub fn cut_at(s: &str, bytes: usize) -> (r: Option<usize>)
    ensures
        match r {
            Some(k) => k <= s@.len() && cut_point(s@, bytes as nat, 0) == Some(k as int),
            None => cut_point(s@, bytes as nat, 0) is None,
        },
{
    let chars = chars_of(s);
    let mut k: usize = 0;
    while k < chars.len()
        invariant
            k <= chars.len(),
            chars@ == s@,
            cut_point(s@, bytes as nat, 0) == cut_point(s@, bytes as nat, k as int),
        decreases chars.len() - k,
    {
        let head = text_between(&chars, 0, k);
        assert(head@ =~= s@.take(k as int));
        if bytes_of(head.as_str()).len() == bytes {
            return Some(k);
        }
        k += 1;
    }
    assert(s@.take(k as int) =~= s@);
    assert(cut_point(s@, bytes as nat, k + 1) is None);
    if bytes_of(s).len() == bytes {
        Some(k)
    } else {
        None
    }
}

/// Shorten a text. Where it is too long, a character has to end at the cut.
pub fn shorten(s: &str, limit: usize) -> (r: String)
    requires
        limit > 0,
        can_shorten(s@, limit as nat),
    ensures
        r@ == shortened(s@, limit as nat),
{
    if bytes_of(s).len() <= limit {
        return s.to_owned();
    }
    match cut_at(s, limit - 1) {
        Some(k) => {
            let chars = chars_of(s);
            let head = text_between(&chars, 0, k);
            assert(head@ =~= s@.take(k as int));
            cat2(head.as_str(), "…")
        },
        None => s.to_owned(),
    }
}

/// Whether a text can be shortened.
pub fn cuttable(s: &str, limit: usize) -> (r: bool)
    requires
        limit > 0,
    ensures
        r == can_shorten(s@, limit as nat),
{
    bytes_of(s).len() <= limit || cut_at(s, limit - 1).is_some()
}

/// A value in one short line. A long text has to have a character end at its
/// thirty-ninth byte.
pub fn preview(v: &Json) -> (r: String)
    requires
        can_shorten(value_line(v@), 40),
    ensures
        r@ == shortened(value_line(v@), 40),
{
    shorten(line_of(v).as_str(), 40)
}

/// A value in one short line, or nothing where a long text cannot be cut.
pub fn try_preview(v: &Json) -> (r: Option<String>)
    ensures
        opt_view(r) == if can_shorten(value_line(v@), 40) {
            Some(shortened(value_line(v@), 40))
        } else {
            None
        },
{
    if cuttable(line_of(v).as_str(), 40) {
        Some(preview(v))
    } else {
        None
    }
}

/// The directory of the request that is being edited, if there are a workspace
/// and an open request: what lies above the path of the request.
pub fn active_request_dir(root: Option<&str>, active: Option<&str>) -> (r: Option<String>)
    ensures
        opt_view(r) == match (root, active) {
            (Some(root), Some(rel_id)) => parent_path(joined_path(root@, rel_id@)),
            _ => None,
        },
{
    match (root, active) {
        (Some(root), Some(rel_id)) => parent_of(resolve_body_path(root, rel_id).as_str()),
        _ => None,
    }
}

} // verus!
