//! Asset references: `builtin:name@version`, `data:alias#/pointer`,
//! `project:alias`, and paths of files.

use vstd::prelude::*;

use crate::json::{json_parse, parse, JsonV};
use crate::map::{lookup, TextMap};
use crate::pointer::{at_pointer, find};
use crate::reqv1::builder::{Loaded, Located};
use crate::reqv1::diag::{diag, Code, Diagnostic, DiagnosticV};
use crate::reqv1::ir::{AssetDescriptor, AssetV, RefScheme};
use crate::reqv1::model::{
    Binding, BindingV, BodySpec, BodySpecV, DocumentV, MockDef, MockDefV, PipelineEntry, PipelineEntryV, RequestDocument,
};
use crate::runner::resolve::{joined_path, resolve_body_path};
use crate::text::{
    cat2, cat3, chars_of, find_from, first_at, has_prefix, is_digit, lemma_first_at, occurs_at, starts_with, text_between,
};
use crate::view::{group_views, opt_view, ref_view, views};
use crate::words::{decimal, digits_value, lemma_decimal_value, quote, quoted};

verus! {

broadcast use vstd::string::group_string_axioms;

/// The version that a text of digits denotes.
pub open spec fn version_of(s: Seq<char>) -> Option<u32> {
    if s.len() > 0 && (forall|i: int| 0 <= i < s.len() ==> is_digit(#[trigger] s[i])) && digits_value(s) <= u32::MAX {
        Some(digits_value(s) as u32)
    } else {
        None
    }
}

proof fn lemma_digits_grow(s: Seq<char>, n: int)
    requires
        0 <= n <= s.len(),
    ensures
        digits_value(s.take(n)) <= digits_value(s),
    decreases s.len() - n,
{
    if n < s.len() {
        assert(s.take(n + 1).drop_last() =~= s.take(n));
        lemma_digits_grow(s, n + 1);
    } else {
        assert(s.take(n) =~= s);
    }
}

fn parse_version(s: &str) -> (r: Option<u32>)
    ensures
        r == version_of(s@),
{
    let chars = chars_of(s);
    if chars.len() == 0 {
        return None;
    }
    let mut value: u32 = 0;
    let mut i: usize = 0;
    assert(s@.take(0) =~= Seq::empty());
    while i < chars.len()
        invariant
            i <= chars.len(),
            chars@ == s@,
            value == digits_value(s@.take(i as int)),
            forall|k: int| 0 <= k < i ==> is_digit(#[trigger] s@[k]),
        decreases chars.len() - i,
    {
        let c = chars[i];
        if c < '0' || c > '9' {
            assert(!is_digit(s@[i as int]));
            return None;
        }
        let digit: u32 = c as u32 - '0' as u32;
        proof {
            assert(s@.take(i + 1).drop_last() =~= s@.take(i as int));
            assert(s@.take(i + 1).last() == c);
            lemma_digits_grow(s@, i + 1);
        }
        if value > (u32::MAX - digit) / 10 {
            return None;
        }
        value = value * 10 + digit;
        i += 1;
    }
    assert(s@.take(i as int) =~= s@);
    Some(value)
}

/// A reference without its pointer, and the pointer after the first `#`.
pub open spec fn without_pointer(raw: Seq<char>) -> (Seq<char>, Option<Seq<char>>) {
    match first_at(raw, "#"@, 0) {
        Some(i) => (raw.take(i), Some(raw.skip(i + 1))),
        None => (raw, None),
    }
}

/// The diagnostic for a reference that names nothing.
pub open spec fn unknown_reference(raw: Seq<char>) -> DiagnosticV {
    diag(Code::InvalidAlias, "unknown reference "@ + quoted(raw)).with_ref(raw)
}

/// The diagnostic for a builtin whose version is no number.
pub open spec fn bad_version(raw: Seq<char>) -> DiagnosticV {
    diag(Code::UnsupportedAssetVersion, "invalid version in "@ + quoted(raw)).with_ref(raw)
}

/// Where a reference leads. Builtins have a name and a version; aliases are
/// those of the project, whose files lie below its root; any other reference
/// is the path of a file, from the directory of the request.
pub open spec fn resolved_reference(
    raw: Seq<char>,
    aliases: Seq<(Seq<char>, Seq<char>)>,
    root: Seq<char>,
    base_dir: Seq<char>,
) -> Result<AssetV, DiagnosticV> {
    let (name, pointer) = without_pointer(raw);
    if has_prefix(name, "builtin:"@) {
        let rest = name.skip(8);
        match first_at(rest, "@"@, 0) {
            None => Ok(AssetV { raw, scheme: RefScheme::Builtin, address: rest, pointer, version: None }),
            Some(i) => match version_of(rest.skip(i + 1)) {
                None => Err(bad_version(raw)),
                Some(v) => Ok(
                    AssetV { raw, scheme: RefScheme::Builtin, address: rest.take(i), pointer, version: Some(v) },
                ),
            },
        }
    } else if has_prefix(name, "data:"@) || has_prefix(name, "project:"@) {
        match lookup(aliases, name) {
            None => Err(unknown_reference(raw)),
            Some(path) => Ok(
                AssetV {
                    raw,
                    scheme: if has_prefix(name, "data:"@) {
                        RefScheme::Data
                    } else {
                        RefScheme::Project
                    },
                    address: joined_path(root, path),
                    pointer,
                    version: None,
                },
            ),
        }
    } else {
        Ok(AssetV { raw, scheme: RefScheme::File, address: joined_path(base_dir, name), pointer, version: None })
    }
}

/// Find out where a reference leads.
pub fn resolve_reference(raw: &str, aliases: &TextMap<String>, root: &str, base_dir: &str) -> (r: Located)
    ensures
        r@ == resolved_reference(raw@, aliases@, root@, base_dir@),
{
    proof {
        reveal_strlit("#");
        reveal_strlit("@");
        reveal_strlit("builtin:");
        lemma_first_at(raw@, "#"@, 0);
    }
    let chars = chars_of(raw);
    let n: usize = chars.len();
    let (name, pointer) = match find_from(&chars, &chars_of("#"), 0) {
        Some(i) => {
            assert(raw@.subrange(0, i as int) =~= raw@.take(i as int));
            assert(raw@.subrange(i + 1, n as int) =~= raw@.skip(i + 1));
            (text_between(&chars, 0, i), Some(text_between(&chars, i + 1, n)))
        },
        None => (raw.to_owned(), None),
    };
    if starts_with(name.as_str(), "builtin:") {
        let all = chars_of(name.as_str());
        let m: usize = all.len();
        assert(name@.subrange(8, m as int) =~= name@.skip(8));
        let rest = text_between(&all, 8, m);
        let letters = chars_of(rest.as_str());
        let k: usize = letters.len();
        proof {
            lemma_first_at(rest@, "@"@, 0);
        }
        return match find_from(&letters, &chars_of("@"), 0) {
            None => Located::Found(
                AssetDescriptor {
                    raw: raw.to_owned(),
                    scheme: RefScheme::Builtin,
                    address: rest,
                    pointer,
                    version: None,
                },
            ),
            Some(i) => {
                assert(rest@.subrange(0, i as int) =~= rest@.take(i as int));
                assert(rest@.subrange(i + 1, k as int) =~= rest@.skip(i + 1));
                match parse_version(text_between(&letters, i + 1, k).as_str()) {
                    None => Located::Missing(
                        Diagnostic::new(
                            Code::UnsupportedAssetVersion,
                            cat2("invalid version in ", quote(raw).as_str()),
                        ).with_ref(raw),
                    ),
                    Some(v) => Located::Found(
                        AssetDescriptor {
                            raw: raw.to_owned(),
                            scheme: RefScheme::Builtin,
                            address: text_between(&letters, 0, i),
                            pointer,
                            version: Some(v),
                        },
                    ),
                }
            },
        };
    }
    let data = starts_with(name.as_str(), "data:");
    if data || starts_with(name.as_str(), "project:") {
        return match aliases.get(name.as_str()) {
            None => Located::Missing(
                Diagnostic::new(Code::InvalidAlias, cat2("unknown reference ", quote(raw).as_str())).with_ref(raw),
            ),
            Some(path) => Located::Found(
                AssetDescriptor {
                    raw: raw.to_owned(),
                    scheme: if data {
                        RefScheme::Data
                    } else {
                        RefScheme::Project
                    },
                    address: resolve_body_path(root, path.as_str()),
                    pointer,
                    version: None,
                },
            ),
        };
    }
    Located::Found(
        AssetDescriptor {
            raw: raw.to_owned(),
            scheme: RefScheme::File,
            address: resolve_body_path(base_dir, name.as_str()),
            pointer,
            version: None,
        },
    )
}

/// The data that a reference leads to: the text of its file as JSON, and in it
/// what the pointer leads to.
pub open spec fn data_at(
    raw: Seq<char>,
    pointer: Option<Seq<char>>,
    file: Result<Seq<char>, Seq<char>>,
) -> Result<JsonV, DiagnosticV> {
    match file {
        Err(e) => Err(diag(Code::AssetNotFound, quoted(raw) + ": "@ + e).with_ref(raw)),
        Ok(text) => match json_parse(text) {
            Err(e) => Err(diag(Code::InvalidAssetInput, quoted(raw) + ": "@ + e).with_ref(raw)),
            Ok(v) => match pointer {
                None => Ok(v),
                Some(p) => match at_pointer(v, p) {
                    Some(found) => Ok(found),
                    None => Err(
                        diag(Code::InvalidPointer, quoted(raw) + ": the pointer leads nowhere"@).with_ref(raw),
                    ),
                },
            },
        },
    }
}

/// Read the data that a reference leads to. `file` is the text of its file, or
/// why it cannot be read.
pub fn read_data(raw: &str, pointer: Option<&str>, file: Result<String, String>) -> (r: Loaded)
    ensures
        r@ == data_at(
            raw@,
            ref_view(pointer),
            match file {
                Ok(s) => Ok(s@),
                Err(e) => Err(e@),
            },
        ),
{
    let text = match file {
        Ok(text) => text,
        Err(e) => {
            let message = cat3(quote(raw).as_str(), ": ", e.as_str());
            return Loaded::Missing(Diagnostic::new(Code::AssetNotFound, message).with_ref(raw));
        },
    };
    match parse(text.as_str()) {
        Err(e) => {
            let message = cat3(quote(raw).as_str(), ": ", e.as_str());
            Loaded::Missing(Diagnostic::new(Code::InvalidAssetInput, message).with_ref(raw))
        },
        Ok(v) => match pointer {
            None => Loaded::Value(v),
            Some(p) => match find(&v, p) {
                Some(found) => Loaded::Value(found.copy()),
                None => {
                    let message = cat2(quote(raw).as_str(), ": the pointer leads nowhere");
                    Loaded::Missing(Diagnostic::new(Code::InvalidPointer, message).with_ref(raw))
                },
            },
        },
    }
}

// ---------------------------------------------------------------------
// The references of a document
// ---------------------------------------------------------------------

/// The references of the first `n` bindings.
pub open spec fn binding_refs(bindings: Seq<(Seq<char>, BindingV)>, n: int) -> Seq<Seq<char>>
    decreases n,
{
    if n <= 0 || n > bindings.len() {
        seq![]
    } else {
        let before = binding_refs(bindings, n - 1);
        match bindings[n - 1].1 {
            BindingV::Value(_) => before,
            BindingV::Ref { reference, .. } => before.push(reference),
            BindingV::Use { uses, .. } => before.push(uses),
        }
    }
}

/// The references of a body.
pub open spec fn body_refs(body: Option<BodySpecV>) -> Seq<Seq<char>> {
    match body {
        Some(BodySpecV::Ref { reference, .. }) => seq![reference],
        _ => seq![],
    }
}

/// The references of a mock.
pub open spec fn mock_refs(mock: Option<MockDefV>) -> Seq<Seq<char>> {
    match mock {
        Some(MockDefV::Dynamic { uses, .. }) => seq![uses],
        Some(MockDefV::Static { body, .. }) => body_refs(body),
        None => seq![],
    }
}

/// The assets of a pipeline.
pub open spec fn pipeline_refs(entries: Seq<PipelineEntryV>) -> Seq<Seq<char>> {
    Seq::new(entries.len(), |i: int| entries[i].uses)
}

/// The references of a document, in the order in which they stand in it.
pub open spec fn document_refs(doc: DocumentV) -> Seq<Seq<char>> {
    binding_refs(doc.bindings, doc.bindings.len() as int) + binding_refs(doc.matrix, doc.matrix.len() as int)
        + body_refs(doc.request.body) + pipeline_refs(doc.pipeline) + mock_refs(doc.mock)
}

fn put_bindings(bindings: &TextMap<Binding>, out: &mut Vec<String>)
    ensures
        views(final(out)@) == views(old(out)@) + binding_refs(bindings@, bindings@.len() as int),
{
    broadcast use group_views;

    let ghost start = views(out@);
    let ghost all = bindings@;
    let mut i: usize = 0;
    assert(start + Seq::<Seq<char>>::empty() =~= start);
    while i < bindings.pairs.len()
        invariant
            i <= bindings.pairs.len(),
            all == bindings@,
            views(out@) == start + binding_refs(all, i as int),
        decreases bindings.pairs.len() - i,
    {
        let ghost before = binding_refs(all, i as int);
        assert(all[i as int].1 == bindings.pairs@[i as int].1@);
        match &bindings.pairs[i].1 {
            Binding::Value(_) => {},
            Binding::Ref(b) => {
                out.push(b.reference.clone());
                assert((start + before).push(b.reference@) =~= start + before.push(b.reference@));
            },
            Binding::Use(b) => {
                out.push(b.uses.clone());
                assert((start + before).push(b.uses@) =~= start + before.push(b.uses@));
            },
        }
        i += 1;
    }
}

fn put_body(body: &Option<BodySpec>, out: &mut Vec<String>)
    ensures
        views(final(out)@) == views(old(out)@) + body_refs(opt_view(*body)),
{
    broadcast use group_views;

    let ghost start = views(out@);
    assert(start + Seq::<Seq<char>>::empty() =~= start);
    match body {
        Some(BodySpec::Ref(b)) => {
            out.push(b.reference.clone());
            assert(start.push(b.reference@) =~= start + seq![b.reference@]);
        },
        _ => {},
    }
}

fn put_pipeline(entries: &Vec<PipelineEntry>, out: &mut Vec<String>)
    ensures
        views(final(out)@) == views(old(out)@) + pipeline_refs(views(entries@)),
{
    broadcast use group_views;

    let ghost start = views(out@);
    let ghost all = views(entries@);
    let mut i: usize = 0;
    assert(start + pipeline_refs(all).take(0) =~= start);
    while i < entries.len()
        invariant
            i <= entries.len(),
            all == views(entries@),
            views(out@) == start + pipeline_refs(all).take(i as int),
        decreases entries.len() - i,
    {
        out.push(entries[i].uses.clone());
        assert(pipeline_refs(all)[i as int] == entries@[i as int]@.uses);
        assert((start + pipeline_refs(all).take(i as int)).push(pipeline_refs(all)[i as int]) =~= start
            + pipeline_refs(all).take(i + 1));
        i += 1;
    }
    assert(pipeline_refs(all).take(i as int) =~= pipeline_refs(all));
}

/// The references of a document, in the order in which they stand in it: what
/// is to be looked up before the document is resolved.
pub fn references(doc: &RequestDocument) -> (r: Vec<String>)
    ensures
        views(r@) == document_refs(doc@),
{
    broadcast use group_views;

    let mut out: Vec<String> = Vec::new();
    put_bindings(&doc.bindings, &mut out);
    put_bindings(&doc.matrix, &mut out);
    put_body(&doc.request.body, &mut out);
    put_pipeline(&doc.pipeline, &mut out);
    let ghost before = views(out@);
    match &doc.mock {
        Some(MockDef::Dynamic(m)) => {
            out.push(m.uses.clone());
            assert(before.push(m.uses@) =~= before + seq![m.uses@]);
        },
        Some(MockDef::Static(m)) => {
            put_body(&m.body, &mut out);
        },
        None => {
            assert(before + mock_refs(doc@.mock) =~= before);
        },
    }
    assert(views(out@) =~= document_refs(doc@));
    out
}

// ---------------------------------------------------------------------
// Laws
// ---------------------------------------------------------------------

/// Whatever a builtin is called, its name and version are read back from how
/// it is written, unless the name holds `@` or `#`.
pub proof fn lemma_builtin_is_read_back(
    name: Seq<char>,
    version: u32,
    aliases: Seq<(Seq<char>, Seq<char>)>,
    root: Seq<char>,
    base_dir: Seq<char>,
)
    requires
        !name.contains('@'),
        !name.contains('#'),
    ensures
        ({
            let raw = "builtin:"@ + name + "@"@ + decimal(version as nat);
            resolved_reference(raw, aliases, root, base_dir) == Ok::<AssetV, DiagnosticV>(
                AssetV {
                    raw,
                    scheme: RefScheme::Builtin,
                    address: name,
                    pointer: None,
                    version: Some(version),
                },
            )
        }),
{
    reveal_strlit("builtin:");
    reveal_strlit("#");
    reveal_strlit("@");
    let digits = decimal(version as nat);
    let raw = "builtin:"@ + name + "@"@ + digits;
    lemma_decimal_value(version as nat);
    assert forall|i: int| 0 <= i < raw.len() implies #[trigger] raw[i] != '#' by {
        if 8 <= i < 8 + name.len() {
            assert(name.contains(name[i - 8]));
        } else if i > 8 + name.len() {
            assert(is_digit(digits[i - 9 - name.len()]));
        }
    }
    lemma_first_at(raw, "#"@, 0);
    if let Some(i) = first_at(raw, "#"@, 0) {
        assert(raw.subrange(i, i + 1)[0] == raw[i]);
        assert("#"@[0] == '#');
    }
    let rest = raw.skip(8);
    assert(rest =~= name + "@"@ + digits);
    assert(raw.subrange(0, 8) =~= "builtin:"@);
    lemma_first_at(rest, "@"@, 0);
    let at = name.len() as int;
    assert(rest.subrange(at, at + 1) =~= "@"@);
    assert(occurs_at(rest, "@"@, at));
    assert forall|i: int| 0 <= i < at implies !#[trigger] occurs_at(rest, "@"@, i) by {
        assert(rest.subrange(i, i + 1)[0] == name[i]);
        assert(name.contains(name[i]));
        assert("@"@[0] == '@');
    }
    assert(first_at(rest, "@"@, 0) == Some(at));
    assert(rest.skip(at + 1) =~= digits);
    assert(rest.take(at) =~= name);
}

} // verus!
