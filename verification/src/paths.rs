//! File paths by their components, as `/`-separated texts.

use vstd::prelude::*;

use crate::text::{cat2, same, starts_with};
use crate::view::{group_views, opt_view, views};
use crate::words::{join, joined, split, split_on};

verus! {

broadcast use vstd::string::group_string_axioms;

/// The pieces of a path that count: empty ones are dropped, and so is `.`
/// anywhere but at the front of a relative path.
pub open spec fn kept_pieces(pieces: Seq<Seq<char>>, absolute: bool) -> Seq<Seq<char>>
    decreases pieces.len(),
{
    if pieces.len() == 0 {
        seq![]
    } else {
        let before = kept_pieces(pieces.drop_last(), absolute);
        let piece = pieces.last();
        if piece.len() == 0 || (piece == seq!['.'] && (absolute || pieces.len() > 1)) {
            before
        } else {
            before.push(piece)
        }
    }
}

/// A path that begins with `/`.
pub open spec fn is_absolute(path: Seq<char>) -> bool {
    path.len() > 0 && path[0] == '/'
}

/// The components of a path; the first one of an absolute path is `/`.
pub open spec fn path_parts(path: Seq<char>) -> Seq<Seq<char>> {
    let kept = kept_pieces(split_on(path, '/'), is_absolute(path));
    if is_absolute(path) {
        seq![seq!['/']] + kept
    } else {
        kept
    }
}

/// The components of `path` begin with those of `base`.
pub open spec fn lies_under(path: Seq<char>, base: Seq<char>) -> bool {
    let p = path_parts(path);
    let b = path_parts(base);
    b.len() <= p.len() && p.take(b.len() as int) == b
}

/// Two paths with the same components.
pub open spec fn same_path(a: Seq<char>, b: Seq<char>) -> bool {
    path_parts(a) == path_parts(b)
}

/// Whether a path begins with `/`.
pub fn absolute(path: &str) -> (r: bool)
    ensures
        r == is_absolute(path@),
{
    proof {
        reveal_strlit("/");
        assert("/"@ =~= seq!['/']);
        if path@.len() > 0 {
            assert(path@.subrange(0, 1) =~= seq![path@[0]]);
            assert(path@[0] == '/' ==> path@.subrange(0, 1) =~= seq!['/']);
            assert(path@.subrange(0, 1) == seq!['/'] ==> path@.subrange(0, 1)[0] == '/');
        }
    }
    starts_with(path, "/")
}

/// The components of a path.
pub fn parts_of(path: &str) -> (r: Vec<String>)
    ensures
        views(r@) == path_parts(path@),
{
    broadcast use group_views;

    proof {
        reveal_strlit("/");
        reveal_strlit(".");
        assert("/"@ =~= seq!['/']);
        assert("."@ =~= seq!['.']);
    }
    let rooted = absolute(path);
    let pieces = split(path, '/');
    let ghost all = views(pieces@);
    let mut out: Vec<String> = Vec::new();
    if rooted {
        out.push("/".to_owned());
    }
    let ghost base = views(out@);
    assert(base =~= if rooted {
        seq![seq!['/']]
    } else {
        seq![]
    });
    let mut i: usize = 0;
    assert(all.take(0) =~= Seq::empty());
    assert(base + Seq::<Seq<char>>::empty() =~= base);
    while i < pieces.len()
        invariant
            i <= pieces.len(),
            all == views(pieces@),
            "."@ == seq!['.'],
            views(out@) == base + kept_pieces(all.take(i as int), rooted),
        decreases pieces.len() - i,
    {
        assert(all.take(i + 1).drop_last() =~= all.take(i as int));
        assert(all.take(i + 1).last() == pieces@[i as int]@);
        let piece = pieces[i].as_str();
        if !(piece.unicode_len() == 0 || (same(piece, ".") && (rooted || i > 0))) {
            let ghost before = kept_pieces(all.take(i as int), rooted);
            out.push(pieces[i].clone());
            assert((base + before).push(pieces@[i as int]@) =~= base + before.push(pieces@[i as int]@));
        }
        i += 1;
    }
    assert(all.take(i as int) =~= all);
    assert(base + kept_pieces(all, rooted) =~= path_parts(path@));
    out
}

/// Whether the texts of `b` are the first texts of `a`.
fn begins_with(a: &Vec<String>, b: &Vec<String>) -> (r: bool)
    ensures
        r == (b@.len() <= a@.len() && views(a@).take(b@.len() as int) == views(b@)),
{
    if b.len() > a.len() {
        return false;
    }
    let ghost x = views(a@);
    let ghost y = views(b@);
    let mut i: usize = 0;
    while i < b.len()
        invariant
            i <= b.len() <= a.len(),
            x == views(a@),
            y == views(b@),
            forall|k: int| 0 <= k < i ==> x[k] == y[k],
        decreases b.len() - i,
    {
        if !same(a[i].as_str(), b[i].as_str()) {
            assert(x.take(b@.len() as int)[i as int] != y[i as int]);
            return false;
        }
        i += 1;
    }
    assert(x.take(b@.len() as int) =~= y);
    true
}

/// Whether the components of `path` begin with those of `base`.
pub fn under(path: &str, base: &str) -> (r: bool)
    ensures
        r == lies_under(path@, base@),
{
    let p = parts_of(path);
    let b = parts_of(base);
    assert(views(p@).len() == p@.len() && views(b@).len() == b@.len());
    begins_with(&p, &b)
}

/// Whether two paths have the same components.
pub fn equal_paths(a: &str, b: &str) -> (r: bool)
    ensures
        r == same_path(a@, b@),
{
    let x = parts_of(a);
    let y = parts_of(b);
    assert(views(x@).len() == x@.len() && views(y@).len() == y@.len());
    assert(views(x@).take(x@.len() as int) =~= views(x@));
    x.len() == y.len() && begins_with(&x, &y)
}

/// Whether `..` is among the components of a path.
pub fn climbs(path: &str) -> (r: bool)
    ensures
        r == path_parts(path@).contains(seq!['.', '.']),
{
    proof {
        reveal_strlit("..");
        assert(".."@ =~= seq!['.', '.']);
    }
    let parts = parts_of(path);
    let ghost all = views(parts@);
    let mut i: usize = 0;
    while i < parts.len()
        invariant
            i <= parts.len(),
            all == views(parts@),
            all == path_parts(path@),
            ".."@ == seq!['.', '.'],
            forall|k: int| 0 <= k < i ==> all[k] != seq!['.', '.'],
        decreases parts.len() - i,
    {
        if same(parts[i].as_str(), "..") {
            assert(all[i as int] =~= seq!['.', '.']);
            assert(all.contains(all[i as int]));
            return true;
        }
        i += 1;
    }
    false
}

/// The path that components make.
pub open spec fn path_of(parts: Seq<Seq<char>>) -> Seq<char> {
    if parts.len() > 0 && parts[0] == seq!['/'] {
        "/"@ + joined(parts.skip(1), "/"@)
    } else {
        joined(parts, "/"@)
    }
}

/// The path without its last component; nothing is above `/` and above the
/// empty path.
pub open spec fn parent_path(path: Seq<char>) -> Option<Seq<char>> {
    let parts = path_parts(path);
    if parts.len() == 0 || (parts.len() == 1 && is_absolute(path)) {
        None
    } else {
        Some(path_of(parts.drop_last()))
    }
}

/// The path that components make.
pub fn join_parts(parts: Vec<String>) -> (r: String)
    ensures
        r@ == path_of(views(parts@)),
{
    proof {
        reveal_strlit("/");
        assert("/"@ =~= seq!['/']);
    }
    let mut parts = parts;
    if parts.len() > 0 {
        assert(views(parts@)[0] == parts@[0]@);
        if same(parts[0].as_str(), "/") {
            let ghost above = views(parts@);
            let _ = parts.remove(0);
            assert(views(parts@) =~= above.skip(1));
            return cat2("/", join(&parts, "/").as_str());
        }
    }
    join(&parts, "/")
}

/// The path without its last component.
pub fn parent_of(path: &str) -> (r: Option<String>)
    ensures
        opt_view(r) == parent_path(path@),
{
    let mut parts = parts_of(path);
    let ghost all = views(parts@);
    assert(all.len() == parts@.len());
    if parts.len() == 0 || (parts.len() == 1 && absolute(path)) {
        return None;
    }
    let _ = parts.pop();
    assert(views(parts@) =~= all.drop_last());
    Some(join_parts(parts))
}

} // verus!
