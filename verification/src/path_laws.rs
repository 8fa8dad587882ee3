//! What holds of paths: their parts, what lies below what, and how they are put
//! together.

use vstd::prelude::*;

use crate::paths::{is_absolute, kept_pieces, lies_under, parent_path, path_parts, same_path};
use crate::runner::resolve::{file_name, joined_path};
use crate::store::file_stem;
use crate::words::{joined, lemma_split_joined};

verus! {

broadcast use vstd::string::group_string_axioms;

/// Names of files and directories: not empty, without slashes, and neither `.`
/// nor `..`.
pub open spec fn plain(parts: Seq<Seq<char>>) -> bool {
    forall|i: int|
        0 <= i < parts.len() ==> (#[trigger] parts[i]).len() > 0 && !parts[i].contains('/') && parts[i] != seq!['.']
            && parts[i] != seq!['.', '.']
}

proof fn lemma_plain_kept(pieces: Seq<Seq<char>>, absolute: bool)
    requires
        plain(pieces),
    ensures
        kept_pieces(pieces, absolute) == pieces,
    decreases pieces.len(),
{
    if pieces.len() > 0 {
        let less = pieces.drop_last();
        assert forall|i: int| 0 <= i < less.len() implies (#[trigger] less[i]).len() > 0 && !less[i].contains('/')
            && less[i] != seq!['.'] && less[i] != seq!['.', '.'] by {
            assert(less[i] == pieces[i]);
        }
        lemma_plain_kept(less, absolute);
        assert(pieces[pieces.len() - 1].len() > 0);
        assert(less.push(pieces.last()) =~= pieces);
    }
}

proof fn lemma_front(pieces: Seq<Seq<char>>, absolute: bool)
    requires
        plain(pieces),
        absolute,
    ensures
        kept_pieces(seq![Seq::<char>::empty()] + pieces, absolute) == pieces,
    decreases pieces.len(),
{
    let all = seq![Seq::<char>::empty()] + pieces;
    if pieces.len() == 0 {
        assert(all.drop_last() =~= Seq::empty());
        assert(kept_pieces(all.drop_last(), absolute).len() == 0);
        assert(kept_pieces(all, absolute) =~= pieces);
    } else {
        let less = pieces.drop_last();
        assert forall|i: int| 0 <= i < less.len() implies (#[trigger] less[i]).len() > 0 && !less[i].contains('/')
            && less[i] != seq!['.'] && less[i] != seq!['.', '.'] by {
            assert(less[i] == pieces[i]);
        }
        lemma_front(less, absolute);
        assert(all.drop_last() =~= seq![Seq::<char>::empty()] + less);
        assert(pieces[pieces.len() - 1].len() > 0);
        assert(less.push(pieces.last()) =~= pieces);
    }
}

/// A path that is written as names with slashes between them has those names as
/// its parts; with a slash before them it is absolute, and the slash is its
/// first part.
pub proof fn lemma_path_has_its_names_as_parts(parts: Seq<Seq<char>>)
    requires
        plain(parts),
        parts.len() > 0,
    ensures
        path_parts(joined(parts, "/"@)) == parts,
        path_parts("/"@ + joined(parts, "/"@)) == seq![seq!['/']] + parts,
        !is_absolute(joined(parts, "/"@)),
        is_absolute("/"@ + joined(parts, "/"@)),
{
    reveal_strlit("/");
    assert("/"@ =~= seq!['/']);
    let path = joined(parts, "/"@);
    lemma_split_joined(parts, '/');
    lemma_first_char(parts);
    lemma_plain_kept(parts, false);
    let whole = seq![Seq::<char>::empty()] + parts;
    assert forall|i: int| 0 <= i < whole.len() implies !(#[trigger] whole[i]).contains('/') by {
        if i > 0 {
            assert(whole[i] == parts[i - 1]);
        }
    }
    lemma_joined_front(parts);
    lemma_split_joined(whole, '/');
    lemma_front(parts, true);
}

proof fn lemma_first_char(parts: Seq<Seq<char>>)
    requires
        plain(parts),
        parts.len() > 0,
    ensures
        joined(parts, seq!['/']).len() > 0,
        joined(parts, seq!['/'])[0] == parts[0][0],
        joined(parts, seq!['/'])[0] != '/',
    decreases parts.len(),
{
    assert(parts[0].len() > 0 && !parts[0].contains('/'));
    assert(parts[0].contains(parts[0][0]));
    if parts.len() > 1 {
        let less = parts.drop_last();
        assert forall|i: int| 0 <= i < less.len() implies (#[trigger] less[i]).len() > 0 && !less[i].contains('/')
            && less[i] != seq!['.'] && less[i] != seq!['.', '.'] by {
            assert(less[i] == parts[i]);
        }
        lemma_first_char(less);
    }
}

proof fn lemma_joined_front(parts: Seq<Seq<char>>)
    requires
        parts.len() > 0,
    ensures
        joined(seq![Seq::<char>::empty()] + parts, seq!['/']) == seq!['/'] + joined(parts, seq!['/']),
    decreases parts.len(),
{
    let whole = seq![Seq::<char>::empty()] + parts;
    let less = parts.drop_last();
    assert(whole.drop_last() =~= seq![Seq::<char>::empty()] + less);
    if parts.len() == 1 {
        assert(less =~= Seq::empty());
        let front = whole.drop_last();
        assert(front =~= seq![Seq::<char>::empty()]);
        assert(joined(front, seq!['/']) == front[0]);
        assert(joined(whole, seq!['/']) == joined(front, seq!['/']) + seq!['/'] + whole.last());
        assert(joined(whole, seq!['/']) =~= seq!['/'] + parts[0]);
    } else {
        lemma_joined_front(less);
        assert(joined(whole, seq!['/']) =~= seq!['/'] + joined(parts, seq!['/']));
    }
}

/// One path lies under another exactly where its parts begin with those of the
/// other; so each lies under itself. Two are the same where their parts are.
pub proof fn lemma_path_lies_under_its_beginnings(path: Seq<char>, base: Seq<char>)
    ensures
        lies_under(path, path),
        lies_under(path, base) <==> path_parts(base).len() <= path_parts(path).len() && forall|i: int|
            0 <= i < path_parts(base).len() ==> #[trigger] path_parts(path)[i] == path_parts(base)[i],
        same_path(path, base) <==> path_parts(path) == path_parts(base),
        lies_under(path, base) && lies_under(base, path) ==> same_path(path, base),
{
    let p = path_parts(path);
    let b = path_parts(base);
    assert(p.take(p.len() as int) =~= p);
    if b.len() <= p.len() {
        if p.take(b.len() as int) == b {
            assert forall|i: int| 0 <= i < b.len() implies #[trigger] p[i] == b[i] by {
                assert(p.take(b.len() as int)[i] == b[i]);
            }
        }
        if forall|i: int| 0 <= i < b.len() ==> #[trigger] p[i] == b[i] {
            assert(p.take(b.len() as int) =~= b);
        }
    }
    if lies_under(path, base) && lies_under(base, path) {
        assert(p.take(b.len() as int) =~= p);
    }
}

/// A path that is put below a root stands behind it, with one slash between
/// them; an absolute path stands alone.
pub proof fn lemma_path_is_put_below_its_root(root: Seq<char>, path: Seq<char>)
    ensures
        path.len() > 0 && path[0] == '/' ==> joined_path(root, path) == path,
        root.len() == 0 ==> joined_path(root, path) == path,
        (path.len() == 0 || path[0] != '/') && root.len() > 0 && root.last() != '/' ==> joined_path(root, path) == root
            + "/"@ + path,
        (path.len() == 0 || path[0] != '/') && root.len() > 0 && root.last() == '/' ==> joined_path(root, path) == root
            + path,
{
}

/// The name of a file is the last part of its path, and the directory that it is
/// in is the path of the others.
pub proof fn lemma_file_is_the_last_part(parts: Seq<Seq<char>>)
    requires
        plain(parts),
        parts.len() > 0,
    ensures
        file_name(joined(parts, "/"@)) == Some(parts.last()),
        parent_path(joined(parts, "/"@)) == Some(joined(parts.drop_last(), "/"@)),
{
    reveal_strlit("/");
    reveal_strlit(".");
    reveal_strlit("..");
    assert("/"@ =~= seq!['/']);
    assert("."@ =~= seq!['.']);
    assert(".."@ =~= seq!['.', '.']);
    lemma_path_has_its_names_as_parts(parts);
    let last = parts[parts.len() - 1];
    assert(!last.contains('/'));
    if last == "/"@ {
        assert(last.contains(last[0]));
    }
    let less = parts.drop_last();
    if less.len() > 0 {
        assert(less[0] == parts[0]);
        assert(!parts[0].contains('/'));
        if less[0] == seq!['/'] {
            assert(parts[0].contains(parts[0][0]));
        }
    }
}

/// The file of a request has the letters and digits of its name, in lower case,
/// and a hyphen for everything else.
pub proof fn lemma_file_has_the_letters_of_its_name(name: Seq<char>, i: int)
    requires
        0 <= i < name.len(),
    ensures
        file_stem(name).len() == name.len(),
        'a' <= name[i] <= 'z' || '0' <= name[i] <= '9' ==> file_stem(name)[i] == name[i],
        'A' <= name[i] <= 'Z' ==> file_stem(name)[i] as u32 == name[i] as u32 + 32,
        !('a' <= name[i] <= 'z') && !('0' <= name[i] <= '9') && !('A' <= name[i] <= 'Z') ==> file_stem(name)[i] == '-',
{
    assert('A' as u32 == 65 && 'Z' as u32 == 90);
}

} // verus!
