//! Masking of secret values in text.

use vstd::prelude::*;

use crate::text::{has_prefix, occurs, occurs_at, replace_all, replaced};
use crate::view::views;

verus! {

broadcast use vstd::string::group_string_axioms;

/// What stands in place of a secret.
pub open spec fn veil() -> Seq<char> {
    seq!['*', '*', '*']
}

/// `s` with each secret in turn replaced by three stars.
pub open spec fn masked(secrets: Seq<Seq<char>>, s: Seq<char>) -> Seq<char>
    decreases secrets.len(),
{
    if secrets.len() == 0 {
        s
    } else {
        replaced(masked(secrets.drop_last(), s), secrets.last(), veil())
    }
}

/// Replace each secret in turn by three stars; an empty secret hides nothing.
pub fn mask_text(secrets: &Vec<String>, s: &str) -> (r: String)
    ensures
        r@ == masked(views(secrets@), s@),
{
    proof {
        reveal_strlit("***");
        assert("***"@ =~= veil());
    }
    let ghost all = views(secrets@);
    let mut out = s.to_owned();
    let mut i: usize = 0;
    while i < secrets.len()
        invariant
            i <= secrets.len(),
            all == views(secrets@),
            "***"@ == veil(),
            out@ == masked(all.take(i as int), s@),
        decreases secrets.len() - i,
    {
        out = replace_all(out.as_str(), secrets[i].as_str(), "***");
        assert(all.take(i + 1).drop_last() =~= all.take(i as int));
        i += 1;
    }
    assert(all.take(i as int) =~= all);
    out
}

/// No star in `s`.
pub open spec fn star_free(s: Seq<char>) -> bool {
    forall|i: int| 0 <= i < s.len() ==> #[trigger] s[i] != '*'
}

/// A beginning of the masked text without a star is a beginning of the text.
proof fn lemma_star_free_prefix(s: Seq<char>, pat: Seq<char>, n: int)
    requires
        0 <= n <= replaced(s, pat, veil()).len(),
        star_free(replaced(s, pat, veil()).take(n)),
    ensures
        n <= s.len(),
        s.take(n) == replaced(s, pat, veil()).take(n),
    decreases s.len(),
{
    let r = replaced(s, pat, veil());
    if pat.len() == 0 || s.len() < pat.len() {
    } else if n == 0 {
        assert(s.take(0) =~= r.take(0));
    } else if has_prefix(s, pat) {
        assert(r[0] == '*');
        assert(r.take(n)[0] == '*');
    } else {
        let rest = replaced(s.skip(1), pat, veil());
        assert(r =~= seq![s[0]] + rest);
        assert(rest.take(n - 1) =~= r.take(n).skip(1));
        assert forall|i: int| 0 <= i < n - 1 implies #[trigger] rest.take(n - 1)[i] != '*' by {
            assert(r.take(n)[i + 1] != '*');
        }
        lemma_star_free_prefix(s.skip(1), pat, n - 1);
        assert(s.take(n) =~= seq![s[0]] + s.skip(1).take(n - 1));
        assert(r.take(n) =~= seq![s[0]] + rest.take(n - 1));
    }
}

/// A text without a star that stands in the masked text stands in the text,
/// at the front if it stood at the front.
proof fn lemma_star_free_occurrence(s: Seq<char>, pat: Seq<char>, q: Seq<char>, at: int)
    requires
        star_free(q),
        q.len() > 0,
        occurs_at(replaced(s, pat, veil()), q, at),
    ensures
        occurs(s, q),
    decreases s.len(),
{
    let r = replaced(s, pat, veil());
    if at == 0 {
        assert(r.take(q.len() as int) =~= q);
        lemma_star_free_prefix(s, pat, q.len() as int);
        assert(s.subrange(0, q.len() as int) =~= s.take(q.len() as int));
        assert(occurs_at(s, q, 0));
    } else if pat.len() == 0 || s.len() < pat.len() {
    } else {
        let (drop, front): (int, int) = if has_prefix(s, pat) {
            (pat.len() as int, 3)
        } else {
            (1, 1)
        };
        let rest = replaced(s.skip(drop), pat, veil());
        if at < front {
            assert(q[0] == r[at]);
        } else {
            assert(rest.subrange(at - front, at - front + q.len()) =~= r.subrange(at, at + q.len()));
            lemma_star_free_occurrence(s.skip(drop), pat, q, at - front);
            let k = choose|k: int| #[trigger] occurs_at(s.skip(drop), q, k);
            assert(s.subrange(drop + k, drop + k + q.len()) =~= s.skip(drop).subrange(k, k + q.len()));
            assert(occurs_at(s, q, drop + k));
        }
    }
}

/// The text that was replaced does not stand in the outcome.
proof fn lemma_replaced_is_gone(s: Seq<char>, pat: Seq<char>, at: int)
    requires
        star_free(pat),
        pat.len() > 0,
    ensures
        !occurs_at(replaced(s, pat, veil()), pat, at),
    decreases s.len(),
{
    let r = replaced(s, pat, veil());
    if occurs_at(r, pat, at) && s.len() >= pat.len() {
        let (drop, front): (int, int) = if has_prefix(s, pat) {
            (pat.len() as int, 3)
        } else {
            (1, 1)
        };
        let rest = replaced(s.skip(drop), pat, veil());
        if at >= front {
            assert(rest.subrange(at - front, at - front + pat.len()) =~= r.subrange(at, at + pat.len()));
            lemma_replaced_is_gone(s.skip(drop), pat, at - front);
        } else if has_prefix(s, pat) {
            assert(pat[0] == r[at]);
        } else {
            assert(r.take(pat.len() as int) =~= pat);
            lemma_star_free_prefix(s, pat, pat.len() as int);
            assert(s.subrange(0, pat.len() as int) =~= s.take(pat.len() as int));
        }
    }
}

/// No secret stands in the masked text, unless the secret is empty or holds a
/// star itself.
pub proof fn lemma_masked_hides(secrets: Seq<Seq<char>>, s: Seq<char>, i: int)
    requires
        0 <= i < secrets.len(),
        secrets[i].len() > 0,
        star_free(secrets[i]),
    ensures
        !occurs(masked(secrets, s), secrets[i]),
    decreases secrets.len(),
{
    let before = masked(secrets.drop_last(), s);
    let q = secrets[i];
    if i == secrets.len() - 1 {
        assert forall|at: int| !(#[trigger] occurs_at(masked(secrets, s), q, at)) by {
            lemma_replaced_is_gone(before, q, at);
        }
    } else {
        assert(secrets.drop_last()[i] == q);
        lemma_masked_hides(secrets.drop_last(), s, i);
        assert forall|at: int| !(#[trigger] occurs_at(masked(secrets, s), q, at)) by {
            if occurs_at(masked(secrets, s), q, at) {
                lemma_star_free_occurrence(before, secrets.last(), q, at);
            }
        }
    }
}

/// A text in which no secret stands stays as it is.
pub proof fn lemma_masked_keeps(secrets: Seq<Seq<char>>, s: Seq<char>)
    requires
        forall|i: int| 0 <= i < secrets.len() && (#[trigger] secrets[i]).len() > 0 ==> !occurs(s, secrets[i]),
    ensures
        masked(secrets, s) == s,
    decreases secrets.len(),
{
    if secrets.len() > 0 {
        let rest = secrets.drop_last();
        assert forall|i: int| 0 <= i < rest.len() && (#[trigger] rest[i]).len() > 0 implies !occurs(s, rest[i]) by {
            assert(rest[i] == secrets[i]);
        }
        lemma_masked_keeps(rest, s);
        assert(secrets[secrets.len() - 1] == secrets.last());
        if secrets.last().len() > 0 {
            lemma_nothing_to_replace(s, secrets.last());
        }
    }
}

proof fn lemma_nothing_to_replace(s: Seq<char>, pat: Seq<char>)
    requires
        !occurs(s, pat),
    ensures
        replaced(s, pat, veil()) == s,
    decreases s.len(),
{
    if pat.len() > 0 && s.len() >= pat.len() {
        assert(!occurs_at(s, pat, 0));
        assert forall|at: int| !(#[trigger] occurs_at(s.skip(1), pat, at)) by {
            if occurs_at(s.skip(1), pat, at) {
                assert(s.subrange(at + 1, at + 1 + pat.len()) =~= s.skip(1).subrange(at, at + pat.len()));
                assert(occurs_at(s, pat, at + 1));
            }
        }
        lemma_nothing_to_replace(s.skip(1), pat);
        assert(seq![s[0]] + s.skip(1) =~= s);
    }
}

} // verus!
