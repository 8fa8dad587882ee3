//! JSON pointers: a path of keys and positions into a value.

use vstd::prelude::*;

use crate::json::{member, Json, JsonV};
use crate::text::{chars_of, replaced, same, text_between};
use crate::view::{ref_view, views};
use crate::words::{decimal, lemma_decimal_value, lemma_split_on, number_text, split, split_on};

verus! {

broadcast use vstd::string::group_string_axioms;

/// A key as a segment of a JSON pointer.
pub open spec fn pointer_segment(key: Seq<char>) -> Seq<char> {
    replaced(replaced(key, "~"@, "~0"@), "/"@, "~1"@)
}

/// The key that a segment of a JSON pointer stands for.
pub open spec fn segment_key(s: Seq<char>) -> Seq<char>
    decreases s.len(),
{
    if s.len() == 0 {
        seq![]
    } else if s.len() >= 2 && s[0] == '~' && s[1] == '0' {
        seq!['~'] + segment_key(s.skip(2))
    } else if s.len() >= 2 && s[0] == '~' && s[1] == '1' {
        seq!['/'] + segment_key(s.skip(2))
    } else {
        seq![s[0]] + segment_key(s.skip(1))
    }
}

/// One character of a segment.
spec fn segment_char(c: char) -> Seq<char> {
    if c == '~' {
        seq!['~', '0']
    } else if c == '/' {
        seq!['~', '1']
    } else {
        seq![c]
    }
}

proof fn lemma_replace_char(s: Seq<char>, c: char, with: Seq<char>)
    requires
        s.len() > 0,
    ensures
        replaced(s, seq![c], with) == (if s[0] == c {
            with
        } else {
            seq![s[0]]
        }) + replaced(s.skip(1), seq![c], with),
{
    assert(s.subrange(0, 1) =~= seq![s[0]]);
    if s[0] != c {
        assert(seq![s[0]][0] != seq![c][0]);
    }
}

proof fn lemma_segment_step(s: Seq<char>)
    requires
        s.len() > 0,
    ensures
        pointer_segment(s) == segment_char(s[0]) + pointer_segment(s.skip(1)),
{
    reveal_strlit("~");
    reveal_strlit("~0");
    reveal_strlit("/");
    reveal_strlit("~1");
    let tilde = seq!['~'];
    let slash = seq!['/'];
    assert("~"@ =~= tilde);
    assert("/"@ =~= slash);
    assert("~0"@ =~= seq!['~', '0']);
    assert("~1"@ =~= seq!['~', '1']);
    let rest = replaced(s.skip(1), tilde, "~0"@);
    lemma_replace_char(s, '~', "~0"@);
    if s[0] == '~' {
        let t = seq!['~', '0'] + rest;
        lemma_replace_char(t, '/', "~1"@);
        assert(t.skip(1) =~= seq!['0'] + rest);
        lemma_replace_char(t.skip(1), '/', "~1"@);
        assert(t.skip(1).skip(1) =~= rest);
        assert(pointer_segment(s) =~= segment_char(s[0]) + pointer_segment(s.skip(1)));
    } else {
        let t = seq![s[0]] + rest;
        lemma_replace_char(t, '/', "~1"@);
        assert(t.skip(1) =~= rest);
    }
}

/// A key that was written as a segment is read back.
pub proof fn lemma_segment_is_read_back(key: Seq<char>)
    ensures
        segment_key(pointer_segment(key)) == key,
    decreases key.len(),
{
    reveal_strlit("~");
    reveal_strlit("/");
    if key.len() == 0 {
        assert(pointer_segment(key) =~= key);
        assert(segment_key(key) =~= key);
    } else {
        lemma_segment_step(key);
        lemma_segment_is_read_back(key.skip(1));
        let rest = pointer_segment(key.skip(1));
        let whole = pointer_segment(key);
        if key[0] == '~' || key[0] == '/' {
            assert(whole.skip(2) =~= rest);
        } else {
            assert(whole.skip(1) =~= rest);
        }
        assert(segment_key(whole) =~= seq![key[0]] + key.skip(1));
        assert(seq![key[0]] + key.skip(1) =~= key);
    }
}

/// No segment holds a slash, so the slashes of a pointer separate segments.
pub proof fn lemma_segment_has_no_slash(key: Seq<char>)
    ensures
        !pointer_segment(key).contains('/'),
    decreases key.len(),
{
    reveal_strlit("~");
    reveal_strlit("/");
    if key.len() == 0 {
        assert(pointer_segment(key) =~= key);
    } else {
        lemma_segment_step(key);
        lemma_segment_has_no_slash(key.skip(1));
        let rest = pointer_segment(key.skip(1));
        let head = segment_char(key[0]);
        assert forall|i: int| 0 <= i < (head + rest).len() implies (head + rest)[i] != '/' by {
            if i >= head.len() {
                assert(rest.contains(rest[i - head.len()]));
            }
        }
    }
}

/// Read the key that a segment stands for.
pub fn unescape(segment: &str) -> (r: String)
    ensures
        r@ == segment_key(segment@),
{
    let chars = chars_of(segment);
    let n: usize = chars.len();
    let mut out = String::new();
    let mut i: usize = 0;
    assert(chars@.skip(0) =~= chars@);
    assert(out@ + segment_key(chars@) =~= segment_key(chars@));
    while i < n
        invariant
            i <= n,
            n == chars@.len(),
            chars@ == segment@,
            out@ + segment_key(chars@.skip(i as int)) == segment_key(segment@),
        decreases n - i,
    {
        let ghost rest = chars@.skip(i as int);
        let ghost done = out@;
        assert(rest[0] == chars@[i as int]);
        if i + 1 < n {
            assert(rest[1] == chars@[i + 1]);
        }
        if chars[i] == '~' && i + 1 < n && chars[i + 1] == '0' {
            assert(rest.skip(2) =~= chars@.skip(i + 2));
            assert(done + (seq!['~'] + segment_key(rest.skip(2))) =~= done.push('~') + segment_key(rest.skip(2)));
            out.push('~');
            i += 2;
        } else if chars[i] == '~' && i + 1 < n && chars[i + 1] == '1' {
            assert(rest.skip(2) =~= chars@.skip(i + 2));
            assert(done + (seq!['/'] + segment_key(rest.skip(2))) =~= done.push('/') + segment_key(rest.skip(2)));
            out.push('/');
            i += 2;
        } else {
            assert(rest.skip(1) =~= chars@.skip(i + 1));
            assert(done + (seq![rest[0]] + segment_key(rest.skip(1))) =~= done.push(rest[0]) + segment_key(
                rest.skip(1),
            ));
            out.push(chars[i]);
            i += 1;
        }
    }
    assert(out@ + segment_key(chars@.skip(i as int)) =~= out@);
    out
}

/// The item whose position is written as `segment`, from the `i`-th on.
pub open spec fn item_at(items: Seq<JsonV>, segment: Seq<char>, i: int) -> Option<JsonV>
    decreases items.len() - i,
{
    if i < 0 || i >= items.len() {
        None
    } else if decimal(i as nat) == segment {
        Some(items[i])
    } else {
        item_at(items, segment, i + 1)
    }
}

/// One step of a pointer: the member of an object, or the item of an array.
pub open spec fn step(v: JsonV, segment: Seq<char>) -> Option<JsonV> {
    match v {
        JsonV::Object(_) => member(v, segment_key(segment)),
        JsonV::Array(items) => item_at(items, segment, 0),
        _ => None,
    }
}

/// The value that segments lead to.
pub open spec fn walk(v: JsonV, segments: Seq<Seq<char>>) -> Option<JsonV>
    decreases segments.len(),
{
    if segments.len() == 0 {
        Some(v)
    } else {
        match walk(v, segments.drop_last()) {
            Some(inner) => step(inner, segments.last()),
            None => None,
        }
    }
}

/// The value that a pointer leads to. An empty pointer leads to the whole
/// value; any other begins with a slash.
pub open spec fn at_pointer(v: JsonV, pointer: Seq<char>) -> Option<JsonV> {
    if pointer.len() == 0 {
        Some(v)
    } else if pointer[0] != '/' {
        None
    } else {
        walk(v, split_on(pointer.skip(1), '/'))
    }
}

fn take_step<'a>(v: &'a Json, segment: &str) -> (r: Option<&'a Json>)
    ensures
        ref_view(r) == step(v@, segment@),
{
    broadcast use crate::json::lemma_json_view;

    match v {
        Json::Object(_) => v.get(unescape(segment).as_str()),
        Json::Array(items) => {
            let ghost all = views(items@);
            let mut i: usize = 0;
            while i < items.len()
                invariant
                    i <= items.len(),
                    all == views(items@),
                    v@ == JsonV::Array(all),
                    item_at(all, segment@, 0) == item_at(all, segment@, i as int),
                decreases items.len() - i,
            {
                assert(all[i as int] == items@[i as int]@);
                if same(number_text(i as u64).as_str(), segment) {
                    return Some(&items[i]);
                }
                i += 1;
            }
            None
        },
        _ => None,
    }
}

/// Follow a pointer into a value.
pub fn find<'a>(v: &'a Json, pointer: &str) -> (r: Option<&'a Json>)
    ensures
        ref_view(r) == at_pointer(v@, pointer@),
{
    let chars = chars_of(pointer);
    if chars.len() == 0 {
        return Some(v);
    }
    if chars[0] != '/' {
        return None;
    }
    let n: usize = chars.len();
    assert(chars@.subrange(1, n as int) =~= pointer@.skip(1));
    let segments = split(text_between(&chars, 1, n).as_str(), '/');
    let ghost all = views(segments@);
    let mut now: &'a Json = v;
    let mut i: usize = 0;
    assert(all.take(0) =~= Seq::empty());
    while i < segments.len()
        invariant
            i <= segments.len(),
            all == views(segments@),
            at_pointer(v@, pointer@) == walk(v@, all),
            walk(v@, all.take(i as int)) == Some(now@),
        decreases segments.len() - i,
    {
        assert(all.take(i + 1).drop_last() =~= all.take(i as int));
        assert(all.take(i + 1).last() == segments@[i as int]@);
        match take_step(now, segments[i].as_str()) {
            Some(inner) => {
                now = inner;
            },
            None => {
                proof {
                    lemma_walk_stops(v@, all, i + 1);
                }
                return None;
            },
        }
        i += 1;
    }
    assert(all.take(i as int) =~= all);
    Some(now)
}

proof fn lemma_walk_stops(v: JsonV, segments: Seq<Seq<char>>, n: int)
    requires
        0 <= n <= segments.len(),
        walk(v, segments.take(n)) is None,
    ensures
        walk(v, segments) is None,
    decreases segments.len() - n,
{
    if n < segments.len() {
        assert(segments.take(n + 1).drop_last() =~= segments.take(n));
        lemma_walk_stops(v, segments, n + 1);
    } else {
        assert(segments.take(n) =~= segments);
    }
}

// ---------------------------------------------------------------------
// Laws
// ---------------------------------------------------------------------

proof fn lemma_split_appended(a: Seq<char>, b: Seq<char>, sep: char)
    requires
        !b.contains(sep),
    ensures
        split_on(a + seq![sep] + b, sep) == split_on(a, sep).push(b),
    decreases b.len(),
{
    let whole = a + seq![sep] + b;
    lemma_split_on(a, sep);
    if b.len() == 0 {
        assert(whole.drop_last() =~= a);
        assert(b =~= Seq::empty());
    } else {
        assert(whole.drop_last() =~= a + seq![sep] + b.drop_last());
        assert forall|i: int| 0 <= i < b.drop_last().len() implies b.drop_last()[i] != sep by {
            assert(b.contains(b[i]));
        }
        lemma_split_appended(a, b.drop_last(), sep);
        assert(b.contains(b.last()));
        let before = split_on(a, sep).push(b.drop_last());
        assert(before.drop_last() =~= split_on(a, sep));
        assert(b.drop_last().push(b.last()) =~= b);
    }
}

/// A pointer with one more segment leads one step further.
pub proof fn lemma_one_step_further(v: JsonV, pointer: Seq<char>, segment: Seq<char>)
    requires
        at_pointer(v, pointer) is Some,
        !segment.contains('/'),
    ensures
        at_pointer(v, pointer + seq!['/'] + segment) == step(at_pointer(v, pointer)->Some_0, segment),
{
    let longer = pointer + seq!['/'] + segment;
    if pointer.len() == 0 {
        assert(longer.skip(1) =~= segment);
        lemma_split_whole(segment, '/');
        let segments = seq![segment];
        assert(segments.drop_last() =~= Seq::empty());
        assert(walk(v, segments.drop_last()) == Some(v));
    } else {
        let inner = pointer.skip(1);
        assert(longer.skip(1) =~= inner + seq!['/'] + segment);
        lemma_split_appended(inner, segment, '/');
        let segments = split_on(inner, '/').push(segment);
        assert(segments.drop_last() =~= split_on(inner, '/'));
    }
}

proof fn lemma_split_whole(s: Seq<char>, sep: char)
    requires
        !s.contains(sep),
    ensures
        split_on(s, sep) == seq![s],
    decreases s.len(),
{
    if s.len() == 0 {
        assert(s =~= Seq::empty());
    } else {
        assert forall|i: int| 0 <= i < s.drop_last().len() implies s.drop_last()[i] != sep by {
            assert(s.contains(s[i]));
        }
        lemma_split_whole(s.drop_last(), sep);
        assert(s.contains(s.last()));
        assert(seq![s.drop_last()].drop_last() =~= Seq::empty());
        assert(s.drop_last().push(s.last()) =~= s);
        assert(split_on(s, sep) =~= seq![s]);
    }
}

/// The pointer to a member, written with its key, leads to that member.
pub proof fn lemma_member_is_found(v: JsonV, pointer: Seq<char>, key: Seq<char>)
    requires
        at_pointer(v, pointer) is Some,
        at_pointer(v, pointer)->Some_0 is Object,
    ensures
        at_pointer(v, pointer + seq!['/'] + pointer_segment(key)) == member(at_pointer(v, pointer)->Some_0, key),
{
    lemma_segment_has_no_slash(key);
    lemma_segment_is_read_back(key);
    lemma_one_step_further(v, pointer, pointer_segment(key));
}

proof fn lemma_item_at(items: Seq<JsonV>, n: int, i: int)
    requires
        0 <= i <= n < items.len(),
    ensures
        item_at(items, decimal(n as nat), i) == Some(items[n]),
    decreases n - i,
{
    lemma_decimal_value(n as nat);
    lemma_decimal_value(i as nat);
    if i < n {
        lemma_item_at(items, n, i + 1);
    }
}

/// The pointer to an item, written with its position, leads to that item.
pub proof fn lemma_item_is_found(v: JsonV, pointer: Seq<char>, n: int)
    requires
        at_pointer(v, pointer) is Some,
        at_pointer(v, pointer)->Some_0 is Array,
        0 <= n < at_pointer(v, pointer)->Some_0->Array_0.len(),
    ensures
        at_pointer(v, pointer + seq!['/'] + decimal(n as nat)) == Some(
            at_pointer(v, pointer)->Some_0->Array_0[n],
        ),
{
    lemma_decimal_value(n as nat);
    let digits = decimal(n as nat);
    assert forall|k: int| 0 <= k < digits.len() implies #[trigger] digits[k] != '/' by {
        assert(crate::text::is_digit(decimal(n as nat)[k]));
    }
    lemma_one_step_further(v, pointer, digits);
    lemma_item_at(at_pointer(v, pointer)->Some_0->Array_0, n, 0);
}

} // verus!
