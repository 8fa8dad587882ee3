//! Cutting texts apart, putting them together, and writing numbers.

use vstd::prelude::*;
use vstd::utf8::{decode_utf8, encode_utf8, valid_utf8};

use crate::text::{chars_of, is_digit, is_letter, is_space, space, text_between};
use crate::view::{lemma_views_push, views};

verus! {

broadcast use vstd::string::group_string_axioms;

// ---------------------------------------------------------------------
// Numbers
// ---------------------------------------------------------------------

/// The character of a digit below ten.
pub open spec fn digit_char(d: nat) -> char {
    ('0' as u8 + d) as u8 as char
}

/// The decimal digits of `n`.
pub open spec fn decimal(n: nat) -> Seq<char>
    decreases n,
{
    if n < 10 {
        seq![digit_char(n)]
    } else {
        decimal(n / 10).push(digit_char(n % 10))
    }
}

/// The decimal digits of `n`.
pub fn number_text(n: u64) -> (r: String)
    ensures
        r@ == decimal(n as nat),
    decreases n,
{
    if n < 10 {
        let mut out = String::new();
        out.push((48u8 + n as u8) as char);
        assert(out@ =~= decimal(n as nat));
        out
    } else {
        let mut out = number_text(n / 10);
        out.push((48u8 + (n % 10) as u8) as char);
        out
    }
}

/// The number that a text of decimal digits denotes, digit by digit.
pub open spec fn digits_value(s: Seq<char>) -> nat
    decreases s.len(),
{
    if s.len() == 0 {
        0
    } else {
        digits_value(s.drop_last()) * 10 + (s.last() as nat - '0' as nat) as nat
    }
}

/// The decimal digits of a number denote that number.
pub proof fn lemma_decimal_value(n: nat)
    ensures
        digits_value(decimal(n)) == n,
        forall|i: int| 0 <= i < decimal(n).len() ==> is_digit(#[trigger] decimal(n)[i]),
        decimal(n).len() > 0,
    decreases n,
{
    if n < 10 {
        assert(decimal(n).drop_last() =~= Seq::<char>::empty());
        assert(digits_value(Seq::<char>::empty()) == 0);
    } else {
        lemma_decimal_value(n / 10);
        assert(decimal(n).drop_last() =~= decimal(n / 10));
    }
}

// ---------------------------------------------------------------------
// Bytes
// ---------------------------------------------------------------------

/// The UTF-8 bytes of a text.
pub fn bytes_of(s: &str) -> (r: Vec<u8>)
    ensures
        r@ == encode_utf8(s@),
{
    s.as_bytes_vec()
}

/// What `String::from_utf8_lossy` makes of bytes.
pub uninterp spec fn lossy_text(bytes: Seq<u8>) -> Seq<char>;

/// `String::from_utf8_lossy` reads bytes as UTF-8 and puts U+FFFD in place of
/// what is not UTF-8; bytes that are UTF-8 give their text.
#[verifier::external_body]
pub(crate) fn read_lossy(bytes: &Vec<u8>) -> (r: String)
    ensures
        r@ == lossy_text(bytes@),
        valid_utf8(bytes@) ==> r@ == decode_utf8(bytes@),
        !valid_utf8(bytes@) ==> r@.contains('\u{FFFD}'),
{
    String::from_utf8_lossy(bytes).into_owned()
}

/// What `{:?}` of a text prints: the text in double quotes, with escapes.
pub uninterp spec fn quoted(s: Seq<char>) -> Seq<char>;

/// `Debug` of `str` puts a text in double quotes and escapes what is not
/// printable; which characters are printable is its own. The result depends
/// on the text alone.
#[verifier::external_body]
pub(crate) fn quote(s: &str) -> (r: String)
    ensures
        r@ == quoted(s@),
{
    format!("{s:?}")
}

/// The upper-case hexadecimal digit of a number below sixteen.
pub open spec fn hex_char(d: u8) -> char {
    if d < 10 {
        (48u8 + d) as u8 as char
    } else {
        (55u8 + d) as u8 as char
    }
}

/// A byte that stands for itself in a URL: a letter, a digit or one of
/// `-`, `_`, `.` and `~`.
pub open spec fn unreserved(b: u8) -> bool {
    is_letter(b as char) || is_digit(b as char) || b == 45 || b == 95 || b == 46 || b == 126
}

/// How one byte is written in a URL.
pub open spec fn percent_byte(b: u8) -> Seq<char> {
    if unreserved(b) {
        seq![b as char]
    } else {
        seq!['%', hex_char(b / 16), hex_char(b % 16)]
    }
}

/// How bytes are written in a URL.
pub open spec fn percent_bytes(bytes: Seq<u8>) -> Seq<char>
    decreases bytes.len(),
{
    if bytes.len() == 0 {
        seq![]
    } else {
        percent_bytes(bytes.drop_last()) + percent_byte(bytes.last())
    }
}

fn hex(d: u8) -> (r: char)
    requires
        d < 16,
    ensures
        r == hex_char(d),
{
    if d < 10 {
        (48u8 + d) as char
    } else {
        (55u8 + d) as char
    }
}

/// Percent-encode a text: every UTF-8 byte that is not unreserved becomes `%`
/// and two upper-case hexadecimal digits.
pub fn percent_encode(s: &str) -> (r: String)
    ensures
        r@ == percent_bytes(encode_utf8(s@)),
{
    let bytes = bytes_of(s);
    let mut out = String::new();
    let mut i: usize = 0;
    while i < bytes.len()
        invariant
            i <= bytes.len(),
            out@ == percent_bytes(bytes@.take(i as int)),
        decreases bytes.len() - i,
    {
        let b: u8 = bytes[i];
        let ghost done = out@;
        assert(bytes@.take(i + 1).drop_last() =~= bytes@.take(i as int));
        if (97 <= b && b <= 122) || (65 <= b && b <= 90) || (48 <= b && b <= 57) || b == 45 || b == 95 || b == 46
            || b == 126 {
            out.push(b as char);
            assert(out@ =~= done + percent_byte(b));
        } else {
            out.push('%');
            out.push(hex(b / 16));
            out.push(hex(b % 16));
            assert(out@ =~= done + percent_byte(b));
        }
        i += 1;
    }
    assert(bytes@.take(i as int) =~= bytes@);
    out
}

/// Whatever bytes are written in a URL, nothing but letters, digits, `-`, `_`,
/// `.`, `~` and `%` stands in the outcome: it ends no segment, and begins no
/// query and no fragment.
pub proof fn lemma_percent_stays_in_its_segment(bytes: Seq<u8>, i: int)
    requires
        0 <= i < percent_bytes(bytes).len(),
    ensures
        ({
            let c = percent_bytes(bytes)[i];
            is_letter(c) || is_digit(c) || c == '-' || c == '_' || c == '.' || c == '~' || c == '%'
        }),
    decreases bytes.len(),
{
    let before = percent_bytes(bytes.drop_last());
    if i < before.len() {
        lemma_percent_stays_in_its_segment(bytes.drop_last(), i);
    } else {
        lemma_percent_byte(bytes.last(), i - before.len());
    }
}

proof fn lemma_percent_byte(b: u8, i: int)
    requires
        0 <= i < percent_byte(b).len(),
    ensures
        ({
            let c = percent_byte(b)[i];
            is_letter(c) || is_digit(c) || c == '-' || c == '_' || c == '.' || c == '~' || c == '%'
        }),
{
}

/// The number that a hexadecimal digit denotes.
pub open spec fn hex_value(c: char) -> int {
    if is_digit(c) {
        c as int - 48
    } else {
        c as int - 55
    }
}

/// The bytes that a text of a URL stands for.
pub open spec fn percent_decoded(s: Seq<char>) -> Seq<u8>
    decreases s.len(),
{
    if s.len() == 0 {
        seq![]
    } else if s[0] == '%' && s.len() >= 3 {
        seq![(hex_value(s[1]) * 16 + hex_value(s[2])) as u8] + percent_decoded(s.skip(3))
    } else {
        seq![s[0] as u8] + percent_decoded(s.skip(1))
    }
}

proof fn lemma_percent_first(bytes: Seq<u8>)
    requires
        bytes.len() > 0,
    ensures
        percent_bytes(bytes) == percent_byte(bytes[0]) + percent_bytes(bytes.skip(1)),
    decreases bytes.len(),
{
    if bytes.len() == 1 {
        assert(bytes.drop_last() =~= seq![]);
        assert(bytes.skip(1) =~= seq![]);
        assert(percent_bytes(bytes.drop_last()) =~= seq![]);
        assert(percent_bytes(bytes.skip(1)) =~= seq![]);
        assert(percent_bytes(bytes) =~= percent_byte(bytes[0]) + percent_bytes(bytes.skip(1)));
    } else {
        lemma_percent_first(bytes.drop_last());
        assert(bytes.drop_last().skip(1) =~= bytes.skip(1).drop_last());
        let inner = percent_bytes(bytes.skip(1).drop_last());
        assert(percent_byte(bytes[0]) + inner + percent_byte(bytes.last()) =~= percent_byte(bytes[0]) + (inner
            + percent_byte(bytes.last())));
    }
}

/// Bytes that were written in a URL are read back.
pub proof fn lemma_percent_is_read_back(bytes: Seq<u8>)
    ensures
        percent_decoded(percent_bytes(bytes)) == bytes,
    decreases bytes.len(),
{
    if bytes.len() == 0 {
        assert(percent_bytes(bytes) =~= seq![]);
        assert(percent_decoded(percent_bytes(bytes)) =~= bytes);
    } else {
        let b = bytes[0];
        let rest = percent_bytes(bytes.skip(1));
        let whole = percent_bytes(bytes);
        lemma_percent_first(bytes);
        lemma_percent_is_read_back(bytes.skip(1));
        if unreserved(b) {
            assert(whole[0] == b as char);
            assert(whole.skip(1) =~= rest);
            assert(whole[0] != '%');
        } else {
            assert(whole[0] == '%' && whole[1] == hex_char(b / 16) && whole[2] == hex_char(b % 16));
            assert(whole.skip(3) =~= rest);
            assert(hex_value(hex_char(b / 16)) == b / 16);
            assert(hex_value(hex_char(b % 16)) == b % 16);
        }
        assert(seq![b] + bytes.skip(1) =~= bytes);
    }
}

// ---------------------------------------------------------------------
// Split and join
// ---------------------------------------------------------------------

/// The pieces of `s` between the characters `sep`.
pub open spec fn split_on(s: Seq<char>, sep: char) -> Seq<Seq<char>>
    decreases s.len(),
{
    if s.len() == 0 {
        seq![Seq::empty()]
    } else {
        let before = split_on(s.drop_last(), sep);
        if s.last() == sep {
            before.push(Seq::empty())
        } else {
            before.drop_last().push(before.last().push(s.last()))
        }
    }
}

/// There is always a piece, and no piece holds the separator.
pub proof fn lemma_split_on(s: Seq<char>, sep: char)
    ensures
        split_on(s, sep).len() > 0,
        forall|i: int| 0 <= i < split_on(s, sep).len() ==> !(#[trigger] split_on(s, sep)[i]).contains(sep),
    decreases s.len(),
{
    if s.len() > 0 {
        lemma_split_on(s.drop_last(), sep);
        let before = split_on(s.drop_last(), sep);
        if s.last() != sep {
            let last = before.last().push(s.last());
            assert forall|i: int| 0 <= i < split_on(s, sep).len() implies !(#[trigger] split_on(s, sep)[i]).contains(
                sep,
            ) by {
                if i == before.len() - 1 {
                    assert forall|k: int| 0 <= k < last.len() implies last[k] != sep by {
                        if k < before.last().len() {
                            assert(before.last()[k] == last[k]);
                            assert(before[before.len() - 1].contains(before.last()[k]));
                        }
                    }
                } else {
                    assert(split_on(s, sep)[i] == before[i]);
                }
            }
        }
    }
}

/// The pieces of `s` between the characters `sep`.
pub fn split(s: &str, sep: char) -> (r: Vec<String>)
    ensures
        views(r@) == split_on(s@, sep),
        r@.len() > 0,
{
    broadcast use lemma_views_push;

    let chars = chars_of(s);
    let mut out: Vec<String> = Vec::new();
    let mut piece = String::new();
    let mut i: usize = 0;
    assert(views(out@).push(piece@) =~= seq![Seq::<char>::empty()]);
    assert(chars@.take(0) =~= Seq::<char>::empty());
    while i < chars.len()
        invariant
            i <= chars.len(),
            views(out@).push(piece@) == split_on(chars@.take(i as int), sep),
        decreases chars.len() - i,
    {
        let c = chars[i];
        let ghost before = split_on(chars@.take(i as int), sep);
        assert(chars@.take(i + 1).drop_last() =~= chars@.take(i as int));
        assert(before.drop_last() =~= views(out@));
        if c == sep {
            out.push(piece);
            piece = String::new();
        } else {
            piece.push(c);
        }
        i += 1;
    }
    assert(chars@.take(i as int) =~= chars@);
    out.push(piece);
    out
}

/// The texts one after the other, with `sep` between two.
pub open spec fn joined(parts: Seq<Seq<char>>, sep: Seq<char>) -> Seq<char>
    decreases parts.len(),
{
    if parts.len() == 0 {
        seq![]
    } else if parts.len() == 1 {
        parts[0]
    } else {
        joined(parts.drop_last(), sep) + sep + parts.last()
    }
}

/// Texts that are joined by a character that none of them holds are the pieces
/// that it separates.
pub proof fn lemma_split_joined(parts: Seq<Seq<char>>, sep: char)
    requires
        parts.len() > 0,
        forall|i: int| 0 <= i < parts.len() ==> !(#[trigger] parts[i]).contains(sep),
    ensures
        split_on(joined(parts, seq![sep]), sep) == parts,
    decreases parts.len(), joined(parts, seq![sep]).len(),
{
    let s = joined(parts, seq![sep]);
    let last = parts.last();
    if last.len() == 0 {
        assert(last =~= Seq::empty());
        if parts.len() == 1 {
            assert(parts =~= seq![Seq::empty()]);
        } else {
            assert(s.drop_last() =~= joined(parts.drop_last(), seq![sep]));
            lemma_split_joined(parts.drop_last(), sep);
            assert(parts.drop_last().push(Seq::empty()) =~= parts);
        }
    } else {
        let c = last.last();
        assert(last.contains(c));
        let shorter = parts.drop_last().push(last.drop_last());
        assert(shorter.drop_last() =~= parts.drop_last());
        assert(s.last() == c);
        assert(joined(shorter, seq![sep]) =~= s.drop_last());
        assert forall|i: int| 0 <= i < shorter.len() implies !(#[trigger] shorter[i]).contains(sep) by {
            if i < parts.len() - 1 {
                assert(shorter[i] == parts[i]);
            } else {
                assert forall|k: int| 0 <= k < last.drop_last().len() implies last.drop_last()[k] != sep by {
                    assert(last.contains(last[k]));
                }
            }
        }
        lemma_split_joined(shorter, sep);
        assert(shorter.last().push(c) =~= last);
        assert(shorter.drop_last().push(last) =~= parts);
    }
}

/// The texts one after the other, with `sep` between two.
pub fn join(parts: &Vec<String>, sep: &str) -> (r: String)
    ensures
        r@ == joined(views(parts@), sep@),
{
    let ghost all = views(parts@);
    let mut out = String::new();
    let mut i: usize = 0;
    assert(out@ =~= Seq::<char>::empty());
    while i < parts.len()
        invariant
            i <= parts.len(),
            all == views(parts@),
            out@ == joined(all.take(i as int), sep@),
        decreases parts.len() - i,
    {
        assert(all.take(i + 1).drop_last() =~= all.take(i as int));
        if i > 0 {
            out.append(sep);
            out.append(parts[i].as_str());
        } else {
            out = parts[i].clone();
        }
        i += 1;
    }
    assert(all.take(i as int) =~= all);
    out
}

// ---------------------------------------------------------------------
// Trimming
// ---------------------------------------------------------------------

/// `s` without the white space at its front.
pub open spec fn trimmed_start(s: Seq<char>) -> Seq<char>
    decreases s.len(),
{
    if s.len() > 0 && is_space(s[0]) {
        trimmed_start(s.skip(1))
    } else {
        s
    }
}

/// `s` without the white space at its end.
pub open spec fn trimmed_end(s: Seq<char>) -> Seq<char>
    decreases s.len(),
{
    if s.len() > 0 && is_space(s.last()) {
        trimmed_end(s.drop_last())
    } else {
        s
    }
}

/// `s` without the white space at either side.
pub open spec fn trimmed(s: Seq<char>) -> Seq<char> {
    trimmed_end(trimmed_start(s))
}

/// `s` without the white space at either side.
pub fn trim(s: &str) -> (r: String)
    ensures
        r@ == trimmed(s@),
{
    let chars = chars_of(s);
    let mut from: usize = 0;
    assert(chars@.skip(0) =~= chars@);
    while from < chars.len() && space(chars[from])
        invariant
            from <= chars.len(),
            trimmed_start(chars@) == trimmed_start(chars@.skip(from as int)),
        decreases chars.len() - from,
    {
        assert(chars@.skip(from as int).skip(1) =~= chars@.skip(from + 1));
        from += 1;
    }
    let mut to: usize = chars.len();
    assert(chars@.subrange(from as int, to as int) =~= chars@.skip(from as int));
    while from < to && space(chars[to - 1])
        invariant
            from <= to <= chars.len(),
            trimmed(chars@) == trimmed_end(chars@.subrange(from as int, to as int)),
        decreases to,
    {
        let ghost now = chars@.subrange(from as int, to as int);
        assert(now.drop_last() =~= chars@.subrange(from as int, to - 1));
        assert(now.last() == chars@[to - 1]);
        to -= 1;
    }
    proof {
        let now = chars@.subrange(from as int, to as int);
        if from < to {
            assert(now.last() == chars@[to - 1]);
        }
    }
    text_between(&chars, from, to)
}

} // verus!
