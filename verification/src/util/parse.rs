//! Taking text apart: tokens between white space, parts between
//! separators, decimal numbers.
//!
//! All of it works on the UTF-8 bytes of a text. White space is what
//! Unicode calls white space: blank, tab, line feed, vertical tab, form
//! feed, carriage return, next line (U+0085), no-break space (U+00A0),
//! ogham space mark (U+1680), the spaces U+2000 to U+200A, line and
//! paragraph separator (U+2028, U+2029), narrow no-break space (U+202F),
//! medium mathematical space (U+205F) and ideographic space (U+3000), each
//! in its UTF-8 form of one, two or three bytes.

use vstd::prelude::*;
use vstd::slice::{slice_subrange, slice_to_vec};
use vstd::string::StringSliceAdditionalSpecFns;
use vstd::utf8::{decode_utf8, valid_utf8};

use crate::codec::raw::string_from_utf8;

verus! {

/// Whether a byte is ASCII white space.
pub open spec fn is_space(b: u8) -> bool {
    b == 32 || (9 <= b <= 13)
}

/// Whether three bytes are a white-space character of three bytes: U+1680,
/// U+2000 to U+200A, U+2028, U+2029, U+202F, U+205F or U+3000.
pub open spec fn wide_space(a: u8, b: u8, c: u8) -> bool {
    ||| a == 0xE1 && b == 0x9A && c == 0x80
    ||| a == 0xE2 && b == 0x80 && (0x80 <= c <= 0x8A || c == 0xA8 || c == 0xA9 || c == 0xAF)
    ||| a == 0xE2 && b == 0x81 && c == 0x9F
    ||| a == 0xE3 && b == 0x80 && c == 0x80
}

/// The number of bytes of the white-space character that stands at `i`:
/// 1, 2 or 3, and 0 where none stands there.
pub open spec fn space_len(s: Seq<u8>, i: int) -> int {
    if i < 0 || i >= s.len() {
        0
    } else if is_space(s[i]) {
        1
    } else if i + 1 < s.len() && s[i] == 0xC2 && (s[i + 1] == 0x85 || s[i + 1] == 0xA0) {
        2
    } else if i + 2 < s.len() && wide_space(s[i], s[i + 1], s[i + 2]) {
        3
    } else {
        0
    }
}

/// The number of bytes of the white-space character that ends just before
/// `end` and does not start before `from`; 0 where there is none.
pub open spec fn space_before(s: Seq<u8>, from: int, end: int) -> int {
    if from <= end - 1 && space_len(s, end - 1) == 1 {
        1
    } else if from <= end - 2 && space_len(s, end - 2) == 2 {
        2
    } else if from <= end - 3 && space_len(s, end - 3) == 3 {
        3
    } else {
        0
    }
}

/// The number of bytes of the white-space character at `i`.
pub fn space_at(s: &[u8], i: usize) -> (k: usize)
    ensures
        k == space_len(s@, i as int),
        k > 0 ==> i + k <= s@.len(),
        k <= 3,
{
    if i >= s.len() {
        return 0;
    }
    let a: u8 = s[i];
    if a == 32 || (a >= 9 && a <= 13) {
        return 1;
    }
    if s.len() - i > 1 && a == 0xC2 && (s[i + 1] == 0x85 || s[i + 1] == 0xA0) {
        return 2;
    }
    if s.len() - i > 2 {
        let b: u8 = s[i + 1];
        let c: u8 = s[i + 2];
        if (a == 0xE1 && b == 0x9A && c == 0x80) || (a == 0xE2 && b == 0x80 && ((c >= 0x80 && c
            <= 0x8A) || c == 0xA8 || c == 0xA9 || c == 0xAF)) || (a == 0xE2 && b == 0x81 && c
            == 0x9F) || (a == 0xE3 && b == 0x80 && c == 0x80) {
            return 3;
        }
    }
    0
}

/// The number of bytes of the white-space character that ends just before
/// `end` and does not start before `from`.
pub fn space_ending(s: &[u8], from: usize, end: usize) -> (k: usize)
    requires
        from <= end <= s@.len(),
    ensures
        k == space_before(s@, from as int, end as int),
        from + k <= end,
        k <= 3,
{
    if end - from >= 1 && space_at(s, end - 1) == 1 {
        1
    } else if end - from >= 2 && space_at(s, end - 2) == 2 {
        2
    } else if end - from >= 3 && space_at(s, end - 3) == 3 {
        3
    } else {
        0
    }
}

/// The first position at or behind `i` where no white space stands.
pub open spec fn skip_spaces(s: Seq<u8>, i: int) -> int
    decreases s.len() - i,
{
    if 0 <= i < s.len() && space_len(s, i) > 0 {
        skip_spaces(s, i + space_len(s, i))
    } else {
        i
    }
}

/// The first position at or behind `i` where white space stands, or the
/// end.
pub open spec fn token_end(s: Seq<u8>, i: int) -> int
    decreases s.len() - i,
{
    if 0 <= i < s.len() && space_len(s, i) == 0 {
        token_end(s, i + 1)
    } else {
        i
    }
}

/// The tokens of `s` from `i` on: the longest runs of bytes that are not
/// white space, in their order.
pub open spec fn tokens_from(s: Seq<u8>, i: int) -> Seq<Seq<u8>>
    decreases s.len() - i,
{
    let start = skip_spaces(s, i);
    let end = token_end(s, start);
    if 0 <= i <= start < end <= s.len() {
        seq![s.subrange(start, end)] + tokens_from(s, end)
    } else {
        Seq::empty()
    }
}

/// The tokens of a text.
pub open spec fn tokens_of(s: Seq<u8>) -> Seq<Seq<u8>> {
    tokens_from(s, 0)
}

/// The byte vectors of a vector as mathematics.
pub open spec fn byte_views(v: Seq<Vec<u8>>) -> Seq<Seq<u8>> {
    Seq::new(v.len(), |i: int| v[i]@)
}

/// Splits a text into its tokens.
pub fn split_tokens(s: &[u8]) -> (r: Vec<Vec<u8>>)
    ensures
        byte_views(r@) == tokens_of(s@),
{
    let mut out: Vec<Vec<u8>> = Vec::new();
    let total: usize = s.len();
    let mut i: usize = 0;
    assert(byte_views(out@) =~= Seq::<Seq<u8>>::empty());
    loop
        invariant
            s@.len() == total,
            0 <= i <= s@.len(),
            tokens_of(s@) == byte_views(out@) + tokens_from(s@, i as int),
        decreases s@.len() - i,
    {
        let ghost from = i;
        // pass over white space
        let mut width: usize = space_at(s, i);
        while width > 0
            invariant
                from <= i <= s@.len(),
                s@.len() == total,
                width == space_len(s@, i as int),
                width > 0 ==> i + width <= s@.len(),
                skip_spaces(s@, from as int) == skip_spaces(s@, i as int),
            decreases s@.len() - i,
        {
            i = i + width;
            width = space_at(s, i);
        }
        let start: usize = i;
        assert(start == skip_spaces(s@, from as int));
        while i < s.len() && space_at(s, i) == 0
            invariant
                start <= i <= s@.len(),
                token_end(s@, start as int) == token_end(s@, i as int),
            decreases s@.len() - i,
        {
            i = i + 1;
        }
        assert(i == token_end(s@, start as int));
        if i == start {
            assert(tokens_from(s@, from as int) =~= Seq::<Seq<u8>>::empty());
            assert(byte_views(out@) + Seq::<Seq<u8>>::empty() =~= byte_views(out@));
            return out;
        }
        let ghost before = byte_views(out@);
        let token = slice_to_vec(slice_subrange(s, start, i));
        out.push(token);
        proof {
            assert(byte_views(out@) =~= before.push(s@.subrange(start as int, i as int)));
            assert(before + (seq![s@.subrange(start as int, i as int)] + tokens_from(s@, i as int))
                =~= before.push(s@.subrange(start as int, i as int)) + tokens_from(
                s@,
                i as int,
            ));
        }
    }
}

/// The first position at or behind `i` that holds `sep`, or the end.
pub open spec fn find_byte(s: Seq<u8>, sep: u8, i: int) -> int
    decreases s.len() - i,
{
    if 0 <= i < s.len() && s[i] != sep {
        find_byte(s, sep, i + 1)
    } else {
        i
    }
}

/// The parts of `s` from `i` on between the occurrences of `sep`; a text
/// without `sep` is one part, and an empty part stands between two
/// separators that touch.
pub open spec fn parts_from(s: Seq<u8>, sep: u8, i: int) -> Seq<Seq<u8>>
    decreases s.len() - i,
{
    let end = find_byte(s, sep, i);
    if 0 <= i <= end < s.len() {
        seq![s.subrange(i, end)] + parts_from(s, sep, end + 1)
    } else if 0 <= i <= s.len() {
        seq![s.subrange(i, s.len() as int)]
    } else {
        Seq::empty()
    }
}

/// Finds the first `sep` at or behind `from`, or the end.
pub fn index_of(s: &[u8], sep: u8, from: usize) -> (r: usize)
    requires
        from <= s@.len(),
    ensures
        r == find_byte(s@, sep, from as int),
        from <= r <= s@.len(),
        r < s@.len() ==> s@[r as int] == sep,
{
    let mut i: usize = from;
    while i < s.len() && s[i] != sep
        invariant
            from <= i <= s@.len(),
            find_byte(s@, sep, from as int) == find_byte(s@, sep, i as int),
        decreases s@.len() - i,
    {
        i = i + 1;
    }
    i
}

/// Splits a text at every `sep`.
pub fn split_on(s: &[u8], sep: u8) -> (r: Vec<Vec<u8>>)
    ensures
        byte_views(r@) == parts_from(s@, sep, 0),
        r@.len() >= 1,
{
    let mut out: Vec<Vec<u8>> = Vec::new();
    let mut i: usize = 0;
    assert(byte_views(out@) =~= Seq::<Seq<u8>>::empty());
    loop
        invariant
            0 <= i <= s@.len(),
            parts_from(s@, sep, 0) == byte_views(out@) + parts_from(s@, sep, i as int),
        decreases s@.len() - i,
    {
        let end = index_of(s, sep, i);
        let ghost before = byte_views(out@);
        let part = slice_to_vec(slice_subrange(s, i, end));
        out.push(part);
        assert(byte_views(out@) =~= before.push(s@.subrange(i as int, end as int)));
        if end >= s.len() {
            assert(before + seq![s@.subrange(i as int, s@.len() as int)] =~= byte_views(out@));
            return out;
        }
        proof {
            assert(before + (seq![s@.subrange(i as int, end as int)] + parts_from(
                s@,
                sep,
                end as int + 1,
            )) =~= before.push(s@.subrange(i as int, end as int)) + parts_from(
                s@,
                sep,
                end as int + 1,
            ));
        }
        i = end + 1;
    }
}

/// The last position before which only white space stands, not before
/// `from`.
pub open spec fn trim_end(s: Seq<u8>, from: int, end: int) -> int
    decreases end - from,
{
    if from < end <= s.len() && space_before(s, from, end) > 0 {
        trim_end(s, from, end - space_before(s, from, end))
    } else {
        end
    }
}

/// A text without the white space at its two ends.
pub open spec fn trimmed(s: Seq<u8>) -> Seq<u8> {
    let start = skip_spaces(s, 0);
    if 0 <= start <= s.len() {
        s.subrange(start, trim_end(s, start, s.len() as int))
    } else {
        Seq::empty()
    }
}

/// Takes the white space off the two ends of a text.
pub fn trim(s: &[u8]) -> (r: Vec<u8>)
    ensures
        r@ == trimmed(s@),
{
    let total: usize = s.len();
    let mut start: usize = 0;
    let mut width: usize = space_at(s, start);
    while width > 0
        invariant
            0 <= start <= s@.len(),
            s@.len() == total,
            width == space_len(s@, start as int),
            width > 0 ==> start + width <= s@.len(),
            skip_spaces(s@, 0) == skip_spaces(s@, start as int),
        decreases s@.len() - start,
    {
        start = start + width;
        width = space_at(s, start);
    }
    let mut end: usize = s.len();
    let mut back: usize = space_ending(s, start, end);
    while back > 0
        invariant
            start <= end <= s@.len(),
            back == space_before(s@, start as int, end as int),
            start + back <= end,
            trim_end(s@, start as int, s@.len() as int) == trim_end(s@, start as int, end as int),
        decreases end - start,
    {
        end = end - back;
        back = space_ending(s, start, end);
    }
    slice_to_vec(slice_subrange(s, start, end))
}

/// The number that decimal digits spell, reading on from `acc`; none where
/// a byte is no digit or the number passes `max`.
pub open spec fn digits_value(s: Seq<u8>, i: int, acc: int, max: int) -> Option<int>
    decreases s.len() - i,
{
    if i < 0 || i >= s.len() {
        Some(acc)
    } else if !(48 <= s[i] <= 57) {
        None
    } else if acc * 10 + (s[i] - 48) > max {
        None
    } else {
        digits_value(s, i + 1, acc * 10 + (s[i] - 48), max)
    }
}

/// The number that a text spells: decimal digits, at least one, behind an
/// optional plus sign; none for anything else and for numbers above `max`.
pub open spec fn decimal_value(s: Seq<u8>, max: int) -> Option<int> {
    if s.len() == 0 {
        None
    } else if s[0] == 43 {
        if s.len() == 1 {
            None
        } else {
            digits_value(s, 1, 0, max)
        }
    } else {
        digits_value(s, 0, 0, max)
    }
}

/// Reads a decimal number of at most `max`.
pub fn parse_decimal(s: &[u8], max: u64) -> (r: Option<u64>)
    ensures
        match decimal_value(s@, max as int) {
            Some(v) => r == Some(v as u64) && 0 <= v <= max,
            None => r is None,
        },
{
    if s.len() == 0 {
        return None;
    }
    let mut i: usize = 0;
    if s[0] == 43 {
        if s.len() == 1 {
            return None;
        }
        i = 1;
    }
    let ghost from = i;
    let mut acc: u64 = 0;
    while i < s.len()
        invariant
            from <= i <= s@.len(),
            0 <= acc <= max,
            decimal_value(s@, max as int) == digits_value(s@, from as int, 0, max as int),
            digits_value(s@, from as int, 0, max as int) == digits_value(
                s@,
                i as int,
                acc as int,
                max as int,
            ),
        decreases s@.len() - i,
    {
        let b: u8 = s[i];
        if b < 48 || b > 57 {
            return None;
        }
        let d: u64 = (b - 48) as u64;
        if d > max {
            assert(acc * 10 + d > max) by (nonlinear_arith)
                requires
                    d > max,
                    acc >= 0,
            ;
            return None;
        }
        if acc > (max - d) / 10 {
            proof {
                assert(acc * 10 + d > max) by (nonlinear_arith)
                    requires
                        acc > (max - d) / 10,
                        0 <= d <= 9,
                        d <= max,
                        acc <= max,
                ;
            }
            return None;
        }
        proof {
            assert(acc * 10 + d <= max) by (nonlinear_arith)
                requires
                    acc <= (max - d) / 10,
                    0 <= d <= max,
            ;
        }
        acc = acc * 10 + d;
        i = i + 1;
    }
    Some(acc)
}

/// The text that bytes spell, if they are valid UTF-8.
pub open spec fn text_of(bytes: Seq<u8>) -> Option<Seq<char>> {
    if valid_utf8(bytes) {
        Some(decode_utf8(bytes))
    } else {
        None
    }
}

/// Makes a string of bytes that are valid UTF-8.
pub fn to_text(bytes: &Vec<u8>) -> (r: Option<String>)
    ensures
        match text_of(bytes@) {
            Some(t) => r is Some && r->0@ == t,
            None => r is None,
        },
{
    string_from_utf8(bytes.clone())
}

/// Whether bytes are the bytes of `word`.
pub fn is_bytes(token: &Vec<u8>, word: &str) -> (r: bool)
    ensures
        r == (token@ == word.spec_bytes()),
{
    let w = word.as_bytes();
    if token.len() != w.len() {
        return false;
    }
    let mut i: usize = 0;
    while i < w.len()
        invariant
            token@.len() == w@.len(),
            w@ == word.spec_bytes(),
            0 <= i <= w@.len(),
            forall|j: int| 0 <= j < i ==> token@[j] == w@[j],
        decreases w@.len() - i,
    {
        if token[i] != w[i] {
            assert(token@[i as int] != w@[i as int]);
            return false;
        }
        i = i + 1;
    }
    assert(token@ =~= w@);
    true
}

} // verus!
