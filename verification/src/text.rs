//! Searching in byte strings.
//!
//! Text is handled as the bytes of its UTF-8 encoding. Every search below is
//! stated over `Seq<u8>`: where a needle occurs, where it occurs first and
//! where it occurs last.

use vstd::prelude::*;
use vstd::slice::slice_subrange;
use vstd::utf8::encode_utf8_decode_utf8;

verus! {

/// `needle` stands in `hay` at position `at`.
pub open spec fn occurs_at(hay: Seq<u8>, needle: Seq<u8>, at: int) -> bool {
    &&& 0 <= at
    &&& at + needle.len() <= hay.len()
    &&& hay.subrange(at, at + needle.len()) == needle
}

/// The first position at or after `from` where `needle` stands in `hay`.
pub open spec fn first_occurrence_from(hay: Seq<u8>, needle: Seq<u8>, from: int) -> Option<int>
    decreases hay.len() - from + 1,
{
    if from < 0 || from + needle.len() > hay.len() {
        None
    } else if occurs_at(hay, needle, from) {
        Some(from)
    } else {
        first_occurrence_from(hay, needle, from + 1)
    }
}

/// The first position where `needle` stands in `hay`.
pub open spec fn first_occurrence(hay: Seq<u8>, needle: Seq<u8>) -> Option<int> {
    first_occurrence_from(hay, needle, 0)
}

/// The last position at or before `upto` where `needle` stands in `hay`.
pub open spec fn last_occurrence_upto(hay: Seq<u8>, needle: Seq<u8>, upto: int) -> Option<int>
    decreases upto + 1,
{
    if upto < 0 {
        None
    } else if occurs_at(hay, needle, upto) {
        Some(upto)
    } else {
        last_occurrence_upto(hay, needle, upto - 1)
    }
}

/// The last position where `needle` stands in `hay`.
pub open spec fn last_occurrence(hay: Seq<u8>, needle: Seq<u8>) -> Option<int> {
    last_occurrence_upto(hay, needle, hay.len() - needle.len())
}

/// `needle` stands somewhere in `hay`.
pub open spec fn contains(hay: Seq<u8>, needle: Seq<u8>) -> bool {
    exists|at: int| occurs_at(hay, needle, at)
}

/// `hay` begins with `prefix`.
pub open spec fn starts_with(hay: Seq<u8>, prefix: Seq<u8>) -> bool {
    occurs_at(hay, prefix, 0)
}

/// `hay` ends with `suffix`.
pub open spec fn ends_with(hay: Seq<u8>, suffix: Seq<u8>) -> bool {
    occurs_at(hay, suffix, hay.len() - suffix.len())
}

/// What `first_occurrence_from` finds is an occurrence, and the earliest one
/// from `from` on; it finds nothing only where there is none.
pub proof fn lemma_first_occurrence_from(hay: Seq<u8>, needle: Seq<u8>, from: int)
    requires
        0 <= from,
    ensures
        match first_occurrence_from(hay, needle, from) {
            Some(at) => from <= at && occurs_at(hay, needle, at) && forall|j: int|
                from <= j < at ==> !occurs_at(hay, needle, j),
            None => forall|j: int| from <= j ==> !occurs_at(hay, needle, j),
        },
    decreases hay.len() - from + 1,
{
    if from + needle.len() > hay.len() {
    } else if occurs_at(hay, needle, from) {
    } else {
        lemma_first_occurrence_from(hay, needle, from + 1);
    }
}

/// The first occurrence is an occurrence with none before it, and there is
/// one exactly where the needle is contained.
pub proof fn lemma_first_occurrence(hay: Seq<u8>, needle: Seq<u8>)
    ensures
        match first_occurrence(hay, needle) {
            Some(at) => occurs_at(hay, needle, at) && forall|j: int|
                0 <= j < at ==> !occurs_at(hay, needle, j),
            None => forall|j: int| !occurs_at(hay, needle, j),
        },
        first_occurrence(hay, needle) is Some <==> contains(hay, needle),
{
    lemma_first_occurrence_from(hay, needle, 0);
}

/// What `last_occurrence_upto` finds is an occurrence, and the latest one up
/// to `upto`; it finds nothing only where there is none.
pub proof fn lemma_last_occurrence_upto(hay: Seq<u8>, needle: Seq<u8>, upto: int)
    ensures
        match last_occurrence_upto(hay, needle, upto) {
            Some(at) => at <= upto && occurs_at(hay, needle, at) && forall|j: int|
                at < j <= upto ==> !occurs_at(hay, needle, j),
            None => forall|j: int| j <= upto ==> !occurs_at(hay, needle, j),
        },
    decreases upto + 1,
{
    if upto < 0 {
    } else if occurs_at(hay, needle, upto) {
    } else {
        lemma_last_occurrence_upto(hay, needle, upto - 1);
    }
}

/// The last occurrence is an occurrence with none after it, and there is one
/// exactly where the needle is contained.
pub proof fn lemma_last_occurrence(hay: Seq<u8>, needle: Seq<u8>)
    ensures
        match last_occurrence(hay, needle) {
            Some(at) => occurs_at(hay, needle, at) && forall|j: int|
                at < j ==> !occurs_at(hay, needle, j),
            None => forall|j: int| !occurs_at(hay, needle, j),
        },
        last_occurrence(hay, needle) is Some <==> contains(hay, needle),
{
    lemma_last_occurrence_upto(hay, needle, hay.len() - needle.len());
}

/// Tells whether `needle` stands in `hay` at `at`.
pub fn matches_at(hay: &[u8], needle: &[u8], at: usize) -> (found: bool)
    ensures
        found == occurs_at(hay@, needle@, at as int),
{
    if needle.len() > hay.len() || at > hay.len() - needle.len() {
        return false;
    }
    let mut k: usize = 0;
    while k < needle.len()
        invariant
            k <= needle.len(),
            at + needle.len() <= hay.len(),
            forall|j: int| 0 <= j < k ==> hay@[at + j] == needle@[j],
        decreases needle.len() - k,
    {
        if hay[at + k] != needle[k] {
            proof {
                let window = hay@.subrange(at as int, at + needle@.len());
                assert(window[k as int] == hay@[at + k]);
            }
            return false;
        }
        k += 1;
    }
    proof {
        assert(hay@.subrange(at as int, at + needle@.len()) =~= needle@);
    }
    true
}

/// The first position where `needle` stands in `hay`.
pub fn find(hay: &[u8], needle: &[u8]) -> (found: Option<usize>)
    ensures
        match found {
            Some(at) => first_occurrence(hay@, needle@) == Some(at as int),
            None => first_occurrence(hay@, needle@) is None,
        },
{
    if needle.len() > hay.len() {
        return None;
    }
    let last: usize = hay.len() - needle.len();
    let mut at: usize = 0;
    loop
        invariant
            last == hay.len() - needle.len(),
            at <= last,
            first_occurrence(hay@, needle@) == first_occurrence_from(hay@, needle@, at as int),
        decreases last - at,
    {
        if matches_at(hay, needle, at) {
            return Some(at);
        }
        if at == last {
            assert(first_occurrence_from(hay@, needle@, at + 1) is None);
            return None;
        }
        at += 1;
    }
}

/// The last position where `needle` stands in `hay`.
pub fn rfind(hay: &[u8], needle: &[u8]) -> (found: Option<usize>)
    ensures
        match found {
            Some(at) => last_occurrence(hay@, needle@) == Some(at as int),
            None => last_occurrence(hay@, needle@) is None,
        },
{
    if needle.len() > hay.len() {
        return None;
    }
    let mut at: usize = hay.len() - needle.len();
    loop
        invariant
            at <= hay.len() - needle.len(),
            needle.len() <= hay.len(),
            last_occurrence(hay@, needle@) == last_occurrence_upto(hay@, needle@, at as int),
        decreases at,
    {
        if matches_at(hay, needle, at) {
            return Some(at);
        }
        if at == 0 {
            assert(last_occurrence_upto(hay@, needle@, -1) is None);
            return None;
        }
        at -= 1;
    }
}

/// Tells whether `needle` stands somewhere in `hay`.
pub fn contains_bytes(hay: &[u8], needle: &[u8]) -> (found: bool)
    ensures
        found == contains(hay@, needle@),
{
    proof {
        lemma_first_occurrence(hay@, needle@);
    }
    find(hay, needle).is_some()
}

/// Tells whether `hay` begins with `prefix`.
pub fn has_prefix(hay: &[u8], prefix: &[u8]) -> (found: bool)
    ensures
        found == starts_with(hay@, prefix@),
{
    matches_at(hay, prefix, 0)
}

/// Tells whether `hay` ends with `suffix`.
pub fn has_suffix(hay: &[u8], suffix: &[u8]) -> (found: bool)
    ensures
        found == ends_with(hay@, suffix@),
{
    if suffix.len() > hay.len() {
        return false;
    }
    matches_at(hay, suffix, hay.len() - suffix.len())
}

/// Tells whether two byte strings are equal.
pub fn bytes_equal(a: &[u8], b: &[u8]) -> (same: bool)
    ensures
        same == (a@ == b@),
{
    if a.len() != b.len() {
        return false;
    }
    let same = matches_at(a, b, 0);
    proof {
        assert(a@.subrange(0, a@.len() as int) =~= a@);
    }
    same
}

/// Tells whether two texts are equal.
pub fn str_eq(a: &str, b: &str) -> (same: bool)
    ensures
        same == (a@ == b@),
{
    proof {
        encode_utf8_decode_utf8(a@);
        encode_utf8_decode_utf8(b@);
    }
    bytes_equal(a.as_bytes(), b.as_bytes())
}

/// The text of an optional string.
pub open spec fn opt_text(value: Option<String>) -> Option<Seq<char>> {
    match value {
        Some(text) => Some(text@),
        None => None,
    }
}

/// The text of an optional string slice.
pub open spec fn opt_str_text(value: Option<&str>) -> Option<Seq<char>> {
    match value {
        Some(text) => Some(text@),
        None => None,
    }
}

/// A copy of an optional string.
pub fn clone_opt(value: &Option<String>) -> (copy: Option<String>)
    ensures
        copy == *value,
{
    match value {
        Some(text) => Some(text.clone()),
        None => None,
    }
}

/// Tells whether an optional string holds the given text.
pub fn opt_is(value: &Option<String>, text: &str) -> (same: bool)
    ensures
        same == (opt_text(*value) == Some(text@)),
{
    match value {
        Some(held) => str_eq(held.as_str(), text),
        None => false,
    }
}

/// Tells whether two optional strings hold the same text, or both none.
pub fn opt_eq(a: &Option<String>, b: &Option<String>) -> (same: bool)
    ensures
        same == (opt_text(*a) == opt_text(*b)),
{
    match (a, b) {
        (Some(x), Some(y)) => str_eq(x.as_str(), y.as_str()),
        (None, None) => true,
        _ => false,
    }
}

/// A copy of the bytes of `hay` from `from` up to `to`.
pub fn copy_range(hay: &[u8], from: usize, to: usize) -> (part: Vec<u8>)
    requires
        from <= to <= hay.len(),
    ensures
        part@ == hay@.subrange(from as int, to as int),
{
    vstd::slice::slice_to_vec(slice_subrange(hay, from, to))
}

/// Appends the bytes of `other` to `bytes`.
pub fn append_bytes(bytes: &mut Vec<u8>, other: &[u8])
    ensures
        final(bytes)@ == old(bytes)@ + other@,
{
    let mut i: usize = 0;
    while i < other.len()
        invariant
            i <= other.len(),
            bytes@ == old(bytes)@ + other@.subrange(0, i as int),
        decreases other.len() - i,
    {
        bytes.push(other[i]);
        i += 1;
        assert(bytes@ =~= old(bytes)@ + other@.subrange(0, i as int));
    }
    assert(other@.subrange(0, other@.len() as int) =~= other@);
}

/// The three bytes `a b c` encode a white-space character.
pub open spec fn is_wide_whitespace(a: u8, b: u8, c: u8) -> bool {
    ||| a == 0xE1 && b == 0x9A && c == 0x80
    ||| a == 0xE2 && b == 0x80 && (0x80 <= c <= 0x8A || c == 0xA8 || c == 0xA9 || c == 0xAF)
    ||| a == 0xE2 && b == 0x81 && c == 0x9F
    ||| a == 0xE3 && b == 0x80 && c == 0x80
}

/// The byte `a` encodes a white-space character: a tab, a line feed, a
/// vertical tab, a form feed, a carriage return or a space.
pub open spec fn is_narrow_whitespace(a: u8) -> bool {
    a == 0x20 || 0x09 <= a <= 0x0D
}

/// The two bytes `a b` encode a white-space character: the next-line
/// control or the no-break space.
pub open spec fn is_medium_whitespace(a: u8, b: u8) -> bool {
    a == 0xC2 && (b == 0x85 || b == 0xA0)
}

/// The number of bytes of the white-space character whose encoding begins at
/// `at`, or 0 where none begins there. White space is what Unicode gives the
/// property White_Space.
pub open spec fn whitespace_width(s: Seq<u8>, at: int) -> int {
    if at < 0 || at >= s.len() {
        0
    } else if is_narrow_whitespace(s[at]) {
        1
    } else if at + 1 < s.len() && is_medium_whitespace(s[at], s[at + 1]) {
        2
    } else if at + 2 < s.len() && is_wide_whitespace(s[at], s[at + 1], s[at + 2]) {
        3
    } else {
        0
    }
}

/// The number of bytes of the white-space character whose encoding ends just
/// before `end`, or 0 where none ends there.
pub open spec fn whitespace_width_before(s: Seq<u8>, end: int) -> int {
    if end <= 0 || end > s.len() {
        0
    } else if is_narrow_whitespace(s[end - 1]) {
        1
    } else if end >= 2 && is_medium_whitespace(s[end - 2], s[end - 1]) {
        2
    } else if end >= 3 && is_wide_whitespace(s[end - 3], s[end - 2], s[end - 1]) {
        3
    } else {
        0
    }
}

/// The position of the first byte at or after `from` that begins no
/// white-space character.
pub open spec fn skip_whitespace(s: Seq<u8>, from: int) -> int
    decreases s.len() - from + 1,
{
    let w = whitespace_width(s, from);
    if w == 0 {
        from
    } else {
        skip_whitespace(s, from + w)
    }
}

/// The position after the last byte before `end`, and not before `floor`,
/// that ends no white-space character.
pub open spec fn skip_whitespace_back(s: Seq<u8>, floor: int, end: int) -> int
    decreases end,
{
    let w = whitespace_width_before(s, end);
    if w == 0 || end - w < floor {
        end
    } else {
        skip_whitespace_back(s, floor, end - w)
    }
}

/// Where the text without its leading white space begins.
pub open spec fn trim_start_at(s: Seq<u8>) -> int {
    skip_whitespace(s, 0)
}

/// Where the text without its leading and trailing white space ends.
pub open spec fn trim_end_at(s: Seq<u8>) -> int {
    skip_whitespace_back(s, trim_start_at(s), s.len() as int)
}

/// The text without its leading white space.
pub open spec fn trimmed_start(s: Seq<u8>) -> Seq<u8> {
    s.subrange(trim_start_at(s), s.len() as int)
}

/// The text without its leading and trailing white space.
pub open spec fn trimmed(s: Seq<u8>) -> Seq<u8> {
    s.subrange(trim_start_at(s), trim_end_at(s))
}

/// The width of the white-space character that begins at `at`.
pub fn whitespace_at(s: &[u8], at: usize) -> (width: usize)
    ensures
        width == whitespace_width(s@, at as int),
        width <= 3,
        at + width <= s.len() || width == 0,
{
    if at >= s.len() {
        return 0;
    }
    let a = s[at];
    if a == 0x20 || (0x09 <= a && a <= 0x0D) {
        return 1;
    }
    if s.len() - at >= 2 {
        let b = s[at + 1];
        if a == 0xC2 && (b == 0x85 || b == 0xA0) {
            return 2;
        }
        if s.len() - at >= 3 {
            let c = s[at + 2];
            if wide_whitespace(a, b, c) {
                return 3;
            }
        }
    }
    0
}

/// Tells whether three bytes encode a white-space character.
pub fn wide_whitespace(a: u8, b: u8, c: u8) -> (wide: bool)
    ensures
        wide == is_wide_whitespace(a, b, c),
{
    (a == 0xE1 && b == 0x9A && c == 0x80) || (a == 0xE2 && b == 0x80 && ((0x80 <= c && c <= 0x8A)
        || c == 0xA8 || c == 0xA9 || c == 0xAF)) || (a == 0xE2 && b == 0x81 && c == 0x9F) || (a
        == 0xE3 && b == 0x80 && c == 0x80)
}

/// The width of the white-space character that ends just before `end`.
pub fn whitespace_before(s: &[u8], end: usize) -> (width: usize)
    ensures
        width == whitespace_width_before(s@, end as int),
        width <= 3,
        width <= end,
{
    if end == 0 || end > s.len() {
        return 0;
    }
    let a = s[end - 1];
    if a == 0x20 || (0x09 <= a && a <= 0x0D) {
        return 1;
    }
    if end >= 2 {
        let b = s[end - 2];
        if b == 0xC2 && (a == 0x85 || a == 0xA0) {
            return 2;
        }
        if end >= 3 {
            let c = s[end - 3];
            if wide_whitespace(c, b, a) {
                return 3;
            }
        }
    }
    0
}

/// Where the text without its leading white space begins.
pub fn trim_start_index(s: &[u8]) -> (start: usize)
    ensures
        start == trim_start_at(s@),
        start <= s.len(),
{
    let mut at: usize = 0;
    loop
        invariant
            at <= s.len(),
            skip_whitespace(s@, at as int) == trim_start_at(s@),
        decreases s.len() - at,
    {
        let w = whitespace_at(s, at);
        if w == 0 {
            return at;
        }
        at += w;
    }
}

/// Where the text without its leading and trailing white space begins and
/// ends.
pub fn trim_range(s: &[u8]) -> (range: (usize, usize))
    ensures
        range.0 == trim_start_at(s@),
        range.1 == trim_end_at(s@),
        range.0 <= range.1 <= s.len(),
{
    let start = trim_start_index(s);
    let mut end: usize = s.len();
    loop
        invariant
            start <= end <= s.len(),
            start == trim_start_at(s@),
            skip_whitespace_back(s@, start as int, end as int) == trim_end_at(s@),
        decreases end,
    {
        let w = whitespace_before(s, end);
        if w == 0 || end - w < start {
            return (start, end);
        }
        end -= w;
    }
}

/// A copy of the text without its leading and trailing white space.
pub fn trim_bytes(s: &[u8]) -> (out: Vec<u8>)
    ensures
        out@ == trimmed(s@),
{
    let (start, end) = trim_range(s);
    copy_range(s, start, end)
}

} // verus!
