//! Building texts: joining parts, and the lower-case form of a text.

use vstd::prelude::*;
use vstd::string::{StrSliceExecFns, StringExecFns};

verus! {

/// The texts of a sequence of strings.
pub open spec fn texts(parts: Seq<String>) -> Seq<Seq<char>> {
    parts.map_values(|part: String| part@)
}

/// The parts, with `sep` between each two.
pub open spec fn joined(parts: Seq<Seq<char>>, sep: Seq<char>) -> Seq<char>
    decreases parts.len(),
{
    if parts.len() == 0 {
        Seq::empty()
    } else if parts.len() == 1 {
        parts[0]
    } else {
        joined(parts.drop_last(), sep) + sep + parts.last()
    }
}

/// The parts, with `sep` between each two.
pub fn join(parts: &Vec<String>, sep: &str) -> (out: String)
    ensures
        out@ == joined(texts(parts@), sep@),
{
    let mut out = String::new();
    let mut i: usize = 0;
    while i < parts.len()
        invariant
            i <= parts.len(),
            out@ == joined(texts(parts@).take(i as int), sep@),
        decreases parts.len() - i,
    {
        proof {
            let upto = texts(parts@).take(i + 1);
            assert(upto.drop_last() =~= texts(parts@).take(i as int));
            assert(upto.last() == parts@[i as int]@);
            if i == 0 {
                assert(Seq::<char>::empty() + parts@[0]@ =~= parts@[0]@);
            }
        }
        if i > 0 {
            out.append(sep);
        }
        out.append(parts[i].as_str());
        i += 1;
    }
    proof {
        assert(texts(parts@).take(parts@.len() as int) =~= texts(parts@));
    }
    out
}

/// What `str::to_lowercase` makes of a text.
pub uninterp spec fn lowercase_of(text: Seq<char>) -> Seq<char>;

/// `str::to_lowercase`: the text with each character replaced by its
/// lower-case form, as Unicode defines it.
#[verifier::external_body]
pub(crate) fn to_lowercase(text: &str) -> (lower: String)
    ensures
        lower@ == lowercase_of(text@),
{
    text.to_lowercase()
}

/// A copy of a vector of strings.
pub fn clone_strings(items: &Vec<String>) -> (copy: Vec<String>)
    ensures
        copy@ == items@,
{
    let mut copy: Vec<String> = Vec::new();
    let mut i: usize = 0;
    while i < items.len()
        invariant
            i <= items.len(),
            copy@ == items@.take(i as int),
        decreases items.len() - i,
    {
        copy.push(items[i].clone());
        i += 1;
        assert(copy@ =~= items@.take(i as int));
    }
    assert(items@.take(items@.len() as int) =~= items@);
    copy
}

/// The character is white space: it has the Unicode property White_Space.
pub open spec fn is_white_space(c: char) -> bool {
    let u = c as u32;
    ||| 0x09 <= u <= 0x0D
    ||| u == 0x20
    ||| u == 0x85
    ||| u == 0xA0
    ||| u == 0x1680
    ||| 0x2000 <= u <= 0x200A
    ||| u == 0x2028
    ||| u == 0x2029
    ||| u == 0x202F
    ||| u == 0x205F
    ||| u == 0x3000
}

/// Tells whether the character is white space.
pub fn char_is_white_space(c: char) -> (white: bool)
    ensures
        white == is_white_space(c),
{
    let u = c as u32;
    (0x09 <= u && u <= 0x0D) || u == 0x20 || u == 0x85 || u == 0xA0 || u == 0x1680 || (0x2000 <= u
        && u <= 0x200A) || u == 0x2028 || u == 0x2029 || u == 0x202F || u == 0x205F || u == 0x3000
}

/// Where the text without its leading white space begins, from `from` on.
pub open spec fn text_start(s: Seq<char>, from: int) -> int
    decreases s.len() - from + 1,
{
    if from < 0 || from >= s.len() {
        s.len() as int
    } else if is_white_space(s[from]) {
        text_start(s, from + 1)
    } else {
        from
    }
}

/// Where the text without its trailing white space ends, before `end` and
/// not before `floor`.
pub open spec fn text_end(s: Seq<char>, floor: int, end: int) -> int
    decreases end,
{
    if end <= floor || end <= 0 || end > s.len() {
        floor
    } else if is_white_space(s[end - 1]) {
        text_end(s, floor, end - 1)
    } else {
        end
    }
}

/// The text without its leading and trailing white space.
pub open spec fn trimmed_text(s: Seq<char>) -> Seq<char> {
    s.subrange(text_start(s, 0), text_end(s, text_start(s, 0), s.len() as int))
}

/// The text holds nothing but white space.
pub open spec fn is_blank_text(s: Seq<char>) -> bool {
    trimmed_text(s).len() == 0
}

/// The start of the trimmed text lies within the text.
pub proof fn lemma_text_start(s: Seq<char>, from: int)
    requires
        0 <= from <= s.len(),
    ensures
        from <= text_start(s, from) <= s.len(),
        forall|i: int| from <= i < text_start(s, from) ==> is_white_space(#[trigger] s[i]),
        text_start(s, from) < s.len() ==> !is_white_space(s[text_start(s, from)]),
    decreases s.len() - from + 1,
{
    if from < s.len() && is_white_space(s[from]) {
        lemma_text_start(s, from + 1);
    }
}

/// The end of the trimmed text lies between the floor and the end.
pub proof fn lemma_text_end(s: Seq<char>, floor: int, end: int)
    requires
        0 <= floor <= end <= s.len(),
    ensures
        floor <= text_end(s, floor, end) <= end,
        forall|i: int| text_end(s, floor, end) <= i < end ==> is_white_space(#[trigger] s[i]),
        text_end(s, floor, end) > floor ==> !is_white_space(s[text_end(s, floor, end) - 1]),
    decreases end,
{
    if end > floor && is_white_space(s[end - 1]) {
        lemma_text_end(s, floor, end - 1);
    }
}

/// A text is blank exactly where each of its characters is white space.
pub proof fn lemma_blank_text(s: Seq<char>)
    ensures
        is_blank_text(s) <==> forall|i: int| 0 <= i < s.len() ==> is_white_space(#[trigger] s[i]),
{
    lemma_text_start(s, 0);
    let start = text_start(s, 0);
    lemma_text_end(s, start, s.len() as int);
    let end = text_end(s, start, s.len() as int);
    if start < s.len() {
        // The first character that is no white space stays in the trimmed text.
        assert(!is_white_space(s[start]));
        if end == start {
            assert(is_white_space(s[start]));
        }
    }
}

/// The text without its leading and trailing white space.
pub fn trim_text(s: &str) -> (out: String)
    ensures
        out@ == trimmed_text(s@),
{
    let mut start: usize = 0;
    let mut end: usize = 0;
    let mut seen: usize = 0;
    let mut leading = true;
    let chars = s.chars();
    let len = s.unicode_len();
    for c in it: chars
        invariant
            it.seq() == s@,
            len == s@.len(),
            seen == it.index(),
            leading ==> start == seen && text_start(s@, 0) == text_start(s@, seen as int),
            !leading ==> start == text_start(s@, 0) && start < seen && start <= end <= seen
                && text_end(s@, start as int, seen as int) == end,
    {
        let white = char_is_white_space(c);
        if leading {
            if white {
                start = start + 1;
            } else {
                leading = false;
                end = seen + 1;
            }
        } else if !white {
            end = seen + 1;
        }
        seen = seen + 1;
    }
    if leading {
        proof {
            assert(text_start(s@, s@.len() as int) == s@.len());
            assert(s@.subrange(s@.len() as int, s@.len() as int) =~= Seq::<char>::empty());
        }
        return String::new();
    }
    s.substring_char(start, end).to_owned()
}

/// Tells whether the text holds nothing but white space.
pub fn is_blank(s: &str) -> (blank: bool)
    ensures
        blank == is_blank_text(s@),
{
    trim_text(s).as_str().unicode_len() == 0
}

} // verus!
