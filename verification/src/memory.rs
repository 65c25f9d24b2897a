//! Long-term memory: what is extracted from a turn, and what becomes of each
//! extracted fact beside the memories that a character already has.

use vstd::prelude::*;
use vstd::string::{StrSliceExecFns, StringExecFns, StringSliceAdditionalSpecFns};
use vstd::utf8::encode_utf8;
use crate::strings::{lowercase_of, texts, to_lowercase, trim_text, trimmed_text};
use crate::context::MemoryService;
use crate::text::{contains, contains_bytes, opt_text, str_eq};

verus! {

/// A durable fact about a character's conversations. Its importance is a
/// fraction and is kept by the caller.
#[derive(Clone, Debug, PartialEq, Eq)]
pub struct MemoryEntry {
    pub id: String,
    pub conversation_id: Option<String>,
    pub character_id: String,
    pub content: String,
    pub source_messages: Vec<String>,
    pub created_at: i64,
}

/// Bytes below which a message is not worth an extraction.
pub const MIN_MESSAGE_BYTES: usize = 15;

/// Bytes below which a fact is dropped.
pub const MIN_FACT_BYTES: usize = 5;

/// Memories of a character that a new fact is compared with.
pub const COMPARED_MEMORIES: usize = 100;

/// What `serde_json` reads from a text as an array of strings: nothing
/// where the text is no such array.
pub uninterp spec fn string_array_of(text: Seq<char>) -> Option<Seq<Seq<char>>>;

/// `serde_json::from_str` into a `Vec<String>`: the strings of the JSON
/// array that the text holds, or nothing where the text is not a JSON array
/// of strings.
#[verifier::external_body]
pub(crate) fn parse_string_array(text: &str) -> (parsed: Option<Vec<String>>)
    ensures
        match parsed {
            Some(items) => string_array_of(text@) == Some(texts(items@)),
            None => string_array_of(text@) is None,
        },
{
    serde_json::from_str::<Vec<String>>(text).ok()
}

/// The characters of a text.
pub fn chars_of(text: &str) -> (chars: Vec<char>)
    ensures
        chars@ == text@,
{
    let mut chars: Vec<char> = Vec::new();
    let all = text.chars();
    for c in it: all
        invariant
            it.seq() == text@,
            chars@ == text@.take(it.index()),
    {
        chars.push(c);
        assert(chars@ =~= text@.take(it.index() + 1));
    }
    assert(text@.take(text@.len() as int) =~= text@);
    chars
}

/// The first position from `from` on where the character `c` stands.
pub open spec fn first_char_from(s: Seq<char>, c: char, from: int) -> Option<int>
    decreases s.len() - from + 1,
{
    if from < 0 || from >= s.len() {
        None
    } else if s[from] == c {
        Some(from)
    } else {
        first_char_from(s, c, from + 1)
    }
}

/// The last position before `end` where the character `c` stands.
pub open spec fn last_char_before(s: Seq<char>, c: char, end: int) -> Option<int>
    decreases end,
{
    if end <= 0 || end > s.len() {
        None
    } else if s[end - 1] == c {
        Some(end - 1)
    } else {
        last_char_before(s, c, end - 1)
    }
}

/// The first position from `from` on where the character `c` stands.
pub fn find_char(chars: &Vec<char>, c: char, from: usize) -> (found: Option<usize>)
    ensures
        match found {
            Some(at) => first_char_from(chars@, c, from as int) == Some(at as int) && from <= at
                < chars@.len(),
            None => first_char_from(chars@, c, from as int) is None,
        },
{
    let mut i: usize = from;
    while i < chars.len()
        invariant
            from <= i,
            first_char_from(chars@, c, from as int) == first_char_from(chars@, c, i as int),
        decreases chars.len() - i,
    {
        if chars[i] == c {
            return Some(i);
        }
        i += 1;
    }
    None
}

/// The last position where the character `c` stands.
pub fn rfind_char(chars: &Vec<char>, c: char) -> (found: Option<usize>)
    ensures
        match found {
            Some(at) => last_char_before(chars@, c, chars@.len() as int) == Some(at as int) && at
                < chars@.len(),
            None => last_char_before(chars@, c, chars@.len() as int) is None,
        },
{
    let mut end: usize = chars.len();
    while end > 0
        invariant
            end <= chars.len(),
            last_char_before(chars@, c, chars@.len() as int) == last_char_before(
                chars@,
                c,
                end as int,
            ),
        decreases end,
    {
        if chars[end - 1] == c {
            return Some(end - 1);
        }
        end -= 1;
    }
    None
}

/// The part of the text from its first `[` through its last `]`, where the
/// first stands before the last.
pub open spec fn bracketed(s: Seq<char>) -> Option<Seq<char>> {
    match (first_char_from(s, '[', 0), last_char_before(s, ']', s.len() as int)) {
        (Some(a), Some(b)) => if a < b {
            Some(s.subrange(a, b + 1))
        } else {
            None
        },
        _ => None,
    }
}

/// The character marks a bullet: `-` or `*`.
pub open spec fn is_bullet_mark(c: char) -> bool {
    c == '-' || c == '*'
}

/// Where the text without its leading bullet marks begins.
pub open spec fn marks_end(s: Seq<char>, from: int) -> int
    decreases s.len() - from + 1,
{
    if from < 0 || from >= s.len() {
        s.len() as int
    } else if is_bullet_mark(s[from]) {
        marks_end(s, from + 1)
    } else {
        from
    }
}

/// The line begins, after its white space, with a bullet: `- ` or `* `.
pub open spec fn is_bullet_line(line: Seq<char>) -> bool {
    let t = trimmed_text(line);
    t.len() >= 2 && is_bullet_mark(t[0]) && t[1] == ' '
}

/// The fact of a bullet line: the line without its white space, its
/// leading bullet marks and the white space behind them; nothing where the
/// line is no bullet line or nothing is left.
pub open spec fn bullet_item(line: Seq<char>) -> Option<Seq<char>> {
    if is_bullet_line(line) {
        let t = trimmed_text(line);
        let item = trimmed_text(t.subrange(marks_end(t, 0), t.len() as int));
        if item.len() > 0 {
            Some(item)
        } else {
            None
        }
    } else {
        None
    }
}

/// Where the line that begins at `from` ends: at the next line feed, or at
/// the end of the text.
pub open spec fn text_line_end(s: Seq<char>, from: int) -> int {
    match first_char_from(s, '\n', from) {
        Some(at) => at,
        None => s.len() as int,
    }
}

/// The facts of the bullet lines of the text from `from` on.
pub open spec fn bullet_items(s: Seq<char>, from: int) -> Seq<Seq<char>>
    decreases s.len() - from + 1,
{
    if from < 0 || from >= s.len() {
        Seq::empty()
    } else {
        let end = text_line_end(s, from);
        if end < from || end > s.len() {
            Seq::empty()
        } else {
            let rest = bullet_items(s, end + 1);
            match bullet_item(s.subrange(from, end)) {
                Some(item) => seq![item] + rest,
                None => rest,
            }
        }
    }
}

/// The facts that a response holds: the strings of the JSON array that the
/// trimmed response is; else those of the JSON array that stands between the
/// first `[` and the last `]`; else the facts of its bullet lines.
pub open spec fn extracted_facts(text: Seq<char>) -> Seq<Seq<char>> {
    match string_array_of(trimmed_text(text)) {
        Some(items) => items,
        None => match bracketed(text) {
            Some(inner) => match string_array_of(inner) {
                Some(items) => items,
                None => bullet_items(text, 0),
            },
            None => bullet_items(text, 0),
        },
    }
}

/// The line end lies between the start of the line and the end of the text.
pub proof fn lemma_first_char_from(s: Seq<char>, c: char, from: int)
    requires
        0 <= from,
    ensures
        match first_char_from(s, c, from) {
            Some(at) => from <= at < s.len() && s[at] == c,
            None => true,
        },
    decreases s.len() - from + 1,
{
    if from < s.len() && s[from] != c {
        lemma_first_char_from(s, c, from + 1);
    }
}

/// The fact of a bullet line.
pub fn bullet_of(line: &str) -> (item: Option<String>)
    ensures
        match item {
            Some(text) => bullet_item(line@) == Some(text@),
            None => bullet_item(line@) is None,
        },
{
    let trimmed = trim_text(line);
    let t = trimmed.as_str();
    let len = t.unicode_len();
    if len < 2 {
        return None;
    }
    let first = t.get_char(0);
    if !((first == '-' || first == '*') && t.get_char(1) == ' ') {
        return None;
    }
    let mut marks: usize = 0;
    let mut leading = true;
    let all = t.chars();
    for c in it: all
        invariant
            it.seq() == t@,
            len == t@.len(),
            leading ==> marks == it.index() && marks_end(t@, 0) == marks_end(t@, marks as int),
            !leading ==> marks == marks_end(t@, 0) && marks < it.index(),
            marks <= t@.len(),
    {
        if leading {
            if c == '-' || c == '*' {
                marks = marks + 1;
            } else {
                leading = false;
            }
        }
    }
    let rest = t.substring_char(marks, len);
    let item = trim_text(rest);
    if item.as_str().unicode_len() > 0 {
        Some(item)
    } else {
        None
    }
}

/// The facts of the bullet lines of a text.
pub fn bullets_of(text: &str, chars: &Vec<char>) -> (items: Vec<String>)
    requires
        chars@ == text@,
    ensures
        texts(items@) == bullet_items(text@, 0),
{
    let mut items: Vec<String> = Vec::new();
    let mut from: usize = 0;
    assert(texts(items@) =~= Seq::<Seq<char>>::empty());
    assert(Seq::<Seq<char>>::empty() + bullet_items(text@, 0) =~= bullet_items(text@, 0));
    while from < chars.len()
        invariant
            chars@ == text@,
            bullet_items(text@, 0) == texts(items@) + bullet_items(text@, from as int),
        decreases chars.len() + 1 - from,
    {
        let end = match find_char(chars, '\n', from) {
            Some(at) => at,
            None => chars.len(),
        };
        let line = text.substring_char(from, end);
        let ghost before = texts(items@);
        let ghost rest = bullet_items(text@, end + 1);
        match bullet_of(line) {
            Some(item) => {
                items.push(item);
                proof {
                    assert(texts(items@) =~= before + seq![item@]);
                    assert((before + seq![item@]) + rest =~= before + (seq![item@] + rest));
                }
            },
            None => {},
        }
        if end >= chars.len() {
            proof {
                assert(texts(items@) + Seq::<Seq<char>>::empty() =~= texts(items@));
            }
            return items;
        }
        from = end + 1;
    }
    proof {
        assert(texts(items@) + Seq::<Seq<char>>::empty() =~= texts(items@));
    }
    items
}

/// The facts that a response of the model holds.
pub fn extract_json_array(text: &str) -> (facts: Vec<String>)
    ensures
        texts(facts@) == extracted_facts(text@),
{
    let trimmed = trim_text(text);
    match parse_string_array(trimmed.as_str()) {
        Some(items) => {
            return items;
        },
        None => {},
    }
    let chars = chars_of(text);
    let open = find_char(&chars, '[', 0);
    let close = rfind_char(&chars, ']');
    match (open, close) {
        (Some(a), Some(b)) => {
            let count = chars.len();
            if a < b && b < count {
                let inner = text.substring_char(a, b + 1);
                match parse_string_array(inner) {
                    Some(items) => {
                        return items;
                    },
                    None => {},
                }
            }
        },
        _ => {},
    }
    bullets_of(text, &chars)
}

/// The category of a fact: what stands before its first colon, or the whole
/// fact where it has none.
pub open spec fn category_of(fact: Seq<char>) -> Seq<char> {
    match first_char_from(fact, ':', 0) {
        Some(at) => fact.subrange(0, at),
        None => fact,
    }
}

/// What a fact says, in lower case: what stands behind its first colon, or
/// nothing where it has none.
pub open spec fn statement_of(fact: Seq<char>) -> Seq<char> {
    match first_char_from(fact, ':', 0) {
        Some(at) => lowercase_of(fact.subrange(at + 1, fact.len() as int)),
        None => Seq::empty(),
    }
}

/// The text names one of the patterns of the subject `subject`: 0 for the
/// age, 1 for the name, 2 for the location, 3 for the profession, 4 for the
/// relationship status.
pub open spec fn names_subject(text: Seq<char>, subject: int) -> bool {
    let b = encode_utf8(text);
    if subject == 0 {
        ||| contains(b, "years old".spec_bytes())
        ||| contains(b, "year old".spec_bytes())
        ||| contains(b, "aged".spec_bytes())
        ||| contains(b, "is age".spec_bytes())
    } else if subject == 1 {
        contains(b, "name is".spec_bytes())
    } else if subject == 2 {
        ||| contains(b, "is from".spec_bytes())
        ||| contains(b, "lives in".spec_bytes())
        ||| contains(b, "located in".spec_bytes())
        ||| contains(b, "from the".spec_bytes())
    } else if subject == 3 {
        ||| contains(b, "works as".spec_bytes())
        ||| contains(b, "job is".spec_bytes())
        ||| contains(b, "profession is".spec_bytes())
        ||| contains(b, "works at".spec_bytes())
        ||| contains(b, "employed as".spec_bytes())
    } else {
        ||| contains(b, "married".spec_bytes())
        ||| contains(b, "single".spec_bytes())
        ||| contains(b, "dating".spec_bytes())
        ||| contains(b, "in a relationship".spec_bytes())
        ||| contains(b, "engaged".spec_bytes())
    }
}

/// The two statements speak of one subject and differ.
pub open spec fn statements_clash(existing: Seq<char>, new: Seq<char>) -> bool {
    existing != new && exists|subject: int|
        0 <= subject < 5 && #[trigger] names_subject(existing, subject) && names_subject(
            new,
            subject,
        )
}

/// The text begins with `user`.
pub open spec fn starts_with_user(text: Seq<char>) -> bool {
    text.len() >= 4 && text.subrange(0, 4) == "user"@
}

/// The new fact contradicts the existing one: both have the same category,
/// both speak of one subject, and they differ. Facts without a category are
/// compared as they stand, in lower case, where both begin with `user`.
pub open spec fn contradicts(existing: Seq<char>, new: Seq<char>) -> bool {
    if category_of(existing) != category_of(new) {
        false
    } else if statement_of(existing).len() > 0 {
        statements_clash(statement_of(existing), statement_of(new))
    } else if starts_with_user(lowercase_of(existing)) && starts_with_user(lowercase_of(new)) {
        statements_clash(lowercase_of(existing), lowercase_of(new))
    } else {
        false
    }
}

/// Tells whether the text names one of the patterns of the subject.
pub fn subject_named(text: &str, subject: u8) -> (named: bool)
    requires
        subject < 5,
    ensures
        named == names_subject(text@, subject as int),
{
    let b = text.as_bytes();
    if subject == 0 {
        contains_bytes(b, "years old".as_bytes()) || contains_bytes(b, "year old".as_bytes())
            || contains_bytes(b, "aged".as_bytes()) || contains_bytes(b, "is age".as_bytes())
    } else if subject == 1 {
        contains_bytes(b, "name is".as_bytes())
    } else if subject == 2 {
        contains_bytes(b, "is from".as_bytes()) || contains_bytes(b, "lives in".as_bytes())
            || contains_bytes(b, "located in".as_bytes()) || contains_bytes(
            b,
            "from the".as_bytes(),
        )
    } else if subject == 3 {
        contains_bytes(b, "works as".as_bytes()) || contains_bytes(b, "job is".as_bytes())
            || contains_bytes(b, "profession is".as_bytes()) || contains_bytes(
            b,
            "works at".as_bytes(),
        ) || contains_bytes(b, "employed as".as_bytes())
    } else {
        contains_bytes(b, "married".as_bytes()) || contains_bytes(b, "single".as_bytes())
            || contains_bytes(b, "dating".as_bytes()) || contains_bytes(
            b,
            "in a relationship".as_bytes(),
        ) || contains_bytes(b, "engaged".as_bytes())
    }
}

/// Tells whether the two statements speak of one subject and differ.
pub fn clash(existing: &str, new: &str) -> (clashing: bool)
    ensures
        clashing == statements_clash(existing@, new@),
{
    if str_eq(existing, new) {
        return false;
    }
    let mut subject: u8 = 0;
    while subject < 5
        invariant
            subject <= 5,
            existing@ != new@,
            forall|k: int|
                0 <= k < subject ==> !(#[trigger] names_subject(existing@, k) && names_subject(
                    new@,
                    k,
                )),
        decreases 5 - subject,
    {
        if subject_named(existing, subject) && subject_named(new, subject) {
            assert(names_subject(existing@, subject as int));
            return true;
        }
        subject += 1;
    }
    false
}

/// The part of a fact before its first colon and its statement in lower
/// case.
fn split_fact(fact: &str) -> (parts: (String, String))
    ensures
        parts.0@ == category_of(fact@),
        parts.1@ == statement_of(fact@),
{
    let chars = chars_of(fact);
    let len = chars.len();
    match find_char(&chars, ':', 0) {
        Some(at) => {
            let category = fact.substring_char(0, at).to_owned();
            let statement = to_lowercase(fact.substring_char(at + 1, len));
            (category, statement)
        },
        None => {
            proof {
                assert(fact@.subrange(0, fact@.len() as int) =~= fact@);
            }
            (fact.substring_char(0, len).to_owned(), String::new())
        },
    }
}

/// Tells whether the text begins with `user`.
fn begins_with_user(text: &str) -> (begins: bool)
    ensures
        begins == starts_with_user(text@),
{
    if text.unicode_len() < 4 {
        return false;
    }
    let head = text.substring_char(0, 4);
    str_eq(head, "user")
}

/// Tells whether the new fact contradicts the existing one.
pub fn is_contradicting_fact(existing: &str, new: &str) -> (contradicting: bool)
    ensures
        contradicting == contradicts(existing@, new@),
{
    let (existing_category, existing_statement) = split_fact(existing);
    let (new_category, new_statement) = split_fact(new);
    if !str_eq(existing_category.as_str(), new_category.as_str()) {
        return false;
    }
    if existing_statement.as_str().unicode_len() > 0 {
        return clash(existing_statement.as_str(), new_statement.as_str());
    }
    let existing_lower = to_lowercase(existing);
    let new_lower = to_lowercase(new);
    if begins_with_user(existing_lower.as_str()) && begins_with_user(new_lower.as_str()) {
        clash(existing_lower.as_str(), new_lower.as_str())
    } else {
        false
    }
}

/// What becomes of an extracted fact.
#[derive(Clone, Debug, PartialEq, Eq)]
pub enum FactAction {
    /// The fact is dropped: it is too short, or a memory says the same.
    Skip,
    /// The fact replaces the content of the memory that it contradicts.
    Update { memory_id: String, content: String },
    /// The fact becomes a new memory, with an embedding.
    Insert { content: String },
}

/// What becomes of an extracted fact, as plain values.
pub enum FactPlan {
    Skip,
    Update { memory_id: Seq<char>, content: Seq<char> },
    Insert { content: Seq<char> },
}

impl View for FactAction {
    type V = FactPlan;

    open spec fn view(&self) -> FactPlan {
        match self {
            FactAction::Skip => FactPlan::Skip,
            FactAction::Update { memory_id, content } => FactPlan::Update {
                memory_id: memory_id@,
                content: content@,
            },
            FactAction::Insert { content } => FactPlan::Insert { content: content@ },
        }
    }
}

/// One of the two texts, in lower case, holds the other.
pub open spec fn says_the_same(existing: Seq<char>, new: Seq<char>) -> bool {
    let e = encode_utf8(lowercase_of(existing));
    let n = encode_utf8(lowercase_of(new));
    contains(e, n) || contains(n, e)
}

/// What becomes of the fact `fact` beside the memories from `from` on: the
/// first memory that says the same drops it, the first that it contradicts
/// takes it as its new content, and with neither it becomes a new memory.
pub open spec fn plan_beside(fact: Seq<char>, memories: Seq<MemoryEntry>, from: int) -> FactPlan
    decreases memories.len() - from + 1,
{
    if from < 0 || from >= memories.len() {
        FactPlan::Insert { content: fact }
    } else if says_the_same(memories[from].content@, fact) {
        FactPlan::Skip
    } else if contradicts(lowercase_of(memories[from].content@), lowercase_of(fact)) {
        FactPlan::Update { memory_id: memories[from].id@, content: fact }
    } else {
        plan_beside(fact, memories, from + 1)
    }
}

/// What becomes of an extracted fact: a fact of fewer than five bytes is
/// dropped; any other is trimmed and compared with the memories in order.
pub open spec fn plan_for(fact: Seq<char>, memories: Seq<MemoryEntry>) -> FactPlan {
    let trimmed = trimmed_text(fact);
    if encode_utf8(trimmed).len() < MIN_FACT_BYTES {
        FactPlan::Skip
    } else {
        plan_beside(trimmed, memories, 0)
    }
}

/// Decides what becomes of an extracted fact beside the memories that the
/// character has.
pub fn plan_fact(fact: &str, memories: &Vec<MemoryEntry>) -> (action: FactAction)
    ensures
        action@ == plan_for(fact@, memories@),
{
    let trimmed = trim_text(fact);
    if trimmed.as_str().as_bytes().len() < MIN_FACT_BYTES {
        return FactAction::Skip;
    }
    let new_lower = to_lowercase(trimmed.as_str());
    let mut i: usize = 0;
    while i < memories.len()
        invariant
            i <= memories.len(),
            new_lower@ == lowercase_of(trimmed@),
            plan_for(fact@, memories@) == plan_beside(trimmed@, memories@, i as int),
        decreases memories.len() - i,
    {
        let existing_lower = to_lowercase(memories[i].content.as_str());
        let e = existing_lower.as_str();
        let n = new_lower.as_str();
        if contains_bytes(e.as_bytes(), n.as_bytes()) || contains_bytes(
            n.as_bytes(),
            e.as_bytes(),
        ) {
            return FactAction::Skip;
        }
        if is_contradicting_fact(e, n) {
            return FactAction::Update { memory_id: memories[i].id.clone(), content: trimmed };
        }
        i += 1;
    }
    FactAction::Insert { content: trimmed }
}

/// The plans of a sequence of actions.
pub open spec fn plans(actions: Seq<FactAction>) -> Seq<FactPlan> {
    actions.map_values(|action: FactAction| action@)
}

/// Decides what becomes of each extracted fact. Every fact is compared
/// with the memories as they were before the turn.
pub fn plan_facts(facts: &Vec<String>, memories: &Vec<MemoryEntry>) -> (actions: Vec<FactAction>)
    ensures
        actions@.len() == facts@.len(),
        forall|i: int|
            0 <= i < facts@.len() ==> (#[trigger] actions@[i])@ == plan_for(
                facts@[i]@,
                memories@,
            ),
{
    let mut actions: Vec<FactAction> = Vec::new();
    let mut i: usize = 0;
    while i < facts.len()
        invariant
            i <= facts.len(),
            actions@.len() == i,
            forall|j: int|
                0 <= j < i ==> (#[trigger] actions@[j])@ == plan_for(facts@[j]@, memories@),
        decreases facts.len() - i,
    {
        actions.push(plan_fact(facts[i].as_str(), memories));
        i += 1;
    }
    actions
}

/// A message is worth an extraction where, trimmed, it has at least 15
/// bytes.
pub open spec fn worth_extracting(content: Seq<char>) -> bool {
    encode_utf8(trimmed_text(content)).len() >= MIN_MESSAGE_BYTES
}

/// Tells whether a message is worth an extraction.
pub fn should_extract(content: &str) -> (worth: bool)
    ensures
        worth == worth_extracting(content@),
{
    trim_text(content).as_str().as_bytes().len() >= MIN_MESSAGE_BYTES
}

/// The text with every double quote replaced by a single one.
pub open spec fn single_quoted(s: Seq<char>) -> Seq<char> {
    s.map_values(|c: char| if c == '"' { '\'' } else { c })
}

/// The text with every double quote replaced by a single one.
pub fn replace_quotes(text: &str) -> (out: String)
    ensures
        out@ == single_quoted(text@),
{
    let chars = chars_of(text);
    let mut out = String::new();
    let mut from: usize = 0;
    assert(out@ =~= single_quoted(text@.take(0)));
    while from < chars.len()
        invariant
            chars@ == text@,
            from <= chars.len(),
            out@ == single_quoted(text@.take(from as int)),
        decreases chars.len() - from,
    {
        let ghost before = out@;
        match find_char(&chars, '"', from) {
            Some(at) => {
                proof {
                    lemma_no_char_between(text@, '"', from as int, at as int);
                }
                out.append(text.substring_char(from, at));
                out.append("'");
                proof {
                    reveal_strlit("'");
                    let want = single_quoted(text@.take(at + 1));
                    lemma_first_char_from(text@, '"', from as int);
                    assert(text@[at as int] == '"');
                    assert(out@.len() == want.len());
                    assert forall|i: int| 0 <= i < want.len() implies out@[i] == want[i] by {
                        assert(text@.take(at + 1)[i] == text@[i]);
                        if i < from {
                            assert(out@[i] == before[i]);
                            assert(before[i] == single_quoted(text@.take(from as int))[i]);
                            assert(text@.take(from as int)[i] == text@[i]);
                        } else if i < at {
                            assert(out@[i] == text@.subrange(from as int, at as int)[i - from]);
                            assert(text@[i] != '"');
                        } else {
                            assert(i == at);
                            assert(out@[i] == "'"@[0]);
                            assert("'"@[0] == '\'');
                        }
                    }
                    assert(out@ =~= want);
                }
                from = at + 1;
            },
            None => {
                proof {
                    lemma_no_char_between(text@, '"', from as int, text@.len() as int);
                    assert(text@.take(text@.len() as int) =~= text@);
                }
                out.append(text.substring_char(from, chars.len()));
                proof {
                    let want = single_quoted(text@);
                    assert(out@.len() == want.len());
                    assert forall|i: int| 0 <= i < want.len() implies out@[i] == want[i] by {
                        if i < from {
                            assert(out@[i] == before[i]);
                            assert(before[i] == single_quoted(text@.take(from as int))[i]);
                        } else {
                            assert(out@[i] == text@.subrange(from as int, text@.len() as int)[i
                                - from]);
                            assert(text@[i] != '"');
                        }
                    }
                    assert(out@ =~= want);
                }
                return out;
            },
        }
    }
    proof {
        assert(text@.take(text@.len() as int) =~= text@);
    }
    out
}

/// Before the first place where a character stands, it stands nowhere.
pub proof fn lemma_no_char_between(s: Seq<char>, c: char, from: int, upto: int)
    requires
        0 <= from <= upto <= s.len(),
        first_char_from(s, c, from) == Some(upto) || (first_char_from(s, c, from) is None && upto
            == s.len()),
    ensures
        forall|i: int| from <= i < upto ==> s[i] != c,
    decreases upto - from,
{
    if from < upto {
        assert(s[from] != c);
        lemma_no_char_between(s, c, from + 1, upto);
    }
}

/// What the model is asked when facts are extracted from a message, before
/// the message.
pub const EXTRACTION_PROMPT_HEAD: &'static str =
    "Extract important facts from this message that should be remembered long-term.\n\nCATEGORIES TO EXTRACT:\n1. USER FACTS: Name, age, job, location, preferences, background, relationships\n2. WORLD FACTS: Locations, settings, events, NPCs established in roleplay\n3. RELATIONSHIP: How the relationship between participants is evolving\n4. EMOTIONAL: Significant emotional moments or mood changes\n\nPREFIX each fact with its category: \"User:\", \"World:\", \"Relationship:\", or \"Emotional:\"\n\nReturn ONLY a JSON array of strings. Each item should be a complete sentence.\nIf nothing notable, return [].\n\nExamples:\n- \"My name is Alex and I'm 25\" -> [\"User: Name is Alex\", \"User: Is 25 years old\"]\n- \"I love hiking on weekends\" -> [\"User: Enjoys hiking\", \"User: Is active on weekends\"]\n- \"*the tavern grows quiet*\" -> [\"World: The tavern has grown quiet\"]\n- \"You're the only one who understands me\" -> [\"Relationship: User feels uniquely understood by character\"]\n- \"*sighs with relief*\" -> [\"Emotional: User expressed relief\"]\n- \"How's the weather?\" -> []\n\nMessage: \"";

/// What the model is asked when facts are extracted from a message, behind
/// the message.
pub const EXTRACTION_PROMPT_TAIL: &'static str = "\"\n\nJSON array:";

/// The prompt that asks the model for the facts of a message: the request,
/// the message with its double quotes made single, and the call for a JSON
/// array.
pub fn extraction_prompt(content: &str) -> (prompt: String)
    ensures
        prompt@ == EXTRACTION_PROMPT_HEAD@ + single_quoted(content@) + EXTRACTION_PROMPT_TAIL@,
{
    let mut prompt = EXTRACTION_PROMPT_HEAD.to_owned();
    prompt.append(replace_quotes(content).as_str());
    prompt.append(EXTRACTION_PROMPT_TAIL);
    prompt
}

/// What follows an attempt to embed a new memory.
#[derive(Clone, Copy, Debug, PartialEq, Eq, Structural)]
pub enum EmbeddingStep {
    /// The embedding is stored; nothing follows.
    Done,
    /// Wait half a second and try once more.
    RetryAfterPause,
    /// Try once more at once.
    Retry,
    /// Give up: the memory stays without an embedding.
    GiveUp,
}

/// What follows the `attempt`-th attempt to embed a new memory, of two: a
/// stored embedding ends the attempts; a failed generation is tried once
/// more after a pause, a failed store once more at once; and the second
/// failure gives up.
pub fn after_embedding_attempt(attempt: u32, generated: bool, stored: bool) -> (step: EmbeddingStep)
    ensures
        step == if generated && stored {
            EmbeddingStep::Done
        } else if attempt >= 2 {
            EmbeddingStep::GiveUp
        } else if !generated {
            EmbeddingStep::RetryAfterPause
        } else {
            EmbeddingStep::Retry
        },
{
    if generated && stored {
        EmbeddingStep::Done
    } else if attempt >= 2 {
        EmbeddingStep::GiveUp
    } else if !generated {
        EmbeddingStep::RetryAfterPause
    } else {
        EmbeddingStep::Retry
    }
}

/// What becomes of the facts that the model found in a message: nothing
/// where the message is not worth an extraction; else the plan for each
/// fact of the answer, in the order of the facts.
pub open spec fn planned(content: Seq<char>, response: Seq<char>, memories: Seq<MemoryEntry>) -> Seq<FactPlan> {
    if worth_extracting(content) {
        extracted_facts(response).map_values(|fact: Seq<char>| plan_for(fact, memories))
    } else {
        Seq::empty()
    }
}

/// The memory `m` is the new memory of the character `character_id` with
/// the content `content`, made at the time `now` from the message
/// `source_message_id` of the conversation `conversation_id`.
pub open spec fn is_new_memory(
    m: MemoryEntry,
    id: Seq<char>,
    character_id: Seq<char>,
    conversation_id: Seq<char>,
    source_message_id: Seq<char>,
    content: Seq<char>,
    now: i64,
) -> bool {
    &&& m.id@ == id
    &&& m.character_id@ == character_id
    &&& opt_text(m.conversation_id) == Some(conversation_id)
    &&& m.content@ == content
    &&& m.source_messages@.len() == 1
    &&& m.source_messages@[0]@ == source_message_id
    &&& m.created_at == now
}

/// The memory `m` is `before` with the content `content`.
pub open spec fn with_content(m: MemoryEntry, before: MemoryEntry, content: Seq<char>) -> bool {
    &&& m.id == before.id
    &&& m.conversation_id == before.conversation_id
    &&& m.character_id == before.character_id
    &&& m.content@ == content
    &&& m.source_messages == before.source_messages
    &&& m.created_at == before.created_at
}

/// The memories once `plan` is carried out on them.
pub open spec fn applied(
    after: Seq<MemoryEntry>,
    before: Seq<MemoryEntry>,
    plan: FactPlan,
    id: Seq<char>,
    character_id: Seq<char>,
    conversation_id: Seq<char>,
    source_message_id: Seq<char>,
    now: i64,
) -> bool {
    match plan {
        FactPlan::Skip => after == before,
        FactPlan::Update { memory_id, content } => after.len() == before.len() && forall|i: int|
            0 <= i < before.len() ==> (if (#[trigger] before[i]).id@ == memory_id {
                with_content(after[i], before[i], content)
            } else {
                after[i] == before[i]
            }),
        FactPlan::Insert { content } => after.len() == before.len() + 1 && after.drop_last() == before
            && is_new_memory(
            after.last(),
            id,
            character_id,
            conversation_id,
            source_message_id,
            content,
            now,
        ),
    }
}

impl MemoryService {
    /// Decides what becomes of the facts that the model found in a message.
    /// `response` is the answer of the model to the extraction prompt for
    /// `content`, and `memories` are the memories that the character has.
    pub fn process_message(content: &str, response: &str, memories: &Vec<MemoryEntry>) -> (actions: Vec<
        FactAction,
    >)
        ensures
            plans(actions@) == planned(content@, response@, memories@),
    {
        if !should_extract(content) {
            let none: Vec<FactAction> = Vec::new();
            assert(plans(none@) =~= Seq::<FactPlan>::empty());
            return none;
        }
        let facts = extract_json_array(response);
        let actions = plan_facts(&facts, memories);
        assert(plans(actions@) =~= planned(content@, response@, memories@));
        actions
    }

    /// Carries out what was decided for one fact: a skipped fact changes
    /// nothing, an update replaces the content of every memory with the id
    /// that it names, and an insert adds a memory with the id `id`.
    pub fn apply(
        memories: &mut Vec<MemoryEntry>,
        action: FactAction,
        id: String,
        character_id: &str,
        conversation_id: &str,
        source_message_id: &str,
        now: i64,
    )
        ensures
            applied(
                final(memories)@,
                old(memories)@,
                action@,
                id@,
                character_id@,
                conversation_id@,
                source_message_id@,
                now,
            ),
    {
        match action {
            FactAction::Skip => {},
            FactAction::Update { memory_id, content } => {
                let mut i: usize = 0;
                while i < memories.len()
                    invariant
                        i <= memories.len(),
                        memories@.len() == old(memories)@.len(),
                        forall|j: int|
                            0 <= j < i ==> (if (#[trigger] old(memories)@[j]).id@ == memory_id@ {
                                with_content(memories@[j], old(memories)@[j], content@)
                            } else {
                                memories@[j] == old(memories)@[j]
                            }),
                        forall|j: int| i <= j < memories@.len() ==> memories@[j] == old(memories)@[j],
                    decreases memories.len() - i,
                {
                    if str_eq(memories[i].id.as_str(), memory_id.as_str()) {
                        let mut m = memories.remove(i);
                        m.content = content.clone();
                        memories.insert(i, m);
                    }
                    i += 1;
                }
            },
            FactAction::Insert { content } => {
                let mut source_messages: Vec<String> = Vec::new();
                source_messages.push(source_message_id.to_owned());
                memories.push(
                    MemoryEntry {
                        id,
                        conversation_id: Some(conversation_id.to_owned()),
                        character_id: character_id.to_owned(),
                        content,
                        source_messages,
                        created_at: now,
                    },
                );
                assert(memories@.drop_last() =~= old(memories)@);
            },
        }
    }
}

} // verus!
