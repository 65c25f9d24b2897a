//! Lorebook matching: which entries of the world corpus the recent text
//! brings into the system prompt, and in which order.

use vstd::prelude::*;
use vstd::utf8::encode_utf8;
use crate::entities::{Lorebook, LorebookEntry};
use crate::strings::{lowercase_of, to_lowercase};
use crate::text::{contains, contains_bytes, matches_at, occurs_at, str_eq};

verus! {

/// The byte belongs to a word: an ASCII letter or digit, an underscore, or a
/// byte of a character beyond ASCII.
pub open spec fn is_word_byte(b: u8) -> bool {
    ||| 0x30 <= b <= 0x39
    ||| 0x41 <= b <= 0x5A
    ||| 0x61 <= b <= 0x7A
    ||| b == 0x5F
    ||| b >= 0x80
}

/// `needle` stands in `hay` at `at` as a whole word: no word byte stands
/// directly before it or directly after it.
pub open spec fn occurs_as_word_at(hay: Seq<u8>, needle: Seq<u8>, at: int) -> bool {
    &&& occurs_at(hay, needle, at)
    &&& (at == 0 || !is_word_byte(hay[at - 1]))
    &&& (at + needle.len() == hay.len() || !is_word_byte(hay[at + needle.len()]))
}

/// `needle` stands somewhere in `hay` as a whole word.
pub open spec fn contains_word(hay: Seq<u8>, needle: Seq<u8>) -> bool {
    exists|at: int| occurs_as_word_at(hay, needle, at)
}

/// Tells whether the byte belongs to a word.
pub fn word_byte(b: u8) -> (word: bool)
    ensures
        word == is_word_byte(b),
{
    (0x30 <= b && b <= 0x39) || (0x41 <= b && b <= 0x5A) || (0x61 <= b && b <= 0x7A) || b == 0x5F
        || b >= 0x80
}

/// Tells whether `needle` stands somewhere in `hay` as a whole word.
pub fn contains_whole_word(hay: &[u8], needle: &[u8]) -> (found: bool)
    ensures
        found == contains_word(hay@, needle@),
{
    if needle.len() > hay.len() {
        return false;
    }
    let last: usize = hay.len() - needle.len();
    let mut at: usize = 0;
    loop
        invariant
            last == hay.len() - needle.len(),
            at <= last,
            forall|j: int| 0 <= j < at ==> !occurs_as_word_at(hay@, needle@, j),
        decreases last - at,
    {
        if matches_at(hay, needle, at) {
            let clear_before = at == 0 || !word_byte(hay[at - 1]);
            let clear_after = at == last || !word_byte(hay[at + needle.len()]);
            if clear_before && clear_after {
                assert(occurs_as_word_at(hay@, needle@, at as int));
                return true;
            }
        }
        if at == last {
            return false;
        }
        at += 1;
    }
}

/// The keyword `keyword` of `entry` is found in `text`: as it stands where
/// the entry is case-sensitive, in lower case otherwise; as a whole word where
/// the entry asks for whole words, anywhere otherwise.
pub open spec fn keyword_matches(entry: LorebookEntry, keyword: Seq<char>, text: Seq<char>) -> bool {
    let k = if entry.case_sensitive {
        keyword
    } else {
        lowercase_of(keyword)
    };
    let t = if entry.case_sensitive {
        text
    } else {
        lowercase_of(text)
    };
    if entry.match_whole_word {
        contains_word(encode_utf8(t), encode_utf8(k))
    } else {
        contains(encode_utf8(t), encode_utf8(k))
    }
}

/// The entry is enabled and one of its keywords is found in `text`.
pub open spec fn entry_matches(entry: LorebookEntry, text: Seq<char>) -> bool {
    entry.is_enabled && exists|k: int|
        0 <= k < entry.keywords@.len() && keyword_matches(
            entry,
            (#[trigger] entry.keywords@[k])@,
            text,
        )
}

/// Tells whether the entry is enabled and one of its keywords is found in
/// `text`, whose lower-case form is `text_lower`.
pub fn matches_entry(entry: &LorebookEntry, text: &str, text_lower: &str) -> (found: bool)
    requires
        text_lower@ == lowercase_of(text@),
    ensures
        found == entry_matches(*entry, text@),
{
    if !entry.is_enabled {
        return false;
    }
    let mut k: usize = 0;
    while k < entry.keywords.len()
        invariant
            k <= entry.keywords.len(),
            entry.is_enabled,
            text_lower@ == lowercase_of(text@),
            forall|j: int|
                0 <= j < k ==> !keyword_matches(*entry, (#[trigger] entry.keywords@[j])@, text@),
        decreases entry.keywords.len() - k,
    {
        let keyword = &entry.keywords[k];
        let found = if entry.case_sensitive {
            if entry.match_whole_word {
                contains_whole_word(text.as_bytes(), keyword.as_str().as_bytes())
            } else {
                contains_bytes(text.as_bytes(), keyword.as_str().as_bytes())
            }
        } else {
            let lower = to_lowercase(keyword.as_str());
            if entry.match_whole_word {
                contains_whole_word(text_lower.as_bytes(), lower.as_str().as_bytes())
            } else {
                contains_bytes(text_lower.as_bytes(), lower.as_str().as_bytes())
            }
        };
        if found {
            assert(keyword_matches(*entry, entry.keywords@[k as int]@, text@));
            return true;
        }
        k += 1;
    }
    false
}

/// Whether an entry with the id `id` stands among the first `upto` of
/// `entries`.
pub open spec fn seen_before(entries: Seq<LorebookEntry>, id: Seq<char>, upto: int) -> bool {
    exists|j: int| 0 <= j < upto && j < entries.len() && (#[trigger] entries[j]).id@ == id
}

/// The entries without those whose id an earlier entry has.
pub open spec fn without_repeats(entries: Seq<LorebookEntry>) -> Seq<LorebookEntry>
    decreases entries.len(),
{
    if entries.len() == 0 {
        Seq::empty()
    } else {
        let before = without_repeats(entries.drop_last());
        if seen_before(before, entries.last().id@, before.len() as int) {
            before
        } else {
            before.push(entries.last())
        }
    }
}

/// Where `entry` goes into entries ordered by falling priority: behind
/// every entry whose priority is not lower.
pub open spec fn slot_for(sorted: Seq<LorebookEntry>, priority: i32) -> int
    decreases sorted.len(),
{
    if sorted.len() == 0 {
        0
    } else if sorted.last().priority >= priority {
        sorted.len() as int
    } else {
        slot_for(sorted.drop_last(), priority)
    }
}

/// The entries in the order of falling priority; entries of equal priority
/// keep their order.
pub open spec fn by_priority(entries: Seq<LorebookEntry>) -> Seq<LorebookEntry>
    decreases entries.len(),
{
    if entries.len() == 0 {
        Seq::empty()
    } else {
        let before = by_priority(entries.drop_last());
        before.insert(slot_for(before, entries.last().priority), entries.last())
    }
}

/// No entry stands before one of higher priority.
pub open spec fn falling(entries: Seq<LorebookEntry>) -> bool {
    forall|i: int, j: int|
        0 <= i < j < entries.len() ==> (#[trigger] entries[i]).priority >= (
        #[trigger] entries[j]).priority
}

/// The slot for a priority lies within the entries; before it no entry has a
/// lower priority, and from it on every entry has one, provided that the
/// entries are in falling order.
pub proof fn lemma_slot_for(sorted: Seq<LorebookEntry>, priority: i32)
    requires
        falling(sorted),
    ensures
        0 <= slot_for(sorted, priority) <= sorted.len(),
        forall|i: int|
            0 <= i < slot_for(sorted, priority) ==> (#[trigger] sorted[i]).priority >= priority,
        forall|i: int|
            slot_for(sorted, priority) <= i < sorted.len() ==> (#[trigger] sorted[i]).priority
                < priority,
    decreases sorted.len(),
{
    if sorted.len() > 0 && sorted.last().priority < priority {
        let shorter = sorted.drop_last();
        assert forall|i: int, j: int| 0 <= i < j < shorter.len() implies (
        #[trigger] shorter[i]).priority >= (#[trigger] shorter[j]).priority by {
            assert(shorter[i] == sorted[i]);
            assert(shorter[j] == sorted[j]);
        }
        lemma_slot_for(shorter, priority);
        assert forall|i: int| 0 <= i < slot_for(sorted, priority) implies (
        #[trigger] sorted[i]).priority >= priority by {
            assert(sorted[i] == shorter[i]);
        }
        assert forall|i: int| slot_for(sorted, priority) <= i < sorted.len() implies (
        #[trigger] sorted[i]).priority < priority by {
            if i < shorter.len() {
                assert(sorted[i] == shorter[i]);
            }
        }
    }
}

/// Ordering by priority gives entries in falling order, as many as there
/// were.
pub proof fn lemma_by_priority_is_falling(entries: Seq<LorebookEntry>)
    ensures
        falling(by_priority(entries)),
        by_priority(entries).len() == entries.len(),
    decreases entries.len(),
{
    if entries.len() > 0 {
        let before = by_priority(entries.drop_last());
        lemma_by_priority_is_falling(entries.drop_last());
        let e = entries.last();
        lemma_slot_for(before, e.priority);
        let at = slot_for(before, e.priority);
        let after = before.insert(at, e);
        assert forall|i: int, j: int| 0 <= i < j < after.len() implies (
        #[trigger] after[i]).priority >= (#[trigger] after[j]).priority by {
            if i < at {
                assert(after[i] == before[i]);
            } else if i > at {
                assert(after[i] == before[i - 1]);
            }
            if j < at {
                assert(after[j] == before[j]);
            } else if j > at {
                assert(after[j] == before[j - 1]);
            }
        }
    }
}

/// The entries of `candidates` that match `text`, in their order.
pub open spec fn matching(candidates: Seq<LorebookEntry>, text: Seq<char>) -> Seq<LorebookEntry>
    decreases candidates.len(),
{
    if candidates.len() == 0 {
        Seq::empty()
    } else {
        let before = matching(candidates.drop_last(), text);
        if entry_matches(candidates.last(), text) {
            before.push(candidates.last())
        } else {
            before
        }
    }
}

/// What matching selects from the candidates: the entries that match the
/// text, each id once, in the order of falling priority.
pub open spec fn selected_entries(candidates: Seq<LorebookEntry>, text: Seq<char>) -> Seq<
    LorebookEntry,
> {
    by_priority(without_repeats(matching(candidates, text)))
}

/// The entries of a sequence of lorebooks, in the order of the lorebooks.
pub open spec fn all_entries(books: Seq<Lorebook>) -> Seq<LorebookEntry>
    decreases books.len(),
{
    if books.len() == 0 {
        Seq::empty()
    } else {
        all_entries(books.drop_last()) + books.last().entries@
    }
}

/// The entries of the enabled lorebooks of a sequence, in the order of the
/// lorebooks.
pub open spec fn enabled_entries(books: Seq<Lorebook>) -> Seq<LorebookEntry>
    decreases books.len(),
{
    if books.len() == 0 {
        Seq::empty()
    } else if books.last().is_enabled {
        enabled_entries(books.drop_last()) + books.last().entries@
    } else {
        enabled_entries(books.drop_last())
    }
}

/// The candidate entries for a conversation: those of the lorebooks that
/// apply to all conversations, then those of the enabled lorebooks attached
/// to it.
pub open spec fn candidate_entries(global: Seq<Lorebook>, attached: Seq<Lorebook>) -> Seq<
    LorebookEntry,
> {
    all_entries(global) + enabled_entries(attached)
}

/// The candidate entries for a conversation: those of the lorebooks that
/// apply to all conversations, then those of the enabled lorebooks attached
/// to it.
pub fn collect_entries(global: Vec<Lorebook>, attached: Vec<Lorebook>) -> (entries: Vec<
    LorebookEntry,
>)
    ensures
        entries@ == candidate_entries(global@, attached@),
{
    let mut entries: Vec<LorebookEntry> = Vec::new();
    let ghost global_books = global@;
    let ghost attached_books = attached@;
    for book in it: global
        invariant
            it.seq() == global_books,
            entries@ == all_entries(global_books.take(it.index())),
    {
        let mut found = book.entries;
        proof {
            let upto = global_books.take(it.index() + 1);
            assert(upto.drop_last() =~= global_books.take(it.index()));
            assert(upto.last() == book);
        }
        entries.append(&mut found);
    }
    proof {
        assert(global_books.take(global_books.len() as int) =~= global_books);
    }
    let ghost first = entries@;
    assert(entries@ =~= first + enabled_entries(attached_books.take(0)));
    for book in it: attached
        invariant
            it.seq() == attached_books,
            entries@ == first + enabled_entries(attached_books.take(it.index())),
    {
        proof {
            let upto = attached_books.take(it.index() + 1);
            assert(upto.drop_last() =~= attached_books.take(it.index()));
            assert(upto.last() == book);
        }
        if book.is_enabled {
            let mut found = book.entries;
            let ghost before = entries@;
            entries.append(&mut found);
            assert(entries@ =~= first + (enabled_entries(attached_books.take(it.index()))
                + book.entries@));
        }
    }
    proof {
        assert(attached_books.take(attached_books.len() as int) =~= attached_books);
    }
    entries
}

/// Tells whether one of the ids is `id`.
fn holds_id(ids: &Vec<String>, id: &str) -> (found: bool)
    ensures
        found == exists|j: int| 0 <= j < ids@.len() && (#[trigger] ids@[j])@ == id@,
{
    let mut j: usize = 0;
    while j < ids.len()
        invariant
            j <= ids.len(),
            forall|k: int| 0 <= k < j ==> (#[trigger] ids@[k])@ != id@,
        decreases ids.len() - j,
    {
        if str_eq(ids[j].as_str(), id) {
            return true;
        }
        j += 1;
    }
    false
}

/// Where an entry of the given priority goes into entries ordered by
/// falling priority.
pub fn find_slot(sorted: &Vec<LorebookEntry>, priority: i32) -> (at: usize)
    ensures
        at == slot_for(sorted@, priority),
        at <= sorted.len(),
{
    let mut at: usize = sorted.len();
    assert(sorted@.take(at as int) =~= sorted@);
    while at > 0 && sorted[at - 1].priority < priority
        invariant
            at <= sorted.len(),
            slot_for(sorted@, priority) == slot_for(sorted@.take(at as int), priority),
        decreases at,
    {
        proof {
            assert(sorted@.take(at as int).drop_last() =~= sorted@.take(at - 1));
        }
        at -= 1;
    }
    proof {
        if at > 0 {
            assert(sorted@.take(at as int).last() == sorted@[at - 1]);
        }
    }
    at
}

/// Selects from the candidates the entries that match the text, each id
/// once, in the order of falling priority.
pub fn select_entries(candidates: Vec<LorebookEntry>, text: &str) -> (selected: Vec<LorebookEntry>)
    ensures
        selected@ == selected_entries(candidates@, text@),
        falling(selected@),
{
    let text_lower = to_lowercase(text);
    let ghost all = candidates@;
    let ghost mut unique: Seq<LorebookEntry> = Seq::empty();
    let mut ids: Vec<String> = Vec::new();
    let mut sorted: Vec<LorebookEntry> = Vec::new();
    for entry in it: candidates
        invariant
            it.seq() == all,
            text_lower@ == lowercase_of(text@),
            unique == without_repeats(matching(all.take(it.index()), text@)),
            ids@.len() == unique.len(),
            forall|k: int| 0 <= k < unique.len() ==> (#[trigger] ids@[k])@ == unique[k].id@,
            sorted@ == by_priority(unique),
    {
        proof {
            let upto = all.take(it.index() + 1);
            assert(upto.drop_last() =~= all.take(it.index()));
            assert(upto.last() == entry);
            let matched = matching(all.take(it.index()), text@);
            assert(matched.push(entry).drop_last() =~= matched);
            assert(matched.push(entry).last() == entry);
        }
        if matches_entry(&entry, text, text_lower.as_str()) {
            let seen = holds_id(&ids, entry.id.as_str());
            proof {
                if seen {
                    let j = choose|j: int| 0 <= j < ids@.len() && (#[trigger] ids@[j])@ == entry.id@;
                    assert(unique[j].id@ == entry.id@);
                }
                if seen_before(unique, entry.id@, unique.len() as int) {
                    let j = choose|j: int|
                        0 <= j < unique.len() && (#[trigger] unique[j]).id@ == entry.id@;
                    assert(ids@[j]@ == entry.id@);
                }
            }
            if !seen {
                let at = find_slot(&sorted, entry.priority);
                ids.push(entry.id.clone());
                proof {
                    assert(unique.push(entry).drop_last() =~= unique);
                    unique = unique.push(entry);
                }
                sorted.insert(at, entry);
            }
        }
    }
    proof {
        assert(all.take(all.len() as int) =~= all);
        lemma_by_priority_is_falling(unique);
    }
    sorted
}

/// The unit that holds the operations on lorebooks.
pub struct LorebookService;

impl LorebookService {
    /// The entries that `text` brings into the prompt of a conversation: of
    /// the entries of the lorebooks that apply to all conversations and of
    /// the enabled lorebooks attached to this one, those that are enabled and
    /// have a keyword in the text, each id once, by falling priority.
    pub fn find_matching_entries(global: Vec<Lorebook>, attached: Vec<Lorebook>, text: &str) -> (found:
        Vec<LorebookEntry>)
        ensures
            found@ == selected_entries(candidate_entries(global@, attached@), text@),
            falling(found@),
    {
        select_entries(collect_entries(global, attached), text)
    }
}

} // verus!
