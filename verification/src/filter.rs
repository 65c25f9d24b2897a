//! The output filter: a stateful byte-level buffer that turns raw model tokens
//! into visible text.
//!
//! The model is asked to answer inside `<RESPONSE>` and `</RESPONSE>`, after an
//! optional hidden block between `<thinking>` and `</thinking>`. The filter
//! drops the hidden block, passes on what stands inside the response bracket,
//! repairs an echoed system prompt, and never lets go of a buffer tail that may
//! still grow into a tag.

use vstd::prelude::*;
use vstd::utf8::{decode_utf8, encode_utf8, valid_utf8};
use vstd::slice::slice_subrange;
use vstd::string::StringSliceAdditionalSpecFns;
use crate::text::{
    append_bytes, contains, copy_range, ends_with, find, first_occurrence, has_prefix, has_suffix,
    last_occurrence, lemma_first_occurrence, lemma_last_occurrence, occurs_at, rfind, starts_with,
    trim_start_index, trimmed_start,
};

verus! {

/// Steps that one call of `process` takes before it hands out the whole buffer.
pub const STEP_LIMIT: usize = 1000;

/// Buffer size above which untagged text is taken for the response.
pub const PLAIN_TEXT_THRESHOLD: usize = 500;

/// Buffer size above which an echoed prompt is cut at its last marker at once.
pub const LEAK_CUT_THRESHOLD: usize = 500;

/// Buffer size above which an echoed prompt without a marker is dropped.
pub const LEAK_DROP_THRESHOLD: usize = 1000;

/// Bytes that must follow a marker before an echoed prompt is cut there.
pub const LEAK_CONFIRM_BYTES: usize = 5;

/// Where the filter stands in the response grammar.
#[derive(Clone, Copy, Debug, PartialEq, Eq, Structural)]
pub enum FilterMode {
    /// No bracket has been opened.
    Neutral,
    /// Inside a hidden block.
    InThinking,
    /// Inside the response bracket.
    InResponse,
    /// Untagged text, taken for the response.
    Passthrough,
}

/// The tag that opens a hidden block: `<thinking>`.
pub open spec fn thinking_open() -> Seq<u8> {
    seq![
        '<' as u8,
        't' as u8,
        'h' as u8,
        'i' as u8,
        'n' as u8,
        'k' as u8,
        'i' as u8,
        'n' as u8,
        'g' as u8,
        '>' as u8,
    ]
}

/// The tag that closes a hidden block: `</thinking>`.
pub open spec fn thinking_close() -> Seq<u8> {
    seq![
        '<' as u8,
        '/' as u8,
        't' as u8,
        'h' as u8,
        'i' as u8,
        'n' as u8,
        'k' as u8,
        'i' as u8,
        'n' as u8,
        'g' as u8,
        '>' as u8,
    ]
}

/// The tag that opens the response bracket: `<RESPONSE>`.
pub open spec fn response_open() -> Seq<u8> {
    seq![
        '<' as u8,
        'R' as u8,
        'E' as u8,
        'S' as u8,
        'P' as u8,
        'O' as u8,
        'N' as u8,
        'S' as u8,
        'E' as u8,
        '>' as u8,
    ]
}

/// The tag that closes the response bracket: `</RESPONSE>`.
pub open spec fn response_close() -> Seq<u8> {
    seq![
        '<' as u8,
        '/' as u8,
        'R' as u8,
        'E' as u8,
        'S' as u8,
        'P' as u8,
        'O' as u8,
        'N' as u8,
        'S' as u8,
        'E' as u8,
        '>' as u8,
    ]
}

/// The leak marker `Scenario:`.
pub open spec fn scenario_marker() -> Seq<u8> {
    seq![
        'S' as u8,
        'c' as u8,
        'e' as u8,
        'n' as u8,
        'a' as u8,
        'r' as u8,
        'i' as u8,
        'o' as u8,
        ':' as u8,
    ]
}

/// The leak marker `System:`.
pub open spec fn system_marker() -> Seq<u8> {
    seq!['S' as u8, 'y' as u8, 's' as u8, 't' as u8, 'e' as u8, 'm' as u8, ':' as u8]
}

/// The leak marker `You are {name}`.
pub open spec fn identity_marker(name: Seq<u8>) -> Seq<u8> {
    seq!['Y' as u8, 'o' as u8, 'u' as u8, ' ' as u8, 'a' as u8, 'r' as u8, 'e' as u8, ' ' as u8]
        + name
}

/// The leak marker `{name}:`.
pub open spec fn speaker_marker(name: Seq<u8>) -> Seq<u8> {
    name + seq![':' as u8]
}

/// The marker `{name}: ` after whose last occurrence the response begins. An
/// occurrence of `{name}: *` is one of this marker too, so the last occurrence
/// of either is the last occurrence of this one.
pub open spec fn dialogue_marker(name: Seq<u8>) -> Seq<u8> {
    name + seq![':' as u8, ' ' as u8]
}

/// The `index`-th of the four known tags.
pub open spec fn known_tag(index: int) -> Seq<u8> {
    if index == 0 {
        thinking_open()
    } else if index == 1 {
        thinking_close()
    } else if index == 2 {
        response_open()
    } else {
        response_close()
    }
}

/// The longest proper prefix of `tag`, of at most `limit` bytes and at least
/// one, that `buffer` ends with; 0 where it ends with none.
pub open spec fn partial_len_upto(buffer: Seq<u8>, tag: Seq<u8>, limit: int) -> int
    decreases limit,
{
    if limit <= 0 {
        0
    } else if ends_with(buffer, tag.subrange(0, limit)) {
        limit
    } else {
        partial_len_upto(buffer, tag, limit - 1)
    }
}

/// The length of the longest proper, non-empty prefix of `tag` that `buffer`
/// ends with; 0 where it ends with none.
pub open spec fn partial_tag_len(buffer: Seq<u8>, tag: Seq<u8>) -> int {
    if tag.len() == 0 {
        0
    } else {
        partial_len_upto(buffer, tag, tag.len() - 1)
    }
}

/// The larger of two lengths.
pub open spec fn longer(a: int, b: int) -> int {
    if a >= b {
        a
    } else {
        b
    }
}

/// The length of the buffer tail that is held back in the response bracket:
/// the longest tail that is a proper prefix of one of the four known tags.
pub open spec fn held_back_len(buffer: Seq<u8>) -> int {
    longer(
        longer(partial_tag_len(buffer, thinking_open()), partial_tag_len(buffer, thinking_close())),
        longer(partial_tag_len(buffer, response_open()), partial_tag_len(buffer, response_close())),
    )
}

/// Outside any bracket, the buffer ends with a proper prefix of an opening tag.
pub open spec fn ends_in_partial_opening(buffer: Seq<u8>) -> bool {
    partial_tag_len(buffer, thinking_open()) > 0 || partial_tag_len(buffer, response_open()) > 0
}

/// The state of a filter as plain values.
pub struct FilterModel {
    /// What has arrived and was neither dropped nor handed out.
    pub buffer: Seq<u8>,
    /// Where the filter stands in the response grammar.
    pub mode: FilterMode,
    /// The character's name, as bytes.
    pub name: Seq<u8>,
}

/// One step of the filter: the state after it, what it hands out, and whether
/// another step follows.
pub struct FilterStep {
    /// The state after the step.
    pub next: FilterModel,
    /// The visible text that the step hands out.
    pub emitted: Option<Seq<u8>>,
    /// Another step follows.
    pub again: bool,
}

/// The buffer, after its leading white space, begins with a leak marker.
pub open spec fn leak_detected(m: FilterModel) -> bool {
    let head = trimmed_start(m.buffer);
    ||| starts_with(head, scenario_marker())
    ||| starts_with(head, system_marker())
    ||| starts_with(head, identity_marker(m.name))
    ||| starts_with(head, speaker_marker(m.name))
}

/// A step that ends the call and hands out nothing.
pub open spec fn wait(m: FilterModel) -> FilterStep {
    FilterStep { next: m, emitted: None, again: false }
}

/// The state `m` with the buffer cut down to what follows `from`, in `mode`.
pub open spec fn cut_to(m: FilterModel, from: int, mode: FilterMode) -> FilterModel {
    FilterModel { buffer: m.buffer.subrange(from, m.buffer.len() as int), mode, name: m.name }
}

/// `text` where it is not empty.
pub open spec fn non_empty(text: Seq<u8>) -> Option<Seq<u8>> {
    if text.len() == 0 {
        None
    } else {
        Some(text)
    }
}

/// The step outside any bracket when the buffer begins with a leak marker.
/// The response begins after the last `{name}: `; it is cut there once five
/// more bytes follow the marker or the buffer holds more than 500. Without a
/// marker the step waits, and drops a buffer of more than 1000 bytes.
pub open spec fn leak_step(m: FilterModel) -> FilterStep {
    let marker = dialogue_marker(m.name);
    match last_occurrence(m.buffer, marker) {
        Some(at) => {
            let after = at + marker.len();
            if m.buffer.len() - after > LEAK_CONFIRM_BYTES || m.buffer.len() > LEAK_CUT_THRESHOLD {
                FilterStep {
                    next: cut_to(m, after, FilterMode::InResponse),
                    emitted: None,
                    again: true,
                }
            } else {
                wait(m)
            }
        },
        None => {
            if m.buffer.len() > LEAK_DROP_THRESHOLD {
                wait(cut_to(m, m.buffer.len() as int, FilterMode::Neutral))
            } else {
                wait(m)
            }
        },
    }
}

/// The step that opens a bracket at the tag found at `at`: what stands before
/// the tag and the tag itself are dropped.
pub open spec fn open_step(m: FilterModel, at: int, tag: Seq<u8>, mode: FilterMode) -> FilterStep {
    FilterStep { next: cut_to(m, at + tag.len(), mode), emitted: None, again: true }
}

/// The step outside any bracket when no leak marker stands at the start. The
/// earlier of the two opening tags opens its bracket. Without one the step
/// waits while the buffer ends in a part of an opening tag or holds at most
/// 500 bytes, and takes a longer buffer for plain text.
pub open spec fn neutral_step(m: FilterModel) -> FilterStep {
    let thinking = first_occurrence(m.buffer, thinking_open());
    let response = first_occurrence(m.buffer, response_open());
    match (thinking, response) {
        (Some(t), Some(r)) => {
            if t < r {
                open_step(m, t, thinking_open(), FilterMode::InThinking)
            } else {
                open_step(m, r, response_open(), FilterMode::InResponse)
            }
        },
        (Some(t), None) => open_step(m, t, thinking_open(), FilterMode::InThinking),
        (None, Some(r)) => open_step(m, r, response_open(), FilterMode::InResponse),
        (None, None) => {
            if ends_in_partial_opening(m.buffer) {
                wait(m)
            } else if m.buffer.len() > PLAIN_TEXT_THRESHOLD {
                FilterStep {
                    next: FilterModel { mode: FilterMode::Passthrough, ..m },
                    emitted: None,
                    again: true,
                }
            } else {
                wait(m)
            }
        },
    }
}

/// The step inside a hidden block: everything through the closing tag is
/// dropped; without one, everything but a tail that may grow into it.
pub open spec fn thinking_step(m: FilterModel) -> FilterStep {
    match first_occurrence(m.buffer, thinking_close()) {
        Some(at) => FilterStep {
            next: cut_to(m, at + thinking_close().len(), FilterMode::Neutral),
            emitted: None,
            again: true,
        },
        None => wait(
            cut_to(
                m,
                m.buffer.len() - partial_tag_len(m.buffer, thinking_close()),
                FilterMode::InThinking,
            ),
        ),
    }
}

/// The step inside the response bracket: what stands before the closing tag
/// is handed out and the bracket closed; without a closing tag, everything
/// is handed out but the longest tail that may grow into a known tag.
pub open spec fn response_step(m: FilterModel) -> FilterStep {
    match first_occurrence(m.buffer, response_close()) {
        Some(at) => FilterStep {
            next: cut_to(m, at + response_close().len(), FilterMode::Neutral),
            emitted: non_empty(m.buffer.subrange(0, at)),
            again: true,
        },
        None => {
            let keep = held_back_len(m.buffer);
            FilterStep {
                next: cut_to(m, m.buffer.len() - keep, m.mode),
                emitted: non_empty(m.buffer.subrange(0, m.buffer.len() - keep)),
                again: false,
            }
        },
    }
}

/// One step of the filter.
pub open spec fn filter_step(m: FilterModel) -> FilterStep {
    if m.buffer.len() == 0 {
        wait(m)
    } else {
        match m.mode {
            FilterMode::Neutral => {
                if leak_detected(m) {
                    leak_step(m)
                } else {
                    neutral_step(m)
                }
            },
            FilterMode::InThinking => thinking_step(m),
            FilterMode::InResponse => response_step(m),
            FilterMode::Passthrough => response_step(m),
        }
    }
}

/// The chunks that an optional emission adds.
pub open spec fn chunk_of(emitted: Option<Seq<u8>>) -> Seq<Seq<u8>> {
    match emitted {
        Some(text) => seq![text],
        None => Seq::empty(),
    }
}

/// The filter run for at most `steps` steps: the state it ends in and the
/// chunks it hands out. When the steps are used up, the whole buffer is handed
/// out as it stands, so that nothing is lost.
pub open spec fn filter_run(m: FilterModel, steps: nat) -> (FilterModel, Seq<Seq<u8>>)
    decreases steps,
{
    if steps == 0 {
        (cut_to(m, m.buffer.len() as int, m.mode), seq![m.buffer])
    } else {
        let s = filter_step(m);
        if s.again {
            let rest = filter_run(s.next, (steps - 1) as nat);
            (rest.0, chunk_of(s.emitted) + rest.1)
        } else {
            (s.next, chunk_of(s.emitted))
        }
    }
}

/// The state `m` after `token` has arrived.
pub open spec fn with_token(m: FilterModel, token: Seq<u8>) -> FilterModel {
    FilterModel { buffer: m.buffer + token, ..m }
}

/// What `process` does with a token: the state after it and the chunks handed
/// out.
pub open spec fn process_result(m: FilterModel, token: Seq<u8>) -> (FilterModel, Seq<Seq<u8>>) {
    filter_run(with_token(m, token), STEP_LIMIT as nat)
}

/// What `flush` does at the end of the stream: the state after it and the
/// text handed out. Inside a hidden block nothing is handed out; otherwise
/// the rest of the buffer is.
pub open spec fn flush_result(m: FilterModel) -> (FilterModel, Option<Seq<u8>>) {
    if m.mode == FilterMode::InThinking {
        (m, None)
    } else {
        (cut_to(m, m.buffer.len() as int, m.mode), non_empty(m.buffer))
    }
}

/// `text` has fewer bytes than `tag` and `tag` begins with it.
pub open spec fn is_proper_prefix(text: Seq<u8>, tag: Seq<u8>) -> bool {
    text.len() < tag.len() && starts_with(tag, text)
}

/// `partial_len_upto` finds a prefix that the buffer ends with, and the
/// longest one within the limit.
pub proof fn lemma_partial_len_upto(buffer: Seq<u8>, tag: Seq<u8>, limit: int)
    requires
        limit < tag.len(),
    ensures
        0 <= partial_len_upto(buffer, tag, limit),
        partial_len_upto(buffer, tag, limit) <= limit || limit < 0,
        partial_len_upto(buffer, tag, limit) <= buffer.len(),
        partial_len_upto(buffer, tag, limit) > 0 ==> ends_with(
            buffer,
            tag.subrange(0, partial_len_upto(buffer, tag, limit)),
        ),
        forall|j: int|
            partial_len_upto(buffer, tag, limit) < j <= limit ==> !ends_with(
                buffer,
                #[trigger] tag.subrange(0, j),
            ),
    decreases limit,
{
    if limit <= 0 {
    } else if ends_with(buffer, tag.subrange(0, limit)) {
    } else {
        lemma_partial_len_upto(buffer, tag, limit - 1);
    }
}

/// The partial length is that of the longest proper, non-empty prefix of the
/// tag that the buffer ends with.
pub proof fn lemma_partial_tag_len(buffer: Seq<u8>, tag: Seq<u8>)
    ensures
        0 <= partial_tag_len(buffer, tag) <= buffer.len(),
        partial_tag_len(buffer, tag) < tag.len() || tag.len() == 0,
        partial_tag_len(buffer, tag) > 0 ==> ends_with(
            buffer,
            tag.subrange(0, partial_tag_len(buffer, tag)),
        ),
        forall|j: int|
            partial_tag_len(buffer, tag) < j < tag.len() ==> !ends_with(
                buffer,
                #[trigger] tag.subrange(0, j),
            ),
{
    if tag.len() > 0 {
        lemma_partial_len_upto(buffer, tag, tag.len() - 1);
    }
}

/// What is held back is a tail of the buffer.
pub proof fn lemma_held_back_bounds(buffer: Seq<u8>)
    ensures
        0 <= held_back_len(buffer) <= buffer.len(),
        held_back_len(buffer) <= 10,
        forall|index: int|
            0 <= index < 4 ==> partial_tag_len(buffer, #[trigger] known_tag(index))
                <= held_back_len(buffer),
{
    lemma_partial_tag_len(buffer, thinking_open());
    lemma_partial_tag_len(buffer, thinking_close());
    lemma_partial_tag_len(buffer, response_open());
    lemma_partial_tag_len(buffer, response_close());
}

/// No part of a tag is handed out while the rest of it is held back: when the
/// response bracket hands out all but the held-back tail, no tail of what is
/// handed out, taken together with what is held back, is a proper prefix of
/// one of the four known tags.
pub proof fn lemma_emission_never_splits_a_tag(buffer: Seq<u8>, taken: int, index: int)
    requires
        0 <= index < 4,
        1 <= taken <= buffer.len() - held_back_len(buffer),
    ensures
        !is_proper_prefix(
            buffer.subrange(
                buffer.len() - held_back_len(buffer) - taken,
                buffer.len() as int,
            ),
            known_tag(index),
        ),
{
    let tag = known_tag(index);
    let keep = held_back_len(buffer);
    let straddle = buffer.subrange(buffer.len() - keep - taken, buffer.len() as int);
    lemma_held_back_bounds(buffer);
    lemma_partial_tag_len(buffer, tag);
    if is_proper_prefix(straddle, tag) {
        let j = straddle.len() as int;
        assert(tag.subrange(0, j) == straddle);
        assert(buffer.subrange(buffer.len() - j, buffer.len() as int) == straddle);
        assert(ends_with(buffer, tag.subrange(0, j)));
        assert(partial_tag_len(buffer, tag) < j < tag.len());
        assert(false);
    }
}

/// What stays in the buffer after the response bracket has handed out text is
/// empty or a proper prefix of one of the four known tags.
pub proof fn lemma_held_back_is_partial_tag(buffer: Seq<u8>)
    ensures
        held_back_len(buffer) == 0 || exists|index: int|
            0 <= index < 4 && is_proper_prefix(
                buffer.subrange(buffer.len() - held_back_len(buffer), buffer.len() as int),
                #[trigger] known_tag(index),
            ),
{
    let keep = held_back_len(buffer);
    lemma_partial_tag_len(buffer, thinking_open());
    lemma_partial_tag_len(buffer, thinking_close());
    lemma_partial_tag_len(buffer, response_open());
    lemma_partial_tag_len(buffer, response_close());
    if keep > 0 {
        let index: int = if keep == partial_tag_len(buffer, thinking_open()) {
            0
        } else if keep == partial_tag_len(buffer, thinking_close()) {
            1
        } else if keep == partial_tag_len(buffer, response_open()) {
            2
        } else {
            3
        };
        let tag = known_tag(index);
        assert(keep == partial_tag_len(buffer, tag));
        assert(ends_with(buffer, tag.subrange(0, keep)));
        assert(tag.subrange(0, keep) == buffer.subrange(buffer.len() - keep, buffer.len() as int));
        assert(is_proper_prefix(
            buffer.subrange(buffer.len() - keep, buffer.len() as int),
            known_tag(index),
        ));
    }
}

/// The response bracket never hands out a part of a tag: when a step in the
/// bracket finds no closing tag and hands out text, that text and the buffer
/// it leaves make up the buffer it found, and no tail of the text, followed
/// by the buffer left, is a proper prefix of one of the four known tags.
pub proof fn lemma_response_step_never_splits_a_tag(m: FilterModel, taken: int, index: int)
    requires
        m.mode == FilterMode::InResponse || m.mode == FilterMode::Passthrough,
        first_occurrence(m.buffer, response_close()) is None,
        filter_step(m).emitted is Some,
        1 <= taken <= filter_step(m).emitted->0.len(),
        0 <= index < 4,
    ensures
        filter_step(m).emitted->0 + filter_step(m).next.buffer == m.buffer,
        !filter_step(m).again,
        !is_proper_prefix(
            filter_step(m).emitted->0.subrange(
                filter_step(m).emitted->0.len() - taken,
                filter_step(m).emitted->0.len() as int,
            ) + filter_step(m).next.buffer,
            known_tag(index),
        ),
{
    let s = filter_step(m);
    let text = s.emitted->0;
    let keep = held_back_len(m.buffer);
    lemma_held_back_bounds(m.buffer);
    assert(text + s.next.buffer =~= m.buffer);
    lemma_emission_never_splits_a_tag(m.buffer, taken, index);
    assert(text.subrange(text.len() - taken, text.len() as int) + s.next.buffer =~= m.buffer.subrange(
        m.buffer.len() - keep - taken,
        m.buffer.len() as int,
    ));
}

/// The run ends by itself within `steps` steps: one of them is a step after
/// which the filter waits for the next token.
pub open spec fn run_ends(m: FilterModel, steps: nat) -> bool
    decreases steps,
{
    if steps == 0 {
        false
    } else {
        !filter_step(m).again || run_ends(filter_step(m).next, (steps - 1) as nat)
    }
}

/// The state in which the last step of a run is taken.
pub open spec fn last_state(m: FilterModel, steps: nat) -> FilterModel
    decreases steps,
{
    if steps == 0 || !filter_step(m).again {
        m
    } else {
        last_state(filter_step(m).next, (steps - 1) as nat)
    }
}

/// The state of the filter after the tokens have arrived one after the
/// other.
pub open spec fn after_tokens(m: FilterModel, tokens: Seq<Seq<u8>>) -> FilterModel
    decreases tokens.len(),
{
    if tokens.len() == 0 {
        m
    } else {
        process_result(after_tokens(m, tokens.drop_last()), tokens.last()).0
    }
}

/// A run that ends by itself ends with its last step: the state after the
/// run is the state after that step, and what that step hands out is the last
/// chunk of the run.
pub proof fn lemma_run_ends_with_last_step(m: FilterModel, steps: nat)
    requires
        run_ends(m, steps),
    ensures
        !filter_step(last_state(m, steps)).again,
        filter_run(m, steps).0 == filter_step(last_state(m, steps)).next,
        filter_step(last_state(m, steps)).emitted is Some ==> filter_run(m, steps).1.len() > 0
            && filter_run(m, steps).1.last() == filter_step(last_state(m, steps)).emitted->0,
    decreases steps,
{
    if filter_step(m).again {
        lemma_run_ends_with_last_step(filter_step(m).next, (steps - 1) as nat);
    }
}

/// Only the response bracket hands out text, and where the filter then
/// waits, it found no closing tag.
pub proof fn lemma_only_the_bracket_emits(m: FilterModel)
    requires
        filter_step(m).emitted is Some,
    ensures
        m.mode == FilterMode::InResponse || m.mode == FilterMode::Passthrough,
        !filter_step(m).again ==> first_occurrence(m.buffer, response_close()) is None,
{
}

/// The closing tag of the response bracket is never handed out by a step:
/// the text that a step hands out stands before the first closing tag of the
/// buffer, or the buffer holds none.
pub proof fn lemma_step_hands_out_no_closing_tag(m: FilterModel)
    requires
        filter_step(m).emitted is Some,
    ensures
        !contains(filter_step(m).emitted->0, response_close()),
{
    let text = filter_step(m).emitted->0;
    let tag = response_close();
    lemma_only_the_bracket_emits(m);
    lemma_first_occurrence(m.buffer, tag);
    lemma_held_back_bounds(m.buffer);
    if contains(text, tag) {
        let j = choose|j: int| occurs_at(text, tag, j);
        assert(text.subrange(j, j + tag.len()) =~= m.buffer.subrange(j, j + tag.len()));
        assert(occurs_at(m.buffer, tag, j));
    }
}

/// The closing tag of the response bracket is never handed out by a run
/// that ends by itself: none of its chunks holds it.
pub proof fn lemma_run_hands_out_no_closing_tag(m: FilterModel, steps: nat, k: int)
    requires
        run_ends(m, steps),
        0 <= k < filter_run(m, steps).1.len(),
    ensures
        !contains(filter_run(m, steps).1[k], response_close()),
    decreases steps,
{
    let s = filter_step(m);
    if s.emitted is Some {
        lemma_step_hands_out_no_closing_tag(m);
    }
    if s.again {
        let rest = filter_run(s.next, (steps - 1) as nat);
        if k >= chunk_of(s.emitted).len() {
            lemma_run_hands_out_no_closing_tag(s.next, (steps - 1) as nat, k - chunk_of(s.emitted).len());
        }
    }
}

/// The filter never hands out a part of a tag, whatever it is in and
/// whatever arrives: when a run over the buffer ends by itself and its last
/// step hands out text, no tail of that text, followed by what the filter
/// keeps back, is a proper prefix of one of the four known tags. Text that an
/// earlier step of the run handed out stood before a closing tag, which the
/// run took away.
pub proof fn lemma_run_never_splits_a_tag(m: FilterModel, steps: nat, taken: int, index: int)
    requires
        run_ends(m, steps),
        filter_step(last_state(m, steps)).emitted is Some,
        1 <= taken <= filter_step(last_state(m, steps)).emitted->0.len(),
        0 <= index < 4,
    ensures
        filter_run(m, steps).1.len() > 0,
        filter_run(m, steps).1.last() == filter_step(last_state(m, steps)).emitted->0,
        !is_proper_prefix(
            filter_run(m, steps).1.last().subrange(
                filter_run(m, steps).1.last().len() - taken,
                filter_run(m, steps).1.last().len() as int,
            ) + filter_run(m, steps).0.buffer,
            known_tag(index),
        ),
{
    let last = last_state(m, steps);
    lemma_run_ends_with_last_step(m, steps);
    lemma_only_the_bracket_emits(last);
    lemma_response_step_never_splits_a_tag(last, taken, index);
}

/// The law over a whole stream: after any tokens have gone through a filter,
/// the next token never makes it hand out a part of a tag. When the run over
/// that token ends by itself and its last step hands out text, no tail of the
/// text, followed by what the filter keeps back for the tokens to come, is a
/// proper prefix of one of the four known tags.
pub proof fn lemma_stream_never_splits_a_tag(
    fresh: FilterModel,
    tokens: Seq<Seq<u8>>,
    token: Seq<u8>,
    taken: int,
    index: int,
)
    requires
        run_ends(with_token(after_tokens(fresh, tokens), token), STEP_LIMIT as nat),
        filter_step(
            last_state(with_token(after_tokens(fresh, tokens), token), STEP_LIMIT as nat),
        ).emitted is Some,
        1 <= taken <= process_result(after_tokens(fresh, tokens), token).1.last().len(),
        0 <= index < 4,
    ensures
        process_result(after_tokens(fresh, tokens), token).1.len() > 0,
        after_tokens(fresh, tokens.push(token)) == process_result(
            after_tokens(fresh, tokens),
            token,
        ).0,
        !is_proper_prefix(
            process_result(after_tokens(fresh, tokens), token).1.last().subrange(
                process_result(after_tokens(fresh, tokens), token).1.last().len() - taken,
                process_result(after_tokens(fresh, tokens), token).1.last().len() as int,
            ) + after_tokens(fresh, tokens.push(token)).buffer,
            known_tag(index),
        ),
{
    let before = after_tokens(fresh, tokens);
    let m = with_token(before, token);
    lemma_run_ends_with_last_step(m, STEP_LIMIT as nat);
    assert(tokens.push(token).drop_last() =~= tokens);
    assert(tokens.push(token).last() == token);
    lemma_run_never_splits_a_tag(m, STEP_LIMIT as nat, taken, index);
}

/// The chunks of bytes that a vector of byte vectors holds.
pub open spec fn chunk_views(chunks: Seq<Vec<u8>>) -> Seq<Seq<u8>> {
    chunks.map_values(|chunk: Vec<u8>| chunk@)
}

/// What `String::from_utf8_lossy` makes of the given bytes.
pub uninterp spec fn lossy_text(bytes: Seq<u8>) -> Seq<char>;

/// `String::from_utf8_lossy`, made into an owned `String`: the text that the
/// bytes encode, with each ill-formed part replaced. Bytes that are valid
/// UTF-8 give exactly the text that they encode.
#[verifier::external_body]
pub(crate) fn text_of_bytes(bytes: &[u8]) -> (text: String)
    ensures
        text@ == lossy_text(bytes@),
        valid_utf8(bytes@) ==> text@ == decode_utf8(bytes@),
{
    String::from_utf8_lossy(bytes).into_owned()
}

/// The text is what a chunk of bytes is handed out as: what
/// `String::from_utf8_lossy` makes of the bytes, which for well-formed bytes
/// is the text that they encode.
pub open spec fn is_text_of(text: Seq<char>, chunk: Seq<u8>) -> bool {
    text == lossy_text(chunk) && (valid_utf8(chunk) ==> text == decode_utf8(chunk))
}

/// A chunk that encodes a text comes out as that text.
pub proof fn lemma_encoded_text_comes_out(text: Seq<char>, chunk: Seq<u8>, out: Seq<char>)
    requires
        chunk == encode_utf8(text),
        is_text_of(out, chunk),
    ensures
        out == text,
{
    vstd::utf8::encode_utf8_valid_utf8(text);
    vstd::utf8::encode_utf8_decode_utf8(text);
}

/// The bytes of `<thinking>`.
fn thinking_open_tag() -> (tag: Vec<u8>)
    ensures
        tag@ == thinking_open(),
{
    let tag: Vec<u8> = vec![
        '<' as u8,
        't' as u8,
        'h' as u8,
        'i' as u8,
        'n' as u8,
        'k' as u8,
        'i' as u8,
        'n' as u8,
        'g' as u8,
        '>' as u8,
    ];
    assert(tag@ =~= thinking_open());
    tag
}

/// The bytes of `</thinking>`.
fn thinking_close_tag() -> (tag: Vec<u8>)
    ensures
        tag@ == thinking_close(),
{
    let tag: Vec<u8> = vec![
        '<' as u8,
        '/' as u8,
        't' as u8,
        'h' as u8,
        'i' as u8,
        'n' as u8,
        'k' as u8,
        'i' as u8,
        'n' as u8,
        'g' as u8,
        '>' as u8,
    ];
    assert(tag@ =~= thinking_close());
    tag
}

/// The bytes of `<RESPONSE>`.
fn response_open_tag() -> (tag: Vec<u8>)
    ensures
        tag@ == response_open(),
{
    let tag: Vec<u8> = vec![
        '<' as u8,
        'R' as u8,
        'E' as u8,
        'S' as u8,
        'P' as u8,
        'O' as u8,
        'N' as u8,
        'S' as u8,
        'E' as u8,
        '>' as u8,
    ];
    assert(tag@ =~= response_open());
    tag
}

/// The bytes of `</RESPONSE>`.
fn response_close_tag() -> (tag: Vec<u8>)
    ensures
        tag@ == response_close(),
{
    let tag: Vec<u8> = vec![
        '<' as u8,
        '/' as u8,
        'R' as u8,
        'E' as u8,
        'S' as u8,
        'P' as u8,
        'O' as u8,
        'N' as u8,
        'S' as u8,
        'E' as u8,
        '>' as u8,
    ];
    assert(tag@ =~= response_close());
    tag
}

/// The length of the longest proper, non-empty prefix of `tag` that `buffer`
/// ends with.
pub fn partial_tag_length(buffer: &[u8], tag: &[u8]) -> (len: usize)
    ensures
        len == partial_tag_len(buffer@, tag@),
        len <= buffer.len(),
        len < tag.len() || tag.len() == 0,
{
    proof {
        lemma_partial_tag_len(buffer@, tag@);
    }
    if tag.len() == 0 {
        return 0;
    }
    let mut limit: usize = tag.len() - 1;
    while limit > 0
        invariant
            limit < tag.len(),
            partial_tag_len(buffer@, tag@) == partial_len_upto(buffer@, tag@, limit as int),
        decreases limit,
    {
        let prefix = slice_subrange(tag, 0, limit);
        if has_suffix(buffer, prefix) {
            return limit;
        }
        limit -= 1;
    }
    0
}

/// The output filter of one generation.
pub struct TokenFilter {
    /// What has arrived and was neither dropped nor handed out.
    pub buffer: Vec<u8>,
    /// Where the filter stands in the response grammar.
    pub mode: FilterMode,
    /// The name of the character that answers.
    pub character_name: String,
}

impl View for TokenFilter {
    type V = FilterModel;

    open spec fn view(&self) -> FilterModel {
        FilterModel {
            buffer: self.buffer@,
            mode: self.mode,
            name: encode_utf8(self.character_name@),
        }
    }
}

impl TokenFilter {
    /// A filter for the answer of the character `character_name`, with an
    /// empty buffer and outside any bracket.
    pub fn new(character_name: &str) -> (filter: TokenFilter)
        ensures
            filter@.buffer == Seq::<u8>::empty(),
            filter@.mode == FilterMode::Neutral,
            filter@.name == encode_utf8(character_name@),
            filter.character_name@ == character_name@,
    {
        TokenFilter {
            buffer: Vec::new(),
            mode: FilterMode::Neutral,
            character_name: character_name.to_owned(),
        }
    }

    /// Drops the first `from` bytes of the buffer and enters `mode`.
    fn cut(&mut self, from: usize, mode: FilterMode)
        requires
            from <= old(self).buffer.len(),
        ensures
            final(self)@ == cut_to(old(self)@, from as int, mode),
    {
        let rest = self.buffer.split_off(from);
        self.buffer = rest;
        self.mode = mode;
    }

    /// The length of the longest proper, non-empty prefix of `tag` that the
    /// buffer ends with.
    pub fn get_partial_tag_len(&self, tag: &str) -> (len: usize)
        ensures
            len == partial_tag_len(self@.buffer, tag.spec_bytes()),
    {
        partial_tag_length(self.buffer.as_slice(), tag.as_bytes())
    }

    /// Opens a hidden block at the `<thinking>` that stands at `start_idx`:
    /// drops what stands before the tag and the tag itself.
    pub fn handle_thinking_start(&mut self, start_idx: usize)
        requires
            start_idx + thinking_open().len() <= old(self).buffer.len(),
        ensures
            final(self)@ == open_step(
                old(self)@,
                start_idx as int,
                thinking_open(),
                FilterMode::InThinking,
            ).next,
    {
        self.cut(start_idx + 10, FilterMode::InThinking);
    }

    /// Opens the response bracket at the `<RESPONSE>` that stands at
    /// `start_idx`: drops what stands before the tag and the tag itself.
    pub fn handle_response_start(&mut self, start_idx: usize)
        requires
            start_idx + response_open().len() <= old(self).buffer.len(),
        ensures
            final(self)@ == open_step(
                old(self)@,
                start_idx as int,
                response_open(),
                FilterMode::InResponse,
            ).next,
    {
        self.cut(start_idx + 10, FilterMode::InResponse);
    }

    /// Tells whether the buffer ends with a proper prefix of an opening tag.
    pub fn has_partial_tag(&self) -> (partial: bool)
        ensures
            partial == ends_in_partial_opening(self@.buffer),
    {
        let thinking = thinking_open_tag();
        let response = response_open_tag();
        partial_tag_length(self.buffer.as_slice(), thinking.as_slice()) > 0 || partial_tag_length(
            self.buffer.as_slice(),
            response.as_slice(),
        ) > 0
    }

    /// The length of the buffer tail that is held back in the response
    /// bracket.
    fn held_back(&self) -> (keep: usize)
        ensures
            keep == held_back_len(self@.buffer),
            keep <= self.buffer.len(),
    {
        let a = thinking_open_tag();
        let b = thinking_close_tag();
        let c = response_open_tag();
        let d = response_close_tag();
        let buffer = self.buffer.as_slice();
        let mut keep = partial_tag_length(buffer, a.as_slice());
        let kb = partial_tag_length(buffer, b.as_slice());
        let kc = partial_tag_length(buffer, c.as_slice());
        let kd = partial_tag_length(buffer, d.as_slice());
        let mut other = kc;
        if kb > keep {
            keep = kb;
        }
        if kd > other {
            other = kd;
        }
        if other > keep {
            keep = other;
        }
        keep
    }

    /// Tells whether the buffer, after its leading white space, begins with a
    /// leak marker.
    fn leaks(&self) -> (leak: bool)
        ensures
            leak == leak_detected(self@),
    {
        let buffer = self.buffer.as_slice();
        let start = trim_start_index(buffer);
        let head = slice_subrange(buffer, start, buffer.len());
        let name = self.character_name.as_str().as_bytes();
        let scenario: Vec<u8> = vec![
            'S' as u8,
            'c' as u8,
            'e' as u8,
            'n' as u8,
            'a' as u8,
            'r' as u8,
            'i' as u8,
            'o' as u8,
            ':' as u8,
        ];
        let system: Vec<u8> = vec![
            'S' as u8,
            'y' as u8,
            's' as u8,
            't' as u8,
            'e' as u8,
            'm' as u8,
            ':' as u8,
        ];
        let mut identity: Vec<u8> = vec![
            'Y' as u8,
            'o' as u8,
            'u' as u8,
            ' ' as u8,
            'a' as u8,
            'r' as u8,
            'e' as u8,
            ' ' as u8,
        ];
        append_bytes(&mut identity, name);
        let mut speaker: Vec<u8> = Vec::new();
        append_bytes(&mut speaker, name);
        speaker.push(':' as u8);
        proof {
            assert(scenario@ =~= scenario_marker());
            assert(system@ =~= system_marker());
            assert(identity@ =~= identity_marker(self@.name));
            assert(speaker@ =~= speaker_marker(self@.name));
        }
        has_prefix(head, scenario.as_slice()) || has_prefix(head, system.as_slice()) || has_prefix(
            head,
            identity.as_slice(),
        ) || has_prefix(head, speaker.as_slice())
    }

    /// Takes one step: the text that it hands out, and whether another step
    /// follows.
    fn step(&mut self) -> (taken: (Option<Vec<u8>>, bool))
        ensures
            final(self)@ == filter_step(old(self)@).next,
            taken.1 == filter_step(old(self)@).again,
            match taken.0 {
                Some(text) => filter_step(old(self)@).emitted == Some(text@),
                None => filter_step(old(self)@).emitted is None,
            },
    {
        if self.buffer.len() == 0 {
            return (None, false);
        }
        match self.mode {
            FilterMode::Neutral => {
                if self.leaks() {
                    self.step_leak()
                } else {
                    self.step_neutral()
                }
            },
            FilterMode::InThinking => self.step_thinking(),
            FilterMode::InResponse => self.step_response(),
            FilterMode::Passthrough => self.step_response(),
        }
    }

    /// The step outside any bracket when the buffer begins with a leak marker.
    fn step_leak(&mut self) -> (taken: (Option<Vec<u8>>, bool))
        requires
            old(self).mode == FilterMode::Neutral,
        ensures
            final(self)@ == leak_step(old(self)@).next,
            taken.1 == leak_step(old(self)@).again,
            taken.0 is None,
            leak_step(old(self)@).emitted is None,
    {
        let mut marker: Vec<u8> = Vec::new();
        append_bytes(&mut marker, self.character_name.as_str().as_bytes());
        marker.push(':' as u8);
        marker.push(' ' as u8);
        proof {
            assert(marker@ =~= dialogue_marker(self@.name));
            lemma_last_occurrence(self.buffer@, marker@);
        }
        let len = self.buffer.len();
        match rfind(self.buffer.as_slice(), marker.as_slice()) {
            Some(at) => {
                let after = at + marker.len();
                if len - after > LEAK_CONFIRM_BYTES || len > LEAK_CUT_THRESHOLD {
                    self.cut(after, FilterMode::InResponse);
                    (None, true)
                } else {
                    (None, false)
                }
            },
            None => {
                if len > LEAK_DROP_THRESHOLD {
                    self.cut(len, FilterMode::Neutral);
                }
                (None, false)
            },
        }
    }

    /// The step outside any bracket when no leak marker stands at the start.
    fn step_neutral(&mut self) -> (taken: (Option<Vec<u8>>, bool))
        requires
            old(self).mode == FilterMode::Neutral,
        ensures
            final(self)@ == neutral_step(old(self)@).next,
            taken.1 == neutral_step(old(self)@).again,
            taken.0 is None,
            neutral_step(old(self)@).emitted is None,
    {
        let thinking_tag = thinking_open_tag();
        let response_tag = response_open_tag();
        proof {
            lemma_first_occurrence(self.buffer@, thinking_tag@);
            lemma_first_occurrence(self.buffer@, response_tag@);
        }
        let thinking = find(self.buffer.as_slice(), thinking_tag.as_slice());
        let response = find(self.buffer.as_slice(), response_tag.as_slice());
        match (thinking, response) {
            (Some(t), Some(r)) => {
                if t < r {
                    self.handle_thinking_start(t);
                } else {
                    self.handle_response_start(r);
                }
                (None, true)
            },
            (Some(t), None) => {
                self.handle_thinking_start(t);
                (None, true)
            },
            (None, Some(r)) => {
                self.handle_response_start(r);
                (None, true)
            },
            (None, None) => {
                if self.has_partial_tag() {
                    (None, false)
                } else if self.buffer.len() > PLAIN_TEXT_THRESHOLD {
                    self.mode = FilterMode::Passthrough;
                    (None, true)
                } else {
                    (None, false)
                }
            },
        }
    }

    /// The step inside a hidden block.
    fn step_thinking(&mut self) -> (taken: (Option<Vec<u8>>, bool))
        requires
            old(self).mode == FilterMode::InThinking,
        ensures
            final(self)@ == thinking_step(old(self)@).next,
            taken.1 == thinking_step(old(self)@).again,
            taken.0 is None,
            thinking_step(old(self)@).emitted is None,
    {
        let close = thinking_close_tag();
        proof {
            lemma_first_occurrence(self.buffer@, close@);
        }
        match find(self.buffer.as_slice(), close.as_slice()) {
            Some(at) => {
                let len = self.buffer.len();
                assert(occurs_at(self.buffer@, close@, at as int));
                assert(close@.len() == 11);
                self.cut(at + 11, FilterMode::Neutral);
                (None, true)
            },
            None => {
                let keep = partial_tag_length(self.buffer.as_slice(), close.as_slice());
                let len = self.buffer.len();
                self.cut(len - keep, FilterMode::InThinking);
                (None, false)
            },
        }
    }

    /// The step inside the response bracket.
    fn step_response(&mut self) -> (taken: (Option<Vec<u8>>, bool))
        requires
            old(self).mode == FilterMode::InResponse || old(self).mode == FilterMode::Passthrough,
        ensures
            final(self)@ == response_step(old(self)@).next,
            taken.1 == response_step(old(self)@).again,
            match taken.0 {
                Some(text) => response_step(old(self)@).emitted == Some(text@),
                None => response_step(old(self)@).emitted is None,
            },
    {
        let close = response_close_tag();
        proof {
            lemma_first_occurrence(self.buffer@, close@);
        }
        match find(self.buffer.as_slice(), close.as_slice()) {
            Some(at) => {
                assert(occurs_at(self.buffer@, close@, at as int));
                assert(close@.len() == 11);
                let text = copy_range(self.buffer.as_slice(), 0, at);
                self.cut(at + 11, FilterMode::Neutral);
                if text.len() == 0 {
                    (None, true)
                } else {
                    (Some(text), true)
                }
            },
            None => {
                let keep = self.held_back();
                let len = self.buffer.len();
                let text = copy_range(self.buffer.as_slice(), 0, len - keep);
                let mode = self.mode;
                self.cut(len - keep, mode);
                if text.len() == 0 {
                    (None, false)
                } else {
                    (Some(text), false)
                }
            },
        }
    }

    /// Takes in a token, given as bytes, and hands out the chunks of visible
    /// text that have become certain.
    pub fn process_bytes(&mut self, token: &[u8]) -> (chunks: Vec<Vec<u8>>)
        ensures
            final(self)@ == process_result(old(self)@, token@).0,
            chunk_views(chunks@) == process_result(old(self)@, token@).1,
    {
        append_bytes(&mut self.buffer, token);
        let ghost start = self@;
        assert(start == with_token(old(self)@, token@));
        let mut chunks: Vec<Vec<u8>> = Vec::new();
        let mut steps: usize = STEP_LIMIT;
        assert(chunk_views(chunks@) =~= Seq::<Seq<u8>>::empty());
        loop
            invariant
                steps <= STEP_LIMIT,
                start == with_token(old(self)@, token@),
                filter_run(start, STEP_LIMIT as nat).0 == filter_run(self@, steps as nat).0,
                filter_run(start, STEP_LIMIT as nat).1 == chunk_views(chunks@) + filter_run(
                    self@,
                    steps as nat,
                ).1,
            decreases steps,
        {
            let ghost before = self@;
            let ghost handed = chunk_views(chunks@);
            if steps == 0 {
                let whole = self.buffer.split_off(0);
                chunks.push(whole);
                proof {
                    assert(whole@ =~= before.buffer);
                    assert(self@.buffer =~= cut_to(
                        before,
                        before.buffer.len() as int,
                        before.mode,
                    ).buffer);
                    assert(self@ == cut_to(before, before.buffer.len() as int, before.mode));
                    assert(chunk_views(chunks@) =~= handed + seq![before.buffer]);
                }
                return chunks;
            }
            let (emitted, again) = self.step();
            match emitted {
                Some(text) => {
                    chunks.push(text);
                    proof {
                        assert(chunk_views(chunks@) =~= handed + seq![text@]);
                    }
                },
                None => {
                    proof {
                        assert(handed + Seq::<Seq<u8>>::empty() =~= handed);
                    }
                },
            }
            proof {
                assert(chunk_views(chunks@) =~= handed + chunk_of(filter_step(before).emitted));
            }
            if !again {
                return chunks;
            }
            steps -= 1;
        }
    }

    /// Takes in a token and hands out the chunks of visible text that have
    /// become certain: each chunk of bytes as the text that it encodes. A
    /// chunk that is well-formed comes out as exactly that text.
    pub fn process(&mut self, token: &str) -> (visible: Vec<String>)
        ensures
            final(self)@ == process_result(old(self)@, token.spec_bytes()).0,
            visible@.len() == process_result(old(self)@, token.spec_bytes()).1.len(),
            forall|i: int|
                0 <= i < visible@.len() ==> is_text_of(
                    (#[trigger] visible@[i])@,
                    process_result(old(self)@, token.spec_bytes()).1[i],
                ),
    {
        let chunks = self.process_bytes(token.as_bytes());
        let mut visible: Vec<String> = Vec::new();
        let mut i: usize = 0;
        while i < chunks.len()
            invariant
                i <= chunks.len(),
                visible@.len() == i,
                forall|j: int|
                    0 <= j < i ==> is_text_of((#[trigger] visible@[j])@, chunk_views(chunks@)[j]),
            decreases chunks.len() - i,
        {
            let text = text_of_bytes(chunks[i].as_slice());
            visible.push(text);
            i += 1;
        }
        visible
    }

    /// Ends the stream, as bytes: hands out what is left in the buffer unless
    /// the stream ended inside a hidden block.
    pub fn flush_bytes(&mut self) -> (rest: Option<Vec<u8>>)
        ensures
            final(self)@ == flush_result(old(self)@).0,
            match rest {
                Some(text) => flush_result(old(self)@).1 == Some(text@),
                None => flush_result(old(self)@).1 is None,
            },
    {
        if self.mode == FilterMode::InThinking {
            return None;
        }
        let len = self.buffer.len();
        let text = copy_range(self.buffer.as_slice(), 0, len);
        let mode = self.mode;
        self.cut(len, mode);
        proof {
            assert(text@ =~= old(self)@.buffer);
        }
        if text.len() == 0 {
            None
        } else {
            Some(text)
        }
    }

    /// Ends the stream: hands out what is left in the buffer unless the
    /// stream ended inside a hidden block. What is left comes out as the text
    /// that it encodes, exactly so where it is well-formed.
    pub fn flush(&mut self) -> (rest: Option<String>)
        ensures
            final(self)@ == flush_result(old(self)@).0,
            match rest {
                Some(text) => flush_result(old(self)@).1 is Some && is_text_of(
                    text@,
                    flush_result(old(self)@).1->0,
                ),
                None => flush_result(old(self)@).1 is None,
            },
    {
        match self.flush_bytes() {
            Some(bytes) => Some(text_of_bytes(bytes.as_slice())),
            None => None,
        }
    }
}

} // verus!
