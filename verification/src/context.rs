//! The context builder: the system prompt and the history that go to the
//! model, within a token budget.

use vstd::prelude::*;
use vstd::string::{StrSliceExecFns, StringExecFns};
use crate::entities::{
    AuthorType, Character, Conversation, Lorebook, LorebookEntry, Message, Persona, Settings,
};
use crate::error::{AppError, AppResult};
use crate::lorebook::{candidate_entries, selected_entries, LorebookService};
use crate::strings::{join, joined, texts};
use crate::text::str_eq;
use crate::tokens::{estimate_tokens, estimated_tokens};

verus! {

/// Tokens kept for lorebook entries when the settings name no budget.
pub const DEFAULT_LOREBOOK_BUDGET: i32 = 500;

/// Tokens kept free for the response when the settings name no reserve.
pub const DEFAULT_RESPONSE_RESERVE: i32 = 512;

/// Messages whose text is searched for lorebook keywords.
pub const RECENT_MESSAGES: usize = 10;

/// What the context builder hands to the scheduler.
#[derive(Clone, Debug, PartialEq, Eq)]
pub struct ContextResult {
    pub system_prompt: String,
    pub messages: Vec<Message>,
    pub character_name: String,
    pub persona_name: String,
    pub total_tokens: i32,
}

/// The identity block of a character: its system prompt where it has one,
/// else a prompt made of its name, its description and its personality.
pub open spec fn identity_text(character: Character) -> Seq<char> {
    if character.system_prompt@.len() > 0 {
        character.system_prompt@
    } else {
        "You are "@ + character.name@ + "."@ + (if character.description@.len() > 0 {
            "\n"@ + character.description@
        } else {
            Seq::empty()
        }) + (if character.personality@.len() > 0 {
            "\nPersonality: "@ + character.personality@
        } else {
            Seq::empty()
        })
    }
}

/// The identity block of a character.
pub fn identity_block(character: &Character) -> (block: String)
    ensures
        block@ == identity_text(*character),
{
    if character.system_prompt.as_str().unicode_len() > 0 {
        return character.system_prompt.clone();
    }
    let mut block = "You are ".to_owned();
    block.append(character.name.as_str());
    block.append(".");
    let ghost head = block@;
    if character.description.as_str().unicode_len() > 0 {
        block.append("\n");
        block.append(character.description.as_str());
        assert(block@ =~= head + ("\n"@ + character.description@));
    } else {
        assert(block@ =~= head + Seq::<char>::empty());
    }
    let ghost middle = block@;
    if character.personality.as_str().unicode_len() > 0 {
        block.append("\nPersonality: ");
        block.append(character.personality.as_str());
        assert(block@ =~= middle + ("\nPersonality: "@ + character.personality@));
    } else {
        assert(block@ =~= middle + Seq::<char>::empty());
    }
    block
}

/// The persona block: the persona's description, where it has one.
pub open spec fn persona_text(persona: Option<Persona>) -> Option<Seq<char>> {
    match persona {
        Some(p) => if p.description@.len() > 0 {
            Some("User persona: "@ + p.description@)
        } else {
            None
        },
        None => None,
    }
}

/// The persona block.
pub fn persona_block(persona: &Option<Persona>) -> (block: Option<String>)
    ensures
        match block {
            Some(text) => persona_text(*persona) == Some(text@),
            None => persona_text(*persona) is None,
        },
{
    match persona {
        Some(p) => {
            if p.description.as_str().unicode_len() > 0 {
                let mut text = "User persona: ".to_owned();
                text.append(p.description.as_str());
                Some(text)
            } else {
                None
            }
        },
        None => None,
    }
}

/// The name under which the user speaks: the persona's name, or `User`.
pub open spec fn persona_name_text(persona: Option<Persona>) -> Seq<char> {
    match persona {
        Some(p) => p.name@,
        None => "User"@,
    }
}

/// The contents of the messages from `from` on, newest first.
pub open spec fn contents_newest_first(messages: Seq<Message>, from: int) -> Seq<Seq<char>>
    decreases messages.len() - from + 1,
{
    if from < 0 || from >= messages.len() {
        Seq::empty()
    } else {
        contents_newest_first(messages, from + 1).push(messages[from].content@)
    }
}

/// Where the last ten messages begin.
pub open spec fn recent_start(messages: Seq<Message>) -> int {
    if messages.len() > RECENT_MESSAGES {
        messages.len() - RECENT_MESSAGES
    } else {
        0
    }
}

/// The text that is searched for lorebook keywords: the contents of the last
/// ten messages, newest first, with a space between each two.
pub open spec fn recent_text(messages: Seq<Message>) -> Seq<char> {
    joined(contents_newest_first(messages, recent_start(messages)), " "@)
}

/// The text that is searched for lorebook keywords.
pub fn recent_haystack(messages: &Vec<Message>) -> (text: String)
    ensures
        text@ == recent_text(messages@),
{
    let start: usize = if messages.len() > RECENT_MESSAGES {
        messages.len() - RECENT_MESSAGES
    } else {
        0
    };
    let mut parts: Vec<String> = Vec::new();
    let mut i: usize = messages.len();
    assert(texts(parts@) =~= contents_newest_first(messages@, i as int));
    while i > start
        invariant
            start <= i <= messages.len(),
            texts(parts@) == contents_newest_first(messages@, i as int),
        decreases i,
    {
        i -= 1;
        parts.push(messages[i].content.clone());
        proof {
            assert(texts(parts@) =~= contents_newest_first(messages@, i + 1).push(
                messages@[i as int].content@,
            ));
        }
    }
    join(&parts, " ")
}

/// The tokens that the first `n` entries use, where each of them fits into
/// the budget on top of those before it; nothing where one does not.
pub open spec fn lore_tokens(entries: Seq<LorebookEntry>, budget: int, n: int) -> Option<int>
    decreases n,
{
    if n <= 0 {
        Some(0)
    } else {
        match lore_tokens(entries, budget, n - 1) {
            Some(used) => {
                let tokens = estimated_tokens(entries[n - 1].content@);
                if used + tokens > budget {
                    None
                } else {
                    Some(used + tokens)
                }
            },
            None => None,
        }
    }
}

/// How many of the first `n` entries are admitted: the entries are walked
/// in order, and the walk ends at the first that does not fit.
pub open spec fn admitted_count(entries: Seq<LorebookEntry>, budget: int, n: int) -> int
    decreases n,
{
    if n <= 0 {
        0
    } else if lore_tokens(entries, budget, n) is Some {
        n
    } else {
        admitted_count(entries, budget, n - 1)
    }
}

/// The entry goes in front of the identity block.
pub open spec fn goes_before(entry: LorebookEntry) -> bool {
    entry.insertion_position@ == "before_system"@
}

/// The contents of the first `n` entries that go in front of the identity
/// block, where `before` holds, or behind it, where it does not.
pub open spec fn lore_texts(entries: Seq<LorebookEntry>, n: int, before: bool) -> Seq<Seq<char>>
    decreases n,
{
    if n <= 0 {
        Seq::empty()
    } else if goes_before(entries[n - 1]) == before {
        lore_texts(entries, n - 1, before).push(entries[n - 1].content@)
    } else {
        lore_texts(entries, n - 1, before)
    }
}

/// The optional text as a sequence of parts.
pub open spec fn optional_part(text: Option<Seq<char>>) -> Seq<Seq<char>> {
    match text {
        Some(t) => seq![t],
        None => Seq::empty(),
    }
}

/// The examples block of a character, where it has example dialogues.
pub open spec fn examples_text(character: Character) -> Option<Seq<char>> {
    if character.example_dialogues@.len() > 0 {
        Some("Examples:\n"@ + character.example_dialogues@)
    } else {
        None
    }
}

/// The parts of the system prompt, in order: the admitted entries that go in
/// front, the identity block, the persona block, the admitted entries that go
/// behind, and the examples.
pub open spec fn prompt_parts(
    character: Character,
    persona: Option<Persona>,
    entries: Seq<LorebookEntry>,
    budget: int,
) -> Seq<Seq<char>> {
    let n = admitted_count(entries, budget, entries.len() as int);
    lore_texts(entries, n, true) + seq![identity_text(character)] + optional_part(
        persona_text(persona),
    ) + lore_texts(entries, n, false) + optional_part(examples_text(character))
}

/// The system prompt: its parts with a blank line between each two.
pub open spec fn system_prompt_text(
    character: Character,
    persona: Option<Persona>,
    entries: Seq<LorebookEntry>,
    budget: int,
) -> Seq<char> {
    joined(prompt_parts(character, persona, entries, budget), "\n\n"@)
}

/// The admitted count lies within the entries walked, and the entries
/// admitted fit into the budget.
pub proof fn lemma_admitted_count(entries: Seq<LorebookEntry>, budget: int, n: int)
    requires
        0 <= n,
    ensures
        0 <= admitted_count(entries, budget, n) <= n,
        lore_tokens(entries, budget, admitted_count(entries, budget, n)) is Some,
        lore_tokens(entries, budget, admitted_count(entries, budget, n))->0 <= budget
            || admitted_count(entries, budget, n) == 0,
        forall|k: int|
            admitted_count(entries, budget, n) < k <= n ==> lore_tokens(entries, budget, k)
                is None,
    decreases n,
{
    if n > 0 {
        if lore_tokens(entries, budget, n) is Some {
        } else {
            lemma_admitted_count(entries, budget, n - 1);
        }
    }
}

/// Moves the strings of `more` to the end of `parts`.
fn append_parts(parts: &mut Vec<String>, more: Vec<String>)
    ensures
        texts(final(parts)@) == texts(old(parts)@) + texts(more@),
{
    let ghost added = more@;
    let mut more = more;
    parts.append(&mut more);
    assert(texts(parts@) =~= texts(old(parts)@) + texts(added));
}

/// The system prompt of a generation.
pub fn assemble_system_prompt(
    character: &Character,
    persona: &Option<Persona>,
    entries: &Vec<LorebookEntry>,
    budget: i32,
) -> (prompt: String)
    ensures
        prompt@ == system_prompt_text(*character, *persona, entries@, budget as int),
{
    let mut before: Vec<String> = Vec::new();
    let mut after: Vec<String> = Vec::new();
    let mut used: i64 = 0;
    let mut i: usize = 0;
    assert(texts(before@) =~= lore_texts(entries@, 0, true));
    assert(texts(after@) =~= lore_texts(entries@, 0, false));
    while i < entries.len()
        invariant_except_break
            lore_tokens(entries@, budget as int, i as int) == Some(used as int),
        invariant
            i <= entries.len(),
            -0x8000_0000 <= used <= 0x7fff_ffff || i == 0 && used == 0,
            texts(before@) == lore_texts(entries@, i as int, true),
            texts(after@) == lore_texts(entries@, i as int, false),
        ensures
            i == admitted_count(entries@, budget as int, entries@.len() as int),
            texts(before@) == lore_texts(entries@, i as int, true),
            texts(after@) == lore_texts(entries@, i as int, false),
        decreases entries.len() - i,
    {
        let tokens = estimate_tokens(entries[i].content.as_str());
        if used + tokens as i64 > budget as i64 {
            proof {
                lemma_walk_ends(entries@, budget as int, i as int, entries@.len() as int);
            }
            break;
        }
        let ghost b = texts(before@);
        let ghost a = texts(after@);
        if str_eq(entries[i].insertion_position.as_str(), "before_system") {
            before.push(entries[i].content.clone());
            assert(texts(before@) =~= b.push(entries@[i as int].content@));
        } else {
            after.push(entries[i].content.clone());
            assert(texts(after@) =~= a.push(entries@[i as int].content@));
        }
        used = used + tokens as i64;
        i += 1;
    }
    let mut parts: Vec<String> = Vec::new();
    assert(texts(parts@) =~= Seq::<Seq<char>>::empty());
    append_parts(&mut parts, before);
    let ghost at_start = texts(parts@);
    parts.push(identity_block(character));
    assert(texts(parts@) =~= at_start + seq![identity_text(*character)]);
    let ghost with_identity = texts(parts@);
    match persona_block(persona) {
        Some(text) => {
            parts.push(text);
            assert(texts(parts@) =~= with_identity + optional_part(persona_text(*persona)));
        },
        None => {
            assert(texts(parts@) =~= with_identity + optional_part(persona_text(*persona)));
        },
    }
    append_parts(&mut parts, after);
    let ghost with_persona = texts(parts@);
    if character.example_dialogues.as_str().unicode_len() > 0 {
        let mut examples = "Examples:\n".to_owned();
        examples.append(character.example_dialogues.as_str());
        parts.push(examples);
        assert(texts(parts@) =~= with_persona + optional_part(examples_text(*character)));
    } else {
        assert(texts(parts@) =~= with_persona + optional_part(examples_text(*character)));
    }
    proof {
        let n = admitted_count(entries@, budget as int, entries@.len() as int);
        assert(texts(parts@) =~= prompt_parts(*character, *persona, entries@, budget as int));
    }
    join(&parts, "\n\n")
}

/// Once an entry does not fit, no later entry is admitted: the count of the
/// admitted entries is the number of those before it.
pub proof fn lemma_walk_ends(entries: Seq<LorebookEntry>, budget: int, at: int, n: int)
    requires
        0 <= at < n,
        lore_tokens(entries, budget, at) is Some,
        lore_tokens(entries, budget, at + 1) is None,
    ensures
        admitted_count(entries, budget, n) == at,
    decreases n - at,
{
    if n == at + 1 {
        lemma_admitted_at(entries, budget, at);
    } else {
        lemma_walk_ends(entries, budget, at, n - 1);
        lemma_tokens_stay_none(entries, budget, at + 1, n);
    }
}

/// Where the first `n` entries all fit, all of them are admitted.
pub proof fn lemma_admitted_at(entries: Seq<LorebookEntry>, budget: int, n: int)
    requires
        0 <= n,
        lore_tokens(entries, budget, n) is Some,
    ensures
        admitted_count(entries, budget, n) == n,
{
}

/// Where the first `k` entries do not all fit, no longer prefix does.
pub proof fn lemma_tokens_stay_none(entries: Seq<LorebookEntry>, budget: int, k: int, n: int)
    requires
        0 <= k <= n,
        lore_tokens(entries, budget, k) is None,
    ensures
        lore_tokens(entries, budget, n) is None,
    decreases n - k,
{
    if n > k {
        lemma_tokens_stay_none(entries, budget, k, n - 1);
    }
}

/// Where the selected history begins: the messages are walked from the
/// newest to the oldest, and the walk ends before the first message that no
/// longer fits. `end` is where the walk stands and `used` what the messages
/// behind it take.
pub open spec fn history_begin(messages: Seq<Message>, available: int, end: int, used: int) -> int
    decreases end,
{
    if end <= 0 || end > messages.len() {
        0
    } else if used + messages[end - 1].token_count > available {
        end
    } else {
        history_begin(messages, available, end - 1, used + messages[end - 1].token_count)
    }
}

/// The tokens of the messages from `from` on.
pub open spec fn history_tokens(messages: Seq<Message>, from: int) -> int
    decreases messages.len() - from + 1,
{
    if from < 0 || from >= messages.len() {
        0
    } else {
        messages[from].token_count + history_tokens(messages, from + 1)
    }
}

/// Where the history begins that fits into `available` tokens.
pub open spec fn history_start(messages: Seq<Message>, available: int) -> int {
    history_begin(messages, available, messages.len() as int, 0)
}

/// The history that fits into `available` tokens: the newest messages, whole,
/// in chronological order.
pub open spec fn selected_history(messages: Seq<Message>, available: int) -> Seq<Message> {
    messages.subrange(history_start(messages, available), messages.len() as int)
}

/// The walk ends within the messages; what it selects fits into the budget;
/// and the message before the selection, where there is one, does not fit
/// on top of it.
pub proof fn lemma_history_begin(messages: Seq<Message>, available: int, end: int, used: int)
    requires
        0 <= end <= messages.len(),
        used == history_tokens(messages, end),
        end == messages.len() || used <= available,
    ensures
        0 <= history_begin(messages, available, end, used) <= end,
        history_begin(messages, available, end, used) == messages.len() || history_tokens(
            messages,
            history_begin(messages, available, end, used),
        ) <= available,
        history_begin(messages, available, end, used) > 0 ==> history_tokens(
            messages,
            history_begin(messages, available, end, used),
        ) + messages[history_begin(messages, available, end, used) - 1].token_count > available,
    decreases end,
{
    if end > 0 && used + messages[end - 1].token_count <= available {
        lemma_history_begin(messages, available, end - 1, used + messages[end - 1].token_count);
    }
}

/// Budget enforcement: the selected history is a whole tail of the messages,
/// so no message is split; where it holds a message, its tokens fit into
/// what is available; and the message just before it, where there is one,
/// no longer fits.
pub proof fn lemma_history_fits(messages: Seq<Message>, available: int)
    ensures
        0 <= history_start(messages, available) <= messages.len(),
        selected_history(messages, available).len() > 0 ==> history_tokens(
            messages,
            history_start(messages, available),
        ) <= available,
        history_start(messages, available) > 0 ==> history_tokens(
            messages,
            history_start(messages, available),
        ) + messages[history_start(messages, available) - 1].token_count > available,
{
    lemma_history_begin(messages, available, messages.len() as int, 0);
}

/// The number `x`, held within the range of `i32`.
pub open spec fn clamp_i32(x: int) -> int {
    if x < i32::MIN {
        i32::MIN as int
    } else if x > i32::MAX {
        i32::MAX as int
    } else {
        x
    }
}

/// The context for a generation, as plain values.
pub open spec fn context_is(
    ctx: ContextResult,
    settings: Settings,
    character: Character,
    persona: Option<Persona>,
    messages: Seq<Message>,
    entries: Seq<LorebookEntry>,
    max_tokens: int,
) -> bool {
    let budget = lorebook_budget_of(settings);
    let reserve = response_reserve_of(settings);
    let system = system_prompt_text(character, persona, entries, budget);
    let available = max_tokens - estimated_tokens(system) - reserve;
    &&& ctx.system_prompt@ == system
    &&& ctx.messages@ == selected_history(messages, available)
    &&& ctx.character_name@ == character.name@
    &&& ctx.persona_name@ == persona_name_text(persona)
    &&& ctx.total_tokens == clamp_i32(
        estimated_tokens(system) + history_tokens(messages, history_start(messages, available)),
    )
}

/// The lorebook budget of the settings, or the default.
pub open spec fn lorebook_budget_of(settings: Settings) -> int {
    match settings.generation.lorebook_budget {
        Some(b) => b as int,
        None => DEFAULT_LOREBOOK_BUDGET as int,
    }
}

/// The response reserve of the settings, or the default.
pub open spec fn response_reserve_of(settings: Settings) -> int {
    match settings.generation.response_reserve {
        Some(r) => r as int,
        None => DEFAULT_RESPONSE_RESERVE as int,
    }
}

/// Selects the history that fits into `available` tokens, and counts its
/// tokens.
pub fn select_history(messages: &Vec<Message>, available: i64) -> (out: (Vec<Message>, i128))
    ensures
        out.0@ == selected_history(messages@, available as int),
        out.1 == history_tokens(messages@, history_start(messages@, available as int)),
        -0x8000_0000 * messages.len() <= out.1 <= 0x8000_0000 * messages.len(),
{
    let mut begin: usize = messages.len();
    let mut used: i128 = 0;
    while begin > 0
        invariant_except_break
            history_start(messages@, available as int) == history_begin(
                messages@,
                available as int,
                begin as int,
                used as int,
            ),
        invariant
            begin <= messages.len(),
            used == history_tokens(messages@, begin as int),
            -0x8000_0000 * (messages.len() - begin) <= used <= 0x8000_0000 * (messages.len()
                - begin),
        ensures
            begin == history_start(messages@, available as int),
            used == history_tokens(messages@, begin as int),
            begin <= messages.len(),
            -0x8000_0000 * messages.len() <= used <= 0x8000_0000 * messages.len(),
        decreases begin,
    {
        let tokens = messages[begin - 1].token_count as i128;
        if used + tokens > available as i128 {
            break;
        }
        used = used + tokens;
        begin -= 1;
    }
    let mut history: Vec<Message> = Vec::new();
    let mut i: usize = begin;
    while i < messages.len()
        invariant
            begin <= i <= messages.len(),
            history@ == messages@.subrange(begin as int, i as int),
        decreases messages.len() - i,
    {
        history.push(messages[i].copy());
        i += 1;
        assert(history@ =~= messages@.subrange(begin as int, i as int));
    }
    (history, used)
}

/// The unit that holds the context builder.
pub struct MemoryService;

impl MemoryService {
    /// Builds the context for a generation in `conversation`: the system
    /// prompt for its first character, and the newest messages of the active
    /// chain that fit into `max_tokens` beside the prompt and the reserve
    /// for the response. A conversation without a character has no context.
    pub fn build_context(
        settings: &Settings,
        conversation: &Conversation,
        messages: &Vec<Message>,
        persona: Option<Persona>,
        global: Vec<Lorebook>,
        attached: Vec<Lorebook>,
        max_tokens: i32,
    ) -> (result: AppResult<ContextResult>)
        ensures
            match result {
                Ok(ctx) => conversation.characters@.len() > 0 && context_is(
                    ctx,
                    *settings,
                    conversation.characters@[0],
                    persona,
                    messages@,
                    selected_entries(candidate_entries(global@, attached@), recent_text(messages@)),
                    max_tokens as int,
                ),
                Err(e) => conversation.characters@.len() == 0 && e is NotFound && e.detail()
                    == "No char"@,
            },
    {
        if conversation.characters.len() == 0 {
            return Err(AppError::NotFound("No char".to_owned()));
        }
        let character = &conversation.characters[0];
        let budget = match settings.generation.lorebook_budget {
            Some(b) => b,
            None => DEFAULT_LOREBOOK_BUDGET,
        };
        let reserve = match settings.generation.response_reserve {
            Some(r) => r,
            None => DEFAULT_RESPONSE_RESERVE,
        };
        let haystack = recent_haystack(messages);
        let entries = LorebookService::find_matching_entries(global, attached, haystack.as_str());
        let system_prompt = assemble_system_prompt(character, &persona, &entries, budget);
        let system_tokens = estimate_tokens(system_prompt.as_str());
        let available: i64 = max_tokens as i64 - system_tokens as i64 - reserve as i64;
        let (history, history_used) = select_history(messages, available);
        let total: i128 = system_tokens as i128 + history_used;
        let total_tokens: i32 = if total < i32::MIN as i128 {
            i32::MIN
        } else if total > i32::MAX as i128 {
            i32::MAX
        } else {
            total as i32
        };
        let persona_name = match &persona {
            Some(p) => p.name.clone(),
            None => "User".to_owned(),
        };
        Ok(
            ContextResult {
                system_prompt,
                messages: history,
                character_name: character.name.clone(),
                persona_name,
                total_tokens,
            },
        )
    }
}

/// A message of the prompt: who speaks, and what.
#[derive(Clone, Debug, PartialEq, Eq)]
pub struct PromptMessage {
    pub role: String,
    pub content: String,
}

/// The role under which a message of the history goes to the model.
pub open spec fn role_text(author: AuthorType) -> Seq<char> {
    match author {
        AuthorType::User => "user"@,
        AuthorType::Character => "assistant"@,
        AuthorType::System => "system"@,
    }
}

/// The text under which a message of the history goes to the model: a
/// character's message after its author's name, or the name of the character
/// that answers; a user's message after the persona's name, or `User`; a
/// system message as it stands.
pub open spec fn prompt_content_text(
    message: Message,
    persona_name: Seq<char>,
    character_name: Seq<char>,
) -> Seq<char> {
    match message.author_type {
        AuthorType::Character => (match message.author_name {
            Some(name) => name@,
            None => character_name,
        }) + ": "@ + message.content@,
        AuthorType::User => (if persona_name.len() > 0 {
            persona_name
        } else {
            "User"@
        }) + ": "@ + message.content@,
        AuthorType::System => message.content@,
    }
}

/// The `i`-th message of the prompt for a context: the system prompt first,
/// then the history.
pub open spec fn prompt_message_is(
    prompt: PromptMessage,
    ctx: ContextResult,
    character_name: Seq<char>,
    i: int,
) -> bool {
    if i == 0 {
        prompt.role@ == "system"@ && prompt.content@ == ctx.system_prompt@
    } else {
        &&& prompt.role@ == role_text(ctx.messages@[i - 1].author_type)
        &&& prompt.content@ == prompt_content_text(
            ctx.messages@[i - 1],
            ctx.persona_name@,
            character_name,
        )
    }
}

/// The messages of the prompt for a context: the system prompt, then each
/// message of the history under its role.
pub fn build_llm_messages(context: &ContextResult, character_name: &str) -> (prompt: Vec<
    PromptMessage,
>)
    ensures
        prompt@.len() == context.messages@.len() + 1,
        forall|i: int|
            0 <= i < prompt@.len() ==> prompt_message_is(
                #[trigger] prompt@[i],
                *context,
                character_name@,
                i,
            ),
{
    let mut prompt: Vec<PromptMessage> = Vec::new();
    prompt.push(
        PromptMessage { role: "system".to_owned(), content: context.system_prompt.clone() },
    );
    let mut i: usize = 0;
    while i < context.messages.len()
        invariant
            i <= context.messages.len(),
            prompt@.len() == i + 1,
            forall|j: int|
                0 <= j < prompt@.len() ==> prompt_message_is(
                    #[trigger] prompt@[j],
                    *context,
                    character_name@,
                    j,
                ),
        decreases context.messages.len() - i,
    {
        let message = &context.messages[i];
        let (role, content) = match message.author_type {
            AuthorType::Character => {
                let mut text = match &message.author_name {
                    Some(name) => name.clone(),
                    None => character_name.to_owned(),
                };
                text.append(": ");
                text.append(message.content.as_str());
                ("assistant", text)
            },
            AuthorType::User => {
                let mut text = if context.persona_name.as_str().unicode_len() > 0 {
                    context.persona_name.clone()
                } else {
                    "User".to_owned()
                };
                text.append(": ");
                text.append(message.content.as_str());
                ("user", text)
            },
            AuthorType::System => ("system", message.content.clone()),
        };
        prompt.push(PromptMessage { role: role.to_owned(), content });
        i += 1;
    }
    prompt
}

} // verus!
