//! Characters: what is checked when one is created or changed, how a
//! character card becomes a character, and how a character is exported and
//! imported again.

use vstd::prelude::*;
use vstd::string::{StrSliceExecFns, StringExecFns, StringSliceAdditionalSpecFns};
use vstd::utf8::encode_utf8;
use crate::entities::{
    mark_deleted, marker, Character, CharacterCardV1, CharacterCardV2, CreateCharacterInput, ExportedCharacter,
    UpdateCharacterInput,
};
use crate::error::{AppError, AppResult};
use crate::memory::{chars_of, last_char_before, rfind_char};
use crate::strings::{clone_strings, is_blank_text, trim_text, trimmed_text};
use crate::text::{clone_opt, contains, contains_bytes, opt_text, str_eq};

verus! {

/// Bytes that the name of a character may have.
pub const MAX_NAME_BYTES: usize = 100;

/// Bytes that the description of a character may have.
pub const MAX_DESCRIPTION_BYTES: usize = 50000;

/// Bytes that a character card may have.
pub const MAX_CARD_BYTES: usize = 2000000;

/// Tags that are taken from a character card.
pub const MAX_CARD_TAGS: usize = 20;

/// Bytes of an avatar that are encoded at most: the most whose base64 text,
/// four characters for every three bytes, still has a size that a buffer can
/// have, which is half the range of the machine's word.
pub const MAX_AVATAR_BYTES: usize = usize::MAX / 8 * 3;

/// Why a character cannot be created, if it cannot: the name, trimmed, must
/// have between 1 and 100 bytes, and the description at most 50000.
pub open spec fn character_refusal(input: CreateCharacterInput) -> bool {
    ||| is_blank_text(input.name@)
    ||| encode_utf8(trimmed_text(input.name@)).len() > MAX_NAME_BYTES
    ||| encode_utf8(input.description@).len() > MAX_DESCRIPTION_BYTES
}

/// The two characters hold the same values.
pub open spec fn same_character(a: Character, b: Character) -> bool {
    &&& a.id == b.id
    &&& a.name == b.name
    &&& a.description == b.description
    &&& a.personality == b.personality
    &&& a.system_prompt == b.system_prompt
    &&& a.first_message == b.first_message
    &&& a.example_dialogues == b.example_dialogues
    &&& a.avatar_path == b.avatar_path
    &&& a.tags@ == b.tags@
    &&& a.is_bundled == b.is_bundled
    &&& a.created_at == b.created_at
    &&& a.updated_at == b.updated_at
    &&& a.deleted_at == b.deleted_at
}

/// A copy of a character.
pub fn copy_character(c: &Character) -> (copy: Character)
    ensures
        same_character(copy, *c),
{
    Character {
        id: c.id.clone(),
        name: c.name.clone(),
        description: c.description.clone(),
        personality: c.personality.clone(),
        system_prompt: c.system_prompt.clone(),
        first_message: c.first_message.clone(),
        example_dialogues: c.example_dialogues.clone(),
        avatar_path: clone_opt(&c.avatar_path),
        tags: clone_strings(&c.tags),
        is_bundled: c.is_bundled,
        created_at: c.created_at,
        updated_at: c.updated_at,
        deleted_at: c.deleted_at,
    }
}

/// The position of the character with the id `id` that is not deleted.
pub open spec fn character_at(characters: Seq<Character>, id: Seq<char>, from: int) -> Option<int>
    decreases characters.len() - from + 1,
{
    if from < 0 || from >= characters.len() {
        None
    } else if characters[from].id@ == id && characters[from].deleted_at is None {
        Some(from)
    } else {
        character_at(characters, id, from + 1)
    }
}

/// The position of the character with the id `id` that is not deleted.
pub fn find_character(characters: &Vec<Character>, id: &str) -> (found: Option<usize>)
    ensures
        match found {
            Some(at) => character_at(characters@, id@, 0) == Some(at as int) && at
                < characters@.len(),
            None => character_at(characters@, id@, 0) is None,
        },
{
    let mut i: usize = 0;
    while i < characters.len()
        invariant
            i <= characters.len(),
            character_at(characters@, id@, 0) == character_at(characters@, id@, i as int),
        decreases characters.len() - i,
    {
        if characters[i].deleted_at.is_none() && str_eq(characters[i].id.as_str(), id) {
            return Some(i);
        }
        i += 1;
    }
    None
}

/// The character `c` is the one that `input` asks for, with the id `id`,
/// made at the time `now`.
pub open spec fn is_created(
    c: Character,
    input: CreateCharacterInput,
    id: Seq<char>,
    now: i64,
    bundled: bool,
) -> bool {
    &&& c.id@ == id
    &&& c.name == input.name
    &&& c.description == input.description
    &&& c.personality == input.personality
    &&& c.system_prompt == input.system_prompt
    &&& c.first_message == input.first_message
    &&& c.example_dialogues == input.example_dialogues
    &&& c.avatar_path == input.avatar_path
    &&& c.tags@ == input.tags@
    &&& c.is_bundled == bundled
    &&& c.created_at == now
    &&& c.updated_at == now
    &&& c.deleted_at is None
}

/// The character `c` is `before` with the fields that `input` gives in
/// place of its own, changed at the time `now`.
pub open spec fn is_updated(c: Character, before: Character, input: UpdateCharacterInput, now: i64) -> bool {
    &&& c.id == before.id
    &&& c.name == (match input.name {
        Some(v) => v,
        None => before.name,
    })
    &&& c.description == (match input.description {
        Some(v) => v,
        None => before.description,
    })
    &&& c.personality == (match input.personality {
        Some(v) => v,
        None => before.personality,
    })
    &&& c.system_prompt == (match input.system_prompt {
        Some(v) => v,
        None => before.system_prompt,
    })
    &&& c.first_message == (match input.first_message {
        Some(v) => v,
        None => before.first_message,
    })
    &&& c.example_dialogues == (match input.example_dialogues {
        Some(v) => v,
        None => before.example_dialogues,
    })
    &&& c.avatar_path == (match input.avatar_path {
        Some(v) => Some(v),
        None => before.avatar_path,
    })
    &&& c.tags@ == (match input.tags {
        Some(v) => v@,
        None => before.tags@,
    })
    &&& c.is_bundled == before.is_bundled
    &&& c.created_at == before.created_at
    &&& c.updated_at == now
    &&& c.deleted_at == before.deleted_at
}

/// The positions among the first `upto` of the characters that are not
/// deleted, in rising order.
pub open spec fn live_positions(characters: Seq<Character>, upto: int) -> Seq<int>
    decreases upto,
{
    if upto <= 0 {
        Seq::empty()
    } else if characters[upto - 1].deleted_at is None {
        live_positions(characters, upto - 1).push(upto - 1)
    } else {
        live_positions(characters, upto - 1)
    }
}

/// The live positions are positions of characters that are not deleted,
/// and they rise.
pub proof fn lemma_live_positions(characters: Seq<Character>, upto: int)
    requires
        0 <= upto <= characters.len(),
    ensures
        forall|k: int|
            0 <= k < live_positions(characters, upto).len() ==> {
                let at = #[trigger] live_positions(characters, upto)[k];
                0 <= at < upto && characters[at].deleted_at is None
            },
        forall|k: int, l: int|
            0 <= k < l < live_positions(characters, upto).len() ==> #[trigger] live_positions(
                characters,
                upto,
            )[k] < #[trigger] live_positions(characters, upto)[l],
    decreases upto,
{
    if upto > 0 {
        lemma_live_positions(characters, upto - 1);
    }
}

/// The character `c` deleted at the time `now`: it keeps the marker that it
/// has, and gets the time `now` as its marker where it has none.
pub open spec fn soft_deleted(c: Character, now: i64) -> Character {
    Character { deleted_at: marker(c.deleted_at, now), ..c }
}

/// Deleting twice leaves one marker, that of the first deletion: the second
/// deletion changes nothing, whatever its time.
pub proof fn lemma_delete_twice(c: Character, first: i64, second: i64)
    ensures
        soft_deleted(soft_deleted(c, first), second) == soft_deleted(c, first),
        soft_deleted(c, first).deleted_at is Some,
        c.deleted_at is None ==> soft_deleted(soft_deleted(c, first), second).deleted_at == Some(
            first,
        ),
{
}

/// The character with the fields that `input` gives in place of its own,
/// changed at the time `now`.
fn change_character(character: Character, input: &UpdateCharacterInput, now: i64) -> (c: Character)
    ensures
        is_updated(c, character, *input, now),
{
    let mut c = character;
    match &input.name {
        Some(v) => {
            c.name = v.clone();
        },
        None => {},
    }
    match &input.description {
        Some(v) => {
            c.description = v.clone();
        },
        None => {},
    }
    match &input.personality {
        Some(v) => {
            c.personality = v.clone();
        },
        None => {},
    }
    match &input.system_prompt {
        Some(v) => {
            c.system_prompt = v.clone();
        },
        None => {},
    }
    match &input.first_message {
        Some(v) => {
            c.first_message = v.clone();
        },
        None => {},
    }
    match &input.example_dialogues {
        Some(v) => {
            c.example_dialogues = v.clone();
        },
        None => {},
    }
    match &input.avatar_path {
        Some(v) => {
            c.avatar_path = Some(v.clone());
        },
        None => {},
    }
    match &input.tags {
        Some(v) => {
            c.tags = clone_strings(v);
        },
        None => {},
    }
    c.updated_at = now;
    c
}

/// The unit that holds the operations on the stored characters.
pub struct CharacterRepo;

impl CharacterRepo {
    /// Stores a new character with the id `id`, made at the time `now`.
    /// `bundled` tells whether it came with the application.
    fn store(
        characters: &mut Vec<Character>,
        input: &CreateCharacterInput,
        id: String,
        now: i64,
        bundled: bool,
    ) -> (created: Character)
        ensures
            final(characters)@.len() == old(characters)@.len() + 1,
            final(characters)@.drop_last() == old(characters)@,
            is_created(final(characters)@.last(), *input, id@, now, bundled),
            same_character(created, final(characters)@.last()),
    {
        let c = Character {
            id,
            name: input.name.clone(),
            description: input.description.clone(),
            personality: input.personality.clone(),
            system_prompt: input.system_prompt.clone(),
            first_message: input.first_message.clone(),
            example_dialogues: input.example_dialogues.clone(),
            avatar_path: clone_opt(&input.avatar_path),
            tags: clone_strings(&input.tags),
            is_bundled: bundled,
            created_at: now,
            updated_at: now,
            deleted_at: None,
        };
        let created = copy_character(&c);
        characters.push(c);
        assert(characters@.drop_last() =~= old(characters)@);
        created
    }

    /// Stores a new character with the id `id`, made at the time `now`.
    pub fn create(
        characters: &mut Vec<Character>,
        input: &CreateCharacterInput,
        id: String,
        now: i64,
    ) -> (created: Character)
        ensures
            final(characters)@.len() == old(characters)@.len() + 1,
            final(characters)@.drop_last() == old(characters)@,
            is_created(final(characters)@.last(), *input, id@, now, false),
            same_character(created, final(characters)@.last()),
    {
        CharacterRepo::store(characters, input, id, now, false)
    }

    /// Stores a character that comes with the application, under the id
    /// `id`.
    pub fn create_bundled(
        characters: &mut Vec<Character>,
        input: &CreateCharacterInput,
        id: &str,
        now: i64,
    ) -> (created: Character)
        ensures
            final(characters)@.len() == old(characters)@.len() + 1,
            final(characters)@.drop_last() == old(characters)@,
            is_created(final(characters)@.last(), *input, id@, now, true),
            same_character(created, final(characters)@.last()),
    {
        CharacterRepo::store(characters, input, id.to_owned(), now, true)
    }

    /// The character with the id `id` that is not deleted.
    pub fn find_by_id(characters: &Vec<Character>, id: &str) -> (result: AppResult<Character>)
        ensures
            match result {
                Ok(c) => character_at(characters@, id@, 0) is Some && same_character(
                    c,
                    characters@[character_at(characters@, id@, 0)->0],
                ),
                Err(e) => character_at(characters@, id@, 0) is None && e is NotFound,
            },
    {
        match find_character(characters, id) {
            Some(at) => Ok(copy_character(&characters[at])),
            None => Err(AppError::NotFound("Record not found".to_owned())),
        }
    }

    /// The characters that are not deleted, in the order in which they are
    /// stored.
    pub fn find_all(characters: &Vec<Character>) -> (found: Vec<Character>)
        ensures
            found@.len() == live_positions(characters@, characters@.len() as int).len(),
            forall|k: int|
                0 <= k < found@.len() ==> same_character(
                    #[trigger] found@[k],
                    characters@[live_positions(characters@, characters@.len() as int)[k]],
                ),
    {
        let mut found: Vec<Character> = Vec::new();
        let mut i: usize = 0;
        while i < characters.len()
            invariant
                i <= characters.len(),
                found@.len() == live_positions(characters@, i as int).len(),
                forall|k: int|
                    0 <= k < found@.len() ==> same_character(
                        #[trigger] found@[k],
                        characters@[live_positions(characters@, i as int)[k]],
                    ),
            decreases characters.len() - i,
        {
            let ghost before = live_positions(characters@, i as int);
            let ghost had = found@;
            if characters[i].deleted_at.is_none() {
                found.push(copy_character(&characters[i]));
            }
            i += 1;
            proof {
                let after = live_positions(characters@, i as int);
                assert forall|k: int| 0 <= k < found@.len() implies same_character(
                    #[trigger] found@[k],
                    characters@[after[k]],
                ) by {
                    if k < before.len() {
                        assert(after[k] == before[k]);
                        assert(found@[k] == had[k]);
                    } else {
                        assert(after[k] == i - 1);
                    }
                }
            }
        }
        found
    }

    /// Replaces the given fields of the character with the id `id` that is
    /// not deleted, and notes the time of the change.
    pub fn update(
        characters: &mut Vec<Character>,
        id: &str,
        input: &UpdateCharacterInput,
        now: i64,
    ) -> (result: AppResult<Character>)
        ensures
            final(characters)@.len() == old(characters)@.len(),
            match result {
                Ok(c) => character_at(old(characters)@, id@, 0) is Some && ({
                    let at = character_at(old(characters)@, id@, 0)->0;
                    &&& is_updated(final(characters)@[at], old(characters)@[at], *input, now)
                    &&& same_character(c, final(characters)@[at])
                    &&& forall|i: int|
                        0 <= i < old(characters)@.len() && i != at ==> #[trigger] final(characters)@[i] == old(characters)@[i]
                }),
                Err(e) => character_at(old(characters)@, id@, 0) is None && e is NotFound && final(characters)@ == old(characters)@,
            },
    {
        match find_character(characters, id) {
            Some(at) => {
                let taken = characters.remove(at);
                let c = change_character(taken, input, now);
                let copy = copy_character(&c);
                characters.insert(at, c);
                Ok(copy)
            },
            None => Err(AppError::NotFound("Record not found".to_owned())),
        }
    }

    /// Marks every character with the id `id` as deleted at the time `now`.
    /// A character that is deleted already keeps its marker.
    pub fn delete(characters: &mut Vec<Character>, id: &str, now: i64)
        ensures
            final(characters)@.len() == old(characters)@.len(),
            forall|i: int|
                0 <= i < old(characters)@.len() ==> #[trigger] final(characters)@[i] == (if (old(characters)@[i]).id@ == id@ {
                    soft_deleted(old(characters)@[i], now)
                } else {
                    old(characters)@[i]
                }),
    {
        let mut i: usize = 0;
        while i < characters.len()
            invariant
                i <= characters.len(),
                characters@.len() == old(characters)@.len(),
                forall|j: int|
                    0 <= j < i ==> #[trigger] characters@[j] == (if (old(characters)@[j]).id@
                        == id@ {
                        soft_deleted(old(characters)@[j], now)
                    } else {
                        old(characters)@[j]
                    }),
                forall|j: int| i <= j < characters@.len() ==> characters@[j] == old(characters)@[j],
            decreases characters.len() - i,
        {
            if str_eq(characters[i].id.as_str(), id) {
                let mut c = characters.remove(i);
                c.deleted_at = mark_deleted(c.deleted_at, now);
                characters.insert(i, c);
            }
            i += 1;
        }
    }
}

/// The unit that holds the rules for characters.
pub struct CharacterService;

impl CharacterService {
    /// Checks what is needed to create a character. The result carries the
    /// trimmed name.
    pub fn create(input: CreateCharacterInput) -> (result: AppResult<CreateCharacterInput>)
        ensures
            match result {
                Ok(clean) => !character_refusal(input) && clean.name@ == trimmed_text(input.name@)
                    && clean.description == input.description && clean.personality
                    == input.personality && clean.system_prompt == input.system_prompt
                    && clean.first_message == input.first_message && clean.example_dialogues
                    == input.example_dialogues && clean.avatar_path == input.avatar_path
                    && clean.tags == input.tags,
                Err(e) => character_refusal(input) && e is Validation,
            },
    {
        let name = trim_text(input.name.as_str());
        if name.as_str().unicode_len() == 0 {
            return Err(AppError::Validation("Name is required".to_owned()));
        }
        if name.as_str().as_bytes().len() > MAX_NAME_BYTES {
            return Err(AppError::Validation("Name must be 100 characters or less".to_owned()));
        }
        if input.description.as_str().as_bytes().len() > MAX_DESCRIPTION_BYTES {
            return Err(AppError::Validation("Description is too long".to_owned()));
        }
        Ok(
            CreateCharacterInput {
                name,
                description: input.description,
                personality: input.personality,
                system_prompt: input.system_prompt,
                first_message: input.first_message,
                example_dialogues: input.example_dialogues,
                avatar_path: input.avatar_path,
                tags: input.tags,
            },
        )
    }

    /// Checks an update of a character: a new name must not be blank.
    pub fn update(input: &UpdateCharacterInput) -> (result: AppResult<()>)
        ensures
            match result {
                Ok(_) => input.name is Some ==> !is_blank_text(input.name->0@),
                Err(e) => input.name is Some && is_blank_text(input.name->0@) && e is Validation,
            },
    {
        match &input.name {
            Some(name) => {
                if crate::strings::is_blank(name.as_str()) {
                    return Err(AppError::Validation("Name cannot be empty".to_owned()));
                }
            },
            None => {},
        }
        Ok(())
    }

    /// The description of a card: the description, and the scenario behind
    /// it where the card has one.
    pub open spec fn card_description(description: Seq<char>, scenario: Seq<char>) -> Seq<char> {
        if scenario.len() == 0 {
            description
        } else {
            description + "\n\nScenario: "@ + scenario
        }
    }

    /// The description of a card.
    fn describe(description: String, scenario: &str) -> (out: String)
        ensures
            out@ == CharacterService::card_description(description@, scenario@),
    {
        if scenario.unicode_len() == 0 {
            description
        } else {
            let mut out = description;
            out.append("\n\nScenario: ");
            out.append(scenario);
            out
        }
    }

    /// Turns a character card into what is needed to create the character.
    /// `card_bytes` is the size of the card's text; `v2` is the card read in
    /// its wrapped shape and `v1` in its flat shape, where it has that
    /// shape. The wrapped shape is preferred. A card of more than 2000000
    /// bytes, and a card of neither shape, is refused.
    pub fn import_card(
        card_bytes: usize,
        v2: Option<CharacterCardV2>,
        v1: Option<CharacterCardV1>,
        avatar_path: Option<String>,
    ) -> (result: AppResult<CreateCharacterInput>)
        ensures
            match result {
                Ok(input) => card_bytes <= MAX_CARD_BYTES && (match v2 {
                    Some(card) => input.name@ == trimmed_text(card.data.name@)
                        && input.description@ == CharacterService::card_description(
                        card.data.description@,
                        card.data.scenario@,
                    ) && input.personality == card.data.personality && input.system_prompt
                        == card.data.system_prompt && input.first_message == card.data.first_mes
                        && input.example_dialogues == card.data.mes_example && input.tags@
                        == card.data.tags@.take(
                        if card.data.tags@.len() < MAX_CARD_TAGS {
                            card.data.tags@.len() as int
                        } else {
                            MAX_CARD_TAGS as int
                        },
                    ),
                    None => v1 is Some && input.name@ == trimmed_text(v1->0.name@)
                        && input.description@ == CharacterService::card_description(
                        v1->0.description@,
                        v1->0.scenario@,
                    ) && input.personality == v1->0.personality && input.system_prompt@
                        == Seq::<char>::empty() && input.first_message == v1->0.first_mes
                        && input.example_dialogues == v1->0.mes_example && input.tags@
                        == Seq::<String>::empty(),
                }) && input.avatar_path == avatar_path,
                Err(e) => e is Import && (card_bytes > MAX_CARD_BYTES || (v2 is None && v1
                    is None)),
            },
    {
        if card_bytes > MAX_CARD_BYTES {
            return Err(AppError::Import("Character card data too large".to_owned()));
        }
        match v2 {
            Some(card) => {
                let data = card.data;
                let mut tags = data.tags;
                let ghost all = tags@;
                if tags.len() > MAX_CARD_TAGS {
                    tags.truncate(MAX_CARD_TAGS);
                } else {
                    assert(all.take(all.len() as int) =~= all);
                }
                let name = trim_text(data.name.as_str());
                Ok(
                    CreateCharacterInput {
                        name,
                        description: CharacterService::describe(
                            data.description,
                            data.scenario.as_str(),
                        ),
                        personality: data.personality,
                        system_prompt: data.system_prompt,
                        first_message: data.first_mes,
                        example_dialogues: data.mes_example,
                        avatar_path,
                        tags,
                    },
                )
            },
            None => match v1 {
                Some(card) => {
                    let name = trim_text(card.name.as_str());
                    Ok(
                        CreateCharacterInput {
                            name,
                            description: CharacterService::describe(
                                card.description,
                                card.scenario.as_str(),
                            ),
                            personality: card.personality,
                            system_prompt: String::new(),
                            first_message: card.first_mes,
                            example_dialogues: card.mes_example,
                            avatar_path,
                            tags: Vec::new(),
                        },
                    )
                },
                None => Err(AppError::Import("Invalid character card format".to_owned())),
            },
        }
    }
}

/// What the model is asked when it drafts a character, before the concept.
pub const CHARACTER_PROMPT_HEAD: &'static str =
    "You are a character creation assistant. Based on the following concept, generate a detailed character profile.\n\nConcept: ";

/// What the model is asked when it drafts a character, behind the concept.
pub const CHARACTER_PROMPT_TAIL: &'static str =
    "\n\nGenerate a JSON object with the following fields (all string fields should be detailed and creative):\n- name: A fitting name for the character\n- description: A brief description (2-3 sentences)\n- personality: Detailed personality traits, behaviors, and mannerisms (3-4 sentences)\n- firstMessage: An in-character greeting message the character would say when meeting someone (should be immersive and set the scene)\n- exampleDialogues: 2-3 example dialogue exchanges showing how the character speaks (use {{user}} and {{char}} format)\n- tags: Array of 3-5 relevant tags\n- scenario: The setting or context where interactions take place\n- backstory: Character's history and background (2-3 sentences)\n- likes: Array of 3-5 things the character enjoys\n- dislikes: Array of 3-5 things the character dislikes\n- physicalTraits: Physical appearance and mannerisms\n- speechPatterns: How the character talks (accent, vocabulary, quirks)\n- genreTags: Array of relevant genres (e.g., Romance, Comedy, Fantasy)\n- povType: One of \"any\", \"first\", \"second\", or \"third\"\n- rating: One of \"sfw\", \"nsfw\", or \"limitless\"\n\nIMPORTANT: Return ONLY valid JSON, no additional text or markdown. The response must be parseable JSON.";

/// The prompt that asks the model to draft a character from a concept.
pub fn character_prompt(concept: &str) -> (prompt: String)
    ensures
        prompt@ == CHARACTER_PROMPT_HEAD@ + concept@ + CHARACTER_PROMPT_TAIL@,
{
    let mut prompt = CHARACTER_PROMPT_HEAD.to_owned();
    prompt.append(concept);
    prompt.append(CHARACTER_PROMPT_TAIL);
    prompt
}

/// The pattern stands in the text at the position `at`.
pub open spec fn stands_at(s: Seq<char>, pat: Seq<char>, at: int) -> bool {
    0 <= at && at + pat.len() <= s.len() && s.subrange(at, at + pat.len()) == pat
}

/// Where the text begins once every copy of the pattern at its start, from
/// `from` on, is taken away.
pub open spec fn lead_end(s: Seq<char>, pat: Seq<char>, from: int) -> int
    decreases s.len() - from + 1,
{
    if pat.len() > 0 && stands_at(s, pat, from) {
        lead_end(s, pat, from + pat.len())
    } else {
        from
    }
}

/// Where the text ends once every copy of the pattern at its end, before
/// `upto` and not before `floor`, is taken away.
pub open spec fn trail_start(s: Seq<char>, pat: Seq<char>, floor: int, upto: int) -> int
    decreases upto,
{
    if pat.len() > 0 && floor <= upto - pat.len() && stands_at(s, pat, upto - pat.len()) {
        trail_start(s, pat, floor, upto - pat.len())
    } else {
        upto
    }
}

/// The text with every copy of `open` at its start and then every copy of
/// `close` at its end taken away, trimmed.
pub open spec fn between_fences(s: Seq<char>, open: Seq<char>, close: Seq<char>) -> Seq<char> {
    let from = lead_end(s, open, 0);
    let upto = trail_start(s, close, from, s.len() as int);
    trimmed_text(s.subrange(from, upto))
}

/// The answer of the model without the code fence that it may stand in:
/// the trimmed answer, and where that begins with a fence, with or without
/// the word `json`, what stands between the fences, trimmed again.
pub open spec fn unfenced(s: Seq<char>) -> Seq<char> {
    let t = trimmed_text(s);
    if stands_at(t, "```json"@, 0) {
        between_fences(t, "```json"@, "```"@)
    } else if stands_at(t, "```"@, 0) {
        between_fences(t, "```"@, "```"@)
    } else {
        t
    }
}

/// Tells whether the pattern stands in the text at the position `at`.
fn is_at(chars: &Vec<char>, pat: &Vec<char>, at: usize) -> (found: bool)
    ensures
        found == stands_at(chars@, pat@, at as int),
{
    if pat.len() > chars.len() || at > chars.len() - pat.len() {
        return false;
    }
    let mut k: usize = 0;
    while k < pat.len()
        invariant
            k <= pat.len(),
            at + pat.len() <= chars.len(),
            forall|j: int| 0 <= j < k ==> chars@[at + j] == pat@[j],
        decreases pat.len() - k,
    {
        if chars[at + k] != pat[k] {
            assert(chars@.subrange(at as int, at + pat.len())[k as int] != pat@[k as int]);
            return false;
        }
        k += 1;
    }
    assert(chars@.subrange(at as int, at + pat.len()) =~= pat@);
    true
}

/// What stands between the fences `open` and `close` of a text, trimmed.
fn strip_fences(text: &str, open: &str, close: &str) -> (out: String)
    ensures
        out@ == between_fences(text@, open@, close@),
{
    let chars = chars_of(text);
    let open_chars = chars_of(open);
    let close_chars = chars_of(close);
    let mut from: usize = 0;
    while open_chars.len() > 0 && is_at(&chars, &open_chars, from)
        invariant
            from <= chars.len(),
            lead_end(chars@, open_chars@, 0) == lead_end(chars@, open_chars@, from as int),
        decreases chars.len() - from,
    {
        from += open_chars.len();
    }
    let mut upto: usize = chars.len();
    while close_chars.len() > 0 && upto >= close_chars.len() && from <= upto - close_chars.len()
        && is_at(&chars, &close_chars, upto - close_chars.len())
        invariant
            from <= upto <= chars.len(),
            trail_start(chars@, close_chars@, from as int, chars@.len() as int) == trail_start(
                chars@,
                close_chars@,
                from as int,
                upto as int,
            ),
        decreases upto,
    {
        upto -= close_chars.len();
    }
    trim_text(text.substring_char(from, upto))
}

/// Takes the answer of the model out of the code fence that it may stand
/// in.
pub fn strip_code_fence(content: &str) -> (out: String)
    ensures
        out@ == unfenced(content@),
{
    let trimmed = trim_text(content);
    let chars = chars_of(trimmed.as_str());
    let with_word = chars_of("```json");
    let bare = chars_of("```");
    if is_at(&chars, &with_word, 0) {
        strip_fences(trimmed.as_str(), "```json", "```")
    } else if is_at(&chars, &bare, 0) {
        strip_fences(trimmed.as_str(), "```", "```")
    } else {
        trimmed
    }
}

/// What `base64` makes of bytes with its standard engine.
pub uninterp spec fn base64_of(data: Seq<u8>) -> Seq<char>;

/// What `base64` reads from a text with its standard engine: nothing where
/// the text is no base64.
pub uninterp spec fn base64_decoded(text: Seq<char>) -> Option<Seq<u8>>;

/// `base64::Engine::encode` of the engine `general_purpose::STANDARD`:
/// the bytes in base64 with the standard alphabet and padding. The engine
/// fails on an input whose encoded size does not fit the machine's word, and
/// so does the buffer that it makes for a size beyond half of that range;
/// such an input is left out.
#[verifier::external_body]
fn base64_encode(data: &[u8]) -> (text: String)
    requires
        data@.len() <= MAX_AVATAR_BYTES,
    ensures
        text@ == base64_of(data@),
{
    base64::Engine::encode(&base64::engine::general_purpose::STANDARD, data)
}

/// `base64::Engine::decode` of the engine `general_purpose::STANDARD`:
/// the bytes that the text encodes, or the engine's error as text.
#[verifier::external_body]
fn base64_decode(text: &str) -> (data: Result<Vec<u8>, String>)
    ensures
        match data {
            Ok(bytes) => base64_decoded(text@) == Some(bytes@),
            Err(_) => base64_decoded(text@) is None,
        },
{
    base64::Engine::decode(&base64::engine::general_purpose::STANDARD, text).map_err(
        |e| e.to_string(),
    )
}

/// The character `e` carries is the character `c`, in the envelope of a
/// character export.
pub open spec fn exported_from(e: ExportedCharacter, c: Character, avatar: Option<Seq<u8>>) -> bool {
    &&& e.glee_export_version@ == "1.0"@
    &&& e.export_type@ == "character"@
    &&& e.character == c
    &&& opt_text(e.avatar_base64) == (match avatar {
        Some(data) => Some("data:image/png;base64,"@ + base64_of(data)),
        None => None,
    })
}

/// What is needed to create a character again from an export.
pub open spec fn imported_from(input: CreateCharacterInput, e: ExportedCharacter) -> bool {
    &&& input.name == e.character.name
    &&& input.description == e.character.description
    &&& input.personality == e.character.personality
    &&& input.system_prompt == e.character.system_prompt
    &&& input.first_message == e.character.first_message
    &&& input.example_dialogues == e.character.example_dialogues
    &&& input.tags == e.character.tags
}

/// Exporting a character and importing it again keeps its name, its
/// description, its personality, its first message, its example dialogues
/// and its tags.
pub proof fn lemma_export_import_round_trip(
    c: Character,
    avatar: Option<Seq<u8>>,
    e: ExportedCharacter,
    input: CreateCharacterInput,
)
    requires
        exported_from(e, c, avatar),
        imported_from(input, e),
    ensures
        input.name == c.name,
        input.description == c.description,
        input.personality == c.personality,
        input.first_message == c.first_message,
        input.example_dialogues == c.example_dialogues,
        input.tags == c.tags,
{
}

/// The part of the text behind its last comma, or the whole text where it
/// has none.
pub open spec fn after_last_comma(s: Seq<char>) -> Seq<char> {
    match last_char_before(s, ',', s.len() as int) {
        Some(at) => s.subrange(at + 1, s.len() as int),
        None => s,
    }
}

/// What kind of export a text holds.
#[derive(Clone, Copy, Debug, PartialEq, Eq, Structural)]
pub enum ImportKind {
    Character,
}

/// The unit that holds the export and the import.
pub struct ExportService;

impl ExportService {
    /// Puts a character into the envelope of an export. `avatar` holds the
    /// bytes of its avatar image, where it has one; `exported_at` is the time
    /// of the export as text. An avatar that is too large to be encoded is
    /// refused.
    pub fn export_character(character: Character, avatar: Option<Vec<u8>>, exported_at: String) -> (result:
        AppResult<ExportedCharacter>)
        ensures
            match result {
                Ok(e) => exported_from(
                    e,
                    character,
                    match avatar {
                        Some(data) => Some(data@),
                        None => None,
                    },
                ) && e.exported_at == exported_at && (avatar is Some ==> avatar->0@.len()
                    <= MAX_AVATAR_BYTES),
                Err(e) => e is Export && avatar is Some && avatar->0@.len() > MAX_AVATAR_BYTES,
            },
    {
        let avatar_base64 = match &avatar {
            Some(data) => {
                if data.len() > MAX_AVATAR_BYTES {
                    return Err(AppError::Export("Avatar too large".to_owned()));
                }
                let mut url = "data:image/png;base64,".to_owned();
                url.append(base64_encode(data.as_slice()).as_str());
                Some(url)
            },
            None => None,
        };
        Ok(
            ExportedCharacter {
                glee_export_version: "1.0".to_owned(),
                export_type: "character".to_owned(),
                exported_at,
                character,
                avatar_base64,
            },
        )
    }

    /// The bytes of the avatar of an export: what stands behind the last
    /// comma of the data URL, decoded. A text that is no base64 is refused.
    pub fn decode_avatar(data_url: &str) -> (result: AppResult<Vec<u8>>)
        ensures
            match result {
                Ok(bytes) => base64_decoded(after_last_comma(data_url@)) == Some(bytes@),
                Err(e) => base64_decoded(after_last_comma(data_url@)) is None && e is Import,
            },
    {
        let chars = chars_of(data_url);
        let len = chars.len();
        let raw = match rfind_char(&chars, ',') {
            Some(at) => data_url.substring_char(at + 1, len),
            None => {
                proof {
                    assert(data_url@.subrange(0, data_url@.len() as int) =~= data_url@);
                }
                data_url.substring_char(0, len)
            },
        };
        match base64_decode(raw) {
            Ok(bytes) => Ok(bytes),
            Err(message) => Err(AppError::Import(message)),
        }
    }

    /// What is needed to create the character of an export again.
    /// `avatar_path` names the file that the avatar was written to.
    pub fn import_character(exported: ExportedCharacter, avatar_path: Option<String>) -> (input:
        CreateCharacterInput)
        ensures
            imported_from(input, exported),
            input.avatar_path == avatar_path,
    {
        let c = exported.character;
        CreateCharacterInput {
            name: c.name,
            description: c.description,
            personality: c.personality,
            system_prompt: c.system_prompt,
            first_message: c.first_message,
            example_dialogues: c.example_dialogues,
            avatar_path,
            tags: c.tags,
        }
    }

    /// The text names an export of a character: it holds
    /// `glee_export_version` and `"export_type":"character"`.
    pub open spec fn is_character_export(data: Seq<u8>) -> bool {
        contains(data, "glee_export_version".spec_bytes()) && contains(
            data,
            "\"export_type\":\"character\"".spec_bytes(),
        )
    }

    /// Tells what kind of export a text holds. A text of an unknown format
    /// is refused.
    pub fn import_data(data: &str) -> (result: AppResult<ImportKind>)
        ensures
            match result {
                Ok(kind) => kind == ImportKind::Character && ExportService::is_character_export(
                    data.spec_bytes(),
                ),
                Err(e) => e is Import && !ExportService::is_character_export(data.spec_bytes()),
            },
    {
        let bytes = data.as_bytes();
        if contains_bytes(bytes, "glee_export_version".as_bytes()) && contains_bytes(
            bytes,
            "\"export_type\":\"character\"".as_bytes(),
        ) {
            Ok(ImportKind::Character)
        } else {
            Err(AppError::Import("Unknown format".to_owned()))
        }
    }
}

} // verus!
