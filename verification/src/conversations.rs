//! Conversations: how one is created, and how its messages are read with
//! the number of their siblings.

use vstd::prelude::*;
use vstd::string::{StrSliceExecFns, StringExecFns};
use crate::entities::{
    mark_deleted, marker, AuthorType, Character, Conversation, CreateConversationInput, ExportedConversation, Lorebook,
    Message, Persona, UpdateConversationInput,
};
use crate::error::{AppError, AppResult, ErrorKind};
use crate::lorebook::LorebookService;
use crate::lorebook_store::{book_at, find_book};
use crate::messages::MessageRepo;
use crate::personas::{default_at, persona_at, PersonaRepo};
use crate::characters::{
    character_at, copy_character, find_character, same_character, ExportService,
};
use crate::strings::{clone_strings, is_blank_text};
use crate::text::{clone_opt, opt_text, str_eq};
use crate::tokens::{estimate_tokens, estimated_tokens};

verus! {

/// The title of a new conversation: the one given, else `Chat with` and
/// the name of its one character, else `Group Chat`.
pub open spec fn title_text(title: Option<String>, linked: Seq<Character>) -> Seq<char> {
    match title {
        Some(t) => t@,
        None => if linked.len() == 1 {
            "Chat with "@ + linked[0].name@
        } else {
            "Group Chat"@
        },
    }
}

/// The message `m` is the first message of a conversation with the
/// character `c`: a root by the character, active, with the character's
/// first message as its content.
pub open spec fn first_message_is(
    m: Message,
    c: Character,
    conversation: Seq<char>,
    id: Seq<char>,
    now: i64,
) -> bool {
    &&& m.id@ == id
    &&& m.conversation_id@ == conversation
    &&& m.parent_id is None
    &&& m.author_type == AuthorType::Character
    &&& opt_text(m.author_id) == Some(c.id@)
    &&& m.content == c.first_message
    &&& m.is_active_branch
    &&& m.branch_index == 0
    &&& m.token_count == estimated_tokens(c.first_message@)
    &&& m.created_at == now
    &&& opt_text(m.author_name) == Some(c.name@)
    &&& m.sibling_count is None
}

/// Every id of the first `upto` names a character that is there.
pub open spec fn all_found(characters: Seq<Character>, ids: Seq<String>, upto: int) -> bool {
    forall|k: int| 0 <= k < upto && k < ids.len() ==> character_at(characters, (#[trigger] ids[k])@, 0) is Some
}

/// Why a conversation cannot be created, if it cannot: it needs a
/// character, every character that it names must be there, and so must the
/// persona that it names.
pub open spec fn create_refusal(
    characters: Seq<Character>,
    personas: Seq<Persona>,
    input: CreateConversationInput,
) -> Option<ErrorKind> {
    if input.character_ids@.len() == 0 {
        Some(ErrorKind::Validation)
    } else if !all_found(characters, input.character_ids@, input.character_ids@.len() as int) {
        Some(ErrorKind::NotFound)
    } else if input.persona_id is Some && persona_at(personas, input.persona_id->0@, 0) is None {
        Some(ErrorKind::NotFound)
    } else {
        None
    }
}

/// The group of a message of the conversation `conversation`: the children
/// of its parent in that conversation, or the roots of the conversation.
pub open spec fn counted_with(m: Message, other: Message, conversation: Seq<char>) -> bool {
    other.conversation_id@ == conversation && opt_text(other.parent_id) == opt_text(m.parent_id)
}

/// The number of messages of the conversation among the first `upto` that
/// have the parent of `m`.
pub open spec fn sibling_count_of(msgs: Seq<Message>, m: Message, conversation: Seq<char>, upto: int) -> int
    decreases upto,
{
    if upto <= 0 {
        0
    } else {
        sibling_count_of(msgs, m, conversation, upto - 1) + if counted_with(
            m,
            msgs[upto - 1],
            conversation,
        ) {
            1int
        } else {
            0int
        }
    }
}

/// The two sequences hold the same characters in the same order.
pub open spec fn same_characters(a: Seq<Character>, b: Seq<Character>) -> bool {
    &&& a.len() == b.len()
    &&& forall|k: int| 0 <= k < a.len() ==> same_character(#[trigger] a[k], b[k])
}

/// The two conversations hold the same values.
pub open spec fn same_conversation(a: Conversation, b: Conversation) -> bool {
    &&& a.id == b.id
    &&& a.title == b.title
    &&& a.persona_id == b.persona_id
    &&& a.is_group == b.is_group
    &&& a.active_message_id == b.active_message_id
    &&& a.created_at == b.created_at
    &&& a.updated_at == b.updated_at
    &&& a.deleted_at == b.deleted_at
    &&& same_characters(a.characters@, b.characters@)
    &&& a.lorebook_ids@ == b.lorebook_ids@
}

/// A copy of a conversation with its characters.
pub fn copy_conversation(c: &Conversation) -> (copy: Conversation)
    ensures
        same_conversation(copy, *c),
{
    let mut characters: Vec<Character> = Vec::new();
    let mut i: usize = 0;
    while i < c.characters.len()
        invariant
            i <= c.characters.len(),
            characters@.len() == i,
            forall|k: int| 0 <= k < i ==> same_character(#[trigger] characters@[k], c.characters@[k]),
        decreases c.characters.len() - i,
    {
        characters.push(copy_character(&c.characters[i]));
        i += 1;
    }
    Conversation {
        id: c.id.clone(),
        title: c.title.clone(),
        persona_id: clone_opt(&c.persona_id),
        is_group: c.is_group,
        active_message_id: clone_opt(&c.active_message_id),
        created_at: c.created_at,
        updated_at: c.updated_at,
        deleted_at: c.deleted_at,
        characters,
        lorebook_ids: clone_strings(&c.lorebook_ids),
    }
}

/// The first position from `from` on of a conversation with the id `id`
/// that is not deleted.
pub open spec fn conversation_at(conversations: Seq<Conversation>, id: Seq<char>, from: int) -> Option<int>
    decreases conversations.len() - from + 1,
{
    if from < 0 || from >= conversations.len() {
        None
    } else if conversations[from].id@ == id && conversations[from].deleted_at is None {
        Some(from)
    } else {
        conversation_at(conversations, id, from + 1)
    }
}

/// The conversation is one with the character `character_id` alone, and is
/// not deleted.
pub open spec fn is_alone_with(c: Conversation, character_id: Seq<char>) -> bool {
    c.deleted_at is None && c.characters@.len() == 1 && c.characters@[0].id@ == character_id
}

/// The first position from `from` on of a conversation with the character
/// `character_id` alone.
pub open spec fn alone_with_at(conversations: Seq<Conversation>, character_id: Seq<char>, from: int) -> Option<int>
    decreases conversations.len() - from + 1,
{
    if from < 0 || from >= conversations.len() {
        None
    } else if is_alone_with(conversations[from], character_id) {
        Some(from)
    } else {
        alone_with_at(conversations, character_id, from + 1)
    }
}

/// The positions among the first `upto` of the conversations that are not
/// deleted, in rising order.
pub open spec fn live_conversations(conversations: Seq<Conversation>, upto: int) -> Seq<int>
    decreases upto,
{
    if upto <= 0 {
        Seq::empty()
    } else if conversations[upto - 1].deleted_at is None {
        live_conversations(conversations, upto - 1).push(upto - 1)
    } else {
        live_conversations(conversations, upto - 1)
    }
}

/// One of the ids is `id`.
pub open spec fn holds_id(ids: Seq<String>, id: Seq<char>) -> bool {
    exists|k: int| 0 <= k < ids.len() && (#[trigger] ids[k])@ == id
}

/// The ids without `id`.
pub open spec fn without_id(ids: Seq<String>, id: Seq<char>) -> Seq<String>
    decreases ids.len(),
{
    if ids.len() == 0 {
        Seq::empty()
    } else if ids.last()@ == id {
        without_id(ids.drop_last(), id)
    } else {
        without_id(ids.drop_last(), id).push(ids.last())
    }
}

/// The conversation `c` is `before` with the fields that `input` gives in
/// place of its own, changed at the time `now`.
pub open spec fn is_changed_conversation(
    c: Conversation,
    before: Conversation,
    input: UpdateConversationInput,
    now: i64,
) -> bool {
    &&& c.id == before.id
    &&& c.title == (match input.title {
        Some(v) => v,
        None => before.title,
    })
    &&& c.persona_id == (match input.persona_id {
        Some(v) => Some(v),
        None => before.persona_id,
    })
    &&& c.is_group == before.is_group
    &&& c.active_message_id == before.active_message_id
    &&& c.created_at == before.created_at
    &&& c.updated_at == now
    &&& c.deleted_at == before.deleted_at
    &&& c.characters == before.characters
    &&& c.lorebook_ids == before.lorebook_ids
}

/// The conversation `c` is `before` with other lorebooks attached.
pub open spec fn with_lorebooks(c: Conversation, before: Conversation, ids: Seq<String>) -> bool {
    &&& c.id == before.id
    &&& c.title == before.title
    &&& c.persona_id == before.persona_id
    &&& c.is_group == before.is_group
    &&& c.active_message_id == before.active_message_id
    &&& c.created_at == before.created_at
    &&& c.updated_at == before.updated_at
    &&& c.deleted_at == before.deleted_at
    &&& c.characters == before.characters
    &&& c.lorebook_ids@ == ids
}

/// The position of the conversation with the id `id` that is not deleted.
pub fn find_conversation(conversations: &Vec<Conversation>, id: &str) -> (found: Option<usize>)
    ensures
        match found {
            Some(at) => conversation_at(conversations@, id@, 0) == Some(at as int) && at
                < conversations@.len() && conversations@[at as int].id@ == id@
                && conversations@[at as int].deleted_at is None,
            None => conversation_at(conversations@, id@, 0) is None,
        },
{
    let mut i: usize = 0;
    while i < conversations.len()
        invariant
            i <= conversations.len(),
            conversation_at(conversations@, id@, 0) == conversation_at(conversations@, id@, i as int),
        decreases conversations.len() - i,
    {
        if conversations[i].deleted_at.is_none() && str_eq(conversations[i].id.as_str(), id) {
            return Some(i);
        }
        i += 1;
    }
    None
}

/// Tells whether one of the ids is `id`.
fn has_id(ids: &Vec<String>, id: &str) -> (found: bool)
    ensures
        found == holds_id(ids@, id@),
{
    let mut j: usize = 0;
    while j < ids.len()
        invariant
            j <= ids.len(),
            forall|k: int| 0 <= k < j ==> (#[trigger] ids@[k])@ != id@,
        decreases ids.len() - j,
    {
        if str_eq(ids[j].as_str(), id) {
            return true;
        }
        j += 1;
    }
    false
}

/// The ids without `id`.
fn drop_id(ids: Vec<String>, id: &str) -> (kept: Vec<String>)
    ensures
        kept@ == without_id(ids@, id@),
{
    let ghost all = ids@;
    let mut kept: Vec<String> = Vec::new();
    for item in it: ids
        invariant
            it.seq() == all,
            kept@ == without_id(all.take(it.index()), id@),
    {
        proof {
            let upto = all.take(it.index() + 1);
            assert(upto.drop_last() =~= all.take(it.index()));
            assert(upto.last() == item);
        }
        if !str_eq(item.as_str(), id) {
            kept.push(item);
        }
    }
    proof {
        assert(all.take(all.len() as int) =~= all);
    }
    kept
}

/// The unit that holds the operations on the stored conversations.
pub struct ConversationRepo;

impl ConversationRepo {
    /// The conversation with the id `id` that is not deleted.
    pub fn find_by_id(conversations: &Vec<Conversation>, id: &str) -> (result: AppResult<Conversation>)
        ensures
            match result {
                Ok(c) => conversation_at(conversations@, id@, 0) is Some && same_conversation(
                    c,
                    conversations@[conversation_at(conversations@, id@, 0)->0],
                ),
                Err(e) => conversation_at(conversations@, id@, 0) is None && e is NotFound,
            },
    {
        match find_conversation(conversations, id) {
            Some(at) => Ok(copy_conversation(&conversations[at])),
            None => Err(AppError::NotFound("Record not found".to_owned())),
        }
    }

    /// The conversations that are not deleted, in the order in which they
    /// are stored.
    pub fn find_all(conversations: &Vec<Conversation>) -> (found: Vec<Conversation>)
        ensures
            found@.len() == live_conversations(conversations@, conversations@.len() as int).len(),
            forall|k: int|
                0 <= k < found@.len() ==> same_conversation(
                    #[trigger] found@[k],
                    conversations@[live_conversations(conversations@, conversations@.len() as int)[k]],
                ),
    {
        let mut found: Vec<Conversation> = Vec::new();
        let mut i: usize = 0;
        while i < conversations.len()
            invariant
                i <= conversations.len(),
                found@.len() == live_conversations(conversations@, i as int).len(),
                forall|k: int|
                    0 <= k < found@.len() ==> same_conversation(
                        #[trigger] found@[k],
                        conversations@[live_conversations(conversations@, i as int)[k]],
                    ),
            decreases conversations.len() - i,
        {
            let ghost before = live_conversations(conversations@, i as int);
            let ghost had = found@;
            if conversations[i].deleted_at.is_none() {
                found.push(copy_conversation(&conversations[i]));
            }
            i += 1;
            proof {
                let after = live_conversations(conversations@, i as int);
                assert forall|k: int| 0 <= k < found@.len() implies same_conversation(
                    #[trigger] found@[k],
                    conversations@[after[k]],
                ) by {
                    if k < before.len() {
                        assert(after[k] == before[k]);
                        assert(found@[k] == had[k]);
                    } else {
                        assert(after[k] == i - 1);
                    }
                }
            }
        }
        found
    }

    /// Replaces the given fields of the conversation with the id `id` that
    /// is not deleted, and notes the time of the change.
    pub fn update(
        conversations: &mut Vec<Conversation>,
        id: &str,
        input: &UpdateConversationInput,
        now: i64,
    ) -> (result: AppResult<Conversation>)
        ensures
            final(conversations)@.len() == old(conversations)@.len(),
            match result {
                Ok(c) => conversation_at(old(conversations)@, id@, 0) is Some && ({
                    let at = conversation_at(old(conversations)@, id@, 0)->0;
                    &&& is_changed_conversation(
                        final(conversations)@[at],
                        old(conversations)@[at],
                        *input,
                        now,
                    )
                    &&& same_conversation(c, final(conversations)@[at])
                    &&& forall|i: int|
                        0 <= i < old(conversations)@.len() && i != at ==> #[trigger] final(conversations)@[i]
                            == old(conversations)@[i]
                }),
                Err(e) => conversation_at(old(conversations)@, id@, 0) is None && e is NotFound
                    && final(conversations)@ == old(conversations)@,
            },
    {
        match find_conversation(conversations, id) {
            Some(at) => {
                let mut c = conversations.remove(at);
                match &input.title {
                    Some(v) => {
                        c.title = v.clone();
                    },
                    None => {},
                }
                match &input.persona_id {
                    Some(v) => {
                        c.persona_id = Some(v.clone());
                    },
                    None => {},
                }
                c.updated_at = now;
                let copy = copy_conversation(&c);
                conversations.insert(at, c);
                Ok(copy)
            },
            None => Err(AppError::NotFound("Record not found".to_owned())),
        }
    }

    /// Points every conversation with the id `id` at the message
    /// `message_id`, and notes the time of the change.
    pub fn update_active_message(conversations: &mut Vec<Conversation>, id: &str, message_id: &str, now: i64)
        ensures
            final(conversations)@.len() == old(conversations)@.len(),
            forall|i: int|
                0 <= i < old(conversations)@.len() ==> (if (old(conversations)@[i]).id@ == id@ {
                    let c = #[trigger] final(conversations)@[i];
                    let before = old(conversations)@[i];
                    &&& opt_text(c.active_message_id) == Some(message_id@)
                    &&& c.updated_at == now
                    &&& c.id == before.id
                    &&& c.title == before.title
                    &&& c.persona_id == before.persona_id
                    &&& c.is_group == before.is_group
                    &&& c.created_at == before.created_at
                    &&& c.deleted_at == before.deleted_at
                    &&& c.characters == before.characters
                    &&& c.lorebook_ids == before.lorebook_ids
                } else {
                    #[trigger] final(conversations)@[i] == old(conversations)@[i]
                }),
    {
        let mut i: usize = 0;
        while i < conversations.len()
            invariant
                i <= conversations.len(),
                conversations@.len() == old(conversations)@.len(),
                forall|j: int|
                    0 <= j < i ==> (if (old(conversations)@[j]).id@ == id@ {
                        let c = #[trigger] conversations@[j];
                        let before = old(conversations)@[j];
                        &&& opt_text(c.active_message_id) == Some(message_id@)
                        &&& c.updated_at == now
                        &&& c.id == before.id
                        &&& c.title == before.title
                        &&& c.persona_id == before.persona_id
                        &&& c.is_group == before.is_group
                        &&& c.created_at == before.created_at
                        &&& c.deleted_at == before.deleted_at
                        &&& c.characters == before.characters
                        &&& c.lorebook_ids == before.lorebook_ids
                    } else {
                        #[trigger] conversations@[j] == old(conversations)@[j]
                    }),
                forall|j: int| i <= j < conversations@.len() ==> conversations@[j] == old(conversations)@[j],
            decreases conversations.len() - i,
        {
            if str_eq(conversations[i].id.as_str(), id) {
                let mut c = conversations.remove(i);
                c.active_message_id = Some(message_id.to_owned());
                c.updated_at = now;
                conversations.insert(i, c);
            }
            i += 1;
        }
    }

    /// Marks every conversation with the id `id` as deleted at the time
    /// `now`. A conversation that is deleted already keeps its marker.
    pub fn delete(conversations: &mut Vec<Conversation>, id: &str, now: i64)
        ensures
            final(conversations)@.len() == old(conversations)@.len(),
            forall|i: int|
                0 <= i < old(conversations)@.len() ==> #[trigger] final(conversations)@[i] == (if (
                old(conversations)@[i]).id@ == id@ {
                    Conversation { deleted_at: marker(old(conversations)@[i].deleted_at, now), ..old(conversations)@[i] }
                } else {
                    old(conversations)@[i]
                }),
    {
        let mut i: usize = 0;
        while i < conversations.len()
            invariant
                i <= conversations.len(),
                conversations@.len() == old(conversations)@.len(),
                forall|j: int|
                    0 <= j < i ==> #[trigger] conversations@[j] == (if (old(conversations)@[j]).id@
                        == id@ {
                        Conversation { deleted_at: marker(old(conversations)@[j].deleted_at, now), ..old(conversations)@[j] }
                    } else {
                        old(conversations)@[j]
                    }),
                forall|j: int| i <= j < conversations@.len() ==> conversations@[j] == old(conversations)@[j],
            decreases conversations.len() - i,
        {
            if str_eq(conversations[i].id.as_str(), id) {
                let mut c = conversations.remove(i);
                c.deleted_at = mark_deleted(c.deleted_at, now);
                conversations.insert(i, c);
            }
            i += 1;
        }
    }

    /// Attaches the lorebook `lorebook_id` to every conversation with the
    /// id `conversation_id` that does not have it yet.
    pub fn attach_lorebook(conversations: &mut Vec<Conversation>, conversation_id: &str, lorebook_id: &str)
        ensures
            final(conversations)@.len() == old(conversations)@.len(),
            forall|i: int|
                0 <= i < old(conversations)@.len() ==> ({
                    let before = old(conversations)@[i];
                    if before.id@ == conversation_id@ && !holds_id(before.lorebook_ids@, lorebook_id@) {
                        &&& with_lorebooks(
                            #[trigger] final(conversations)@[i],
                            before,
                            final(conversations)@[i].lorebook_ids@,
                        )
                        &&& final(conversations)@[i].lorebook_ids@.drop_last() == before.lorebook_ids@
                        &&& final(conversations)@[i].lorebook_ids@.last()@ == lorebook_id@
                    } else {
                        #[trigger] final(conversations)@[i] == before
                    }
                }),
    {
        let mut i: usize = 0;
        while i < conversations.len()
            invariant
                i <= conversations.len(),
                conversations@.len() == old(conversations)@.len(),
                forall|j: int|
                    0 <= j < i ==> ({
                        let before = old(conversations)@[j];
                        if before.id@ == conversation_id@ && !holds_id(
                            before.lorebook_ids@,
                            lorebook_id@,
                        ) {
                            &&& with_lorebooks(
                                #[trigger] conversations@[j],
                                before,
                                conversations@[j].lorebook_ids@,
                            )
                            &&& conversations@[j].lorebook_ids@.drop_last() == before.lorebook_ids@
                            &&& conversations@[j].lorebook_ids@.last()@ == lorebook_id@
                        } else {
                            #[trigger] conversations@[j] == before
                        }
                    }),
                forall|j: int| i <= j < conversations@.len() ==> conversations@[j] == old(conversations)@[j],
            decreases conversations.len() - i,
        {
            if str_eq(conversations[i].id.as_str(), conversation_id) && !has_id(
                &conversations[i].lorebook_ids,
                lorebook_id,
            ) {
                let mut c = conversations.remove(i);
                let ghost had = c.lorebook_ids@;
                c.lorebook_ids.push(lorebook_id.to_owned());
                assert(c.lorebook_ids@.drop_last() =~= had);
                conversations.insert(i, c);
            }
            i += 1;
        }
    }

    /// Detaches the lorebook `lorebook_id` from every conversation with the
    /// id `conversation_id`.
    pub fn detach_lorebook(conversations: &mut Vec<Conversation>, conversation_id: &str, lorebook_id: &str)
        ensures
            final(conversations)@.len() == old(conversations)@.len(),
            forall|i: int|
                0 <= i < old(conversations)@.len() ==> ({
                    let before = old(conversations)@[i];
                    if before.id@ == conversation_id@ {
                        with_lorebooks(
                            #[trigger] final(conversations)@[i],
                            before,
                            without_id(before.lorebook_ids@, lorebook_id@),
                        )
                    } else {
                        #[trigger] final(conversations)@[i] == before
                    }
                }),
    {
        let mut i: usize = 0;
        while i < conversations.len()
            invariant
                i <= conversations.len(),
                conversations@.len() == old(conversations)@.len(),
                forall|j: int|
                    0 <= j < i ==> ({
                        let before = old(conversations)@[j];
                        if before.id@ == conversation_id@ {
                            with_lorebooks(
                                #[trigger] conversations@[j],
                                before,
                                without_id(before.lorebook_ids@, lorebook_id@),
                            )
                        } else {
                            #[trigger] conversations@[j] == before
                        }
                    }),
                forall|j: int| i <= j < conversations@.len() ==> conversations@[j] == old(conversations)@[j],
            decreases conversations.len() - i,
        {
            if str_eq(conversations[i].id.as_str(), conversation_id) {
                let c = conversations.remove(i);
                let kept = Conversation {
                    id: c.id,
                    title: c.title,
                    persona_id: c.persona_id,
                    is_group: c.is_group,
                    active_message_id: c.active_message_id,
                    created_at: c.created_at,
                    updated_at: c.updated_at,
                    deleted_at: c.deleted_at,
                    characters: c.characters,
                    lorebook_ids: drop_id(c.lorebook_ids, lorebook_id),
                };
                conversations.insert(i, kept);
            }
            i += 1;
        }
    }

    /// The first conversation with the character `character_id` alone that
    /// is not deleted.
    pub fn find_by_single_character(conversations: &Vec<Conversation>, character_id: &str) -> (found:
        Option<Conversation>)
        ensures
            match found {
                Some(c) => alone_with_at(conversations@, character_id@, 0) is Some && same_conversation(
                    c,
                    conversations@[alone_with_at(conversations@, character_id@, 0)->0],
                ),
                None => alone_with_at(conversations@, character_id@, 0) is None,
            },
    {
        let mut i: usize = 0;
        while i < conversations.len()
            invariant
                i <= conversations.len(),
                alone_with_at(conversations@, character_id@, 0) == alone_with_at(
                    conversations@,
                    character_id@,
                    i as int,
                ),
            decreases conversations.len() - i,
        {
            let c = &conversations[i];
            if c.deleted_at.is_none() && c.characters.len() == 1 && str_eq(
                c.characters[0].id.as_str(),
                character_id,
            ) {
                return Some(copy_conversation(c));
            }
            i += 1;
        }
        None
    }
}

/// The number of siblings that is noted for the message `m`: the number of
/// messages of the conversation that have its parent, itself among them, as
/// far as 32 bits hold it; and 0 for a message of another conversation.
pub open spec fn noted_count(msgs: Seq<Message>, m: Message, conversation: Seq<char>) -> int {
    if m.conversation_id@ != conversation {
        0
    } else if sibling_count_of(msgs, m, conversation, msgs.len() as int) > i32::MAX {
        i32::MAX as int
    } else {
        sibling_count_of(msgs, m, conversation, msgs.len() as int)
    }
}

impl MessageRepo {
    /// The number of siblings of every message of the conversation, in one
    /// pass over its groups: the result holds, for each message, the size of
    /// the group of messages with its parent; the roots are one group.
    pub fn count_all_siblings(msgs: &Vec<Message>, conversation_id: &str) -> (counts: Vec<i32>)
        ensures
            counts@.len() == msgs@.len(),
            forall|i: int|
                0 <= i < msgs@.len() ==> #[trigger] counts@[i] == noted_count(
                    msgs@,
                    msgs@[i],
                    conversation_id@,
                ),
    {
        let mut counts: Vec<i32> = Vec::new();
        let mut k: usize = 0;
        while k < msgs.len()
            invariant
                k <= msgs.len(),
                counts@.len() == k,
                forall|i: int|
                    0 <= i < k ==> #[trigger] counts@[i] == noted_count(
                        msgs@,
                        msgs@[i],
                        conversation_id@,
                    ),
            decreases msgs.len() - k,
        {
            let m = &msgs[k];
            if !str_eq(m.conversation_id.as_str(), conversation_id) {
                counts.push(0);
            } else {
                let mut count: usize = 0;
                let mut i: usize = 0;
                while i < msgs.len()
                    invariant
                        i <= msgs.len(),
                        count <= i,
                        count == sibling_count_of(msgs@, *m, conversation_id@, i as int),
                    decreases msgs.len() - i,
                {
                    if str_eq(msgs[i].conversation_id.as_str(), conversation_id) && crate::text::opt_eq(
                        &msgs[i].parent_id,
                        &m.parent_id,
                    ) {
                        count += 1;
                    }
                    i += 1;
                }
                counts.push(
                    if count > 0x7fff_ffff {
                        i32::MAX
                    } else {
                        count as i32
                    },
                );
            }
            k += 1;
        }
        counts
    }
}

/// The messages without those of the conversation `conversation`.
pub open spec fn without_messages_of(msgs: Seq<Message>, conversation: Seq<char>) -> Seq<Message>
    decreases msgs.len(),
{
    if msgs.len() == 0 {
        Seq::empty()
    } else if msgs.last().conversation_id@ == conversation {
        without_messages_of(msgs.drop_last(), conversation)
    } else {
        without_messages_of(msgs.drop_last(), conversation).push(msgs.last())
    }
}

/// The unit that holds the operations on conversations.
pub struct ConversationService;

impl ConversationService {
    /// Creates a conversation with the characters that the input names,
    /// in their order. The conversation is a group where it has more than
    /// one character. Where the first character has a first message, that
    /// message becomes the first, active message of the conversation, and the
    /// conversation points at it.
    pub fn create(
        characters: &Vec<Character>,
        personas: &Vec<Persona>,
        input: &CreateConversationInput,
        conversation_id: String,
        message_id: String,
        now: i64,
    ) -> (result: AppResult<(Conversation, Option<Message>)>)
        ensures
            match result {
                Ok((c, first)) => create_refusal(characters@, personas@, *input) is None && c.id
                    == conversation_id && c.characters@.len() == input.character_ids@.len() && (
                forall|k: int|
                    0 <= k < c.characters@.len() ==> same_character(
                        #[trigger] c.characters@[k],
                        characters@[character_at(characters@, input.character_ids@[k]@, 0)->0],
                    )) && c.title@ == title_text(input.title, c.characters@) && c.is_group == (
                input.character_ids@.len() > 1) && opt_text(c.persona_id) == (match input.persona_id {
                    Some(id) => Some(id@),
                    None => match default_at(personas@, 0) {
                        Some(at) => Some(personas@[at].id@),
                        None => None,
                    },
                }) && c.created_at == now && c.updated_at == now && c.deleted_at is None
                    && c.lorebook_ids@.len() == 0 && (match first {
                    Some(m) => c.characters@[0].first_message@.len() > 0 && first_message_is(
                        m,
                        c.characters@[0],
                        conversation_id@,
                        message_id@,
                        now,
                    ) && opt_text(c.active_message_id) == Some(message_id@),
                    None => c.characters@[0].first_message@.len() == 0 && c.active_message_id
                        is None,
                }),
                Err(e) => create_refusal(characters@, personas@, *input) == Some(e.kind_of()),
            },
    {
        if input.character_ids.len() == 0 {
            return Err(AppError::Validation("At least one character is required".to_owned()));
        }
        let mut linked: Vec<Character> = Vec::new();
        let mut k: usize = 0;
        while k < input.character_ids.len()
            invariant
                k <= input.character_ids.len(),
                linked@.len() == k,
                all_found(characters@, input.character_ids@, k as int),
                forall|j: int|
                    0 <= j < k ==> same_character(
                        #[trigger] linked@[j],
                        characters@[character_at(characters@, input.character_ids@[j]@, 0)->0],
                    ),
            decreases input.character_ids.len() - k,
        {
            match find_character(characters, input.character_ids[k].as_str()) {
                Some(at) => {
                    linked.push(copy_character(&characters[at]));
                },
                None => {
                    return Err(AppError::NotFound("Record not found".to_owned()));
                },
            }
            k += 1;
        }
        let persona_id = match &input.persona_id {
            Some(id) => {
                match crate::personas::find_persona(personas, id.as_str()) {
                    Some(_) => Some(id.clone()),
                    None => {
                        return Err(AppError::NotFound("Record not found".to_owned()));
                    },
                }
            },
            None => match PersonaRepo::find_default(personas) {
                Some(p) => Some(p.id),
                None => None,
            },
        };
        let title = match &input.title {
            Some(t) => t.clone(),
            None => {
                if linked.len() == 1 {
                    let mut t = "Chat with ".to_owned();
                    t.append(linked[0].name.as_str());
                    t
                } else {
                    "Group Chat".to_owned()
                }
            },
        };
        let is_group = input.character_ids.len() > 1;
        let first = &linked[0];
        let message = if first.first_message.as_str().unicode_len() > 0 {
            Some(
                Message {
                    id: message_id.clone(),
                    conversation_id: conversation_id.clone(),
                    parent_id: None,
                    author_type: AuthorType::Character,
                    author_id: Some(first.id.clone()),
                    content: first.first_message.clone(),
                    is_active_branch: true,
                    branch_index: 0,
                    token_count: estimate_tokens(first.first_message.as_str()),
                    created_at: now,
                    author_name: Some(first.name.clone()),
                    sibling_count: None,
                },
            )
        } else {
            None
        };
        let active_message_id = if message.is_some() {
            Some(message_id)
        } else {
            None
        };
        Ok(
            (
                Conversation {
                    id: conversation_id,
                    title,
                    persona_id,
                    is_group,
                    active_message_id,
                    created_at: now,
                    updated_at: now,
                    deleted_at: None,
                    characters: linked,
                    lorebook_ids: Vec::new(),
                },
                message,
            ),
        )
    }

    /// Clears a conversation: every message of it is removed, and it points
    /// at no message any more. The messages of other conversations stay, in
    /// their order.
    pub fn clear_messages(msgs: &mut Vec<Message>, conversation: &mut Conversation, now: i64)
        ensures
            final(msgs)@ == without_messages_of(old(msgs)@, old(conversation).id@),
            crate::message_service::repointed(*old(conversation), *final(conversation), None, now),
    {
        let all = msgs.split_off(0);
        let ghost before = all@;
        assert(before =~= old(msgs)@);
        assert(msgs@ =~= Seq::<Message>::empty());
        for message in it: all
            invariant
                it.seq() == before,
                *conversation == *old(conversation),
                msgs@ == without_messages_of(before.take(it.index()), conversation.id@),
        {
            proof {
                let upto = before.take(it.index() + 1);
                assert(upto.drop_last() =~= before.take(it.index()));
                assert(upto.last() == message);
            }
            if !str_eq(message.conversation_id.as_str(), conversation.id.as_str()) {
                msgs.push(message);
            }
        }
        proof {
            assert(before.take(before.len() as int) =~= before);
        }
        conversation.active_message_id = None;
        conversation.updated_at = now;
    }

    /// Checks an update of a conversation: a new title must not be blank.
    pub fn update(input: &UpdateConversationInput) -> (result: AppResult<()>)
        ensures
            match result {
                Ok(_) => input.title is Some ==> !is_blank_text(input.title->0@),
                Err(e) => input.title is Some && is_blank_text(input.title->0@) && e is Validation,
            },
    {
        match &input.title {
            Some(title) => {
                if crate::strings::is_blank(title.as_str()) {
                    return Err(AppError::Validation("Title cannot be empty".to_owned()));
                }
            },
            None => {},
        }
        Ok(())
    }

    /// The active chain of a conversation, each message with the number of
    /// its siblings: the messages of the conversation that have its parent,
    /// itself among them.
    pub fn get_messages(msgs: &Vec<Message>, conversation_id: &str) -> (chain: Vec<Message>)
        ensures
            chain@.len() == crate::messages::active_branch(
                msgs@,
                conversation_id@,
                msgs@.len() as int,
            ).len(),
            forall|k: int|
                0 <= k < chain@.len() ==> ({
                    let m = crate::messages::active_branch(
                        msgs@,
                        conversation_id@,
                        msgs@.len() as int,
                    )[k];
                    &&& (#[trigger] chain@[k]) == (Message {
                        sibling_count: chain@[k].sibling_count,
                        ..m
                    })
                    &&& chain@[k].sibling_count is Some
                    &&& chain@[k].sibling_count->0 == (if sibling_count_of(
                        msgs@,
                        m,
                        conversation_id@,
                        msgs@.len() as int,
                    ) > i32::MAX {
                        i32::MAX as int
                    } else {
                        sibling_count_of(msgs@, m, conversation_id@, msgs@.len() as int)
                    })
                }),
    {
        let active = MessageRepo::find_active_branch(msgs, conversation_id);
        let mut chain: Vec<Message> = Vec::new();
        let mut k: usize = 0;
        while k < active.len()
            invariant
                k <= active.len(),
                active@ == crate::messages::active_branch(
                    msgs@,
                    conversation_id@,
                    msgs@.len() as int,
                ),
                chain@.len() == k,
                forall|j: int|
                    0 <= j < k ==> ({
                        let m = active@[j];
                        &&& (#[trigger] chain@[j]) == (Message {
                            sibling_count: chain@[j].sibling_count,
                            ..m
                        })
                        &&& chain@[j].sibling_count is Some
                        &&& chain@[j].sibling_count->0 == (if sibling_count_of(
                            msgs@,
                            m,
                            conversation_id@,
                            msgs@.len() as int,
                        ) > i32::MAX {
                            i32::MAX as int
                        } else {
                            sibling_count_of(msgs@, m, conversation_id@, msgs@.len() as int)
                        })
                    }),
            decreases active.len() - k,
        {
            let m = &active[k];
            let mut count: usize = 0;
            let mut i: usize = 0;
            while i < msgs.len()
                invariant
                    i <= msgs.len(),
                    count <= i,
                    count == sibling_count_of(msgs@, *m, conversation_id@, i as int),
                decreases msgs.len() - i,
            {
                if str_eq(msgs[i].conversation_id.as_str(), conversation_id) && crate::text::opt_eq(
                    &msgs[i].parent_id,
                    &m.parent_id,
                ) {
                    count += 1;
                }
                i += 1;
            }
            let mut copy = m.copy();
            copy.sibling_count = Some(
                if count > 0x7fff_ffff {
                    i32::MAX
                } else {
                    count as i32
                },
            );
            chain.push(copy);
            k += 1;
        }
        chain
    }
}

impl LorebookService {
    /// Attaches a lorebook to a conversation. Both must be there and not
    /// deleted.
    pub fn attach_to_conversation(
        conversations: &mut Vec<Conversation>,
        books: &Vec<Lorebook>,
        conversation_id: &str,
        lorebook_id: &str,
    ) -> (result: AppResult<()>)
        ensures
            final(conversations)@.len() == old(conversations)@.len(),
            match result {
                Ok(_) => conversation_at(old(conversations)@, conversation_id@, 0) is Some && book_at(
                    books@,
                    lorebook_id@,
                    0,
                ) is Some && forall|i: int|
                    0 <= i < old(conversations)@.len() ==> ({
                        let before = old(conversations)@[i];
                        if before.id@ == conversation_id@ && !holds_id(
                            before.lorebook_ids@,
                            lorebook_id@,
                        ) {
                            &&& with_lorebooks(
                                #[trigger] final(conversations)@[i],
                                before,
                                final(conversations)@[i].lorebook_ids@,
                            )
                            &&& final(conversations)@[i].lorebook_ids@.drop_last()
                                == before.lorebook_ids@
                            &&& final(conversations)@[i].lorebook_ids@.last()@ == lorebook_id@
                        } else {
                            #[trigger] final(conversations)@[i] == before
                        }
                    }),
                Err(e) => e is NotFound && (conversation_at(old(conversations)@, conversation_id@, 0)
                    is None || book_at(books@, lorebook_id@, 0) is None) && final(conversations)@
                    == old(conversations)@,
            },
    {
        if find_conversation(conversations, conversation_id).is_none() {
            return Err(AppError::NotFound("Record not found".to_owned()));
        }
        if find_book(books, lorebook_id).is_none() {
            return Err(AppError::NotFound("Record not found".to_owned()));
        }
        ConversationRepo::attach_lorebook(conversations, conversation_id, lorebook_id);
        Ok(())
    }
}

impl ExportService {
    /// Puts a conversation into the envelope of an export: the
    /// conversation, its active chain, and its persona where it names one
    /// that is there. `exported_at` is the time of the export as text.
    pub fn export_conversation(
        conversations: &Vec<Conversation>,
        msgs: &Vec<Message>,
        personas: &Vec<Persona>,
        id: &str,
        exported_at: String,
    ) -> (result: AppResult<ExportedConversation>)
        ensures
            match result {
                Ok(e) => conversation_at(conversations@, id@, 0) is Some && ({
                    let c = conversations@[conversation_at(conversations@, id@, 0)->0];
                    &&& e.glee_export_version@ == "1.0"@
                    &&& e.export_type@ == "conversation"@
                    &&& e.exported_at == exported_at
                    &&& same_conversation(e.conversation, c)
                    &&& e.messages@ == crate::messages::active_branch(msgs@, id@, msgs@.len() as int)
                    &&& e.persona == (match c.persona_id {
                        Some(pid) => match persona_at(personas@, pid@, 0) {
                            Some(at) => Some(personas@[at]),
                            None => None,
                        },
                        None => None,
                    })
                }),
                Err(e) => conversation_at(conversations@, id@, 0) is None && e is NotFound,
            },
    {
        let conversation = match ConversationRepo::find_by_id(conversations, id) {
            Ok(c) => c,
            Err(e) => {
                return Err(e);
            },
        };
        let messages = MessageRepo::find_active_branch(msgs, id);
        let persona = match &conversation.persona_id {
            Some(pid) => match PersonaRepo::find_by_id(personas, pid.as_str()) {
                Ok(p) => Some(p),
                Err(_) => None,
            },
            None => None,
        };
        Ok(
            ExportedConversation {
                glee_export_version: "1.0".to_owned(),
                export_type: "conversation".to_owned(),
                exported_at,
                conversation,
                messages,
                persona,
            },
        )
    }
}

} // verus!
