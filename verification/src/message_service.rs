//! Sending, regenerating, editing and deleting messages: each changes the
//! message graph, moves the conversation's pointer to the active message, and
//! may enter a generation task into the queue.

use vstd::prelude::*;
use crate::entities::{AuthorType, Conversation, Message, QueueStatus, QueueTask};
use crate::error::{AppError, AppResult, ErrorKind};
use crate::messages::{
    deactivated, deepest_active, find_message, group_positions, next_branch_index, position,
    switched, without_subtree, MessageRepo,
};
use crate::queue::{find_task, has_task, lemma_processing_count_push, processing_count, QueueRepo};
use crate::state::AppState;
use crate::strings::{is_blank_text, trim_text, trimmed_text};
use crate::text::{clone_opt, opt_text, str_eq};
use crate::tokens::{estimate_tokens, estimated_tokens};
use vstd::string::StrSliceExecFns;

verus! {

/// The task `t` asks for a generation in `conversation` below the message
/// `parent`, by the character `target`: it is pending, of priority 0, created
/// at `now`, neither started nor completed.
pub open spec fn generation_task_is(
    t: QueueTask,
    id: Seq<char>,
    conversation: Seq<char>,
    parent: Option<Seq<char>>,
    target: Option<Seq<char>>,
    now: i64,
) -> bool {
    &&& t.id@ == id
    &&& t.conversation_id@ == conversation
    &&& opt_text(t.parent_message_id) == parent
    &&& opt_text(t.target_character_id) == target
    &&& t.status == QueueStatus::Pending
    &&& t.priority == 0
    &&& t.created_at == now
    &&& t.started_at is None
    &&& t.completed_at is None
    &&& t.error_message is None
}

/// The id of the first character of a conversation.
pub open spec fn first_character_id(conversation: Conversation) -> Option<Seq<char>> {
    if conversation.characters@.len() > 0 {
        Some(conversation.characters@[0].id@)
    } else {
        None
    }
}

/// The message `m` is what the user sent into `conversation`: a child of
/// the conversation's active message, active itself, with the trimmed text
/// and its token estimate.
pub open spec fn user_message_is(
    m: Message,
    before: Seq<Message>,
    conversation: Conversation,
    content: Seq<char>,
    id: Seq<char>,
    now: i64,
) -> bool {
    &&& m.id@ == id
    &&& m.conversation_id@ == conversation.id@
    &&& opt_text(m.parent_id) == opt_text(conversation.active_message_id)
    &&& m.author_type == AuthorType::User
    &&& m.author_id is None
    &&& m.content@ == trimmed_text(content)
    &&& m.is_active_branch
    &&& m.branch_index == next_branch_index(
        before,
        opt_text(conversation.active_message_id),
        conversation.id@,
    )
    &&& m.token_count == estimated_tokens(trimmed_text(content))
    &&& m.created_at == now
    &&& m.author_name is None
    &&& m.sibling_count is None
}

/// Why a message cannot be sent, if it cannot: an empty text is invalid, the
/// conversation must be the one named, and the new ids must be new.
pub open spec fn send_refusal(
    msgs: Seq<Message>,
    conversation: Conversation,
    tasks: Seq<QueueTask>,
    conversation_id: Seq<char>,
    content: Seq<char>,
    message_id: Seq<char>,
    task_id: Seq<char>,
) -> Option<ErrorKind> {
    if is_blank_text(content) {
        Some(ErrorKind::Validation)
    } else if conversation.id@ != conversation_id {
        Some(ErrorKind::NotFound)
    } else if position(msgs, message_id) is Some || has_task(tasks, task_id) {
        Some(ErrorKind::Database)
    } else {
        None
    }
}

/// The conversation `after` is `before` with its active message set to
/// `active` at the time `now`.
pub open spec fn repointed(
    before: Conversation,
    after: Conversation,
    active: Option<Seq<char>>,
    now: i64,
) -> bool {
    &&& after.id == before.id
    &&& after.title == before.title
    &&& after.persona_id == before.persona_id
    &&& after.is_group == before.is_group
    &&& opt_text(after.active_message_id) == active
    &&& after.created_at == before.created_at
    &&& after.updated_at == now
    &&& after.deleted_at == before.deleted_at
    &&& after.characters == before.characters
    &&& after.lorebook_ids == before.lorebook_ids
}

/// A task that asks for a generation.
fn generation_task(
    id: String,
    conversation_id: &str,
    parent: Option<String>,
    target: Option<String>,
    now: i64,
) -> (task: QueueTask)
    ensures
        generation_task_is(
            task,
            id@,
            conversation_id@,
            opt_text(parent),
            opt_text(target),
            now,
        ),
        task.id == id,
{
    QueueTask {
        id,
        conversation_id: conversation_id.to_owned(),
        parent_message_id: parent,
        target_character_id: target,
        status: QueueStatus::Pending,
        priority: 0,
        created_at: now,
        started_at: None,
        completed_at: None,
        error_message: None,
    }
}

/// The id of the first character of a conversation.
fn first_character(conversation: &Conversation) -> (id: Option<String>)
    ensures
        opt_text(id) == first_character_id(*conversation),
{
    if conversation.characters.len() > 0 {
        Some(conversation.characters[0].id.clone())
    } else {
        None
    }
}

/// The unit that holds the operations on messages.
pub struct MessageService;

impl MessageService {
    /// Tells whether the shell may send a message into the conversation now:
    /// not while no model is loaded, and not while a response for this
    /// conversation is being generated.
    pub fn may_send(state: &AppState, conversation_id: &str) -> (result: AppResult<()>)
        ensures
            match result {
                Ok(_) => state.model_loaded && !(state.generating is Some
                    && state.generating->0.conversation_id@ == conversation_id@),
                Err(e) => if !state.model_loaded {
                    e is Sidecar && e.detail() == "Model not loaded. Please load a model first."@
                } else {
                    e is Validation && state.generating is Some
                        && state.generating->0.conversation_id@ == conversation_id@
                },
            },
    {
        if !state.is_model_loaded() {
            return Err(AppError::Sidecar("Model not loaded. Please load a model first.".to_owned()));
        }
        if state.cancel_conversation_generation(conversation_id) {
            return Err(
                AppError::Validation(
                    "Already generating a response for this conversation".to_owned(),
                ),
            );
        }
        Ok(())
    }

    /// Tells whether the shell may ask for another response now: not while
    /// no model is loaded.
    pub fn may_regenerate(state: &AppState) -> (result: AppResult<()>)
        ensures
            match result {
                Ok(_) => state.model_loaded,
                Err(e) => !state.model_loaded && e is Sidecar && e.detail() == "Model not loaded"@,
            },
    {
        if !state.is_model_loaded() {
            return Err(AppError::Sidecar("Model not loaded".to_owned()));
        }
        Ok(())
    }

    /// Sends a message of the user into the conversation: the trimmed text
    /// becomes a new active child of the conversation's active message, the
    /// conversation points at it, and a generation task for the first
    /// character enters the queue. An empty or blank text is refused as
    /// invalid, and then nothing changes.
    pub fn send_user_message(
        msgs: &mut Vec<Message>,
        conversation: &mut Conversation,
        tasks: &mut Vec<QueueTask>,
        conversation_id: &str,
        content: &str,
        message_id: String,
        task_id: String,
        now: i64,
    ) -> (result: AppResult<(Message, QueueTask)>)
        ensures
            match result {
                Ok((m, t)) => send_refusal(
                    old(msgs)@,
                    *old(conversation),
                    old(tasks)@,
                    conversation_id@,
                    content@,
                    message_id@,
                    task_id@,
                ) is None && user_message_is(
                    m,
                    old(msgs)@,
                    *old(conversation),
                    content@,
                    message_id@,
                    now,
                ) && final(msgs)@ == old(msgs)@.push(m) && repointed(
                    *old(conversation),
                    *final(conversation),
                    Some(message_id@),
                    now,
                ) && generation_task_is(
                    t,
                    task_id@,
                    conversation_id@,
                    Some(message_id@),
                    first_character_id(*old(conversation)),
                    now,
                ) && final(tasks)@ == old(tasks)@.push(t),
                Err(e) => send_refusal(
                    old(msgs)@,
                    *old(conversation),
                    old(tasks)@,
                    conversation_id@,
                    content@,
                    message_id@,
                    task_id@,
                ) == Some(e.kind_of()) && final(msgs)@ == old(msgs)@ && *final(conversation)
                    == *old(conversation) && final(tasks)@ == old(tasks)@,
            },
            processing_count(final(tasks)@) == processing_count(old(tasks)@),
    {
        let text = trim_text(content);
        if text.as_str().unicode_len() == 0 {
            return Err(AppError::Validation("Empty message".to_owned()));
        }
        if !str_eq(conversation.id.as_str(), conversation_id) {
            return Err(AppError::NotFound("Record not found".to_owned()));
        }
        if find_message(msgs, message_id.as_str()).is_some() {
            return Err(AppError::Database("UNIQUE constraint failed: messages.id".to_owned()));
        }
        if find_task(tasks, task_id.as_str()).is_some() {
            return Err(AppError::Database("UNIQUE constraint failed: message_queue.id".to_owned()));
        }
        let parent: Option<&str> = match &conversation.active_message_id {
            Some(id) => Some(id.as_str()),
            None => None,
        };
        let branch_index = MessageRepo::get_next_branch_index(msgs, parent, conversation_id);
        let token_count = estimate_tokens(text.as_str());
        let message = Message {
            id: message_id.clone(),
            conversation_id: conversation_id.to_owned(),
            parent_id: clone_opt(&conversation.active_message_id),
            author_type: AuthorType::User,
            author_id: None,
            content: text,
            is_active_branch: true,
            branch_index,
            token_count,
            created_at: now,
            author_name: None,
            sibling_count: None,
        };
        let saved = message.copy();
        msgs.push(message);
        let task = generation_task(
            task_id,
            conversation_id,
            Some(message_id.clone()),
            first_character(conversation),
            now,
        );
        let queued = task.copy();
        proof {
            lemma_processing_count_push(tasks@, task);
        }
        tasks.push(task);
        conversation.active_message_id = Some(message_id);
        conversation.updated_at = now;
        Ok((saved, queued))
    }

    /// Why a message cannot be regenerated, if it cannot: it must be there,
    /// it must be a character's message, and the id of the task must be new.
    pub open spec fn regenerate_refusal(
        msgs: Seq<Message>,
        tasks: Seq<QueueTask>,
        message_id: Seq<char>,
        task_id: Seq<char>,
    ) -> Option<ErrorKind> {
        match position(msgs, message_id) {
            None => Some(ErrorKind::NotFound),
            Some(at) => if msgs[at].author_type != AuthorType::Character {
                Some(ErrorKind::Validation)
            } else if has_task(tasks, task_id) {
                Some(ErrorKind::Database)
            } else {
                None
            },
        }
    }

    /// Regenerates a character's message: the message and its subtree
    /// become inactive, a generation task for a new sibling enters the queue,
    /// and the conversation points at the message's parent, where it has one.
    /// A message that no character wrote is refused as invalid, and then
    /// nothing changes.
    pub fn regenerate_message(
        msgs: &mut Vec<Message>,
        conversation: &mut Conversation,
        tasks: &mut Vec<QueueTask>,
        message_id: &str,
        task_id: String,
        now: i64,
    ) -> (result: AppResult<QueueTask>)
        ensures
            match result {
                Ok(t) => MessageService::regenerate_refusal(
                    old(msgs)@,
                    old(tasks)@,
                    message_id@,
                    task_id@,
                ) is None && final(msgs)@ == deactivated(
                    old(msgs)@,
                    position(old(msgs)@, message_id@)->0,
                ) && generation_task_is(
                    t,
                    task_id@,
                    old(msgs)@[position(old(msgs)@, message_id@)->0].conversation_id@,
                    opt_text(old(msgs)@[position(old(msgs)@, message_id@)->0].parent_id),
                    opt_text(old(msgs)@[position(old(msgs)@, message_id@)->0].author_id),
                    now,
                ) && final(tasks)@ == old(tasks)@.push(t) && (match old(msgs)@[position(
                    old(msgs)@,
                    message_id@,
                )->0].parent_id {
                    Some(parent) => repointed(
                        *old(conversation),
                        *final(conversation),
                        Some(parent@),
                        now,
                    ),
                    None => *final(conversation) == *old(conversation),
                }),
                Err(e) => MessageService::regenerate_refusal(
                    old(msgs)@,
                    old(tasks)@,
                    message_id@,
                    task_id@,
                ) == Some(e.kind_of()) && final(msgs)@ == old(msgs)@ && *final(conversation)
                    == *old(conversation) && final(tasks)@ == old(tasks)@,
            },
            processing_count(final(tasks)@) == processing_count(old(tasks)@),
    {
        let at = match find_message(msgs, message_id) {
            Some(at) => at,
            None => {
                return Err(AppError::NotFound("Record not found".to_owned()));
            },
        };
        match msgs[at].author_type {
            AuthorType::Character => {},
            _ => {
                return Err(
                    AppError::Validation("Can only regenerate character messages".to_owned()),
                );
            },
        }
        if find_task(tasks, task_id.as_str()).is_some() {
            return Err(AppError::Database("UNIQUE constraint failed: message_queue.id".to_owned()));
        }
        let parent = clone_opt(&msgs[at].parent_id);
        let task = generation_task(
            task_id,
            msgs[at].conversation_id.as_str(),
            clone_opt(&msgs[at].parent_id),
            clone_opt(&msgs[at].author_id),
            now,
        );
        MessageRepo::deactivate_subtree(msgs, message_id);
        let queued = task.copy();
        proof {
            lemma_processing_count_push(tasks@, task);
        }
        tasks.push(task);
        match parent {
            Some(id) => {
                conversation.active_message_id = Some(id);
                conversation.updated_at = now;
            },
            None => {},
        }
        Ok(queued)
    }

    /// Why a message cannot be edited, if it cannot: the new text must not be
    /// blank, the message must be there, and the new ids must be new.
    pub open spec fn edit_refusal(
        msgs: Seq<Message>,
        tasks: Seq<QueueTask>,
        message_id: Seq<char>,
        content: Seq<char>,
        new_id: Seq<char>,
        task_id: Seq<char>,
    ) -> Option<ErrorKind> {
        if is_blank_text(content) {
            Some(ErrorKind::Validation)
        } else {
            match position(msgs, message_id) {
                None => Some(ErrorKind::NotFound),
                Some(at) => if position(msgs, new_id) is Some || (msgs[at].author_type
                    == AuthorType::User && has_task(tasks, task_id)) {
                    Some(ErrorKind::Database)
                } else {
                    None
                },
            }
        }
    }

    /// The message `m` is the edit of `earlier` with the text `content`: a
    /// new active sibling by the same author.
    pub open spec fn edited_message_is(
        m: Message,
        before: Seq<Message>,
        earlier: Message,
        content: Seq<char>,
        id: Seq<char>,
        now: i64,
    ) -> bool {
        &&& m.id@ == id
        &&& m.conversation_id == earlier.conversation_id
        &&& m.parent_id == earlier.parent_id
        &&& m.author_type == earlier.author_type
        &&& m.author_id == earlier.author_id
        &&& m.content@ == trimmed_text(content)
        &&& m.is_active_branch
        &&& m.branch_index == next_branch_index(
            before,
            opt_text(earlier.parent_id),
            earlier.conversation_id@,
        )
        &&& m.token_count == estimated_tokens(trimmed_text(content))
        &&& m.created_at == now
        &&& m.author_name == earlier.author_name
        &&& m.sibling_count is None
    }

    /// Edits a message: the message and its subtree become inactive, a new
    /// active sibling with the trimmed text takes its place, and the
    /// conversation points at the sibling. Where the user wrote the message,
    /// a generation task for the first character enters the queue.
    pub fn edit_message(
        msgs: &mut Vec<Message>,
        conversation: &mut Conversation,
        tasks: &mut Vec<QueueTask>,
        message_id: &str,
        content: &str,
        new_id: String,
        task_id: String,
        now: i64,
    ) -> (result: AppResult<Message>)
        ensures
            match result {
                Ok(m) => MessageService::edit_refusal(
                    old(msgs)@,
                    old(tasks)@,
                    message_id@,
                    content@,
                    new_id@,
                    task_id@,
                ) is None && MessageService::edited_message_is(
                    m,
                    old(msgs)@,
                    old(msgs)@[position(old(msgs)@, message_id@)->0],
                    content@,
                    new_id@,
                    now,
                ) && final(msgs)@ == deactivated(
                    old(msgs)@,
                    position(old(msgs)@, message_id@)->0,
                ).push(m) && repointed(
                    *old(conversation),
                    *final(conversation),
                    Some(new_id@),
                    now,
                ) && (if m.author_type == AuthorType::User {
                    final(tasks)@.len() == old(tasks)@.len() + 1 && final(tasks)@.drop_last() == old(tasks)@ && generation_task_is(
                        final(tasks)@.last(),
                        task_id@,
                        m.conversation_id@,
                        Some(new_id@),
                        first_character_id(*old(conversation)),
                        now,
                    )
                } else {
                    final(tasks)@ == old(tasks)@
                }),
                Err(e) => MessageService::edit_refusal(
                    old(msgs)@,
                    old(tasks)@,
                    message_id@,
                    content@,
                    new_id@,
                    task_id@,
                ) == Some(e.kind_of()) && final(msgs)@ == old(msgs)@ && *final(conversation)
                    == *old(conversation) && final(tasks)@ == old(tasks)@,
            },
            processing_count(final(tasks)@) == processing_count(old(tasks)@),
    {
        let text = trim_text(content);
        if text.as_str().unicode_len() == 0 {
            return Err(AppError::Validation("Empty message".to_owned()));
        }
        let at = match find_message(msgs, message_id) {
            Some(at) => at,
            None => {
                return Err(AppError::NotFound("Record not found".to_owned()));
            },
        };
        if find_message(msgs, new_id.as_str()).is_some() {
            return Err(AppError::Database("UNIQUE constraint failed: messages.id".to_owned()));
        }
        let by_user = match msgs[at].author_type {
            AuthorType::User => true,
            _ => false,
        };
        if by_user && find_task(tasks, task_id.as_str()).is_some() {
            return Err(AppError::Database("UNIQUE constraint failed: message_queue.id".to_owned()));
        }
        let earlier = msgs[at].copy();
        let parent: Option<&str> = match &earlier.parent_id {
            Some(id) => Some(id.as_str()),
            None => None,
        };
        let branch_index = MessageRepo::get_next_branch_index(
            msgs,
            parent,
            earlier.conversation_id.as_str(),
        );
        let token_count = estimate_tokens(text.as_str());
        MessageRepo::deactivate_subtree(msgs, message_id);
        let message = Message {
            id: new_id.clone(),
            conversation_id: earlier.conversation_id.clone(),
            parent_id: clone_opt(&earlier.parent_id),
            author_type: earlier.author_type,
            author_id: clone_opt(&earlier.author_id),
            content: text,
            is_active_branch: true,
            branch_index,
            token_count,
            created_at: now,
            author_name: clone_opt(&earlier.author_name),
            sibling_count: None,
        };
        let saved = message.copy();
        msgs.push(message);
        if by_user {
            let task = generation_task(
                task_id,
                earlier.conversation_id.as_str(),
                Some(new_id.clone()),
                first_character(conversation),
                now,
            );
            proof {
                lemma_processing_count_push(tasks@, task);
                assert(tasks@.push(task).drop_last() =~= tasks@);
            }
            tasks.push(task);
        }
        conversation.active_message_id = Some(new_id);
        conversation.updated_at = now;
        Ok(saved)
    }

    /// The position of a sibling of the message at `at` other than itself:
    /// the one that stands first by rising branch index.
    pub open spec fn alternative_sibling(msgs: Seq<Message>, at: int) -> Option<int> {
        let group = group_positions(
            msgs,
            opt_text(msgs[at].parent_id),
            msgs[at].conversation_id@,
            msgs.len() as int,
        );
        MessageService::first_other(group, at, 0)
    }

    /// The first of the positions from `from` on that is not `at`.
    pub open spec fn first_other(group: Seq<int>, at: int, from: int) -> Option<int>
        decreases group.len() - from + 1,
    {
        if from < 0 || from >= group.len() {
            None
        } else if group[from] != at {
            Some(group[from])
        } else {
            MessageService::first_other(group, at, from + 1)
        }
    }

    /// Where the conversation points after the message at `at` is deleted,
    /// and the graph just before the message and its subtree are removed. A
    /// message off the active chain changes neither. For a message on the
    /// active chain, the branch of an alternative sibling becomes active
    /// where there is one, and the conversation points at the end of its
    /// chain; else the conversation points at the parent; and where there is
    /// neither, at nothing.
    pub open spec fn after_repointing(msgs: Seq<Message>, active: Option<Seq<char>>, at: int) -> (
        Seq<Message>,
        Option<Seq<char>>,
    ) {
        if !msgs[at].is_active_branch {
            (msgs, active)
        } else {
            match MessageService::alternative_sibling(msgs, at) {
                Some(alt) => (
                    switched(msgs, alt),
                    Some(switched(msgs, alt)[deepest_active(switched(msgs, alt), alt)].id@),
                ),
                None => (msgs, opt_text(msgs[at].parent_id)),
            }
        }
    }

    /// Deletes a message with all its descendants. Deleting a message of
    /// the active chain moves the conversation's pointer first: to the branch
    /// of an alternative sibling where one exists, otherwise to the parent,
    /// and where there is neither, to nothing.
    pub fn delete(
        msgs: &mut Vec<Message>,
        conversation: &mut Conversation,
        message_id: &str,
        now: i64,
    ) -> (result: AppResult<()>)
        ensures
            match result {
                Ok(_) => position(old(msgs)@, message_id@) is Some && ({
                    let at = position(old(msgs)@, message_id@)->0;
                    let moved = MessageService::after_repointing(
                        old(msgs)@,
                        opt_text(old(conversation).active_message_id),
                        at,
                    );
                    &&& final(msgs)@ == without_subtree(moved.0, at, moved.0.len() as int)
                    &&& if old(msgs)@[at].is_active_branch {
                        repointed(*old(conversation), *final(conversation), moved.1, now)
                    } else {
                        *final(conversation) == *old(conversation)
                    }
                }),
                Err(e) => position(old(msgs)@, message_id@) is None && e is NotFound && final(msgs)@
                    == old(msgs)@ && *final(conversation) == *old(conversation),
            },
    {
        let at = match find_message(msgs, message_id) {
            Some(at) => at,
            None => {
                return Err(AppError::NotFound("Record not found".to_owned()));
            },
        };
        if msgs[at].is_active_branch {
            let parent: Option<&str> = match &msgs[at].parent_id {
                Some(id) => Some(id.as_str()),
                None => None,
            };
            let group = MessageRepo::group_indices(msgs, parent, msgs[at].conversation_id.as_str());
            let mut alternative: Option<usize> = None;
            let mut k: usize = 0;
            while k < group.len()
                invariant_except_break
                    alternative is None,
                    MessageService::first_other(
                        crate::messages::position_views(group@),
                        at as int,
                        0,
                    ) == MessageService::first_other(
                        crate::messages::position_views(group@),
                        at as int,
                        k as int,
                    ),
                invariant
                    k <= group.len(),
                    at < msgs@.len(),
                    forall|j: int| 0 <= j < group@.len() ==> (#[trigger] group@[j]) < msgs@.len(),
                ensures
                    match alternative {
                        Some(alt) => MessageService::first_other(
                            crate::messages::position_views(group@),
                            at as int,
                            0,
                        ) == Some(alt as int) && alt < msgs@.len(),
                        None => MessageService::first_other(
                            crate::messages::position_views(group@),
                            at as int,
                            0,
                        ) is None,
                    },
                decreases group.len() - k,
            {
                if group[k] != at {
                    alternative = Some(group[k]);
                    break;
                }
                k += 1;
            }
            match alternative {
                Some(alt) => {
                    let leaf = MessageRepo::switch_at(msgs, alt);
                    conversation.active_message_id = Some(leaf);
                },
                None => {
                    conversation.active_message_id = clone_opt(&msgs[at].parent_id);
                },
            }
            conversation.updated_at = now;
        }
        MessageRepo::delete_at(msgs, at);
        Ok(())
    }

    /// Switches to the branch of the message `message_id`. See
    /// `MessageRepo::switch_to_branch`.
    pub fn switch_branch(
        msgs: &mut Vec<Message>,
        conversation: &mut Conversation,
        message_id: &str,
        now: i64,
    ) -> (result: AppResult<Vec<Message>>)
        ensures
            match result {
                Ok(chain) => position(old(msgs)@, message_id@) is Some && final(msgs)@ == switched(
                    old(msgs)@,
                    position(old(msgs)@, message_id@)->0,
                ) && repointed(
                    *old(conversation),
                    *final(conversation),
                    Some(
                        final(msgs)@[deepest_active(
                            final(msgs)@,
                            position(old(msgs)@, message_id@)->0,
                        )].id@,
                    ),
                    now,
                ) && chain@ == crate::messages::active_branch(
                    final(msgs)@,
                    old(msgs)@[position(old(msgs)@, message_id@)->0].conversation_id@,
                    final(msgs)@.len() as int,
                ),
                Err(e) => position(old(msgs)@, message_id@) is None && e is NotFound && final(msgs)@
                    == old(msgs)@ && *final(conversation) == *old(conversation),
            },
    {
        let mut active = clone_opt(&conversation.active_message_id);
        match MessageRepo::switch_to_branch(msgs, &mut active, message_id) {
            Ok(chain) => {
                conversation.active_message_id = active;
                conversation.updated_at = now;
                Ok(chain)
            },
            Err(e) => Err(e),
        }
    }

    /// The siblings of the message `message_id`. See
    /// `MessageRepo::find_siblings`.
    pub fn get_siblings(msgs: &Vec<Message>, message_id: &str) -> (result: AppResult<Vec<Message>>)
        ensures
            match result {
                Ok(siblings) => position(msgs@, message_id@) is Some && siblings@
                    == crate::messages::messages_at(
                    msgs@,
                    group_positions(
                        msgs@,
                        opt_text(msgs@[position(msgs@, message_id@)->0].parent_id),
                        msgs@[position(msgs@, message_id@)->0].conversation_id@,
                        msgs@.len() as int,
                    ),
                ),
                Err(e) => position(msgs@, message_id@) is None && e is NotFound,
            },
    {
        MessageRepo::find_siblings(msgs, message_id)
    }

    /// Stops the generation that holds the slot, and cancels the open tasks
    /// of its conversation. The result is the generation that was stopped,
    /// which the caller cancels.
    pub fn stop_generation(state: &mut AppState, tasks: &mut Vec<QueueTask>) -> (stopped: Option<
        crate::state::GenerationState,
    >)
        ensures
            stopped == old(state).generating,
            final(state).generating is None,
            final(state).model_loaded == old(state).model_loaded,
            final(tasks)@.len() == old(tasks)@.len(),
            old(state).generating is None ==> final(tasks)@ == old(tasks)@,
            old(state).generating is Some ==> forall|i: int|
                0 <= i < old(tasks)@.len() ==> if crate::queue::is_open_in(
                    #[trigger] old(tasks)@[i],
                    old(state).generating->0.conversation_id@,
                ) {
                    crate::queue::cancelled_from(old(tasks)@[i], final(tasks)@[i])
                } else {
                    final(tasks)@[i] == old(tasks)@[i]
                },
    {
        let stopped = state.stop_generation();
        match &stopped {
            Some(g) => {
                QueueRepo::cancel_for_conversation(tasks, g.conversation_id.as_str());
            },
            None => {},
        }
        stopped
    }
}

} // verus!
