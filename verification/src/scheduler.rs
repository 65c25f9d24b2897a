//! The generation scheduler: the decisions of the queue worker.
//!
//! The worker wakes on an enqueue notification, on a periodic tick and on
//! shutdown. In each iteration it may claim the next pending task, create the
//! placeholder message, reserve the one generation slot, run the stream
//! through the output filter, and conclude the task. What it does to the
//! outside world it hands back as effects.

use vstd::prelude::*;
use vstd::string::{StrSliceExecFns, StringExecFns, StringSliceAdditionalSpecFns};
use crate::entities::{
    AuthorType, Character, ChatCompleteEvent, ChatErrorEvent, Conversation, Message,
    ModelStatusEvent, QueueStatus, QueueTask,
};
use crate::characters::{character_at, find_character};
use crate::error::{AppError, AppResult};
use crate::filter::{flush_result, lossy_text, process_result, TokenFilter};
use crate::message_service::repointed;
use crate::messages::{
    find_message, next_branch_index, position, without_subtree, MessageRepo,
};
use crate::queue::{
    is_next_pending, lemma_processing_count_update, none_pending, processing_count, QueueRepo,
};
use crate::sse::{EventModel, GenerationEvent};
use crate::state::{AppState, QueueMessage};
use crate::text::{clone_opt, contains, contains_bytes, opt_text};
use crate::tokens::{estimate_tokens, estimated_tokens};

verus! {

/// Seconds after which the watchdog cancels a generation.
pub const GENERATION_TIMEOUT_SECS: u64 = 300;

/// Seconds between two periodic ticks of the worker.
pub const TICK_SECS: u64 = 2;

/// Messages after which a conversation is summarized.
pub const SUMMARY_MESSAGE_THRESHOLD: i32 = 20;

/// Tokens after which a conversation is summarized.
pub const SUMMARY_TOKEN_THRESHOLD: i32 = 4000;

/// What woke the worker.
#[derive(Clone, Copy, Debug, PartialEq, Eq, Structural)]
pub enum Wake {
    /// The shutdown notifier fired.
    Shutdown,
    /// A message arrived on the channel.
    Message(QueueMessage),
    /// The channel was closed.
    Closed,
    /// The periodic tick.
    Tick,
}

/// What the worker does when it wakes.
#[derive(Clone, Copy, Debug, PartialEq, Eq, Structural)]
pub enum WorkerStep {
    /// Cancel the active generation and leave the loop.
    Exit,
    /// Process the queue.
    Process,
    /// Check the generation timeout, then process the queue.
    CheckTimeoutThenProcess,
}

/// What the worker does when it wakes: shutdown, a stop message and a closed
/// channel end the loop; an enqueue notification processes the queue; a tick
/// checks the timeout first.
pub open spec fn step_for(wake: Wake) -> WorkerStep {
    match wake {
        Wake::Shutdown => WorkerStep::Exit,
        Wake::Message(QueueMessage::Process) => WorkerStep::Process,
        Wake::Message(QueueMessage::Stop) => WorkerStep::Exit,
        Wake::Closed => WorkerStep::Exit,
        Wake::Tick => WorkerStep::CheckTimeoutThenProcess,
    }
}

/// What the worker does when it wakes.
pub fn on_wake(wake: Wake) -> (step: WorkerStep)
    ensures
        step == step_for(wake),
{
    match wake {
        Wake::Shutdown => WorkerStep::Exit,
        Wake::Message(QueueMessage::Process) => WorkerStep::Process,
        Wake::Message(QueueMessage::Stop) => WorkerStep::Exit,
        Wake::Closed => WorkerStep::Exit,
        Wake::Tick => WorkerStep::CheckTimeoutThenProcess,
    }
}

/// How an iteration begins.
#[derive(Clone, Copy, Debug, PartialEq, Eq, Structural)]
pub enum Gate {
    /// There is nothing to do: no inference process, or a generation is
    /// active.
    Idle,
    /// The inference process is to be health-checked before a task is taken.
    CheckHealth,
}

/// How an iteration begins: without an inference process, and while a
/// generation is active, nothing is done; otherwise the process is
/// health-checked.
pub fn gate(state: &AppState) -> (gate: Gate)
    ensures
        gate == if state.model_loaded && state.generating is None {
            Gate::CheckHealth
        } else {
            Gate::Idle
        },
{
    if state.is_model_loaded() && !state.is_generating() {
        Gate::CheckHealth
    } else {
        Gate::Idle
    }
}

/// What the user is told when the inference process stopped answering.
pub open spec fn unhealthy_message() -> Seq<char> {
    "AI model stopped unexpectedly. Please restart from Settings."@
}

/// Takes in the result of the health check. An inference process that does
/// not answer is released, and the event that reports it is handed out; the
/// iteration goes on exactly where the process is healthy.
pub fn on_health(state: &mut AppState, healthy: bool) -> (event: Option<ModelStatusEvent>)
    ensures
        final(state).generating == old(state).generating,
        final(state).model_loaded == (old(state).model_loaded && healthy),
        match event {
            Some(e) => !healthy && e.status@ == "error"@ && opt_text(e.message) == Some(
                unhealthy_message(),
            ),
            None => healthy,
        },
{
    if healthy {
        None
    } else {
        state.set_sidecar(false);
        Some(
            ModelStatusEvent {
                status: "error".to_owned(),
                message: Some(
                    "AI model stopped unexpectedly. Please restart from Settings.".to_owned(),
                ),
            },
        )
    }
}

/// What the claim of the next task came to.
#[derive(Clone, Debug, PartialEq, Eq)]
pub enum Claim {
    /// No task is pending.
    Nothing,
    /// The next task was taken and failed at once, with this error.
    Failed { task_id: String, error: String },
    /// The next task is being processed, for the character at `character`.
    Ready { task: QueueTask, character: usize },
}

/// The character for which the task at `at` is generated.
pub open spec fn target_of(tasks: Seq<QueueTask>, characters: Seq<Character>, at: int) -> Option<
    int,
> {
    match tasks[at].target_character_id {
        Some(id) => character_at(characters, id@, 0),
        None => None,
    }
}

/// What is reported for a task without a target character.
pub open spec fn no_target_text() -> Seq<char> {
    "No target character specified"@
}

/// What is reported for a task whose target character is not there.
pub open spec fn missing_target_text() -> Seq<char> {
    "Character not found: Not found: Record not found"@
}

/// The task `after` is the task `before`, taken at `now` and failed at once
/// with `error`.
pub open spec fn failed_at_once(before: QueueTask, after: QueueTask, error: Seq<char>, now: i64) -> bool {
    &&& after.id == before.id
    &&& after.conversation_id == before.conversation_id
    &&& after.parent_message_id == before.parent_message_id
    &&& after.target_character_id == before.target_character_id
    &&& after.priority == before.priority
    &&& after.created_at == before.created_at
    &&& after.status == QueueStatus::Failed
    &&& after.started_at == Some(now)
    &&& after.completed_at == Some(now)
    &&& opt_text(after.error_message) == Some(error)
}

/// The task `after` is the task `before`, taken at `now`.
pub open spec fn taken_at(before: QueueTask, after: QueueTask, now: i64) -> bool {
    &&& after.id == before.id
    &&& after.conversation_id == before.conversation_id
    &&& after.parent_message_id == before.parent_message_id
    &&& after.target_character_id == before.target_character_id
    &&& after.priority == before.priority
    &&& after.created_at == before.created_at
    &&& after.status == QueueStatus::Processing
    &&& after.started_at == Some(now)
    &&& after.completed_at == before.completed_at
    &&& after.error_message == before.error_message
}

/// Claims the next pending task: marks it as being processed and resolves
/// its target character. A task without a target character, or whose
/// character is not there, fails at once.
pub fn claim_next_task(tasks: &mut Vec<QueueTask>, characters: &Vec<Character>, now: i64) -> (claim:
    Claim)
    ensures
        final(tasks)@.len() == old(tasks)@.len(),
        match claim {
            Claim::Nothing => none_pending(old(tasks)@) && final(tasks)@ == old(tasks)@,
            Claim::Failed { task_id, error } => exists|at: int|
                #![trigger old(tasks)@[at]]
                is_next_pending(old(tasks)@, at) && target_of(old(tasks)@, characters@, at)
                    is None && task_id == old(tasks)@[at].id && error@ == (if old(tasks)@[at].target_character_id is None {
                    no_target_text()
                } else {
                    missing_target_text()
                }) && failed_at_once(old(tasks)@[at], final(tasks)@[at], error@, now)
                    && forall|j: int|
                    0 <= j < old(tasks)@.len() && j != at ==> final(tasks)@[j] == old(tasks)@[j],
            Claim::Ready { task, character } => exists|at: int|
                #![trigger old(tasks)@[at]]
                is_next_pending(old(tasks)@, at) && target_of(old(tasks)@, characters@, at)
                    == Some(character as int) && character < characters@.len() && taken_at(
                    old(tasks)@[at],
                    task,
                    now,
                ) && final(tasks)@ == old(tasks)@.update(at, task),
        },
        processing_count(final(tasks)@) == processing_count(old(tasks)@) + (if claim is Ready {
            1nat
        } else {
            0nat
        }),
{
    let at = match QueueRepo::next_pending_index(tasks) {
        Some(at) => at,
        None => {
            return Claim::Nothing;
        },
    };
    let before = tasks[at].copy();
    let target = match &before.target_character_id {
        Some(id) => find_character(characters, id.as_str()),
        None => None,
    };
    match target {
        Some(character) => {
            let task = QueueTask {
                id: before.id.clone(),
                conversation_id: before.conversation_id.clone(),
                parent_message_id: clone_opt(&before.parent_message_id),
                target_character_id: clone_opt(&before.target_character_id),
                status: QueueStatus::Processing,
                priority: before.priority,
                created_at: before.created_at,
                started_at: Some(now),
                completed_at: before.completed_at,
                error_message: clone_opt(&before.error_message),
            };
            let copy = task.copy();
            proof {
                lemma_processing_count_update(tasks@, at as int, task);
            }
            tasks.set(at, task);
            Claim::Ready { task: copy, character }
        },
        None => {
            let error = if before.target_character_id.is_none() {
                "No target character specified".to_owned()
            } else {
                "Character not found: Not found: Record not found".to_owned()
            };
            let task = QueueTask {
                id: before.id.clone(),
                conversation_id: before.conversation_id.clone(),
                parent_message_id: clone_opt(&before.parent_message_id),
                target_character_id: clone_opt(&before.target_character_id),
                status: QueueStatus::Failed,
                priority: before.priority,
                created_at: before.created_at,
                started_at: Some(now),
                completed_at: Some(now),
                error_message: Some(error.clone()),
            };
            proof {
                lemma_processing_count_update(tasks@, at as int, task);
                assert(tasks@.update(at as int, task)[at as int] == task);
            }
            tasks.set(at, task);
            Claim::Failed { task_id: before.id, error }
        },
    }
}

/// Fails the task with the id `task_id` with the error `error`.
pub fn fail_task(tasks: &mut Vec<QueueTask>, task_id: &str, error: &str, now: i64)
    ensures
        crate::queue::moved_by_id(
            old(tasks)@,
            final(tasks)@,
            task_id@,
            QueueStatus::Failed,
            Some(error@),
            now,
        ),
        processing_count(final(tasks)@) <= processing_count(old(tasks)@),
{
    QueueRepo::update_status(tasks, task_id, QueueStatus::Failed, Some(error), now);
}

/// The message `m` is the placeholder for the answer to `task` by
/// `character`: empty, active, a child of the task's parent message.
pub open spec fn placeholder_is(
    m: Message,
    before: Seq<Message>,
    task: QueueTask,
    character: Character,
    id: Seq<char>,
    now: i64,
) -> bool {
    &&& m.id@ == id
    &&& m.conversation_id == task.conversation_id
    &&& m.parent_id == task.parent_message_id
    &&& m.author_type == AuthorType::Character
    &&& opt_text(m.author_id) == Some(character.id@)
    &&& m.content@ == Seq::<char>::empty()
    &&& m.is_active_branch
    &&& m.branch_index == next_branch_index(
        before,
        opt_text(task.parent_message_id),
        task.conversation_id@,
    )
    &&& m.token_count == 0
    &&& m.created_at == now
    &&& opt_text(m.author_name) == Some(character.name@)
    &&& m.sibling_count is None
}

/// Creates the placeholder message for the answer to `task` and points the
/// conversation at it. An id that the graph already holds is refused, and
/// then nothing changes.
pub fn create_placeholder(
    msgs: &mut Vec<Message>,
    conversation: &mut Conversation,
    task: &QueueTask,
    character: &Character,
    message_id: String,
    now: i64,
) -> (result: AppResult<Message>)
    ensures
        match result {
            Ok(m) => position(old(msgs)@, message_id@) is None && placeholder_is(
                m,
                old(msgs)@,
                *task,
                *character,
                message_id@,
                now,
            ) && final(msgs)@ == old(msgs)@.push(m) && repointed(
                *old(conversation),
                *final(conversation),
                Some(message_id@),
                now,
            ),
            Err(e) => position(old(msgs)@, message_id@) is Some && e is Database && final(msgs)@
                == old(msgs)@ && *final(conversation) == *old(conversation),
        },
{
    if find_message(msgs, message_id.as_str()).is_some() {
        return Err(AppError::Database("UNIQUE constraint failed: messages.id".to_owned()));
    }
    let parent: Option<&str> = match &task.parent_message_id {
        Some(id) => Some(id.as_str()),
        None => None,
    };
    let branch_index = MessageRepo::get_next_branch_index(
        msgs,
        parent,
        task.conversation_id.as_str(),
    );
    let message = Message {
        id: message_id.clone(),
        conversation_id: task.conversation_id.clone(),
        parent_id: clone_opt(&task.parent_message_id),
        author_type: AuthorType::Character,
        author_id: Some(character.id.clone()),
        content: String::new(),
        is_active_branch: true,
        branch_index,
        token_count: 0,
        created_at: now,
        author_name: Some(character.name.clone()),
        sibling_count: None,
    };
    let copy = message.copy();
    msgs.push(message);
    conversation.active_message_id = Some(message_id);
    conversation.updated_at = now;
    Ok(copy)
}

/// Takes the placeholder of `task` back: the placeholder is removed and the
/// conversation points at the task's parent message again.
pub fn discard_placeholder(
    msgs: &mut Vec<Message>,
    conversation: &mut Conversation,
    task: &QueueTask,
    message_id: &str,
    now: i64,
)
    ensures
        final(msgs)@ == match position(old(msgs)@, message_id@) {
            Some(at) => without_subtree(old(msgs)@, at, old(msgs)@.len() as int),
            None => old(msgs)@,
        },
        repointed(
            *old(conversation),
            *final(conversation),
            opt_text(task.parent_message_id),
            now,
        ),
{
    MessageRepo::delete(msgs, message_id);
    conversation.active_message_id = clone_opt(&task.parent_message_id);
    conversation.updated_at = now;
}

/// Reserves the generation slot for the placeholder of `task`, in one step.
/// Where the slot is taken, the task is not failed: its placeholder is taken
/// back and the task returns to pending, to be claimed in a later iteration.
/// Tells whether the slot was reserved.
pub fn reserve_or_roll_back(
    state: &mut AppState,
    msgs: &mut Vec<Message>,
    conversation: &mut Conversation,
    tasks: &mut Vec<QueueTask>,
    task: &QueueTask,
    message_id: &str,
    started_at: u64,
    now: i64,
) -> (reserved: bool)
    ensures
        reserved == old(state).generating is None,
        final(state).model_loaded == old(state).model_loaded,
        reserved ==> final(state).generating is Some && final(state).generating->0.message_id@
            == message_id@ && final(state).generating->0.conversation_id@
            == task.conversation_id@ && final(state).generating->0.started_at == started_at
            && final(msgs)@ == old(msgs)@ && *final(conversation) == *old(conversation) && final(tasks)@ == old(tasks)@,
        !reserved ==> final(state).generating == old(state).generating && final(msgs)@
            == (match position(old(msgs)@, message_id@) {
            Some(at) => without_subtree(old(msgs)@, at, old(msgs)@.len() as int),
            None => old(msgs)@,
        }) && repointed(
            *old(conversation),
            *final(conversation),
            opt_text(task.parent_message_id),
            now,
        ) && crate::queue::moved_by_id(
            old(tasks)@,
            final(tasks)@,
            task.id@,
            QueueStatus::Pending,
            None,
            now,
        ),
        processing_count(final(tasks)@) <= processing_count(old(tasks)@),
{
    if state.try_start_generation(
        message_id.to_owned(),
        task.conversation_id.clone(),
        started_at,
    ) {
        return true;
    }
    discard_placeholder(msgs, conversation, task, message_id, now);
    QueueRepo::update_status(tasks, task.id.as_str(), QueueStatus::Pending, None, now);
    false
}

/// The texts of the chunks that are not empty, in order.
pub open spec fn visible_texts(chunks: Seq<Seq<u8>>) -> Seq<Seq<char>>
    decreases chunks.len(),
{
    if chunks.len() == 0 {
        Seq::empty()
    } else if lossy_text(chunks.last()).len() > 0 {
        visible_texts(chunks.drop_last()).push(lossy_text(chunks.last()))
    } else {
        visible_texts(chunks.drop_last())
    }
}

/// The texts, one after the other.
pub open spec fn concat_all(parts: Seq<Seq<char>>) -> Seq<char>
    decreases parts.len(),
{
    if parts.len() == 0 {
        Seq::empty()
    } else {
        concat_all(parts.drop_last()) + parts.last()
    }
}

/// One generation as the scheduler follows it: the output filter, and the
/// visible content so far.
pub struct GenerationRun {
    /// The output filter of the generation.
    pub filter: TokenFilter,
    /// The visible content so far.
    pub full_content: String,
    /// A token has arrived.
    pub received: bool,
}

/// What an event of the stream comes to.
#[derive(Clone, Debug, PartialEq, Eq)]
pub enum RunStep {
    /// The stream goes on; these chunks became visible and go out as
    /// `chat:token` events.
    Tokens(Vec<String>),
    /// The stream is complete; these last chunks became visible.
    Finished(Vec<String>),
    /// The generation was cancelled.
    Cancelled,
    /// The generation failed with this error.
    Failed(String),
}

/// The optional chunk as a sequence of chunks.
pub open spec fn optional_chunk(chunk: Option<Seq<u8>>) -> Seq<Seq<u8>> {
    match chunk {
        Some(c) => seq![c],
        None => Seq::empty(),
    }
}

impl GenerationRun {
    /// A run for the answer of the character `character_name`.
    pub fn new(character_name: &str) -> (run: GenerationRun)
        ensures
            run.filter@.buffer == Seq::<u8>::empty(),
            run.filter@.mode == crate::filter::FilterMode::Neutral,
            run.filter.character_name@ == character_name@,
            run.full_content@ == Seq::<char>::empty(),
            !run.received,
    {
        GenerationRun {
            filter: TokenFilter::new(character_name),
            full_content: String::new(),
            received: false,
        }
    }

    /// Appends the chunks that are not empty to the visible content, and
    /// hands them out.
    fn take_visible(&mut self, chunks: Vec<String>, Ghost(bytes): Ghost<Seq<Seq<u8>>>) -> (visible:
        Vec<String>)
        requires
            chunks@.len() == bytes.len(),
            forall|i: int| 0 <= i < chunks@.len() ==> (#[trigger] chunks@[i])@ == lossy_text(bytes[i]),
        ensures
            crate::strings::texts(visible@) == visible_texts(bytes),
            final(self).full_content@ == old(self).full_content@ + concat_all(visible_texts(bytes)),
            final(self).filter == old(self).filter,
            final(self).received == old(self).received,
    {
        let mut visible: Vec<String> = Vec::new();
        let ghost all = chunks@;
        assert(crate::strings::texts(visible@) =~= visible_texts(bytes.take(0)));
        assert(self.full_content@ + concat_all(visible_texts(bytes.take(0))) =~= self.full_content@);
        for chunk in it: chunks
            invariant
                it.seq() == all,
                all.len() == bytes.len(),
                forall|i: int| 0 <= i < all.len() ==> (#[trigger] all[i])@ == lossy_text(bytes[i]),
                crate::strings::texts(visible@) == visible_texts(bytes.take(it.index())),
                self.full_content@ == old(self).full_content@ + concat_all(
                    visible_texts(bytes.take(it.index())),
                ),
                self.filter == old(self).filter,
                self.received == old(self).received,
        {
            proof {
                let upto = bytes.take(it.index() + 1);
                assert(upto.drop_last() =~= bytes.take(it.index()));
                assert(upto.last() == bytes[it.index()]);
                assert(chunk@ == lossy_text(bytes[it.index()]));
                let before = visible_texts(bytes.take(it.index()));
                assert(before.push(chunk@).drop_last() =~= before);
            }
            if chunk.as_str().unicode_len() > 0 {
                let ghost shown = crate::strings::texts(visible@);
                let ghost content = self.full_content@;
                self.full_content.append(chunk.as_str());
                visible.push(chunk);
                proof {
                    assert(crate::strings::texts(visible@) =~= shown.push(chunk@));
                    assert(self.full_content@ =~= old(self).full_content@ + (concat_all(shown)
                        + chunk@));
                }
            }
        }
        proof {
            assert(bytes.take(bytes.len() as int) =~= bytes);
        }
        visible
    }

    /// Takes in an event of the stream. A token goes through the output
    /// filter, and what becomes visible is added to the content; the end of
    /// the stream flushes the filter; a cancellation and an error end the
    /// run.
    pub fn on_event(&mut self, event: GenerationEvent) -> (step: RunStep)
        ensures
            match event@ {
                EventModel::Token(text) => step is Tokens && final(self).received && final(self).filter@ == process_result(
                    old(self).filter@,
                    vstd::utf8::encode_utf8(text),
                ).0 && crate::strings::texts(step->Tokens_0@) == visible_texts(
                    process_result(old(self).filter@, vstd::utf8::encode_utf8(text)).1,
                ) && final(self).full_content@ == old(self).full_content@ + concat_all(
                    crate::strings::texts(step->Tokens_0@),
                ),
                EventModel::Done => step is Finished && final(self).received == old(self).received && final(self).filter@ == flush_result(old(self).filter@).0
                    && crate::strings::texts(step->Finished_0@) == visible_texts(
                    optional_chunk(flush_result(old(self).filter@).1),
                ) && final(self).full_content@ == old(self).full_content@ + concat_all(
                    crate::strings::texts(step->Finished_0@),
                ),
                EventModel::Cancelled => step is Cancelled && *final(self) == *old(self),
                EventModel::Error(text) => step is Failed && step->Failed_0@ == text && *final(self) == *old(self),
            },
    {
        match event {
            GenerationEvent::Token(token) => {
                self.received = true;
                let ghost bytes = process_result(self.filter@, vstd::utf8::encode_utf8(token@)).1;
                let chunks = self.filter.process(token.as_str());
                let visible = self.take_visible(chunks, Ghost(bytes));
                RunStep::Tokens(visible)
            },
            GenerationEvent::Done => {
                let ghost rest = flush_result(self.filter@).1;
                let mut chunks: Vec<String> = Vec::new();
                match self.filter.flush() {
                    Some(text) => {
                        chunks.push(text);
                    },
                    None => {},
                }
                let visible = self.take_visible(chunks, Ghost(optional_chunk(rest)));
                RunStep::Finished(visible)
            },
            GenerationEvent::Cancelled => RunStep::Cancelled,
            GenerationEvent::Error(text) => RunStep::Failed(text),
        }
    }

    /// The visible content so far. When the stream closes without an event,
    /// this is the content of the answer.
    pub fn content(&self) -> (content: String)
        ensures
            content == self.full_content,
    {
        self.full_content.clone()
    }
}

/// How a generation ended.
#[derive(Clone, Debug, PartialEq, Eq)]
pub enum GenerationOutcome {
    /// The stream is complete, with this visible content.
    Completed(String),
    /// The generation was cancelled.
    Cancelled,
    /// The generation failed with this error.
    Failed(String),
}

/// What the scheduler asks of the outside world.
#[derive(Clone, Debug, PartialEq, Eq)]
pub enum Effect {
    /// Emit `chat:complete`.
    ChatComplete(ChatCompleteEvent),
    /// Emit `chat:error`.
    ChatError(ChatErrorEvent),
    /// Terminate the inference process, which was taken out of the state.
    TerminateSidecar,
    /// Summarize the conversation if the thresholds are exceeded.
    Summarize { conversation_id: String },
    /// Extract memories from the message.
    ExtractMemory { message_id: String, character_id: String, conversation_id: String },
}

/// The error tells of a stalled stream or a timeout.
pub open spec fn tells_of_stall(error: Seq<u8>) -> bool {
    contains(error, "stalled".spec_bytes()) || contains(error, "timeout".spec_bytes())
}

/// The effect asks to extract memories from the message `message`.
pub open spec fn extracts_from(effect: Effect, message: Seq<char>, character: Seq<char>, task: QueueTask) -> bool {
    effect matches Effect::ExtractMemory { message_id, character_id, conversation_id }
        && message_id@ == message && character_id@ == character && conversation_id
        == task.conversation_id
}

/// The effects of a completed generation: the event `chat:complete` with the
/// final message, where the message is there; the summarization; and the
/// extraction of memories from the parent message, where the task has one,
/// and from the new message.
pub open spec fn completion_effects_are(
    effects: Seq<Effect>,
    msgs: Seq<Message>,
    task: QueueTask,
    character: Seq<char>,
    message: Seq<char>,
) -> bool {
    let found: int = if position(msgs, message) is Some {
        1
    } else {
        0
    };
    let parent: int = if task.parent_message_id is Some {
        1
    } else {
        0
    };
    &&& effects.len() == found + 1 + parent + 1
    &&& found == 1 ==> (effects[0] matches Effect::ChatComplete(e) && e.conversation_id
        == task.conversation_id && e.message == msgs[position(msgs, message)->0])
    &&& (effects[found] matches Effect::Summarize { conversation_id } && conversation_id
        == task.conversation_id)
    &&& parent == 1 ==> extracts_from(
        effects[found + 1],
        task.parent_message_id->0@,
        character,
        task,
    )
    &&& extracts_from(effects[found + 1 + parent], message, character, task)
}

/// The effects of a failed generation: the inference process is terminated
/// where the error tells of a stall and the process was there, and the event
/// `chat:error` goes out.
pub open spec fn failure_effects_are(
    effects: Seq<Effect>,
    terminate: bool,
    task: QueueTask,
    message: Seq<char>,
    error: Seq<char>,
) -> bool {
    let first: int = if terminate {
        1
    } else {
        0
    };
    &&& effects.len() == first + 1
    &&& terminate ==> effects[0] is TerminateSidecar
    &&& (effects[first] matches Effect::ChatError(e) && e.conversation_id == task.conversation_id
        && opt_text(e.message_id) == Some(message) && e.error@ == error)
}

/// Concludes a generation. The slot is released in every case. A completed
/// generation stores the content and its token estimate in the placeholder,
/// which keeps its id, its place and its active flag, and completes the task;
/// the event `chat:complete` carries the message as it then is. A cancelled generation takes the placeholder back
/// and cancels the task. A failed generation takes the placeholder back and
/// fails the task with the error; an error that tells of a stall also takes
/// the inference process out of the state, to be terminated.
pub fn conclude(
    state: &mut AppState,
    msgs: &mut Vec<Message>,
    conversation: &mut Conversation,
    tasks: &mut Vec<QueueTask>,
    task: &QueueTask,
    character_id: &str,
    message_id: &str,
    outcome: GenerationOutcome,
    now: i64,
) -> (effects: Vec<Effect>)
    ensures
        final(state).generating is None,
        crate::queue::moved_by_id(
            old(tasks)@,
            final(tasks)@,
            task.id@,
            match outcome {
                GenerationOutcome::Completed(_) => QueueStatus::Completed,
                GenerationOutcome::Cancelled => QueueStatus::Cancelled,
                GenerationOutcome::Failed(_) => QueueStatus::Failed,
            },
            match outcome {
                GenerationOutcome::Failed(e) => Some(e@),
                _ => None,
            },
            now,
        ),
        processing_count(final(tasks)@) <= processing_count(old(tasks)@),
        match outcome {
            GenerationOutcome::Completed(content) => final(state).model_loaded == old(state).model_loaded && *final(conversation) == *old(conversation) && final(msgs)@.len()
                == old(msgs)@.len() && (forall|i: int|
                0 <= i < old(msgs)@.len() ==> if position(old(msgs)@, message_id@) == Some(i) {
                    (#[trigger] final(msgs)@[i]).content@ == content@ && final(msgs)@[i].token_count == estimated_tokens(content@) && final(msgs)@[i] == (Message {
                        content: final(msgs)@[i].content,
                        token_count: final(msgs)@[i].token_count,
                        ..old(msgs)@[i]
                    })
                } else {
                    final(msgs)@[i] == old(msgs)@[i]
                }) && position(final(msgs)@, message_id@) == position(old(msgs)@, message_id@) && completion_effects_are(
                effects@,
                final(msgs)@,
                *task,
                character_id@,
                message_id@,
            ),
            GenerationOutcome::Cancelled => final(state).model_loaded == old(state).model_loaded
                && effects@.len() == 0 && final(msgs)@ == (match position(
                old(msgs)@,
                message_id@,
            ) {
                Some(at) => without_subtree(old(msgs)@, at, old(msgs)@.len() as int),
                None => old(msgs)@,
            }) && repointed(
                *old(conversation),
                *final(conversation),
                opt_text(task.parent_message_id),
                now,
            ),
            GenerationOutcome::Failed(error) => final(state).model_loaded == (old(state).model_loaded && !tells_of_stall(vstd::utf8::encode_utf8(error@))) && failure_effects_are(
                effects@,
                old(state).model_loaded && tells_of_stall(vstd::utf8::encode_utf8(error@)),
                *task,
                message_id@,
                error@,
            ) && final(msgs)@ == (match position(old(msgs)@, message_id@) {
                Some(at) => without_subtree(old(msgs)@, at, old(msgs)@.len() as int),
                None => old(msgs)@,
            }) && repointed(
                *old(conversation),
                *final(conversation),
                opt_text(task.parent_message_id),
                now,
            ),
        },
{
    state.finish_generation();
    let mut effects: Vec<Effect> = Vec::new();
    match outcome {
        GenerationOutcome::Completed(content) => {
            let tokens = estimate_tokens(content.as_str());
            MessageRepo::update_content(msgs, message_id, content.as_str(), tokens);
            QueueRepo::update_status(tasks, task.id.as_str(), QueueStatus::Completed, None, now);
            proof {
                crate::messages::lemma_position_same_shape(old(msgs)@, msgs@, message_id@, 0);
            }
            match find_message(msgs, message_id) {
                Some(at) => {
                    effects.push(
                        Effect::ChatComplete(
                            ChatCompleteEvent {
                                conversation_id: task.conversation_id.clone(),
                                message: msgs[at].copy(),
                            },
                        ),
                    );
                },
                None => {},
            }
            effects.push(Effect::Summarize { conversation_id: task.conversation_id.clone() });
            match &task.parent_message_id {
                Some(parent) => {
                    effects.push(
                        Effect::ExtractMemory {
                            message_id: parent.clone(),
                            character_id: character_id.to_owned(),
                            conversation_id: task.conversation_id.clone(),
                        },
                    );
                },
                None => {},
            }
            effects.push(
                Effect::ExtractMemory {
                    message_id: message_id.to_owned(),
                    character_id: character_id.to_owned(),
                    conversation_id: task.conversation_id.clone(),
                },
            );
        },
        GenerationOutcome::Cancelled => {
            discard_placeholder(msgs, conversation, task, message_id, now);
            QueueRepo::update_status(tasks, task.id.as_str(), QueueStatus::Cancelled, None, now);
        },
        GenerationOutcome::Failed(error) => {
            let stalled = contains_bytes(error.as_str().as_bytes(), "stalled".as_bytes())
                || contains_bytes(error.as_str().as_bytes(), "timeout".as_bytes());
            if stalled {
                if state.take_sidecar() {
                    effects.push(Effect::TerminateSidecar);
                }
            }
            discard_placeholder(msgs, conversation, task, message_id, now);
            QueueRepo::update_status(
                tasks,
                task.id.as_str(),
                QueueStatus::Failed,
                Some(error.as_str()),
                now,
            );
            effects.push(
                Effect::ChatError(
                    ChatErrorEvent {
                        conversation_id: task.conversation_id.clone(),
                        message_id: Some(message_id.to_owned()),
                        error,
                    },
                ),
            );
        },
    }
    effects
}

} // verus!
