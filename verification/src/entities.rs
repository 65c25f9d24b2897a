//! Domain records, and the shapes that the boundary layer hands in and takes back.

use vstd::prelude::*;
use crate::text::{clone_opt, str_eq};

verus! {

/// The marker of a record that is deleted at the time `now`: the marker that
/// it has already, or else the time `now`. A record is marked once; deleting
/// it again leaves its marker as it is.
pub open spec fn marker(deleted_at: Option<i64>, now: i64) -> Option<i64> {
    match deleted_at {
        Some(at) => Some(at),
        None => Some(now),
    }
}

/// The marker of a record that is deleted at the time `now`.
pub fn mark_deleted(deleted_at: Option<i64>, now: i64) -> (marked: Option<i64>)
    ensures
        marked == marker(deleted_at, now),
{
    match deleted_at {
        Some(at) => Some(at),
        None => Some(now),
    }
}

/// A simulated interlocutor.
#[derive(Clone, Debug, PartialEq, Eq)]
pub struct Character {
    pub id: String,
    pub name: String,
    pub description: String,
    pub personality: String,
    pub system_prompt: String,
    pub first_message: String,
    pub example_dialogues: String,
    pub avatar_path: Option<String>,
    pub tags: Vec<String>,
    pub is_bundled: bool,
    pub created_at: i64,
    pub updated_at: i64,
    pub deleted_at: Option<i64>,
}

/// What is needed to create a character.
#[derive(Clone, Debug, PartialEq, Eq)]
pub struct CreateCharacterInput {
    pub name: String,
    pub description: String,
    pub personality: String,
    pub system_prompt: String,
    pub first_message: String,
    pub example_dialogues: String,
    pub avatar_path: Option<String>,
    pub tags: Vec<String>,
}

/// The fields of a character that an update replaces.
#[derive(Clone, Debug, PartialEq, Eq)]
pub struct UpdateCharacterInput {
    pub name: Option<String>,
    pub description: Option<String>,
    pub personality: Option<String>,
    pub system_prompt: Option<String>,
    pub first_message: Option<String>,
    pub example_dialogues: Option<String>,
    pub avatar_path: Option<String>,
    pub tags: Option<Vec<String>>,
}

/// A character card in its wrapped shape.
#[derive(Clone, Debug, PartialEq, Eq)]
pub struct CharacterCardV2 {
    pub spec: String,
    pub spec_version: String,
    pub data: CharacterCardDataV2,
}

/// The character data of a wrapped card.
#[derive(Clone, Debug, PartialEq, Eq)]
pub struct CharacterCardDataV2 {
    pub name: String,
    pub description: String,
    pub personality: String,
    pub scenario: String,
    pub first_mes: String,
    pub mes_example: String,
    pub system_prompt: String,
    pub tags: Vec<String>,
    pub creator_notes: Option<String>,
    pub creator: Option<String>,
    pub character_version: Option<String>,
}

/// A character card in its flat shape.
#[derive(Clone, Debug, PartialEq, Eq)]
pub struct CharacterCardV1 {
    pub name: String,
    pub description: String,
    pub personality: String,
    pub scenario: String,
    pub first_mes: String,
    pub mes_example: String,
}

/// A character that the model drafted from a concept.
#[derive(Clone, Debug, PartialEq, Eq)]
pub struct GeneratedCharacterInput {
    pub name: String,
    pub description: String,
    pub personality: String,
    pub first_message: String,
    pub example_dialogues: String,
    pub tags: Vec<String>,
    pub scenario: String,
    pub backstory: String,
    pub likes: Vec<String>,
    pub dislikes: Vec<String>,
    pub physical_traits: String,
    pub speech_patterns: String,
    pub alternate_greetings: Vec<String>,
    pub pov_type: Option<String>,
    pub rating: Option<String>,
    pub genre_tags: Vec<String>,
}

/// The identity that the human adopts.
#[derive(Clone, Debug, PartialEq, Eq)]
pub struct Persona {
    pub id: String,
    pub name: String,
    pub description: String,
    pub is_default: bool,
    pub created_at: i64,
    pub updated_at: i64,
    pub deleted_at: Option<i64>,
}

/// What is needed to create a persona.
#[derive(Clone, Debug, PartialEq, Eq)]
pub struct CreatePersonaInput {
    pub name: String,
    pub description: String,
    pub is_default: bool,
}

/// The fields of a persona that an update replaces.
#[derive(Clone, Debug, PartialEq, Eq)]
pub struct UpdatePersonaInput {
    pub name: Option<String>,
    pub description: Option<String>,
    pub is_default: Option<bool>,
}

/// An interaction between the user and one or more characters.
#[derive(Clone, Debug, PartialEq, Eq)]
pub struct Conversation {
    pub id: String,
    pub title: String,
    pub persona_id: Option<String>,
    pub is_group: bool,
    pub active_message_id: Option<String>,
    pub created_at: i64,
    pub updated_at: i64,
    pub deleted_at: Option<i64>,
    pub characters: Vec<Character>,
    pub lorebook_ids: Vec<String>,
}

/// What is needed to create a conversation.
#[derive(Clone, Debug, PartialEq, Eq)]
pub struct CreateConversationInput {
    pub character_ids: Vec<String>,
    pub title: Option<String>,
    pub persona_id: Option<String>,
}

/// The fields of a conversation that an update replaces.
#[derive(Clone, Debug, PartialEq, Eq)]
pub struct UpdateConversationInput {
    pub title: Option<String>,
    pub persona_id: Option<String>,
}

/// Who wrote a message.
#[derive(Clone, Copy, Debug, PartialEq, Eq, Structural)]
pub enum AuthorType {
    User,
    Character,
    System,
}

impl AuthorType {
    /// The name under which the author type is stored.
    pub open spec fn name(self) -> Seq<char> {
        match self {
            AuthorType::User => "user"@,
            AuthorType::Character => "character"@,
            AuthorType::System => "system"@,
        }
    }

    /// The name under which the author type is stored.
    pub fn as_str(&self) -> (name: &'static str)
        ensures
            name@ == self.name(),
    {
        match self {
            AuthorType::User => "user",
            AuthorType::Character => "character",
            AuthorType::System => "system",
        }
    }

    /// The name under which the author type is stored, as an owned string.
    pub fn to_string(&self) -> (name: String)
        ensures
            name@ == self.name(),
    {
        self.as_str().to_owned()
    }

    /// The author type stored under `s`, if there is one.
    pub fn from_str(s: &str) -> (parsed: Result<AuthorType, ()>)
        ensures
            match parsed {
                Ok(author) => s@ == author.name(),
                Err(_) => s@ != "user"@ && s@ != "character"@ && s@ != "system"@,
            },
    {
        if str_eq(s, "user") {
            Ok(AuthorType::User)
        } else if str_eq(s, "character") {
            Ok(AuthorType::Character)
        } else if str_eq(s, "system") {
            Ok(AuthorType::System)
        } else {
            Err(())
        }
    }
}

/// The names of the author types differ from one another.
pub proof fn lemma_author_names_differ(a: AuthorType, b: AuthorType)
    ensures
        a.name() == b.name() <==> a == b,
{
    reveal_strlit("user");
    reveal_strlit("character");
    reveal_strlit("system");
    if a != b {
        assert(a.name().len() != b.name().len());
    }
}

/// A node of the message graph of a conversation.
#[derive(Clone, Debug, PartialEq, Eq)]
pub struct Message {
    pub id: String,
    pub conversation_id: String,
    pub parent_id: Option<String>,
    pub author_type: AuthorType,
    pub author_id: Option<String>,
    pub content: String,
    pub is_active_branch: bool,
    pub branch_index: i32,
    pub token_count: i32,
    pub created_at: i64,
    pub author_name: Option<String>,
    pub sibling_count: Option<i32>,
}

impl Message {
    /// A copy of the message.
    pub fn copy(&self) -> (copy: Message)
        ensures
            copy == *self,
    {
        Message {
            id: self.id.clone(),
            conversation_id: self.conversation_id.clone(),
            parent_id: clone_opt(&self.parent_id),
            author_type: self.author_type,
            author_id: clone_opt(&self.author_id),
            content: self.content.clone(),
            is_active_branch: self.is_active_branch,
            branch_index: self.branch_index,
            token_count: self.token_count,
            created_at: self.created_at,
            author_name: clone_opt(&self.author_name),
            sibling_count: self.sibling_count,
        }
    }
}

/// A message that the user sends.
#[derive(Clone, Debug, PartialEq, Eq)]
pub struct SendMessageInput {
    pub conversation_id: String,
    pub content: String,
}

/// A new text for a message.
#[derive(Clone, Debug, PartialEq, Eq)]
pub struct EditMessageInput {
    pub message_id: String,
    pub content: String,
}

/// A world or lore corpus.
#[derive(Clone, Debug, PartialEq, Eq)]
pub struct Lorebook {
    pub id: String,
    pub name: String,
    pub description: String,
    pub is_global: bool,
    pub is_enabled: bool,
    pub created_at: i64,
    pub updated_at: i64,
    pub deleted_at: Option<i64>,
    pub entries: Vec<LorebookEntry>,
}

/// A text that its keywords bring into the system prompt.
#[derive(Clone, Debug, PartialEq, Eq)]
pub struct LorebookEntry {
    pub id: String,
    pub lorebook_id: String,
    pub name: String,
    pub keywords: Vec<String>,
    pub content: String,
    pub priority: i32,
    pub is_enabled: bool,
    pub case_sensitive: bool,
    pub match_whole_word: bool,
    pub insertion_position: String,
    pub token_budget: Option<i32>,
    pub created_at: i64,
}

/// What is needed to create a lorebook.
#[derive(Clone, Debug, PartialEq, Eq)]
pub struct CreateLorebookInput {
    pub name: String,
    pub description: Option<String>,
    pub is_global: Option<bool>,
}

/// The fields of a lorebook that an update replaces.
#[derive(Clone, Debug, PartialEq, Eq)]
pub struct UpdateLorebookInput {
    pub name: Option<String>,
    pub description: Option<String>,
    pub is_global: Option<bool>,
    pub is_enabled: Option<bool>,
}

/// What is needed to create a lorebook entry.
#[derive(Clone, Debug, PartialEq, Eq)]
pub struct CreateEntryInput {
    pub lorebook_id: String,
    pub name: String,
    pub keywords: Vec<String>,
    pub content: String,
    pub priority: Option<i32>,
    pub case_sensitive: Option<bool>,
    pub match_whole_word: Option<bool>,
    pub insertion_position: Option<String>,
    pub token_budget: Option<i32>,
}

/// The fields of a lorebook entry that an update replaces.
#[derive(Clone, Debug, PartialEq, Eq)]
pub struct UpdateEntryInput {
    pub name: Option<String>,
    pub keywords: Option<Vec<String>>,
    pub content: Option<String>,
    pub priority: Option<i32>,
    pub is_enabled: Option<bool>,
    pub case_sensitive: Option<bool>,
    pub match_whole_word: Option<bool>,
    pub insertion_position: Option<String>,
    pub token_budget: Option<i32>,
}

/// The settings, as a typed record.
#[derive(Clone, Debug, PartialEq, Eq)]
pub struct Settings {
    pub generation: GenerationSettings,
    pub app: AppSettings,
    pub model: ModelSettings,
}

/// The integer parameters of a generation. The sampling parameters are
/// fractions and are kept by the caller.
#[derive(Clone, Debug, PartialEq, Eq)]
pub struct GenerationSettings {
    pub max_tokens: i32,
    pub context_size: i32,
    pub lorebook_budget: Option<i32>,
    pub response_reserve: Option<i32>,
    pub example_dialogue_budget: Option<i32>,
    pub stop_sequences: Option<Vec<String>>,
}

/// Application flags.
#[derive(Clone, Debug, PartialEq, Eq)]
pub struct AppSettings {
    pub theme: String,
    pub first_run: bool,
}

/// Where the model is and how it is loaded.
#[derive(Clone, Debug, PartialEq, Eq)]
pub struct ModelSettings {
    pub path: String,
    pub gpu_layers: i32,
    pub sidecar_path: Option<String>,
}

impl Default for Settings {
    /// The settings of a fresh installation.
    fn default() -> (settings: Settings)
        ensures
            settings.generation.max_tokens == 512,
            settings.generation.context_size == 4096,
            settings.generation.lorebook_budget == Some(500i32),
            settings.generation.response_reserve == Some(512i32),
            settings.generation.example_dialogue_budget == Some(500i32),
            settings.generation.stop_sequences is None,
            settings.app.theme@ == "dark"@,
            settings.app.first_run,
            settings.model.path@ == Seq::<char>::empty(),
            settings.model.gpu_layers == 99,
            settings.model.sidecar_path is None,
    {
        Settings {
            generation: GenerationSettings {
                max_tokens: 512,
                context_size: 4096,
                lorebook_budget: Some(500),
                response_reserve: Some(512),
                example_dialogue_budget: Some(500),
                stop_sequences: None,
            },
            app: AppSettings { theme: "dark".to_owned(), first_run: true },
            model: ModelSettings { path: String::new(), gpu_layers: 99, sidecar_path: None },
        }
    }
}

/// What the shell shows about the application.
#[derive(Clone, Debug, PartialEq, Eq)]
pub struct AppInfo {
    pub version: String,
    pub data_dir: String,
    pub model_loaded: bool,
    pub model_path: Option<String>,
}

/// What the shell shows about the model.
#[derive(Clone, Debug, PartialEq, Eq)]
pub struct ModelStatus {
    pub status: String,
    pub model_path: Option<String>,
    pub model_loaded: bool,
}

/// The status of a task in the queue.
#[derive(Clone, Copy, Debug, PartialEq, Eq, Structural)]
pub enum QueueStatus {
    Pending,
    Processing,
    Completed,
    Failed,
    Cancelled,
}

impl QueueStatus {
    /// The name under which the status is stored.
    pub open spec fn name(self) -> Seq<char> {
        match self {
            QueueStatus::Pending => "pending"@,
            QueueStatus::Processing => "processing"@,
            QueueStatus::Completed => "completed"@,
            QueueStatus::Failed => "failed"@,
            QueueStatus::Cancelled => "cancelled"@,
        }
    }

    /// The name under which the status is stored.
    pub fn to_string(&self) -> (name: String)
        ensures
            name@ == self.name(),
    {
        match self {
            QueueStatus::Pending => "pending".to_owned(),
            QueueStatus::Processing => "processing".to_owned(),
            QueueStatus::Completed => "completed".to_owned(),
            QueueStatus::Failed => "failed".to_owned(),
            QueueStatus::Cancelled => "cancelled".to_owned(),
        }
    }

    /// The status stored under `s`, if there is one.
    pub fn from_str(s: &str) -> (parsed: Result<QueueStatus, ()>)
        ensures
            match parsed {
                Ok(status) => s@ == status.name(),
                Err(_) => forall|status: QueueStatus| s@ != #[trigger] status.name(),
            },
    {
        if str_eq(s, "pending") {
            Ok(QueueStatus::Pending)
        } else if str_eq(s, "processing") {
            Ok(QueueStatus::Processing)
        } else if str_eq(s, "completed") {
            Ok(QueueStatus::Completed)
        } else if str_eq(s, "failed") {
            Ok(QueueStatus::Failed)
        } else if str_eq(s, "cancelled") {
            Ok(QueueStatus::Cancelled)
        } else {
            Err(())
        }
    }
}

/// A work item of the generation queue.
#[derive(Clone, Debug, PartialEq, Eq)]
pub struct QueueTask {
    pub id: String,
    pub conversation_id: String,
    pub parent_message_id: Option<String>,
    pub target_character_id: Option<String>,
    pub status: QueueStatus,
    pub priority: i32,
    pub created_at: i64,
    pub started_at: Option<i64>,
    pub completed_at: Option<i64>,
    pub error_message: Option<String>,
}

/// The status of a download.
#[derive(Clone, Copy, Debug, PartialEq, Eq, Structural)]
pub enum DownloadStatus {
    Pending,
    Downloading,
    Completed,
    Failed,
    Cancelled,
    Paused,
}

impl DownloadStatus {
    /// The name under which the status is stored.
    pub open spec fn name(self) -> Seq<char> {
        match self {
            DownloadStatus::Pending => "pending"@,
            DownloadStatus::Downloading => "downloading"@,
            DownloadStatus::Completed => "completed"@,
            DownloadStatus::Failed => "failed"@,
            DownloadStatus::Cancelled => "cancelled"@,
            DownloadStatus::Paused => "paused"@,
        }
    }

    /// The name under which the status is stored.
    pub fn to_string(&self) -> (name: String)
        ensures
            name@ == self.name(),
    {
        match self {
            DownloadStatus::Pending => "pending".to_owned(),
            DownloadStatus::Downloading => "downloading".to_owned(),
            DownloadStatus::Completed => "completed".to_owned(),
            DownloadStatus::Failed => "failed".to_owned(),
            DownloadStatus::Cancelled => "cancelled".to_owned(),
            DownloadStatus::Paused => "paused".to_owned(),
        }
    }

    /// The status stored under `s`, if there is one.
    pub fn from_str(s: &str) -> (parsed: Result<DownloadStatus, ()>)
        ensures
            match parsed {
                Ok(status) => s@ == status.name(),
                Err(_) => forall|status: DownloadStatus| s@ != #[trigger] status.name(),
            },
    {
        if str_eq(s, "pending") {
            Ok(DownloadStatus::Pending)
        } else if str_eq(s, "downloading") {
            Ok(DownloadStatus::Downloading)
        } else if str_eq(s, "completed") {
            Ok(DownloadStatus::Completed)
        } else if str_eq(s, "failed") {
            Ok(DownloadStatus::Failed)
        } else if str_eq(s, "cancelled") {
            Ok(DownloadStatus::Cancelled)
        } else if str_eq(s, "paused") {
            Ok(DownloadStatus::Paused)
        } else {
            Err(())
        }
    }
}

/// A resumable fetch.
#[derive(Clone, Debug, PartialEq, Eq)]
pub struct Download {
    pub id: String,
    pub url: String,
    pub destination_path: String,
    pub total_bytes: i64,
    pub downloaded_bytes: i64,
    pub status: DownloadStatus,
    pub checksum: Option<String>,
    pub created_at: i64,
    pub updated_at: i64,
    pub error_message: Option<String>,
}

/// What is needed to start a download.
#[derive(Clone, Debug, PartialEq, Eq)]
pub struct StartDownloadInput {
    pub url: String,
    pub checksum: Option<String>,
    pub download_type: Option<String>,
}

/// A character with the envelope of an export.
#[derive(Clone, Debug, PartialEq, Eq)]
pub struct ExportedCharacter {
    pub glee_export_version: String,
    pub export_type: String,
    pub exported_at: String,
    pub character: Character,
    pub avatar_base64: Option<String>,
}

/// A conversation with the envelope of an export.
#[derive(Clone, Debug, PartialEq, Eq)]
pub struct ExportedConversation {
    pub glee_export_version: String,
    pub export_type: String,
    pub exported_at: String,
    pub conversation: Conversation,
    pub messages: Vec<Message>,
    pub persona: Option<Persona>,
}

/// The event `chat:token`.
#[derive(Clone, Debug, PartialEq, Eq)]
pub struct ChatTokenEvent {
    pub conversation_id: String,
    pub message_id: String,
    pub token: String,
}

/// The event `chat:complete`.
#[derive(Clone, Debug, PartialEq, Eq)]
pub struct ChatCompleteEvent {
    pub conversation_id: String,
    pub message: Message,
}

/// The event `chat:error`.
#[derive(Clone, Debug, PartialEq, Eq)]
pub struct ChatErrorEvent {
    pub conversation_id: String,
    pub message_id: Option<String>,
    pub error: String,
}

/// The event `download:progress`.
#[derive(Clone, Debug, PartialEq, Eq)]
pub struct DownloadProgressEvent {
    pub id: String,
    pub downloaded_bytes: i64,
    pub total_bytes: i64,
    pub speed_bps: i64,
}

/// The event `model:status`.
#[derive(Clone, Debug, PartialEq, Eq)]
pub struct ModelStatusEvent {
    pub status: String,
    pub message: Option<String>,
}

} // verus!
