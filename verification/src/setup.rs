//! The state of the installation: what is missing, and which acceleration
//! variant is recommended.

use vstd::prelude::*;
use vstd::string::StringSliceAdditionalSpecFns;
use vstd::utf8::encode_utf8;
use crate::characters::{character_at, find_character, CharacterRepo};
use crate::entities::{Character, CreateCharacterInput, CreatePersonaInput, Persona};
use crate::personas::{live_personas, without_default, PersonaRepo};
use crate::strings::{lowercase_of, to_lowercase};
use crate::text::{contains, contains_bytes};

verus! {

/// What the shell shows about the installation.
#[derive(Clone, Debug, PartialEq, Eq)]
pub struct SetupStatus {
    pub is_complete: bool,
    pub missing_binary: bool,
    pub missing_model: bool,
    pub detected_gpu: String,
    pub recommended_variant: String,
}

/// The acceleration variants.
#[derive(Clone, Copy, Debug, PartialEq, Eq, Structural)]
pub enum Variant {
    Cuda,
    Rocm,
    Cpu,
}

/// The variant for the graphics hardware that the probe names: CUDA for
/// NVIDIA, ROCm for AMD and Radeon, and the CPU otherwise, or where the
/// probe failed.
pub open spec fn variant_for(probe: Option<Seq<char>>) -> Variant {
    match probe {
        Some(text) => {
            let b = encode_utf8(lowercase_of(text));
            if contains(b, "nvidia".spec_bytes()) {
                Variant::Cuda
            } else if contains(b, "amd".spec_bytes()) || contains(b, "radeon".spec_bytes()) {
                Variant::Rocm
            } else {
                Variant::Cpu
            }
        },
        None => Variant::Cpu,
    }
}

/// The variant for the graphics hardware that the probe names.
pub fn detect_hardware(probe: Option<&str>) -> (found: (String, String))
    ensures
        found.1@ == (match variant_for(crate::text::opt_str_text(probe)) {
            Variant::Cuda => "cuda"@,
            Variant::Rocm => "rocm"@,
            Variant::Cpu => "cpu"@,
        }),
        found.0@ == (match probe {
            None => "Unknown"@,
            Some(_) => match variant_for(crate::text::opt_str_text(probe)) {
                Variant::Cuda => "NVIDIA GPU Detected"@,
                Variant::Rocm => "AMD GPU Detected"@,
                Variant::Cpu => "Integrated/CPU Graphics"@,
            },
        }),
{
    match probe {
        Some(text) => {
            let lower = to_lowercase(text);
            let b = lower.as_str().as_bytes();
            if contains_bytes(b, "nvidia".as_bytes()) {
                ("NVIDIA GPU Detected".to_owned(), "cuda".to_owned())
            } else if contains_bytes(b, "amd".as_bytes()) || contains_bytes(
                b,
                "radeon".as_bytes(),
            ) {
                ("AMD GPU Detected".to_owned(), "rocm".to_owned())
            } else {
                ("Integrated/CPU Graphics".to_owned(), "cpu".to_owned())
            }
        },
        None => ("Unknown".to_owned(), "cpu".to_owned()),
    }
}

/// The state of the installation: it is complete where neither the binary
/// nor the model is missing.
pub fn check_setup_status(binary_exists: bool, model_exists: bool, probe: Option<&str>) -> (status:
    SetupStatus)
    ensures
        status.missing_binary == !binary_exists,
        status.missing_model == !model_exists,
        status.is_complete == (binary_exists && model_exists),
        status.recommended_variant@ == (match variant_for(crate::text::opt_str_text(probe)) {
            Variant::Cuda => "cuda"@,
            Variant::Rocm => "rocm"@,
            Variant::Cpu => "cpu"@,
        }),
{
    let (gpu, variant) = detect_hardware(probe);
    SetupStatus {
        is_complete: binary_exists && model_exists,
        missing_binary: !binary_exists,
        missing_model: !model_exists,
        detected_gpu: gpu,
        recommended_variant: variant,
    }
}

/// The id of the character that comes with the application.
pub const STARTER_CHARACTER_ID: &'static str = "starter-character-aria";

/// The name of the character that comes with the application.
pub const STARTER_NAME: &'static str = "Aria";

/// The description of the character that comes with the application.
pub const STARTER_DESCRIPTION: &'static str =
    "A friendly and curious AI assistant who loves learning about humans and helping them explore ideas.";

/// The personality of the character that comes with the application.
pub const STARTER_PERSONALITY: &'static str =
    "Warm, intellectually curious, slightly playful. Speaks naturally and conversationally. Asks thoughtful follow-up questions. Genuinely interested in the person she's talking to.";

/// The first message of the character that comes with the application.
pub const STARTER_FIRST_MESSAGE: &'static str =
    "Hey there! I'm Aria. I've been looking forward to meeting you. What's on your mind today?";

/// The name of the persona of a fresh installation.
pub const DEFAULT_PERSONA_NAME: &'static str = "User";

/// The input describes the character that comes with the application.
pub open spec fn is_starter(input: CreateCharacterInput) -> bool {
    &&& input.name@ == STARTER_NAME@
    &&& input.description@ == STARTER_DESCRIPTION@
    &&& input.personality@ == STARTER_PERSONALITY@
    &&& input.system_prompt@.len() == 0
    &&& input.first_message@ == STARTER_FIRST_MESSAGE@
    &&& input.example_dialogues@.len() == 0
    &&& input.avatar_path is None
    &&& input.tags@.len() == 2
    &&& input.tags@[0]@ == "assistant"@
    &&& input.tags@[1]@ == "friendly"@
}

/// The character is the one that comes with the application, made at the
/// time `now`.
pub open spec fn is_starter_character(c: Character, now: i64) -> bool {
    &&& c.id@ == STARTER_CHARACTER_ID@
    &&& c.name@ == STARTER_NAME@
    &&& c.description@ == STARTER_DESCRIPTION@
    &&& c.personality@ == STARTER_PERSONALITY@
    &&& c.system_prompt@.len() == 0
    &&& c.first_message@ == STARTER_FIRST_MESSAGE@
    &&& c.example_dialogues@.len() == 0
    &&& c.avatar_path is None
    &&& c.tags@.len() == 2
    &&& c.tags@[0]@ == "assistant"@
    &&& c.tags@[1]@ == "friendly"@
    &&& c.is_bundled
    &&& c.created_at == now
    &&& c.updated_at == now
    &&& c.deleted_at is None
}

/// What is needed to create the character that comes with the application.
pub fn starter_character() -> (input: CreateCharacterInput)
    ensures
        is_starter(input),
{
    let mut tags: Vec<String> = Vec::new();
    tags.push("assistant".to_owned());
    tags.push("friendly".to_owned());
    CreateCharacterInput {
        name: STARTER_NAME.to_owned(),
        description: STARTER_DESCRIPTION.to_owned(),
        personality: STARTER_PERSONALITY.to_owned(),
        system_prompt: String::new(),
        first_message: STARTER_FIRST_MESSAGE.to_owned(),
        example_dialogues: String::new(),
        avatar_path: None,
        tags,
    }
}

/// The persona is the one of a fresh installation: the default persona
/// `User`, with the id `id`, made at the time `now`.
pub open spec fn is_first_persona(p: Persona, id: Seq<char>, now: i64) -> bool {
    &&& p.id@ == id
    &&& p.name@ == DEFAULT_PERSONA_NAME@
    &&& p.description@.len() == 0
    &&& p.is_default
    &&& p.created_at == now
    &&& p.updated_at == now
    &&& p.deleted_at is None
}

/// Gives a fresh installation what it needs: the default persona `User`
/// where no persona is there, and the starter character where it is not
/// there. What is there already stays as it is.
pub fn seed_defaults(personas: &mut Vec<Persona>, characters: &mut Vec<Character>, persona_id: String, now: i64)
    ensures
        if live_personas(old(personas)@).len() == 0 {
            &&& final(personas)@.len() == old(personas)@.len() + 1
            &&& final(personas)@.drop_last() == without_default(old(personas)@)
            &&& is_first_persona(final(personas)@.last(), persona_id@, now)
        } else {
            final(personas)@ == old(personas)@
        },
        if character_at(old(characters)@, STARTER_CHARACTER_ID@, 0) is None {
            &&& final(characters)@.len() == old(characters)@.len() + 1
            &&& final(characters)@.drop_last() == old(characters)@
            &&& is_starter_character(final(characters)@.last(), now)
        } else {
            final(characters)@ == old(characters)@
        },
{
    if PersonaRepo::find_all(personas).len() == 0 {
        let input = CreatePersonaInput {
            name: DEFAULT_PERSONA_NAME.to_owned(),
            description: String::new(),
            is_default: true,
        };
        let _ = PersonaRepo::create(personas, &input, persona_id, now);
        assert(final(personas)@.drop_last() =~= without_default(old(personas)@)) by {
            assert(personas@.drop_last() =~= without_default(old(personas)@));
        }
    }
    if find_character(characters, STARTER_CHARACTER_ID).is_none() {
        let input = starter_character();
        let _ = CharacterRepo::create_bundled(characters, &input, STARTER_CHARACTER_ID, now);
    }
}

} // verus!
