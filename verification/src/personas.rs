//! Personas: the identities that the human adopts. At most one of them is
//! the default.

use vstd::prelude::*;
use vstd::string::StrSliceExecFns;
use crate::entities::{mark_deleted, marker, CreatePersonaInput, Persona, UpdatePersonaInput};
use crate::error::{AppError, AppResult};
use crate::strings::{is_blank_text, trim_text, trimmed_text};
use crate::text::str_eq;

verus! {

/// At most one persona is the default.
pub open spec fn at_most_one_default(personas: Seq<Persona>) -> bool {
    forall|i: int, j: int|
        0 <= i < j < personas.len() ==> !((#[trigger] personas[i]).is_default && (
        #[trigger] personas[j]).is_default)
}

/// The first position from `from` on of a persona with the id `id` that is
/// not deleted.
pub open spec fn persona_at(personas: Seq<Persona>, id: Seq<char>, from: int) -> Option<int>
    decreases personas.len() - from + 1,
{
    if from < 0 || from >= personas.len() {
        None
    } else if personas[from].id@ == id && personas[from].deleted_at is None {
        Some(from)
    } else {
        persona_at(personas, id, from + 1)
    }
}

/// The first position from `from` on of a default persona that is not
/// deleted.
pub open spec fn default_at(personas: Seq<Persona>, from: int) -> Option<int>
    decreases personas.len() - from + 1,
{
    if from < 0 || from >= personas.len() {
        None
    } else if personas[from].is_default && personas[from].deleted_at is None {
        Some(from)
    } else {
        default_at(personas, from + 1)
    }
}

/// The personas that are not deleted, in their order.
pub open spec fn live_personas(personas: Seq<Persona>) -> Seq<Persona>
    decreases personas.len(),
{
    if personas.len() == 0 {
        Seq::empty()
    } else if personas.last().deleted_at is None {
        live_personas(personas.drop_last()).push(personas.last())
    } else {
        live_personas(personas.drop_last())
    }
}

/// The persona `p` with its default flag set to `flag`.
pub open spec fn with_default(p: Persona, flag: bool) -> Persona {
    Persona { is_default: flag, ..p }
}

/// The personas with no default among them.
pub open spec fn without_default(personas: Seq<Persona>) -> Seq<Persona> {
    Seq::new(personas.len(), |i: int| with_default(personas[i], false))
}

impl Persona {
    /// A copy of the persona.
    pub fn copy(&self) -> (copy: Persona)
        ensures
            copy == *self,
    {
        Persona {
            id: self.id.clone(),
            name: self.name.clone(),
            description: self.description.clone(),
            is_default: self.is_default,
            created_at: self.created_at,
            updated_at: self.updated_at,
            deleted_at: self.deleted_at,
        }
    }
}

/// The position of the persona with the id `id` that is not deleted.
pub fn find_persona(personas: &Vec<Persona>, id: &str) -> (found: Option<usize>)
    ensures
        match found {
            Some(at) => persona_at(personas@, id@, 0) == Some(at as int) && at < personas@.len()
                && personas@[at as int].id@ == id@ && personas@[at as int].deleted_at is None,
            None => persona_at(personas@, id@, 0) is None,
        },
{
    let mut i: usize = 0;
    while i < personas.len()
        invariant
            i <= personas.len(),
            persona_at(personas@, id@, 0) == persona_at(personas@, id@, i as int),
        decreases personas.len() - i,
    {
        if personas[i].deleted_at.is_none() && str_eq(personas[i].id.as_str(), id) {
            return Some(i);
        }
        i += 1;
    }
    None
}

/// Takes the default flag from every persona.
fn clear_default(personas: &mut Vec<Persona>)
    ensures
        final(personas)@ == without_default(old(personas)@),
{
    let mut i: usize = 0;
    while i < personas.len()
        invariant
            i <= personas.len(),
            personas@.len() == old(personas)@.len(),
            forall|j: int| 0 <= j < i ==> #[trigger] personas@[j] == with_default(
                old(personas)@[j],
                false,
            ),
            forall|j: int| i <= j < personas@.len() ==> personas@[j] == old(personas)@[j],
        decreases personas.len() - i,
    {
        if personas[i].is_default {
            let mut p = personas[i].copy();
            p.is_default = false;
            personas.set(i, p);
        }
        i += 1;
    }
    assert(personas@ =~= without_default(old(personas)@));
}

/// The unit that holds the operations on the stored personas.
pub struct PersonaRepo;

impl PersonaRepo {
    /// The persona with the id `id`.
    pub fn find_by_id(personas: &Vec<Persona>, id: &str) -> (result: AppResult<Persona>)
        ensures
            match result {
                Ok(p) => persona_at(personas@, id@, 0) is Some && p == personas@[persona_at(
                    personas@,
                    id@,
                    0,
                )->0],
                Err(e) => persona_at(personas@, id@, 0) is None && e is NotFound,
            },
    {
        match find_persona(personas, id) {
            Some(at) => Ok(personas[at].copy()),
            None => Err(AppError::NotFound("Record not found".to_owned())),
        }
    }

    /// The personas that are not deleted, in the order in which they are
    /// stored.
    pub fn find_all(personas: &Vec<Persona>) -> (found: Vec<Persona>)
        ensures
            found@ == live_personas(personas@),
    {
        let mut found: Vec<Persona> = Vec::new();
        let mut i: usize = 0;
        assert(personas@.take(0) =~= Seq::<Persona>::empty());
        while i < personas.len()
            invariant
                i <= personas.len(),
                found@ == live_personas(personas@.take(i as int)),
            decreases personas.len() - i,
        {
            proof {
                let upto = personas@.take(i + 1);
                assert(upto.drop_last() =~= personas@.take(i as int));
                assert(upto.last() == personas@[i as int]);
            }
            if personas[i].deleted_at.is_none() {
                found.push(personas[i].copy());
            }
            i += 1;
        }
        proof {
            assert(personas@.take(personas@.len() as int) =~= personas@);
        }
        found
    }

    /// The default persona.
    pub fn find_default(personas: &Vec<Persona>) -> (found: Option<Persona>)
        ensures
            match found {
                Some(p) => default_at(personas@, 0) is Some && p == personas@[default_at(
                    personas@,
                    0,
                )->0] && p.is_default,
                None => default_at(personas@, 0) is None,
            },
    {
        let mut i: usize = 0;
        while i < personas.len()
            invariant
                i <= personas.len(),
                default_at(personas@, 0) == default_at(personas@, i as int),
            decreases personas.len() - i,
        {
            if personas[i].is_default && personas[i].deleted_at.is_none() {
                return Some(personas[i].copy());
            }
            i += 1;
        }
        None
    }

    /// The persona for a conversation: the one that the conversation names,
    /// where it names one, and the default persona otherwise.
    pub fn resolve(personas: &Vec<Persona>, persona_id: Option<&str>) -> (found: Option<Persona>)
        ensures
            match persona_id {
                Some(id) => match found {
                    Some(p) => persona_at(personas@, id@, 0) is Some && p == personas@[persona_at(
                        personas@,
                        id@,
                        0,
                    )->0],
                    None => persona_at(personas@, id@, 0) is None,
                },
                None => match found {
                    Some(p) => default_at(personas@, 0) is Some && p == personas@[default_at(
                        personas@,
                        0,
                    )->0],
                    None => default_at(personas@, 0) is None,
                },
            },
    {
        match persona_id {
            Some(id) => match find_persona(personas, id) {
                Some(at) => Some(personas[at].copy()),
                None => None,
            },
            None => PersonaRepo::find_default(personas),
        }
    }

    /// Stores a new persona. A new default persona takes the default flag
    /// from every other.
    pub fn create(personas: &mut Vec<Persona>, input: &CreatePersonaInput, id: String, now: i64) -> (created:
        Persona)
        ensures
            created.id == id,
            created.name == input.name,
            created.description == input.description,
            created.is_default == input.is_default,
            created.created_at == now,
            created.updated_at == now,
            created.deleted_at is None,
            final(personas)@ == (if input.is_default {
                without_default(old(personas)@)
            } else {
                old(personas)@
            }).push(created),
            at_most_one_default(old(personas)@) ==> at_most_one_default(final(personas)@),
    {
        if input.is_default {
            clear_default(personas);
        }
        let persona = Persona {
            id,
            name: input.name.clone(),
            description: input.description.clone(),
            is_default: input.is_default,
            created_at: now,
            updated_at: now,
            deleted_at: None,
        };
        let created = persona.copy();
        let ghost before = personas@;
        personas.push(persona);
        proof {
            assert forall|i: int, j: int| 0 <= i < j < personas@.len() && at_most_one_default(
                old(personas)@,
            ) implies !((#[trigger] personas@[i]).is_default && (
            #[trigger] personas@[j]).is_default) by {
                assert(personas@[i] == before[i]);
                if j < before.len() {
                    assert(personas@[j] == before[j]);
                    if input.is_default {
                    } else {
                        assert(!(old(personas)@[i].is_default && old(personas)@[j].is_default));
                    }
                }
            }
        }
        created
    }

    /// Makes the persona with the id `id` the default, and no other.
    pub fn set_default(personas: &mut Vec<Persona>, id: &str, now: i64) -> (result: AppResult<Persona>)
        ensures
            final(personas)@.len() == old(personas)@.len(),
            at_most_one_default(final(personas)@),
            match result {
                Ok(p) => persona_at(old(personas)@, id@, 0) is Some && ({
                    let at = persona_at(old(personas)@, id@, 0)->0;
                    &&& p == final(personas)@[at]
                    &&& p == (Persona {
                        is_default: true,
                        updated_at: now,
                        ..old(personas)@[at]
                    })
                    &&& forall|i: int|
                        0 <= i < old(personas)@.len() && i != at ==> #[trigger] final(personas)@[i] == with_default(old(personas)@[i], false)
                }),
                Err(e) => persona_at(old(personas)@, id@, 0) is None && e is NotFound && final(personas)@ == without_default(old(personas)@),
            },
    {
        let found = find_persona(personas, id);
        clear_default(personas);
        match found {
            Some(at) => {
                let mut p = personas[at].copy();
                p.is_default = true;
                p.updated_at = now;
                let copy = p.copy();
                personas.set(at, p);
                Ok(copy)
            },
            None => Err(AppError::NotFound("Record not found".to_owned())),
        }
    }

    /// Replaces the given fields of the persona with the id `id`. A persona
    /// that becomes the default takes the default flag from every other.
    pub fn update(personas: &mut Vec<Persona>, id: &str, input: &UpdatePersonaInput, now: i64) -> (result:
        AppResult<Persona>)
        ensures
            final(personas)@.len() == old(personas)@.len(),
            at_most_one_default(old(personas)@) ==> at_most_one_default(final(personas)@),
            match result {
                Ok(p) => persona_at(old(personas)@, id@, 0) is Some && ({
                    let at = persona_at(old(personas)@, id@, 0)->0;
                    let before = old(personas)@[at];
                    &&& p == final(personas)@[at]
                    &&& p.id == before.id
                    &&& p.name@ == (match input.name {
                        Some(n) => n@,
                        None => before.name@,
                    })
                    &&& p.description@ == (match input.description {
                        Some(d) => d@,
                        None => before.description@,
                    })
                    &&& p.is_default == (match input.is_default {
                        Some(f) => f,
                        None => before.is_default,
                    })
                    &&& p.created_at == before.created_at
                    &&& p.updated_at == now
                    &&& p.deleted_at == before.deleted_at
                    &&& forall|i: int|
                        0 <= i < old(personas)@.len() && i != at ==> #[trigger] final(personas)@[i] == (if input.is_default == Some(true) {
                            with_default(old(personas)@[i], false)
                        } else {
                            old(personas)@[i]
                        })
                }),
                Err(e) => persona_at(old(personas)@, id@, 0) is None && e is NotFound && final(personas)@ == (if input.is_default == Some(true) {
                    without_default(old(personas)@)
                } else {
                    old(personas)@
                }),
            },
    {
        let found = find_persona(personas, id);
        let becomes_default = match input.is_default {
            Some(true) => true,
            _ => false,
        };
        if becomes_default {
            clear_default(personas);
        }
        match found {
            Some(at) => {
                let before = &personas[at];
                let p = Persona {
                    id: before.id.clone(),
                    name: match &input.name {
                        Some(n) => n.clone(),
                        None => before.name.clone(),
                    },
                    description: match &input.description {
                        Some(d) => d.clone(),
                        None => before.description.clone(),
                    },
                    is_default: match input.is_default {
                        Some(f) => f,
                        None => before.is_default,
                    },
                    created_at: before.created_at,
                    updated_at: now,
                    deleted_at: before.deleted_at,
                };
                let copy = p.copy();
                let ghost cleared = personas@;
                personas.set(at, p);
                proof {
                    assert forall|i: int, j: int|
                        0 <= i < j < personas@.len() && at_most_one_default(
                            old(personas)@,
                        ) implies !((#[trigger] personas@[i]).is_default && (
                    #[trigger] personas@[j]).is_default) by {
                        assert(!(old(personas)@[i].is_default && old(personas)@[j].is_default));
                        if i != at {
                            assert(personas@[i] == cleared[i]);
                        }
                        if j != at {
                            assert(personas@[j] == cleared[j]);
                        }
                    }
                }
                Ok(copy)
            },
            None => {
                proof {
                    assert forall|i: int, j: int|
                        0 <= i < j < personas@.len() && at_most_one_default(
                            old(personas)@,
                        ) implies !((#[trigger] personas@[i]).is_default && (
                    #[trigger] personas@[j]).is_default) by {
                        assert(!(old(personas)@[i].is_default && old(personas)@[j].is_default));
                    }
                }
                Err(AppError::NotFound("Record not found".to_owned()))
            },
        }
    }

    /// Marks every persona with the id `id` as deleted at the time `now`.
    /// A persona that is deleted already keeps its marker.
    pub fn delete(personas: &mut Vec<Persona>, id: &str, now: i64)
        ensures
            final(personas)@.len() == old(personas)@.len(),
            forall|i: int|
                0 <= i < old(personas)@.len() ==> #[trigger] final(personas)@[i] == (if (old(personas)@[i]).id@ == id@ {
                    Persona { deleted_at: marker(old(personas)@[i].deleted_at, now), ..old(personas)@[i] }
                } else {
                    old(personas)@[i]
                }),
            at_most_one_default(old(personas)@) ==> at_most_one_default(final(personas)@),
    {
        let mut i: usize = 0;
        while i < personas.len()
            invariant
                i <= personas.len(),
                personas@.len() == old(personas)@.len(),
                forall|j: int|
                    0 <= j < i ==> #[trigger] personas@[j] == (if (old(personas)@[j]).id@ == id@ {
                        Persona { deleted_at: marker(old(personas)@[j].deleted_at, now), ..old(personas)@[j] }
                    } else {
                        old(personas)@[j]
                    }),
                forall|j: int| i <= j < personas@.len() ==> personas@[j] == old(personas)@[j],
            decreases personas.len() - i,
        {
            if str_eq(personas[i].id.as_str(), id) {
                let mut p = personas[i].copy();
                p.deleted_at = mark_deleted(p.deleted_at, now);
                personas.set(i, p);
            }
            i += 1;
        }
        proof {
            assert forall|i: int, j: int|
                0 <= i < j < personas@.len() && at_most_one_default(old(personas)@) implies !((
            #[trigger] personas@[i]).is_default && (#[trigger] personas@[j]).is_default) by {
                assert(!(old(personas)@[i].is_default && old(personas)@[j].is_default));
            }
        }
    }
}

/// The unit that holds the rules for personas.
pub struct PersonaService;

impl PersonaService {
    /// Checks what is needed to create a persona: the name, trimmed, must
    /// not be empty. The result carries the trimmed name.
    pub fn create(input: CreatePersonaInput) -> (result: AppResult<CreatePersonaInput>)
        ensures
            match result {
                Ok(clean) => !is_blank_text(input.name@) && clean.name@ == trimmed_text(
                    input.name@,
                ) && clean.description == input.description && clean.is_default
                    == input.is_default,
                Err(e) => is_blank_text(input.name@) && e is Validation,
            },
    {
        let name = trim_text(input.name.as_str());
        if name.as_str().unicode_len() == 0 {
            return Err(AppError::Validation("Name is required".to_owned()));
        }
        Ok(CreatePersonaInput { name, description: input.description, is_default: input.is_default })
    }

    /// Checks an update of a persona: a new name must not be blank.
    pub fn update(input: &UpdatePersonaInput) -> (result: AppResult<()>)
        ensures
            match result {
                Ok(_) => input.name is Some ==> !is_blank_text(input.name->0@),
                Err(e) => input.name is Some && is_blank_text(input.name->0@) && e is Validation,
            },
    {
        match &input.name {
            Some(name) => {
                if crate::strings::is_blank(name.as_str()) {
                    return Err(AppError::Validation("Name cannot be empty".to_owned()));
                }
            },
            None => {},
        }
        Ok(())
    }

    /// Deletes a persona. The default persona cannot be deleted.
    pub fn delete(personas: &mut Vec<Persona>, id: &str, now: i64) -> (result: AppResult<()>)
        ensures
            final(personas)@.len() == old(personas)@.len(),
            at_most_one_default(old(personas)@) ==> at_most_one_default(final(personas)@),
            match result {
                Ok(_) => persona_at(old(personas)@, id@, 0) is Some && !old(personas)@[persona_at(
                    old(personas)@,
                    id@,
                    0,
                )->0].is_default && forall|i: int|
                    0 <= i < old(personas)@.len() ==> #[trigger] final(personas)@[i] == (if (old(personas)@[i]).id@ == id@ {
                        Persona { deleted_at: marker(old(personas)@[i].deleted_at, now), ..old(personas)@[i] }
                    } else {
                        old(personas)@[i]
                    }),
                Err(e) => final(personas)@ == old(personas)@ && (match persona_at(
                    old(personas)@,
                    id@,
                    0,
                ) {
                    Some(at) => old(personas)@[at].is_default && e is Validation,
                    None => e is NotFound,
                }),
            },
    {
        match find_persona(personas, id) {
            Some(at) => {
                if personas[at].is_default {
                    return Err(
                        AppError::Validation("Cannot delete the default persona".to_owned()),
                    );
                }
            },
            None => {
                return Err(AppError::NotFound("Record not found".to_owned()));
            },
        }
        PersonaRepo::delete(personas, id, now);
        Ok(())
    }
}

} // verus!
