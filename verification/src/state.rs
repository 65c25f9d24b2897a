//! The process-wide state of the scheduler: whether the inference process is
//! there, and the one slot for an active generation.

use vstd::prelude::*;
use crate::text::str_eq;

verus! {

/// What wakes the queue worker.
#[derive(Clone, Copy, Debug, PartialEq, Eq, Structural)]
pub enum QueueMessage {
    Process,
    Stop,
}

/// What the download worker is told.
#[derive(Clone, Debug, PartialEq, Eq)]
pub enum DownloadMessage {
    Start { id: String },
    Pause { id: String },
    Resume { id: String },
    Cancel { id: String },
    Stop,
}

/// The generation that holds the slot.
#[derive(Clone, Debug, PartialEq, Eq)]
pub struct GenerationState {
    pub message_id: String,
    pub conversation_id: String,
    /// When the generation began, in seconds.
    pub started_at: u64,
}

impl GenerationState {
    /// A copy of the state.
    pub fn copy(&self) -> (copy: GenerationState)
        ensures
            copy == *self,
    {
        GenerationState {
            message_id: self.message_id.clone(),
            conversation_id: self.conversation_id.clone(),
            started_at: self.started_at,
        }
    }
}

/// The state that the scheduler and the commands share.
#[derive(Clone, Debug, PartialEq, Eq)]
pub struct AppState {
    /// The inference process is there.
    pub model_loaded: bool,
    /// The generation slot.
    pub generating: Option<GenerationState>,
}

/// The seconds from `started_at` to `now`; none where `now` lies before.
pub open spec fn elapsed(started_at: u64, now: u64) -> int {
    if now >= started_at {
        now - started_at
    } else {
        0
    }
}

impl AppState {
    /// The state at startup: no inference process, the slot free.
    pub fn new() -> (state: AppState)
        ensures
            !state.model_loaded,
            state.generating is None,
    {
        AppState { model_loaded: false, generating: None }
    }

    /// Tells whether the inference process is there.
    pub fn is_model_loaded(&self) -> (loaded: bool)
        ensures
            loaded == self.model_loaded,
    {
        self.model_loaded
    }

    /// Records whether the inference process is there.
    pub fn set_sidecar(&mut self, loaded: bool)
        ensures
            final(self).model_loaded == loaded,
            final(self).generating == old(self).generating,
    {
        self.model_loaded = loaded;
    }

    /// Takes the inference process out of the state. Tells whether there
    /// was one.
    pub fn take_sidecar(&mut self) -> (taken: bool)
        ensures
            taken == old(self).model_loaded,
            !final(self).model_loaded,
            final(self).generating == old(self).generating,
    {
        let taken = self.model_loaded;
        self.model_loaded = false;
        taken
    }

    /// Tells whether the slot is taken.
    pub fn is_generating(&self) -> (busy: bool)
        ensures
            busy == self.generating is Some,
    {
        self.generating.is_some()
    }

    /// Reserves the slot for the generation of `message_id`, in one step:
    /// where the slot is free it is taken, and where it is taken nothing
    /// changes. Tells whether the slot was reserved.
    pub fn try_start_generation(&mut self, message_id: String, conversation_id: String, now: u64) -> (reserved:
        bool)
        ensures
            reserved == old(self).generating is None,
            final(self).model_loaded == old(self).model_loaded,
            reserved ==> final(self).generating == Some(
                GenerationState { message_id, conversation_id, started_at: now },
            ),
            !reserved ==> final(self).generating == old(self).generating,
    {
        if self.generating.is_some() {
            return false;
        }
        self.generating = Some(GenerationState { message_id, conversation_id, started_at: now });
        true
    }

    /// Reserves the slot where it is free, and leaves the generation that
    /// holds it otherwise. The result is the generation that holds the slot
    /// afterwards.
    pub fn start_generation(&mut self, message_id: String, conversation_id: String, now: u64) -> (holder:
        GenerationState)
        ensures
            final(self).generating == Some(holder),
            final(self).model_loaded == old(self).model_loaded,
            old(self).generating is Some ==> Some(holder) == old(self).generating,
            old(self).generating is None ==> holder == (GenerationState {
                message_id,
                conversation_id,
                started_at: now,
            }),
    {
        match &self.generating {
            Some(current) => current.copy(),
            None => {
                let holder = GenerationState { message_id, conversation_id, started_at: now };
                let copy = holder.copy();
                self.generating = Some(holder);
                copy
            },
        }
    }

    /// Frees the slot and hands out the generation that held it, which the
    /// caller cancels.
    pub fn stop_generation(&mut self) -> (stopped: Option<GenerationState>)
        ensures
            stopped == old(self).generating,
            final(self).generating is None,
            final(self).model_loaded == old(self).model_loaded,
    {
        self.generating.take()
    }

    /// Ends the work: frees the slot and hands out the generation that held
    /// it, which the caller cancels before it tells the workers to stop.
    pub fn shutdown(&mut self) -> (stopped: Option<GenerationState>)
        ensures
            stopped == old(self).generating,
            final(self).generating is None,
            final(self).model_loaded == old(self).model_loaded,
    {
        self.stop_generation()
    }

    /// Frees the slot.
    pub fn finish_generation(&mut self)
        ensures
            final(self).generating is None,
            final(self).model_loaded == old(self).model_loaded,
    {
        self.generating = None;
    }

    /// The generation that holds the slot.
    pub fn current_generation(&self) -> (current: Option<GenerationState>)
        ensures
            current == self.generating,
    {
        match &self.generating {
            Some(g) => Some(g.copy()),
            None => None,
        }
    }

    /// The id of the message that is being generated.
    pub fn current_generating_id(&self) -> (id: Option<String>)
        ensures
            match id {
                Some(text) => self.generating is Some && text == self.generating->0.message_id,
                None => self.generating is None,
            },
    {
        match &self.generating {
            Some(g) => Some(g.message_id.clone()),
            None => None,
        }
    }

    /// Tells whether the message `message_id` is being generated.
    pub fn is_generating_message(&self, message_id: &str) -> (found: bool)
        ensures
            found == (self.generating is Some && self.generating->0.message_id@ == message_id@),
    {
        match &self.generating {
            Some(g) => str_eq(g.message_id.as_str(), message_id),
            None => false,
        }
    }

    /// Tells whether the generation that holds the slot belongs to the
    /// conversation `conversation_id`; the caller then cancels it.
    pub fn cancel_conversation_generation(&self, conversation_id: &str) -> (found: bool)
        ensures
            found == (self.generating is Some && self.generating->0.conversation_id@
                == conversation_id@),
    {
        match &self.generating {
            Some(g) => str_eq(g.conversation_id.as_str(), conversation_id),
            None => false,
        }
    }

    /// The watchdog: a generation that began more than `timeout_secs`
    /// seconds before `now` loses the slot, and the caller cancels it. Tells
    /// whether a generation timed out.
    pub fn check_generation_timeout(&mut self, timeout_secs: u64, now: u64) -> (timed_out: bool)
        ensures
            timed_out == (old(self).generating is Some && elapsed(
                old(self).generating->0.started_at,
                now,
            ) > timeout_secs),
            timed_out ==> final(self).generating is None,
            !timed_out ==> final(self).generating == old(self).generating,
            final(self).model_loaded == old(self).model_loaded,
    {
        let expired = match &self.generating {
            Some(g) => now >= g.started_at && now - g.started_at > timeout_secs,
            None => false,
        };
        if expired {
            self.generating = None;
        }
        expired
    }
}

} // verus!
