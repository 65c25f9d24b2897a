//! The supervisor of the inference process, as far as it decides: its
//! states, the command line of the process, the startup poll, the class of a
//! log line, the stop sequences of a request, and what a response holds.

use vstd::prelude::*;
use vstd::string::{StrSliceExecFns, StringExecFns, StringSliceAdditionalSpecFns};
use crate::entities::{AppInfo, ModelStatus};
use crate::error::{AppError, AppResult};
use crate::paths::{join_all, joined_all};
use crate::numbers::{decimal, decimal_text, signed_decimal, signed_text};
use crate::strings::{clone_strings, is_blank, is_blank_text, texts};
use crate::text::{contains, contains_bytes, opt_str_text, opt_text};

verus! {

/// The port that the inference process is given where it is free.
pub const DEFAULT_SIDECAR_PORT: u16 = 8384;

/// Polls of the health endpoint before the startup gives up, one a second.
pub const MAX_STARTUP_ATTEMPTS: u32 = 300;

/// Polls between two progress events.
pub const PROGRESS_EVERY: u32 = 10;

/// Seconds without a chunk after which a stream is taken for stalled.
pub const STALL_SECS: u64 = 15;

/// Seconds that a one-shot generation may take.
pub const ONESHOT_TIMEOUT_SECS: u64 = 180;

/// Events that the channel from the reader to the scheduler holds at most.
pub const EVENT_CHANNEL_CAPACITY: usize = 256;

/// Bytes of a text that are embedded at most.
pub const MAX_EMBEDDING_BYTES: usize = 8000;

/// The state of the supervisor.
#[derive(Clone, Copy, Debug, PartialEq, Eq, Structural)]
pub enum SupervisorState {
    Absent,
    Spawning,
    Ready,
    ShuttingDown,
}

/// What happens to the supervisor.
#[derive(Clone, Copy, Debug, PartialEq, Eq, Structural)]
pub enum SupervisorEvent {
    /// The process is spawned.
    Spawn,
    /// The process answered the health check.
    Healthy,
    /// The startup failed: the process exited or never became healthy.
    StartupFailed,
    /// The process is asked to stop.
    Stop,
    /// The process is gone.
    Stopped,
}

/// The state after an event. The supervisor goes from absent to spawning
/// to ready to shutting down and back to absent; a failed startup returns to
/// absent; stopping an absent supervisor changes nothing; and an event that
/// does not fit the state changes nothing.
pub open spec fn next_state(state: SupervisorState, event: SupervisorEvent) -> SupervisorState {
    match (state, event) {
        (SupervisorState::Absent, SupervisorEvent::Spawn) => SupervisorState::Spawning,
        (SupervisorState::Spawning, SupervisorEvent::Healthy) => SupervisorState::Ready,
        (SupervisorState::Spawning, SupervisorEvent::StartupFailed) => SupervisorState::Absent,
        (SupervisorState::Spawning, SupervisorEvent::Stop) => SupervisorState::ShuttingDown,
        (SupervisorState::Ready, SupervisorEvent::Stop) => SupervisorState::ShuttingDown,
        (SupervisorState::ShuttingDown, SupervisorEvent::Stopped) => SupervisorState::Absent,
        (s, _) => s,
    }
}

impl SupervisorState {
    /// The state after an event.
    pub fn on_event(self, event: SupervisorEvent) -> (next: SupervisorState)
        ensures
            next == next_state(self, event),
    {
        match (self, event) {
            (SupervisorState::Absent, SupervisorEvent::Spawn) => SupervisorState::Spawning,
            (SupervisorState::Spawning, SupervisorEvent::Healthy) => SupervisorState::Ready,
            (SupervisorState::Spawning, SupervisorEvent::StartupFailed) => SupervisorState::Absent,
            (SupervisorState::Spawning, SupervisorEvent::Stop) => SupervisorState::ShuttingDown,
            (SupervisorState::Ready, SupervisorEvent::Stop) => SupervisorState::ShuttingDown,
            (SupervisorState::ShuttingDown, SupervisorEvent::Stopped) => SupervisorState::Absent,
            (s, _) => s,
        }
    }

    /// Only a ready supervisor accepts generations and embeddings.
    pub fn accepts_requests(self) -> (accepts: bool)
        ensures
            accepts == (self == SupervisorState::Ready),
    {
        match self {
            SupervisorState::Ready => true,
            _ => false,
        }
    }
}

/// Stopping is idempotent: a second stop changes nothing.
pub proof fn lemma_stop_idempotent(state: SupervisorState)
    ensures
        next_state(next_state(state, SupervisorEvent::Stop), SupervisorEvent::Stop) == next_state(
            state,
            SupervisorEvent::Stop,
        ),
{
}

/// The port for the process: the preferred one where it is free, else the
/// one that the system offers, else the preferred one after all.
pub fn choose_port(preferred: u16, preferred_free: bool, offered: Option<u16>) -> (port: u16)
    ensures
        port == if preferred_free {
            preferred
        } else {
            match offered {
                Some(p) => p,
                None => preferred,
            }
        },
{
    if preferred_free {
        preferred
    } else {
        match offered {
            Some(p) => p,
            None => preferred,
        }
    }
}

/// The arguments of the inference process.
pub open spec fn server_args_text(
    model_path: Seq<char>,
    port: u16,
    context_size: i32,
    gpu_layers: i32,
) -> Seq<Seq<char>> {
    seq![
        "--model"@,
        model_path,
        "--host"@,
        "127.0.0.1"@,
        "--port"@,
        decimal_text(port as nat),
        "--ctx-size"@,
        signed_text(context_size as int),
        "--n-gpu-layers"@,
        signed_text(gpu_layers as int),
        "--parallel"@,
        "1"@,
        "--cont-batching"@,
        "--flash-attn"@,
        "auto"@,
        "-ctk"@,
        "q8_0"@,
        "--embeddings"@,
    ]
}

/// The arguments of the inference process: the model, the loopback host
/// and the port, the context window, the GPU-layer count, one slot,
/// continuous batching, flash attention, a quantized KV cache, and the
/// embedding endpoint.
pub fn server_args(model_path: &str, port: u16, context_size: i32, gpu_layers: i32) -> (args: Vec<
    String,
>)
    ensures
        texts(args@) == server_args_text(model_path@, port, context_size, gpu_layers),
{
    let mut args: Vec<String> = Vec::new();
    args.push("--model".to_owned());
    args.push(model_path.to_owned());
    args.push("--host".to_owned());
    args.push("127.0.0.1".to_owned());
    args.push("--port".to_owned());
    args.push(decimal(port as u64));
    args.push("--ctx-size".to_owned());
    args.push(signed_decimal(context_size as i64));
    args.push("--n-gpu-layers".to_owned());
    args.push(signed_decimal(gpu_layers as i64));
    args.push("--parallel".to_owned());
    args.push("1".to_owned());
    args.push("--cont-batching".to_owned());
    args.push("--flash-attn".to_owned());
    args.push("auto".to_owned());
    args.push("-ctk".to_owned());
    args.push("q8_0".to_owned());
    args.push("--embeddings".to_owned());
    assert(texts(args@) =~= server_args_text(model_path@, port, context_size, gpu_layers));
    args
}

/// The address under which the process answers.
pub fn base_url(port: u16) -> (url: String)
    ensures
        url@ == "http://127.0.0.1:"@ + decimal_text(port as nat),
{
    let mut url = "http://127.0.0.1:".to_owned();
    url.append(decimal(port as u64).as_str());
    url
}

/// What the child process is found to be doing.
#[derive(Clone, Debug, PartialEq, Eq)]
pub enum ChildStatus {
    /// The process runs.
    Running,
    /// The process exited, with this status.
    Exited(String),
    /// The status could not be read, for this reason.
    Unknown(String),
}

/// The event `model:loading`.
#[derive(Clone, Debug, PartialEq, Eq)]
pub struct LoadingEvent {
    pub progress: u32,
    pub message: String,
    pub attempt: u32,
    pub max_attempts: u32,
}

/// What follows a poll of the startup.
#[derive(Clone, Debug, PartialEq, Eq)]
pub enum PollStep {
    /// The startup failed with this error.
    Fail(AppError),
    /// The process is ready; its properties are read next.
    Ready,
    /// Wait a second and poll again.
    Wait,
    /// The last poll has passed: stop the process and fail.
    GiveUp(AppError),
}

/// A progress event goes out at every tenth poll.
pub open spec fn reports_progress(attempt: u32) -> bool {
    attempt % PROGRESS_EVERY == 0
}

/// The progress event of a poll, where it has one.
pub fn loading_progress(attempt: u32) -> (event: Option<LoadingEvent>)
    requires
        1 <= attempt <= MAX_STARTUP_ATTEMPTS,
    ensures
        match event {
            Some(e) => reports_progress(attempt) && e.progress == (attempt * 100) / 300
                && e.attempt == attempt && e.max_attempts
                == MAX_STARTUP_ATTEMPTS && e.message@ == "Loading model... ("@ + decimal_text(
                attempt as nat,
            ) + "s)"@,
            None => !reports_progress(attempt),
        },
{
    if attempt % PROGRESS_EVERY == 0 {
        let mut message = "Loading model... (".to_owned();
        message.append(decimal(attempt as u64).as_str());
        message.append("s)");
        Some(
            LoadingEvent {
                progress: attempt * 100 / MAX_STARTUP_ATTEMPTS,
                message,
                attempt,
                max_attempts: MAX_STARTUP_ATTEMPTS,
            },
        )
    } else {
        None
    }
}

/// What follows the `attempt`-th poll of the startup: a process that has
/// exited, or whose status cannot be read, fails the startup; a healthy
/// process is ready; otherwise the poll is repeated after a second, up to the
/// last attempt.
pub fn after_poll(attempt: u32, child: ChildStatus, healthy: bool) -> (step: PollStep)
    requires
        1 <= attempt <= MAX_STARTUP_ATTEMPTS,
    ensures
        match child {
            ChildStatus::Exited(status) => step matches PollStep::Fail(e) && e is Sidecar
                && e.detail() == "Sidecar process exited unexpectedly with status: "@ + status@,
            ChildStatus::Unknown(reason) => step matches PollStep::Fail(e) && e is Sidecar
                && e.detail() == "Failed to check sidecar status: "@ + reason@,
            ChildStatus::Running => if healthy {
                step is Ready
            } else if attempt < MAX_STARTUP_ATTEMPTS {
                step is Wait
            } else {
                step matches PollStep::GiveUp(e) && e is Sidecar
            },
        },
{
    match child {
        ChildStatus::Exited(status) => {
            let mut message = "Sidecar process exited unexpectedly with status: ".to_owned();
            message.append(status.as_str());
            PollStep::Fail(AppError::Sidecar(message))
        },
        ChildStatus::Unknown(reason) => {
            let mut message = "Failed to check sidecar status: ".to_owned();
            message.append(reason.as_str());
            PollStep::Fail(AppError::Sidecar(message))
        },
        ChildStatus::Running => {
            if healthy {
                PollStep::Ready
            } else if attempt < MAX_STARTUP_ATTEMPTS {
                PollStep::Wait
            } else {
                PollStep::GiveUp(
                    AppError::Sidecar(
                        "Sidecar failed to become healthy within timeout. Check if the model file is valid.".to_owned(),
                    ),
                )
            }
        },
    }
}

/// Tells whether the process is killed after the grace period of a
/// shutdown: a process that has exited is left alone, any other is killed.
pub fn kill_after_grace(child: &ChildStatus) -> (kill: bool)
    ensures
        kill == !(child is Exited),
{
    match child {
        ChildStatus::Exited(_) => false,
        _ => true,
    }
}

/// What the properties endpoint tells of the model.
#[derive(Clone, Debug, PartialEq, Eq)]
pub struct ModelProps {
    pub default_generation_settings: Option<DefaultGenSettings>,
    pub total_slots: Option<i32>,
}

/// The default generation settings of the model.
#[derive(Clone, Debug, PartialEq, Eq)]
pub struct DefaultGenSettings {
    pub stop: Option<Vec<String>>,
    pub n_ctx: Option<i32>,
}

/// The stop tokens that the properties of the model name: those of its
/// default generation settings, where they are there and not empty.
pub fn detected_stop_tokens(props: ModelProps) -> (stops: Option<Vec<String>>)
    ensures
        match stops {
            Some(s) => props.default_generation_settings is Some
                && props.default_generation_settings->0.stop == Some(s) && s@.len() > 0,
            None => props.default_generation_settings is None
                || props.default_generation_settings->0.stop is None
                || props.default_generation_settings->0.stop->0@.len() == 0,
        },
{
    match props.default_generation_settings {
        Some(settings) => match settings.stop {
            Some(stops) => {
                if stops.len() > 0 {
                    Some(stops)
                } else {
                    None
                }
            },
            None => None,
        },
        None => None,
    }
}

/// The stop sequences that are used where neither the caller nor the model
/// names any.
pub open spec fn default_stops() -> Seq<Seq<char>> {
    seq!["<|im_end|>"@, "<|im_start|>"@, "</s>"@, "<|end|>"@, "<|eot_id|>"@]
}

/// The stop sequences of a request, in the order of priority: those of the
/// caller where there are any, else those detected from the model, else the
/// defaults.
pub fn select_stop_sequences(custom: Option<Vec<String>>, detected: Option<Vec<String>>) -> (stops:
    Vec<String>)
    ensures
        texts(stops@) == (if custom is Some && custom->0@.len() > 0 {
            texts(custom->0@)
        } else if detected is Some {
            texts(detected->0@)
        } else {
            default_stops()
        }),
{
    match custom {
        Some(list) => {
            if list.len() > 0 {
                return list;
            }
        },
        None => {},
    }
    match detected {
        Some(list) => list,
        None => {
            let mut stops: Vec<String> = Vec::new();
            stops.push("<|im_end|>".to_owned());
            stops.push("<|im_start|>".to_owned());
            stops.push("</s>".to_owned());
            stops.push("<|end|>".to_owned());
            stops.push("<|eot_id|>".to_owned());
            assert(texts(stops@) =~= default_stops());
            stops
        },
    }
}

/// What `serde_json` reads from the body of a completion as
/// `choices[0].message.content`: nothing where the body is not JSON or holds
/// no such string.
pub uninterp spec fn completion_of_json(body: Seq<char>) -> Option<Seq<char>>;

/// `serde_json::from_str` into a `serde_json::Value`, then the value's
/// indexing and `Value::as_str` along `choices[0].message.content`. Indexing
/// a value never fails: what is not there is null, and null is no string.
#[verifier::external_body]
fn read_completion(body: &str) -> (content: Option<String>)
    ensures
        opt_text(content) == completion_of_json(body@),
{
    let json = serde_json::from_str::<serde_json::Value>(body).ok()?;
    json["choices"][0]["message"]["content"].as_str().map(str::to_owned)
}

/// The text of a one-shot completion. A body without it is an inference
/// error.
pub fn completion_content(body: &str) -> (result: AppResult<String>)
    ensures
        match result {
            Ok(text) => completion_of_json(body@) == Some(text@),
            Err(e) => completion_of_json(body@) is None && e is Llm,
        },
{
    match read_completion(body) {
        Some(text) => Ok(text),
        None => Err(AppError::Llm("Failed to parse response content".to_owned())),
    }
}

/// The number of bytes of the encoding of a character.
pub open spec fn char_width(c: char) -> int {
    let u = c as u32;
    if u < 0x80 {
        1
    } else if u < 0x800 {
        2
    } else if u < 0x10000 {
        3
    } else {
        4
    }
}

/// The number of bytes of the encoding of the first `n` characters.
pub open spec fn width_of(s: Seq<char>, n: int) -> int
    decreases n,
{
    if n <= 0 {
        0
    } else {
        width_of(s, n - 1) + char_width(s[n - 1])
    }
}

/// How many characters of the text fit into `cap` bytes.
pub open spec fn fitting_chars(s: Seq<char>, cap: int, n: int) -> int
    decreases s.len() - n,
{
    if n < 0 || n >= s.len() {
        n
    } else if width_of(s, n + 1) > cap {
        n
    } else {
        fitting_chars(s, cap, n + 1)
    }
}

/// The text that is embedded: the text itself, cut after the last
/// character that fits into 8000 bytes.
pub open spec fn embedding_text(s: Seq<char>) -> Seq<char> {
    s.subrange(0, fitting_chars(s, MAX_EMBEDDING_BYTES as int, 0))
}

/// The unit that holds the rules for embeddings.
pub struct EmbeddingService;

impl EmbeddingService {
    /// The text that is sent to the embedding endpoint for `text`. See
    /// `embedding_input`.
    pub fn generate(text: &str) -> (result: AppResult<String>)
        ensures
            match result {
                Ok(input) => !is_blank_text(text@) && input@ == embedding_text(text@),
                Err(e) => is_blank_text(text@) && e is Validation,
            },
    {
        embedding_input(text)
    }
}

/// Prepares a text for the embedding endpoint. An empty or blank text is
/// refused as invalid; a longer text is cut to 8000 bytes, between two
/// characters.
pub fn embedding_input(text: &str) -> (result: AppResult<String>)
    ensures
        match result {
            Ok(input) => !is_blank_text(text@) && input@ == embedding_text(text@),
            Err(e) => is_blank_text(text@) && e is Validation,
        },
{
    if is_blank(text) {
        return Err(
            AppError::Validation("Cannot generate embedding for empty text".to_owned()),
        );
    }
    let len = text.unicode_len();
    let mut n: usize = 0;
    let mut width: usize = 0;
    let all = text.chars();
    let mut done = false;
    for c in it: all
        invariant
            it.seq() == text@,
            len == text@.len(),
            !done ==> n == it.index() && width == width_of(text@, n as int) && width
                <= MAX_EMBEDDING_BYTES && fitting_chars(text@, MAX_EMBEDDING_BYTES as int, 0)
                == fitting_chars(text@, MAX_EMBEDDING_BYTES as int, n as int),
            done ==> n == fitting_chars(text@, MAX_EMBEDDING_BYTES as int, 0) && n < it.index(),
            n <= text@.len(),
    {
        if !done {
            let u = c as u32;
            let w: usize = if u < 0x80 {
                1
            } else if u < 0x800 {
                2
            } else if u < 0x10000 {
                3
            } else {
                4
            };
            if width + w > MAX_EMBEDDING_BYTES {
                done = true;
            } else {
                width = width + w;
                n = n + 1;
            }
        }
    }
    Ok(text.substring_char(0, n).to_owned())
}

/// How a line of the process's error output is logged.
#[derive(Clone, Copy, Debug, PartialEq, Eq, Structural)]
pub enum LogClass {
    /// A huge line of the verbose output: logged cut, at trace level.
    TruncatedNoise,
    /// The GPU ran out of memory: an error with advice.
    GpuMemory,
    /// The CPU lacks an instruction: an error with advice.
    CpuIncompatible,
    /// An error that is expected while the model loads: debug.
    ExpectedWhileLoading,
    /// The harmless error at the end of a stream: debug.
    StreamEnd,
    /// An error.
    Error,
    /// A warning.
    Warning,
    /// Verbose output of the model loader: trace.
    Loading,
    /// The progress of prompt processing: an event, and trace.
    PromptProgress,
    /// Repetitive health, slot and stream notes: trace.
    Noise,
    /// Anything else: debug.
    Other,
}

/// The class of a line of the process's error output.
pub open spec fn class_of(line: Seq<u8>) -> LogClass {
    if line.len() > 500 && (contains(line, "log_server".spec_bytes()) || contains(
        line,
        "embedding".spec_bytes(),
    ) || contains(line, "response:".spec_bytes())) {
        LogClass::TruncatedNoise
    } else if contains(line, "out of memory".spec_bytes()) || contains(
        line,
        "CUDA error".spec_bytes(),
    ) || contains(line, "VRAM".spec_bytes()) || contains(line, "cudaMalloc".spec_bytes()) {
        LogClass::GpuMemory
    } else if contains(line, "illegal instruction".spec_bytes()) || contains(
        line,
        "SIGILL".spec_bytes(),
    ) {
        LogClass::CpuIncompatible
    } else if contains(line, "error".spec_bytes()) || contains(line, "Error".spec_bytes())
        || contains(line, "ERROR".spec_bytes()) {
        if contains(line, "Loading model".spec_bytes()) && contains(line, "503".spec_bytes()) {
            LogClass::ExpectedWhileLoading
        } else if contains(line, "error decoding response body".spec_bytes()) {
            LogClass::StreamEnd
        } else {
            LogClass::Error
        }
    } else if contains(line, "warn".spec_bytes()) || contains(line, "WARN".spec_bytes()) {
        LogClass::Warning
    } else if contains(line, "load_tensors".spec_bytes()) || contains(
        line,
        "create_tensor".spec_bytes(),
    ) || contains(line, "llama_kv_cache".spec_bytes()) || contains(
        line,
        "llama_model_loader".spec_bytes(),
    ) || contains(line, "model_loader".spec_bytes()) || contains(
        line,
        "llama_new_context_with_model".spec_bytes(),
    ) {
        LogClass::Loading
    } else if contains(line, "prompt processing progress".spec_bytes()) {
        LogClass::PromptProgress
    } else if contains(line, "GET /health".spec_bytes()) || contains(
        line,
        "response: {\"status\":\"ok\"}".spec_bytes(),
    ) || contains(line, "all tasks already finished".spec_bytes()) || contains(
        line,
        "slot ".spec_bytes(),
    ) || contains(line, "update_slots".spec_bytes()) || contains(
        line,
        "streamed chunk".spec_bytes(),
    ) {
        LogClass::Noise
    } else {
        LogClass::Other
    }
}

/// Tells whether the line holds the text.
fn holds(line: &[u8], text: &str) -> (found: bool)
    ensures
        found == contains(line@, text.spec_bytes()),
{
    contains_bytes(line, text.as_bytes())
}

/// The class of a line of the process's error output.
pub fn classify_log_line(line: &str) -> (class: LogClass)
    ensures
        class == class_of(line.spec_bytes()),
{
    let b = line.as_bytes();
    if b.len() > 500 && (holds(b, "log_server") || holds(b, "embedding") || holds(b, "response:")) {
        LogClass::TruncatedNoise
    } else if holds(b, "out of memory") || holds(b, "CUDA error") || holds(b, "VRAM") || holds(
        b,
        "cudaMalloc",
    ) {
        LogClass::GpuMemory
    } else if holds(b, "illegal instruction") || holds(b, "SIGILL") {
        LogClass::CpuIncompatible
    } else if holds(b, "error") || holds(b, "Error") || holds(b, "ERROR") {
        if holds(b, "Loading model") && holds(b, "503") {
            LogClass::ExpectedWhileLoading
        } else if holds(b, "error decoding response body") {
            LogClass::StreamEnd
        } else {
            LogClass::Error
        }
    } else if holds(b, "warn") || holds(b, "WARN") {
        LogClass::Warning
    } else if holds(b, "load_tensors") || holds(b, "create_tensor") || holds(b, "llama_kv_cache")
        || holds(b, "llama_model_loader") || holds(b, "model_loader") || holds(
        b,
        "llama_new_context_with_model",
    ) {
        LogClass::Loading
    } else if holds(b, "prompt processing progress") {
        LogClass::PromptProgress
    } else if holds(b, "GET /health") || holds(b, "response: {\"status\":\"ok\"}") || holds(
        b,
        "all tasks already finished",
    ) || holds(b, "slot ") || holds(b, "update_slots") || holds(b, "streamed chunk") {
        LogClass::Noise
    } else {
        LogClass::Other
    }
}

/// The name of the file of the inference server.
pub open spec fn binary_name(windows: bool) -> Seq<char> {
    if windows {
        "llama-server.exe"@
    } else {
        "llama-server"@
    }
}

/// The name of the file of the inference server.
pub fn sidecar_name(windows: bool) -> (name: &'static str)
    ensures
        name@ == binary_name(windows),
{
    if windows {
        "llama-server.exe"
    } else {
        "llama-server"
    }
}

/// The configured place of the binary, where one is configured.
pub open spec fn custom_place(custom: Option<Seq<char>>) -> Seq<Seq<Seq<char>>> {
    match custom {
        Some(path) => if path.len() > 0 {
            seq![seq![path]]
        } else {
            Seq::empty()
        },
        None => Seq::empty(),
    }
}

/// The places beside the running program, where its directory is known.
pub open spec fn places_beside(exe_dir: Option<Seq<char>>, name: Seq<char>) -> Seq<Seq<Seq<char>>> {
    match exe_dir {
        Some(dir) => seq![seq![dir, name], seq![dir, "resources"@, name]],
        None => Seq::empty(),
    }
}

/// The places where the binary of the inference server is looked for, in
/// the order of their priority, each as the directory it starts from and the
/// names that lead on from there: the configured path; `resources` under the
/// working directory; the resource directory and `resources` under it;
/// `src-tauri/resources`; the directory of the running program and
/// `resources` under it; and the working directory.
pub open spec fn candidate_places(
    custom: Option<Seq<char>>,
    resource_dir: Seq<char>,
    exe_dir: Option<Seq<char>>,
    name: Seq<char>,
) -> Seq<Seq<Seq<char>>> {
    custom_place(custom) + seq![
        seq!["resources"@, name],
        seq![resource_dir, name],
        seq![resource_dir, "resources"@, name],
        seq!["src-tauri/resources"@, name],
    ] + places_beside(exe_dir, name) + seq![seq![name]]
}

/// The places as plain values.
pub open spec fn place_texts(places: Seq<Vec<String>>) -> Seq<Seq<Seq<char>>> {
    places.map_values(|place: Vec<String>| texts(place@))
}

/// The parts of a place of one, two or three parts.
pub open spec fn parts_of(first: Seq<char>, second: Option<Seq<char>>, third: Option<Seq<char>>) -> Seq<
    Seq<char>,
> {
    seq![first] + (match second {
        Some(s) => seq![s],
        None => Seq::empty(),
    }) + (match third {
        Some(t) => seq![t],
        None => Seq::empty(),
    })
}

/// Every place has a part to start from.
pub open spec fn all_start(places: Seq<Vec<String>>) -> bool {
    forall|k: int| 0 <= k < places.len() ==> (#[trigger] places[k])@.len() >= 1
}

/// Adds a place of one, two or three parts.
fn push_place(places: &mut Vec<Vec<String>>, first: &str, second: Option<&str>, third: Option<&str>)
    ensures
        place_texts(final(places)@) == place_texts(old(places)@).push(
            parts_of(first@, opt_str_text(second), opt_str_text(third)),
        ),
        all_start(old(places)@) ==> all_start(final(places)@),
{
    let mut place: Vec<String> = Vec::new();
    place.push(first.to_owned());
    match second {
        Some(s) => {
            place.push(s.to_owned());
        },
        None => {},
    }
    match third {
        Some(t) => {
            place.push(t.to_owned());
        },
        None => {},
    }
    assert(texts(place@) =~= parts_of(first@, opt_str_text(second), opt_str_text(third)));
    places.push(place);
    assert(place_texts(places@) =~= place_texts(old(places)@).push(
        parts_of(first@, opt_str_text(second), opt_str_text(third)),
    ));
    proof {
        if all_start(old(places)@) {
            assert forall|k: int| 0 <= k < places@.len() implies (#[trigger] places@[k])@.len()
                >= 1 by {
                if k < old(places)@.len() {
                    assert(places@[k] == old(places)@[k]);
                }
            }
        }
    }
}

/// The places where the binary of the inference server is looked for, in
/// the order of their priority, each as the directory it starts from and the
/// names that lead on from there.
pub fn binary_places(custom: Option<&str>, resource_dir: &str, exe_dir: Option<&str>, windows: bool) -> (places:
    Vec<Vec<String>>)
    ensures
        place_texts(places@) == candidate_places(
            opt_str_text(custom),
            resource_dir@,
            opt_str_text(exe_dir),
            binary_name(windows),
        ),
        all_start(places@),
{
    let name = sidecar_name(windows);
    let mut places: Vec<Vec<String>> = Vec::new();
    assert(place_texts(places@) =~= Seq::<Seq<Seq<char>>>::empty());
    match custom {
        Some(path) => {
            if path.unicode_len() > 0 {
                push_place(&mut places, path, None, None);
            }
        },
        None => {},
    }
    assert(place_texts(places@) =~~= custom_place(opt_str_text(custom)));
    push_place(&mut places, "resources", Some(name), None);
    push_place(&mut places, resource_dir, Some(name), None);
    push_place(&mut places, resource_dir, Some("resources"), Some(name));
    push_place(&mut places, "src-tauri/resources", Some(name), None);
    let ghost fixed = place_texts(places@);
    assert(fixed =~~= custom_place(opt_str_text(custom)) + seq![
        seq!["resources"@, name@],
        seq![resource_dir@, name@],
        seq![resource_dir@, "resources"@, name@],
        seq!["src-tauri/resources"@, name@],
    ]);
    match exe_dir {
        Some(dir) => {
            push_place(&mut places, dir, Some(name), None);
            push_place(&mut places, dir, Some("resources"), Some(name));
        },
        None => {},
    }
    assert(place_texts(places@) =~~= fixed + places_beside(opt_str_text(exe_dir), name@));
    push_place(&mut places, name, None, None);
    assert(place_texts(places@) =~~= candidate_places(
        opt_str_text(custom),
        resource_dir@,
        opt_str_text(exe_dir),
        binary_name(windows),
    ));
    places
}

/// The path of a place: what the names after its first part lead to from
/// that part.
pub open spec fn place_path(place: Seq<Seq<char>>) -> Seq<char> {
    joined_all(place[0], place.subrange(1, place.len() as int))
}

/// The paths of the places where the binary of the inference server is
/// looked for, in the order of their priority: for each place the path that
/// its names lead to from its first part. A place of one part is that part.
pub fn binary_candidates(custom: Option<&str>, resource_dir: &str, exe_dir: Option<&str>, windows: bool) -> (paths:
    Vec<String>)
    ensures
        paths@.len() == candidate_places(
            opt_str_text(custom),
            resource_dir@,
            opt_str_text(exe_dir),
            binary_name(windows),
        ).len(),
        forall|i: int|
            0 <= i < paths@.len() ==> (#[trigger] paths@[i])@ == place_path(
                candidate_places(
                    opt_str_text(custom),
                    resource_dir@,
                    opt_str_text(exe_dir),
                    binary_name(windows),
                )[i],
            ),
{
    let places = binary_places(custom, resource_dir, exe_dir, windows);
    let mut paths: Vec<String> = Vec::new();
    let mut i: usize = 0;
    while i < places.len()
        invariant
            i <= places.len(),
            paths@.len() == i,
            all_start(places@),
            forall|k: int| 0 <= k < i ==> (#[trigger] paths@[k])@ == place_path(texts(places@[k]@)),
        decreases places.len() - i,
    {
        let mut place = clone_strings(&places[i]);
        let ghost whole = place@;
        let start = place.remove(0);
        proof {
            assert(texts(place@) =~= texts(whole).subrange(1, whole.len() as int));
            assert(texts(whole)[0] == start@);
            assert(texts(whole) == texts(places@[i as int]@));
        }
        paths.push(join_all(start.as_str(), &place));
        i += 1;
    }
    proof {
        let expected = candidate_places(
            opt_str_text(custom),
            resource_dir@,
            opt_str_text(exe_dir),
            binary_name(windows),
        );
        assert forall|k: int| 0 <= k < paths@.len() implies (#[trigger] paths@[k])@ == place_path(
            expected[k],
        ) by {
            assert(place_texts(places@)[k] == texts(places@[k]@));
        }
    }
    paths
}

/// The first position from `from` on, among the first `places`, of a place
/// that exists.
pub open spec fn first_existing(exists: Seq<bool>, places: int, from: int) -> Option<int>
    decreases exists.len() - from + 1,
{
    if from < 0 || from >= exists.len() || from >= places {
        None
    } else if exists[from] {
        Some(from)
    } else {
        first_existing(exists, places, from + 1)
    }
}

/// What is said when the binary is in none of its places.
pub open spec fn missing_binary_text(name: Seq<char>) -> Seq<char> {
    "Sidecar binary '"@ + name
        + "' not found. Configure custom path in Settings or ensure it's in the resources directory."@
}

/// The binary of the inference server: the first of its places that
/// exists. `exists` tells of each place whether a file is there; a place
/// of which it tells nothing counts as missing. Without a place that
/// exists the start of the server fails.
pub fn find_sidecar_binary(places: &Vec<String>, exists: &Vec<bool>, windows: bool) -> (result: AppResult<
    String,
>)
    ensures
        match result {
            Ok(path) => first_existing(exists@, places@.len() as int, 0) is Some && path
                == places@[first_existing(exists@, places@.len() as int, 0)->0],
            Err(e) => first_existing(exists@, places@.len() as int, 0) is None && e is Sidecar
                && e.detail() == missing_binary_text(binary_name(windows)),
        },
{
    let mut i: usize = 0;
    while i < places.len() && i < exists.len()
        invariant
            first_existing(exists@, places@.len() as int, 0) == first_existing(
                exists@,
                places@.len() as int,
                i as int,
            ),
        decreases places.len() - i,
    {
        if exists[i] {
            return Ok(places[i].clone());
        }
        i += 1;
    }
    let mut message = "Sidecar binary '".to_owned();
    message.append(sidecar_name(windows));
    message.append(
        "' not found. Configure custom path in Settings or ensure it's in the resources directory.",
    );
    Err(AppError::Sidecar(message))
}

/// What the shell is told about the model: `ready` where it is loaded; else
/// `not_loaded` where its file exists and `not_found` where it does not. The
/// file is the configured one, or the default one where none is configured.
pub open spec fn status_text(
    model_loaded: bool,
    configured: Seq<char>,
    configured_exists: bool,
    default_exists: bool,
) -> Seq<char> {
    if model_loaded {
        "ready"@
    } else if (if configured.len() == 0 {
        default_exists
    } else {
        configured_exists
    }) {
        "not_loaded"@
    } else {
        "not_found"@
    }
}

/// What the shell is told about the model. The path is the configured
/// one; where none is configured, the default one if a file is there.
pub fn model_status(
    model_loaded: bool,
    configured: &str,
    configured_exists: bool,
    default_path: &str,
    default_exists: bool,
) -> (status: ModelStatus)
    ensures
        status.model_loaded == model_loaded,
        status.status@ == status_text(model_loaded, configured@, configured_exists, default_exists),
        opt_text(status.model_path) == (if configured@.len() > 0 {
            Some(configured@)
        } else if default_exists {
            Some(default_path@)
        } else {
            None
        }),
{
    let none_configured = configured.unicode_len() == 0;
    let status = if model_loaded {
        "ready"
    } else if none_configured {
        if default_exists {
            "not_loaded"
        } else {
            "not_found"
        }
    } else if configured_exists {
        "not_loaded"
    } else {
        "not_found"
    };
    let model_path = if !none_configured {
        Some(configured.to_owned())
    } else if default_exists {
        Some(default_path.to_owned())
    } else {
        None
    };
    ModelStatus { status: status.to_owned(), model_path, model_loaded }
}

/// What the shell is told about the application: its version, its data
/// directory, whether the model is loaded, and the configured path of the
/// model where one is configured.
pub fn app_info(version: &str, data_dir: &str, model_loaded: bool, configured: &str) -> (info: AppInfo)
    ensures
        info.version@ == version@,
        info.data_dir@ == data_dir@,
        info.model_loaded == model_loaded,
        opt_text(info.model_path) == (if configured@.len() > 0 {
            Some(configured@)
        } else {
            None
        }),
{
    AppInfo {
        version: version.to_owned(),
        data_dir: data_dir.to_owned(),
        model_loaded,
        model_path: if configured.unicode_len() > 0 {
            Some(configured.to_owned())
        } else {
            None
        },
    }
}

} // verus!
