use glee::download::{
    accepts_status, checksum_matches, deletes_partial_file, is_archive, is_model_file, is_stale,
    on_interrupt, range_header, speed_bps, total_size, DownloadRepo, DownloadResult,
    DownloadService,
};
use glee::entities::{AuthorType, Download, DownloadStatus, Message, StartDownloadInput};
use glee::error::{AppError, ErrorKind};
use glee::inference::{
    after_poll, base_url, choose_port, classify_log_line, completion_content,
    detected_stop_tokens, embedding_input, kill_after_grace, loading_progress,
    select_stop_sequences, server_args, ChildStatus, DefaultGenSettings, EmbeddingService,
    LogClass, ModelProps, PollStep, SupervisorEvent, SupervisorState,
};
use glee::numbers::{decimal, parse_i32, signed_decimal};
use glee::paths::AppPaths;
use glee::setup::{check_setup_status, detect_hardware};
use glee::strings::{is_blank, join, trim_text};
use glee::summary::{ConversationSummary, SummaryRange, SummaryService};
use glee::text::{contains_bytes, find, has_prefix, has_suffix, rfind, trim_bytes};
use glee::tokens::estimate_tokens;

fn download(id: &str, status: DownloadStatus, updated_at: i64) -> Download {
    Download {
        id: id.to_string(),
        url: "https://example.org/files/model.gguf".to_string(),
        destination_path: "/data/models/model.gguf".to_string(),
        total_bytes: 100,
        downloaded_bytes: 10,
        status,
        checksum: None,
        created_at: 1,
        updated_at,
        error_message: None,
    }
}

fn message(i: usize, author: AuthorType, tokens: i32) -> Message {
    Message {
        id: format!("m{}", i),
        conversation_id: "conv".to_string(),
        parent_id: None,
        author_type: author,
        author_id: None,
        content: format!("line {}", i),
        is_active_branch: true,
        branch_index: 0,
        token_count: tokens,
        created_at: i as i64,
        author_name: None,
        sibling_count: None,
    }
}

#[test]
fn byte_searches_find_first_and_last() {
    assert_eq!(find(b"abcabc", b"bc"), Some(1));
    assert_eq!(rfind(b"abcabc", b"bc"), Some(4));
    assert_eq!(find(b"abc", b""), Some(0));
    assert_eq!(rfind(b"abc", b""), Some(3));
    assert_eq!(find(b"abc", b"abcd"), None);
    assert_eq!(rfind(b"abc", b"x"), None);
    assert!(contains_bytes(b"hello", b"ell"));
    assert!(has_prefix(b"hello", b"he"));
    assert!(!has_prefix(b"hello", b"el"));
    assert!(has_suffix(b"hello", b"llo"));
    assert!(!has_suffix(b"lo", b"llo"));
}

#[test]
fn trimming_removes_unicode_white_space() {
    assert_eq!(trim_text("  a b \n"), "a b");
    assert_eq!(trim_text("\u{a0}\u{2003}é\u{3000}\u{85}"), "é");
    assert_eq!(trim_text(" \t\r\n"), "");
    assert_eq!(trim_text(""), "");
    assert_eq!(trim_text("x"), "x");
    assert!(is_blank(" \u{2028} "));
    assert!(!is_blank(" . "));
    assert_eq!(trim_bytes("  a b \n".as_bytes()), b"a b".to_vec());
    assert_eq!(trim_bytes("\u{a0}\u{2003}é\u{3000}\u{85}".as_bytes()), "é".as_bytes().to_vec());
    assert_eq!(trim_bytes(b" \t "), Vec::<u8>::new());
}

#[test]
fn texts_are_joined() {
    assert_eq!(join(&vec!["a".to_string(), "b".to_string(), "c".to_string()], ", "), "a, b, c");
    assert_eq!(join(&vec!["a".to_string()], ", "), "a");
    assert_eq!(join(&vec![], ", "), "");
}

#[test]
fn numbers_are_written_and_read_in_decimal() {
    assert_eq!(decimal(0), "0");
    assert_eq!(decimal(8384), "8384");
    assert_eq!(decimal(u64::MAX), "18446744073709551615");
    assert_eq!(signed_decimal(-99), "-99");
    assert_eq!(signed_decimal(i64::MIN), "-9223372036854775808");
    assert_eq!(parse_i32("512"), Some(512));
    assert_eq!(parse_i32("+7"), Some(7));
    assert_eq!(parse_i32("-2147483648"), Some(i32::MIN));
    assert_eq!(parse_i32("2147483647"), Some(i32::MAX));
    assert_eq!(parse_i32("2147483648"), None);
    assert_eq!(parse_i32("-2147483649"), None);
    assert_eq!(parse_i32("007"), Some(7));
    for bad in ["", "+", "-", " 1", "1 ", "1.5", "0x10", "--1", "99999999999999999999"] {
        assert_eq!(parse_i32(bad), None, "{:?}", bad);
    }
}

#[test]
fn supervisor_moves_through_its_states() {
    let s = SupervisorState::Absent;
    assert!(!s.accepts_requests());
    let s = s.on_event(SupervisorEvent::Spawn);
    assert_eq!(s, SupervisorState::Spawning);
    assert!(!s.accepts_requests());
    let s = s.on_event(SupervisorEvent::Healthy);
    assert_eq!(s, SupervisorState::Ready);
    assert!(s.accepts_requests());
    let s = s.on_event(SupervisorEvent::Stop);
    assert_eq!(s, SupervisorState::ShuttingDown);
    assert_eq!(s.on_event(SupervisorEvent::Stop), SupervisorState::ShuttingDown);
    assert_eq!(s.on_event(SupervisorEvent::Stopped), SupervisorState::Absent);
    assert_eq!(SupervisorState::Absent.on_event(SupervisorEvent::Stop), SupervisorState::Absent);
    assert_eq!(
        SupervisorState::Spawning.on_event(SupervisorEvent::StartupFailed),
        SupervisorState::Absent
    );
    assert_eq!(SupervisorState::Ready.on_event(SupervisorEvent::Spawn), SupervisorState::Ready);
}

#[test]
fn process_is_started_with_its_arguments() {
    assert_eq!(choose_port(8384, true, Some(1)), 8384);
    assert_eq!(choose_port(8384, false, Some(50123)), 50123);
    assert_eq!(choose_port(8384, false, None), 8384);
    assert_eq!(base_url(8384), "http://127.0.0.1:8384");
    assert_eq!(
        server_args("/m/model.gguf", 8384, 4096, -1),
        vec![
            "--model", "/m/model.gguf", "--host", "127.0.0.1", "--port", "8384", "--ctx-size",
            "4096", "--n-gpu-layers", "-1", "--parallel", "1", "--cont-batching", "--flash-attn",
            "auto", "-ctk", "q8_0", "--embeddings"
        ]
    );
}

#[test]
fn startup_is_polled_up_to_the_last_attempt() {
    assert_eq!(after_poll(1, ChildStatus::Running, false), PollStep::Wait);
    assert_eq!(after_poll(299, ChildStatus::Running, false), PollStep::Wait);
    assert_eq!(after_poll(7, ChildStatus::Running, true), PollStep::Ready);
    assert_eq!(after_poll(300, ChildStatus::Running, true), PollStep::Ready);
    assert_eq!(
        after_poll(300, ChildStatus::Running, false),
        PollStep::GiveUp(AppError::Sidecar(
            "Sidecar failed to become healthy within timeout. Check if the model file is valid."
                .to_string()
        ))
    );
    assert_eq!(
        after_poll(3, ChildStatus::Exited("exit status: 1".to_string()), true),
        PollStep::Fail(AppError::Sidecar(
            "Sidecar process exited unexpectedly with status: exit status: 1".to_string()
        ))
    );
    assert_eq!(
        after_poll(3, ChildStatus::Unknown("denied".to_string()), false),
        PollStep::Fail(AppError::Sidecar("Failed to check sidecar status: denied".to_string()))
    );
    assert_eq!(loading_progress(9), None);
    let e = loading_progress(10).unwrap();
    assert_eq!((e.progress, e.attempt, e.max_attempts), (3, 10, 300));
    assert_eq!(e.message, "Loading model... (10s)");
    assert_eq!(loading_progress(150).unwrap().progress, 50);
    assert_eq!(loading_progress(300).unwrap().progress, 100);
    assert!(kill_after_grace(&ChildStatus::Running));
    assert!(kill_after_grace(&ChildStatus::Unknown("x".to_string())));
    assert!(!kill_after_grace(&ChildStatus::Exited("0".to_string())));
}

#[test]
fn stop_sequences_follow_the_priority_order() {
    let list = |items: &[&str]| Some(items.iter().map(|s| s.to_string()).collect::<Vec<_>>());
    assert_eq!(select_stop_sequences(list(&["A"]), list(&["B"])), vec!["A"]);
    assert_eq!(select_stop_sequences(list(&[]), list(&["B"])), vec!["B"]);
    assert_eq!(select_stop_sequences(None, list(&["B", "C"])), vec!["B", "C"]);
    assert_eq!(
        select_stop_sequences(None, None),
        vec!["<|im_end|>", "<|im_start|>", "</s>", "<|end|>", "<|eot_id|>"]
    );
    let props = |stop: Option<Vec<String>>| ModelProps {
        default_generation_settings: Some(DefaultGenSettings { stop, n_ctx: Some(4096) }),
        total_slots: Some(1),
    };
    assert_eq!(detected_stop_tokens(props(list(&["</s>"]))), list(&["</s>"]));
    assert_eq!(detected_stop_tokens(props(list(&[]))), None);
    assert_eq!(detected_stop_tokens(props(None)), None);
    assert_eq!(
        detected_stop_tokens(ModelProps { default_generation_settings: None, total_slots: None }),
        None
    );
}

#[test]
fn completion_content_is_read_from_the_body() {
    assert_eq!(
        completion_content("{\"choices\":[{\"message\":{\"role\":\"assistant\",\"content\":\"A summary.\"}}]}"),
        Ok("A summary.".to_string())
    );
    for body in ["", "not json", "{}", "{\"choices\":[]}", "{\"choices\":[{\"message\":{\"content\":5}}]}"] {
        assert_eq!(
            completion_content(body),
            Err(AppError::Llm("Failed to parse response content".to_string())),
            "{:?}",
            body
        );
    }
}

#[test]
fn embedding_input_is_checked_and_cut() {
    assert_eq!(
        embedding_input("  \n"),
        Err(AppError::Validation("Cannot generate embedding for empty text".to_string()))
    );
    assert_eq!(EmbeddingService::generate("  keep me  "), Ok("  keep me  ".to_string()));
    assert_eq!(embedding_input(&"a".repeat(8000)).unwrap().len(), 8000);
    assert_eq!(embedding_input(&"a".repeat(8001)).unwrap().len(), 8000);
    // A character is never split: 2667 three-byte characters would need 8001 bytes.
    let wide = "€".repeat(3000);
    let cut = embedding_input(&wide).unwrap();
    assert_eq!(cut.len(), 7998);
    assert_eq!(cut.chars().count(), 2666);
    let mixed = format!("{}é", "a".repeat(7999));
    assert_eq!(embedding_input(&mixed).unwrap().len(), 7999);
}

#[test]
fn log_lines_are_classified_in_order() {
    let long = format!("embedding {}", "x".repeat(600));
    assert_eq!(classify_log_line(&long), LogClass::TruncatedNoise);
    assert_eq!(classify_log_line(&format!("error {}", "x".repeat(600))), LogClass::Error);
    assert_eq!(classify_log_line("ggml: CUDA error: out of memory"), LogClass::GpuMemory);
    assert_eq!(classify_log_line("cudaMalloc failed"), LogClass::GpuMemory);
    assert_eq!(classify_log_line("SIGILL received"), LogClass::CpuIncompatible);
    assert_eq!(classify_log_line("error: Loading model, 503"), LogClass::ExpectedWhileLoading);
    assert_eq!(classify_log_line("Error: error decoding response body"), LogClass::StreamEnd);
    assert_eq!(classify_log_line("ERROR something"), LogClass::Error);
    assert_eq!(classify_log_line("WARN slow"), LogClass::Warning);
    assert_eq!(classify_log_line("llama_model_loader: loaded"), LogClass::Loading);
    assert_eq!(classify_log_line("prompt processing progress = 0.5"), LogClass::PromptProgress);
    assert_eq!(classify_log_line("GET /health 200"), LogClass::Noise);
    assert_eq!(classify_log_line("slot 0 released"), LogClass::Noise);
    assert_eq!(classify_log_line("hello"), LogClass::Other);
    assert_eq!(classify_log_line(""), LogClass::Other);
}

#[test]
fn setup_status_names_what_is_missing() {
    assert_eq!(detect_hardware(Some("Name\nNVIDIA GeForce RTX 3080")), ("NVIDIA GPU Detected".to_string(), "cuda".to_string()));
    assert_eq!(detect_hardware(Some("AMD Radeon RX")), ("AMD GPU Detected".to_string(), "rocm".to_string()));
    assert_eq!(detect_hardware(Some("Intel UHD")), ("Integrated/CPU Graphics".to_string(), "cpu".to_string()));
    assert_eq!(detect_hardware(None), ("Unknown".to_string(), "cpu".to_string()));
    let status = check_setup_status(true, false, Some("radeon"));
    assert!(!status.is_complete);
    assert!(!status.missing_binary);
    assert!(status.missing_model);
    assert_eq!(status.recommended_variant, "rocm");
    assert!(check_setup_status(true, true, None).is_complete);
}

#[test]
fn downloads_are_started_where_they_belong() {
    let paths = AppPaths::new("/data");
    let mut downloads = vec![download("old", DownloadStatus::Completed, 1)];
    let input = |url: &str, kind: Option<&str>| StartDownloadInput {
        url: url.to_string(),
        checksum: Some("ABC".to_string()),
        download_type: kind.map(|k| k.to_string()),
    };
    let model = DownloadService::start(
        &mut downloads, &paths, input("https://h/x/tiny.gguf", None), "d1".to_string(), 5,
    )
    .unwrap();
    assert_eq!(model.destination_path, "/data/models/tiny.gguf");
    assert_eq!(model.status, DownloadStatus::Pending);
    assert_eq!((model.total_bytes, model.downloaded_bytes), (0, 0));
    assert_eq!(downloads.len(), 2);
    let binary = DownloadService::start(
        &mut downloads, &paths, input("https://h/llama.zip", Some("binary")), "d2".to_string(), 6,
    )
    .unwrap();
    assert_eq!(binary.destination_path, "/data/bin/llama.zip");
    DownloadRepo::update_status(&mut downloads, "d1", DownloadStatus::Downloading, None, 7);
    assert_eq!(downloads[1].status, DownloadStatus::Downloading);
    assert_eq!(downloads[1].updated_at, 7);
    assert_eq!(
        DownloadService::start(&mut downloads, &paths, input("https://h/y.gguf", None), "d3".to_string(), 8),
        Err(AppError::Download("Busy".to_string()))
    );
    assert_eq!(downloads.len(), 3);
    assert_eq!(DownloadRepo::find_active(&downloads).unwrap().id, "d1");
    DownloadRepo::update_progress(&mut downloads, "d1", 42, 9);
    assert_eq!((downloads[1].downloaded_bytes, downloads[1].updated_at), (42, 9));
    DownloadRepo::update_progress(&mut downloads, "d1", -1, 10);
    assert_eq!((downloads[1].downloaded_bytes, downloads[1].updated_at), (42, 10));
    DownloadRepo::update_status(&mut downloads, "d1", DownloadStatus::Failed, Some("boom"), 11);
    assert_eq!(downloads[1].error_message, Some("boom".to_string()));
    assert_eq!(DownloadRepo::find_active(&downloads).unwrap().id, "d2");
}

#[test]
fn download_decisions() {
    assert!(is_stale(&download("d", DownloadStatus::Downloading, 100), 131));
    assert!(!is_stale(&download("d", DownloadStatus::Downloading, 100), 130));
    assert!(!is_stale(&download("d", DownloadStatus::Paused, 100), 500));
    assert_eq!(range_header(0), None);
    assert_eq!(range_header(-5), None);
    assert_eq!(range_header(1024), Some("bytes=1024-".to_string()));
    assert!(accepts_status(200));
    assert!(accepts_status(206));
    assert!(!accepts_status(416));
    assert!(!accepts_status(199));
    assert_eq!(total_size(0, Some(77), 0), Ok(77));
    assert_eq!(total_size(10, None, 99), Ok(99));
    assert_eq!(total_size(0, None, 99).map_err(|e| e.kind()), Err(ErrorKind::Download));
    assert_eq!(on_interrupt(DownloadStatus::Paused), Some(DownloadResult::Paused));
    assert_eq!(on_interrupt(DownloadStatus::Cancelled), Some(DownloadResult::Cancelled));
    assert_eq!(on_interrupt(DownloadStatus::Downloading), None);
    assert!(deletes_partial_file(DownloadResult::Cancelled));
    assert!(!deletes_partial_file(DownloadResult::Paused));
    assert_eq!(speed_bps(1000, 200), 5000);
    assert_eq!(speed_bps(1000, 0), 0);
    assert_eq!(speed_bps(u64::MAX, 1), u64::MAX);
    assert!(checksum_matches("ABCdef", "abcDEF"));
    assert!(!checksum_matches("abc", "abd"));
    assert!(is_model_file("/m/x.gguf"));
    assert!(!is_model_file("/m/x.gguf.part"));
    assert!(is_archive("/b/llama.zip"));
    assert!(!is_archive("zip"));
}

#[test]
fn summaries_are_due_by_count_or_tokens() {
    let messages: Vec<Message> = (0..30).map(|i| message(i, AuthorType::User, 10)).collect();
    assert_eq!(
        SummaryService::plan(&messages, None, 20, 4000),
        Some(SummaryRange { start: 0, end: 25 })
    );
    assert_eq!(
        SummaryService::plan(&messages, Some("m4"), 20, 4000),
        Some(SummaryRange { start: 5, end: 25 })
    );
    assert_eq!(SummaryService::plan(&messages, Some("m10"), 20, 4000), None);
    assert_eq!(SummaryService::plan(&messages, Some("m10"), 20, 190), Some(SummaryRange { start: 11, end: 25 }));
    assert_eq!(SummaryService::plan(&messages, Some("m25"), 1, 1), None);
    assert_eq!(SummaryService::plan(&messages, Some("m23"), 1, 1), Some(SummaryRange { start: 24, end: 25 }));
    assert_eq!(SummaryService::plan(&messages, Some("unknown"), 1, 1), None);
    assert_eq!(SummaryService::plan(&vec![], None, 20, 4000), None);
}

#[test]
fn summary_prompt_and_record() {
    let messages = vec![
        message(0, AuthorType::User, 1),
        message(1, AuthorType::Character, 1),
        message(2, AuthorType::System, 1),
    ];
    let range = SummaryRange { start: 0, end: 3 };
    assert_eq!(
        SummaryService::prompt(&messages, range),
        "Summarize this conversation in 2-3 sentences, focusing on key topics and any important facts learned about the user:\n\nUser: line 0\nCharacter: line 1\nCharacter: line 2\n\nSummary:"
    );
    let summary = SummaryService::create(
        &messages, SummaryRange { start: 1, end: 3 }, "conv", "They talked.", "sum1".to_string(), 9,
    );
    assert_eq!(summary.message_range_start, Some("m1".to_string()));
    assert_eq!(summary.message_range_end, Some("m2".to_string()));
    assert_eq!(summary.message_count, 2);
    assert_eq!(summary.token_count, estimate_tokens("They talked."));
    assert_eq!(summary.created_at, 9);
}

#[test]
fn summaries_within_budget_come_in_chronological_order() {
    let s = |id: &str, tokens: i32, end: &str| ConversationSummary {
        id: id.to_string(),
        conversation_id: "conv".to_string(),
        content: id.to_string(),
        message_range_start: None,
        message_range_end: Some(end.to_string()),
        message_count: 1,
        token_count: tokens,
        created_at: 1,
    };
    let newest_first = vec![s("new", 40, "m9"), s("mid", 50, "m5"), s("old", 20, "m2")];
    let ids = |v: Vec<ConversationSummary>| v.into_iter().map(|s| s.id).collect::<Vec<_>>();
    assert_eq!(ids(SummaryService::get_for_conversation(&newest_first, 90)), vec!["mid", "new"]);
    assert_eq!(ids(SummaryService::get_for_conversation(&newest_first, 200)), vec!["old", "mid", "new"]);
    assert!(SummaryService::get_for_conversation(&newest_first, 39).is_empty());
    assert_eq!(SummaryService::last_summarized_id(&newest_first), Some("m9".to_string()));
    assert_eq!(SummaryService::last_summarized_id(&vec![]), None);
}
