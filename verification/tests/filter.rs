use glee::filter::{FilterMode, TokenFilter};

fn run(filter: &mut TokenFilter, tokens: &[&str]) -> String {
    let mut visible = String::new();
    for token in tokens {
        for chunk in filter.process(token) {
            visible.push_str(&chunk);
        }
    }
    if let Some(rest) = filter.flush() {
        visible.push_str(&rest);
    }
    visible
}

#[test]
fn new_filter_is_neutral_and_empty() {
    let filter = TokenFilter::new("Aria");
    assert!(filter.buffer.is_empty());
    assert_eq!(filter.mode, FilterMode::Neutral);
    assert_eq!(filter.character_name, "Aria");
}

#[test]
fn plain_short_answer_comes_out_at_flush() {
    let mut filter = TokenFilter::new("Aria");
    assert!(filter.process("How").is_empty());
    assert!(filter.process(" are").is_empty());
    assert!(filter.process(" you?").is_empty());
    assert_eq!(filter.flush(), Some("How are you?".to_string()));
    assert_eq!(filter.flush(), None);
}

#[test]
fn thinking_block_is_hidden() {
    let mut filter = TokenFilter::new("Aria");
    let out = run(
        &mut filter,
        &["<thinking>secret plan</thinking>", "<RESPONSE>Hello", " there</RESPONSE>"],
    );
    assert_eq!(out, "Hello there");
}

#[test]
fn text_before_the_response_bracket_is_dropped() {
    let mut filter = TokenFilter::new("Aria");
    let out = filter.process("noise<RESPONSE>Hi</RESPONSE>trailing");
    assert_eq!(out, vec!["Hi".to_string()]);
    assert_eq!(filter.mode, FilterMode::Neutral);
    assert_eq!(filter.buffer, b"trailing".to_vec());
}

#[test]
fn tag_split_over_tokens_is_reassembled() {
    let mut filter = TokenFilter::new("Aria");
    assert!(filter.process("<RESP").is_empty());
    assert!(filter.process("ONSE>").is_empty());
    assert_eq!(filter.mode, FilterMode::InResponse);
    assert_eq!(filter.process("Hello</RES"), vec!["Hello".to_string()]);
    assert_eq!(filter.buffer, b"</RES".to_vec());
    assert!(filter.process("PONSE>").is_empty());
    assert_eq!(filter.mode, FilterMode::Neutral);
    assert_eq!(filter.flush(), None);
}

#[test]
fn partial_tag_tail_is_never_emitted_by_process() {
    let tags = ["<thinking>", "</thinking>", "<RESPONSE>", "</RESPONSE>"];
    for tag in tags {
        for cut in 1..tag.len() {
            let mut filter = TokenFilter::new("Aria");
            filter.process("<RESPONSE>");
            let token = format!("abc{}", &tag[..cut]);
            let out = filter.process(&token);
            assert_eq!(out, vec!["abc".to_string()]);
            assert_eq!(filter.buffer, tag[..cut].as_bytes().to_vec());
        }
    }
}

#[test]
fn lone_angle_bracket_inside_text_is_released_once_disproved() {
    let mut filter = TokenFilter::new("Aria");
    filter.process("<RESPONSE>");
    assert_eq!(filter.process("a <"), vec!["a ".to_string()]);
    assert_eq!(filter.process(" b"), vec!["< b".to_string()]);
}

#[test]
fn unterminated_thinking_block_is_dropped_at_flush() {
    let mut filter = TokenFilter::new("Aria");
    assert!(filter.process("<thinking>never closed").is_empty());
    assert_eq!(filter.mode, FilterMode::InThinking);
    assert!(filter.buffer.len() <= 10);
    assert_eq!(filter.flush(), None);
}

#[test]
fn response_without_close_is_flushed() {
    let mut filter = TokenFilter::new("Aria");
    assert_eq!(filter.process("<RESPONSE>Hi <"), vec!["Hi ".to_string()]);
    assert_eq!(filter.flush(), Some("<".to_string()));
}

#[test]
fn long_untagged_text_switches_to_passthrough() {
    let mut filter = TokenFilter::new("Aria");
    let text = "x".repeat(500);
    assert!(filter.process(&text).is_empty());
    assert_eq!(filter.mode, FilterMode::Neutral);
    let out = filter.process("y");
    assert_eq!(out.len(), 1);
    assert_eq!(out[0].len(), 501);
    assert_eq!(filter.mode, FilterMode::Passthrough);
    assert!(filter.buffer.is_empty());
}

#[test]
fn leaked_prompt_is_cut_at_the_last_speaker_marker() {
    let mut filter = TokenFilter::new("Aria");
    let out = filter.process("System: You are Aria.\nUser: hi\nAria: old\nAria: *waves* Hello!");
    assert_eq!(out, vec!["*waves* Hello!".to_string()]);
    assert_eq!(filter.mode, FilterMode::InResponse);
}

#[test]
fn leaked_prompt_waits_for_the_marker() {
    let mut filter = TokenFilter::new("Aria");
    assert!(filter.process("  Scenario: a tavern").is_empty());
    assert_eq!(filter.mode, FilterMode::Neutral);
    assert_eq!(filter.buffer, b"  Scenario: a tavern".to_vec());
    // A marker with fewer than six bytes after it is not yet trusted.
    assert!(filter.process("\nAria: Hi").is_empty());
    assert_eq!(filter.mode, FilterMode::Neutral);
    assert_eq!(filter.process(" there"), vec!["Hi there".to_string()]);
}

#[test]
fn leaked_prompt_without_marker_is_dropped_when_too_long() {
    let mut filter = TokenFilter::new("Aria");
    let text = format!("System: {}", "z".repeat(1000));
    assert!(filter.process(&text).is_empty());
    assert!(filter.buffer.is_empty());
    assert_eq!(filter.mode, FilterMode::Neutral);
}

#[test]
fn step_limit_hands_out_the_buffer_unfiltered() {
    let mut filter = TokenFilter::new("Aria");
    let token = "<RESPONSE></RESPONSE>".repeat(600);
    let out = filter.process(&token);
    assert_eq!(out.len(), 1);
    // 1000 steps consume 500 pairs; 100 pairs are handed out as they stand.
    assert_eq!(out[0], "<RESPONSE></RESPONSE>".repeat(100));
    assert!(filter.buffer.is_empty());
}

#[test]
fn partial_tag_len_is_the_longest_match() {
    let mut filter = TokenFilter::new("Aria");
    filter.process("<RESPONSE>");
    filter.process("x</RESP");
    assert_eq!(filter.get_partial_tag_len("</RESPONSE>"), 6);
    assert_eq!(filter.get_partial_tag_len("<thinking>"), 0);
    assert!(!filter.has_partial_tag());
    let mut neutral = TokenFilter::new("Aria");
    neutral.process("abc<thin");
    assert!(neutral.has_partial_tag());
    assert_eq!(neutral.get_partial_tag_len("<thinking>"), 5);
}

#[test]
fn handle_starts_drop_through_the_tag() {
    let mut filter = TokenFilter::new("Aria");
    filter.buffer = b"ab<thinking>cd".to_vec();
    filter.handle_thinking_start(2);
    assert_eq!(filter.buffer, b"cd".to_vec());
    assert_eq!(filter.mode, FilterMode::InThinking);
    let mut other = TokenFilter::new("Aria");
    other.buffer = b"<RESPONSE>ok".to_vec();
    other.handle_response_start(0);
    assert_eq!(other.buffer, b"ok".to_vec());
    assert_eq!(other.mode, FilterMode::InResponse);
}

#[test]
fn non_ascii_text_survives_the_filter() {
    let mut filter = TokenFilter::new("Zoë");
    let out = run(&mut filter, &["<RESPONSE>héllo ", "wörld ✓</RESPONSE>"]);
    assert_eq!(out, "héllo wörld ✓");
}
