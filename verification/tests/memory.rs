use glee::memory::{
    after_embedding_attempt, extract_json_array, extraction_prompt, is_contradicting_fact,
    plan_fact, plan_facts, replace_quotes, should_extract, EmbeddingStep, FactAction, MemoryEntry,
};

fn memory(id: &str, content: &str) -> MemoryEntry {
    MemoryEntry {
        id: id.to_string(),
        conversation_id: Some("conv".to_string()),
        character_id: "aria".to_string(),
        content: content.to_string(),
        source_messages: vec!["m1".to_string()],
        created_at: 10,
    }
}

#[test]
fn test_extract_json_array_direct() {
    let input = r#"["User likes cats", "User is from NYC"]"#;
    let result = extract_json_array(input);
    assert_eq!(result.len(), 2);
    assert_eq!(result[0], "User likes cats");
}

#[test]
fn test_extract_json_array_embedded() {
    let input = r#"Here are the facts: ["User likes cats"] and more text"#;
    let result = extract_json_array(input);
    assert_eq!(result.len(), 1);
    assert_eq!(result[0], "User likes cats");
}

#[test]
fn test_extract_json_array_fallback() {
    let input = "- User likes cats\n- User is from NYC";
    let result = extract_json_array(input);
    assert_eq!(result.len(), 2);
}

#[test]
fn test_extract_json_array_empty() {
    let input = "No facts found.";
    let result = extract_json_array(input);
    assert_eq!(result.len(), 0);
}

#[test]
fn extract_reads_a_padded_array_and_escapes() {
    let result = extract_json_array("  \n[\"User: Name is \\\"Al\\\"\", \"World: caf\\u00e9\"]\n ");
    assert_eq!(result, vec!["User: Name is \"Al\"".to_string(), "World: café".to_string()]);
    assert_eq!(extract_json_array("[]"), Vec::<String>::new());
}

#[test]
fn extract_falls_back_to_bullets_when_brackets_hold_no_array() {
    let text = "Notes [draft]:\n  - User likes tea  \n* World: it rains\n-- \n-not a bullet\nplain";
    assert_eq!(
        extract_json_array(text),
        vec!["User likes tea".to_string(), "World: it rains".to_string()]
    );
    // An array of numbers is no array of strings.
    assert_eq!(extract_json_array("[1, 2]\n- User: kept"), vec!["User: kept".to_string()]);
    // A closing bracket before the opening one holds nothing.
    assert_eq!(extract_json_array("] [\n* User: x"), vec!["User: x".to_string()]);
}

#[test]
fn bullets_strip_all_leading_marks() {
    assert_eq!(extract_json_array("- * - User: a"), vec!["* - User: a".to_string()]);
    assert_eq!(extract_json_array("-  \n- ok\r\n"), vec!["ok".to_string()]);
}

#[test]
fn contradiction_needs_same_category_and_subject() {
    assert!(is_contradicting_fact("user: is 25 years old", "user: is 30 years old"));
    assert!(!is_contradicting_fact("user: is 25 years old", "user: is 25 years old"));
    assert!(!is_contradicting_fact("user: is 25 years old", "world: is 30 years old"));
    assert!(!is_contradicting_fact("user: is 25 years old", "user: likes cats"));
    assert!(is_contradicting_fact("user: name is alex", "user: name is sam"));
    assert!(is_contradicting_fact("user: lives in paris", "user: is from rome"));
    assert!(is_contradicting_fact("user: works as a nurse", "user: job is teacher"));
    assert!(is_contradicting_fact("relationship: is married", "relationship: is single"));
    assert!(!is_contradicting_fact("user: lives in paris", "user: works as a nurse"));
}

#[test]
fn contradiction_without_category_needs_the_user_prefix() {
    // No colon: the whole fact is its category, so different facts never share one,
    // and a fact does not contradict itself.
    assert!(!is_contradicting_fact("User is 25 years old", "User is 25 years old"));
    assert!(!is_contradicting_fact("user is 25 years old", "user is 30 years old"));
    assert!(!is_contradicting_fact("", ""));
}

#[test]
fn fact_plan_updates_the_contradicted_memory() {
    let existing = vec![memory("m-age", "User: Is 25 years old"), memory("m-cat", "User: Likes cats")];
    assert_eq!(
        plan_fact("User: Is 30 years old", &existing),
        FactAction::Update { memory_id: "m-age".to_string(), content: "User: Is 30 years old".to_string() }
    );
}

#[test]
fn fact_plan_skips_short_and_duplicate_facts() {
    let existing = vec![memory("m1", "User: Likes cats and dogs")];
    assert_eq!(plan_fact("  a b ", &existing), FactAction::Skip);
    assert_eq!(plan_fact("", &existing), FactAction::Skip);
    assert_eq!(plan_fact("user: likes CATS", &existing), FactAction::Skip);
    assert_eq!(plan_fact("Note: User: Likes cats and dogs, too", &existing), FactAction::Skip);
    assert_eq!(plan_fact("12345", &[].to_vec()), FactAction::Insert { content: "12345".to_string() });
}

#[test]
fn fact_plan_inserts_new_facts_trimmed() {
    let existing = vec![memory("m1", "User: Likes cats")];
    assert_eq!(
        plan_fact("  World: The tavern is quiet \n", &existing),
        FactAction::Insert { content: "World: The tavern is quiet".to_string() }
    );
    let facts = vec!["User: Likes cats".to_string(), "User: Enjoys hiking".to_string()];
    assert_eq!(
        plan_facts(&facts, &existing),
        vec![FactAction::Skip, FactAction::Insert { content: "User: Enjoys hiking".to_string() }]
    );
}

#[test]
fn first_matching_memory_decides() {
    let existing = vec![
        memory("m1", "User: Is 25 years old"),
        memory("m2", "User: Is 30 years old and tall"),
    ];
    // The first memory contradicts before the second is found to say the same.
    assert_eq!(
        plan_fact("User: Is 30 years old", &existing),
        FactAction::Update { memory_id: "m1".to_string(), content: "User: Is 30 years old".to_string() }
    );
}

#[test]
fn short_messages_are_not_extracted() {
    assert!(!should_extract("hi"));
    assert!(!should_extract("   fourteen chars \n"));
    assert!(should_extract("fifteen chars!!"));
    assert!(should_extract("  ééééééé é  "));
}

#[test]
fn prompt_carries_the_message_with_single_quotes() {
    assert_eq!(replace_quotes("say \"hi\" \"\""), "say 'hi' ''");
    assert_eq!(replace_quotes(""), "");
    let prompt = extraction_prompt("I said \"no\"");
    assert!(prompt.starts_with("Extract important facts from this message"));
    assert!(prompt.ends_with("Message: \"I said 'no'\"\n\nJSON array:"));
    assert!(prompt.contains("PREFIX each fact with its category"));
}

#[test]
fn embedding_is_retried_once() {
    assert_eq!(after_embedding_attempt(1, true, true), EmbeddingStep::Done);
    assert_eq!(after_embedding_attempt(1, false, false), EmbeddingStep::RetryAfterPause);
    assert_eq!(after_embedding_attempt(1, true, false), EmbeddingStep::Retry);
    assert_eq!(after_embedding_attempt(2, false, false), EmbeddingStep::GiveUp);
    assert_eq!(after_embedding_attempt(2, true, false), EmbeddingStep::GiveUp);
    assert_eq!(after_embedding_attempt(2, true, true), EmbeddingStep::Done);
}
