use glee::tokens::estimate_tokens;

#[test]
fn estimate_of_ascii_text_rounds_up() {
    // 7 ASCII characters are exactly 2 tokens, 8 round up to 3.
    assert_eq!(estimate_tokens("abcdefg"), 2);
    assert_eq!(estimate_tokens("abcdefgh"), 3);
}

#[test]
fn estimate_has_a_floor_of_one() {
    assert_eq!(estimate_tokens(""), 1);
    assert_eq!(estimate_tokens("a"), 1);
}

#[test]
fn estimate_weighs_non_ascii_heavier() {
    // Ten non-ASCII characters weigh 7 tokens, ten ASCII ones 3.
    assert_eq!(estimate_tokens("éééééééééé"), 7);
    assert_eq!(estimate_tokens("aaaaaaaaaa"), 3);
}

#[test]
fn estimate_is_monotone_under_append() {
    let a = "Hello, wörld";
    let b = " and more";
    let joined = format!("{}{}", a, b);
    assert!(estimate_tokens(&joined) >= estimate_tokens(a));
}
