use flash_code::locate::{button_score_halves, find_matching_button};
use flash_code::words::{match_score_halves, split_string_into_words};

#[test]
fn split_lowercases_and_drops_separators() {
    let words = split_string_into_words("Hello, World!");
    assert_eq!(words, vec!["hello".to_string(), "world".to_string()]);
}

#[test]
fn split_deduplicates_across_case() {
    let words = split_string_into_words("Chat chat CHAT app");
    assert_eq!(words, vec!["chat".to_string(), "app".to_string()]);
}

#[test]
fn split_empty_and_separator_only() {
    assert!(split_string_into_words("").is_empty());
    assert!(split_string_into_words(" -- ~~ ").is_empty());
}

#[test]
fn split_keeps_digits_and_wide_characters() {
    let words = split_string_into_words("Build 42 チャット");
    assert_eq!(
        words,
        vec!["build".to_string(), "42".to_string(), "チャット".to_string()]
    );
}

#[test]
fn score_counts_long_words_full_and_single_chars_half() {
    let a = split_string_into_words("my chat app");
    let b = split_string_into_words("chat");
    assert_eq!(match_score_halves(&a, &b), 2);

    let c = split_string_into_words("a b c");
    let d = split_string_into_words("b a");
    assert_eq!(match_score_halves(&c, &d), 2);

    let e = split_string_into_words("a x");
    let f = split_string_into_words("a y");
    assert_eq!(match_score_halves(&e, &f), 1);

    let g = split_string_into_words("alpha beta");
    let h = split_string_into_words("gamma");
    assert_eq!(match_score_halves(&g, &h), 0);
}

#[test]
fn button_score_matches_title_against_label() {
    // One shared two-character-or-longer word is a full point.
    assert_eq!(button_score_halves("My Chat App", "Chat - running"), 2);
    // A single shared one-character word is half a point.
    assert_eq!(button_score_halves("a window", "a button"), 1);
    // Shared words are counted once, however often they recur.
    assert_eq!(button_score_halves("chat chat chat", "chat chat"), 2);
}

#[test]
fn find_matching_button_takes_first_match() {
    // Two candidates reach the threshold; the first in enumeration
    // order wins.
    let labels = vec![
        "chat app".to_string(),
        "other".to_string(),
        "app chat extra".to_string(),
    ];
    assert_eq!(find_matching_button("My Chat App", &labels), Some(0));

    let labels2 = vec![
        "no match".to_string(),
        "app chat".to_string(),
        "chat app".to_string(),
    ];
    assert_eq!(find_matching_button("My Chat App", &labels2), Some(1));
}

#[test]
fn find_matching_button_requires_full_point() {
    // A single shared one-character word scores half a point: no match.
    let labels = vec!["a button".to_string()];
    assert_eq!(find_matching_button("a window", &labels), None);
    // Two shared one-character words reach the full point.
    let labels2 = vec!["b a thing".to_string()];
    assert_eq!(find_matching_button("a b window", &labels2), Some(0));
}

#[test]
fn find_matching_button_none_when_nothing_matches() {
    let labels = vec!["alpha".to_string(), "beta".to_string()];
    assert_eq!(find_matching_button("gamma delta", &labels), None);
    assert_eq!(find_matching_button("gamma delta", &vec![]), None);
}
