use abbs::query::{char_is_whitespace, plan_query, split_tokens, QueryError};

#[test]
fn whitespace_is_what_unicode_says() {
    let mut c = 0u32;
    while c <= 0x10ffff {
        if let Some(ch) = char::from_u32(c) {
            assert_eq!(char_is_whitespace(ch), ch.is_whitespace(), "U+{:04X}", c);
        }
        c += 1;
    }
}

#[test]
fn tokens_are_the_runs_between_whitespace() {
    assert_eq!(split_tokens("the quick  fox"), vec!["the", "quick", "fox"]);
    assert_eq!(split_tokens("  lead and trail \t\n"), vec!["lead", "and", "trail"]);
    assert_eq!(split_tokens("one"), vec!["one"]);
    assert_eq!(split_tokens("a\u{a0}b\u{3000}c"), vec!["a", "b", "c"]);
    assert_eq!(split_tokens("naïve café"), vec!["naïve", "café"]);
}

#[test]
fn text_without_tokens_splits_into_nothing() {
    assert!(split_tokens("").is_empty());
    assert!(split_tokens("   ").is_empty());
    assert!(split_tokens("\t\n\u{2003}").is_empty());
}

#[test]
fn tokens_agree_with_split_whitespace() {
    for text in ["", " ", "a", " a", "a ", "ab  cd\tef\n", "x\u{85}y", "日本 語", "a b c d e f g"] {
        let expected: Vec<String> = text.split_whitespace().map(|t| t.to_string()).collect();
        assert_eq!(split_tokens(text), expected, "{:?}", text);
    }
}

#[test]
fn only_the_last_token_is_a_prefix_query() {
    let plan = plan_query("the black cat").unwrap();
    assert_eq!(plan.len(), 3);
    assert_eq!(plan[0].token, "the");
    assert!(!plan[0].prefix);
    assert_eq!(plan[1].token, "black");
    assert!(!plan[1].prefix);
    assert_eq!(plan[2].token, "cat");
    assert!(plan[2].prefix);
}

#[test]
fn a_single_token_is_a_prefix_query() {
    let plan = plan_query(" cat ").unwrap();
    assert_eq!(plan.len(), 1);
    assert_eq!(plan[0].token, "cat");
    assert!(plan[0].prefix);
}

#[test]
fn text_without_tokens_has_no_plan() {
    assert_eq!(plan_query("").unwrap_err(), QueryError::Parse);
    assert_eq!(plan_query(" \t ").unwrap_err(), QueryError::Parse);
}
