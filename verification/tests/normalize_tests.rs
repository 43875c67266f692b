use pastebin::normalize::{dedup_tags, fix_tags, normalize_title};

fn stored_tags(input: &str) -> Vec<String> {
    let split = fix_tags(&Some(input.to_string()));
    dedup_tags(&split)
}

#[test]
fn tags_example_from_mixed_case_and_punctuation() {
    let tags = stored_tags("Rust RUST go-lang ");
    assert_eq!(tags, vec!["rust".to_string(), "golang".to_string()]);
}

#[test]
fn tags_none_is_empty() {
    assert!(fix_tags(&None).is_empty());
}

#[test]
fn tags_whitespace_only_is_empty() {
    assert!(stored_tags("  \t \n ").is_empty());
}

#[test]
fn tags_keep_first_seen_order() {
    let tags = stored_tags("zebra apple zebra mango apple");
    assert_eq!(
        tags,
        vec!["zebra".to_string(), "apple".to_string(), "mango".to_string()]
    );
}

#[test]
fn tags_each_capped_at_fifteen_characters() {
    let tags = stored_tags("abcdefghijklmnopqrstuvwxyz");
    assert_eq!(tags, vec!["abcdefghijklmno".to_string()]);
}

#[test]
fn tags_list_capped_at_fifteen_entries() {
    let input = "t1 t2 t3 t4 t5 t6 t7 t8 t9 t10 t11 t12 t13 t14 t15 t16 t17";
    let tags = stored_tags(input);
    assert_eq!(tags.len(), 15);
    assert_eq!(tags[0], "t1");
    assert_eq!(tags[14], "t15");
}

#[test]
fn tags_drop_words_with_no_alphanumerics() {
    let tags = stored_tags("--- !!! ok");
    assert_eq!(tags, vec!["ok".to_string()]);
}

#[test]
fn tags_normalization_is_idempotent() {
    let once = stored_tags("Rust RUST go-lang MANGO");
    let rejoined = once.join(" ");
    let twice = stored_tags(&rejoined);
    assert_eq!(once, twice);
}

#[test]
fn title_strips_control_characters() {
    let title = normalize_title(&Some("a\u{0}b\tc\u{7f}d".to_string()));
    assert_eq!(title, "abcd");
}

#[test]
fn title_truncated_to_fifty_characters() {
    let long = "x".repeat(80);
    let title = normalize_title(&Some(long));
    assert_eq!(title.len(), 50);
}

#[test]
fn title_none_is_empty() {
    assert_eq!(normalize_title(&None), "");
}

#[test]
fn title_keeps_ordinary_unicode() {
    let title = normalize_title(&Some("héllo wörld".to_string()));
    assert_eq!(title, "héllo wörld");
}

#[test]
fn title_normalization_is_idempotent() {
    let once = normalize_title(&Some("one\u{1}two three four five six".to_string()));
    let twice = normalize_title(&Some(once.clone()));
    assert_eq!(once, twice);
}
