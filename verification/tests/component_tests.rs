use pastebin::compress::{compress, Encoding};
use pastebin::config::{get_cookie_name, AppConfig};
use pastebin::errors::PasteError;
use pastebin::format::PasteFormat;
use pastebin::id::{generate_paste_id, is_valid_paste_id, truncate_id};
use pastebin::limits::RateLimiter;
use pastebin::purge::PurgeQueue;
use pastebin::session::{is_paste_in_session, update_session};
use std::io::Read;

#[test]
fn format_parses_the_three_discriminants() {
    assert_eq!(PasteFormat::parse("text"), Some(PasteFormat::Text));
    assert_eq!(PasteFormat::parse("html"), Some(PasteFormat::Html));
    assert_eq!(PasteFormat::parse("ansi-log"), Some(PasteFormat::AnsiLog));
    assert_eq!(PasteFormat::parse("plain"), None);
    assert_eq!(PasteFormat::parse("markdown"), None);
    assert_eq!(PasteFormat::parse(""), None);
}

#[test]
fn format_determines_extension_and_content_type() {
    assert_eq!(PasteFormat::Text.extension(), "txt");
    assert_eq!(PasteFormat::Html.extension(), "html");
    assert_eq!(PasteFormat::AnsiLog.extension(), "log");
    assert_eq!(PasteFormat::Text.content_type(), "text/plain");
    assert_eq!(PasteFormat::Html.content_type(), "text/html");
    assert_eq!(PasteFormat::AnsiLog.content_type(), "text/plain");
}

#[test]
fn format_name_round_trips_through_parse() {
    for f in [PasteFormat::Text, PasteFormat::Html, PasteFormat::AnsiLog] {
        assert_eq!(PasteFormat::parse(f.name()), Some(f));
    }
}

fn char_ok_wide(c: char) -> bool {
    c.is_ascii_alphanumeric() || c == '-' || c == '_' || c == '.' || c == '~'
}

#[test]
fn generated_ids_have_the_documented_shape() {
    for _ in 0..200 {
        let id = generate_paste_id();
        assert_eq!(id.chars().count(), 8);
        let chars: Vec<char> = id.chars().collect();
        assert!(chars[0].is_ascii_alphanumeric());
        assert!(chars[7].is_ascii_alphanumeric());
        assert!(chars[1..7].iter().all(|c| char_ok_wide(*c)));
        assert!(is_valid_paste_id(&id));
    }
}

#[test]
fn id_validation_rejects_bad_shapes() {
    assert!(!is_valid_paste_id("short"));
    assert!(!is_valid_paste_id("toolongtoolong"));
    assert!(!is_valid_paste_id("-abcdef0"));
    assert!(!is_valid_paste_id("0abcdef-"));
    assert!(!is_valid_paste_id("0a cdef0"));
    assert!(is_valid_paste_id("0a-c.ef0"));
}

#[test]
fn caller_ids_are_trimmed_to_eight_characters() {
    assert_eq!(truncate_id("abcdefghij"), "abcdefgh");
    assert_eq!(truncate_id("abc"), "abc");
    assert_eq!(truncate_id(""), "");
}

#[test]
fn small_content_is_stored_identically() {
    let content = "hello world";
    let (bytes, enc) = compress(content, false).unwrap();
    assert_eq!(enc, Encoding::Identity);
    assert_eq!(enc.token(), "identity");
    assert_eq!(bytes, content.as_bytes());
}

#[test]
fn alt_backend_content_is_never_compressed() {
    let content = "y".repeat(5000);
    let (bytes, enc) = compress(&content, true).unwrap();
    assert_eq!(enc, Encoding::Identity);
    assert_eq!(bytes, content.as_bytes());
}

#[test]
fn large_content_round_trips_through_brotli() {
    let content = "the quick brown fox jumps over the lazy dog. ".repeat(100);
    assert!(content.len() >= 1024);
    let (bytes, enc) = compress(&content, false).unwrap();
    assert_eq!(enc, Encoding::Br);
    assert_eq!(enc.token(), "br");
    assert!(bytes != content.as_bytes());
    let mut decoder = brotli::Decompressor::new(&bytes[..], 4096);
    let mut out = Vec::new();
    decoder.read_to_end(&mut out).unwrap();
    assert_eq!(out, content.as_bytes());
}

#[test]
fn compression_is_deterministic() {
    let content = "determinism check ".repeat(100);
    assert!(content.len() >= 1024);
    let a = compress(&content, false).unwrap();
    let b = compress(&content, false).unwrap();
    assert_eq!(a.0, b.0);
    assert_eq!(a.1, b.1);
}

#[test]
fn error_status_codes_follow_the_taxonomy() {
    assert_eq!(PasteError::Validation.status_code(), 400);
    assert_eq!(PasteError::BotRejected.status_code(), 403);
    assert_eq!(PasteError::PayloadTooLarge.status_code(), 413);
    assert_eq!(PasteError::NotFound.status_code(), 404);
    assert_eq!(PasteError::Forbidden.status_code(), 403);
    assert_eq!(PasteError::Storage.status_code(), 500);
    assert_eq!(PasteError::Transaction.status_code(), 500);
}

#[test]
fn storage_errors_share_a_generic_message() {
    assert_eq!(
        PasteError::Storage.message(),
        PasteError::Transaction.message()
    );
}

#[test]
fn rate_limit_trips_after_fifty_requests() {
    let mut limiter = RateLimiter::new();
    for _ in 0..50 {
        assert!(!limiter.rate_limited("alice"));
    }
    assert!(limiter.rate_limited("alice"));
    assert!(!limiter.rate_limited("bob"));
    limiter.reset();
    assert!(!limiter.rate_limited("alice"));
}

#[test]
fn purge_queue_batches_at_ten_or_on_demand() {
    let mut q = PurgeQueue::new();
    q.enqueue("content/a.txt");
    q.enqueue("content/a.txt");
    assert_eq!(q.len(), 1);
    assert!(q.take_batch(false).is_none());
    let batch = q.take_batch(true).unwrap();
    assert_eq!(batch, vec!["content/a.txt".to_string()]);
    assert_eq!(q.len(), 0);
    assert!(q.take_batch(true).is_none());
    for i in 0..10 {
        q.enqueue(&format!("content/{}.txt", i));
    }
    let batch = q.take_batch(false).unwrap();
    assert_eq!(batch.len(), 10);
}

#[test]
fn session_ring_keeps_the_last_ten_ids() {
    let mut ids: Vec<String> = Vec::new();
    for i in 0..12 {
        ids = update_session(&ids, &format!("paste{:03}", i));
    }
    assert_eq!(ids.len(), 10);
    assert!(!is_paste_in_session(&ids, "paste000"));
    assert!(!is_paste_in_session(&ids, "paste001"));
    assert!(is_paste_in_session(&ids, "paste002"));
    assert!(is_paste_in_session(&ids, "paste011"));
    assert!(!is_paste_in_session(&ids, "elsewhere"));
}

#[test]
fn cookie_name_gains_secure_prefix() {
    let mut config = AppConfig::new();
    config.cookie_secure = true;
    assert_eq!(get_cookie_name(&config, "_app_session"), "__Secure-_app_session");
    config.cookie_secure = false;
    assert_eq!(get_cookie_name(&config, "_app_session"), "_app_session");
}
