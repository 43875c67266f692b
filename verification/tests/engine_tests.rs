use pastebin::config::AppConfig;
use pastebin::engine::{delete_paste, new_paste, purge_cache, update_views, AppState};
use pastebin::errors::PasteError;
use pastebin::forms::{PasteForm, ValidDestination};
use pastebin::id::is_valid_paste_id;
use pastebin::paste::Paste;

fn dev_state() -> AppState {
    AppState::new(AppConfig::new())
}

fn prod_state() -> AppState {
    let mut config = AppConfig::new();
    config.production = true;
    config.score_threshold_milli = 700;
    AppState::new(config)
}

fn form(content: &str, format: &str) -> PasteForm {
    PasteForm {
        csrf_token: String::new(),
        token: String::new(),
        content: content.to_string(),
        title: None,
        tags: None,
        format: format.to_string(),
        destination: ValidDestination::DataStore,
    }
}

fn create(state: &mut AppState, f: &PasteForm, score_milli: u32) -> Result<String, PasteError> {
    new_paste(state, f, score_milli, None, None, 1000, None)
}

#[test]
fn submit_hello_end_to_end() {
    let mut state = prod_state();
    let id = create(&mut state, &form("hello", "text"), 900).unwrap();
    assert!(is_valid_paste_id(&id));
    let chars: Vec<char> = id.chars().collect();
    assert_eq!(chars.len(), 8);
    assert!(chars[0].is_ascii_alphanumeric());
    assert!(chars[7].is_ascii_alphanumeric());
    assert!(chars[1..7]
        .iter()
        .all(|c| c.is_ascii_alphanumeric() || "-_.~".contains(*c)));

    let paste = Paste::get(&state, &id).unwrap();
    assert_eq!(paste.paste_id, id);
    assert!(paste.s3_key.ends_with(".txt"));
    assert!(!paste.s3_key.ends_with(".br"));
    assert_eq!(paste.format.content_type(), "text/plain");
    assert_eq!(paste.views, 0);

    let i = state.s3.find(&paste.s3_key).unwrap();
    let obj = state.s3.object_at(i);
    assert_eq!(obj.content_type, "text/plain");
    assert_eq!(obj.content_encoding, "identity");
    assert_eq!(obj.body, b"hello");
    assert_eq!(obj.content_length, 5);
    assert_eq!(
        obj.content_disposition,
        format!("attachment; filename=\"{}.txt\"; filename*=UTF-8''{}.txt", id.replace('~', ""), id.replace('~', ""))
    );
}

#[test]
fn submit_empty_content_touches_no_store() {
    let mut state = dev_state();
    let err = create(&mut state, &form("", "text"), 900).unwrap_err();
    assert_eq!(err, PasteError::Validation);
    assert_eq!(err.status_code(), 400);
    assert_eq!(state.db.len(), 0);
    assert_eq!(state.s3.len(), 0);
}

#[test]
fn submit_unknown_format_is_rejected() {
    let mut state = dev_state();
    let err = create(&mut state, &form("hi", "markdown"), 900).unwrap_err();
    assert_eq!(err, PasteError::Validation);
    assert_eq!(state.db.len(), 0);
    assert_eq!(state.s3.len(), 0);
}

fn incompressible(len: usize) -> String {
    let mut x: u64 = 0x243F6A8885A308D3;
    let mut out = String::with_capacity(len);
    for _ in 0..len {
        x ^= x << 13;
        x ^= x >> 7;
        x ^= x << 17;
        out.push((33 + (x % 94) as u8) as char);
    }
    out
}

#[test]
fn submit_three_mebibytes_is_too_large_before_any_store_write() {
    let mut state = dev_state();
    let content = incompressible(3 * 1024 * 1024);
    let err = create(&mut state, &form(&content, "text"), 900).unwrap_err();
    assert_eq!(err, PasteError::PayloadTooLarge);
    assert_eq!(err.status_code(), 413);
    assert_eq!(state.db.len(), 0);
    assert_eq!(state.s3.len(), 0);
}

#[test]
fn large_compressible_content_gets_br_key_suffix() {
    let mut state = dev_state();
    let content = "all work and no play makes jack a dull boy. ".repeat(50);
    assert!(content.len() >= 1024);
    let id = create(&mut state, &form(&content, "html"), 900).unwrap();
    let paste = Paste::get(&state, &id).unwrap();
    assert!(paste.s3_key.ends_with(".html.br"));
    let i = state.s3.find(&paste.s3_key).unwrap();
    assert_eq!(state.s3.object_at(i).content_encoding, "br");
    assert!((state.s3.object_at(i).content_length as usize) < content.len());
}

#[test]
fn bot_scores_below_threshold_are_rejected_in_production() {
    let mut state = prod_state();
    let err = create(&mut state, &form("hi", "text"), 400).unwrap_err();
    assert_eq!(err, PasteError::BotRejected);
    assert_eq!(state.db.len(), 0);
    let mut dev = dev_state();
    assert!(create(&mut dev, &form("hi", "text"), 400).is_ok());
}

#[test]
fn create_then_get_returns_normalized_fields() {
    let mut state = dev_state();
    let mut f = form("some content", "text");
    f.title = Some("  My\u{1} Title that is nice  ".to_string());
    f.tags = Some("Rust RUST go-lang ".to_string());
    let id = new_paste(
        &mut state,
        &f,
        900,
        Some("user7".to_string()),
        Some("sess3".to_string()),
        42,
        None,
    )
    .unwrap();
    let paste = Paste::get(&state, &id).unwrap();
    assert_eq!(paste.title.as_deref(), Some("My Title that is nice"));
    assert_eq!(paste.tags, vec!["rust".to_string(), "golang".to_string()]);
    assert_eq!(paste.get_format(), "text");
    assert_eq!(paste.user_id.as_deref(), Some("user7"));
    assert_eq!(paste.session_id.as_deref(), Some("sess3"));
    assert_eq!(paste.date, 42);
    assert_eq!(paste.rcscore_milli, 900);
    // Normalizing the stored values again changes nothing.
    let again = pastebin::normalize::normalize_title(&paste.title.clone());
    assert_eq!(Some(again), paste.title);
    let split = pastebin::normalize::fix_tags(&Some(paste.tags.join(" ")));
    assert_eq!(pastebin::normalize::dedup_tags(&split), paste.tags);
    assert_eq!(paste.get_title(), "My Title that is nice");
}

#[test]
fn get_trims_overlong_ids_and_misses_unknown_ones() {
    let mut state = dev_state();
    let id = create(&mut state, &form("hello", "text"), 900).unwrap();
    let padded = format!("{}garbage", id);
    let paste = Paste::get(&state, &padded).unwrap();
    assert_eq!(paste.paste_id, id);
    let err = Paste::get(&state, "zzzzzzzz").unwrap_err();
    assert_eq!(err, PasteError::NotFound);
    assert_eq!(err.status_code(), 404);
}

#[test]
fn delete_removes_row_and_blob_and_queues_purge() {
    let mut state = dev_state();
    let id = create(&mut state, &form("hello", "text"), 900).unwrap();
    let paste = Paste::get(&state, &id).unwrap();
    let key = paste.s3_key.clone();
    paste.delete(&mut state).unwrap();
    assert!(Paste::get(&state, &id).is_err());
    assert!(state.s3.find(&key).is_none());
    assert_eq!(state.cloudflare_q.len(), 1);
}

#[test]
fn delete_rolls_back_when_the_object_store_fails() {
    let mut state = dev_state();
    let id = create(&mut state, &form("hello", "text"), 900).unwrap();
    let paste = Paste::get(&state, &id).unwrap();
    let key = paste.s3_key.clone();

    state.s3.set_fail_deletes(true);
    let err = paste.delete(&mut state).unwrap_err();
    assert_eq!(err, PasteError::Storage);
    // The metadata row and the blob are both intact: no partial delete.
    assert!(Paste::get(&state, &id).is_ok());
    assert!(state.s3.find(&key).is_some());
    assert_eq!(state.cloudflare_q.len(), 0);
}

#[test]
fn delete_surfaces_a_commit_failure_after_the_blob_is_gone() {
    let mut state = dev_state();
    let id = create(&mut state, &form("hello", "text"), 900).unwrap();
    let paste = Paste::get(&state, &id).unwrap();
    let key = paste.s3_key.clone();

    state.db.set_fail_commit(true);
    let err = paste.delete(&mut state).unwrap_err();
    assert_eq!(err, PasteError::Transaction);
    // The documented orphan direction: the blob is gone, the row remains.
    assert!(Paste::get(&state, &id).is_ok());
    assert!(state.s3.find(&key).is_none());

    state.db.set_fail_commit(false);
    paste.delete(&mut state).unwrap();
    assert!(Paste::get(&state, &id).is_err());
}

#[test]
fn create_rolls_back_the_row_when_upload_fails() {
    let mut state = dev_state();
    state.s3.set_fail_uploads(true);
    let err = create(&mut state, &form("hello", "text"), 900).unwrap_err();
    assert_eq!(err, PasteError::Storage);
    assert_eq!(state.db.len(), 0);
    assert_eq!(state.s3.len(), 0);
}

#[test]
fn view_counter_flush_is_monotonic_and_exact() {
    let mut state = dev_state();
    let id = create(&mut state, &form("hello", "text"), 900).unwrap();
    let paste = Paste::get(&state, &id).unwrap();
    assert_eq!(paste.views, 0);

    assert_eq!(paste.get_views(&mut state), 1);
    assert_eq!(paste.get_views(&mut state), 2);
    assert_eq!(paste.get_views(&mut state), 3);
    // Nothing durable yet.
    assert_eq!(Paste::get(&state, &id).unwrap().views, 0);

    update_views(&mut state, 2000);
    let flushed = Paste::get(&state, &id).unwrap();
    assert_eq!(flushed.views, 3);
    assert_eq!(flushed.last_seen, 2000);

    // A second flush with no new views persists no change.
    update_views(&mut state, 3000);
    let again = Paste::get(&state, &id).unwrap();
    assert_eq!(again.views, 3);
    assert_eq!(again.last_seen, 2000);

    // The next view resumes from the durable count.
    assert_eq!(again.get_views(&mut state), 4);
}

#[test]
fn view_counter_tolerates_deleted_pastes() {
    let mut state = dev_state();
    let id = create(&mut state, &form("hello", "text"), 900).unwrap();
    let paste = Paste::get(&state, &id).unwrap();
    paste.get_views(&mut state);
    paste.delete(&mut state).unwrap();
    update_views(&mut state, 2000);
    assert!(Paste::get(&state, &id).is_err());
}

fn tagged_form(content: &str, tags: &str) -> PasteForm {
    let mut f = form(content, "text");
    f.tags = Some(tags.to_string());
    f
}

#[test]
fn search_paginates_at_ten_newest_first() {
    let mut state = dev_state();
    for i in 0..12i64 {
        let f = tagged_form("body", &format!("common extra{}", i));
        new_paste(&mut state, &f, 900, None, None, 100 + i, None).unwrap();
    }
    let query = vec!["common".to_string()];
    let page1 = Paste::search(&state, &query, 1).unwrap();
    assert_eq!(page1.len(), 10);
    assert_eq!(page1[0].date, 111);
    assert_eq!(page1[9].date, 102);
    // Page 2 starts at row offset 10.
    let page2 = Paste::search(&state, &query, 2).unwrap();
    assert_eq!(page2.len(), 2);
    assert_eq!(page2[0].date, 101);
    assert_eq!(page2[1].date, 100);
    assert!(Paste::search(&state, &query, 3).unwrap().is_empty());
    // Containment, not exact match: both tags must be present.
    let narrow = vec!["common".to_string(), "extra5".to_string()];
    let hits = Paste::search(&state, &narrow, 1).unwrap();
    assert_eq!(hits.len(), 1);
    assert_eq!(hits[0].date, 105);
    let miss = vec!["absent".to_string()];
    assert!(Paste::search(&state, &miss, 1).unwrap().is_empty());
}

#[test]
fn search_rejects_an_empty_tag_query() {
    let state = dev_state();
    let err = Paste::search(&state, &Vec::new(), 1).unwrap_err();
    assert_eq!(err, PasteError::Validation);
}

#[test]
fn alternate_backend_skips_the_primary_store() {
    let mut state = dev_state();
    let mut f = form("alt content", "text");
    f.destination = ValidDestination::GDrive;
    let alt = Some(("driveobj1".to_string(), "https://drive.example/obj1".to_string()));
    let id = new_paste(&mut state, &f, 900, None, None, 10, alt).unwrap();
    assert_eq!(state.s3.len(), 0);
    let paste = Paste::get(&state, &id).unwrap();
    assert_eq!(paste.gdriveid.as_deref(), Some("driveobj1"));
    assert_eq!(paste.gdrivedl.as_deref(), Some("https://drive.example/obj1"));
    assert_eq!(
        paste.get_content_url("https://bucket.example/"),
        format!("/pastebinc/{}/content", id)
    );
    // Deleting an alternate-backend paste fakes the object-store call.
    state.s3.set_fail_deletes(true);
    paste.delete(&mut state).unwrap();
    assert!(Paste::get(&state, &id).is_err());
}

#[test]
fn alternate_backend_failure_aborts_before_any_store() {
    let mut state = dev_state();
    let mut f = form("alt content", "text");
    f.destination = ValidDestination::GDrive;
    let err = new_paste(&mut state, &f, 900, None, None, 10, None).unwrap_err();
    assert_eq!(err, PasteError::Storage);
    assert_eq!(state.db.len(), 0);
    assert_eq!(state.s3.len(), 0);
}

#[test]
fn primary_paste_content_url_points_into_the_bucket() {
    let mut state = dev_state();
    let id = create(&mut state, &form("hello", "text"), 900).unwrap();
    let paste = Paste::get(&state, &id).unwrap();
    assert_eq!(
        paste.get_content_url("https://bucket.example/"),
        format!("https://bucket.example/{}", paste.s3_key)
    );
    assert_eq!(paste.s3_key, format!("content/{}.txt", id));
}

#[test]
fn delete_runs_the_opportunistic_purge_pass() {
    let mut state = dev_state();
    // One freed key is queued but a batch of ten is not yet due.
    let id = create(&mut state, &form("hello", "text"), 900).unwrap();
    let paste = Paste::get(&state, &id).unwrap();
    let first_key = paste.s3_key.clone();
    assert_eq!(delete_paste(&mut state, &paste).unwrap(), None);
    assert_eq!(state.cloudflare_q.len(), 1);
    // The tenth freed key completes the batch and drains the queue.
    let mut batch = None;
    for _ in 0..9 {
        let id = create(&mut state, &form("hello", "text"), 900).unwrap();
        let paste = Paste::get(&state, &id).unwrap();
        batch = delete_paste(&mut state, &paste).unwrap();
    }
    let urls = batch.unwrap();
    assert_eq!(urls.len(), 10);
    assert_eq!(urls[0], format!("{}{}", state.config.s3_bucket_url, first_key));
    assert_eq!(state.cloudflare_q.len(), 0);
}

#[test]
fn purge_waits_for_ten_keys_unless_forced() {
    let mut state = dev_state();
    let id = create(&mut state, &form("hello", "text"), 900).unwrap();
    let paste = Paste::get(&state, &id).unwrap();
    let key = paste.s3_key.clone();
    paste.delete(&mut state).unwrap();
    assert!(purge_cache(&mut state, false).is_none());
    assert_eq!(state.cloudflare_q.len(), 1);
    let urls = purge_cache(&mut state, true).unwrap();
    assert_eq!(urls, vec![format!("{}{}", state.config.s3_bucket_url, key)]);
    assert_eq!(state.cloudflare_q.len(), 0);
}

#[test]
fn disabled_upstream_purge_drains_without_a_request() {
    let mut config = AppConfig::new();
    config.cloudflare_enabled = false;
    let mut state = AppState::new(config);
    let id = create(&mut state, &form("hello", "text"), 900).unwrap();
    let paste = Paste::get(&state, &id).unwrap();
    paste.delete(&mut state).unwrap();
    assert!(purge_cache(&mut state, true).is_none());
    assert_eq!(state.cloudflare_q.len(), 0);
}

#[test]
fn transaction_begin_failure_changes_nothing() {
    let mut state = dev_state();
    let id = create(&mut state, &form("hello", "text"), 900).unwrap();
    state.db.set_fail_begin(true);
    let err = create(&mut state, &form("more", "text"), 900).unwrap_err();
    assert_eq!(err, PasteError::Transaction);
    assert_eq!(state.db.len(), 1);
    assert_eq!(state.s3.len(), 1);
    let paste = Paste::get(&state, &id).unwrap();
    assert_eq!(paste.delete(&mut state).unwrap_err(), PasteError::Transaction);
    assert!(Paste::get(&state, &id).is_ok());
}

#[test]
fn api_submissions_go_to_the_primary_store() {
    let mut state = dev_state();
    let api_form = pastebin::forms::PasteAPIForm {
        content: "api content".to_string(),
        title: Some("via api".to_string()),
        tags: None,
        format: "text".to_string(),
    };
    let f = api_form.into_paste_form();
    assert_eq!(f.destination, ValidDestination::DataStore);
    let id = new_paste(&mut state, &f, 500, Some("apiuser".to_string()), None, 7, None).unwrap();
    let paste = Paste::get(&state, &id).unwrap();
    assert_eq!(paste.title.as_deref(), Some("via api"));
    assert_eq!(paste.rcscore_milli, 500);
}

#[test]
fn create_commit_failure_leaves_an_orphaned_blob() {
    let mut state = dev_state();
    state.db.set_fail_commit(true);
    let err = create(&mut state, &form("hello", "text"), 900).unwrap_err();
    assert_eq!(err, PasteError::Transaction);
    assert_eq!(state.db.len(), 0);
    // The documented create-side orphan: the blob was uploaded, the row was not kept.
    assert_eq!(state.s3.len(), 1);
}
