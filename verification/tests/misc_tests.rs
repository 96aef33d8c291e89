use mem_agent::cli::{epoch_label, kind_fetch_limit};
use mem_agent::db::schema::{pending_migrations, LATEST_SCHEMA_VERSION};
use mem_agent::embed::batch::{batch_ranges, effective_batch_size, DEFAULT_BATCH_SIZE};
use mem_agent::observer::client::{ObserverClient, OBSERVER_SYSTEM_MESSAGE};
use mem_agent::observer::record::session_summary_record;
use mem_agent::simulation::{random_sample, sequential_sample};
use mem_agent::types::MemoryKind;

#[test]
fn batches_cover_all_texts() {
    assert_eq!(batch_ranges(70, 32), vec![(0, 32), (32, 64), (64, 70)]);
    assert_eq!(batch_ranges(64, 32), vec![(0, 32), (32, 64)]);
    assert_eq!(batch_ranges(5, 0), vec![(0, 5)]);
    assert!(batch_ranges(0, 8).is_empty());
    assert_eq!(effective_batch_size(0), DEFAULT_BATCH_SIZE);
    assert_eq!(effective_batch_size(7), 7);
}

#[test]
fn migrations_still_needed() {
    assert_eq!(pending_migrations(0), vec![1, 2]);
    assert_eq!(pending_migrations(1), vec![2]);
    assert_eq!(pending_migrations(LATEST_SCHEMA_VERSION), Vec::<i32>::new());
    assert_eq!(pending_migrations(-5), vec![1, 2]);
}

#[test]
fn listing_a_kind_fetches_four_times_as_many() {
    assert_eq!(kind_fetch_limit(5), 20);
    assert_eq!(kind_fetch_limit(0), 0);
    assert_eq!(kind_fetch_limit(usize::MAX), usize::MAX);
}

#[test]
fn epochs_are_shown_as_utc_or_number() {
    assert_eq!(epoch_label(0), "1970-01-01 00:00:00");
    assert_eq!(epoch_label(i64::MAX), "9223372036854775807");
}

#[test]
fn kinds_round_trip() {
    for k in [MemoryKind::Observation, MemoryKind::Summary, MemoryKind::Prompt, MemoryKind::Manual] {
        assert_eq!(MemoryKind::parse(k.as_str()), k);
    }
    assert_eq!(MemoryKind::parse(" SUMMARY "), MemoryKind::Summary);
    assert_eq!(MemoryKind::parse("other"), MemoryKind::Observation);
}

#[test]
fn samples_are_numbered_from_one() {
    let m = sequential_sample(0);
    assert_eq!(m.title, "Rust async programming guide #1");
    assert_eq!(m.kind, "manual");
    assert_eq!(m.source, "simulation");
    let m = sequential_sample(11);
    assert_eq!(m.title, "SQLite optimization tips #12");
    let r = random_sample(4);
    assert!(r.title.ends_with(" #5"));
}

#[test]
fn client_builds_requests() {
    assert!(ObserverClient::from_settings(None, None, None).is_none());
    let c = ObserverClient::from_settings(Some("k".into()), Some("http://x".into()), None).unwrap();
    let req = c.summarize_session("S", 2);
    assert_eq!(req.url, "http://x");
    assert_eq!(req.authorization, "Bearer k");
    assert_eq!(req.system_message, OBSERVER_SYSTEM_MESSAGE);
    assert!(req.user_message.contains("\"S\" which has 2 observations"));
}

#[test]
fn summaries_need_titles() {
    assert!(session_summary_record("s", "", "opencode", &vec![], None).is_none());
    let m = session_summary_record("s", "p", "opencode", &vec!["First".to_string()], Some("done".into())).unwrap();
    assert_eq!(m.title, "Summary: First");
    assert_eq!(m.content, "done");
    assert_eq!(m.tags, "auto,summary");
}

#[test]
fn api_key_precedence() {
    let k = |s: &str| Some(s.to_string());
    assert_eq!(ObserverClient::choose_api_key(k("a"), k("b"), k("c")), k("a"));
    assert_eq!(ObserverClient::choose_api_key(None, k("b"), k("c")), k("b"));
    assert_eq!(ObserverClient::choose_api_key(None, None, k("c")), k("c"));
    assert_eq!(ObserverClient::choose_api_key(None, None, None), None);
}
