use fmby::records::{Origin, WikiUrlRecord, WikiUrlStatus};
use fmby::store::{chunk_records, chunk_size, UrlStore};

fn record(url: &str) -> WikiUrlRecord {
    WikiUrlRecord {
        url: url.to_string(),
        name: None,
        status: WikiUrlStatus::Pending,
        user_id: None,
        message_id: None,
        channel_id: None,
        guild_id: None,
        created_at: 0,
        updated_at: 0,
    }
}

#[test]
fn concurrent_inserts_persist_once() {
    let mut store = UrlStore::new();
    let first = store.insert_ignore(record("example.com"));
    let second = store.insert_ignore(record("example.com"));
    let third = store.insert_ignore(record("example.com"));
    assert!(first);
    assert!(!second);
    assert!(!third);
    let copies = store.records.iter().filter(|r| r.url == "example.com").count();
    assert_eq!(copies, 1);
}

#[test]
fn insert_many_reports_new_rows_only() {
    let mut store = UrlStore::new();
    store.insert_ignore(record("old.com"));
    let batch = vec![record("old.com"), record("new.com"), record("new.com")];
    let count = store.insert_many_ignore(batch);
    assert_eq!(count, 1);
    assert_eq!(store.records.len(), 2);
}

#[test]
fn update_replaces_by_url() {
    let mut store = UrlStore::new();
    store.insert_ignore(record("example.com"));
    let mut changed = record("example.com");
    changed.status = WikiUrlStatus::Added;
    let updated = store.update_record(changed);
    assert!(updated);
    assert!(matches!(store.records[0].status, WikiUrlStatus::Added));
    assert!(!store.update_record(record("absent.com")));
}

#[test]
fn chunk_size_respects_parameter_ceiling() {
    assert_eq!(chunk_size(10), 6553);
    assert_eq!(chunk_size(1), 65535);
    assert_eq!(chunk_size(0), 0);
}

#[test]
fn batch_chunking_commits_ceiling_many_transactions() {
    let records: Vec<WikiUrlRecord> = (0..10000).map(|i| record(&format!("u{}.com", i))).collect();
    let chunks = chunk_records(records, 3000);
    assert_eq!(chunks.len(), 4);
    for chunk in &chunks {
        assert!(chunk.len() <= 3000);
    }
    let total: usize = chunks.iter().map(|c| c.len()).sum();
    assert_eq!(total, 10000);
}

#[test]
fn batch_insert_skips_preexisting_duplicates() {
    let mut store = UrlStore::new();
    for i in 0..500 {
        store.insert_ignore(record(&format!("u{}.com", i)));
    }
    let records: Vec<WikiUrlRecord> = (0..10000).map(|i| record(&format!("u{}.com", i))).collect();
    let mut inserted = 0;
    for chunk in chunk_records(records, 3000) {
        inserted += store.insert_many_ignore(chunk);
    }
    assert_eq!(inserted, 9500);
    assert_eq!(store.records.len(), 10000);
}

#[test]
fn lookup_by_urls_returns_matching_rows() {
    let mut store = UrlStore::new();
    store.insert_ignore(record("a.com"));
    store.insert_ignore(record("b.com"));
    let urls = vec!["b.com".to_string(), "missing.com".to_string()];
    let found = store.get_wiki_urls_by_urls(&urls).unwrap();
    assert_eq!(found.len(), 1);
    assert_eq!(found[0].url, "b.com");
    assert!(store.get_wiki_urls_by_urls(&Vec::new()).is_none());
}

#[test]
fn refresh_updates_status_and_origin_in_place() {
    let mut store = UrlStore::new();
    store.insert_ignore(record("a.com"));
    let entries = store.get_wiki_urls_by_urls(&vec!["a.com".to_string()]).unwrap();
    let origin = Origin { user_id: 9, message_id: 8, channel_id: 7, guild_id: Some(6) };
    store.update_wiki_urls_with_message(&entries, WikiUrlStatus::Added, origin, 777);
    assert_eq!(store.records.len(), 1);
    assert!(matches!(store.records[0].status, WikiUrlStatus::Added));
    assert_eq!(store.records[0].user_id, Some(9));
    assert_eq!(store.records[0].updated_at, 777);
}
