use fmby::feeds::{convert_entry, FeedEntryRecord, FetchedEntry};
use fmby::ingest::{ingest, sort_by_published, EntryStore};

fn entry(id: u64, entry_id: &str, published: Option<i64>) -> FeedEntryRecord {
    FeedEntryRecord {
        id: id as u128,
        feed_id: 7,
        entry_id: entry_id.to_string(),
        title: format!("title {}", entry_id),
        link: None,
        description: None,
        thumbnail_url: None,
        published_at: published,
        created_at: 0,
        message_id: None,
    }
}

fn fetched(id: &str) -> FetchedEntry {
    FetchedEntry {
        id: id.to_string(),
        links: Vec::new(),
        title: None,
        summary: None,
        content_body: None,
        media_thumbnail: None,
        media_content_url: None,
        media_content_is_image: false,
        published: None,
        updated: None,
    }
}

const T1: i64 = 1704067200; // 2024-01-01
const T2: i64 = 1704153600; // 2024-01-02
const T3: i64 = 1704240000; // 2024-01-03

#[test]
fn dedup_is_exact_on_reingestion() {
    let mut store = EntryStore::new();
    let batch = vec![entry(1, "a", Some(T1)), entry(2, "b", Some(T2))];
    let first = store.insert_returning(&batch);
    assert_eq!(first.len(), 2);
    let second = store.insert_returning(&batch);
    assert!(second.is_empty());
}

#[test]
fn dedup_key_is_feed_and_entry() {
    let mut store = EntryStore::new();
    let mut other_feed = entry(3, "a", Some(T1));
    other_feed.feed_id = 8;
    store.insert_returning(&vec![entry(1, "a", Some(T1))]);
    let second = store.insert_returning(&vec![other_feed]);
    assert_eq!(second.len(), 1);
}

#[test]
fn delivery_is_oldest_to_newest() {
    let fetch_order = vec![entry(1, "x", Some(T3)), entry(2, "y", Some(T1)), entry(3, "z", Some(T2))];
    let sorted = sort_by_published(&fetch_order);
    let ids: Vec<&str> = sorted.iter().map(|e| e.entry_id.as_str()).collect();
    assert_eq!(ids, vec!["y", "z", "x"]);
}

#[test]
fn entries_without_timestamp_deliver_last() {
    let batch = vec![entry(1, "none", None), entry(2, "dated", Some(T1))];
    let sorted = sort_by_published(&batch);
    let ids: Vec<&str> = sorted.iter().map(|e| e.entry_id.as_str()).collect();
    assert_eq!(ids, vec!["dated", "none"]);
}

#[test]
fn cap_keeps_oldest_then_delivers_in_order() {
    // Fetch returns a (newest), b (oldest), c; none seen; cap of two.
    let mut store = EntryStore::new();
    let batch = vec![entry(1, "a", Some(T3)), entry(2, "b", Some(T1)), entry(3, "c", Some(T2))];
    let to_post = ingest(&mut store, &batch, 2);
    let ids: Vec<&str> = to_post.iter().map(|e| e.entry_id.as_str()).collect();
    assert_eq!(ids, vec!["b", "c"]);
}

#[test]
fn ingest_only_posts_new_entries() {
    let mut store = EntryStore::new();
    store.insert_returning(&vec![entry(1, "a", Some(T1))]);
    let batch = vec![entry(1, "a", Some(T1)), entry(2, "b", Some(T2))];
    let to_post = ingest(&mut store, &batch, 10);
    let ids: Vec<&str> = to_post.iter().map(|e| e.entry_id.as_str()).collect();
    assert_eq!(ids, vec!["b"]);
}

#[test]
fn convert_uses_provider_id_when_present() {
    let e = fetched("prov-1");
    let rec = convert_entry(1, 7, &e, 1000);
    assert_eq!(rec.entry_id, "prov-1");
    assert_eq!(rec.title, "Untitled");
    assert_eq!(rec.link, None);
    assert_eq!(rec.published_at, None);
    assert_eq!(rec.created_at, 1000);
}

#[test]
fn convert_falls_back_to_first_link() {
    let mut e = fetched("");
    e.links = vec!["https://site/a".to_string(), "https://site/b".to_string()];
    let rec = convert_entry(1, 7, &e, 1000);
    assert_eq!(rec.entry_id, "https://site/a");
    assert_eq!(rec.link, Some("https://site/a".to_string()));
}

#[test]
fn convert_synthesizes_id_from_title_and_timestamp() {
    let mut e = fetched("");
    e.title = Some("Hello".to_string());
    e.published = Some(12345);
    let rec = convert_entry(1, 7, &e, 1000);
    assert_eq!(rec.entry_id, "Hello_12345");
    assert_eq!(rec.title, "Hello");
    assert_eq!(rec.published_at, Some(12345));

    let bare = fetched("");
    let rec = convert_entry(2, 7, &bare, 1000);
    assert_eq!(rec.entry_id, "untitled_1000");
}

#[test]
fn convert_cleans_description_and_finds_thumbnail() {
    let mut e = fetched("id");
    e.summary = Some("<p>Hello &amp; <b>world</b></p>  <img src=\"https://img/x.png\">".to_string());
    let rec = convert_entry(1, 7, &e, 0);
    assert_eq!(rec.description, Some("Hello & world".to_string()));
    assert_eq!(rec.thumbnail_url, Some("https://img/x.png".to_string()));
}

#[test]
fn convert_prefers_declared_media() {
    let mut e = fetched("id");
    e.media_thumbnail = Some("https://cdn/thumb.jpg".to_string());
    e.summary = Some("<img src=\"https://img/x.png\">".to_string());
    let rec = convert_entry(1, 7, &e, 0);
    assert_eq!(rec.thumbnail_url, Some("https://cdn/thumb.jpg".to_string()));

    let mut e2 = fetched("id");
    e2.media_content_url = Some("https://cdn/pic.jpg".to_string());
    e2.media_content_is_image = true;
    let rec2 = convert_entry(1, 7, &e2, 0);
    assert_eq!(rec2.thumbnail_url, Some("https://cdn/pic.jpg".to_string()));
}

#[test]
fn convert_drops_empty_description() {
    let mut e = fetched("id");
    e.summary = Some("<p>   </p>".to_string());
    let rec = convert_entry(1, 7, &e, 0);
    assert_eq!(rec.description, None);
}

#[test]
fn force_post_takes_newest_oldest_first() {
    let batch = vec![entry(1, "a", Some(T3)), entry(2, "b", Some(T1)), entry(3, "c", Some(T2))];
    let plan = fmby::ingest::force_post_plan(&batch, 2);
    let ids: Vec<&str> = plan.iter().map(|e| e.entry_id.as_str()).collect();
    assert_eq!(ids, vec!["c", "a"]);
    let all = fmby::ingest::force_post_plan(&batch, 10);
    assert_eq!(all.len(), 3);
}
