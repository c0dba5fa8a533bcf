use fmby::message::{get_content_or_referenced, resolve_effective_text};
use fmby::records::{WikiUrlRecord, WikiUrlStatus};
use fmby::stale::{should_delete_stale, stale_candidate, StaleContext};
use fmby::status::{infer_wiki_url_status, ChannelStatusMap};
use fmby::threads::{tag_reply, tag_transitions, ThreadReply};
use fmby::errors::{CoreError, FailureScope};
use fmby::threads::{auto_thread_rules, should_auto_thread};
use fmby::wiki::{audit_records, collect_wiki_urls, contains_ci, live_wiki_urls, partition_by_snapshot, search_wiki_sections, MdNode};

const ADD_LINKS: u64 = 997291314389467146;
const RECENTLY_ADDED: u64 = 997012109156167710;
const DEAD_SITES: u64 = 988133247575810059;
const LINK_TESTING: u64 = 1250924744853819547;
const TAG_ADDED: u64 = 1252866356546900091;
const TAG_REJECTED: u64 = 1255077991566803038;

fn record(url: &str, status: WikiUrlStatus) -> WikiUrlRecord {
    WikiUrlRecord {
        url: url.to_string(),
        name: None,
        status,
        user_id: Some(1),
        message_id: Some(2),
        channel_id: Some(3),
        guild_id: Some(4),
        created_at: 0,
        updated_at: 0,
    }
}

#[test]
fn classifier_follows_the_channel_table() {
    assert_eq!(infer_wiki_url_status(ADD_LINKS), Some(WikiUrlStatus::Pending));
    assert_eq!(infer_wiki_url_status(RECENTLY_ADDED), Some(WikiUrlStatus::Added));
    assert_eq!(infer_wiki_url_status(DEAD_SITES), Some(WikiUrlStatus::Removed));
    assert_eq!(infer_wiki_url_status(12345), None);
}

#[test]
fn configured_map_matches_the_table() {
    let map = ChannelStatusMap::wiki_defaults();
    assert_eq!(map.classify(ADD_LINKS), Some(WikiUrlStatus::Pending));
    assert_eq!(map.classify(DEAD_SITES), Some(WikiUrlStatus::Removed));
    assert_eq!(map.classify(42), None);
}

#[test]
fn threads_are_authoritative_only_under_submission_parents() {
    let map = ChannelStatusMap::wiki_defaults();
    assert_eq!(map.classify_thread(LINK_TESTING), Some(WikiUrlStatus::Pending));
    assert_eq!(map.classify_thread(ADD_LINKS), Some(WikiUrlStatus::Pending));
    assert_eq!(map.classify_thread(DEAD_SITES), None);
}

#[test]
fn wiki_links_are_collected_and_canonicalized() {
    let doc = "# Title\n* [A](https://www.A-site.com/)\n* [B](http://b.org/x) and [A again](https://a-site.com)";
    let raw = collect_wiki_urls(doc);
    assert_eq!(
        raw,
        vec![
            "https://www.A-site.com/".to_string(),
            "http://b.org/x".to_string(),
            "https://a-site.com".to_string()
        ]
    );
    let live = live_wiki_urls(doc);
    assert_eq!(live, vec!["a-site.com".to_string(), "b.org/x".to_string()]);
}

#[test]
fn audit_flags_both_inconsistencies() {
    let records = vec![
        record("live.com", WikiUrlStatus::Added),
        record("gone.com", WikiUrlStatus::Added),
        record("queued.com", WikiUrlStatus::Pending),
        record("actually-live.com", WikiUrlStatus::Removed),
    ];
    let snapshot = vec!["live.com".to_string(), "actually-live.com".to_string()];
    let (not_live, should_add) = audit_records(&records, &snapshot);
    let not_live: Vec<&str> = not_live.iter().map(|r| r.url.as_str()).collect();
    let should_add: Vec<&str> = should_add.iter().map(|r| r.url.as_str()).collect();
    assert_eq!(not_live, vec!["gone.com"]);
    assert_eq!(should_add, vec!["actually-live.com"]);
}

#[test]
fn snapshot_partition_splits_urls() {
    let urls = vec!["a.com".to_string(), "b.com".to_string(), "c.com".to_string()];
    let snapshot = vec!["b.com".to_string()];
    let (present, absent) = partition_by_snapshot(&urls, &snapshot);
    assert_eq!(present, vec!["b.com".to_string()]);
    assert_eq!(absent, vec!["a.com".to_string(), "c.com".to_string()]);
}

#[test]
fn search_matches_items_and_heading_paths() {
    let nodes = vec![
        MdNode::Heading { level: 1, text: "Games".to_string() },
        MdNode::Heading { level: 2, text: "Emulators".to_string() },
        MdNode::Item { text: "[RetroBox](https://retro.example)".to_string() },
        MdNode::Heading { level: 2, text: "Stores".to_string() },
        MdNode::Item { text: "[ShopZone](https://shop.example)".to_string() },
    ];
    let hits = search_wiki_sections(&nodes, "retrobox");
    assert_eq!(hits, vec![
        "**Games** / **Emulators** \u{25ba} [RetroBox](https://retro.example)".to_string()
    ]);
    let by_heading = search_wiki_sections(&nodes, "stores");
    assert_eq!(by_heading, vec![
        "**Games** / **Stores** \u{25ba} [ShopZone](https://shop.example)".to_string()
    ]);
    assert!(search_wiki_sections(&nodes, "nothing").is_empty());
}

#[test]
fn containment_ignores_case() {
    assert!(contains_ci("Hello World", "world"));
    assert!(contains_ci("HELLO", "hello"));
    assert!(!contains_ci("Hello", "world"));
    assert!(contains_ci("anything", ""));
}

#[test]
fn effective_text_prefers_content_then_reference() {
    let content = "hello".to_string();
    let empty = "".to_string();
    let referenced = "quoted".to_string();
    let embed = "forwarded".to_string();
    assert_eq!(get_content_or_referenced(&content, Some(&referenced)), Some(&content));
    assert_eq!(get_content_or_referenced(&empty, Some(&referenced)), Some(&referenced));
    assert_eq!(get_content_or_referenced(&empty, None), None);
    assert_eq!(resolve_effective_text(&empty, None, Some(&embed)), Some(&embed));
}

#[test]
fn tag_transitions_report_applied_then_lifted() {
    let old_tags = vec![TAG_REJECTED, 77];
    let new_tags = vec![77, TAG_ADDED];
    let ts = tag_transitions(&old_tags, &new_tags);
    assert_eq!(ts, vec![(TAG_ADDED, true), (TAG_REJECTED, false)]);
    assert!(tag_transitions(&old_tags, &old_tags).is_empty());
}

#[test]
fn tag_replies_match_the_transition_table() {
    assert_eq!(tag_reply(TAG_REJECTED, true), Some(ThreadReply::RejectedClosing));
    assert_eq!(tag_reply(TAG_ADDED, true), Some(ThreadReply::ApprovedClosing));
    assert_eq!(tag_reply(TAG_REJECTED, false), Some(ThreadReply::Reopened));
    assert_eq!(tag_reply(TAG_ADDED, false), None);
    assert_eq!(tag_reply(77, true), None);
}

#[test]
fn stale_sweeper_decides_per_context() {
    let mut rec = record("old.com", WikiUrlStatus::Pending);
    rec.channel_id = Some(ADD_LINKS as i64);
    rec.created_at = 0;
    assert!(stale_candidate(&rec, 15 * 86400));
    assert!(!stale_candidate(&rec, 13 * 86400));
    assert!(should_delete_stale(&rec, &StaleContext::MessageGone));
    assert!(!should_delete_stale(&rec, &StaleContext::MessagePresent));

    let mut threaded = record("old.com", WikiUrlStatus::Pending);
    threaded.channel_id = Some(777);
    let resolved = StaleContext::Thread { parent_id: LINK_TESTING, tags: vec![TAG_ADDED] };
    let unresolved = StaleContext::Thread { parent_id: LINK_TESTING, tags: vec![99] };
    let elsewhere = StaleContext::Thread { parent_id: 5, tags: vec![TAG_ADDED] };
    assert!(should_delete_stale(&threaded, &resolved));
    assert!(!should_delete_stale(&threaded, &unresolved));
    assert!(!should_delete_stale(&threaded, &elsewhere));
    assert!(should_delete_stale(&threaded, &StaleContext::NotAThread));

    let mut incomplete = record("old.com", WikiUrlStatus::Pending);
    incomplete.message_id = None;
    assert!(!should_delete_stale(&incomplete, &StaleContext::MessageGone));
}

#[test]
fn error_taxonomy_scopes_every_failure() {
    assert!(!CoreError::ExtractionEmpty.is_error());
    assert!(!CoreError::ClassificationAmbiguous.is_error());
    assert!(!CoreError::StoreConflict.is_error());
    assert!(CoreError::StoreFailure.is_error());
    assert_eq!(CoreError::FetchFailure.scope(), FailureScope::Feed);
    assert_eq!(CoreError::DeliveryFailure.scope(), FailureScope::Entry);
    assert_eq!(CoreError::ExtractionEmpty.scope(), FailureScope::Nothing);
    assert!(!CoreError::ParseFailure.describe().is_empty());
}

#[test]
fn auto_thread_rules_match_channel_and_marker() {
    let rules = auto_thread_rules();
    let free_stuff = 976770662205104150u64;
    let secret = 1089999083856470016u64;
    assert!(should_auto_thread(&rules[0], free_stuff, "grab it <@&956006107564879873>"));
    assert!(!should_auto_thread(&rules[0], free_stuff, "no ping here"));
    assert!(!should_auto_thread(&rules[0], secret, "grab it <@&956006107564879873>"));
    assert!(should_auto_thread(&rules[1], secret, "anything at all"));
}
