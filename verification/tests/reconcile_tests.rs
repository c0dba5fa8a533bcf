use fmby::reconcile::reconcile;
use fmby::records::{Origin, WikiUrlRecord, WikiUrlStatus};

fn origin() -> Origin {
    Origin { user_id: 10, message_id: 20, channel_id: 30, guild_id: Some(40) }
}

fn record(url: &str, status: WikiUrlStatus) -> WikiUrlRecord {
    WikiUrlRecord {
        url: url.to_string(),
        name: None,
        status,
        user_id: Some(1),
        message_id: Some(2),
        channel_id: Some(3),
        guild_id: Some(4),
        created_at: 100,
        updated_at: 100,
    }
}

#[test]
fn pending_inserts_when_new() {
    let urls = vec!["example.com".to_string()];
    let plan = reconcile(&urls, Some(WikiUrlStatus::Pending), &Vec::new(), origin(), 500);
    assert_eq!(plan.to_insert.len(), 1);
    assert_eq!(plan.to_insert[0].url, "example.com");
    assert!(matches!(plan.to_insert[0].status, WikiUrlStatus::Pending));
    assert_eq!(plan.to_insert[0].user_id, Some(10));
    assert_eq!(plan.to_insert[0].created_at, 500);
    assert!(plan.to_update.is_empty());
    assert!(plan.conflicts.is_empty());
}

#[test]
fn pending_is_non_destructive() {
    let urls = vec!["example.com".to_string()];
    let existing = vec![record("example.com", WikiUrlStatus::Added)];
    let plan = reconcile(&urls, Some(WikiUrlStatus::Pending), &existing, origin(), 500);
    assert!(plan.to_insert.is_empty());
    assert!(plan.to_update.is_empty());
    assert_eq!(plan.conflicts.len(), 1);
    assert_eq!(plan.conflicts[0].url, "example.com");
    assert!(matches!(plan.conflicts[0].status, WikiUrlStatus::Added));
}

#[test]
fn authoritative_overwrite_refreshes_origin() {
    let urls = vec!["example.com".to_string()];
    let existing = vec![record("example.com", WikiUrlStatus::Pending)];
    let plan = reconcile(&urls, Some(WikiUrlStatus::Added), &existing, origin(), 500);
    assert!(plan.to_insert.is_empty());
    assert!(plan.conflicts.is_empty());
    assert_eq!(plan.to_update.len(), 1);
    let upd = &plan.to_update[0];
    assert!(matches!(upd.status, WikiUrlStatus::Added));
    assert_eq!(upd.user_id, Some(10));
    assert_eq!(upd.message_id, Some(20));
    assert_eq!(upd.channel_id, Some(30));
    assert_eq!(upd.guild_id, Some(40));
    assert_eq!(upd.updated_at, 500);
    assert_eq!(upd.created_at, 100);
}

#[test]
fn authoritative_inserts_directly_when_new() {
    let urls = vec!["dead.example".to_string()];
    let plan = reconcile(&urls, Some(WikiUrlStatus::Removed), &Vec::new(), origin(), 500);
    assert_eq!(plan.to_insert.len(), 1);
    assert!(matches!(plan.to_insert[0].status, WikiUrlStatus::Removed));
}

#[test]
fn ambient_sighting_never_inserts() {
    let urls = vec!["example.com".to_string()];
    let plan = reconcile(&urls, None, &Vec::new(), origin(), 500);
    assert!(plan.to_insert.is_empty());
    assert!(plan.to_update.is_empty());
    assert!(plan.conflicts.is_empty());
}

#[test]
fn ambient_sighting_reports_known_url() {
    let urls = vec!["example.com".to_string()];
    let existing = vec![record("example.com", WikiUrlStatus::Removed)];
    let plan = reconcile(&urls, None, &existing, origin(), 500);
    assert!(plan.to_insert.is_empty());
    assert!(plan.to_update.is_empty());
    assert_eq!(plan.conflicts.len(), 1);
}

#[test]
fn first_occurrence_wins_within_batch() {
    let urls = vec!["example.com".to_string(), "example.com".to_string()];
    let plan = reconcile(&urls, Some(WikiUrlStatus::Pending), &Vec::new(), origin(), 500);
    assert_eq!(plan.to_insert.len(), 1);
}
