use fmby::drama::{fill_phrase, DramaConfig};
use fmby::format::{format_records_for_embed, format_urls_for_embed};
use fmby::fun::{tokenize, uptime_parts};
use fmby::html::{clean_html, decode_html_entities, find_first_image};
use fmby::messages::{fill_owner, LinkTestingMessages, MessagesConfig};
use fmby::records::{WikiUrlRecord, WikiUrlStatus};
use fmby::textutil::{i64_to_string, u64_to_string};

#[test]
fn decodes_numeric_and_named_entities() {
    assert_eq!(decode_html_entities("&#39;x&#39;"), "'x'");
    assert_eq!(decode_html_entities("a &lt;b&gt; &amp; c&nbsp;d"), "a <b> & c d");
    assert_eq!(decode_html_entities("&#128512;"), "\u{1F600}");
    assert_eq!(decode_html_entities("&#999999999; stays"), "&#999999999; stays");
    assert_eq!(decode_html_entities("lone & ampersand"), "lone & ampersand");
}

#[test]
fn clean_html_strips_tags_and_collapses_whitespace() {
    assert_eq!(clean_html("<p>Hello <b>world</b></p>"), "Hello world");
    assert_eq!(clean_html("  a\n\n  b\tc  "), "a b c");
    // Entities are decoded before tags are stripped, so an encoded tag is
    // stripped like a literal one.
    assert_eq!(clean_html("&lt;kept&gt; <removed>"), "");
    assert_eq!(clean_html("a &gt; b"), "a b");
}

#[test]
fn finds_first_absolute_image() {
    assert_eq!(
        find_first_image("<p><img alt=\"x\" src=\"https://cdn/img.png\"></p>"),
        Some("https://cdn/img.png".to_string())
    );
    assert_eq!(
        find_first_image("<img src='//cdn/relative.png'>"),
        Some("//cdn/relative.png".to_string())
    );
    assert_eq!(find_first_image("<img src=\"/not/absolute.png\">"), None);
    assert_eq!(find_first_image("no images"), None);
}

#[test]
fn renders_numbers_in_decimal() {
    assert_eq!(u64_to_string(0), "0");
    assert_eq!(u64_to_string(65535), "65535");
    assert_eq!(i64_to_string(-42), "-42");
    assert_eq!(i64_to_string(i64::MIN), "-9223372036854775808");
}

#[test]
fn formats_url_bullets() {
    let urls = vec!["a.com".to_string(), "b.org".to_string()];
    assert_eq!(format_urls_for_embed(&urls), Some("- a.com\n- b.org".to_string()));
    assert_eq!(format_urls_for_embed(&Vec::new()), None);
}

#[test]
fn formats_records_by_status_with_permalinks() {
    let recs = vec![
        WikiUrlRecord {
            url: "live.com".to_string(),
            name: None,
            status: WikiUrlStatus::Added,
            user_id: Some(1),
            message_id: Some(2),
            channel_id: Some(3),
            guild_id: Some(4),
            created_at: 0,
            updated_at: 0,
        },
        WikiUrlRecord {
            url: "queued.com".to_string(),
            name: None,
            status: WikiUrlStatus::Pending,
            user_id: Some(1),
            message_id: Some(22),
            channel_id: Some(33),
            guild_id: Some(44),
            created_at: 0,
            updated_at: 0,
        },
    ];
    assert_eq!(
        format_records_for_embed(&recs, WikiUrlStatus::Added),
        Some("- live.com".to_string())
    );
    assert_eq!(
        format_records_for_embed(&recs, WikiUrlStatus::Pending),
        Some("- queued.com - https://discord.com/channels/44/33/22".to_string())
    );
    assert_eq!(format_records_for_embed(&recs, WikiUrlStatus::Removed), None);
}

#[test]
fn substitutes_owner_placeholder() {
    assert_eq!(fill_owner("{owner}: hi", "<@9>"), "<@9>: hi");
    assert_eq!(fill_owner("no placeholder", "<@9>"), "no placeholder");
    let msgs = MessagesConfig::default();
    assert_eq!(
        msgs.link_testing.get_thread_update_rejected("<@9>"),
        "<@9>: thread closed as rejected."
    );
}

#[test]
fn default_messages_match_configuration() {
    let msgs = LinkTestingMessages::default();
    assert_eq!(msgs.thread_update.rejected_closing, "{owner}: thread closed as rejected.");
    let welcome = msgs.get_thread_create_welcome("<@1>");
    assert!(welcome.starts_with("Thread opened by <@1>"));
}

#[test]
fn counts_words_exactly() {
    let counts = tokenize("to be or not to be");
    assert_eq!(
        counts,
        vec![
            ("to".to_string(), 2),
            ("be".to_string(), 2),
            ("or".to_string(), 1),
            ("not".to_string(), 1),
        ]
    );
    assert_eq!(tokenize("..."), Vec::<(String, usize)>::new());
}

#[test]
fn uptime_splits_into_parts() {
    // 2 days, 3 hours, 4 minutes, 5 seconds.
    let total = 2 * 86400 + 3 * 3600 + 4 * 60 + 5;
    assert_eq!(uptime_parts(total), (2, 3, 4, 5));
    assert_eq!(uptime_parts(59), (0, 0, 0, 59));
}

#[test]
fn fills_phrases_from_the_vocabulary() {
    let cfg = DramaConfig {
        people: vec!["alice".to_string()],
        servers: vec!["harbor".to_string()],
        bsoftware: Vec::new(),
        phrases: vec!["$p left $s".to_string()],
        replacers: vec![
            ("$p".to_string(), "people".to_string()),
            ("$s".to_string(), "servers".to_string()),
            ("$b".to_string(), "bsoftware".to_string()),
        ],
    };
    assert_eq!(fill_phrase("$p left $s", &cfg), "alice left harbor");
    assert_eq!(fill_phrase("nothing to do", &cfg), "nothing to do");
    // A replacer whose list is empty leaves the word alone.
    assert_eq!(fill_phrase("$b stays", &cfg), "$b stays");
}
