use fmby::format::extract_as_text;
use fmby::urls::{clean_url, extract_urls};

#[test]
fn clean_strips_scheme_www_and_slash() {
    assert_eq!(clean_url("https://www.example.com/"), "example.com");
    assert_eq!(clean_url("http://example.com"), "example.com");
    assert_eq!(clean_url("  https://ww2.example.com/a/b/  "), "example.com/a/b");
}

#[test]
fn canonicalization_is_an_equivalence() {
    let a = clean_url("https://www.EXAMPLE.com/path/");
    let b = clean_url("example.com/path");
    assert_eq!(a, b);
    assert_eq!(a, "example.com/path");
}

#[test]
fn clean_is_idempotent_on_examples() {
    for s in [
        "https://www.Example.com/",
        "http://https://nested.example.org/x/",
        "WWW.Shouty.NET///",
        "plain.com",
    ] {
        let once = clean_url(s);
        let twice = clean_url(&once);
        assert_eq!(once, twice);
    }
}

#[test]
fn extract_finds_and_canonicalizes() {
    let text = "check https://www.example.com/ and http://foo.org/bar, thanks";
    let urls = extract_urls(text, true).unwrap();
    assert_eq!(urls, vec!["example.com".to_string(), "foo.org/bar".to_string()]);
}

#[test]
fn extract_returns_none_without_urls() {
    assert!(extract_urls("no links here", true).is_none());
    assert!(extract_urls("", false).is_none());
    assert!(extract_urls("www.example.com has no scheme", true).is_none());
}

#[test]
fn extract_deduplicates_canonical_forms() {
    let text = "https://example.com/ http://www.example.com https://example.com";
    let urls = extract_urls(text, true).unwrap();
    assert_eq!(urls, vec!["example.com".to_string()]);
}

#[test]
fn extract_keeps_raw_matches_without_clean() {
    // The trailing slash is not a valid final character, so the raw match
    // stops before it.
    let text = "see https://www.example.com/ now";
    let urls = extract_urls(text, false).unwrap();
    assert_eq!(urls, vec!["https://www.example.com".to_string()]);
}

#[test]
fn extract_excludes_self_referential_links() {
    let text = "https://discord.com/channels/1/2/3 and https://example.com";
    let urls = extract_urls(text, true).unwrap();
    assert_eq!(urls, vec!["example.com".to_string()]);

    let only_excluded = "https://discord.com/channels/1/2/3 https://api.fmhy.net/single-page";
    let urls = extract_urls(only_excluded, true).unwrap();
    assert!(urls.is_empty());
}

#[test]
fn extract_trims_trailing_punctuation() {
    let urls = extract_urls("go to https://example.com/page.", true).unwrap();
    assert_eq!(urls, vec!["example.com/page".to_string()]);
}

#[test]
fn re_extraction_round_trips() {
    let urls = vec![
        "https://example.com".to_string(),
        "https://foo.org/bar".to_string(),
        "http://a.b/c?d=e".to_string(),
    ];
    let text = extract_as_text(&urls);
    let extracted = extract_urls(&text, true).unwrap();
    assert_eq!(
        extracted,
        vec!["example.com".to_string(), "foo.org/bar".to_string(), "a.b/c?d=e".to_string()]
    );
}

#[test]
fn re_extraction_collapses_duplicates() {
    let urls = vec![
        "https://example.com/".to_string(),
        "http://www.example.com".to_string(),
    ];
    let text = extract_as_text(&urls);
    let extracted = extract_urls(&text, true).unwrap();
    assert_eq!(extracted, vec!["example.com".to_string()]);
}
