//! The feed polling configuration surface.
use vstd::prelude::*;

verus! {

/// Scheduler-wide settings.
#[derive(Clone, Copy, Debug, PartialEq, Eq, Structural)]
pub struct RssSettings {
    pub default_check_interval: i32,
    pub max_entries_per_check: usize,
    pub max_concurrent_checks: usize,
    pub debug_force_post: bool,
}

/// Fetcher settings.
#[derive(Clone, Copy, Debug, PartialEq, Eq, Structural)]
pub struct RssFetcherConfig {
    pub http_timeout_seconds: u64,
}

/// Embed rendering settings.
#[derive(Clone, Copy, Debug, PartialEq, Eq, Structural)]
pub struct RssEmbedConfig {
    pub color: u32,
    pub max_description_length: usize,
}

/// The whole feed configuration.
#[derive(Clone, Copy, Debug, PartialEq, Eq, Structural)]
pub struct RssConfig {
    pub settings: RssSettings,
    pub fetcher: RssFetcherConfig,
    pub embed: RssEmbedConfig,
}

impl Default for RssConfig {
    /// The stock configuration: five concurrent checks, five entries per
    /// check, five-minute default interval, no debug force-posting.
    fn default() -> (r: RssConfig)
        ensures
            r.settings.default_check_interval == 5,
            r.settings.max_entries_per_check == 5,
            r.settings.max_concurrent_checks == 5,
            !r.settings.debug_force_post,
            r.fetcher.http_timeout_seconds == 30,
            r.embed.color == 0x00D4AA,
            r.embed.max_description_length == 300,
    {
        RssConfig {
            settings: RssSettings {
                default_check_interval: 5,
                max_entries_per_check: 5,
                max_concurrent_checks: 5,
                debug_force_post: false,
            },
            fetcher: RssFetcherConfig { http_timeout_seconds: 30 },
            embed: RssEmbedConfig { color: 0x00D4AA, max_description_length: 300 },
        }
    }
}

} // verus!
