//! Feed subscriptions and feed entries: the data the polling scheduler and
//! the deduplicating poster work on.
use vstd::prelude::*;

verus! {

/// Whether a subscription is polled at all.
#[derive(Clone, Copy, Debug, PartialEq, Eq, Structural)]
pub enum FeedStatus {
    Active,
    Inactive,
}

/// One feed subscription: the same feed URL may be subscribed into several
/// channels, as distinct subscriptions.
#[derive(Clone, Debug)]
pub struct FeedSubscription {
    pub id: u128,
    pub url: String,
    pub name: String,
    pub channel_id: i64,
    pub guild_id: i64,
    pub created_by: i64,
    pub status: FeedStatus,
    pub check_interval_minutes: i64,
    pub last_checked_at: i64,
}

/// Mathematical view of a subscription.
pub struct FeedSubscriptionView {
    pub id: u128,
    pub url: Seq<char>,
    pub name: Seq<char>,
    pub channel_id: i64,
    pub guild_id: i64,
    pub created_by: i64,
    pub status: FeedStatus,
    pub check_interval_minutes: i64,
    pub last_checked_at: i64,
}

impl View for FeedSubscription {
    type V = FeedSubscriptionView;

    open spec fn view(&self) -> FeedSubscriptionView {
        FeedSubscriptionView {
            id: self.id,
            url: self.url@,
            name: self.name@,
            channel_id: self.channel_id,
            guild_id: self.guild_id,
            created_by: self.created_by,
            status: self.status,
            check_interval_minutes: self.check_interval_minutes,
            last_checked_at: self.last_checked_at,
        }
    }
}

impl FeedSubscription {
    /// A copy of this subscription with the same view.
    pub fn duplicate(&self) -> (r: FeedSubscription)
        ensures
            r@ == self@,
    {
        FeedSubscription {
            id: self.id,
            url: self.url.clone(),
            name: self.name.clone(),
            channel_id: self.channel_id,
            guild_id: self.guild_id,
            created_by: self.created_by,
            status: self.status,
            check_interval_minutes: self.check_interval_minutes,
            last_checked_at: self.last_checked_at,
        }
    }

    /// Stamps the poll attempt before the fetch begins, so a hung feed is
    /// still rate-limited to once per interval.
    pub fn touch(&mut self, now: i64)
        ensures
            final(self)@ == (FeedSubscriptionView { last_checked_at: now, ..old(self)@ }),
    {
        self.last_checked_at = now;
    }
}

/// One persisted feed entry; `(feed_id, entry_id)` is the dedup key, and
/// inserting it is the only signal of "not previously seen".
#[derive(Clone, Debug)]
pub struct FeedEntryRecord {
    pub id: u128,
    pub feed_id: u128,
    pub entry_id: String,
    pub title: String,
    pub link: Option<String>,
    pub description: Option<String>,
    pub thumbnail_url: Option<String>,
    pub published_at: Option<i64>,
    pub created_at: i64,
    pub message_id: Option<i64>,
}

/// Mathematical view of a feed entry record.
pub struct FeedEntryView {
    pub id: u128,
    pub feed_id: u128,
    pub entry_id: Seq<char>,
    pub title: Seq<char>,
    pub link: Option<Seq<char>>,
    pub description: Option<Seq<char>>,
    pub thumbnail_url: Option<Seq<char>>,
    pub published_at: Option<i64>,
    pub created_at: i64,
    pub message_id: Option<i64>,
}

pub open spec fn view_opt_string(s: Option<String>) -> Option<Seq<char>> {
    match s {
        Some(x) => Some(x@),
        None => None,
    }
}

impl View for FeedEntryRecord {
    type V = FeedEntryView;

    open spec fn view(&self) -> FeedEntryView {
        FeedEntryView {
            id: self.id,
            feed_id: self.feed_id,
            entry_id: self.entry_id@,
            title: self.title@,
            link: view_opt_string(self.link),
            description: view_opt_string(self.description),
            thumbnail_url: view_opt_string(self.thumbnail_url),
            published_at: self.published_at,
            created_at: self.created_at,
            message_id: self.message_id,
        }
    }
}

/// View of an entry sequence.
pub open spec fn entries_view(es: Seq<FeedEntryRecord>) -> Seq<FeedEntryView> {
    es.map_values(|e: FeedEntryRecord| e@)
}

fn clone_opt_string(s: &Option<String>) -> (r: Option<String>)
    ensures
        view_opt_string(r) == match s {
            Some(x) => Some(x@),
            None => None::<Seq<char>>,
        },
{
    match s {
        Some(x) => Some(x.clone()),
        None => None,
    }
}

impl FeedEntryRecord {
    /// A copy of this entry with the same view.
    pub fn duplicate(&self) -> (r: FeedEntryRecord)
        ensures
            r@ == self@,
    {
        FeedEntryRecord {
            id: self.id,
            feed_id: self.feed_id,
            entry_id: self.entry_id.clone(),
            title: self.title.clone(),
            link: clone_opt_string(&self.link),
            description: clone_opt_string(&self.description),
            thumbnail_url: clone_opt_string(&self.thumbnail_url),
            published_at: self.published_at,
            created_at: self.created_at,
            message_id: self.message_id,
        }
    }
}

} // verus!

verus! {

/// One entry as the HTTP fetch and feed-parse primitive hands it over:
/// plain values only, in document order.
#[derive(Clone, Debug)]
pub struct FetchedEntry {
    pub id: String,
    pub links: Vec<String>,
    pub title: Option<String>,
    pub summary: Option<String>,
    pub content_body: Option<String>,
    pub media_thumbnail: Option<String>,
    pub media_content_url: Option<String>,
    pub media_content_is_image: bool,
    pub published: Option<i64>,
    pub updated: Option<i64>,
}

/// Mathematical view of a fetched entry.
pub struct FetchedEntryView {
    pub id: Seq<char>,
    pub links: Seq<Seq<char>>,
    pub title: Option<Seq<char>>,
    pub summary: Option<Seq<char>>,
    pub content_body: Option<Seq<char>>,
    pub media_thumbnail: Option<Seq<char>>,
    pub media_content_url: Option<Seq<char>>,
    pub media_content_is_image: bool,
    pub published: Option<i64>,
    pub updated: Option<i64>,
}

impl View for FetchedEntry {
    type V = FetchedEntryView;

    open spec fn view(&self) -> FetchedEntryView {
        FetchedEntryView {
            id: self.id@,
            links: self.links.deep_view(),
            title: view_opt_string(self.title),
            summary: view_opt_string(self.summary),
            content_body: view_opt_string(self.content_body),
            media_thumbnail: view_opt_string(self.media_thumbnail),
            media_content_url: view_opt_string(self.media_content_url),
            media_content_is_image: self.media_content_is_image,
            published: self.published,
            updated: self.updated,
        }
    }
}

/// The timestamp a synthesized entry identifier uses: published, else
/// updated, else the time of the fetch.
pub open spec fn synth_timestamp(e: FetchedEntryView, now: i64) -> i64 {
    match e.published {
        Some(t) => t,
        None => match e.updated {
            Some(t) => t,
            None => now,
        },
    }
}

/// The dedup identifier of a fetched entry: the provider's identifier when
/// present; else the entry's first link; else a synthesized stable fallback
/// from title and timestamp.
pub open spec fn synth_entry_id(e: FetchedEntryView, now: i64) -> Seq<char> {
    if e.id.len() > 0 {
        e.id
    } else if e.links.len() > 0 {
        e.links[0]
    } else {
        let t = match e.title {
            Some(t) => t,
            None => "untitled"@,
        };
        t + seq!['_'] + crate::textutil::dec_int(synth_timestamp(e, now) as int)
    }
}

/// The display title of a fetched entry.
pub open spec fn entry_title(e: FetchedEntryView) -> Seq<char> {
    match e.title {
        Some(t) => t,
        None => "Untitled"@,
    }
}

/// The cleaned description: summary when the feed carries one, else the
/// content body; empty text counts as no description.
pub open spec fn entry_description(e: FetchedEntryView) -> Option<Seq<char>> {
    let base = match e.summary {
        Some(s) => Some(crate::html::clean_html_spec(s)),
        None => match e.content_body {
            Some(b) => Some(crate::html::clean_html_spec(b)),
            None => None,
        },
    };
    match base {
        Some(d) => if d.len() == 0 {
            None
        } else {
            Some(d)
        },
        None => None,
    }
}

/// The thumbnail: declared media thumbnail, else declared image media, else
/// the first image of the summary markup, else of the content markup.
pub open spec fn entry_thumbnail(e: FetchedEntryView) -> Option<Seq<char>> {
    if e.media_thumbnail is Some {
        e.media_thumbnail
    } else if e.media_content_is_image && e.media_content_url is Some {
        e.media_content_url
    } else {
        let from_summary = match e.summary {
            Some(s) => crate::html::find_first_image_spec(s),
            None => None,
        };
        if from_summary is Some {
            from_summary
        } else {
            match e.content_body {
                Some(b) => crate::html::find_first_image_spec(b),
                None => None,
            }
        }
    }
}

/// What converting a fetched entry into a record yields.
pub open spec fn convert_entry_spec(
    rec_id: u128,
    feed_id: u128,
    e: FetchedEntryView,
    now: i64,
) -> FeedEntryView {
    FeedEntryView {
        id: rec_id,
        feed_id: feed_id,
        entry_id: synth_entry_id(e, now),
        title: entry_title(e),
        link: if e.links.len() > 0 {
            Some(e.links[0])
        } else {
            None
        },
        description: entry_description(e),
        thumbnail_url: entry_thumbnail(e),
        published_at: match e.published {
            Some(t) => Some(t),
            None => e.updated,
        },
        created_at: now,
        message_id: None,
    }
}

/// Converts one fetched entry into the record to insert: synthesizes a
/// stable dedup identifier, defaults the title, cleans the description and
/// picks a thumbnail.
pub fn convert_entry(rec_id: u128, feed_id: u128, e: &FetchedEntry, now: i64) -> (r:
    FeedEntryRecord)
    ensures
        r@ == convert_entry_spec(rec_id, feed_id, e@, now),
{
    let entry_id: String = if !e.id.as_str().is_empty() {
        let r = e.id.clone();
        assert(r@ == synth_entry_id(e@, now));
        r
    } else if e.links.len() > 0 {
        let r = e.links[0].clone();
        assert(r@ == synth_entry_id(e@, now));
        r
    } else {
        let mut t: String = match &e.title {
            Some(t) => t.clone(),
            None => String::from_str("untitled"),
        };
        let ts = match e.published {
            Some(t) => t,
            None => match e.updated {
                Some(t) => t,
                None => now,
            },
        };
        crate::textutil::push_char(&mut t, '_');
        let num = crate::textutil::i64_to_string(ts);
        t.append(num.as_str());
        assert(t@ =~= synth_entry_id(e@, now));
        t
    };
    let title: String = match &e.title {
        Some(t) => t.clone(),
        None => String::from_str("Untitled"),
    };
    let description: Option<String> = {
        let base: Option<String> = match &e.summary {
            Some(s) => Some(crate::html::clean_html(s.as_str())),
            None => match &e.content_body {
                Some(b) => Some(crate::html::clean_html(b.as_str())),
                None => None,
            },
        };
        match base {
            Some(d) => if d.as_str().unicode_len() == 0 {
                None
            } else {
                Some(d)
            },
            None => None,
        }
    };
    let thumbnail_url: Option<String> = if e.media_thumbnail.is_some() {
        clone_opt_string(&e.media_thumbnail)
    } else if e.media_content_is_image && e.media_content_url.is_some() {
        clone_opt_string(&e.media_content_url)
    } else {
        let from_summary: Option<String> = match &e.summary {
            Some(s) => crate::html::find_first_image(s.as_str()),
            None => None,
        };
        if from_summary.is_some() {
            from_summary
        } else {
            match &e.content_body {
                Some(b) => crate::html::find_first_image(b.as_str()),
                None => None,
            }
        }
    };
    let r = FeedEntryRecord {
        id: rec_id,
        feed_id,
        entry_id,
        title,
        link: if e.links.len() > 0 {
            Some(e.links[0].clone())
        } else {
            None
        },
        description,
        thumbnail_url,
        published_at: match e.published {
            Some(t) => Some(t),
            None => e.updated,
        },
        created_at: now,
        message_id: None,
    };
    assert(r@.thumbnail_url == entry_thumbnail(e@));
    assert(r@.description == entry_description(e@));
    assert(r@.link == convert_entry_spec(rec_id, feed_id, e@, now).link);
    r
}

} // verus!
