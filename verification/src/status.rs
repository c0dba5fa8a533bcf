//! The status classifier: maps the channel a message arrived in to the
//! status its URLs should get, and decides which thread parents make a
//! thread an authoritative submission context.
use vstd::prelude::*;

use crate::constants::FmhyChannel;
use crate::records::WikiUrlStatus;

verus! {

/// Configuration map from channel identifiers to expected statuses, loaded
/// at startup rather than hardcoded into control flow.
///
/// Channels in none of the lists are "ambient": a URL seen there is not
/// authoritative. A thread is an authoritative `Pending` context exactly
/// when its parent channel is one of the submission parents.
#[derive(Clone, Debug)]
pub struct ChannelStatusMap {
    pub pending: Vec<u64>,
    pub added: Vec<u64>,
    pub removed: Vec<u64>,
    pub submission_parents: Vec<u64>,
}

impl ChannelStatusMap {
    /// Status a plain channel implies, `None` for ambient channels.
    pub open spec fn classify_spec(self, channel_id: u64) -> Option<WikiUrlStatus> {
        if self.pending@.contains(channel_id) {
            Some(WikiUrlStatus::Pending)
        } else if self.added@.contains(channel_id) {
            Some(WikiUrlStatus::Added)
        } else if self.removed@.contains(channel_id) {
            Some(WikiUrlStatus::Removed)
        } else {
            None
        }
    }

    /// Status a thread implies, from its parent channel: only threads under
    /// a submission parent are authoritative, and they submit as `Pending`.
    pub open spec fn classify_thread_spec(self, parent_id: u64) -> Option<WikiUrlStatus> {
        if self.submission_parents@.contains(parent_id) {
            Some(WikiUrlStatus::Pending)
        } else {
            None
        }
    }

    /// Builds a map from explicit channel lists.
    pub fn new(
        pending: Vec<u64>,
        added: Vec<u64>,
        removed: Vec<u64>,
        submission_parents: Vec<u64>,
    ) -> (r: ChannelStatusMap)
        ensures
            r.pending == pending,
            r.added == added,
            r.removed == removed,
            r.submission_parents == submission_parents,
    {
        ChannelStatusMap { pending, added, removed, submission_parents }
    }

    /// The production wiki's channel map.
    pub fn wiki_defaults() -> (r: ChannelStatusMap)
        ensures
            r.pending@ == seq![FmhyChannel::ADD_LINKS, FmhyChannel::NSFW_ADD_LINKS],
            r.added@ == seq![FmhyChannel::RECENTLY_ADDED, FmhyChannel::NSFW_RECENTLY_ADDED],
            r.removed@ == seq![
                FmhyChannel::DEAD_SITES,
                FmhyChannel::REMOVE_SITES,
                FmhyChannel::NSFW_REMOVED,
            ],
            r.submission_parents@ == seq![
                FmhyChannel::ADD_LINKS,
                FmhyChannel::NSFW_ADD_LINKS,
                FmhyChannel::LINK_TESTING,
            ],
    {
        let pending: Vec<u64> = vec![FmhyChannel::ADD_LINKS, FmhyChannel::NSFW_ADD_LINKS];
        let added: Vec<u64> = vec![FmhyChannel::RECENTLY_ADDED, FmhyChannel::NSFW_RECENTLY_ADDED];
        let removed: Vec<u64> = vec![
            FmhyChannel::DEAD_SITES,
            FmhyChannel::REMOVE_SITES,
            FmhyChannel::NSFW_REMOVED,
        ];
        let submission_parents: Vec<u64> = vec![
            FmhyChannel::ADD_LINKS,
            FmhyChannel::NSFW_ADD_LINKS,
            FmhyChannel::LINK_TESTING,
        ];
        ChannelStatusMap { pending, added, removed, submission_parents }
    }

    /// Classifies a plain channel.
    pub fn classify(&self, channel_id: u64) -> (r: Option<WikiUrlStatus>)
        ensures
            r == self.classify_spec(channel_id),
    {
        if contains_u64(&self.pending, channel_id) {
            Some(WikiUrlStatus::Pending)
        } else if contains_u64(&self.added, channel_id) {
            Some(WikiUrlStatus::Added)
        } else if contains_u64(&self.removed, channel_id) {
            Some(WikiUrlStatus::Removed)
        } else {
            None
        }
    }

    /// Classifies a thread by its parent channel.
    pub fn classify_thread(&self, parent_id: u64) -> (r: Option<WikiUrlStatus>)
        ensures
            r == self.classify_thread_spec(parent_id),
    {
        if contains_u64(&self.submission_parents, parent_id) {
            Some(WikiUrlStatus::Pending)
        } else {
            None
        }
    }
}

/// Linear membership test on a channel list.
pub fn contains_u64(v: &Vec<u64>, x: u64) -> (r: bool)
    ensures
        r == v@.contains(x),
{
    let mut k: usize = 0;
    while k < v.len()
        invariant
            0 <= k <= v@.len(),
            forall|m: int| 0 <= m < k ==> v@[m] != x,
        decreases v@.len() - k,
    {
        if v[k] == x {
            return true;
        }
        k = k + 1;
    }
    false
}

/// Status the fixed production channel table implies for a channel.
pub fn infer_wiki_url_status(channel_id: u64) -> (r: Option<WikiUrlStatus>)
    ensures
        r == ChannelStatusMap::wiki_defaults_classify(channel_id),
{
    if channel_id == FmhyChannel::ADD_LINKS || channel_id == FmhyChannel::NSFW_ADD_LINKS {
        Some(WikiUrlStatus::Pending)
    } else if channel_id == FmhyChannel::RECENTLY_ADDED || channel_id
        == FmhyChannel::NSFW_RECENTLY_ADDED {
        Some(WikiUrlStatus::Added)
    } else if channel_id == FmhyChannel::DEAD_SITES || channel_id == FmhyChannel::REMOVE_SITES
        || channel_id == FmhyChannel::NSFW_REMOVED {
        Some(WikiUrlStatus::Removed)
    } else {
        None
    }
}

impl ChannelStatusMap {
    /// What the production channel table answers, written out as a table.
    pub open spec fn wiki_defaults_classify(channel_id: u64) -> Option<WikiUrlStatus> {
        if channel_id == FmhyChannel::ADD_LINKS || channel_id == FmhyChannel::NSFW_ADD_LINKS {
            Some(WikiUrlStatus::Pending)
        } else if channel_id == FmhyChannel::RECENTLY_ADDED || channel_id
            == FmhyChannel::NSFW_RECENTLY_ADDED {
            Some(WikiUrlStatus::Added)
        } else if channel_id == FmhyChannel::DEAD_SITES || channel_id == FmhyChannel::REMOVE_SITES
            || channel_id == FmhyChannel::NSFW_REMOVED {
            Some(WikiUrlStatus::Removed)
        } else {
            None
        }
    }
}

/// The production map's classifier agrees with the written-out table.
pub proof fn lemma_wiki_defaults_agree(m: ChannelStatusMap, channel_id: u64)
    requires
        m.pending@ == seq![FmhyChannel::ADD_LINKS, FmhyChannel::NSFW_ADD_LINKS],
        m.added@ == seq![FmhyChannel::RECENTLY_ADDED, FmhyChannel::NSFW_RECENTLY_ADDED],
        m.removed@ == seq![
            FmhyChannel::DEAD_SITES,
            FmhyChannel::REMOVE_SITES,
            FmhyChannel::NSFW_REMOVED,
        ],
    ensures
        m.classify_spec(channel_id) == ChannelStatusMap::wiki_defaults_classify(channel_id),
{
    assert(m.pending@.contains(channel_id) <==> (channel_id == FmhyChannel::ADD_LINKS
        || channel_id == FmhyChannel::NSFW_ADD_LINKS)) by {
        if channel_id == FmhyChannel::ADD_LINKS {
            assert(m.pending@[0] == channel_id);
        }
        if channel_id == FmhyChannel::NSFW_ADD_LINKS {
            assert(m.pending@[1] == channel_id);
        }
    }
    assert(m.added@.contains(channel_id) <==> (channel_id == FmhyChannel::RECENTLY_ADDED
        || channel_id == FmhyChannel::NSFW_RECENTLY_ADDED)) by {
        if channel_id == FmhyChannel::RECENTLY_ADDED {
            assert(m.added@[0] == channel_id);
        }
        if channel_id == FmhyChannel::NSFW_RECENTLY_ADDED {
            assert(m.added@[1] == channel_id);
        }
    }
    assert(m.removed@.contains(channel_id) <==> (channel_id == FmhyChannel::DEAD_SITES
        || channel_id == FmhyChannel::REMOVE_SITES || channel_id
        == FmhyChannel::NSFW_REMOVED)) by {
        if channel_id == FmhyChannel::DEAD_SITES {
            assert(m.removed@[0] == channel_id);
        }
        if channel_id == FmhyChannel::REMOVE_SITES {
            assert(m.removed@[1] == channel_id);
        }
        if channel_id == FmhyChannel::NSFW_REMOVED {
            assert(m.removed@[2] == channel_id);
        }
    }
}

} // verus!
