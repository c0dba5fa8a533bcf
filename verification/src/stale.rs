//! Decisions of the stale submission sweeper: which `Pending` records have
//! expired and whether the context they came from still justifies keeping
//! them.
use vstd::prelude::*;

use crate::constants::{FmhyChannel, ForumTag};
use crate::records::{RecordView, WikiUrlRecord, WikiUrlStatus};

verus! {

/// How many seconds a `Pending` record may sit before the sweeper looks at
/// it.
pub open spec fn stale_age_seconds() -> int {
    1209600
}

/// A record is a staleness candidate when it is still `Pending` and older
/// than the expiry window.
pub open spec fn is_stale_candidate(r: RecordView, now: i64) -> bool {
    r.status == WikiUrlStatus::Pending && r.created_at + stale_age_seconds() < now
}

/// Tests whether a record is old enough for the sweeper to examine.
pub fn stale_candidate(r: &WikiUrlRecord, now: i64) -> (b: bool)
    ensures
        b == is_stale_candidate(r@, now),
{
    let pending = match r.status {
        WikiUrlStatus::Pending => true,
        _ => false,
    };
    pending && (r.created_at as i128) + 1209600 < (now as i128)
}

/// What the sweeper learned about the place a candidate record came from.
#[derive(Clone, Debug)]
pub enum StaleContext {
    /// The submission message still exists in the submission channel.
    MessagePresent,
    /// The submission message is gone.
    MessageGone,
    /// The record came from a thread with this parent and these tags.
    Thread { parent_id: u64, tags: Vec<u64> },
    /// The channel could not be read or is not a thread.
    NotAThread,
}

/// Decides deletion for one stale candidate, by where it came from:
///
/// * a record whose origin is incomplete is kept (nothing to re-check);
/// * a record from the submission channel is kept while its message still
///   exists, deleted once the message is gone;
/// * a record from a testing thread is deleted only when the thread sits
///   under the link-testing channel and was resolved (tagged added or
///   rejected); threads elsewhere, and unresolved threads, keep it;
/// * a record from any other context is deleted.
pub fn should_delete_stale(r: &WikiUrlRecord, facts: &StaleContext) -> (b: bool)
    ensures
        (r@.channel_id is None || r@.message_id is None) ==> !b,
        r@.channel_id matches Some(cid) ==> (r@.message_id is Some && cid
            == FmhyChannel::ADD_LINKS as i64 ==> (b <==> facts is MessageGone)),
        r@.channel_id matches Some(cid) ==> (r@.message_id is Some && cid
            != FmhyChannel::ADD_LINKS as i64 ==> (b <==> match facts {
            StaleContext::Thread { parent_id, tags } => *parent_id as u64
                == FmhyChannel::LINK_TESTING && (tags@.contains(ForumTag::ADDED) || tags@.contains(
                ForumTag::REJECTED,
            )),
            StaleContext::NotAThread => true,
            _ => false,
        })),
{
    let cid = match r.channel_id {
        Some(c) => c,
        None => {
            return false;
        },
    };
    match r.message_id {
        Some(_) => {},
        None => {
            return false;
        },
    }
    if cid == FmhyChannel::ADD_LINKS as i64 {
        match facts {
            StaleContext::MessageGone => true,
            _ => false,
        }
    } else {
        match facts {
            StaleContext::Thread { parent_id, tags } => {
                if *parent_id != FmhyChannel::LINK_TESTING {
                    false
                } else {
                    crate::status::contains_u64(tags, ForumTag::ADDED)
                        || crate::status::contains_u64(tags, ForumTag::REJECTED)
                }
            },
            StaleContext::NotAThread => true,
            _ => false,
        }
    }
}

} // verus!
