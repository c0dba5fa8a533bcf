//! Decisions for testing-thread tag updates: which tags were applied or
//! lifted, and what each transition says to the thread.
use vstd::prelude::*;

use crate::constants::ForumTag;

verus! {

/// The tags of `a` (its first `n`) that `b` does not hold, paired with the
/// given closing flag, in `a`'s order.
pub open spec fn tag_diff(a: Seq<u64>, b: Seq<u64>, closing: bool, n: int) -> Seq<(u64, bool)>
    decreases n,
{
    if n <= 0 {
        Seq::empty()
    } else {
        let r = tag_diff(a, b, closing, n - 1);
        if !b.contains(a[n - 1]) {
            r.push((a[n - 1], closing))
        } else {
            r
        }
    }
}

/// The tag transitions of a thread update: tags newly applied (closing the
/// thread) first, then tags lifted (reopening it), each in list order.
pub open spec fn tag_transitions_spec(old_tags: Seq<u64>, new_tags: Seq<u64>) -> Seq<(u64, bool)> {
    tag_diff(new_tags, old_tags, true, new_tags.len() as int) + tag_diff(
        old_tags,
        new_tags,
        false,
        old_tags.len() as int,
    )
}

/// Computes the tag transitions of a thread update. An unchanged tag set
/// yields no transitions.
pub fn tag_transitions(old_tags: &Vec<u64>, new_tags: &Vec<u64>) -> (r: Vec<(u64, bool)>)
    ensures
        r@ == tag_transitions_spec(old_tags@, new_tags@),
{
    let mut out: Vec<(u64, bool)> = Vec::new();
    let mut i: usize = 0;
    while i < new_tags.len()
        invariant
            0 <= i <= new_tags@.len(),
            out@ == tag_diff(new_tags@, old_tags@, true, i as int),
        decreases new_tags@.len() - i,
    {
        if !crate::status::contains_u64(old_tags, new_tags[i]) {
            out.push((new_tags[i], true));
        }
        assert(out@ =~= tag_diff(new_tags@, old_tags@, true, i + 1));
        i = i + 1;
    }
    let ghost added = tag_diff(new_tags@, old_tags@, true, new_tags@.len() as int);
    let mut j: usize = 0;
    while j < old_tags.len()
        invariant
            0 <= j <= old_tags@.len(),
            added == tag_diff(new_tags@, old_tags@, true, new_tags@.len() as int),
            out@ == added + tag_diff(old_tags@, new_tags@, false, j as int),
        decreases old_tags@.len() - j,
    {
        if !crate::status::contains_u64(new_tags, old_tags[j]) {
            out.push((old_tags[j], false));
        }
        assert(out@ =~= added + tag_diff(old_tags@, new_tags@, false, j + 1));
        j = j + 1;
    }
    out
}

/// Which configured reply a tag transition triggers.
#[derive(Clone, Copy, Debug, PartialEq, Eq, Structural)]
pub enum ThreadReply {
    RejectedClosing,
    ApprovedClosing,
    Reopened,
}

/// The reply a tag transition triggers: applying the rejected tag closes as
/// rejected, applying the added tag closes as approved, lifting the
/// rejected tag reopens; every other transition is silent.
pub open spec fn tag_reply_spec(tag: u64, closing: bool) -> Option<ThreadReply> {
    if tag == ForumTag::REJECTED && closing {
        Some(ThreadReply::RejectedClosing)
    } else if tag == ForumTag::ADDED && closing {
        Some(ThreadReply::ApprovedClosing)
    } else if tag == ForumTag::REJECTED && !closing {
        Some(ThreadReply::Reopened)
    } else {
        None
    }
}

/// Maps one tag transition to the reply it triggers, if any.
pub fn tag_reply(tag: u64, closing: bool) -> (r: Option<ThreadReply>)
    ensures
        r == tag_reply_spec(tag, closing),
{
    if tag == ForumTag::REJECTED && closing {
        Some(ThreadReply::RejectedClosing)
    } else if tag == ForumTag::ADDED && closing {
        Some(ThreadReply::ApprovedClosing)
    } else if tag == ForumTag::REJECTED && !closing {
        Some(ThreadReply::Reopened)
    } else {
        None
    }
}

} // verus!

verus! {

/// A channel that automatically gets a discussion thread for matching
/// messages, with an optional text marker the message must contain.
#[derive(Clone, Debug)]
pub struct AutoThreadRule {
    pub channel_id: u64,
    pub marker: Option<String>,
}

/// The production auto-thread rules: every free-stuff announcement that
/// pings its role, and everything in the secret-resources channel.
pub fn auto_thread_rules() -> (r: Vec<AutoThreadRule>)
    ensures
        r@.len() == 2,
        r@[0].channel_id == crate::constants::FmhyChannel::FREE_STUFF,
        r@[1].channel_id == crate::constants::FmhyChannel::SECRET_RESOURCES,
        r@[1].marker is None,
{
    let rules: Vec<AutoThreadRule> = vec![
        AutoThreadRule {
            channel_id: crate::constants::FmhyChannel::FREE_STUFF,
            marker: Some(String::from_str("956006107564879873")),
        },
        AutoThreadRule { channel_id: crate::constants::FmhyChannel::SECRET_RESOURCES, marker: None },
    ];
    rules
}

/// Whether a rule fires for a message: the channel matches and the marker,
/// when the rule has one, occurs in the message text.
pub open spec fn auto_thread_spec(
    rule_channel: u64,
    marker: Option<Seq<char>>,
    channel_id: u64,
    content: Seq<char>,
) -> bool {
    rule_channel == channel_id && match marker {
        Some(m) => crate::html::find_pat_from(content, 0, m) >= 0,
        None => true,
    }
}

/// Decides whether a message gets an automatic discussion thread.
pub fn should_auto_thread(rule: &AutoThreadRule, channel_id: u64, content: &str) -> (r: bool)
    ensures
        r == auto_thread_spec(
            rule.channel_id,
            match rule.marker {
                Some(ref m) => Some(m@),
                None => None,
            },
            channel_id,
            content@,
        ),
{
    if rule.channel_id != channel_id {
        return false;
    }
    match &rule.marker {
        Some(m) => crate::html::contains_pat(content, m.as_str()),
        None => true,
    }
}

} // verus!
