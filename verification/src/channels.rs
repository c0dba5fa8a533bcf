//! Channel and tag identifiers as enumerations, for call sites that pick a
//! channel by name rather than by raw identifier.
use vstd::prelude::*;

verus! {

/// Channels of the development server.
#[derive(Clone, Copy, Debug, PartialEq, Eq, Structural)]
pub enum DevChannel {
    AddLinks,
    LinkTesting,
    RemoveSites,
    DeadSites,
}

impl DevChannel {
    pub open spec fn spec_id(self) -> u64 {
        match self {
            DevChannel::AddLinks => 1407275510769258567,
            DevChannel::LinkTesting => 1407275689127837726,
            DevChannel::RemoveSites => 1407281582221295746,
            DevChannel::DeadSites => 1407281564248838175,
        }
    }

    /// The raw identifier of this channel.
    pub fn id(&self) -> (r: u64)
        ensures
            r == self.spec_id(),
    {
        match self {
            DevChannel::AddLinks => 1407275510769258567,
            DevChannel::LinkTesting => 1407275689127837726,
            DevChannel::RemoveSites => 1407281582221295746,
            DevChannel::DeadSites => 1407281564248838175,
        }
    }
}

/// Channels of the production server.
#[derive(Clone, Copy, Debug, PartialEq, Eq, Structural)]
pub enum FmhyChannel {
    AddLinks,
    LinkTesting,
    RemoveSites,
    DeadSites,
    ToDo,
    NsfwAddLinks,
    NsfwRemoved,
}

impl FmhyChannel {
    pub open spec fn spec_id(self) -> u64 {
        match self {
            FmhyChannel::AddLinks => 997291314389467146,
            FmhyChannel::LinkTesting => 1250924744853819547,
            FmhyChannel::RemoveSites => 986617857133649921,
            FmhyChannel::DeadSites => 988133247575810059,
            FmhyChannel::ToDo => 997040018604433479,
            FmhyChannel::NsfwAddLinks => 997292029056925808,
            FmhyChannel::NsfwRemoved => 1136688501514047498,
        }
    }

    /// The raw identifier of this channel.
    pub fn id(&self) -> (r: u64)
        ensures
            r == self.spec_id(),
    {
        match self {
            FmhyChannel::AddLinks => 997291314389467146,
            FmhyChannel::LinkTesting => 1250924744853819547,
            FmhyChannel::RemoveSites => 986617857133649921,
            FmhyChannel::DeadSites => 988133247575810059,
            FmhyChannel::ToDo => 997040018604433479,
            FmhyChannel::NsfwAddLinks => 997292029056925808,
            FmhyChannel::NsfwRemoved => 1136688501514047498,
        }
    }
}

/// Tags of the link-testing forum channel.
#[derive(Clone, Copy, Debug, PartialEq, Eq, Structural)]
pub enum ForumTag {
    Added,
    Rejected,
}

impl ForumTag {
    pub open spec fn spec_id(self) -> u64 {
        match self {
            ForumTag::Added => 1407275958280392724,
            ForumTag::Rejected => 1407275979314954280,
        }
    }

    /// The raw identifier of this tag.
    pub fn id(self) -> (r: u64)
        ensures
            r == self.spec_id(),
    {
        match self {
            ForumTag::Added => 1407275958280392724,
            ForumTag::Rejected => 1407275979314954280,
        }
    }
}

} // verus!
