//! The persisted record types of the system and their mathematical views.
use vstd::prelude::*;

verus! {

/// Status of a tracked wiki URL record.
#[derive(Clone, Copy, Debug, PartialEq, Eq, Structural)]
pub enum WikiUrlStatus {
    Pending,
    Added,
    Removed,
}

/// Who set a record's status last, and where.
#[derive(Clone, Copy, Debug, PartialEq, Eq, Structural)]
pub struct Origin {
    pub user_id: i64,
    pub message_id: i64,
    pub channel_id: i64,
    pub guild_id: Option<i64>,
}

/// One tracked wiki URL: exactly one record exists per canonical URL.
#[derive(Clone, Debug)]
pub struct WikiUrlRecord {
    pub url: String,
    pub name: Option<String>,
    pub status: WikiUrlStatus,
    pub user_id: Option<i64>,
    pub message_id: Option<i64>,
    pub channel_id: Option<i64>,
    pub guild_id: Option<i64>,
    pub created_at: i64,
    pub updated_at: i64,
}

/// Mathematical view of a `WikiUrlRecord`.
pub struct RecordView {
    pub url: Seq<char>,
    pub name: Option<Seq<char>>,
    pub status: WikiUrlStatus,
    pub user_id: Option<i64>,
    pub message_id: Option<i64>,
    pub channel_id: Option<i64>,
    pub guild_id: Option<i64>,
    pub created_at: i64,
    pub updated_at: i64,
}

impl View for WikiUrlRecord {
    type V = RecordView;

    open spec fn view(&self) -> RecordView {
        RecordView {
            url: self.url@,
            name: match self.name {
                Some(n) => Some(n@),
                None => None,
            },
            status: self.status,
            user_id: self.user_id,
            message_id: self.message_id,
            channel_id: self.channel_id,
            guild_id: self.guild_id,
            created_at: self.created_at,
            updated_at: self.updated_at,
        }
    }
}

impl WikiUrlRecord {
    /// A copy of this record with the same view.
    pub fn duplicate(&self) -> (r: WikiUrlRecord)
        ensures
            r@ == self@,
    {
        WikiUrlRecord {
            url: self.url.clone(),
            name: match &self.name {
                Some(n) => Some(n.clone()),
                None => None,
            },
            status: self.status,
            user_id: self.user_id,
            message_id: self.message_id,
            channel_id: self.channel_id,
            guild_id: self.guild_id,
            created_at: self.created_at,
            updated_at: self.updated_at,
        }
    }
}

/// View of a record sequence.
pub open spec fn records_view(rs: Seq<WikiUrlRecord>) -> Seq<RecordView> {
    rs.map_values(|r: WikiUrlRecord| r@)
}

/// A record is well formed when its URL is already canonical, so that the
/// unique key of the store really is the canonical form.
pub open spec fn record_wf(r: RecordView) -> bool {
    crate::urls::is_canonical(r.url)
}

} // verus!
