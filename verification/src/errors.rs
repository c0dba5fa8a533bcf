//! The error taxonomy: every failure is scoped to the smallest unit of
//! work, and none is fatal to the process.
use vstd::prelude::*;

verus! {

/// Everything that can go wrong in the core, by kind.
#[derive(Clone, Copy, Debug, PartialEq, Eq, Structural)]
pub enum CoreError {
    /// No URL found: a valid "nothing to do" signal, not an error.
    ExtractionEmpty,
    /// No authoritative status for the channel: handled, not escalated.
    ClassificationAmbiguous,
    /// A unique-constraint hit at insert time: expected and swallowed.
    StoreConflict,
    /// A connection or query error: the unit of work is aborted.
    StoreFailure,
    /// The feed could not be fetched: scoped to one feed check.
    FetchFailure,
    /// The feed document was malformed: scoped to one feed check.
    ParseFailure,
    /// One entry could not be delivered: it stays seen and is not retried.
    DeliveryFailure,
}

/// The unit of work a failure is confined to.
#[derive(Clone, Copy, Debug, PartialEq, Eq, Structural)]
pub enum FailureScope {
    /// Nothing failed at all: the signal only says there is nothing to do.
    Nothing,
    /// One reconciliation or persistence batch.
    Batch,
    /// One feed's check.
    Feed,
    /// One entry's delivery.
    Entry,
}

impl CoreError {
    /// Which errors really are errors: the empty-extraction and ambiguous
    /// classification signals are expected outcomes.
    pub open spec fn spec_is_error(self) -> bool {
        !(self == CoreError::ExtractionEmpty || self == CoreError::ClassificationAmbiguous
            || self == CoreError::StoreConflict)
    }

    /// Whether this outcome is reported as an error at all.
    pub fn is_error(&self) -> (r: bool)
        ensures
            r == self.spec_is_error(),
    {
        match self {
            CoreError::ExtractionEmpty => false,
            CoreError::ClassificationAmbiguous => false,
            CoreError::StoreConflict => false,
            _ => true,
        }
    }

    /// The scope a failure is confined to. Nothing in the core is fatal to
    /// the process: every failure maps to a bounded unit of work.
    pub fn scope(&self) -> (r: FailureScope)
        ensures
            r == match self {
                CoreError::ExtractionEmpty => FailureScope::Nothing,
                CoreError::ClassificationAmbiguous => FailureScope::Nothing,
                CoreError::StoreConflict => FailureScope::Batch,
                CoreError::StoreFailure => FailureScope::Batch,
                CoreError::FetchFailure => FailureScope::Feed,
                CoreError::ParseFailure => FailureScope::Feed,
                CoreError::DeliveryFailure => FailureScope::Entry,
            },
    {
        match self {
            CoreError::ExtractionEmpty => FailureScope::Nothing,
            CoreError::ClassificationAmbiguous => FailureScope::Nothing,
            CoreError::StoreConflict => FailureScope::Batch,
            CoreError::StoreFailure => FailureScope::Batch,
            CoreError::FetchFailure => FailureScope::Feed,
            CoreError::ParseFailure => FailureScope::Feed,
            CoreError::DeliveryFailure => FailureScope::Entry,
        }
    }

    /// A short human-readable description.
    pub fn describe(&self) -> (r: &'static str)
        ensures
            r@.len() > 0,
    {
        proof {
            reveal_strlit("nothing to extract");
            reveal_strlit("channel carries no authoritative status");
            reveal_strlit("row already present; insert ignored");
            reveal_strlit("store operation failed; batch aborted");
            reveal_strlit("feed could not be fetched");
            reveal_strlit("feed document is malformed");
            reveal_strlit("entry could not be delivered; not retried");
        }
        match self {
            CoreError::ExtractionEmpty => "nothing to extract",
            CoreError::ClassificationAmbiguous => "channel carries no authoritative status",
            CoreError::StoreConflict => "row already present; insert ignored",
            CoreError::StoreFailure => "store operation failed; batch aborted",
            CoreError::FetchFailure => "feed could not be fetched",
            CoreError::ParseFailure => "feed document is malformed",
            CoreError::DeliveryFailure => "entry could not be delivered; not retried",
        }
    }
}

} // verus!
