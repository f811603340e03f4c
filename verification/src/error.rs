//! Why a post could not be rendered.

use vstd::prelude::*;

verus! {

/// The two timestamps that a document shows of a post.
#[derive(Debug, Clone, Copy, PartialEq, Eq, Structural)]
pub enum TimestampField {
    /// When the post was published.
    PublishedAt,
    /// When an ask in the post's body was sent.
    SentAt,
}

/// A failure that ends the rendering of one post. Each names the post, by
/// its identifier, and the field that it came from.
#[derive(Debug, Clone, Copy, PartialEq, Eq, Structural)]
pub enum RenderError {
    /// The field holds no timestamp that can be read.
    UnresolvedTimestamp { post_id: u64, field: TimestampField },
    /// The timestamp was read, but could not be written out.
    WriteFailure { post_id: u64, field: TimestampField },
}

impl RenderError {
    /// The identifier of the post that the error names.
    pub open spec fn post(&self) -> u64 {
        match *self {
            RenderError::UnresolvedTimestamp { post_id, .. } => post_id,
            RenderError::WriteFailure { post_id, .. } => post_id,
        }
    }

    /// The identifier of the post that the error names.
    pub fn post_id(&self) -> (id: u64)
        ensures
            id == self.post(),
    {
        match *self {
            RenderError::UnresolvedTimestamp { post_id, .. } => post_id,
            RenderError::WriteFailure { post_id, .. } => post_id,
        }
    }

    /// What the error says, in words.
    pub fn message(&self) -> (text: String)
        ensures
            text@ == match *self {
                RenderError::UnresolvedTimestamp { field: TimestampField::PublishedAt, .. } =>
                    "the time of publishing is no timestamp"@,
                RenderError::UnresolvedTimestamp { field: TimestampField::SentAt, .. } =>
                    "the time at which an ask was sent is no timestamp"@,
                RenderError::WriteFailure { field: TimestampField::PublishedAt, .. } =>
                    "the time of publishing could not be written"@,
                RenderError::WriteFailure { field: TimestampField::SentAt, .. } =>
                    "the time at which an ask was sent could not be written"@,
            },
    {
        match *self {
            RenderError::UnresolvedTimestamp { field: TimestampField::PublishedAt, .. } =>
                "the time of publishing is no timestamp".to_owned(),
            RenderError::UnresolvedTimestamp { field: TimestampField::SentAt, .. } =>
                "the time at which an ask was sent is no timestamp".to_owned(),
            RenderError::WriteFailure { field: TimestampField::PublishedAt, .. } =>
                "the time of publishing could not be written".to_owned(),
            RenderError::WriteFailure { field: TimestampField::SentAt, .. } =>
                "the time at which an ask was sent could not be written".to_owned(),
        }
    }

    /// The error of a post for a failure of the clock on one of its fields.
    pub fn of_clock(error: ClockFailure, post_id: u64, field: TimestampField) -> (made: RenderError)
        ensures
            made == failure_of(error, post_id, field),
    {
        match error {
            ClockFailure::Unresolved => RenderError::UnresolvedTimestamp { post_id, field },
            ClockFailure::Unwritable => RenderError::WriteFailure { post_id, field },
        }
    }
}

/// Why a timestamp has no reading.
#[derive(Debug, Clone, Copy, PartialEq, Eq, Structural)]
pub enum ClockFailure {
    /// The text is no timestamp, or the clock was never told of it.
    Unresolved,
    /// The instant could not be written out.
    Unwritable,
}

/// The error of a post for a failure of the clock on one of its fields.
pub open spec fn failure_of(error: ClockFailure, post_id: u64, field: TimestampField) -> RenderError {
    match error {
        ClockFailure::Unresolved => RenderError::UnresolvedTimestamp { post_id, field },
        ClockFailure::Unwritable => RenderError::WriteFailure { post_id, field },
    }
}

} // verus!
