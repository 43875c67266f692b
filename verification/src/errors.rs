//! The error taxonomy of the paste engine.
use vstd::prelude::*;

verus! {

/// Why a paste operation was refused or failed.
///
/// Validation and ownership errors carry a precise, safe-to-show meaning;
/// storage and transaction failures are collapsed to a generic message so
/// that no internal detail reaches a client.
#[derive(Clone, Copy, Debug, PartialEq, Eq, Structural)]
pub enum PasteError {
    /// The submission was malformed: empty content, unknown format, or an
    /// empty tag query.
    Validation,
    /// The bot score fell below the configured threshold.
    BotRejected,
    /// The compressed payload exceeded the primary store's size ceiling.
    PayloadTooLarge,
    /// No paste with the given identifier exists.
    NotFound,
    /// The requester does not own the paste.
    Forbidden,
    /// An object-store or alternate-backend call failed.
    Storage,
    /// A metadata-store transaction could not begin or commit.
    Transaction,
}

impl PasteError {
    /// The HTTP status code this error surfaces as.
    pub fn status_code(&self) -> (r: u16)
        ensures
            *self == PasteError::Validation ==> r == 400,
            *self == PasteError::BotRejected ==> r == 403,
            *self == PasteError::PayloadTooLarge ==> r == 413,
            *self == PasteError::NotFound ==> r == 404,
            *self == PasteError::Forbidden ==> r == 403,
            *self == PasteError::Storage ==> r == 500,
            *self == PasteError::Transaction ==> r == 500,
    {
        match self {
            PasteError::Validation => 400,
            PasteError::BotRejected => 403,
            PasteError::PayloadTooLarge => 413,
            PasteError::NotFound => 404,
            PasteError::Forbidden => 403,
            PasteError::Storage => 500,
            PasteError::Transaction => 500,
        }
    }

    /// A short, safe-to-show message; storage and transaction failures share
    /// one generic text so internal details never leak.
    pub fn message(&self) -> (r: String)
        ensures
            r@ == message_spec(*self),
    {
        match self {
            PasteError::Validation => "Invalid submission".to_owned(),
            PasteError::BotRejected => "Oop, bot check failed! This site is for humans!".to_owned(),
            PasteError::PayloadTooLarge => "That paste is too large".to_owned(),
            PasteError::NotFound => "Paste not found".to_owned(),
            PasteError::Forbidden => "You don't own this paste!".to_owned(),
            PasteError::Storage => "Meep! We couldn't save that paste :-(".to_owned(),
            PasteError::Transaction => "Meep! We couldn't save that paste :-(".to_owned(),
        }
    }
}

/// The safe-to-show message for each error.
pub open spec fn message_spec(e: PasteError) -> Seq<char> {
    match e {
        PasteError::Validation => "Invalid submission"@,
        PasteError::BotRejected => "Oop, bot check failed! This site is for humans!"@,
        PasteError::PayloadTooLarge => "That paste is too large"@,
        PasteError::NotFound => "Paste not found"@,
        PasteError::Forbidden => "You don't own this paste!"@,
        PasteError::Storage => "Meep! We couldn't save that paste :-("@,
        PasteError::Transaction => "Meep! We couldn't save that paste :-("@,
    }
}

} // verus!
