//! The failures that an operation on the world can report.

use vstd::prelude::*;

verus! {

/// Why an operation was refused. A refused operation leaves the world as it was.
#[derive(Clone, Copy, Debug, PartialEq, Eq, Structural)]
pub enum Error {
    /// The configuration row exists already.
    AlreadyInitialized,
    /// The world was bootstrapped before.
    AlreadyBootstrapped,
    /// The configuration was read before it was created.
    NotInitialized,
    /// The world is too small to hold an object of the given mass inside its
    /// borders.
    ConfigurationError,
    /// The identity has an active session already.
    DuplicateIdentity,
    /// The identity has no active session.
    PlayerNotFound,
    /// No identifier is left to give to a new row.
    InsertConflict,
}

impl Error {
    /// The text shown to the host for this failure.
    pub open spec fn message_text(self) -> Seq<char> {
        match self {
            Error::AlreadyInitialized => "Config already initialized"@,
            Error::AlreadyBootstrapped => "World already bootstrapped"@,
            Error::NotInitialized => "Config not found"@,
            Error::ConfigurationError => "World too small to place food"@,
            Error::DuplicateIdentity => "Player already connected"@,
            Error::PlayerNotFound => "Player not found"@,
            Error::InsertConflict => "Insert conflict"@,
        }
    }

    /// A human-readable message for the host.
    pub fn message(&self) -> (text: String)
        ensures
            text@ == self.message_text(),
    {
        match self {
            Error::AlreadyInitialized => "Config already initialized".to_owned(),
            Error::AlreadyBootstrapped => "World already bootstrapped".to_owned(),
            Error::NotInitialized => "Config not found".to_owned(),
            Error::ConfigurationError => "World too small to place food".to_owned(),
            Error::DuplicateIdentity => "Player already connected".to_owned(),
            Error::PlayerNotFound => "Player not found".to_owned(),
            Error::InsertConflict => "Insert conflict".to_owned(),
        }
    }
}

} // verus!
