//! What can go wrong with a request.

use vstd::prelude::*;

verus! {

/// The ways in which a request can fail.
#[derive(Debug, Clone, Copy, PartialEq, Eq, Structural)]
pub enum Error {
    BookmarkNotFound,
    ProfileNotFound,
    InvalidCredentials,
    Unauthorized,
    AuthRequired,
    CannotDeleteLastProfile,
    ProfileAlreadyExists,
    InvalidProfileOrder,
    InvalidImageFormat,
    /// The profile was changed since the client read it.
    VersionConflict,
    BadRequest,
    /// A file or another host failed.
    Internal,
}

/// The status of a request that was refused for want of a valid session.
pub const STATUS_UNAUTHORIZED: u16 = 401;

impl Error {
    /// The HTTP status that answers a request failing with `self`.
    pub open spec fn status(self) -> u16 {
        match self {
            Error::BookmarkNotFound | Error::ProfileNotFound => 404,
            Error::InvalidCredentials | Error::Unauthorized | Error::AuthRequired => 401,
            Error::BadRequest
            | Error::CannotDeleteLastProfile
            | Error::ProfileAlreadyExists
            | Error::InvalidProfileOrder
            | Error::InvalidImageFormat => 400,
            Error::VersionConflict | Error::Internal => 500,
        }
    }

    /// The sentence that describes `self`.
    pub open spec fn message_text(self) -> Seq<char> {
        match self {
            Error::BookmarkNotFound => "Bookmark not found"@,
            Error::ProfileNotFound => "Profile not found"@,
            Error::InvalidCredentials => "Invalid credentials"@,
            Error::Unauthorized => "Unauthorized"@,
            Error::AuthRequired => "Authentication required"@,
            Error::CannotDeleteLastProfile => "Cannot delete last profile"@,
            Error::ProfileAlreadyExists => "Profile already exists"@,
            Error::InvalidProfileOrder => "Invalid profile order"@,
            Error::InvalidImageFormat => "Invalid image format"@,
            Error::VersionConflict => "Version conflict"@,
            Error::BadRequest => "Bad request"@,
            Error::Internal => "Internal error"@,
        }
    }

    /// The HTTP status that answers a request failing with `self`.
    pub fn status_code(&self) -> (code: u16)
        ensures
            code == self.status(),
    {
        match self {
            Error::BookmarkNotFound | Error::ProfileNotFound => 404,
            Error::InvalidCredentials | Error::Unauthorized | Error::AuthRequired => 401,
            Error::BadRequest
            | Error::CannotDeleteLastProfile
            | Error::ProfileAlreadyExists
            | Error::InvalidProfileOrder
            | Error::InvalidImageFormat => 400,
            Error::VersionConflict | Error::Internal => 500,
        }
    }

    /// The sentence that describes `self`.
    pub fn message(&self) -> (text: String)
        ensures
            text@ == self.message_text(),
    {
        match self {
            Error::BookmarkNotFound => String::from_str("Bookmark not found"),
            Error::ProfileNotFound => String::from_str("Profile not found"),
            Error::InvalidCredentials => String::from_str("Invalid credentials"),
            Error::Unauthorized => String::from_str("Unauthorized"),
            Error::AuthRequired => String::from_str("Authentication required"),
            Error::CannotDeleteLastProfile => String::from_str("Cannot delete last profile"),
            Error::ProfileAlreadyExists => String::from_str("Profile already exists"),
            Error::InvalidProfileOrder => String::from_str("Invalid profile order"),
            Error::InvalidImageFormat => String::from_str("Invalid image format"),
            Error::VersionConflict => String::from_str("Version conflict"),
            Error::BadRequest => String::from_str("Bad request"),
            Error::Internal => String::from_str("Internal error"),
        }
    }
}

} // verus!
