//! Errors of the library.

use vstd::prelude::*;

verus! {

/// A failed HTTP exchange, as the transport reported it.
#[derive(Debug)]
pub struct NetworkError {
    /// The HTTP status of the response, when the failure carried one.
    pub status: Option<u16>,
    /// The transport's description of the failure.
    pub message: String,
}

/// A failed file-system operation.
#[derive(Debug)]
pub struct IoError {
    /// The operating system's description of the failure.
    pub message: String,
}

/// Everything that can go wrong while talking to the forum.
#[derive(Debug)]
pub enum Error {
    Network(NetworkError),
    Io(IoError),
    CsrfTokenNotFound,
    UnexpectedLoginPage { preview: String },
    ForbiddenLoginPage,
    BotChallenge,
    InvalidCredentials,
    AccountBanned,
    InvalidRedirect,
    TooManyRedirects,
}

/// The result of the library's fallible operations.
pub type Result<T> = std::result::Result<T, Error>;

/// Whether `err` is a network failure whose HTTP status is 403, the site's
/// answer to a blocked client.
pub open spec fn is_forbidden_spec(err: Error) -> bool {
    err matches Error::Network(n) && n.status == Some(403u16)
}

/// Whether `err` is a network failure whose HTTP status is 403.
pub fn is_forbidden(err: &Error) -> (r: bool)
    ensures
        r == is_forbidden_spec(*err),
{
    match err {
        Error::Network(n) => match n.status {
            Some(s) => s == 403,
            None => false,
        },
        _ => false,
    }
}

} // verus!
