use vstd::prelude::*;

verus! {

/// Failure taxonomy of the session manager.
///
/// Each variant stands for one failure class of the login and sync
/// operations; the payload is a human-readable description of the cause,
/// preserved for the caller rather than swallowed.
#[derive(Debug)]
pub enum Error {
    /// A file or stream read or write failed.
    IoError(String),
    /// The credential bundle is missing or fails strict deserialization.
    PersistenceError(String),
    /// A stored or entered identifier fails the protocol identifier grammar.
    IdentityError(String),
    /// No secret could be obtained from any prompt backend.
    CredentialError(String),
    /// The server rejected the login or token exchange.
    AuthError(String),
    /// Local store or transport initialization failed.
    ClientBuildError(String),
    /// A sync request failed.
    SyncError(String),
}

impl Error {
    /// The cause description carried by the variant, whichever it is.
    pub open spec fn spec_message(&self) -> Seq<char> {
        match self {
            Error::IoError(m) => m@,
            Error::PersistenceError(m) => m@,
            Error::IdentityError(m) => m@,
            Error::CredentialError(m) => m@,
            Error::AuthError(m) => m@,
            Error::ClientBuildError(m) => m@,
            Error::SyncError(m) => m@,
        }
    }

    /// Read access to the cause description.
    pub fn message(&self) -> (r: &String)
        ensures
            r@ == self.spec_message(),
    {
        match self {
            Error::IoError(m) => m,
            Error::PersistenceError(m) => m,
            Error::IdentityError(m) => m,
            Error::CredentialError(m) => m,
            Error::AuthError(m) => m,
            Error::ClientBuildError(m) => m,
            Error::SyncError(m) => m,
        }
    }
}

} // verus!
