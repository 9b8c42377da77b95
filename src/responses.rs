use vstd::prelude::*;

verus! {

/// Errors of the hub's session resources, as its HTTP layer reports them.
pub enum SessionErr {
    OverwriteError,
    SessionNotFoundError,
    BlobNotFoundError,
    BlobLockedError,
    DirectoryCreationError(String),
    FileError(String),
    MailboxError(String),
}

impl SessionErr {
    /// The HTTP status that answers the error.
    pub open spec fn spec_status(&self) -> u16 {
        match self {
            SessionErr::SessionNotFoundError | SessionErr::BlobNotFoundError => 404,
            SessionErr::BlobLockedError => 423,
            _ => 500,
        }
    }

    /// The body of the answer.
    pub open spec fn spec_body(&self) -> Seq<char> {
        match self {
            SessionErr::OverwriteError => "Id conflict"@,
            SessionErr::SessionNotFoundError => "Session not found"@,
            SessionErr::BlobNotFoundError => "Blob not found"@,
            SessionErr::BlobLockedError => Seq::empty(),
            SessionErr::DirectoryCreationError(s) => "Cannot create directory: "@ + s@,
            SessionErr::FileError(s) => "File related error: "@ + s@,
            SessionErr::MailboxError(s) => "Actix mailbox error: "@ + s@,
        }
    }

    pub fn status_code(&self) -> (r: u16)
        ensures
            r == self.spec_status(),
    {
        match self {
            SessionErr::SessionNotFoundError | SessionErr::BlobNotFoundError => 404,
            SessionErr::BlobLockedError => 423,
            _ => 500,
        }
    }

    pub fn body(&self) -> (r: String)
        ensures
            r@ == self.spec_body(),
    {
        match self {
            SessionErr::OverwriteError => String::from_str("Id conflict"),
            SessionErr::SessionNotFoundError => String::from_str("Session not found"),
            SessionErr::BlobNotFoundError => String::from_str("Blob not found"),
            SessionErr::BlobLockedError => String::new(),
            SessionErr::DirectoryCreationError(s) => {
                let mut r = String::from_str("Cannot create directory: ");
                r.append(s.as_str());
                r
            },
            SessionErr::FileError(s) => {
                let mut r = String::from_str("File related error: ");
                r.append(s.as_str());
                r
            },
            SessionErr::MailboxError(s) => {
                let mut r = String::from_str("Actix mailbox error: ");
                r.append(s.as_str());
                r
            },
        }
    }
}

} // verus!
