use vstd::prelude::*;

verus! {

/// Errors reported by the environment manager.
pub enum Error {
    Error(String),
    IoError(String),
    NoSuchSession(String),
    NoSuchChild(String),
    UnknownEnv(String),
}

impl Error {
    /// The human-readable text of an error.
    pub open spec fn text(&self) -> Seq<char> {
        match self {
            Error::Error(m) => "error: "@ + m@,
            Error::IoError(m) => "IO error: "@ + m@,
            Error::NoSuchSession(m) => "session not found: "@ + m@,
            Error::NoSuchChild(m) => "child not found: "@ + m@,
            Error::UnknownEnv(m) => "unknown exec environment: "@ + m@,
        }
    }

    /// Renders the error as text.
    pub fn message(&self) -> (r: String)
        ensures
            r@ == self.text(),
    {
        let (prefix, m) = match self {
            Error::Error(m) => ("error: ", m),
            Error::IoError(m) => ("IO error: ", m),
            Error::NoSuchSession(m) => ("session not found: ", m),
            Error::NoSuchChild(m) => ("child not found: ", m),
            Error::UnknownEnv(m) => ("unknown exec environment: ", m),
        };
        let mut r = String::from_str(prefix);
        r.append(m.as_str());
        r
    }
}

} // verus!
