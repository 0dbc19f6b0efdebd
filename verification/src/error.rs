//! The crate's one error type.

use vstd::prelude::*;
use vstd::string::StringExecFns;

verus! {

/// Every failure the stack can report. The string carries the reason, so a
/// caller can tell a malformed frame from a truncated one without a variant
/// per case.
#[derive(Debug, Clone, Copy, PartialEq, Eq)]
pub enum Error {
    Kem(&'static str),
    Kdf,
    Auth(&'static str),
    Aead,
    Transport(&'static str),
    /// The requested KEM backend was not compiled in.
    BackendUnavailable(&'static str),
}

pub type Result<T> = core::result::Result<T, Error>;

/// The text of `a` followed by the text of `b`.
fn joined(a: &str, b: &str) -> (r: String)
    ensures
        r@ == a@ + b@,
{
    a.to_owned().concat(b)
}

/// What an error says when it is shown to a person.
pub open spec fn error_message(e: Error) -> Seq<char> {
    match e {
        Error::Kem(m) => "kem failure: "@ + m@,
        Error::Kdf => "kdf failure"@,
        Error::Auth(m) => "authentication failure: "@ + m@,
        Error::Aead => "aead failure (bad tag, bad key, or bad nonce)"@,
        Error::Transport(m) => "transport failure: "@ + m@,
        Error::BackendUnavailable(m) => "backend not compiled in: "@ + m@ + " (enable the matching cargo feature)"@,
    }
}

impl Error {
    /// The error as a sentence, naming the layer that failed and why.
    pub fn message(&self) -> (r: String)
        ensures
            r@ == error_message(*self),
    {
        match self {
            Error::Kem(m) => joined("kem failure: ", m),
            Error::Kdf => "kdf failure".to_owned(),
            Error::Auth(m) => joined("authentication failure: ", m),
            Error::Aead => "aead failure (bad tag, bad key, or bad nonce)".to_owned(),
            Error::Transport(m) => joined("transport failure: ", m),
            Error::BackendUnavailable(m) => {
                let head = joined("backend not compiled in: ", m);
                joined(head.as_str(), " (enable the matching cargo feature)")
            },
        }
    }
}

} // verus!
