//! The one kind of failure that a request can end in.

use vstd::prelude::*;

verus! {

/// A request that failed. It keeps what the transport said of the cause,
/// and tells no kinds of failure apart.
#[derive(Debug)]
pub struct Error {
    source: String,
}

impl View for Error {
    type V = Seq<char>;

    /// The cause, as the transport worded it.
    closed spec fn view(&self) -> Seq<char> {
        self.source@
    }
}

impl Error {
    /// The failure with the given cause.
    pub fn new(source: String) -> (error: Error)
        ensures
            error@ == source@,
    {
        Error { source }
    }

    /// The cause, word for word.
    pub fn to_string(&self) -> (text: String)
        ensures
            text@ == self@,
    {
        self.source.clone()
    }
}

} // verus!
