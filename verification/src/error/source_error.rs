use vstd::prelude::*;

verus! {

/// A record of the input that is not a valid transaction.
#[derive(Debug)]
pub enum SourceError {
    InvalidRecord(String),
}

impl View for SourceError {
    type V = Seq<char>;

    /// The message.
    open spec fn view(&self) -> Seq<char> {
        match self {
            SourceError::InvalidRecord(message) => message@,
        }
    }
}

impl SourceError {
    /// The message.
    pub fn message(&self) -> (r: &String)
        ensures
            r@ == self@,
    {
        match self {
            SourceError::InvalidRecord(message) => message,
        }
    }
}

} // verus!
