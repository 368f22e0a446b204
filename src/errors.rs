use vstd::prelude::*;

verus! {

/// One failure recorded against a task; its text is shown to the user as is.
#[derive(Debug, Clone)]
pub struct ProcessingError {
    pub message: String,
}

#[verifier::external_type_specification]
#[verifier::external_body]
pub struct ExIoErrorKind(std::io::ErrorKind);

/// Relies on `ErrorKind` being `Copy`: a clone is the same kind.
pub assume_specification[ <std::io::ErrorKind as Clone>::clone ](k: &std::io::ErrorKind) -> (r:
    std::io::ErrorKind)
    ensures
        r == *k,
;

/// The sort of failure that stopped a file from being read.
#[derive(Debug, Clone)]
pub enum ProcessingErrorKind {
    Io(std::io::ErrorKind),
    Utf8,
    Other(String),
}

impl ProcessingError {
    /// An error that carries `message` as its text.
    pub fn new(message: String) -> (r: ProcessingError)
        ensures
            r.message@ == message@,
    {
        ProcessingError { message }
    }

    /// The text shown for this error.
    pub fn to_string(&self) -> (r: String)
        ensures
            r@ == self.message@,
    {
        self.message.clone()
    }
}

} // verus!
