use vstd::prelude::*;

verus! {

/// What can go wrong in Sauron, with a message for each kind.
#[derive(Debug, PartialEq, Eq)]
pub enum SauronError {
    /// The configuration is unusable.
    Config(String),
    /// The screenshot database failed.
    Database(String),
    /// An HTTP request failed or was answered with an error.
    Http(String),
    /// Reading or writing a file failed.
    Io(String),
    /// Taking screenshots failed.
    Capture(String),
    /// The Ollama server or the OCR fallback gave no usable answer.
    Ollama(String),
    /// Sending the daily email failed.
    Email(String),
}

} // verus!
