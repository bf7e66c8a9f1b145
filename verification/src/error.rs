//! The errors that commands end with.

use vstd::prelude::*;

verus! {

/// An error, with its words.
#[derive(Debug)]
pub enum KokoroError {
    Config(String),
    Database(String),
    Validation(String),
    NotFound(String),
    Chat(String),
    ExternalService(String),
    Internal(String),
    Io(String),
}

pub open spec fn is_validation(error: KokoroError, words: Seq<char>) -> bool {
    error matches KokoroError::Validation(w) && w@ == words
}

pub open spec fn is_not_found(error: KokoroError, words: Seq<char>) -> bool {
    error matches KokoroError::NotFound(w) && w@ == words
}

pub open spec fn is_internal(error: KokoroError, words: Seq<char>) -> bool {
    error matches KokoroError::Internal(w) && w@ == words
}

pub open spec fn is_io(error: KokoroError, words: Seq<char>) -> bool {
    error matches KokoroError::Io(w) && w@ == words
}

} // verus!
