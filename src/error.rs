use vstd::prelude::*;

verus! {

/// Why a title or a message was refused.
#[derive(Debug, Clone, Copy, PartialEq, Eq, Structural)]
pub enum StreamError {
    /// The title holds no characters.
    EmptyTitle,
    /// The title holds more characters than allowed.
    InvalidTitleLength { max_size: usize, curr_size: usize },
    /// The message holds no characters.
    EmptyPost,
    /// The message holds more characters than allowed.
    InvalidPostLength { max_size: usize, curr_size: usize },
}

} // verus!
