use vstd::prelude::*;

verus! {

/// Largest number of characters a post title may hold.
pub const MAX_TITLE_LEN: usize = 50;

/// Largest number of characters a post message may hold.
pub const MAX_POST_LEN: usize = 1000;

} // verus!
