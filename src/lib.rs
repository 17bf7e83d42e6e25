//! A post: a validated title and message with a creation time, and a
//! fixed-width boxed rendering for terminals.

pub mod constant;
pub mod error;
pub mod layout;
pub mod post;

pub use error::StreamError;
pub use post::Post;
