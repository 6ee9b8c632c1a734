//! Whisper: a ledger of confessions that users publish, like and comment on.
//!
//! Records live in a flat account space keyed by derived addresses; each
//! instruction validates its accounts and arguments, then mutates records
//! with overflow-checked counters.

pub mod state;
pub mod address;
pub mod ledger;
pub mod instructions;
pub mod laws;

pub use instructions::{comment_confession, create_confession, like_confession};
pub use state::{
    CommentAccount, CommentConfession, ConfessionAccount, CreateConfession, LikeConfession,
    WhisperError,
};
