//! Mirrors new posts of a public wall into chats of a messaging bot.
//!
//! The library holds the decisions of a synchronisation run: which posts are
//! eligible, how a post becomes a batch of photos, how a delivery reacts to
//! the destination's answers, and how the per-pair cursor moves.
pub mod delivery;
pub mod message;
pub mod pair;
pub mod post;
pub mod sync;
