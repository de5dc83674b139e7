//! Post lifecycle and time-economy engine for a social-content platform.
//!
//! Posts are created and engaged with (liked, disliked, time withdrawn) at a
//! fixed token cost charged through a fungible ledger. Every post carries a
//! "time" budget: likes replenish it, dislikes and withdrawals deplete it, and
//! a dislike that drives it to zero or below deletes the post. A read-only
//! query layer filters and aggregates the post store by author and category.

pub mod ledger;
pub mod post;
pub mod query;
pub mod store;
pub mod laws;
