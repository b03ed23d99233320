//! The rule of the "We" bot, verified: every manageable member of one guild
//! carries the same guild nickname, and any deviation is reconciled back.
//!
//! - [`config`]: the configuration and the name everyone becomes;
//! - [`reconcile`]: the decision for one member, and role hierarchy;
//! - [`discord`]: what the bot knows of itself and of the cached guild, and
//!   the answer to each gateway event;
//! - [`worker`]: the coalescing work queue, bounded retries of one nickname
//!   edit, and the full-guild sweep;
//! - [`text`]: character classes, trimming and number parsing.

pub mod config;
pub mod discord;
pub mod reconcile;
pub mod text;
pub mod worker;
