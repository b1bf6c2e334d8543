//! Per-guild logging-channel registration over a channel directory.
//!
//! A guild's channel directory is a table of rows `(guild_id, channel_id,
//! channel_name, logging_channel)`. At most one row per guild may carry
//! `logging_channel = true`; the operations here register, deregister and
//! look up that designated channel, and filter channel names for
//! autocompletion.

pub mod directory;
pub mod model;
pub mod response;
pub mod text;

pub use directory::Channel;
pub use directory::ChannelDirectory;
pub use model::ChannelView;
pub use response::AddOutcome;
pub use response::RemoveOutcome;
