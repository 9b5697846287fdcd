pub mod cache;
pub mod channel;
pub mod daemon;
pub mod discord;
pub mod event;
pub mod logging;
pub mod process;
pub mod shard;
pub mod shards;
pub mod trigger;
