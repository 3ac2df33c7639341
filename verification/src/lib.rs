//! The logic of mounting an S3-compatible bucket as a local NFSv3 folder.

pub mod content;
pub mod directories;
pub mod directory_listing;
pub mod durable;
pub mod fence;
pub mod flush;
pub mod flush_run;
pub mod health;
pub mod inode_table;
pub mod inventory;
pub mod journal;
pub mod key_map;
pub mod keys;
pub mod lookup;
pub mod namespace_recovery;
pub mod operations;
pub mod part_copy;
pub mod paths;
pub mod platform;
pub mod progress;
pub mod publish;
pub mod quota;
pub mod read;
pub mod read_cache;
pub mod recovery;
pub mod rename;
pub mod rename_plan;
pub mod rename_request;
pub mod stage;
pub mod stage_commit;
pub mod stage_state;
pub mod status;
pub mod text;
