//! The logic of the subcommands of `cross-util`.

pub mod images;
pub mod containers;
pub mod list_targets;
pub mod image_table;
pub mod install;
pub mod cleanup;
