//! Runtime version manager: release resolution, channel grouping, the
//! installed-version store, the install/remove/prune pipeline's decisions,
//! the shell-profile editor, and the watch command's arguments.

pub mod cli;
pub mod error;
pub mod gofeed;
pub mod grouping;
pub mod installed;
pub mod order;
pub mod pipeline;
pub mod profile;
pub mod resolve;
pub mod runtime;
pub mod text;
pub mod version;
pub mod watch;
