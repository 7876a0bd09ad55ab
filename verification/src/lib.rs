//! Finding, listing and extracting the assets that a game client keeps in its
//! cache directory.

pub mod assets;
pub mod cache_run;
pub mod directories;
pub mod directory_run;
pub mod extraction;
pub mod headers;
pub mod list_run;
pub mod listing;
pub mod messages;
pub mod removal;
pub mod session;
pub mod tasks;
pub mod text;
