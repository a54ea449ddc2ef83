//! Incremental render-decision engine for a photo blog.
//!
//! Each post is one directory of photo files plus a configuration file.
//! The engine decides, per post and for the blog as a whole, whether the
//! previously rendered output is still valid, rebuilds just enough state
//! from cached snapshots to skip expensive work, and triggers a correct,
//! minimal re-render where anything drifted.

pub mod config;
pub mod staleness;
pub mod blog;
pub mod chronology;
pub mod log;
pub mod photo;
pub mod post;
pub mod size;
pub mod slug;
pub mod tags;
