//! Media file manager logic: identification helpers, subtitle evidence,
//! NFO metadata, rename templates, organize and dedup rules, configuration.
use vstd::prelude::*;

pub mod config;
pub mod context;
pub mod dedup;
pub mod execute;
pub mod hashing;
pub mod identify;
pub mod media;
pub mod nfo;
pub mod organize;
pub mod paths;
pub mod regex_calls;
pub mod rename;
pub mod report;
pub mod scraper;
pub mod subtitle;
pub mod text;
pub mod tui;
pub mod types;

verus! {
}
