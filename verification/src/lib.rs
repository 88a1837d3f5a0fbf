//! Resolution core of an NPM registry mirror: the range cache, the package
//! index and its framing, dependency classification, download planning and
//! the three-phase traversal, stated over mathematical models and verified.

pub mod semver;
pub mod range_cache;
pub mod text;
pub mod options;
pub mod metadata;
pub mod error;
pub mod checksum;
pub mod codec;
pub mod meta_cache;
pub mod progress;
pub mod downloader;
pub mod worker;
pub mod mirror;
