//! Extraction of stream descriptors from a video page and the decisions of a
//! resumable, retrying transfer, with the outside parsers behind stated contracts.

pub mod cli;
pub mod config;
pub mod decimal;
pub mod engine;
pub mod extractors;
pub mod json;
pub mod pattern;
pub mod percent;
pub mod script;
pub mod text;
pub mod utils;
pub mod weburl;

pub use engine::{Downloader, ExtractorEngine, VideoFormat, VideoMetadata};
pub use extractors::YouTubeExtractor;
