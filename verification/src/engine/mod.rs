//! The data model, the registry of extractors and the transfer engine.

pub mod downloader;
pub mod extractor;
pub mod metadata;

pub use downloader::Downloader;
pub use extractor::{ExtractError, Extractor, ExtractorEngine};
pub use metadata::{Subtitle, Thumbnail, VideoFormat, VideoMetadata};
