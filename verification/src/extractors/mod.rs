//! The extractor for the video platform and the engine that resolves its
//! protected stream addresses.

pub mod js_interpreter;
pub mod youtube;
pub mod youtube_signature;

pub use js_interpreter::JSInterpreter;
pub use youtube::YouTubeExtractor;

pub use youtube_signature::{SignatureDecrypter, TransformOp};
