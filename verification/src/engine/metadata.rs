//! What an extraction produces: the description of a video and of its streams.

use vstd::prelude::*;
use std::collections::HashMap;

verus! {

/// One downloadable stream. Rates are whole numbers: frames per second for
/// `fps`, the platform's bitrate unit for `tbr`, `vbr` and `abr`. A rate that
/// the platform gives as a fraction or as a negative number reads as absent.
#[derive(Debug, Clone)]
pub struct VideoFormat {
    pub format_id: String,
    pub url: String,
    pub quality: Option<String>,
    pub resolution: Option<String>,
    pub fps: Option<u64>,
    pub vcodec: Option<String>,
    pub acodec: Option<String>,
    pub ext: String,
    pub filesize: Option<u64>,
    pub tbr: Option<u64>,
    pub vbr: Option<u64>,
    pub abr: Option<u64>,
}

/// A stream as a plain value.
pub struct VideoFormatView {
    pub format_id: Seq<char>,
    pub url: Seq<char>,
    pub quality: Option<Seq<char>>,
    pub resolution: Option<Seq<char>>,
    pub fps: Option<u64>,
    pub vcodec: Option<Seq<char>>,
    pub acodec: Option<Seq<char>>,
    pub ext: Seq<char>,
    pub filesize: Option<u64>,
    pub tbr: Option<u64>,
    pub vbr: Option<u64>,
    pub abr: Option<u64>,
}

impl View for VideoFormat {
    type V = VideoFormatView;

    open spec fn view(&self) -> VideoFormatView {
        VideoFormatView {
            format_id: self.format_id@,
            url: self.url@,
            quality: self.quality.deep_view(),
            resolution: self.resolution.deep_view(),
            fps: self.fps,
            vcodec: self.vcodec.deep_view(),
            acodec: self.acodec.deep_view(),
            ext: self.ext@,
            filesize: self.filesize,
            tbr: self.tbr,
            vbr: self.vbr,
            abr: self.abr,
        }
    }
}

impl VideoFormatView {
    /// A stream carries at least one codec tag.
    pub open spec fn well_formed(self) -> bool {
        self.vcodec is Some || self.acodec is Some
    }

    /// A stream that carries both video and audio.
    pub open spec fn is_combined(self) -> bool {
        self.vcodec is Some && self.acodec is Some
    }
}

/// A preview image.
#[derive(Debug, Clone)]
pub struct Thumbnail {
    pub url: String,
    pub width: Option<u32>,
    pub height: Option<u32>,
    pub resolution: Option<String>,
}

/// A preview image as a plain value.
pub struct ThumbnailView {
    pub url: Seq<char>,
    pub width: Option<u32>,
    pub height: Option<u32>,
    pub resolution: Option<Seq<char>>,
}

impl View for Thumbnail {
    type V = ThumbnailView;

    open spec fn view(&self) -> ThumbnailView {
        ThumbnailView {
            url: self.url@,
            width: self.width,
            height: self.height,
            resolution: self.resolution.deep_view(),
        }
    }
}

/// One subtitle track.
#[derive(Debug, Clone)]
pub struct Subtitle {
    pub url: String,
    pub ext: String,
    pub name: Option<String>,
}

/// A subtitle track as a plain value.
pub struct SubtitleView {
    pub url: Seq<char>,
    pub ext: Seq<char>,
    pub name: Option<Seq<char>>,
}

impl View for Subtitle {
    type V = SubtitleView;

    open spec fn view(&self) -> SubtitleView {
        SubtitleView { url: self.url@, ext: self.ext@, name: self.name.deep_view() }
    }
}

/// The description of one video.
#[derive(Debug, Clone)]
pub struct VideoMetadata {
    pub id: String,
    pub title: String,
    pub description: Option<String>,
    pub duration: Option<u64>,
    pub uploader: Option<String>,
    pub upload_date: Option<String>,
    pub view_count: Option<u64>,
    pub like_count: Option<u64>,
    pub formats: Vec<VideoFormat>,
    pub thumbnails: Vec<Thumbnail>,
    pub subtitles: HashMap<String, Vec<Subtitle>>,
}

/// The description of one video as a plain value.
pub struct VideoMetadataView {
    pub id: Seq<char>,
    pub title: Seq<char>,
    pub description: Option<Seq<char>>,
    pub duration: Option<u64>,
    pub uploader: Option<Seq<char>>,
    pub upload_date: Option<Seq<char>>,
    pub view_count: Option<u64>,
    pub like_count: Option<u64>,
    pub formats: Seq<VideoFormatView>,
    pub thumbnails: Seq<ThumbnailView>,
    pub subtitles: Map<String, Vec<Subtitle>>,
}

/// The plain values of a list of streams.
pub open spec fn format_views(formats: Seq<VideoFormat>) -> Seq<VideoFormatView> {
    formats.map_values(|f: VideoFormat| f@)
}

/// The plain values of a list of preview images.
pub open spec fn thumbnail_views(thumbnails: Seq<Thumbnail>) -> Seq<ThumbnailView> {
    thumbnails.map_values(|t: Thumbnail| t@)
}

impl View for VideoMetadata {
    type V = VideoMetadataView;

    open spec fn view(&self) -> VideoMetadataView {
        VideoMetadataView {
            id: self.id@,
            title: self.title@,
            description: self.description.deep_view(),
            duration: self.duration,
            uploader: self.uploader.deep_view(),
            upload_date: self.upload_date.deep_view(),
            view_count: self.view_count,
            like_count: self.like_count,
            formats: format_views(self.formats@),
            thumbnails: thumbnail_views(self.thumbnails@),
            subtitles: self.subtitles@,
        }
    }
}

/// Whether every stream of the list carries a codec tag and no two streams
/// have one identifier.
pub open spec fn sound_streams(formats: Seq<VideoFormatView>) -> bool {
    &&& forall|i: int| 0 <= i < formats.len() ==> (#[trigger] formats[i]).well_formed()
    &&& forall|i: int, j: int|
        0 <= i < j < formats.len() ==> formats[i].format_id != formats[j].format_id
}

impl VideoMetadataView {
    /// A description that an extraction may hand out lists at least one
    /// stream, each of its streams carries a codec tag, and no two of them
    /// have one identifier.
    pub open spec fn well_formed(self) -> bool {
        self.formats.len() > 0 && sound_streams(self.formats)
    }
}

} // verus!
