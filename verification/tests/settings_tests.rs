use yt_dlp_ng::cli::Cli;
use yt_dlp_ng::config::Config;
use yt_dlp_ng::engine::{Downloader, VideoFormat, VideoMetadata};
use yt_dlp_ng::utils::generate_output_filename;

#[test]
fn settings_default() {
    let config = Config::load().unwrap();
    assert_eq!(config.output_dir, ".");
    assert_eq!(config.concurrent_downloads, 1);
    assert_eq!(config.user_agent, "yt-dlp-ng/0.1.0");
    assert_eq!(config.timeout, 30);
    assert_eq!(config.retries, 3);
    let config = Config::default();
    assert_eq!(config.retries, 3);
}

#[test]
fn the_template_defaults_to_title_and_extension() {
    let mut cli = Cli {
        url: "https://youtu.be/abc".to_string(),
        output: ".".to_string(),
        output_template: None,
        format: "best".to_string(),
        verbose: false,
        concurrent: 1,
    };
    assert_eq!(cli.template(), "%(title)s.%(ext)s");
    cli.output_template = Some("%(id)s".to_string());
    assert_eq!(cli.template(), "%(id)s");
}

fn stream(ext: &str, video: bool, audio: bool, tbr: Option<u64>) -> VideoFormat {
    VideoFormat {
        format_id: "1".to_string(),
        url: "https://example.com/1".to_string(),
        quality: None,
        resolution: None,
        fps: None,
        vcodec: if video { Some("h264".to_string()) } else { None },
        acodec: if audio { Some("aac".to_string()) } else { None },
        ext: ext.to_string(),
        filesize: None,
        tbr,
        vbr: None,
        abr: None,
    }
}

fn video(title: &str, uploader: Option<&str>, formats: Vec<VideoFormat>) -> VideoMetadata {
    VideoMetadata {
        id: "id-1".to_string(),
        title: title.to_string(),
        description: None,
        duration: None,
        uploader: uploader.map(|u| u.to_string()),
        upload_date: None,
        view_count: None,
        like_count: None,
        formats,
        thumbnails: vec![],
        subtitles: std::collections::HashMap::new(),
    }
}

#[test]
fn file_names_take_the_extension_of_the_selected_stream() {
    let name = |formats: Vec<VideoFormat>| {
        generate_output_filename("%(ext)s", &video("t", None, formats))
    };
    assert_eq!(name(vec![]), "mp4");
    assert_eq!(name(vec![stream("m4a", false, true, Some(9)), stream("webm", true, false, None)]), "m4a");
    // The container counts before the bitrate: 1000 + 500 against 500 + 600.
    assert_eq!(
        name(vec![stream("webm", true, true, Some(600)), stream("mp4", true, true, Some(500))]),
        "mp4"
    );
    assert_eq!(
        name(vec![
            stream("m4a", false, true, Some(9000)),
            stream("3gp", true, true, Some(100)),
            stream("webm", true, true, Some(800)),
            stream("mp4", true, true, Some(200)),
        ]),
        "webm"
    );
    // Of equal scores the first counts.
    assert_eq!(
        name(vec![stream("webm", true, true, Some(505)), stream("mp4", true, true, Some(5))]),
        "webm"
    );
    let formats = vec![stream("webm", true, true, Some(600)), stream("mp4", true, true, Some(500))];
    let selected = Downloader::new(1).select_best_format(&formats).unwrap().ext.clone();
    assert_eq!(name(formats), selected);
}

#[test]
fn file_names_fill_the_template_in_order() {
    // The title goes in first, so a placeholder inside it is filled later.
    let metadata = video("a/b: %(id)s?", None, vec![stream("mp4", true, true, None)]);
    assert_eq!(
        generate_output_filename("%(uploader)s/%(title)s [%(id)s].%(ext)s.%(other)s", &metadata),
        "Unknown/a-b_ id-1_ [id-1].mp4.%(other)s"
    );
    let metadata = video("t", Some("%(ext)s"), vec![]);
    assert_eq!(generate_output_filename("%(uploader)s", &metadata), "mp4");
    assert_eq!(generate_output_filename("", &metadata), "");
}

#[test]
fn every_value_is_sanitized_before_it_goes_into_the_name() {
    let mut metadata = video("Test Video", Some("A/B"), vec![stream("mp4", true, true, Some(500))]);
    assert_eq!(generate_output_filename("%(uploader)s.%(ext)s", &metadata), "A-B.mp4");
    metadata.id = "a:b\\c".to_string();
    metadata.formats[0].ext = "m/p?4".to_string();
    assert_eq!(
        generate_output_filename("%(id)s %(uploader)s.%(ext)s", &metadata),
        "a_b-c A-B.m-p_4"
    );
}
