use yt_dlp_ng::engine::downloader::{
    DownloadError, Downloader, OpenMode, Progress, ProgressReport, Response, Transfer,
    TransferStep, MAX_RETRIES,
};
use yt_dlp_ng::engine::VideoFormat;

fn stream(id: &str, ext: &str, video: bool, audio: bool, tbr: Option<u64>) -> VideoFormat {
    VideoFormat {
        format_id: id.to_string(),
        url: format!("https://example.com/{}", id),
        quality: None,
        resolution: None,
        fps: None,
        vcodec: if video { Some("h264".to_string()) } else { None },
        acodec: if audio { Some("aac".to_string()) } else { None },
        ext: ext.to_string(),
        filesize: None,
        tbr,
        vbr: None,
        abr: None,
    }
}

#[test]
fn selection_prefers_container_then_bitrate() {
    let downloader = Downloader::new(1);
    let formats = vec![
        stream("a", "webm", true, true, Some(900)),
        stream("b", "mp4", true, true, Some(500)),
        stream("c", "flv", true, true, Some(1400)),
    ];
    // scores: 500 + 900 = 1400, 1000 + 500 = 1500, 0 + 1400 = 1400
    assert_eq!(downloader.select_best_format(&formats).unwrap().format_id, "b");
}

#[test]
fn selection_leaves_out_streams_without_both_codecs() {
    let downloader = Downloader::new(1);
    let formats = vec![
        stream("video_only", "mp4", true, false, Some(90000)),
        stream("audio_only", "mp4", false, true, Some(80000)),
        stream("both", "3gp", true, true, None),
    ];
    assert_eq!(downloader.select_best_format(&formats).unwrap().format_id, "both");
}

#[test]
fn selection_takes_the_first_of_equal_scores() {
    let downloader = Downloader::new(1);
    let formats = vec![
        stream("first", "mp4", true, true, Some(500)),
        stream("second", "webm", true, true, Some(1000)),
        stream("third", "mp4", true, true, Some(500)),
    ];
    assert_eq!(downloader.select_best_format(&formats).unwrap().format_id, "first");
}

#[test]
fn selection_fails_without_a_combined_stream() {
    let downloader = Downloader::new(1);
    let formats = vec![
        stream("video_only", "mp4", true, false, Some(1)),
        stream("audio_only", "m4a", false, true, Some(2)),
    ];
    assert_eq!(
        downloader.select_best_format(&formats).err(),
        Some(DownloadError::NoSuitableFormat)
    );
    let none: Vec<VideoFormat> = vec![];
    assert_eq!(
        downloader.select_best_format(&none).err(),
        Some(DownloadError::NoSuitableFormat)
    );
}

#[test]
fn selection_does_not_overflow_on_the_largest_bitrate() {
    let downloader = Downloader::new(1);
    let formats = vec![
        stream("small", "mp4", true, true, Some(u64::MAX - 1)),
        stream("large", "flv", true, true, Some(u64::MAX)),
    ];
    // (u64::MAX - 1) + 1000 is more than u64::MAX + 0
    assert_eq!(downloader.select_best_format(&formats).unwrap().format_id, "small");
}

#[test]
fn two_refusals_then_success_wait_twice() {
    let downloader = Downloader::new(1);
    assert_eq!(
        downloader.next_step(1, Response::Status(403)),
        TransferStep::RetryAfter { seconds: 2 }
    );
    assert_eq!(
        downloader.next_step(2, Response::Status(403)),
        TransferStep::RetryAfter { seconds: 4 }
    );
    assert_eq!(downloader.next_step(3, Response::Status(200)), TransferStep::Receive);
}

#[test]
fn refusal_at_every_attempt_fails_at_the_ceiling() {
    let downloader = Downloader::new(1);
    let mut attempt = 1;
    let mut waits = 0;
    let end = loop {
        match downloader.next_step(attempt, Response::Status(403)) {
            TransferStep::RetryAfter { .. } => {
                waits += 1;
                attempt += 1;
            }
            other => break other,
        }
    };
    assert_eq!(MAX_RETRIES, 3);
    assert_eq!(waits, 2);
    assert_eq!(
        end,
        TransferStep::Fail(DownloadError::Http { attempts: 3, status: 403 })
    );
}

#[test]
fn network_failures_are_retried_up_to_the_ceiling() {
    let downloader = Downloader::new(1);
    assert_eq!(
        downloader.next_step(1, Response::NetworkFailure),
        TransferStep::RetryAfter { seconds: 2 }
    );
    assert_eq!(
        downloader.next_step(2, Response::NetworkFailure),
        TransferStep::RetryAfter { seconds: 4 }
    );
    assert_eq!(
        downloader.next_step(3, Response::NetworkFailure),
        TransferStep::Fail(DownloadError::Network { attempts: 3 })
    );
}

#[test]
fn other_statuses_fail_at_once() {
    let downloader = Downloader::new(1);
    assert_eq!(
        downloader.next_step(1, Response::Status(404)),
        TransferStep::Fail(DownloadError::Http { attempts: 1, status: 404 })
    );
    assert_eq!(
        downloader.next_step(1, Response::Status(500)),
        TransferStep::Fail(DownloadError::Http { attempts: 1, status: 500 })
    );
    assert_eq!(
        downloader.next_step(1, Response::Status(199)),
        TransferStep::Fail(DownloadError::Http { attempts: 1, status: 199 })
    );
    assert_eq!(
        downloader.next_step(1, Response::Status(300)),
        TransferStep::Fail(DownloadError::Http { attempts: 1, status: 300 })
    );
}

#[test]
fn partial_content_is_received() {
    let downloader = Downloader::new(1);
    assert_eq!(downloader.next_step(1, Response::Status(206)), TransferStep::Receive);
    assert_eq!(downloader.next_step(2, Response::Status(299)), TransferStep::Receive);
}

#[test]
fn backoff_doubles() {
    assert_eq!(Downloader::backoff_seconds(0), 1);
    assert_eq!(Downloader::backoff_seconds(1), 2);
    assert_eq!(Downloader::backoff_seconds(2), 4);
    assert_eq!(Downloader::backoff_seconds(10), 1024);
    assert_eq!(Downloader::backoff_seconds(63), 9223372036854775808);
}

#[test]
fn test_resume_capability() {
    let partial_content = b"partial content";
    let on_disk = partial_content.len() as u64;
    assert_eq!(on_disk, 15);

    // A resumed transfer asks for the bytes from the size on disk on.
    assert_eq!(Downloader::range_header(Some(on_disk)), Some("bytes=15-".to_string()));
    assert_eq!(Downloader::range_header(None), None);

    // The server sends the remaining 85 bytes of a resource of 100.
    let mut progress = Progress::start(Some(on_disk), Some(85));
    assert_eq!(progress.expected_total, Some(100));
    assert_eq!(progress.downloaded, 15);
    assert_eq!(
        progress.record(35),
        ProgressReport::Percent { percent: 50, downloaded: 50, total: 100 }
    );
    assert_eq!(
        progress.record(50),
        ProgressReport::Percent { percent: 100, downloaded: 100, total: 100 }
    );
    assert_eq!(progress.downloaded, 100);
}

#[test]
fn range_header_is_last_of_the_request_headers() {
    let fresh = Downloader::request_headers(None);
    assert_eq!(fresh.len(), 18);
    assert_eq!(fresh[0], ("Accept".to_string(), "*/*".to_string()));
    assert_eq!(
        fresh[6],
        ("Referer".to_string(), "https://www.youtube.com/".to_string())
    );
    assert_eq!(
        fresh[17],
        ("X-Youtube-Client-Version".to_string(), "2.20231201.00.00".to_string())
    );
    assert!(fresh.iter().all(|(name, _)| name != "Range"));

    let resumed = Downloader::request_headers(Some(1024));
    assert_eq!(resumed.len(), 19);
    assert_eq!(resumed[..18], fresh[..]);
    assert_eq!(resumed[18], ("Range".to_string(), "bytes=1024-".to_string()));
}

#[test]
fn progress_rounds_the_percentage_down() {
    let mut progress = Progress::start(None, Some(3));
    assert_eq!(
        progress.record(1),
        ProgressReport::Percent { percent: 33, downloaded: 1, total: 3 }
    );
    assert_eq!(
        progress.record(1),
        ProgressReport::Percent { percent: 66, downloaded: 2, total: 3 }
    );
}

#[test]
fn progress_of_an_empty_total() {
    let mut progress = Progress::start(None, Some(0));
    assert_eq!(
        progress.record(0),
        ProgressReport::Percent { percent: 0, downloaded: 0, total: 0 }
    );
    assert_eq!(
        progress.record(7),
        ProgressReport::Percent { percent: u32::MAX, downloaded: 7, total: 0 }
    );
}

#[test]
fn progress_without_a_total_reports_whole_intervals() {
    let mut progress = Progress::start(None, None);
    assert_eq!(progress.record(1000), ProgressReport::Quiet);
    assert_eq!(progress.record(1048576 - 1000), ProgressReport::Bytes { downloaded: 1048576 });
    assert_eq!(progress.record(1), ProgressReport::Quiet);
}

#[test]
fn progress_with_large_numbers_does_not_overflow() {
    let mut progress = Progress::start(Some(u64::MAX - 10), Some(10));
    assert_eq!(progress.expected_total, Some(u64::MAX));
    assert_eq!(
        progress.record(10),
        ProgressReport::Percent { percent: 100, downloaded: u64::MAX, total: u64::MAX }
    );
}

#[test]
fn a_transfer_counts_its_attempts() {
    let mut transfer = Transfer::begin(Some(15));
    assert_eq!(transfer.attempt, 1);
    assert_eq!(transfer.open_mode(), OpenMode::Append);
    assert_eq!(transfer.headers().last().unwrap().1, "bytes=15-");
    assert_eq!(
        transfer.answer(Response::Status(403)),
        TransferStep::RetryAfter { seconds: 2 }
    );
    assert_eq!(transfer.attempt, 2);
    assert_eq!(
        transfer.answer(Response::NetworkFailure),
        TransferStep::RetryAfter { seconds: 4 }
    );
    assert_eq!(transfer.attempt, 3);
    assert_eq!(transfer.answer(Response::Status(200)), TransferStep::Receive);
    assert_eq!(transfer.attempt, 3);
    assert_eq!(transfer.resume_from, Some(15));

    let mut refused = Transfer::begin(None);
    assert_eq!(refused.open_mode(), OpenMode::Truncate);
    assert_eq!(refused.headers().len(), 18);
    let mut waits = vec![];
    let end = loop {
        match refused.answer(Response::Status(403)) {
            TransferStep::RetryAfter { seconds } => waits.push(seconds),
            other => break other,
        }
    };
    assert_eq!(waits, vec![2, 4]);
    assert_eq!(
        end,
        TransferStep::Fail(DownloadError::Http { attempts: 3, status: 403 })
    );
    assert_eq!(
        DownloadError::Http { attempts: 3, status: 403 }.message(),
        "failed to download after 3 attempts: HTTP 403"
    );
    assert_eq!(
        DownloadError::Network { attempts: 3 }.message(),
        "the request failed after 3 attempts"
    );
    assert_eq!(DownloadError::NoSuitableFormat.message(), "no suitable format found");
}
