//! The transfer engine: which stream to fetch, what to send, when to try
//! again, and how far a transfer has come.

use vstd::prelude::*;
use crate::decimal::{decimal, u64_text};
use crate::engine::metadata::{format_views, VideoFormat, VideoFormatView};
use crate::text::{joined, owned, same_text};

verus! {

/// The number of attempts a transfer makes before it gives up.
pub const MAX_RETRIES: u32 = 3;

/// Why a transfer did not start or did not end well.
#[derive(Debug, Clone, Copy, PartialEq, Eq, Structural)]
pub enum DownloadError {
    /// No stream carries both video and audio.
    NoSuitableFormat,
    /// The request failed on the network at the last attempt allowed.
    Network { attempts: u32 },
    /// The server refused: the status of the last attempt, and its number.
    Http { attempts: u32, status: u16 },
}

impl DownloadError {
    /// The error in words, with the number of attempts made and the last
    /// status where there are such.
    pub open spec fn text(self) -> Seq<char> {
        match self {
            DownloadError::NoSuitableFormat => "no suitable format found"@,
            DownloadError::Network { attempts } => "the request failed after "@ + decimal(
                attempts as nat,
            ) + " attempts"@,
            DownloadError::Http { attempts, status } => "failed to download after "@ + decimal(
                attempts as nat,
            ) + " attempts: HTTP "@ + decimal(status as nat),
        }
    }

    /// The error in words.
    pub fn message(&self) -> (r: String)
        ensures
            r@ == self.text(),
    {
        match self {
            DownloadError::NoSuitableFormat => owned("no suitable format found"),
            DownloadError::Network { attempts } => {
                let mut r = joined("the request failed after ", u64_text(*attempts as u64).as_str());
                r.append(" attempts");
                r
            },
            DownloadError::Http { attempts, status } => {
                let mut r = joined("failed to download after ", u64_text(*attempts as u64).as_str());
                r.append(" attempts: HTTP ");
                r.append(u64_text(*status as u64).as_str());
                r
            },
        }
    }
}

/// How one attempt at the request ended.
#[derive(Debug, Clone, Copy, PartialEq, Eq, Structural)]
pub enum Response {
    /// The request failed on the network.
    NetworkFailure,
    /// The server answered with this status.
    Status(u16),
}

/// What the transfer does after an attempt.
#[derive(Debug, Clone, Copy, PartialEq, Eq, Structural)]
pub enum TransferStep {
    /// The answer is good: receive the body.
    Receive,
    /// Wait so many seconds, then make the next attempt.
    RetryAfter { seconds: u64 },
    /// Give up.
    Fail(DownloadError),
}

/// What to tell the user after a chunk has been written.
#[derive(Debug, Clone, Copy, PartialEq, Eq, Structural)]
pub enum ProgressReport {
    /// The share of the expected total that is on disk, in percent.
    Percent { percent: u32, downloaded: u64, total: u64 },
    /// The number of bytes on disk, where the total is not known.
    Bytes { downloaded: u64 },
    /// Nothing this time.
    Quiet,
}

/// The rank of a container: the preferred one highest, the second next,
/// every other zero.
pub open spec fn container_priority(ext: Seq<char>) -> int {
    if ext == "mp4"@ {
        1000
    } else if ext == "webm"@ {
        500
    } else {
        0
    }
}

/// The score by which streams are compared: the rank of the container plus
/// the total bitrate, a missing bitrate counting as zero.
pub open spec fn score(format: VideoFormatView) -> int {
    container_priority(format.ext) + match format.tbr {
        Some(rate) => rate as int,
        None => 0,
    }
}

/// The position of the best stream: among those that carry both video and
/// audio, the first of those with the highest score.
pub open spec fn best_index(formats: Seq<VideoFormatView>) -> Option<int>
    decreases formats.len(),
{
    if formats.len() == 0 {
        None
    } else if !formats.last().is_combined() {
        best_index(formats.drop_last())
    } else {
        match best_index(formats.drop_last()) {
            Some(before) => if score(formats.last()) > score(formats[before]) {
                Some(formats.len() - 1)
            } else {
                Some(before)
            },
            None => Some(formats.len() - 1),
        }
    }
}

/// Selection leaves out every stream that lacks a codec tag, takes a stream
/// of the highest score among the rest, and of several such the first. It
/// finds none exactly where no stream carries both tags.
pub proof fn lemma_best_is_first_maximum(formats: Seq<VideoFormatView>)
    ensures
        match best_index(formats) {
            Some(best) => {
                &&& 0 <= best < formats.len()
                &&& formats[best].is_combined()
                &&& forall|j: int|
                    0 <= j < formats.len() && formats[j].is_combined() ==> score(formats[j])
                        <= score(formats[best])
                &&& forall|j: int|
                    0 <= j < best && formats[j].is_combined() ==> score(formats[j]) < score(
                        formats[best],
                    )
            },
            None => forall|j: int| 0 <= j < formats.len() ==> !formats[j].is_combined(),
        },
    decreases formats.len(),
{
    if formats.len() > 0 {
        lemma_best_is_first_maximum(formats.drop_last());
        assert forall|j: int| 0 <= j < formats.len() - 1 implies formats.drop_last()[j]
            == formats[j] by {}
    }
}

/// Two to the power `n`.
pub open spec fn power_of_two(n: nat) -> nat
    decreases n,
{
    if n == 0 {
        1
    } else {
        2 * power_of_two((n - 1) as nat)
    }
}

/// Whether the status lets the body be received: any from 200 to 299, which
/// takes in 206 for a part of the resource.
pub open spec fn is_success(status: u16) -> bool {
    200 <= status < 300
}

/// What the transfer does after attempt number `attempt`, counted from 1, has
/// ended in `response`. A good status lets the body be received. A failure on
/// the network, or the status 403, is tried again after two to the power
/// `attempt` seconds while the attempts are fewer than the ceiling. Anything
/// else ends the transfer with the number of the attempt.
pub open spec fn transfer_step(attempt: u32, response: Response) -> TransferStep {
    match response {
        Response::NetworkFailure => if attempt >= MAX_RETRIES {
            TransferStep::Fail(DownloadError::Network { attempts: attempt })
        } else {
            TransferStep::RetryAfter { seconds: power_of_two(attempt as nat) as u64 }
        },
        Response::Status(status) => if is_success(status) {
            TransferStep::Receive
        } else if status == 403 && attempt < MAX_RETRIES {
            TransferStep::RetryAfter { seconds: power_of_two(attempt as nat) as u64 }
        } else {
            TransferStep::Fail(DownloadError::Http { attempts: attempt, status })
        },
    }
}

/// How a transfer runs on the answers `responses`, one for each attempt that
/// it comes to make, from attempt number `attempt` on: the seconds waited
/// before each further attempt, and how it ended, if the answers suffice to
/// end it.
pub open spec fn run_from(responses: Seq<Response>, attempt: u32) -> (Seq<u64>, Option<
    TransferStep,
>)
    decreases responses.len(),
{
    if responses.len() == 0 {
        (Seq::empty(), None)
    } else {
        match transfer_step(attempt, responses[0]) {
            TransferStep::RetryAfter { seconds } => if attempt < u32::MAX {
                let rest = run_from(responses.drop_first(), (attempt + 1) as u32);
                (seq![seconds] + rest.0, rest.1)
            } else {
                (Seq::empty(), None)
            },
            end => (Seq::empty(), Some(end)),
        }
    }
}

/// A transfer waits fewer times than the ceiling of attempts, whatever the
/// answers are, and ends at the ceiling at the latest.
pub proof fn lemma_retry_bound(responses: Seq<Response>, attempt: u32)
    requires
        1 <= attempt <= MAX_RETRIES,
    ensures
        run_from(responses, attempt).0.len() <= MAX_RETRIES - attempt,
        responses.len() > MAX_RETRIES - attempt ==> run_from(responses, attempt).1 is Some,
    decreases responses.len(),
{
    if responses.len() > 0 && attempt < MAX_RETRIES {
        lemma_retry_bound(responses.drop_first(), (attempt + 1) as u32);
    }
}

/// A transfer that is refused with 403 at every attempt fails at the ceiling,
/// with the ceiling as its count of attempts, after one wait fewer.
pub proof fn lemma_refused_to_the_end(responses: Seq<Response>, attempt: u32)
    requires
        1 <= attempt <= MAX_RETRIES,
        responses.len() > MAX_RETRIES - attempt,
        forall|i: int| 0 <= i < responses.len() ==> responses[i] == Response::Status(403),
    ensures
        run_from(responses, attempt).1 == Some(
            TransferStep::Fail(DownloadError::Http { attempts: MAX_RETRIES, status: 403 }),
        ),
        run_from(responses, attempt).0.len() == MAX_RETRIES - attempt,
    decreases responses.len(),
{
    if attempt < MAX_RETRIES {
        assert forall|i: int| 0 <= i < responses.drop_first().len() implies responses.drop_first()[i]
            == Response::Status(403) by {
            assert(responses.drop_first()[i] == responses[i + 1]);
        }
        lemma_refused_to_the_end(responses.drop_first(), (attempt + 1) as u32);
    }
}

/// The header that asks for the bytes from `offset` on.
pub open spec fn range_value(offset: u64) -> Seq<char> {
    "bytes="@ + decimal(offset as nat) + "-"@
}

/// The sum of the lengths of a run of chunks.
pub open spec fn total_length(chunks: Seq<nat>) -> nat
    decreases chunks.len(),
{
    if chunks.len() == 0 {
        0
    } else {
        total_length(chunks.drop_last()) + chunks.last()
    }
}

/// The share of `total` that `downloaded` is, in percent, rounded down and cut
/// at `u32::MAX`. Of a total of zero, nothing is 0 and anything else is
/// `u32::MAX`.
pub open spec fn percent_of(downloaded: u64, total: u64) -> u32 {
    if total == 0 {
        if downloaded == 0 {
            0
        } else {
            u32::MAX
        }
    } else if downloaded * 100 / (total as int) > u32::MAX {
        u32::MAX
    } else {
        (downloaded * 100 / (total as int)) as u32
    }
}

/// The distance in bytes between two reports where the total is not known.
pub const REPORT_INTERVAL: u64 = 1048576;

/// How far a transfer has come.
#[derive(Debug, Clone, Copy, PartialEq, Eq, Structural)]
pub struct Progress {
    /// The bytes on disk: those found there at the start and those written
    /// since.
    pub downloaded: u64,
    /// The size that the file will have, where the server told the length of
    /// what it sends.
    pub expected_total: Option<u64>,
}

impl Progress {
    /// The state at the start of a transfer that found `resume_from` bytes on
    /// disk and was promised `content_length` more.
    pub open spec fn at_start(resume_from: Option<u64>, content_length: Option<u64>) -> Progress {
        let offset = match resume_from {
            Some(offset) => offset,
            None => 0,
        };
        Progress {
            downloaded: offset,
            expected_total: match content_length {
                Some(length) => Some((length + offset) as u64),
                None => None,
            },
        }
    }

    /// The state after the chunks have been written, one after the other.
    pub open spec fn after(self, chunks: Seq<nat>) -> Progress {
        Progress {
            downloaded: (self.downloaded + total_length(chunks)) as u64,
            expected_total: self.expected_total,
        }
    }

    /// What is reported in this state: the share of the total where it is
    /// known, else the bytes on disk whenever they are a whole number of
    /// intervals.
    pub open spec fn report(self) -> ProgressReport {
        match self.expected_total {
            Some(total) => ProgressReport::Percent {
                percent: percent_of(self.downloaded, total),
                downloaded: self.downloaded,
                total,
            },
            None => if self.downloaded % REPORT_INTERVAL == 0 {
                ProgressReport::Bytes { downloaded: self.downloaded }
            } else {
                ProgressReport::Quiet
            },
        }
    }

    /// The state at the start of a transfer.
    pub fn start(resume_from: Option<u64>, content_length: Option<u64>) -> (r: Progress)
        requires
            match (resume_from, content_length) {
                (Some(offset), Some(length)) => offset + length <= u64::MAX,
                _ => true,
            },
        ensures
            r == Progress::at_start(resume_from, content_length),
    {
        let offset = match resume_from {
            Some(offset) => offset,
            None => 0,
        };
        Progress {
            downloaded: offset,
            expected_total: match content_length {
                Some(length) => Some(length + offset),
                None => None,
            },
        }
    }

    /// Counts a chunk of `length` bytes that has been written, and says what
    /// to report.
    pub fn record(&mut self, length: usize) -> (r: ProgressReport)
        requires
            old(self).downloaded + length <= u64::MAX,
        ensures
            *final(self) == old(self).after(seq![length as nat]),
            r == final(self).report(),
    {
        proof {
            assert(seq![length as nat].drop_last() =~= Seq::<nat>::empty());
            assert(total_length(seq![length as nat]) == length) by {
                reveal_with_fuel(total_length, 2);
            }
        }
        self.downloaded = self.downloaded + length as u64;
        match self.expected_total {
            Some(total) => {
                let percent: u32 = if total == 0 {
                    if self.downloaded == 0 {
                        0
                    } else {
                        u32::MAX
                    }
                } else {
                    let share: u128 = (self.downloaded as u128) * 100 / (total as u128);
                    if share > u32::MAX as u128 {
                        u32::MAX
                    } else {
                        share as u32
                    }
                };
                ProgressReport::Percent { percent, downloaded: self.downloaded, total }
            },
            None => if self.downloaded % REPORT_INTERVAL == 0 {
                ProgressReport::Bytes { downloaded: self.downloaded }
            } else {
                ProgressReport::Quiet
            },
        }
    }
}

/// Writing two runs of chunks one after the other is writing their
/// concatenation.
pub proof fn lemma_total_length_concat(first: Seq<nat>, second: Seq<nat>)
    ensures
        total_length(first + second) == total_length(first) + total_length(second),
    decreases second.len(),
{
    if second.len() == 0 {
        assert(first + second =~= first);
    } else {
        lemma_total_length_concat(first, second.drop_last());
        assert((first + second).drop_last() =~= first + second.drop_last());
    }
}

/// Counting chunk after chunk gives the state that counting them all at once
/// gives, as long as the count fits 64 bits.
pub proof fn lemma_after_composes(progress: Progress, first: Seq<nat>, second: Seq<nat>)
    requires
        progress.downloaded + total_length(first) + total_length(second) <= u64::MAX,
    ensures
        progress.after(first).after(second) == progress.after(first + second),
{
    lemma_total_length_concat(first, second);
}

/// A transfer that finds `on_disk` bytes of a resource of `size` bytes asks
/// for the bytes from `on_disk` on. When the server sends the rest, the
/// expected total is `size`, and once chunks of `size - on_disk` bytes in all
/// are written, `size` bytes are on disk.
pub proof fn lemma_resume_continuity(on_disk: u64, size: u64, chunks: Seq<nat>)
    requires
        on_disk <= size,
        total_length(chunks) == size - on_disk,
    ensures
        range_of(Some(on_disk)) == Some(range_value(on_disk)),
        Progress::at_start(Some(on_disk), Some((size - on_disk) as u64)).expected_total == Some(
            size,
        ),
        Progress::at_start(Some(on_disk), Some((size - on_disk) as u64)).after(chunks).downloaded
            == size,
{
}

/// The value of the range header of a request: none for a fresh transfer, the
/// bytes from the offset on for a resumed one.
pub open spec fn range_of(resume_from: Option<u64>) -> Option<Seq<char>> {
    match resume_from {
        Some(offset) => Some(range_value(offset)),
        None => None,
    }
}

/// The headers that every request of a transfer carries, as a browser would
/// send them.
pub open spec fn fixed_headers() -> Seq<(Seq<char>, Seq<char>)> {
    seq![
        ("Accept"@, "*/*"@),
        ("Accept-Language"@, "en-US,en;q=0.9"@),
        ("Accept-Encoding"@, "gzip, deflate, br"@),
        ("Cache-Control"@, "no-cache"@),
        ("Connection"@, "keep-alive"@),
        ("Pragma"@, "no-cache"@),
        ("Referer"@, "https://www.youtube.com/"@),
        ("Origin"@, "https://www.youtube.com"@),
        ("Sec-Fetch-Dest"@, "video"@),
        ("Sec-Fetch-Mode"@, "no-cors"@),
        ("Sec-Fetch-Site"@, "cross-site"@),
        ("Sec-Ch-Ua"@, "\"Not_A Brand\";v=\"8\", \"Chromium\";v=\"120\", \"Google Chrome\";v=\"120\""@),
        ("Sec-Ch-Ua-Mobile"@, "?0"@),
        ("Sec-Ch-Ua-Platform"@, "\"Windows\""@),
        ("Upgrade-Insecure-Requests"@, "1"@),
        ("X-Client-Data"@, "CgSLywE="@),
        ("X-Youtube-Client-Name"@, "1"@),
        ("X-Youtube-Client-Version"@, "2.20231201.00.00"@),
    ]
}

/// The headers of the request of a transfer: the fixed ones, and behind them
/// the range header where the transfer is resumed.
pub open spec fn request_headers_for(resume_from: Option<u64>) -> Seq<(Seq<char>, Seq<char>)> {
    match resume_from {
        Some(offset) => fixed_headers().push(("Range"@, range_value(offset))),
        None => fixed_headers(),
    }
}

/// How the target file is opened for writing.
#[derive(Debug, Clone, Copy, PartialEq, Eq, Structural)]
pub enum OpenMode {
    /// Keep what is on disk and write behind it.
    Append,
    /// Create the file, or empty it.
    Truncate,
}

/// One transfer, between its attempts: the number of the attempt to make
/// next, counted from 1, and the bytes found on disk at the start.
#[derive(Debug, Clone, Copy, PartialEq, Eq, Structural)]
pub struct Transfer {
    pub attempt: u32,
    pub resume_from: Option<u64>,
}

impl Transfer {
    /// A transfer before its first attempt. `on_disk` is the size of the
    /// target file where it exists.
    pub fn begin(on_disk: Option<u64>) -> (r: Self)
        ensures
            r == (Transfer { attempt: 1, resume_from: on_disk }),
    {
        Transfer { attempt: 1, resume_from: on_disk }
    }

    /// The headers of the request of the next attempt.
    pub fn headers(&self) -> (r: Vec<(String, String)>)
        ensures
            r.deep_view() == request_headers_for(self.resume_from),
    {
        Downloader::request_headers(self.resume_from)
    }

    /// How the target file is opened: behind what is there for a resumed
    /// transfer, afresh otherwise.
    pub fn open_mode(&self) -> (r: OpenMode)
        ensures
            r == (if self.resume_from is Some {
                OpenMode::Append
            } else {
                OpenMode::Truncate
            }),
    {
        match self.resume_from {
            Some(_) => OpenMode::Append,
            None => OpenMode::Truncate,
        }
    }

    /// Takes the answer to the attempt just made and says what to do. Where
    /// that is to wait and try again, the next attempt is counted.
    pub fn answer(&mut self, response: Response) -> (r: TransferStep)
        ensures
            r == transfer_step(old(self).attempt, response),
            final(self).resume_from == old(self).resume_from,
            final(self).attempt == (if r is RetryAfter {
                old(self).attempt + 1
            } else {
                old(self).attempt as int
            }),
    {
        let step = Downloader::step_after(self.attempt, response);
        match step {
            TransferStep::RetryAfter { .. } => {
                self.attempt = self.attempt + 1;
            },
            _ => {},
        }
        step
    }
}

fn score_of(format: &VideoFormat) -> (r: u128)
    ensures
        r == score(format@),
{
    let rank: u128 = if same_text(format.ext.as_str(), "mp4") {
        1000
    } else if same_text(format.ext.as_str(), "webm") {
        500
    } else {
        0
    };
    match format.tbr {
        Some(rate) => rank + rate as u128,
        None => rank,
    }
}

/// The best stream: among those that carry both video and audio, the first
/// of those with the highest score. It is an error where no stream carries
/// both.
pub fn best_of<'a>(formats: &'a [VideoFormat]) -> (r: Result<
    &'a VideoFormat,
    DownloadError,
>)
    ensures
        match r {
            Ok(best) => best_index(format_views(formats@)) is Some && *best
                == formats@[best_index(format_views(formats@))->0],
            Err(e) => e == DownloadError::NoSuitableFormat && best_index(
                format_views(formats@),
            ) is None,
        },
{
    let mut best: Option<usize> = None;
    let mut best_score: u128 = 0;
    let mut i: usize = 0;
    proof {
        assert(format_views(formats@).take(0) =~= Seq::empty());
    }
    while i < formats.len()
        invariant
            i <= formats.len(),
            match best {
                Some(at) => best_index(format_views(formats@).take(i as int)) == Some(
                    at as int,
                ) && at < i && best_score == score(formats@[at as int]@),
                None => best_index(format_views(formats@).take(i as int)) is None,
            },
        decreases formats.len() - i,
    {
        proof {
            assert(format_views(formats@).take(i + 1).drop_last() =~= format_views(
                formats@,
            ).take(i as int));
            assert(format_views(formats@).take(i + 1).last() == formats@[i as int]@);
        }
        if formats[i].vcodec.is_some() && formats[i].acodec.is_some() {
            let s = score_of(&formats[i]);
            match best {
                Some(at) => {
                    proof {
                        assert(format_views(formats@).take(i + 1)[at as int] == formats@[at as int]@);
                    }
                    if s > best_score {
                        best = Some(i);
                        best_score = s;
                    }
                },
                None => {
                    best = Some(i);
                    best_score = s;
                },
            }
        }
        i += 1;
    }
    proof {
        assert(format_views(formats@).take(formats.len() as int) =~= format_views(formats@));
    }
    match best {
        Some(at) => Ok(&formats[at]),
        None => Err(DownloadError::NoSuitableFormat),
    }
}

/// The transfer engine.
pub struct Downloader {
    pub concurrent_limit: usize,
}

impl Downloader {
    /// An engine with the given limit on transfers at one time.
    pub fn new(concurrent_limit: usize) -> (r: Self)
        ensures
            r.concurrent_limit == concurrent_limit,
    {
        Self { concurrent_limit }
    }

    /// The best stream: among those that carry both video and audio, the
    /// first of those with the highest score. It is an error where no stream
    /// carries both.
    pub fn select_best_format<'a>(&self, formats: &'a [VideoFormat]) -> (r: Result<
        &'a VideoFormat,
        DownloadError,
    >)
        ensures
            match r {
                Ok(best) => best_index(format_views(formats@)) is Some && *best
                    == formats@[best_index(format_views(formats@))->0],
                Err(e) => e == DownloadError::NoSuitableFormat && best_index(
                    format_views(formats@),
                ) is None,
            },
    {
        best_of(formats)
    }

    /// Two to the power `attempt` seconds.
    pub fn backoff_seconds(attempt: u32) -> (r: u64)
        requires
            attempt < 64,
        ensures
            r == power_of_two(attempt as nat),
    {
        let mut r: u64 = 1;
        let mut i: u32 = 0;
        while i < attempt
            invariant
                i <= attempt < 64,
                r == power_of_two(i as nat),
                r <= 0x8000_0000_0000_0000u64,
                i < 63 ==> r <= 0x4000_0000_0000_0000u64,
            decreases attempt - i,
        {
            proof {
                lemma_power_bound(i as nat);
                lemma_power_bound((i + 1) as nat);
            }
            r = r * 2;
            i += 1;
        }
        r
    }

    /// What the transfer does after attempt number `attempt`, counted from 1,
    /// has ended in `response`.
    pub fn next_step(&self, attempt: u32, response: Response) -> (r: TransferStep)
        ensures
            r == transfer_step(attempt, response),
    {
        Self::step_after(attempt, response)
    }

    fn step_after(attempt: u32, response: Response) -> (r: TransferStep)
        ensures
            r == transfer_step(attempt, response),
    {
        match response {
            Response::NetworkFailure => if attempt >= MAX_RETRIES {
                TransferStep::Fail(DownloadError::Network { attempts: attempt })
            } else {
                TransferStep::RetryAfter { seconds: Self::backoff_seconds(attempt) }
            },
            Response::Status(status) => if 200 <= status && status < 300 {
                TransferStep::Receive
            } else if status == 403 && attempt < MAX_RETRIES {
                TransferStep::RetryAfter { seconds: Self::backoff_seconds(attempt) }
            } else {
                TransferStep::Fail(DownloadError::Http { attempts: attempt, status })
            },
        }
    }

    /// The headers of the request of a transfer.
    pub fn request_headers(resume_from: Option<u64>) -> (r: Vec<(String, String)>)
        ensures
            r.deep_view() == request_headers_for(resume_from),
    {
        let mut headers: Vec<(String, String)> = Vec::new();
        headers.push((owned("Accept"), owned("*/*")));
        headers.push((owned("Accept-Language"), owned("en-US,en;q=0.9")));
        headers.push((owned("Accept-Encoding"), owned("gzip, deflate, br")));
        headers.push((owned("Cache-Control"), owned("no-cache")));
        headers.push((owned("Connection"), owned("keep-alive")));
        headers.push((owned("Pragma"), owned("no-cache")));
        headers.push((owned("Referer"), owned("https://www.youtube.com/")));
        headers.push((owned("Origin"), owned("https://www.youtube.com")));
        headers.push((owned("Sec-Fetch-Dest"), owned("video")));
        headers.push((owned("Sec-Fetch-Mode"), owned("no-cors")));
        headers.push((owned("Sec-Fetch-Site"), owned("cross-site")));
        headers.push((owned("Sec-Ch-Ua"), owned("\"Not_A Brand\";v=\"8\", \"Chromium\";v=\"120\", \"Google Chrome\";v=\"120\"")));
        headers.push((owned("Sec-Ch-Ua-Mobile"), owned("?0")));
        headers.push((owned("Sec-Ch-Ua-Platform"), owned("\"Windows\"")));
        headers.push((owned("Upgrade-Insecure-Requests"), owned("1")));
        headers.push((owned("X-Client-Data"), owned("CgSLywE=")));
        headers.push((owned("X-Youtube-Client-Name"), owned("1")));
        headers.push((owned("X-Youtube-Client-Version"), owned("2.20231201.00.00")));
        assert(headers.deep_view() =~= fixed_headers());
        match Self::range_header(resume_from) {
            Some(range) => {
                let ghost before = headers.deep_view();
                let ghost value = range@;
                headers.push((owned("Range"), range));
                assert(headers.deep_view() =~= before.push(("Range"@, value)));
            },
            None => {},
        }
        headers
    }

    /// The value of the range header of a request.
    pub fn range_header(resume_from: Option<u64>) -> (r: Option<String>)
        ensures
            r.deep_view() == range_of(resume_from),
    {
        match resume_from {
            Some(offset) => {
                let mut value = joined("bytes=", u64_text(offset).as_str());
                value.append("-");
                Some(value)
            },
            None => None,
        }
    }
}

/// Powers of two up to the 63rd fit 64 bits.
proof fn lemma_power_bound(n: nat)
    requires
        n < 64,
    ensures
        power_of_two(n) <= 0x8000_0000_0000_0000u64,
        n < 63 ==> power_of_two(n) <= 0x4000_0000_0000_0000u64,
        n < 63 ==> power_of_two(n + 1) == 2 * power_of_two(n),
{
    lemma_power_step(n);
    lemma_power_step((63 - n) as nat);
    let a = power_of_two(n);
    let b = power_of_two((63 - n) as nat);
    assert(a <= 0x8000_0000_0000_0000u64) by (nonlinear_arith)
        requires
            a * b == 0x8000_0000_0000_0000u64,
            a >= 1,
            b >= 1,
    ;
    if n < 63 {
        lemma_power_step((62 - n) as nat);
        let c = power_of_two((62 - n) as nat);
        assert(b == 2 * c);
        assert(a <= 0x4000_0000_0000_0000u64) by (nonlinear_arith)
            requires
                a * (2 * c) == 0x8000_0000_0000_0000u64,
                a >= 1,
                c >= 1,
        ;
    }
}

/// Each power of two up to the 63rd, as a bound.
proof fn lemma_power_step(n: nat)
    requires
        n < 64,
    ensures
        power_of_two(n) * power_of_two((63 - n) as nat) == 0x8000_0000_0000_0000u64,
        power_of_two(n) >= 1,
    decreases 63 - n,
{
    if n == 63 {
        lemma_power_63();
    } else {
        lemma_power_step(n + 1);
        assert(power_of_two((63 - n) as nat) == 2 * power_of_two((62 - n) as nat));
        assert(power_of_two(n + 1) == 2 * power_of_two(n));
        assert(power_of_two(n) * (2 * power_of_two((62 - n) as nat)) == (2 * power_of_two(n))
            * power_of_two((62 - n) as nat)) by (nonlinear_arith);
    }
}

/// The 63rd power of two.
proof fn lemma_power_63()
    ensures
        power_of_two(63) == 0x8000_0000_0000_0000u64,
        power_of_two(0) == 1,
{
    reveal_with_fuel(power_of_two, 64);
}

} // verus!
