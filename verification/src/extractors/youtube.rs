//! The extractor for the platform's watch pages: from an address to the
//! description of the video and of its streams.

use vstd::prelude::*;
use serde_json::Value;
use url::Url;
use crate::decimal::{decimal, i64_text, parse_u64, parsed_u64, signed_decimal, u64_text};
use crate::engine::extractor::{ExtractError, Extractor};
use crate::engine::metadata::{
    format_views,
    sound_streams,
    thumbnail_views,
    Thumbnail,
    ThumbnailView,
    VideoFormat,
    VideoFormatView,
    VideoMetadata,
    VideoMetadataView,
};
use crate::extractors::js_interpreter::without_nul;
use crate::extractors::youtube_signature::{fallback_signature, SignatureDecrypter};
use crate::json::{
    get,
    i64_member,
    json_of,
    member,
    member_i64,
    member_items,
    member_text,
    member_u64,
    parse,
    parsed_json,
    text_in,
    text_member,
    u64_member,
    Json,
};
use crate::pattern::{capture, find_from, first_capture, hit_from};
use crate::percent::{decode, percent_decoded};
use crate::text::{
    contains,
    contains_text,
    halves,
    joined,
    owned,
    pieces,
    same_text,
    split,
    split_once,
    texts,
};
use crate::weburl::{host, host_of, path_segments, path_segments_of, query_pairs, query_pairs_of};

verus! {

/// The value of the first pair called `key`.
pub open spec fn first_value(pairs: Seq<(Seq<char>, Seq<char>)>, key: Seq<char>) -> Option<
    Seq<char>,
>
    decreases pairs.len(),
{
    if pairs.len() == 0 {
        None
    } else if pairs[0].0 == key {
        Some(pairs[0].1)
    } else {
        first_value(pairs.drop_first(), key)
    }
}

/// The value of the last pair called `key`: what a map filled in order keeps.
pub open spec fn last_value(pairs: Seq<(Seq<char>, Seq<char>)>, key: Seq<char>) -> Option<
    Seq<char>,
>
    decreases pairs.len(),
{
    if pairs.len() == 0 {
        None
    } else if pairs.last().0 == key {
        Some(pairs.last().1)
    } else {
        last_value(pairs.drop_last(), key)
    }
}

/// Whether the address is one of the platform's: its host holds
/// `youtube.com`, or is the short-link host.
pub open spec fn is_platform_address(address: &Url) -> bool {
    match host_of(address) {
        Some(h) => contains_text(h, "youtube.com"@) || h == "youtu.be"@,
        None => false,
    }
}

/// The identifier of the video that the address names: the first path segment
/// on the short-link host, the query parameter `v` on a host that holds
/// `youtube.com`.
pub open spec fn video_id_of(address: &Url) -> Option<Seq<char>> {
    match host_of(address) {
        Some(h) => if h == "youtu.be"@ {
            match path_segments_of(address) {
                Some(segments) => if segments.len() > 0 {
                    Some(segments[0])
                } else {
                    None
                },
                None => None,
            }
        } else if contains_text(h, "youtube.com"@) {
            first_value(query_pairs_of(address), "v"@)
        } else {
            None
        },
        None => None,
    }
}

/// The decoded text, and the empty text where the bytes are no text.
pub open spec fn decoded_or_empty(s: Seq<char>) -> Seq<char> {
    match percent_decoded(s) {
        Some(decoded) => decoded,
        None => Seq::empty(),
    }
}

/// The pairs that a run of query pieces gives: each piece that holds `=` gives
/// its two halves, decoded.
pub open spec fn pairs_in(parts: Seq<Seq<char>>) -> Seq<(Seq<char>, Seq<char>)>
    decreases parts.len(),
{
    if parts.len() == 0 {
        Seq::empty()
    } else {
        match halves(parts.last(), '=') {
            Some((key, value)) => pairs_in(parts.drop_last()).push(
                (decoded_or_empty(key), decoded_or_empty(value)),
            ),
            None => pairs_in(parts.drop_last()),
        }
    }
}

/// The pairs of name and value that a query string holds, in order.
pub open spec fn query_params(query: Seq<char>) -> Seq<(Seq<char>, Seq<char>)> {
    pairs_in(pieces(query, '&'))
}

/// What the cipher field of a format holds: the address of the stream, the
/// protected signature `s`, the name `sp` under which the resolved signature
/// goes back into the address, and the throttle token `n`.
#[derive(Debug, Clone)]
pub struct CipherParams {
    pub url: String,
    pub s: Option<String>,
    pub sp: Option<String>,
    pub n: Option<String>,
}

/// The cipher parameters as plain values.
pub struct CipherParamsView {
    pub url: Seq<char>,
    pub s: Option<Seq<char>>,
    pub sp: Option<Seq<char>>,
    pub n: Option<Seq<char>>,
}

impl View for CipherParams {
    type V = CipherParamsView;

    open spec fn view(&self) -> CipherParamsView {
        CipherParamsView {
            url: self.url@,
            s: self.s.deep_view(),
            sp: self.sp.deep_view(),
            n: self.n.deep_view(),
        }
    }
}

impl DeepView for CipherParams {
    type V = CipherParamsView;

    open spec fn deep_view(&self) -> CipherParamsView {
        self@
    }
}

/// The cipher parameters among the pairs of a query, where it names an address.
pub open spec fn cipher_params_in(pairs: Seq<(Seq<char>, Seq<char>)>) -> Option<CipherParamsView> {
    match last_value(pairs, "url"@) {
        Some(url) => Some(
            CipherParamsView {
                url,
                s: last_value(pairs, "s"@),
                sp: last_value(pairs, "sp"@),
                n: last_value(pairs, "n"@),
            },
        ),
        None => None,
    }
}

/// The text of the cipher field of a format: the member `signatureCipher`, or
/// `cipher` where that is missing.
pub open spec fn cipher_text(format: Json) -> Option<Seq<char>> {
    match member(format, "signatureCipher"@) {
        Some(field) => text_in(field),
        None => member_text(format, "cipher"@),
    }
}

/// The cipher parameters of a format.
pub open spec fn cipher_of(format: Json) -> Option<CipherParamsView> {
    match cipher_text(format) {
        Some(query) => cipher_params_in(query_params(query)),
        None => None,
    }
}

/// The name under which the signature goes into the address.
pub open spec fn signature_key(params: CipherParamsView) -> Seq<char> {
    match params.sp {
        Some(key) => key,
        None => "signature"@,
    }
}

/// The address of the stream with the signature put in, and the throttle
/// token behind it where there is one.
pub open spec fn signed_url(
    params: CipherParamsView,
    signature: Seq<char>,
    token: Option<Seq<char>>,
) -> Seq<char> {
    let base = params.url + "&"@ + signature_key(params) + "="@ + signature;
    match token {
        Some(token) => base + "&n="@ + token,
        None => base,
    }
}

/// Whether `url` is the address of the cipher with some signature put in, and
/// a throttle token exactly where the cipher has one.
pub open spec fn is_signed_url(params: CipherParamsView, url: Seq<char>) -> bool {
    exists|signature: Seq<char>, token: Option<Seq<char>>|
        (token is Some <==> params.n is Some) && url == #[trigger] signed_url(
            params,
            signature,
            token,
        )
}

/// The codec tags and the container that a media type stands for.
pub open spec fn mime_codecs(mime: Seq<char>) -> (Option<Seq<char>>, Option<Seq<char>>, Seq<char>) {
    if contains_text(mime, "video/mp4"@) {
        (Some("h264"@), Some("aac"@), "mp4"@)
    } else if contains_text(mime, "video/webm"@) {
        (Some("vp9"@), Some("opus"@), "webm"@)
    } else if contains_text(mime, "audio/mp4"@) {
        (None, Some("aac"@), "m4a"@)
    } else if contains_text(mime, "audio/webm"@) {
        (None, Some("opus"@), "webm"@)
    } else {
        (None, None, "unknown"@)
    }
}

/// The media type of a format, `video/mp4` where it names none.
pub open spec fn mime_of(format: Json) -> Seq<char> {
    match member_text(format, "mimeType"@) {
        Some(mime) => mime,
        None => "video/mp4"@,
    }
}

/// The resolution of a format, where it has a width and a height: the two
/// numbers, each cut to 32 bits, with an `x` between them.
pub open spec fn resolution_of(format: Json) -> Option<Seq<char>> {
    match (member_i64(format, "width"@), member_i64(format, "height"@)) {
        (Some(w), Some(h)) => Some(
            decimal((w as u32) as nat) + "x"@ + decimal((h as u32) as nat),
        ),
        _ => None,
    }
}

/// Whether a format entry can be turned into a stream: it has an identifier,
/// and its media type stands for a codec.
pub open spec fn is_sound(format: Json) -> bool {
    &&& member_i64(format, "itag"@) is Some
    &&& (mime_codecs(mime_of(format)).0 is Some || mime_codecs(mime_of(format)).1 is Some)
}

/// The identifier of the stream of a format entry: its `itag` in decimal.
pub open spec fn entry_id(format: Json) -> Seq<char> {
    match member_i64(format, "itag"@) {
        Some(itag) => signed_decimal(itag as int),
        None => Seq::empty(),
    }
}

/// The stream that a format entry describes, at the address `url`. An entry
/// that is not sound describes none.
pub open spec fn format_from(format: Json, url: Seq<char>) -> Option<VideoFormatView> {
    if is_sound(format) {
        Some(
            VideoFormatView {
                format_id: entry_id(format),
                url,
                quality: member_text(format, "quality"@),
                resolution: resolution_of(format),
                fps: member_u64(format, "fps"@),
                vcodec: mime_codecs(mime_of(format)).0,
                acodec: mime_codecs(mime_of(format)).1,
                ext: mime_codecs(mime_of(format)).2,
                filesize: match member_text(format, "contentLength"@) {
                    Some(length) => parsed_u64(length),
                    None => None,
                },
                tbr: member_u64(format, "bitrate"@),
                vbr: None,
                abr: None,
            },
        )
    } else {
        None
    }
}

/// Whether one of the streams has the identifier `id`.
pub open spec fn id_among(streams: Seq<VideoFormatView>, id: Seq<char>) -> bool {
    exists|k: int| 0 <= k < streams.len() && (#[trigger] streams[k]).format_id == id
}

/// The value of the first pair called `key`.
pub fn find_first_value(pairs: &Vec<(String, String)>, key: &str) -> (r: Option<String>)
    ensures
        r.deep_view() == first_value(pairs.deep_view(), key@),
{
    let mut i: usize = 0;
    proof {
        assert(pairs.deep_view().skip(0) =~= pairs.deep_view());
    }
    while i < pairs.len()
        invariant
            i <= pairs.len(),
            first_value(pairs.deep_view(), key@) == first_value(
                pairs.deep_view().skip(i as int),
                key@,
            ),
        decreases pairs.len() - i,
    {
        proof {
            assert(pairs.deep_view().skip(i as int).drop_first() =~= pairs.deep_view().skip(
                i + 1,
            ));
            assert(pairs.deep_view().skip(i as int)[0] == pairs.deep_view()[i as int]);
        }
        if same_text(pairs[i].0.as_str(), key) {
            return Some(pairs[i].1.clone());
        }
        i += 1;
    }
    None
}

/// The value of the last pair called `key`.
pub fn find_last_value(pairs: &Vec<(String, String)>, key: &str) -> (r: Option<String>)
    ensures
        r.deep_view() == last_value(pairs.deep_view(), key@),
{
    let mut i: usize = pairs.len();
    proof {
        assert(pairs.deep_view().take(pairs.len() as int) =~= pairs.deep_view());
    }
    while i > 0
        invariant
            i <= pairs.len(),
            last_value(pairs.deep_view(), key@) == last_value(
                pairs.deep_view().take(i as int),
                key@,
            ),
        decreases i,
    {
        proof {
            assert(pairs.deep_view().take(i as int).drop_last() =~= pairs.deep_view().take(
                i - 1,
            ));
            assert(pairs.deep_view().take(i as int).last() == pairs.deep_view()[i - 1]);
        }
        i -= 1;
        if same_text(pairs[i].0.as_str(), key) {
            return Some(pairs[i].1.clone());
        }
    }
    None
}

/// Decodes `text`, giving the empty text where the bytes are no text.
fn decode_or_empty(text: &str) -> (r: String)
    ensures
        r@ == decoded_or_empty(text@),
{
    match decode(text) {
        Some(decoded) => decoded,
        None => String::new(),
    }
}

/// Puts the signature, and the throttle token where there is one, into the
/// address of the cipher.
pub fn assemble_url(params: &CipherParams, signature: &str, token: Option<&str>) -> (r: String)
    ensures
        r@ == signed_url(params@, signature@, token.deep_view()),
{
    let mut r = joined(params.url.as_str(), "&");
    match &params.sp {
        Some(key) => {
            r.append(key.as_str());
        },
        None => {
            r.append("signature");
        },
    }
    r.append("=");
    r.append(signature);
    match token {
        Some(token) => {
            r.append("&n=");
            r.append(token);
        },
        None => {},
    }
    r
}

/// The player response assigned to its global name, up to `};`.
pub const RESPONSE_ASSIGNED: &'static str =
    r#"ytInitialPlayerResponse\s*=\s*(\{.+?\});"#;

/// The same, with white space before the semicolon.
pub const RESPONSE_ASSIGNED_SPACED: &'static str =
    r#"ytInitialPlayerResponse\s*=\s*(\{.+?\})\s*;"#;

/// The player response as the member of an object, under its quoted name.
pub const RESPONSE_QUOTED: &'static str =
    r#"ytInitialPlayerResponse":\s*(\{.+?\})"#;

/// The player response declared with `var`.
pub const RESPONSE_DECLARED: &'static str =
    r#"var\s+ytInitialPlayerResponse\s*=\s*(\{.+?\});"#;

/// The markers under which a page embeds its player response, in the order
/// tried. Each captures the response in group 1.
pub open spec fn player_response_patterns() -> Seq<Seq<char>> {
    seq![
        RESPONSE_ASSIGNED@,
        RESPONSE_ASSIGNED_SPACED@,
        RESPONSE_QUOTED@,
        RESPONSE_DECLARED@,
    ]
}

/// The player response that the markers from position `from` on give: what
/// the first marker captures that is a JSON value.
pub open spec fn player_response_from(html: Seq<char>, from: int) -> Option<Json>
    decreases player_response_patterns().len() - from,
{
    if from < 0 || from >= player_response_patterns().len() {
        None
    } else {
        let found = match first_capture(player_response_patterns()[from], html, 1) {
            Some(captured) => parsed_json(captured),
            None => None,
        };
        match found {
            Some(response) => Some(response),
            None => player_response_from(html, from + 1),
        }
    }
}

/// The player response that the page embeds.
pub open spec fn player_response_of(html: Seq<char>) -> Option<Json> {
    player_response_from(html, 0)
}

/// The items of the member `key`, none where that member is no array.
pub open spec fn items_or_none(j: Json, key: Seq<char>) -> Seq<Json> {
    match member_items(j, key) {
        Some(items) => items,
        None => Seq::empty(),
    }
}

/// The format entries of a player response: the adaptive ones, then the
/// combined ones.
pub open spec fn format_entries(response: Json) -> Seq<Json> {
    match member(response, "streamingData"@) {
        Some(streaming) => items_or_none(streaming, "adaptiveFormats"@) + items_or_none(
            streaming,
            "formats"@,
        ),
        None => Seq::empty(),
    }
}

/// The streams of the entries that carry an address of their own. An entry
/// that is not sound is left out, and so is one whose identifier a stream
/// before it has.
pub open spec fn direct_formats_in(entries: Seq<Json>) -> Seq<VideoFormatView>
    decreases entries.len(),
{
    if entries.len() == 0 {
        Seq::empty()
    } else {
        let before = direct_formats_in(entries.drop_last());
        match member_text(entries.last(), "url"@) {
            Some(url) => match format_from(entries.last(), url) {
                Some(stream) => if id_among(before, stream.format_id) {
                    before
                } else {
                    before.push(stream)
                },
                None => before,
            },
            None => before,
        }
    }
}

/// The streams of a player response that need no resolving.
pub open spec fn direct_formats(response: Json) -> Seq<VideoFormatView> {
    direct_formats_in(format_entries(response))
}

/// Whether one of the entries carries an address of its own.
pub open spec fn carries_address(entries: Seq<Json>) -> bool {
    exists|i: int| 0 <= i < entries.len() && member_text(#[trigger] entries[i], "url"@) is Some
}

/// Whether `stream` describes the entry at an address that the entry gives:
/// its own, or the one of its cipher field, which for a cipher with a signature
/// is the address with some signature put in. Where no player script is at
/// hand, the signature is the one that the steps read off `js` give, and the
/// throttle token is the cipher's own.
pub open spec fn describes(
    entry: Json,
    js: Seq<char>,
    script: Option<Seq<char>>,
    stream: VideoFormatView,
) -> bool {
    &&& format_from(entry, stream.url) == Some(stream)
    &&& match member_text(entry, "url"@) {
        Some(url) => stream.url == url,
        None => match cipher_of(entry) {
            None => false,
            Some(params) => match params.s {
                None => stream.url == params.url,
                Some(s) => {
                    &&& is_signed_url(params, stream.url)
                    &&& script is None ==> stream.url == signed_url(
                        params,
                        fallback_signature(js, s),
                        params.n,
                    )
                },
            },
        },
    }
}

/// Whether the entry gives an address: its own, or one in its cipher field.
pub open spec fn has_address(entry: Json) -> bool {
    member_text(entry, "url"@) is Some || cipher_of(entry) is Some
}

/// Whether one of the entries has the identifier `id`.
pub open spec fn id_kept(kept: Seq<Json>, id: Seq<char>) -> bool {
    exists|k: int| 0 <= k < kept.len() && entry_id(#[trigger] kept[k]) == id
}

/// The entries that give a stream, in order: those that are sound and give an
/// address, but for one whose identifier an entry kept before it has.
pub open spec fn kept_entries(entries: Seq<Json>) -> Seq<Json>
    decreases entries.len(),
{
    if entries.len() == 0 {
        Seq::empty()
    } else {
        let before = kept_entries(entries.drop_last());
        let last = entries.last();
        if has_address(last) && is_sound(last) && !id_kept(before, entry_id(last)) {
            before.push(last)
        } else {
            before
        }
    }
}

/// Whether `streams` describe, in order, exactly the entries that give a
/// stream.
pub open spec fn streams_match(
    entries: Seq<Json>,
    js: Seq<char>,
    script: Option<Seq<char>>,
    streams: Seq<VideoFormatView>,
) -> bool {
    &&& streams.len() == kept_entries(entries).len()
    &&& forall|k: int|
        0 <= k < streams.len() ==> describes(
            #[trigger] kept_entries(entries)[k],
            js,
            script,
            streams[k],
        )
}

/// The entries kept are sound, and no two of them have one identifier.
pub proof fn lemma_kept_entries(entries: Seq<Json>)
    ensures
        forall|k: int|
            0 <= k < kept_entries(entries).len() ==> is_sound(#[trigger] kept_entries(entries)[k]),
        forall|i: int, j: int|
            0 <= i < j < kept_entries(entries).len() ==> entry_id(kept_entries(entries)[i])
                != entry_id(kept_entries(entries)[j]),
    decreases entries.len(),
{
    if entries.len() > 0 {
        lemma_kept_entries(entries.drop_last());
        let before = kept_entries(entries.drop_last());
        let last = entries.last();
        if has_address(last) && is_sound(last) && !id_kept(before, entry_id(last)) {
            assert forall|i: int, j: int| 0 <= i < j < before.len() + 1 implies entry_id(
                before.push(last)[i],
            ) != entry_id(before.push(last)[j]) by {
                if j == before.len() {
                    assert(entry_id(before[i]) != entry_id(last));
                }
            }
        }
    }
}

/// Streams that describe the entries kept are sound streams: each carries a
/// codec tag, and no two have one identifier.
pub proof fn lemma_matching_streams_are_sound(
    entries: Seq<Json>,
    js: Seq<char>,
    script: Option<Seq<char>>,
    streams: Seq<VideoFormatView>,
)
    requires
        streams_match(entries, js, script, streams),
    ensures
        sound_streams(streams),
{
    lemma_kept_entries(entries);
    let kept = kept_entries(entries);
    assert forall|i: int| 0 <= i < streams.len() implies (#[trigger] streams[i]).well_formed() by {
        assert(describes(kept[i], js, script, streams[i]));
    }
    assert forall|i: int, j: int| 0 <= i < j < streams.len() implies streams[i].format_id
        != streams[j].format_id by {
        assert(describes(kept[i], js, script, streams[i]));
        assert(describes(kept[j], js, script, streams[j]));
    }
}

/// The streams that need no resolving are sound streams.
pub proof fn lemma_direct_formats_are_sound(entries: Seq<Json>)
    ensures
        sound_streams(direct_formats_in(entries)),
    decreases entries.len(),
{
    if entries.len() > 0 {
        lemma_direct_formats_are_sound(entries.drop_last());
        let before = direct_formats_in(entries.drop_last());
        match member_text(entries.last(), "url"@) {
            Some(url) => match format_from(entries.last(), url) {
                Some(stream) => {
                    if !id_among(before, stream.format_id) {
                        assert forall|i: int, j: int|
                            0 <= i < j < before.len() + 1 implies before.push(stream)[i].format_id
                            != before.push(stream)[j].format_id by {
                            if j == before.len() {
                                assert(before[i].format_id != stream.format_id);
                            }
                        }
                    }
                },
                None => {},
            },
            None => {},
        }
    }
}

/// The preview images of a video, by the platform's naming.
pub open spec fn thumbnails_for(video_id: Seq<char>) -> Seq<ThumbnailView> {
    seq![
        ThumbnailView {
            url: "https://i.ytimg.com/vi/"@ + video_id + "/maxresdefault.jpg"@,
            width: Some(1280u32),
            height: Some(720u32),
            resolution: Some("1280x720"@),
        },
        ThumbnailView {
            url: "https://i.ytimg.com/vi/"@ + video_id + "/hqdefault.jpg"@,
            width: Some(480u32),
            height: Some(360u32),
            resolution: Some("480x360"@),
        },
        ThumbnailView {
            url: "https://i.ytimg.com/vi/"@ + video_id + "/mqdefault.jpg"@,
            width: Some(320u32),
            height: Some(180u32),
            resolution: Some("320x180"@),
        },
    ]
}

/// The number that the text member `key` writes.
pub open spec fn member_number(j: Json, key: Seq<char>) -> Option<u64> {
    match member_text(j, key) {
        Some(digits) => parsed_u64(digits),
        None => None,
    }
}

/// The details section of a player response; a response without one reads
/// as one whose every detail is missing.
pub open spec fn details_of(response: Json) -> Json {
    match member(response, "videoDetails"@) {
        Some(details) => details,
        None => Json::Null,
    }
}

/// The description of the video `video_id` with the streams `formats`, as the
/// details of the player response give it. A missing title reads
/// `Unknown Title`; any other missing detail stays absent.
pub open spec fn metadata_from(
    response: Json,
    video_id: Seq<char>,
    formats: Seq<VideoFormatView>,
) -> VideoMetadataView {
    let details = details_of(response);
    VideoMetadataView {
        id: video_id,
        title: match member_text(details, "title"@) {
            Some(title) => title,
            None => "Unknown Title"@,
        },
        description: member_text(details, "shortDescription"@),
        duration: member_number(details, "lengthSeconds"@),
        uploader: member_text(details, "author"@),
        upload_date: None,
        view_count: member_number(details, "viewCount"@),
        like_count: None,
        formats,
        thumbnails: thumbnails_for(video_id),
        subtitles: Map::empty(),
    }
}

/// The path of a player script anywhere in the page.
pub const SCRIPT_PATH: &'static str =
    r#"(/s/player/[^"]+\.js)"#;

/// The path under the member `jsUrl`, in double quotes.
pub const SCRIPT_JS_URL: &'static str =
    r#""jsUrl":"(/s/player/[^"]+\.js)"#;

/// The path under the member `jsUrl`, in single quotes.
pub const SCRIPT_JS_URL_SINGLE: &'static str =
    r#"'jsUrl':'(/s/player/[^']+\.js)"#;

/// The path under the name `jsUrl`, unquoted.
pub const SCRIPT_JS_URL_BARE: &'static str =
    r#"jsUrl\s*:\s*"(/s/player/[^"]+\.js)"#;

/// The path under the member `player_url`.
pub const SCRIPT_PLAYER_URL: &'static str =
    r#"player_url":"(/s/player/[^"]+\.js)"#;

/// The path under the member `PLAYER_JS_URL`.
pub const SCRIPT_PLAYER_JS_URL: &'static str =
    r#"PLAYER_JS_URL":"(/s/player/[^"]+\.js)"#;

/// The forms in which a page refers to its player script, in the order tried.
/// Each captures the path of the script in group 1.
pub open spec fn player_script_patterns() -> Seq<Seq<char>> {
    seq![
        SCRIPT_PATH@,
        SCRIPT_JS_URL@,
        SCRIPT_JS_URL_SINGLE@,
        SCRIPT_JS_URL_BARE@,
        SCRIPT_PLAYER_URL@,
        SCRIPT_PLAYER_JS_URL@,
    ]
}

/// The next reference to a player script in the page, from the form at
/// position `from` on: the position of the form and the address of the script.
pub open spec fn player_script_from(html: Seq<char>, from: int) -> Option<(int, Seq<char>)> {
    match hit_from(player_script_patterns(), html, 1, from) {
        Some((at, path)) => Some((at, "https://www.youtube.com"@ + path)),
        None => None,
    }
}

/// What the extraction does about the player script.
#[derive(Debug, Clone)]
pub enum ScriptStep {
    /// The script that was fetched is the one to use.
    Use,
    /// Fetch the script at this address, named by the reference at this
    /// position.
    Fetch { position: usize, url: String },
    /// The extraction has failed.
    Failed(ExtractError),
}

/// The step about the player script as a plain value.
pub enum ScriptStepView {
    Use,
    Fetch { position: int, url: Seq<char> },
    Failed(ExtractError),
}

impl View for ScriptStep {
    type V = ScriptStepView;

    open spec fn view(&self) -> ScriptStepView {
        match self {
            ScriptStep::Use => ScriptStepView::Use,
            ScriptStep::Fetch { position, url } => ScriptStepView::Fetch {
                position: *position as int,
                url: url@,
            },
            ScriptStep::Failed(e) => ScriptStepView::Failed(*e),
        }
    }
}

/// What to do about the player script, before any fetch or after the fetch of
/// the reference at a position has ended in a status.
pub open spec fn script_step(html: Seq<char>, fetched: Option<(usize, u16)>) -> ScriptStepView {
    let from = match fetched {
        Some((at, _)) => at + 1,
        None => 0,
    };
    let answered = match fetched {
        Some((_, status)) => 200 <= status < 300,
        None => false,
    };
    if answered {
        ScriptStepView::Use
    } else {
        match player_script_from(html, from) {
            Some((position, url)) => ScriptStepView::Fetch { position, url },
            None => ScriptStepView::Failed(ExtractError::NoPlayerScript),
        }
    }
}

/// The address of the watch page of a video.
pub open spec fn watch_url(video_id: Seq<char>) -> Seq<char> {
    "https://www.youtube.com/watch?v="@ + video_id
}

/// What is wrong with a fetched page, if anything: a status outside 200 to
/// 299 or an empty body is a failed fetch, a body that mentions neither `html`
/// nor `HTML` is no page.
pub open spec fn page_fault(status: u16, body: Seq<char>) -> Option<ExtractError> {
    if !(200 <= status < 300) || body.len() == 0 {
        Some(ExtractError::FetchError)
    } else if !contains_text(body, "html"@) && !contains_text(body, "HTML"@) {
        Some(ExtractError::UnexpectedContentType)
    } else {
        None
    }
}

/// The headers of the request for a watch page, as a browser would send them.
pub open spec fn page_headers() -> Seq<(Seq<char>, Seq<char>)> {
    seq![
        ("Accept"@, "text/html,application/xhtml+xml,application/xml;q=0.9,*/*;q=0.8"@),
        ("Accept-Language"@, "en-US,en;q=0.5"@),
        ("Accept-Encoding"@, "identity"@),
        ("DNT"@, "1"@),
        ("Connection"@, "keep-alive"@),
        ("Upgrade-Insecure-Requests"@, "1"@),
        ("Sec-Fetch-Dest"@, "document"@),
        ("Sec-Fetch-Mode"@, "navigate"@),
        ("Sec-Fetch-Site"@, "none"@),
        ("Sec-Fetch-User"@, "?1"@),
        ("Cache-Control"@, "max-age=0"@),
    ]
}

/// The headers of the request for a player script.
pub open spec fn script_headers() -> Seq<(Seq<char>, Seq<char>)> {
    seq![
        ("Accept"@, "*/*"@),
        ("Accept-Language"@, "en-US,en;q=0.9"@),
        ("Accept-Encoding"@, "identity"@),
        ("Referer"@, "https://www.youtube.com/"@),
        ("Origin"@, "https://www.youtube.com"@),
        ("Sec-Fetch-Dest"@, "script"@),
        ("Sec-Fetch-Mode"@, "no-cors"@),
        ("Sec-Fetch-Site"@, "same-origin"@),
    ]
}

/// What the extraction does next, once the page is fetched.
#[derive(Debug, Clone)]
pub enum PageStep {
    /// The page gave streams that need no resolving: the description is done.
    Done(VideoMetadata),
    /// The streams need resolving: the player script has to be fetched.
    FetchScript,
    /// The extraction has failed.
    Failed(ExtractError),
}

/// The next step as a plain value.
pub enum PageStepView {
    Done(VideoMetadataView),
    FetchScript,
    Failed(ExtractError),
}

impl View for PageStep {
    type V = PageStepView;

    open spec fn view(&self) -> PageStepView {
        match self {
            PageStep::Done(metadata) => PageStepView::Done(metadata@),
            PageStep::FetchScript => PageStepView::FetchScript,
            PageStep::Failed(e) => PageStepView::Failed(*e),
        }
    }
}

/// What the extraction of the video `video_id` does with the fetched page.
/// Where a format entry of the player response carries an address of its own,
/// the streams are those that need no resolving, and it is an error where
/// none of them is sound. Only where no entry carries an address of its own
/// is the player script asked for.
pub open spec fn page_step(video_id: Seq<char>, status: u16, body: Seq<char>) -> PageStepView {
    match page_fault(status, body) {
        Some(e) => PageStepView::Failed(e),
        None => match player_response_of(body) {
            None => PageStepView::Failed(ExtractError::NoPlayerResponse),
            Some(response) => if !carries_address(format_entries(response)) {
                PageStepView::FetchScript
            } else if direct_formats(response).len() > 0 {
                PageStepView::Done(metadata_from(response, video_id, direct_formats(response)))
            } else {
                PageStepView::Failed(ExtractError::NoFormatsFound)
            },
        },
    }
}

/// Where a format entry of the page's player response carries an address of
/// its own, the player script is not asked for, and what is handed out is a
/// well-formed description from the streams that need no resolving.
pub proof fn lemma_direct_before_cipher(
    video_id: Seq<char>,
    status: u16,
    body: Seq<char>,
    response: Json,
    i: int,
)
    requires
        page_fault(status, body) is None,
        player_response_of(body) == Some(response),
        0 <= i < format_entries(response).len(),
        member_text(format_entries(response)[i], "url"@) is Some,
    ensures
        !(page_step(video_id, status, body) is FetchScript),
        page_step(video_id, status, body) matches PageStepView::Done(metadata) ==> metadata
            == metadata_from(response, video_id, direct_formats(response))
            && metadata.well_formed(),
{
    lemma_direct_formats_are_sound(format_entries(response));
}

/// The JSON values of a list of references.
pub open spec fn jsons(entries: Seq<&Value>) -> Seq<Json> {
    entries.map_values(|entry: &Value| json_of(entry))
}

fn player_response_pattern_list() -> (r: Vec<String>)
    ensures
        texts(r@) == player_response_patterns(),
{
    let mut v: Vec<String> = Vec::new();
    v.push(owned(RESPONSE_ASSIGNED));
    v.push(owned(RESPONSE_ASSIGNED_SPACED));
    v.push(owned(RESPONSE_QUOTED));
    v.push(owned(RESPONSE_DECLARED));
    assert(texts(v@) =~= player_response_patterns());
    v
}

fn player_script_pattern_list() -> (r: Vec<String>)
    ensures
        texts(r@) == player_script_patterns(),
{
    let mut v: Vec<String> = Vec::new();
    v.push(owned(SCRIPT_PATH));
    v.push(owned(SCRIPT_JS_URL));
    v.push(owned(SCRIPT_JS_URL_SINGLE));
    v.push(owned(SCRIPT_JS_URL_BARE));
    v.push(owned(SCRIPT_PLAYER_URL));
    v.push(owned(SCRIPT_PLAYER_JS_URL));
    assert(texts(v@) =~= player_script_patterns());
    v
}

fn push_entries<'a>(entries: &mut Vec<&'a Value>, streaming: &'a Value, key: &str)
    ensures
        jsons(final(entries)@) == jsons(old(entries)@) + items_or_none(json_of(streaming), key@),
{
    let ghost before = jsons(entries@);
    match get(streaming, key) {
        Some(list) => match list.as_array() {
            Some(items) => {
                let ghost all = items@.map_values(|item: Value| json_of(&item));
                let mut i: usize = 0;
                proof {
                    assert(before + all.take(0) =~= before);
                }
                while i < items.len()
                    invariant
                        i <= items.len(),
                        all == items@.map_values(|item: Value| json_of(&item)),
                        jsons(entries@) == before + all.take(i as int),
                    decreases items.len() - i,
                {
                    let ghost sofar = jsons(entries@);
                    entries.push(&items[i]);
                    proof {
                        assert(jsons(entries@) =~= sofar.push(json_of(&items@[i as int])));
                        assert(all[i as int] == json_of(&items@[i as int]));
                        assert(all.take(i + 1) =~= all.take(i as int).push(all[i as int]));
                        assert(before + all.take(i + 1) =~= (before + all.take(i as int)).push(
                            all[i as int],
                        ));
                    }
                    i += 1;
                }
                proof {
                    assert(all.take(items.len() as int) =~= all);
                }
            },
            None => {
                assert(before + Seq::<Json>::empty() =~= before);
            },
        },
        None => {
            assert(before + Seq::<Json>::empty() =~= before);
        },
    }
}

/// The format entries of a player response: the adaptive ones, then the
/// combined ones.
pub fn format_entry_list<'a>(player_response: &'a Value) -> (r: Vec<&'a Value>)
    ensures
        jsons(r@) == format_entries(json_of(player_response)),
{
    let mut entries: Vec<&'a Value> = Vec::new();
    proof {
        assert(jsons(entries@) =~= Seq::empty());
    }
    match get(player_response, "streamingData") {
        Some(streaming) => {
            push_entries(&mut entries, streaming, "adaptiveFormats");
            push_entries(&mut entries, streaming, "formats");
            proof {
                assert(jsons(entries@) =~= format_entries(json_of(player_response)));
            }
        },
        None => {},
    }
    entries
}

/// Whether one of the entries carries an address of its own.
pub fn any_direct_entry(entries: &Vec<&Value>) -> (r: bool)
    ensures
        r == carries_address(jsons(entries@)),
{
    let mut i: usize = 0;
    while i < entries.len()
        invariant
            i <= entries.len(),
            forall|k: int|
                0 <= k < i ==> member_text(#[trigger] jsons(entries@)[k], "url"@) is None,
        decreases entries.len() - i,
    {
        if text_member(entries[i], "url").is_some() {
            assert(member_text(jsons(entries@)[i as int], "url"@) is Some);
            return true;
        }
        i += 1;
    }
    false
}

/// Whether one of the streams has the identifier `id`.
pub fn id_seen(formats: &Vec<VideoFormat>, id: &str) -> (r: bool)
    ensures
        r == id_among(format_views(formats@), id@),
{
    let mut i: usize = 0;
    while i < formats.len()
        invariant
            i <= formats.len(),
            forall|k: int| 0 <= k < i ==> (#[trigger] format_views(formats@)[k]).format_id != id@,
        decreases formats.len() - i,
    {
        if same_text(formats[i].format_id.as_str(), id) {
            assert(format_views(formats@)[i as int].format_id == id@);
            return true;
        }
        i += 1;
    }
    false
}

/// Streams that describe a list of entries have the identifiers of the
/// entries.
pub proof fn lemma_ids_agree(
    kept: Seq<Json>,
    js: Seq<char>,
    script: Option<Seq<char>>,
    streams: Seq<VideoFormatView>,
    id: Seq<char>,
)
    requires
        streams.len() == kept.len(),
        forall|k: int| 0 <= k < kept.len() ==> describes(#[trigger] kept[k], js, script, streams[k]),
    ensures
        id_among(streams, id) == id_kept(kept, id),
{
    if id_among(streams, id) {
        let k = choose|k: int| 0 <= k < streams.len() && (#[trigger] streams[k]).format_id == id;
        assert(describes(kept[k], js, script, streams[k]));
        assert(entry_id(kept[k]) == id);
    }
    if id_kept(kept, id) {
        let k = choose|k: int| 0 <= k < kept.len() && entry_id(#[trigger] kept[k]) == id;
        assert(describes(kept[k], js, script, streams[k]));
        assert(streams[k].format_id == id);
    }
}

/// The platform's extractor, with the resolver for protected addresses.
pub struct YouTubeExtractor {
    signature_decrypter: SignatureDecrypter,
}

impl YouTubeExtractor {
    /// The player script that the resolver's interpreter holds, where it has
    /// an interpreter.
    pub closed spec fn script(&self) -> Option<Seq<char>> {
        self.signature_decrypter.script()
    }

    /// An extractor whose resolver has no interpreter yet.
    pub fn new() -> (r: Self)
        ensures
            r.script() is None,
    {
        Self { signature_decrypter: SignatureDecrypter::new() }
    }

    /// The identifier of the video that the address names.
    pub fn extract_video_id(&self, url: &Url) -> (r: Option<String>)
        ensures
            r.deep_view() == video_id_of(url),
    {
        match host(url) {
            Some(h) => {
                if same_text(h.as_str(), "youtu.be") {
                    match path_segments(url) {
                        Some(segments) => if segments.len() > 0 {
                            Some(segments[0].clone())
                        } else {
                            None
                        },
                        None => None,
                    }
                } else if contains(h.as_str(), "youtube.com") {
                    let pairs = query_pairs(url);
                    find_first_value(&pairs, "v")
                } else {
                    None
                }
            },
            None => None,
        }
    }

    /// The pairs of name and value in a query string, each half decoded.
    pub fn parse_query_string(&self, query: &str) -> (r: Vec<(String, String)>)
        ensures
            r.deep_view() == query_params(query@),
    {
        let parts = split(query, '&');
        let mut params: Vec<(String, String)> = Vec::new();
        let mut i: usize = 0;
        proof {
            assert(texts(parts@).take(0) =~= Seq::empty());
            assert(params.deep_view() =~= Seq::empty());
        }
        while i < parts.len()
            invariant
                i <= parts.len(),
                params.deep_view() == pairs_in(texts(parts@).take(i as int)),
            decreases parts.len() - i,
        {
            proof {
                assert(texts(parts@).take(i + 1).drop_last() =~= texts(parts@).take(i as int));
                assert(texts(parts@).take(i + 1).last() == parts[i as int]@);
            }
            let ghost before = params.deep_view();
            match split_once(parts[i].as_str(), '=') {
                Some((key, value)) => {
                    let pair = (decode_or_empty(key.as_str()), decode_or_empty(value.as_str()));
                    let ghost pair_view = (pair.0@, pair.1@);
                    params.push(pair);
                    assert(params.deep_view() =~= before.push(pair_view));
                },
                None => {},
            }
            i += 1;
        }
        proof {
            assert(texts(parts@).take(parts.len() as int) =~= texts(parts@));
        }
        params
    }

    /// The cipher parameters of a format entry, where it has a cipher field
    /// that names an address.
    pub fn cipher_params(&self, format: &Value) -> (r: Option<CipherParams>)
        ensures
            r.deep_view() == cipher_of(json_of(format)),
    {
        let field = match get(format, "signatureCipher") {
            Some(field) => field.as_str(),
            None => match get(format, "cipher") {
                Some(field) => field.as_str(),
                None => None,
            },
        };
        match field {
            Some(query) => {
                let pairs = self.parse_query_string(query);
                match find_last_value(&pairs, "url") {
                    Some(url) => Some(
                        CipherParams {
                            url,
                            s: find_last_value(&pairs, "s"),
                            sp: find_last_value(&pairs, "sp"),
                            n: find_last_value(&pairs, "n"),
                        },
                    ),
                    None => None,
                }
            },
            None => None,
        }
    }

    /// The codec tags and the container that a media type stands for.
    pub fn parse_mime_type(&self, mime_type: &str) -> (r: (Option<String>, Option<String>, &'static str))
        ensures
            (r.0.deep_view(), r.1.deep_view(), r.2@) == mime_codecs(mime_type@),
    {
        if contains(mime_type, "video/mp4") {
            (Some(owned("h264")), Some(owned("aac")), "mp4")
        } else if contains(mime_type, "video/webm") {
            (Some(owned("vp9")), Some(owned("opus")), "webm")
        } else if contains(mime_type, "audio/mp4") {
            (None, Some(owned("aac")), "m4a")
        } else if contains(mime_type, "audio/webm") {
            (None, Some(owned("opus")), "webm")
        } else {
            (None, None, "unknown")
        }
    }

    /// The identifier of the stream of a format entry, where it has one.
    pub fn entry_identifier(&self, format: &Value) -> (r: Option<String>)
        ensures
            match r {
                Some(id) => member_i64(json_of(format), "itag"@) is Some && id@ == entry_id(
                    json_of(format),
                ),
                None => member_i64(json_of(format), "itag"@) is None,
            },
    {
        match i64_member(format, "itag") {
            Some(itag) => Some(i64_text(itag)),
            None => None,
        }
    }

    /// Whether the format entry can be turned into a stream.
    pub fn is_sound_entry(&self, format: &Value) -> (r: bool)
        ensures
            r == is_sound(json_of(format)),
    {
        if i64_member(format, "itag").is_none() {
            return false;
        }
        let mime_type = match text_member(format, "mimeType") {
            Some(mime) => mime,
            None => owned("video/mp4"),
        };
        let (vcodec, acodec, _) = self.parse_mime_type(mime_type.as_str());
        vcodec.is_some() || acodec.is_some()
    }

    /// The stream that the format entry describes, at the address `url`; none
    /// for an entry that is not sound.
    pub fn parse_format_direct(&self, format: &Value, url: &str) -> (r: Option<VideoFormat>)
        ensures
            match r {
                Some(stream) => format_from(json_of(format), url@) == Some(stream@),
                None => format_from(json_of(format), url@) is None,
            },
    {
        let itag = match i64_member(format, "itag") {
            Some(itag) => i64_text(itag),
            None => {
                return None;
            },
        };
        let quality = text_member(format, "quality");
        let resolution = match (i64_member(format, "width"), i64_member(format, "height")) {
            (Some(w), Some(h)) => {
                let width: u32 = #[verifier::truncate] (w as u32);
                let height: u32 = #[verifier::truncate] (h as u32);
                let mut text = u64_text(width as u64);
                text.append("x");
                text.append(u64_text(height as u64).as_str());
                Some(text)
            },
            _ => None,
        };
        let fps = u64_member(format, "fps");
        let mime_type = match text_member(format, "mimeType") {
            Some(mime) => mime,
            None => owned("video/mp4"),
        };
        let (vcodec, acodec, ext) = self.parse_mime_type(mime_type.as_str());
        if vcodec.is_none() && acodec.is_none() {
            return None;
        }
        let bitrate = u64_member(format, "bitrate");
        let filesize = match text_member(format, "contentLength") {
            Some(length) => parse_u64(length.as_str()),
            None => None,
        };
        Some(
            VideoFormat {
                format_id: itag,
                url: owned(url),
                quality,
                resolution,
                fps,
                vcodec,
                acodec,
                ext: owned(ext),
                filesize,
                tbr: bitrate,
                vbr: None,
                abr: None,
            },
        )
    }

    /// The address of a format that has none of its own, from its cipher
    /// field. A cipher without a signature gives its address as it is. One with
    /// a signature gives the address with the resolved signature put in, and
    /// with the resolved throttle token where the cipher has one. A signature
    /// that cannot be resolved goes in as it is; so does such a token.
    pub fn process_cipher_format(&mut self, format: &Value, js_content: &str) -> (r: Option<String>)
        ensures
            final(self).script() == old(self).script(),
            match cipher_of(json_of(format)) {
                None => r is None,
                Some(params) => match params.s {
                    None => r.deep_view() == Some(params.url),
                    Some(s) => {
                        &&& r is Some
                        &&& is_signed_url(params, r->0@)
                        &&& old(self).script() is None ==> r->0@ == signed_url(
                            params,
                            fallback_signature(js_content@, s),
                            params.n,
                        )
                    },
                },
            },
    {
        let params = match self.cipher_params(format) {
            Some(params) => params,
            None => {
                return None;
            },
        };
        let signature = match &params.s {
            Some(s) => match self.signature_decrypter.decrypt_signature(s.as_str(), js_content) {
                Ok(resolved) => resolved,
                Err(_) => s.clone(),
            },
            None => {
                return Some(params.url);
            },
        };
        let token = match &params.n {
            Some(n) => match self.signature_decrypter.decrypt_nsig(n.as_str(), js_content) {
                Ok(resolved) => Some(resolved),
                Err(_) => Some(n.clone()),
            },
            None => None,
        };
        let url = match &token {
            Some(token) => assemble_url(&params, signature.as_str(), Some(token.as_str())),
            None => assemble_url(&params, signature.as_str(), None),
        };
        proof {
            assert(url@ == signed_url(params@, signature@, token.deep_view()));
        }
        Some(url)
    }

    /// The stream that the format entry describes: at its own address where it
    /// has one, else at the address that its cipher field gives. An entry
    /// that is not sound, or that has neither, describes no stream, and
    /// nothing is resolved for it.
    pub fn parse_format_with_js(&mut self, format: &Value, js_content: &str) -> (r: Option<
        VideoFormat,
    >)
        ensures
            final(self).script() == old(self).script(),
            r is Some <==> has_address(json_of(format)) && is_sound(json_of(format)),
            r matches Some(stream) ==> describes(
                json_of(format),
                js_content@,
                old(self).script(),
                stream@,
            ),
    {
        if !self.is_sound_entry(format) {
            return None;
        }
        let url = match text_member(format, "url") {
            Some(url) => url,
            None => match self.process_cipher_format(format, js_content) {
                Some(url) => url,
                None => {
                    return None;
                },
            },
        };
        self.parse_format_direct(format, url.as_str())
    }

    /// The player response that the page embeds: what the first marker
    /// captures that is a JSON value.
    pub fn extract_player_response(&self, html: &str) -> (r: Result<Value, ExtractError>)
        ensures
            match r {
                Ok(response) => player_response_of(html@) == Some(json_of(&response)),
                Err(e) => e == ExtractError::NoPlayerResponse && player_response_of(html@) is None,
            },
    {
        let patterns = player_response_pattern_list();
        let mut i: usize = 0;
        while i < patterns.len()
            invariant
                i <= patterns.len(),
                texts(patterns@) == player_response_patterns(),
                player_response_of(html@) == player_response_from(html@, i as int),
            decreases patterns.len() - i,
        {
            proof {
                assert(texts(patterns@)[i as int] == patterns[i as int]@);
            }
            match capture(patterns[i].as_str(), html, 1) {
                Some(captured) => match parse(captured.as_str()) {
                    Some(response) => {
                        return Ok(response);
                    },
                    None => {},
                },
                None => {},
            }
            i += 1;
        }
        Err(ExtractError::NoPlayerResponse)
    }

    /// The streams of the player response that need no resolving: one for
    /// each format entry that carries an address of its own. It is an error
    /// where there is none.
    pub fn extract_formats_direct(&self, player_response: &Value) -> (r: Result<
        Vec<VideoFormat>,
        ExtractError,
    >)
        ensures
            match r {
                Ok(formats) => format_views(formats@) == direct_formats(json_of(player_response))
                    && formats@.len() > 0 && sound_streams(format_views(formats@)),
                Err(e) => e == ExtractError::NoFormatsFound && direct_formats(
                    json_of(player_response),
                ).len() == 0,
            },
    {
        let entries = format_entry_list(player_response);
        let mut formats: Vec<VideoFormat> = Vec::new();
        let mut i: usize = 0;
        proof {
            assert(jsons(entries@).take(0) =~= Seq::empty());
            assert(format_views(formats@) =~= Seq::empty());
            lemma_direct_formats_are_sound(jsons(entries@));
        }
        while i < entries.len()
            invariant
                i <= entries.len(),
                format_views(formats@) == direct_formats_in(jsons(entries@).take(i as int)),
            decreases entries.len() - i,
        {
            proof {
                assert(jsons(entries@).take(i + 1).drop_last() =~= jsons(entries@).take(i as int));
                assert(jsons(entries@).take(i + 1).last() == json_of(entries[i as int]));
            }
            let ghost before = format_views(formats@);
            match text_member(entries[i], "url") {
                Some(url) => match self.parse_format_direct(entries[i], url.as_str()) {
                    Some(format) => {
                        if !id_seen(&formats, format.format_id.as_str()) {
                            let ghost view = format@;
                            formats.push(format);
                            assert(format_views(formats@) =~= before.push(view));
                        }
                    },
                    None => {},
                },
                None => {},
            }
            i += 1;
        }
        proof {
            assert(jsons(entries@).take(entries.len() as int) =~= jsons(entries@));
        }
        if formats.len() == 0 {
            Err(ExtractError::NoFormatsFound)
        } else {
            Ok(formats)
        }
    }

    /// The streams of the player response, protected addresses resolved with
    /// the player script `js_content`: one for each format entry that gives an
    /// address. It is an error where there is none.
    pub fn extract_formats_with_js(&mut self, player_response: &Value, js_content: &str) -> (r:
        Result<Vec<VideoFormat>, ExtractError>)
        ensures
            final(self).script() == old(self).script(),
            match r {
                Ok(formats) => formats@.len() > 0 && streams_match(
                    format_entries(json_of(player_response)),
                    js_content@,
                    old(self).script(),
                    format_views(formats@),
                ) && sound_streams(format_views(formats@)),
                Err(e) => e == ExtractError::NoFormatsFound && streams_match(
                    format_entries(json_of(player_response)),
                    js_content@,
                    old(self).script(),
                    Seq::empty(),
                ),
            },
    {
        let entries = format_entry_list(player_response);
        let mut formats: Vec<VideoFormat> = Vec::new();
        let mut i: usize = 0;
        proof {
            assert(jsons(entries@).take(0) =~= Seq::empty());
            assert(format_views(formats@) =~= Seq::empty());
        }
        while i < entries.len()
            invariant
                i <= entries.len(),
                self.script() == old(self).script(),
                streams_match(
                    jsons(entries@).take(i as int),
                    js_content@,
                    old(self).script(),
                    format_views(formats@),
                ),
            decreases entries.len() - i,
        {
            proof {
                assert(jsons(entries@).take(i + 1).drop_last() =~= jsons(entries@).take(i as int));
                assert(jsons(entries@).take(i + 1).last() == json_of(entries[i as int]));
            }
            let ghost before = format_views(formats@);
            let ghost kept = kept_entries(jsons(entries@).take(i as int));
            proof {
                lemma_ids_agree(
                    kept,
                    js_content@,
                    old(self).script(),
                    before,
                    entry_id(json_of(entries[i as int])),
                );
            }
            match self.entry_identifier(entries[i]) {
                Some(id) => {
                    if !id_seen(&formats, id.as_str()) {
                        match self.parse_format_with_js(entries[i], js_content) {
                            Some(format) => {
                                let ghost view = format@;
                                formats.push(format);
                                proof {
                                    assert(format_views(formats@) =~= before.push(view));
                                    assert(kept_entries(jsons(entries@).take(i + 1)) == kept.push(
                                        json_of(entries[i as int]),
                                    ));
                                    assert forall|k: int|
                                        0 <= k < before.len() + 1 implies describes(
                                        #[trigger] kept.push(json_of(entries[i as int]))[k],
                                        js_content@,
                                        old(self).script(),
                                        format_views(formats@)[k],
                                    ) by {
                                        if k < before.len() {
                                            assert(describes(
                                                kept[k],
                                                js_content@,
                                                old(self).script(),
                                                before[k],
                                            ));
                                        }
                                    }
                                }
                            },
                            None => {},
                        }
                    }
                },
                None => {},
            }
            i += 1;
        }
        proof {
            assert(jsons(entries@).take(entries.len() as int) =~= jsons(entries@));
            lemma_matching_streams_are_sound(
                jsons(entries@),
                js_content@,
                old(self).script(),
                format_views(formats@),
            );
        }
        if formats.len() == 0 {
            proof {
                assert(format_views(formats@) =~= Seq::empty());
            }
            Err(ExtractError::NoFormatsFound)
        } else {
            Ok(formats)
        }
    }

    /// The preview images of a video, by the platform's naming.
    pub fn generate_thumbnails(&self, video_id: &str) -> (r: Vec<Thumbnail>)
        ensures
            thumbnail_views(r@) == thumbnails_for(video_id@),
    {
        let base = joined("https://i.ytimg.com/vi/", video_id);
        let mut v: Vec<Thumbnail> = Vec::new();
        v.push(
            Thumbnail {
                url: joined(base.as_str(), "/maxresdefault.jpg"),
                width: Some(1280),
                height: Some(720),
                resolution: Some(owned("1280x720")),
            },
        );
        v.push(
            Thumbnail {
                url: joined(base.as_str(), "/hqdefault.jpg"),
                width: Some(480),
                height: Some(360),
                resolution: Some(owned("480x360")),
            },
        );
        v.push(
            Thumbnail {
                url: joined(base.as_str(), "/mqdefault.jpg"),
                width: Some(320),
                height: Some(180),
                resolution: Some(owned("320x180")),
            },
        );
        assert(thumbnail_views(v@) =~= thumbnails_for(video_id@));
        v
    }

    /// The description of the video with the streams `formats`, as the details
    /// of the player response give it.
    pub fn assemble_metadata(
        &self,
        player_response: &Value,
        video_id: &str,
        formats: Vec<VideoFormat>,
    ) -> (r: VideoMetadata)
        ensures
            r@ == metadata_from(json_of(player_response), video_id@, format_views(formats@)),
    {
        let details = get(player_response, "videoDetails");
        let title = match details {
            Some(details) => text_member(details, "title"),
            None => None,
        };
        let description = match details {
            Some(details) => text_member(details, "shortDescription"),
            None => None,
        };
        let length = match details {
            Some(details) => text_member(details, "lengthSeconds"),
            None => None,
        };
        let uploader = match details {
            Some(details) => text_member(details, "author"),
            None => None,
        };
        let views = match details {
            Some(details) => text_member(details, "viewCount"),
            None => None,
        };
        VideoMetadata {
            id: owned(video_id),
            title: match title {
                Some(title) => title,
                None => owned("Unknown Title"),
            },
            description,
            duration: match length {
                Some(digits) => parse_u64(digits.as_str()),
                None => None,
            },
            uploader,
            upload_date: None,
            view_count: match views {
                Some(digits) => parse_u64(digits.as_str()),
                None => None,
            },
            like_count: None,
            formats,
            thumbnails: self.generate_thumbnails(video_id),
            subtitles: std::collections::HashMap::new(),
        }
    }

    /// The description of the video from the streams that need no resolving.
    pub fn extract_metadata_direct(&self, player_response: &Value, video_id: &str) -> (r: Result<
        VideoMetadata,
        ExtractError,
    >)
        ensures
            match r {
                Ok(metadata) => metadata@ == metadata_from(
                    json_of(player_response),
                    video_id@,
                    direct_formats(json_of(player_response)),
                ) && metadata@.well_formed(),
                Err(e) => e == ExtractError::NoFormatsFound && direct_formats(
                    json_of(player_response),
                ).len() == 0,
            },
    {
        match self.extract_formats_direct(player_response) {
            Ok(formats) => Ok(self.assemble_metadata(player_response, video_id, formats)),
            Err(e) => Err(e),
        }
    }

    /// The description of the video from the page `html`, protected addresses
    /// resolved with the player script `js_content`.
    pub fn extract_metadata_with_js(&mut self, html: &str, video_id: &str, js_content: &str) -> (r:
        Result<VideoMetadata, ExtractError>)
        ensures
            final(self).script() == old(self).script(),
            match player_response_of(html@) {
                None => r == Err::<VideoMetadata, ExtractError>(ExtractError::NoPlayerResponse),
                Some(response) => match r {
                    Ok(metadata) => {
                        &&& metadata@.well_formed()
                        &&& metadata@ == metadata_from(response, video_id@, metadata@.formats)
                        &&& streams_match(
                            format_entries(response),
                            js_content@,
                            old(self).script(),
                            metadata@.formats,
                        )
                    },
                    Err(e) => e == ExtractError::NoFormatsFound && streams_match(
                        format_entries(response),
                        js_content@,
                        old(self).script(),
                        Seq::empty(),
                    ),
                },
            },
    {
        let player_response = match self.extract_player_response(html) {
            Ok(response) => response,
            Err(e) => {
                return Err(e);
            },
        };
        match self.extract_formats_with_js(&player_response, js_content) {
            Ok(formats) => Ok(self.assemble_metadata(&player_response, video_id, formats)),
            Err(e) => Err(e),
        }
    }

    /// The next reference to a player script in the page, from the form at
    /// position `from` on: the position of the form, and the address at which
    /// the script is fetched.
    pub fn next_player_script(&self, html: &str, from: usize) -> (r: Option<(usize, String)>)
        ensures
            match r {
                Some((at, url)) => player_script_from(html@, from as int) == Some(
                    (at as int, url@),
                ) && from <= at < player_script_patterns().len(),
                None => player_script_from(html@, from as int) is None,
            },
    {
        let patterns = player_script_pattern_list();
        match find_from(&patterns, html, 1, from) {
            Some((at, path)) => Some((at, joined("https://www.youtube.com", path.as_str()))),
            None => None,
        }
    }

    /// What to do about the player script: before any fetch where `fetched` is
    /// `None`, else after the fetch of the reference at the position given has
    /// ended in the status given. An answer with a status from 200 to 299 is
    /// used. Otherwise the next reference of the page is fetched, and the
    /// extraction fails where the page has no further reference.
    pub fn script_step_after(&self, html: &str, fetched: Option<(usize, u16)>) -> (r: ScriptStep)
        ensures
            r@ == script_step(html@, fetched),
    {
        let from: usize = match fetched {
            Some((at, status)) => {
                if 200 <= status && status < 300 {
                    return ScriptStep::Use;
                }
                if at >= 6 {
                    proof {
                        reveal_with_fuel(hit_from, 1);
                    }
                    return ScriptStep::Failed(ExtractError::NoPlayerScript);
                }
                at + 1
            },
            None => 0,
        };
        match self.next_player_script(html, from) {
            Some((position, url)) => ScriptStep::Fetch { position, url },
            None => ScriptStep::Failed(ExtractError::NoPlayerScript),
        }
    }

    /// The first step of an extraction: the identifier of the video that the
    /// address names.
    pub fn begin(&self, url: &Url) -> (r: Result<String, ExtractError>)
        ensures
            match video_id_of(url) {
                Some(id) => r is Ok && r->Ok_0@ == id,
                None => r == Err::<String, ExtractError>(ExtractError::MissingIdentifier),
            },
    {
        match self.extract_video_id(url) {
            Some(id) => Ok(id),
            None => Err(ExtractError::MissingIdentifier),
        }
    }

    /// The address of the watch page of a video.
    pub fn watch_page_url(&self, video_id: &str) -> (r: String)
        ensures
            r@ == watch_url(video_id@),
    {
        joined("https://www.youtube.com/watch?v=", video_id)
    }

    /// The headers of the request for a watch page.
    pub fn page_request_headers(&self) -> (r: Vec<(String, String)>)
        ensures
            r.deep_view() == page_headers(),
    {
        let mut headers: Vec<(String, String)> = Vec::new();
        headers.push((owned("Accept"), owned("text/html,application/xhtml+xml,application/xml;q=0.9,*/*;q=0.8")));
        headers.push((owned("Accept-Language"), owned("en-US,en;q=0.5")));
        headers.push((owned("Accept-Encoding"), owned("identity")));
        headers.push((owned("DNT"), owned("1")));
        headers.push((owned("Connection"), owned("keep-alive")));
        headers.push((owned("Upgrade-Insecure-Requests"), owned("1")));
        headers.push((owned("Sec-Fetch-Dest"), owned("document")));
        headers.push((owned("Sec-Fetch-Mode"), owned("navigate")));
        headers.push((owned("Sec-Fetch-Site"), owned("none")));
        headers.push((owned("Sec-Fetch-User"), owned("?1")));
        headers.push((owned("Cache-Control"), owned("max-age=0")));
        assert(headers.deep_view() =~= page_headers());
        headers
    }

    /// The headers of the request for a player script.
    pub fn script_request_headers(&self) -> (r: Vec<(String, String)>)
        ensures
            r.deep_view() == script_headers(),
    {
        let mut headers: Vec<(String, String)> = Vec::new();
        headers.push((owned("Accept"), owned("*/*")));
        headers.push((owned("Accept-Language"), owned("en-US,en;q=0.9")));
        headers.push((owned("Accept-Encoding"), owned("identity")));
        headers.push((owned("Referer"), owned("https://www.youtube.com/")));
        headers.push((owned("Origin"), owned("https://www.youtube.com")));
        headers.push((owned("Sec-Fetch-Dest"), owned("script")));
        headers.push((owned("Sec-Fetch-Mode"), owned("no-cors")));
        headers.push((owned("Sec-Fetch-Site"), owned("same-origin")));
        assert(headers.deep_view() =~= script_headers());
        headers
    }

    /// The second step: what to do with the fetched page. A page that is at
    /// fault, or that embeds no player response, fails the extraction. A
    /// player response with a stream that needs no resolving gives the
    /// description at once, from those streams alone. Only where there is no
    /// such stream is the player script asked for.
    pub fn on_page(&self, video_id: &str, status: u16, body: &str) -> (r: PageStep)
        ensures
            r@ == page_step(video_id@, status, body@),
    {
        if status < 200 || status >= 300 {
            return PageStep::Failed(ExtractError::FetchError);
        }
        if body.is_empty() {
            return PageStep::Failed(ExtractError::FetchError);
        }
        if !contains(body, "html") && !contains(body, "HTML") {
            return PageStep::Failed(ExtractError::UnexpectedContentType);
        }
        let player_response = match self.extract_player_response(body) {
            Ok(response) => response,
            Err(e) => {
                return PageStep::Failed(e);
            },
        };
        let entries = format_entry_list(&player_response);
        if !any_direct_entry(&entries) {
            return PageStep::FetchScript;
        }
        match self.extract_metadata_direct(&player_response, video_id) {
            Ok(metadata) => PageStep::Done(metadata),
            Err(e) => PageStep::Failed(e),
        }
    }

    /// The last step: the description from the page and the fetched player
    /// script. The script is given to the resolver's interpreter first.
    pub fn on_script(&mut self, video_id: &str, html: &str, js_content: String) -> (r: Result<
        VideoMetadata,
        ExtractError,
    >)
        ensures
            final(self).script() == Some(without_nul(js_content@)),
            match player_response_of(html@) {
                None => r == Err::<VideoMetadata, ExtractError>(ExtractError::NoPlayerResponse),
                Some(response) => match r {
                    Ok(metadata) => {
                        &&& metadata@.well_formed()
                        &&& metadata@ == metadata_from(response, video_id@, metadata@.formats)
                        &&& streams_match(
                            format_entries(response),
                            js_content@,
                            final(self).script(),
                            metadata@.formats,
                        )
                    },
                    Err(e) => e == ExtractError::NoFormatsFound && streams_match(
                        format_entries(response),
                        js_content@,
                        final(self).script(),
                        Seq::empty(),
                    ),
                },
            },
    {
        let script = js_content.clone();
        let _ = self.signature_decrypter.init_js_interpreter(js_content);
        self.extract_metadata_with_js(html, video_id, script.as_str())
    }
}

impl Extractor for YouTubeExtractor {
    open spec fn accepts(&self, url: &Url) -> bool {
        is_platform_address(url)
    }

    fn name(&self) -> (r: &'static str)
        ensures
            r@ == "YouTube"@,
    {
        "YouTube"
    }

    fn suitable(&self, url: &Url) -> (b: bool) {
        match host(url) {
            Some(h) => contains(h.as_str(), "youtube.com") || same_text(h.as_str(), "youtu.be"),
            None => false,
        }
    }
}

} // verus!
