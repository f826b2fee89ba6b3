use url::Url;
use yt_dlp_ng::engine::extractor::{ExtractError, Extractor, ExtractorEngine};
use yt_dlp_ng::extractors::js_interpreter::{spend, JSInterpreter, ScriptError};
use yt_dlp_ng::extractors::youtube::{
    assemble_url, CipherParams, PageStep, ScriptStep, YouTubeExtractor,
};
use yt_dlp_ng::extractors::youtube_signature::{SignatureDecrypter, TransformOp};

const DIRECT_PAGE: &str = r#"<!DOCTYPE html><html><head><script>var ytInitialPlayerResponse = {"videoDetails":{"title":"A Title","shortDescription":"About it","lengthSeconds":"212","author":"Someone","viewCount":"1000"},"streamingData":{"formats":[{"itag":18,"url":"https://example.com/v18","mimeType":"video/mp4; codecs=\"avc1.42001E, mp4a.40.2\"","bitrate":500000,"width":640,"height":360,"fps":30,"quality":"medium","contentLength":"12345"}],"adaptiveFormats":[{"itag":140,"signatureCipher":"s=abcdefgh&sp=sig&url=https%3A%2F%2Fexample.com%2Fa140","mimeType":"audio/mp4; codecs=\"mp4a.40.2\""},{"itag":251,"url":"https://example.com/a251","mimeType":"audio/webm; codecs=\"opus\"","bitrate":128000}]}};</script></head><body></body></html>"#;

const CIPHER_PAGE: &str = r#"<html><script>ytInitialPlayerResponse = {"videoDetails":{"lengthSeconds":"nine"},"streamingData":{"adaptiveFormats":[{"itag":140,"signatureCipher":"s=abcdefgh&sp=sig&url=https%3A%2F%2Fexample.com%2Fa140&n=token","mimeType":"audio/mp4"},{"itag":-7,"cipher":"url=https%3A%2F%2Fexample.com%2Fplain","mimeType":"audio/webm"},{"itag":5,"mimeType":"video/webm"},{"itag":22,"cipher":"s=xy&url=https%3A%2F%2Fexample.com%2Fdefault%20key"},{"itag":140,"cipher":"url=https%3A%2F%2Fexample.com%2Frepeated","mimeType":"audio/mp4"},{"cipher":"url=https%3A%2F%2Fexample.com%2Fnameless","mimeType":"audio/mp4"},{"itag":9,"cipher":"url=https%3A%2F%2Fexample.com%2Ftext","mimeType":"text/plain"}],"formats":"none"}};</script><script src="/s/player/abc123/player_ias.vflset/en_US/base.js"></script></html>"#;

#[test]
fn a_page_with_direct_streams_is_done_without_the_script() {
    let extractor = YouTubeExtractor::new();
    let metadata = match extractor.on_page("dQw4w9WgXcQ", 200, DIRECT_PAGE) {
        PageStep::Done(metadata) => metadata,
        PageStep::FetchScript => panic!("the script was asked for"),
        PageStep::Failed(e) => panic!("failed: {:?}", e),
    };
    assert_eq!(metadata.id, "dQw4w9WgXcQ");
    assert_eq!(metadata.title, "A Title");
    assert_eq!(metadata.description, Some("About it".to_string()));
    assert_eq!(metadata.duration, Some(212));
    assert_eq!(metadata.uploader, Some("Someone".to_string()));
    assert_eq!(metadata.view_count, Some(1000));
    assert_eq!(metadata.upload_date, None);
    assert_eq!(metadata.like_count, None);
    assert!(metadata.subtitles.is_empty());

    // The adaptive streams come first; the one behind a cipher is left out.
    assert_eq!(metadata.formats.len(), 2);
    let audio = &metadata.formats[0];
    assert_eq!(audio.format_id, "251");
    assert_eq!(audio.url, "https://example.com/a251");
    assert_eq!(audio.vcodec, None);
    assert_eq!(audio.acodec, Some("opus".to_string()));
    assert_eq!(audio.ext, "webm");
    assert_eq!(audio.tbr, Some(128000));
    assert_eq!(audio.resolution, None);
    assert_eq!(audio.filesize, None);
    let video = &metadata.formats[1];
    assert_eq!(video.format_id, "18");
    assert_eq!(video.url, "https://example.com/v18");
    assert_eq!(video.quality, Some("medium".to_string()));
    assert_eq!(video.resolution, Some("640x360".to_string()));
    assert_eq!(video.fps, Some(30));
    assert_eq!(video.vcodec, Some("h264".to_string()));
    assert_eq!(video.acodec, Some("aac".to_string()));
    assert_eq!(video.ext, "mp4");
    assert_eq!(video.filesize, Some(12345));
    assert_eq!(video.tbr, Some(500000));
    assert_eq!(video.vbr, None);
    assert_eq!(video.abr, None);

    assert_eq!(metadata.thumbnails.len(), 3);
    assert_eq!(
        metadata.thumbnails[0].url,
        "https://i.ytimg.com/vi/dQw4w9WgXcQ/maxresdefault.jpg"
    );
    assert_eq!(metadata.thumbnails[0].width, Some(1280));
    assert_eq!(metadata.thumbnails[0].height, Some(720));
    assert_eq!(metadata.thumbnails[0].resolution, Some("1280x720".to_string()));
    assert_eq!(
        metadata.thumbnails[1].url,
        "https://i.ytimg.com/vi/dQw4w9WgXcQ/hqdefault.jpg"
    );
    assert_eq!(metadata.thumbnails[1].resolution, Some("480x360".to_string()));
    assert_eq!(
        metadata.thumbnails[2].url,
        "https://i.ytimg.com/vi/dQw4w9WgXcQ/mqdefault.jpg"
    );
    assert_eq!(metadata.thumbnails[2].width, Some(320));
    assert_eq!(metadata.thumbnails[2].height, Some(180));
}

#[test]
fn a_page_with_protected_streams_only_asks_for_the_script() {
    let extractor = YouTubeExtractor::new();
    assert!(matches!(
        extractor.on_page("id", 200, CIPHER_PAGE),
        PageStep::FetchScript
    ));
    assert_eq!(
        extractor.next_player_script(CIPHER_PAGE, 0),
        Some((
            0,
            "https://www.youtube.com/s/player/abc123/player_ias.vflset/en_US/base.js".to_string()
        ))
    );
    assert_eq!(extractor.next_player_script(CIPHER_PAGE, 1), None);
    assert_eq!(extractor.next_player_script(CIPHER_PAGE, 6), None);
    assert_eq!(extractor.next_player_script("<html></html>", 0), None);
    let quoted = r#"<html>{"PLAYER_JS_URL":"/s/player/x/base.js","jsUrl":"/s/player/y/base.js"}</html>"#;
    assert_eq!(
        extractor.next_player_script(quoted, 1),
        Some((1, "https://www.youtube.com/s/player/y/base.js".to_string()))
    );
    assert_eq!(
        extractor.next_player_script(quoted, 2),
        Some((5, "https://www.youtube.com/s/player/x/base.js".to_string()))
    );
}

#[test]
fn protected_streams_are_resolved_from_the_text_of_the_script() {
    let mut extractor = YouTubeExtractor::new();
    let metadata = extractor
        .on_script("id", CIPHER_PAGE, "var nothing = 0;".to_string())
        .unwrap();
    assert_eq!(metadata.title, "Unknown Title");
    assert_eq!(metadata.duration, None);
    assert_eq!(metadata.uploader, None);

    // Left out: the entry without an address, the second entry with the
    // identifier 140, the entry without an identifier, and the entry whose
    // media type stands for no codec.
    assert_eq!(metadata.formats.len(), 3);
    // "abcdefgh" reversed is "hgfedcba"; without index 1 "hfedcba"; there
    // is no index 39 to swap with.
    assert_eq!(
        metadata.formats[0].url,
        "https://example.com/a140&sig=hfedcba&n=token"
    );
    assert_eq!(metadata.formats[0].format_id, "140");
    assert_eq!(metadata.formats[0].ext, "m4a");
    assert_eq!(metadata.formats[0].vcodec, None);
    assert_eq!(metadata.formats[0].acodec, Some("aac".to_string()));
    assert_eq!(metadata.formats[1].url, "https://example.com/plain");
    assert_eq!(metadata.formats[1].format_id, "-7");
    assert_eq!(metadata.formats[1].ext, "webm");
    assert_eq!(metadata.formats[1].vcodec, None);
    assert_eq!(metadata.formats[1].acodec, Some("opus".to_string()));
    // "xy" reversed is "yx"; without index 1 "y".
    assert_eq!(
        metadata.formats[2].url,
        "https://example.com/default key&signature=y"
    );
    assert_eq!(metadata.formats[2].format_id, "22");
    assert_eq!(metadata.formats[2].ext, "mp4");
}

#[test]
fn protected_streams_are_resolved_by_running_the_script() {
    let script = r#"var helper=["x","y"];var names=["n"];
var descramble=function(a){a=a.split("");a.reverse();a.push(helper[1]);return a.join("")};
var throttle=function(a){var b=a.split("");b.reverse();return b.join("")};"#;
    let mut extractor = YouTubeExtractor::new();
    let metadata = extractor
        .on_script("id", CIPHER_PAGE, script.to_string())
        .unwrap();
    // The signature function reverses and appends the second global: "hgfedcbay".
    // The throttle idiom finds the leftmost function that joins its characters,
    // which is the same function: "nekoty".
    assert_eq!(
        metadata.formats[0].url,
        "https://example.com/a140&sig=hgfedcbay&n=nekoty"
    );
    assert_eq!(
        metadata.formats[2].url,
        "https://example.com/default key&signature=yxy"
    );
}

#[test]
fn a_script_that_fails_falls_back_to_the_steps() {
    let script = r#"var descramble=function(a){a=a.split("");throw new Error("no")};"#;
    let mut decrypter = SignatureDecrypter::new();
    decrypter.init_js_interpreter(script.to_string()).unwrap();
    assert_eq!(
        decrypter.find_signature_function_name(script),
        Some("descramble".to_string())
    );
    assert_eq!(decrypter.decrypt_signature("abcdefgh", script).unwrap(), "hfedcba");
    // The same script again, from memory.
    assert_eq!(decrypter.decrypt_signature("abcdefgh", script).unwrap(), "hfedcba");
    assert_eq!(decrypter.decrypt_signature("ab", script).unwrap(), "b");
    assert_eq!(decrypter.decrypt_nsig("token", script).unwrap(), "token");
}

#[test]
fn faults_of_the_page_fail_the_extraction() {
    let extractor = YouTubeExtractor::new();
    for status in [0u16, 199, 300, 403, 404, 500] {
        assert!(matches!(
            extractor.on_page("id", status, DIRECT_PAGE),
            PageStep::Failed(ExtractError::FetchError)
        ));
    }
    assert!(matches!(
        extractor.on_page("id", 200, ""),
        PageStep::Failed(ExtractError::FetchError)
    ));
    assert!(matches!(
        extractor.on_page("id", 200, "{\"json\": true}"),
        PageStep::Failed(ExtractError::UnexpectedContentType)
    ));
    assert!(matches!(
        extractor.on_page("id", 204, "<HTML></HTML>"),
        PageStep::Failed(ExtractError::NoPlayerResponse)
    ));
    assert!(matches!(
        extractor.on_page("id", 200, "<html>ytInitialPlayerResponse = {not json};</html>"),
        PageStep::Failed(ExtractError::NoPlayerResponse)
    ));
    assert!(matches!(
        extractor.on_page("id", 299, DIRECT_PAGE),
        PageStep::Done(_)
    ));
}

#[test]
fn a_player_response_without_streams_fails() {
    let mut extractor = YouTubeExtractor::new();
    let page = r#"<html>ytInitialPlayerResponse = {"videoDetails":{"title":"t"},"streamingData":{"formats":[{"itag":1}]}};</html>"#;
    assert!(matches!(extractor.on_page("id", 200, page), PageStep::FetchScript));
    assert_eq!(
        extractor.on_script("id", page, String::new()).err(),
        Some(ExtractError::NoFormatsFound)
    );
    let page = r#"<html>ytInitialPlayerResponse = {"videoDetails":{"title":"t"}};</html>"#;
    assert_eq!(
        extractor.on_script("id", page, String::new()).err(),
        Some(ExtractError::NoFormatsFound)
    );
    assert_eq!(
        extractor.on_script("id", "<html></html>", String::new()).err(),
        Some(ExtractError::NoPlayerResponse)
    );
}

#[test]
fn the_first_marker_that_holds_json_gives_the_player_response() {
    let extractor = YouTubeExtractor::new();
    // The first two markers match up to the first "};" and capture no JSON;
    // the third captures the object behind the quoted name, up to its first "}".
    let page = r#"<html>ytInitialPlayerResponse = {"a":"};"};{"ytInitialPlayerResponse": {"title":"quoted"}}</html>"#;
    let response = extractor.extract_player_response(page).unwrap();
    assert_eq!(response.get("title").and_then(|t| t.as_str()), Some("quoted"));
    assert_eq!(response.get("a"), None);
}

#[test]
fn format_entries_are_read_field_by_field() {
    let extractor = YouTubeExtractor::new();
    // An identifier that is no number is none, and so is a media type that
    // stands for no codec.
    let entry = serde_json::from_str::<serde_json::Value>(r#"{"itag":"18"}"#).unwrap();
    assert!(extractor.parse_format_direct(&entry, "https://example.com/x").is_none());
    assert!(!extractor.is_sound_entry(&entry));
    assert_eq!(extractor.entry_identifier(&entry), None);
    let entry =
        serde_json::from_str::<serde_json::Value>(r#"{"itag":18,"mimeType":"image/png"}"#).unwrap();
    assert!(extractor.parse_format_direct(&entry, "https://example.com/x").is_none());
    assert!(!extractor.is_sound_entry(&entry));
    assert_eq!(extractor.entry_identifier(&entry), Some("18".to_string()));

    let entry = serde_json::from_str::<serde_json::Value>(
        r#"{"itag":18,"width":4294967936,"height":-1,"fps":29.97,"bitrate":-5,"contentLength":123,"quality":7}"#,
    )
    .unwrap();
    assert!(extractor.is_sound_entry(&entry));
    let format = extractor.parse_format_direct(&entry, "https://example.com/x").unwrap();
    assert_eq!(format.format_id, "18");
    // 4294967936 is 2^32 + 640, and -1 is 2^32 - 1 in 32 bits.
    assert_eq!(format.resolution, Some("640x4294967295".to_string()));
    assert_eq!(format.fps, None);
    assert_eq!(format.tbr, None);
    assert_eq!(format.filesize, None);
    assert_eq!(format.quality, None);
    assert_eq!(format.ext, "mp4");
    assert_eq!(format.url, "https://example.com/x");

    let (vcodec, acodec, ext) = extractor.parse_mime_type("video/webm; codecs=\"vp9\"");
    assert_eq!((vcodec.as_deref(), acodec.as_deref(), ext), (Some("vp9"), Some("opus"), "webm"));
    let (vcodec, acodec, ext) = extractor.parse_mime_type("audio/webm");
    assert_eq!((vcodec.as_deref(), acodec.as_deref(), ext), (None, Some("opus"), "webm"));
    let (vcodec, acodec, ext) = extractor.parse_mime_type("audio/mp4");
    assert_eq!((vcodec.as_deref(), acodec.as_deref(), ext), (None, Some("aac"), "m4a"));
    let (vcodec, acodec, ext) = extractor.parse_mime_type("image/png");
    assert_eq!((vcodec.as_deref(), acodec.as_deref(), ext), (None, None, "unknown"));
}

#[test]
fn query_strings_are_decoded_pair_by_pair() {
    let extractor = YouTubeExtractor::new();
    assert_eq!(
        extractor.parse_query_string("a=1&b%20c=d%2Fe&novalue&=x&k=v=w&bad=%ff&a=2"),
        vec![
            ("a".to_string(), "1".to_string()),
            ("b c".to_string(), "d/e".to_string()),
            ("".to_string(), "x".to_string()),
            ("k".to_string(), "v=w".to_string()),
            ("bad".to_string(), "".to_string()),
            ("a".to_string(), "2".to_string()),
        ]
    );
    assert_eq!(extractor.parse_query_string(""), vec![]);

    // Of two parameters of one name the later one counts.
    let entry = serde_json::from_str::<serde_json::Value>(
        r#"{"signatureCipher":"url=first&s=1&url=second","cipher":"url=other"}"#,
    )
    .unwrap();
    let params = extractor.cipher_params(&entry).unwrap();
    assert_eq!(params.url, "second");
    assert_eq!(params.s, Some("1".to_string()));
    assert_eq!(params.sp, None);
    assert_eq!(params.n, None);

    // A cipher field that is no text gives nothing, whatever `cipher` holds.
    let entry = serde_json::from_str::<serde_json::Value>(
        r#"{"signatureCipher":5,"cipher":"url=other"}"#,
    )
    .unwrap();
    assert!(extractor.cipher_params(&entry).is_none());
    let entry = serde_json::from_str::<serde_json::Value>(r#"{"cipher":"s=1&sp=sig"}"#).unwrap();
    assert!(extractor.cipher_params(&entry).is_none());
}

#[test]
fn resolved_addresses_are_put_together() {
    let params = CipherParams {
        url: "https://example.com/v?x=1".to_string(),
        s: Some("raw".to_string()),
        sp: Some("sig".to_string()),
        n: Some("t".to_string()),
    };
    assert_eq!(
        assemble_url(&params, "SIGNED", Some("TOKEN")),
        "https://example.com/v?x=1&sig=SIGNED&n=TOKEN"
    );
    assert_eq!(assemble_url(&params, "SIGNED", None), "https://example.com/v?x=1&sig=SIGNED");
    let params = CipherParams { url: "u".to_string(), s: None, sp: None, n: None };
    assert_eq!(assemble_url(&params, "", None), "u&signature=");
}

#[test]
fn addresses_name_their_video() {
    let extractor = YouTubeExtractor::new();
    let id = |text: &str| extractor.extract_video_id(&Url::parse(text).unwrap());
    assert_eq!(id("https://youtu.be/abc/def?v=other"), Some("abc".to_string()));
    assert_eq!(id("https://youtu.be/"), Some("".to_string()));
    assert_eq!(id("https://www.youtube.com/watch?t=1&v=first&v=second"), Some("first".to_string()));
    assert_eq!(id("https://www.youtube.com/watch?v=a%20b"), Some("a b".to_string()));
    assert_eq!(id("https://www.youtube.com/watch?list=1"), None);
    assert_eq!(id("https://www.youtube.com/shorts/abc"), None);
    assert_eq!(id("https://vimeo.com/watch?v=abc"), None);
    assert_eq!(id("data:text/plain,v=abc"), None);

    let begin = |text: &str| extractor.begin(&Url::parse(text).unwrap());
    assert_eq!(begin("https://youtu.be/abc"), Ok("abc".to_string()));
    assert_eq!(begin("https://example.com/abc"), Err(ExtractError::MissingIdentifier));
    assert_eq!(extractor.watch_page_url("abc"), "https://www.youtube.com/watch?v=abc");
    assert_eq!(extractor.name(), "YouTube");
    assert!(!extractor.suitable(&Url::parse("mailto:someone@youtube.com").unwrap()));
    assert!(extractor.suitable(&Url::parse("https://notyoutube.com.example/").unwrap()));
}

#[test]
fn request_headers_of_the_extractor_are_fixed() {
    let extractor = YouTubeExtractor::new();
    let page = extractor.page_request_headers();
    assert_eq!(page.len(), 11);
    assert_eq!(
        page[0],
        (
            "Accept".to_string(),
            "text/html,application/xhtml+xml,application/xml;q=0.9,*/*;q=0.8".to_string()
        )
    );
    assert_eq!(page[10], ("Cache-Control".to_string(), "max-age=0".to_string()));
    let script = extractor.script_request_headers();
    assert_eq!(script.len(), 8);
    assert_eq!(script[2], ("Accept-Encoding".to_string(), "identity".to_string()));
    assert_eq!(script[7], ("Sec-Fetch-Site".to_string(), "same-origin".to_string()));
}

struct Always(bool);

impl Extractor for Always {
    fn accepts(&self, _url: &Url) -> bool {
        self.0
    }

    fn name(&self) -> &'static str {
        "always"
    }

    fn suitable(&self, _url: &Url) -> bool {
        self.0
    }
}

#[test]
fn the_first_registered_extractor_that_suits_is_found() {
    let mut engine: ExtractorEngine<dyn Extractor> = ExtractorEngine::new();
    assert_eq!(engine.extractors.len(), 0);
    assert_eq!(
        engine.dispatch("https://youtu.be/abc").err(),
        Some(ExtractError::NoExtractorFound)
    );
    engine.register_extractor(Box::new(Always(false)));
    engine.register_extractor(Box::new(YouTubeExtractor::new()));
    engine.register_extractor(Box::new(Always(true)));
    assert_eq!(engine.extractors.len(), 3);

    let (index, address) = engine.dispatch("https://youtu.be/abc").unwrap();
    assert_eq!(index, 1);
    assert_eq!(address.as_str(), "https://youtu.be/abc");
    assert_eq!(engine.extractors[index].name(), "YouTube");
    let (index, _) = engine.dispatch("https://vimeo.com/1").unwrap();
    assert_eq!(index, 2);
    assert_eq!(engine.dispatch("not an address").err(), Some(ExtractError::InvalidUrl));
    assert_eq!(engine.dispatch("").err(), Some(ExtractError::InvalidUrl));
}

#[test]
fn no_extractor_suits() {
    let mut engine = ExtractorEngine::new();
    engine.register_extractor(Box::new(YouTubeExtractor::new()));
    assert_eq!(
        engine.dispatch("https://vimeo.com/123456").err(),
        Some(ExtractError::NoExtractorFound)
    );
    assert_eq!(
        ExtractError::NoExtractorFound.message(),
        "no suitable extractor found for the address"
    );
}

#[test]
fn helper_methods_are_classified() {
    let decrypter = SignatureDecrypter::new();
    let op = |body: &str| decrypter.parse_transform_method(body);
    assert_eq!(op("a.reverse()"), TransformOp::Reverse);
    assert_eq!(op("a.splice(0,b);a.reverse()"), TransformOp::Reverse);
    assert_eq!(op("a.splice( 3 , 1 )"), TransformOp::RemoveAt(3));
    assert_eq!(op("a.splice(0,b)"), TransformOp::RemoveAt(0));
    assert_eq!(op("a.splice(3,2)"), TransformOp::RemoveAt(3));
    assert_eq!(op("a.splice(4)"), TransformOp::RemoveAt(4));
    assert_eq!(op("a.splice(b,1)"), TransformOp::RemoveAt(0));
    assert_eq!(op("a.splice(99999999999999999999999,1)"), TransformOp::RemoveAt(0));
    assert_eq!(op("var c=a[0];a[0]=a[7];a[7]=c"), TransformOp::SwapWithFirst(7));
    assert_eq!(op("var c=a[0];a[0]=a[b%a.length];a[b%a.length]=c"), TransformOp::SwapWithFirst(1));
    assert_eq!(op("swap(a)"), TransformOp::SwapWithFirst(1));
    assert_eq!(op("return a"), TransformOp::Reverse);
    assert_eq!(op(""), TransformOp::Reverse);
}

#[test]
fn the_steps_default_where_the_script_tells_nothing() {
    let mut decrypter = SignatureDecrypter::new();
    let default = vec![
        TransformOp::Reverse,
        TransformOp::RemoveAt(1),
        TransformOp::SwapWithFirst(39),
    ];
    assert_eq!(decrypter.extract_signature_operations(""), default);
    assert_eq!(decrypter.extract_transform_operations("var Xy={};", None), default);
    assert_eq!(decrypter.extract_transform_operations("var Xy={};", Some("Xy")), default);
    assert_eq!(decrypter.extract_transform_operations("var Ab={cd:1};", Some("Xy")), default);
    assert_eq!(decrypter.find_signature_function_name("function f(){}"), None);
    assert_eq!(
        decrypter.find_signature_function_name(r#"c&&d.set("sig",encodeURIComponent(Zq(x)))"#),
        Some("Zq".to_string())
    );
    assert_eq!(
        decrypter
            .find_transform_object_name("Z$=function(a){a=a.split(\"\");Xy.ab(a,1)}", "Z$"),
        Some("Xy".to_string())
    );
    assert_eq!(
        decrypter.find_transform_object_name("Z$=function(a){a=a.split(\"\");a.pop()}", "Z$"),
        None
    );
    assert_eq!(decrypter.find_transform_object_name("Zq=function(a){}", "Z$"), None);

    let signature: String = ('a'..='z').chain('A'..='Z').collect();
    // 52 characters: reversed, then without index 1, then index 0 and 39 swapped.
    let mut expected: Vec<char> = signature.chars().rev().collect();
    expected.remove(1);
    expected.swap(0, 39);
    assert_eq!(
        decrypter.decrypt_signature(&signature, "").unwrap(),
        expected.iter().collect::<String>()
    );
    assert_eq!(
        decrypter.decrypt_signature("abcdefghijklmnop", "").unwrap(),
        "pnmlkjihgfedcba"
    );
    assert_eq!(decrypter.decrypt_signature("", "").unwrap(), "");
    assert_eq!(decrypter.decrypt_nsig("n-token", "anything").unwrap(), "n-token");
}

#[test]
fn scripts_are_cleaned_and_searched() {
    let interpreter = JSInterpreter::new(
        "var a = [\"x\", \"y\"];\0 var b = [1, 2]; var c = [\"z\"]; var a = [\"w\"];\nfunction f$1 ( first , second,, ) { return first; }"
            .to_string(),
    )
    .unwrap();
    assert_eq!(JSInterpreter::clean_js_code("a\0b\0\0c"), "abc");
    assert_eq!(
        interpreter.extract_global_vars().unwrap(),
        vec![
            ("a".to_string(), vec!["w".to_string()]),
            ("c".to_string(), vec!["z".to_string()]),
        ]
    );
    assert_eq!(
        interpreter.extract_function_code("f$1").unwrap(),
        (
            vec!["first".to_string(), "second".to_string()],
            "function f$1 ( first , second,, ) { return first; }".to_string()
        )
    );
    assert_eq!(
        interpreter.extract_function_code("f").err(),
        Some(ScriptError::NoDefinition)
    );
    assert_eq!(
        interpreter.extract_function_code("f.1").err(),
        Some(ScriptError::NoDefinition)
    );
}

#[test]
fn a_script_that_does_not_end_is_stopped() {
    let endless = JSInterpreter::new("function f(a) { while (true) { a = a + 'x'.length; } }".to_string())
        .unwrap()
        .with_step_budget(3);
    assert_eq!(endless.decrypt_signature("f", "x", None).err(), Some(ScriptError::Call));
    assert_eq!(endless.execute("for (;;) {}").err(), Some(ScriptError::Load));
    assert_eq!(endless.execute("'done'").unwrap(), "done");
}

#[test]
fn a_budget_is_spent_one_by_one() {
    let mut left = 2u64;
    assert!(!spend(&mut left));
    assert_eq!(left, 1);
    assert!(!spend(&mut left));
    assert_eq!(left, 0);
    assert!(spend(&mut left));
    assert_eq!(left, 0);
}

#[test]
fn failures_in_the_script_engine_are_errors() {
    let interpreter = JSInterpreter::new("function f(a) { return a.length; } function g(a) { throw 1; }".to_string()).unwrap();
    assert_eq!(
        interpreter.decrypt_signature("missing", "x", None).err(),
        Some(ScriptError::MissingFunction)
    );
    assert_eq!(interpreter.decrypt_signature("g", "x", None).err(), Some(ScriptError::Call));
    assert_eq!(interpreter.decrypt_signature("f", "x", None).err(), Some(ScriptError::Call));
    let broken = JSInterpreter::new("function (".to_string()).unwrap();
    assert_eq!(broken.decrypt_signature("f", "x", None).err(), Some(ScriptError::Load));

    let globals = vec![("table".to_string(), vec!["p".to_string(), "q".to_string()])];
    let reader = JSInterpreter::new("function h(a) { return table[1] + a + table.length; }".to_string()).unwrap();
    assert_eq!(reader.decrypt_signature("h", "x", Some(globals)).unwrap(), "qx2");

    assert_eq!(interpreter.execute("'a' + 'b'").unwrap(), "ab");
    assert_eq!(interpreter.execute("1 + 1").unwrap(), "");
    assert_eq!(interpreter.execute("throw 1").err(), Some(ScriptError::Load));
}

#[test]
fn the_signature_function_runs_where_it_is_named() {
    let script = r#"var descramble=function(a){a=a.split("");a.reverse();return a.join("")};"#;
    let mut decrypter = SignatureDecrypter::new();
    assert_eq!(decrypter.run_signature_function("abc", script), None);

    decrypter.init_js_interpreter(script.to_string()).unwrap();
    assert_eq!(
        decrypter.run_signature_function("abc", script),
        Some(Ok("cba".to_string()))
    );
    assert_eq!(decrypter.run_signature_function("abc", "var x = 1;"), None);

    // The function that the text names is missing from the script held.
    let other = r#"var unscramble=function(a){a=a.split("");return a.join("")};"#;
    assert_eq!(
        decrypter.run_signature_function("abc", other),
        Some(Err(ScriptError::MissingFunction))
    );
}

#[test]
fn a_function_runs_with_the_arrays_of_its_script() {
    let interpreter = JSInterpreter::new(
        "var table = [\"p\", \"q\"]; function h(a) { return table[0] + a; }".to_string(),
    )
    .unwrap();
    assert_eq!(interpreter.run_function("h", "x").unwrap(), "px");
    assert_eq!(interpreter.run_function("g", "x").err(), Some(ScriptError::MissingFunction));
    assert_eq!(interpreter.decrypt_signature("h", "x", Some(vec![])).unwrap(), "px");
    let empty = vec![("table".to_string(), vec![])];
    assert_eq!(interpreter.decrypt_signature("h", "x", Some(empty)).unwrap(), "undefinedx");
}

#[test]
fn the_steps_are_read_off_the_helper_object() {
    let decrypter = SignatureDecrypter::new();
    let object = "var Xy={r1:function(a){a.reverse()},s2:function(a){a.splice(1,1)},w3:function(a){var c=a[0];a[0]=a[2];a[2]=c}};";
    assert_eq!(
        decrypter.extract_transform_operations(object, Some("Xy")),
        vec![TransformOp::Reverse, TransformOp::RemoveAt(1), TransformOp::SwapWithFirst(2)]
    );
    // A method with a block inside it ends at the brace of that block, and the
    // object at the brace that closes it, not at the first.
    let nested = "let Xy = { w : function (a) { if (a) { a[0] = a[5] } }, r: function(a){ a.reverse() } }; var Zz = {q:function(a){a.splice(9,1)}}";
    assert_eq!(
        decrypter.extract_transform_operations(nested, Some("Xy")),
        vec![TransformOp::SwapWithFirst(5), TransformOp::Reverse]
    );
    let open = "var Xy={r1:function(a){a.reverse()}";
    assert_eq!(
        decrypter.extract_transform_operations(open, Some("Xy")),
        vec![TransformOp::Reverse, TransformOp::RemoveAt(1), TransformOp::SwapWithFirst(39)]
    );
}

#[test]
fn a_signature_is_resolved_from_the_text_of_a_player_script() {
    let script = r#"var Xy={r1:function(a){a.reverse()},s2:function(a,b){a.splice(0,b)},w3:function(a,b){var c=a[0];a[0]=a[b%a.length];a[b%a.length]=c}};
var Zq=function(a){a=a.split("");Xy.s2(a,2);Xy.r1(a,1);return a.join("")};"#;
    let mut decrypter = SignatureDecrypter::new();
    assert_eq!(decrypter.find_signature_function_name(script), Some("Zq".to_string()));
    assert_eq!(decrypter.find_transform_object_name(script, "Zq"), Some("Xy".to_string()));
    assert_eq!(
        decrypter.extract_signature_operations(script),
        vec![TransformOp::Reverse, TransformOp::RemoveAt(0), TransformOp::SwapWithFirst(1)]
    );
    // "abcdef" reversed is "fedcba"; without index 0 "edcba"; with the first
    // two swapped "decba".
    assert_eq!(decrypter.decrypt_signature("abcdef", script).unwrap(), "decba");
}

#[test]
fn idioms_that_write_a_name_twice_want_it_the_same() {
    let decrypter = SignatureDecrypter::new();
    let name = |script: &str| decrypter.find_signature_function_name(script);
    assert_eq!(name("x;a&&(a=Xy(decodeURIComponent(a)));"), Some("Xy".to_string()));
    assert_eq!(name("x;a&&(b=Xy(decodeURIComponent(a)));"), None);
    assert_eq!(
        name("x;a&&(b=Xy(decodeURIComponent(a)));c&&(c=Zq(decodeURIComponent(c)));"),
        Some("Zq".to_string())
    );
    assert_eq!(name(r#"f("signature",Zq(x))"#), Some("Zq".to_string()));
    assert_eq!(name(r#"f('signature',Zq(x))"#), Some("Zq".to_string()));
    assert_eq!(name(r#"f("signature',Zq(x))"#), None);
    assert_eq!(
        name(r#"Ab=function(x){x=x.split("");x.pop();return x.join("")}"#),
        Some("Ab".to_string())
    );
    assert_eq!(name(r#"Ab=function(x){x=y.split("");x.pop();return x.join("")}"#), None);
}

#[test]
fn entries_that_are_not_sound_or_repeat_an_identifier_are_left_out() {
    let extractor = YouTubeExtractor::new();
    let page = r#"<html>ytInitialPlayerResponse = {"streamingData":{"formats":[{"itag":18,"url":"https://example.com/first"},{"url":"https://example.com/nameless"},{"itag":18,"url":"https://example.com/second"},{"itag":19,"url":"https://example.com/text","mimeType":"text/plain"},{"itag":20,"url":"https://example.com/third","mimeType":"audio/webm"}]}};</html>"#;
    let metadata = match extractor.on_page("id", 200, page) {
        PageStep::Done(metadata) => metadata,
        other => panic!("not done: {:?}", other),
    };
    assert_eq!(metadata.formats.len(), 2);
    assert_eq!(metadata.formats[0].format_id, "18");
    assert_eq!(metadata.formats[0].url, "https://example.com/first");
    assert_eq!(metadata.formats[1].format_id, "20");
    assert_eq!(metadata.formats[1].url, "https://example.com/third");
    assert_eq!(metadata.title, "Unknown Title");
}

#[test]
fn an_entry_with_an_address_rules_out_the_script() {
    let extractor = YouTubeExtractor::new();
    // The one entry with an address of its own is not sound: the extraction
    // fails, and the entry behind a cipher does not bring the script in.
    let page = r#"<html>ytInitialPlayerResponse = {"streamingData":{"formats":[{"url":"https://example.com/nameless"},{"itag":140,"cipher":"s=ab&url=https%3A%2F%2Fexample.com%2Fa"}]}};</html>"#;
    assert!(matches!(
        extractor.on_page("id", 200, page),
        PageStep::Failed(ExtractError::NoFormatsFound)
    ));
}

#[test]
fn the_script_is_fetched_from_one_reference_after_the_other() {
    let extractor = YouTubeExtractor::new();
    let page = r#"<html>{"PLAYER_JS_URL":"/s/player/x/base.js","jsUrl":"/s/player/y/base.js"}</html>"#;
    let first = match extractor.script_step_after(page, None) {
        ScriptStep::Fetch { position, url } => (position, url),
        other => panic!("no fetch: {:?}", other),
    };
    assert_eq!(first, (0, "https://www.youtube.com/s/player/x/base.js".to_string()));
    assert!(matches!(extractor.script_step_after(page, Some((0, 200))), ScriptStep::Use));
    assert!(matches!(extractor.script_step_after(page, Some((0, 299))), ScriptStep::Use));
    let second = match extractor.script_step_after(page, Some((0, 404))) {
        ScriptStep::Fetch { position, url } => (position, url),
        other => panic!("no fetch: {:?}", other),
    };
    assert_eq!(second, (1, "https://www.youtube.com/s/player/y/base.js".to_string()));
    let third = match extractor.script_step_after(page, Some((1, 500))) {
        ScriptStep::Fetch { position, url } => (position, url),
        other => panic!("no fetch: {:?}", other),
    };
    assert_eq!(third, (5, "https://www.youtube.com/s/player/x/base.js".to_string()));
    assert!(matches!(
        extractor.script_step_after(page, Some((5, 403))),
        ScriptStep::Failed(ExtractError::NoPlayerScript)
    ));
    assert!(matches!(
        extractor.script_step_after(page, Some((usize::MAX, 403))),
        ScriptStep::Failed(ExtractError::NoPlayerScript)
    ));
    assert!(matches!(
        extractor.script_step_after("<html></html>", None),
        ScriptStep::Failed(ExtractError::NoPlayerScript)
    ));
}
