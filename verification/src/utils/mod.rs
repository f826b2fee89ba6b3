//! File names for what is downloaded.

use vstd::prelude::*;
use crate::engine::downloader::{best_index, best_of, lemma_best_is_first_maximum};
use crate::engine::metadata::{VideoFormatView, VideoMetadata};
use crate::text::{chars_of, owned, replace_all, replaced, text_of};

verus! {

/// Whether `c` is a control character: U+0000 to U+001F or U+007F to U+009F.
pub open spec fn is_control(c: char) -> bool {
    c as u32 <= 0x1f || 0x7f <= c as u32 <= 0x9f
}

/// Whether `c` may not stand in a file name.
pub open spec fn is_unsafe(c: char) -> bool {
    c == '<' || c == '>' || c == ':' || c == '"' || c == '|' || c == '?' || c == '*' || c == '/'
        || c == '\\' || is_control(c)
}

/// What stands in a file name in place of `c`: `-` for a slash either way,
/// `_` for any other character that may not stand there, `c` itself otherwise.
pub open spec fn sanitized_char(c: char) -> char {
    if c == '/' || c == '\\' {
        '-'
    } else if is_unsafe(c) {
        '_'
    } else {
        c
    }
}

/// The text with each character replaced by what stands for it in a file name.
pub open spec fn sanitized(text: Seq<char>) -> Seq<char> {
    text.map_values(|c: char| sanitized_char(c))
}

/// A sanitized text holds no character that may not stand in a file name.
pub proof fn lemma_sanitized_is_safe(text: Seq<char>)
    ensures
        sanitized(text).len() == text.len(),
        forall|i: int| 0 <= i < text.len() ==> !is_unsafe(#[trigger] sanitized(text)[i]),
{
}

/// Sanitizing a text that is safe already leaves it as it is.
pub proof fn lemma_sanitized_keeps_safe(text: Seq<char>)
    requires
        forall|i: int| 0 <= i < text.len() ==> !is_unsafe(text[i]),
    ensures
        sanitized(text) == text,
{
    assert(sanitized(text) =~= text);
}

/// The extension of the file: that of the best stream, the one that a
/// transfer selects; without such a stream that of the first stream; without
/// any stream `mp4`.
pub open spec fn extension_for(formats: Seq<VideoFormatView>) -> Seq<char> {
    match best_index(formats) {
        Some(at) => formats[at].ext,
        None => if formats.len() > 0 {
            formats[0].ext
        } else {
            "mp4"@
        },
    }
}

/// The file name that the template gives: `%(title)s` replaced by the title,
/// then `%(id)s` by the identifier, then `%(uploader)s` by the uploader or
/// `Unknown`, then `%(ext)s` by the extension, each value sanitized before it
/// goes in.
pub open spec fn filename_for(
    template: Seq<char>,
    title: Seq<char>,
    id: Seq<char>,
    uploader: Option<Seq<char>>,
    ext: Seq<char>,
) -> Seq<char> {
    let with_title = replaced(template, "%(title)s"@, sanitized(title));
    let with_id = replaced(with_title, "%(id)s"@, sanitized(id));
    let with_uploader = replaced(
        with_id,
        "%(uploader)s"@,
        sanitized(
            match uploader {
                Some(name) => name,
                None => "Unknown"@,
            },
        ),
    );
    replaced(with_uploader, "%(ext)s"@, sanitized(ext))
}

fn replacement_for(c: char) -> (r: char)
    ensures
        r == sanitized_char(c),
{
    if c == '/' || c == '\\' {
        '-'
    } else if c == '<' || c == '>' || c == ':' || c == '"' || c == '|' || c == '?' || c == '*' {
        '_'
    } else if c <= '\u{1f}' || (c >= '\u{7f}' && c <= '\u{9f}') {
        '_'
    } else {
        c
    }
}

/// Replaces each character that may not stand in a file name.
pub fn sanitize_filename(filename: &str) -> (r: String)
    ensures
        r@ == sanitized(filename@),
{
    let t = chars_of(filename);
    let mut out: Vec<char> = Vec::new();
    let mut i: usize = 0;
    while i < t.len()
        invariant
            i <= t.len(),
            out@ == sanitized(t@.take(i as int)),
        decreases t.len() - i,
    {
        out.push(replacement_for(t[i]));
        i += 1;
        assert(out@ =~= sanitized(t@.take(i as int)));
    }
    assert(t@.take(t.len() as int) =~= t@);
    text_of(&out)
}

/// The file name that `template` gives for the video.
pub fn generate_output_filename(template: &str, metadata: &VideoMetadata) -> (r: String)
    ensures
        r@ == filename_for(
            template@,
            metadata@.title,
            metadata@.id,
            metadata@.uploader,
            extension_for(metadata@.formats),
        ),
{
    let ext: String = match best_of(metadata.formats.as_slice()) {
        Ok(best) => {
            proof {
                let at = best_index(metadata@.formats)->0;
                lemma_best_is_first_maximum(metadata@.formats);
                assert(metadata@.formats[at] == metadata.formats@[at]@);
            }
            best.ext.clone()
        },
        Err(_) => if metadata.formats.len() > 0 {
            proof {
                assert(metadata@.formats[0] == metadata.formats@[0]@);
            }
            metadata.formats[0].ext.clone()
        } else {
            owned("mp4")
        },
    };
    assert(ext@ == extension_for(metadata@.formats));
    let title = sanitize_filename(metadata.title.as_str());
    let with_title = replace_all(template, "%(title)s", title.as_str());
    let id = sanitize_filename(metadata.id.as_str());
    let with_id = replace_all(with_title.as_str(), "%(id)s", id.as_str());
    let uploader = match &metadata.uploader {
        Some(name) => sanitize_filename(name.as_str()),
        None => sanitize_filename("Unknown"),
    };
    let with_uploader = replace_all(with_id.as_str(), "%(uploader)s", uploader.as_str());
    let clean_ext = sanitize_filename(ext.as_str());
    replace_all(with_uploader.as_str(), "%(ext)s", clean_ext.as_str())
}

} // verus!
