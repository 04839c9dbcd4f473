//! Turning a media file's bytes into a data URL that a web view can play.
use vstd::prelude::*;
use crate::commands::{lower_of, lowercase};
use crate::strings::{ends_with, str_ends_with};

verus! {

/// Videos larger than this (100 MiB) are not inlined.
pub const MAX_INLINE_VIDEO_BYTES: u64 = 104857600;

/// What base64's standard engine makes of some bytes.
pub uninterp spec fn base64_of(b: Seq<u8>) -> Seq<char>;

/// Relies on `base64::Engine::encode` with the `STANDARD` engine: padded
/// output, four characters for each started group of three bytes.
#[verifier::external_body]
fn encode_base64(b: &Vec<u8>) -> (r: String)
    requires
        b@.len() <= usize::MAX / 2,
    ensures
        r@ == base64_of(b@),
        r@.len() == 4 * ((b@.len() + 2) / 3),
{
    base64::Engine::encode(&base64::engine::general_purpose::STANDARD, b.as_slice())
}

/// The MIME type of a video, from its path in lower case; MP4 by default.
pub open spec fn video_mime(p: Seq<char>) -> Seq<char> {
    if ends_with(p, ".mp4"@) {
        "video/mp4"@
    } else if ends_with(p, ".webm"@) {
        "video/webm"@
    } else if ends_with(p, ".ogg"@) || ends_with(p, ".ogv"@) {
        "video/ogg"@
    } else if ends_with(p, ".avi"@) {
        "video/x-msvideo"@
    } else if ends_with(p, ".mov"@) {
        "video/quicktime"@
    } else if ends_with(p, ".mkv"@) {
        "video/x-matroska"@
    } else {
        "video/mp4"@
    }
}

/// The MIME type of a preview, from its path in lower case.
pub open spec fn preview_mime(p: Seq<char>) -> Seq<char> {
    if ends_with(p, ".jpg"@) || ends_with(p, ".jpeg"@) {
        "image/jpeg"@
    } else if ends_with(p, ".png"@) {
        "image/png"@
    } else if ends_with(p, ".gif"@) {
        "image/gif"@
    } else if ends_with(p, ".webp"@) {
        "image/webp"@
    } else if ends_with(p, ".mp4"@) {
        "video/mp4"@
    } else {
        "application/octet-stream"@
    }
}

pub fn video_mime_for(lower_path: &str) -> (r: &'static str)
    ensures
        r@ == video_mime(lower_path@),
{
    if str_ends_with(lower_path, ".mp4") {
        "video/mp4"
    } else if str_ends_with(lower_path, ".webm") {
        "video/webm"
    } else if str_ends_with(lower_path, ".ogg") || str_ends_with(lower_path, ".ogv") {
        "video/ogg"
    } else if str_ends_with(lower_path, ".avi") {
        "video/x-msvideo"
    } else if str_ends_with(lower_path, ".mov") {
        "video/quicktime"
    } else if str_ends_with(lower_path, ".mkv") {
        "video/x-matroska"
    } else {
        "video/mp4"
    }
}

pub fn preview_mime_for(lower_path: &str) -> (r: &'static str)
    ensures
        r@ == preview_mime(lower_path@),
{
    if str_ends_with(lower_path, ".jpg") || str_ends_with(lower_path, ".jpeg") {
        "image/jpeg"
    } else if str_ends_with(lower_path, ".png") {
        "image/png"
    } else if str_ends_with(lower_path, ".gif") {
        "image/gif"
    } else if str_ends_with(lower_path, ".webp") {
        "image/webp"
    } else if str_ends_with(lower_path, ".mp4") {
        "video/mp4"
    } else {
        "application/octet-stream"
    }
}

/// The MIME type of the video at `path`, whose case does not matter.
pub fn video_mime_of(path: &str) -> (r: &'static str)
    ensures
        r@ == video_mime(lower_of(path@)),
{
    let p = lowercase(path);
    video_mime_for(p.as_str())
}

/// The MIME type of the preview at `path`, whose case does not matter.
pub fn preview_mime_of(path: &str) -> (r: &'static str)
    ensures
        r@ == preview_mime(lower_of(path@)),
{
    let p = lowercase(path);
    preview_mime_for(p.as_str())
}

/// `data:<mime>;base64,<the bytes in base64>`.
pub fn data_url(mime: &str, bytes: &Vec<u8>) -> (r: String)
    requires
        bytes@.len() <= usize::MAX / 2,
    ensures
        r@ == "data:"@ + mime@ + ";base64,"@ + base64_of(bytes@),
{
    let encoded = encode_base64(bytes);
    let mut r = String::from_str("data:");
    r.append(mime);
    r.append(";base64,");
    r.append(encoded.as_str());
    r
}

/// Whether a video of `size` bytes may be inlined.
pub fn fits_inline(size: u64) -> (r: bool)
    ensures
        r == (size <= MAX_INLINE_VIDEO_BYTES),
{
    size <= MAX_INLINE_VIDEO_BYTES
}

/// A path with each backslash turned into a slash.
pub open spec fn forward_slashes(p: Seq<char>) -> Seq<char> {
    p.map_values(|c: char| if c == '\\' { '/' } else { c })
}

pub fn normalize_separators(path: &str) -> (r: String)
    ensures
        r@ == forward_slashes(path@),
{
    let n = path.unicode_len();
    let mut r = String::new();
    let mut i: usize = 0;
    proof {
        reveal_strlit("/");
    }
    while i < n
        invariant
            n == path@.len(),
            i <= n,
            r@ == forward_slashes(path@.subrange(0, i as int)),
            "/"@ == seq!['/'],
        decreases n - i,
    {
        let c = path.get_char(i);
        if c == '\\' {
            r.append("/");
        } else {
            r.append(path.substring_char(i, i + 1));
        }
        assert(forward_slashes(path@.subrange(0, i + 1 as int)) =~= forward_slashes(
            path@.subrange(0, i as int),
        ).push(if c == '\\' { '/' } else { c }));
        i = i + 1;
    }
    assert(path@.subrange(0, n as int) =~= path@);
    r
}

} // verus!
