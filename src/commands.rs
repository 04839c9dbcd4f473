//! The jobs that the application runs: the encoder's argument lists for a
//! conversion, a preview and a denoising job, and the plan of that job.
use vstd::prelude::*;
use crate::pipeline::{Pipeline, StageSpec, Tool};
use crate::strings::{
    append_two_wide, join_path, joined, lemma_views_concat, owned, str_eq, two_wide, views,
};

verus! {

/// What `str::to_lowercase` returns for a string.
pub uninterp spec fn lower_of(s: Seq<char>) -> Seq<char>;

/// Relies on `str::to_lowercase`: the lower-case form depends on the
/// characters alone, and an empty string stays empty.
#[verifier::external_body]
pub(crate) fn lowercase(s: &str) -> (r: String)
    ensures
        r@ == lower_of(s@),
        s@.len() == 0 ==> r@.len() == 0,
{
    s.to_lowercase()
}

/// Encoder options for a target container, named in lower case.
pub open spec fn codec_args(format: Seq<char>) -> Seq<Seq<char>> {
    if format == "mp4"@ {
        seq![
            "-c:v"@, "libx264"@, "-c:a"@, "aac"@, "-preset"@, "medium"@, "-crf"@, "23"@,
            "-movflags"@, "+faststart"@, "-pix_fmt"@, "yuv420p"@, "-profile:v"@, "high"@,
            "-level"@, "4.0"@,
        ]
    } else if format == "avi"@ {
        seq!["-c:v"@, "libx264"@, "-c:a"@, "libmp3lame"@]
    } else if format == "webm"@ {
        seq![
            "-c:v"@, "libvpx-vp9"@, "-crf"@, "30"@, "-b:v"@, "0"@, "-c:a"@, "libopus"@,
            "-b:a"@, "128k"@, "-pix_fmt"@, "yuv420p"@,
        ]
    } else {
        seq!["-c:v"@, "libx264"@, "-c:a"@, "aac"@]
    }
}

/// The arguments of a conversion of `input` to `output`.
pub open spec fn conversion_args(input: Seq<char>, output: Seq<char>, format: Seq<char>) -> Seq<
    Seq<char>,
> {
    seq!["-i"@, input] + codec_args(format) + seq!["-y"@, output]
}

fn codec_args_for(format: &str) -> (r: Vec<String>)
    ensures
        views(r@) == codec_args(format@),
{
    let r = if str_eq(format, "mp4") {
        vec![
            owned("-c:v"), owned("libx264"), owned("-c:a"), owned("aac"), owned("-preset"),
            owned("medium"), owned("-crf"), owned("23"), owned("-movflags"), owned("+faststart"),
            owned("-pix_fmt"), owned("yuv420p"), owned("-profile:v"), owned("high"),
            owned("-level"), owned("4.0"),
        ]
    } else if str_eq(format, "avi") {
        vec![owned("-c:v"), owned("libx264"), owned("-c:a"), owned("libmp3lame")]
    } else if str_eq(format, "webm") {
        vec![
            owned("-c:v"), owned("libvpx-vp9"), owned("-crf"), owned("30"), owned("-b:v"),
            owned("0"), owned("-c:a"), owned("libopus"), owned("-b:a"), owned("128k"),
            owned("-pix_fmt"), owned("yuv420p"),
        ]
    } else {
        vec![owned("-c:v"), owned("libx264"), owned("-c:a"), owned("aac")]
    };
    assert(views(r@) =~= codec_args(format@));
    r
}

/// The encoder's arguments for converting `input_path` to `output_path`,
/// with `format` already in lower case.
pub fn conversion_args_for(input_path: &str, output_path: &str, format: &str) -> (r: Vec<String>)
    ensures
        views(r@) == conversion_args(input_path@, output_path@, format@),
{
    let mut r = vec![owned("-i"), owned(input_path)];
    let mut codec = codec_args_for(format);
    let ghost head = r@;
    let ghost tail = codec@;
    r.append(&mut codec);
    let ghost mid = r@;
    r.push(owned("-y"));
    r.push(owned(output_path));
    proof {
        lemma_views_concat(head, tail);
        assert(views(head) =~= seq!["-i"@, input_path@]);
        assert(views(r@) =~= views(mid) + seq!["-y"@, output_path@]);
    }
    r
}

/// The encoder's arguments for converting `input_path` to `output_path` in
/// the container `format`, whose case does not matter.
pub fn conversion_args_of(input_path: &str, output_path: &str, format: &str) -> (r: Vec<String>)
    ensures
        views(r@) == conversion_args(input_path@, output_path@, lower_of(format@)),
{
    let f = lowercase(format);
    conversion_args_for(input_path, output_path, f.as_str())
}

/// What a preview is.
#[derive(Debug, Clone, Copy, PartialEq, Eq, Structural)]
pub enum PreviewKind {
    /// One frame.
    Thumbnail,
    /// Five seconds.
    Clip,
}

/// A preview kind named in lower case; other names are refused.
pub open spec fn preview_kind_named(name: Seq<char>) -> Option<PreviewKind> {
    if name == "thumbnail"@ {
        Some(PreviewKind::Thumbnail)
    } else if name == "clip"@ {
        Some(PreviewKind::Clip)
    } else {
        None
    }
}

pub fn preview_kind_for(name: &str) -> (r: Option<PreviewKind>)
    ensures
        r == preview_kind_named(name@),
{
    if str_eq(name, "thumbnail") {
        Some(PreviewKind::Thumbnail)
    } else if str_eq(name, "clip") {
        Some(PreviewKind::Clip)
    } else {
        None
    }
}

/// The preview kind named `name`, whose case does not matter.
pub fn preview_kind_of(name: &str) -> (r: Option<PreviewKind>)
    ensures
        r == preview_kind_named(lower_of(name@)),
{
    let n = lowercase(name);
    preview_kind_for(n.as_str())
}

/// A time given in hundredths of a second, written `HH:MM:SS.cc`.
pub open spec fn timestamp_text(cs: nat) -> Seq<char> {
    let secs = cs / 100;
    two_wide(secs / 3600) + seq![':'] + two_wide((secs % 3600) / 60) + seq![':'] + two_wide(secs % 60)
        + seq!['.'] + two_wide(cs % 100)
}

pub fn format_timestamp(cs: u64) -> (r: String)
    ensures
        r@ == timestamp_text(cs as nat),
{
    let secs = cs / 100;
    let mut r = String::new();
    append_two_wide(&mut r, secs / 3600);
    r.append(":");
    append_two_wide(&mut r, (secs % 3600) / 60);
    r.append(":");
    append_two_wide(&mut r, secs % 60);
    r.append(".");
    append_two_wide(&mut r, cs % 100);
    proof {
        reveal_strlit(":");
        reveal_strlit(".");
    }
    assert(r@ =~= timestamp_text(cs as nat));
    r
}

/// Where a preview starts when no time is given: one second in.
pub const DEFAULT_PREVIEW_AT_CS: u64 = 100;

/// The arguments of a preview of `input` written to `output`.
pub open spec fn preview_args(input: Seq<char>, output: Seq<char>, kind: PreviewKind, at: Seq<char>) -> Seq<
    Seq<char>,
> {
    seq!["-i"@, input] + match kind {
        PreviewKind::Thumbnail => seq!["-ss"@, at, "-vframes"@, "1"@, "-q:v"@, "2"@],
        PreviewKind::Clip => seq!["-ss"@, at, "-t"@, "5"@, "-c:v"@, "libx264"@, "-c:a"@, "aac"@],
    } + seq!["-y"@, output]
}

/// The encoder's arguments for a preview starting `at_cs` hundredths of a
/// second into the input (one second where none is given).
pub fn preview_args_for(input_path: &str, output_path: &str, kind: PreviewKind, at_cs: Option<u64>) -> (r: Vec<String>)
    ensures
        views(r@) == preview_args(
            input_path@,
            output_path@,
            kind,
            timestamp_text(
                match at_cs {
                    Some(t) => t as nat,
                    None => DEFAULT_PREVIEW_AT_CS as nat,
                },
            ),
        ),
{
    let at = match at_cs {
        Some(t) => t,
        None => DEFAULT_PREVIEW_AT_CS,
    };
    let ts = format_timestamp(at);
    let r = match kind {
        PreviewKind::Thumbnail => vec![
            owned("-i"), owned(input_path), owned("-ss"), ts, owned("-vframes"), owned("1"),
            owned("-q:v"), owned("2"), owned("-y"), owned(output_path),
        ],
        PreviewKind::Clip => vec![
            owned("-i"), owned(input_path), owned("-ss"), ts, owned("-t"), owned("5"),
            owned("-c:v"), owned("libx264"), owned("-c:a"), owned("aac"), owned("-y"),
            owned(output_path),
        ],
    };
    assert(views(r@) =~= preview_args(input_path@, output_path@, kind, timestamp_text(at as nat)));
    r
}

} // verus!
