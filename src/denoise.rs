//! The denoising job: extract the audio, denoise it, and put it back under
//! the input video.
use vstd::prelude::*;
use crate::pipeline::{Pipeline, StageSpec, Tool};
use crate::strings::{join_path, joined, owned, views};

verus! {

/// The name that the job's files take: the input's file stem, or `video`.
pub open spec fn base_name(stem: Option<Seq<char>>) -> Seq<char> {
    match stem {
        Some(s) => s,
        None => "video"@,
    }
}

/// The job's workspace under the system's temporary directory `temp`.
pub open spec fn workspace_of(temp: Seq<char>, base: Seq<char>, sep: Seq<char>) -> Seq<char> {
    joined(temp, "ripleyflow_denoise_"@ + base, sep)
}

/// Stage one: the audio track of `input`, at 48 kHz, into `wav`.
pub open spec fn extract_args(input: Seq<char>, wav: Seq<char>) -> Seq<Seq<char>> {
    seq!["-y"@, "-i"@, input, "-vn"@, "-ar"@, "48000"@, wav]
}

/// Stage two: the denoiser on `wav`, writing into `dir`.
pub open spec fn denoise_args(wav: Seq<char>, dir: Seq<char>) -> Seq<Seq<char>> {
    seq![wav, "-D"@, "-o"@, dir]
}

/// Stage three: the video of `input` with the audio of `wav`, into `output`.
pub open spec fn combine_args(input: Seq<char>, wav: Seq<char>, output: Seq<char>) -> Seq<Seq<char>> {
    seq![
        "-y"@, "-i"@, input, "-i"@, wav, "-map"@, "0:v"@, "-map"@, "1:a"@, "-c:v"@, "libx264"@,
        "-c:a"@, "aac"@, "-preset"@, "medium"@, "-crf"@, "23"@, "-movflags"@, "+faststart"@,
        "-pix_fmt"@, "yuv420p"@, "-profile:v"@, "high"@, "-level"@, "4.0"@, "-b:a"@, "192k"@,
        "-strict"@, "-2"@, "-shortest"@, "-vf"@, "scale=iw:ih"@, "-max_muxing_queue_size"@,
        "1024"@, output,
    ]
}

fn extract_args_for(input: &str, wav: &str) -> (r: Vec<String>)
    ensures
        views(r@) == extract_args(input@, wav@),
{
    let r = vec![owned("-y"), owned("-i"), owned(input), owned("-vn"), owned("-ar"), owned("48000"), owned(wav)];
    assert(views(r@) =~= extract_args(input@, wav@));
    r
}

fn denoise_args_for(wav: &str, dir: &str) -> (r: Vec<String>)
    ensures
        views(r@) == denoise_args(wav@, dir@),
{
    let r = vec![owned(wav), owned("-D"), owned("-o"), owned(dir)];
    assert(views(r@) =~= denoise_args(wav@, dir@));
    r
}

fn combine_args_for(input: &str, wav: &str, output: &str) -> (r: Vec<String>)
    ensures
        views(r@) == combine_args(input@, wav@, output@),
{
    let r = vec![
        owned("-y"), owned("-i"), owned(input), owned("-i"), owned(wav), owned("-map"),
        owned("0:v"), owned("-map"), owned("1:a"), owned("-c:v"), owned("libx264"),
        owned("-c:a"), owned("aac"), owned("-preset"), owned("medium"), owned("-crf"),
        owned("23"), owned("-movflags"), owned("+faststart"), owned("-pix_fmt"),
        owned("yuv420p"), owned("-profile:v"), owned("high"), owned("-level"), owned("4.0"),
        owned("-b:a"), owned("192k"), owned("-strict"), owned("-2"), owned("-shortest"),
        owned("-vf"), owned("scale=iw:ih"), owned("-max_muxing_queue_size"), owned("1024"),
        owned(output),
    ];
    assert(views(r@) =~= combine_args(input@, wav@, output@));
    r
}

/// The plan of a denoising job on `input_path`, written to `output_path`.
/// `temp_root` is the system's temporary directory, `stem` the input's file
/// stem, and `sep` the platform's path separator.
///
/// The workspace is `<temp_root>/ripleyflow_denoise_<base>`, with a
/// `denoised` directory in it. The stages take 0-33%, 33-66% and 66-100% of
/// the progress; the extracted audio is checked before the denoiser runs,
/// and the denoised audio before the last stage runs.
pub fn denoise_plan(input_path: &str, output_path: &str, temp_root: &str, stem: Option<&str>, sep: &str) -> (r:
    Pipeline)
    ensures
        ({
            let base = base_name(
                match stem {
                    Some(s) => Some(s@),
                    None => None,
                },
            );
            let ws = workspace_of(temp_root@, base, sep@);
            let dd = joined(ws, "denoised"@, sep@);
            let wav = joined(ws, base + ".wav"@, sep@);
            let dwav = joined(dd, base + ".wav"@, sep@);
            &&& r.wf()
            &&& r.workspace@ == ws
            &&& views(r.dirs@) == seq![ws, dd]
            &&& r.output@ == output_path@
            &&& r.stages@.len() == 3
            &&& r.stages@[0].tool == Tool::Encoder
            &&& r.stages@[1].tool == Tool::Denoiser
            &&& r.stages@[2].tool == Tool::Encoder
            &&& views(r.stages@[0].args@) == extract_args(input_path@, wav)
            &&& views(r.stages@[1].args@) == denoise_args(wav, dd)
            &&& views(r.stages@[2].args@) == combine_args(input_path@, dwav, output_path@)
            &&& r.stages@[0].low == 0 && r.stages@[0].high == 3300
            &&& r.stages@[1].low == 3300 && r.stages@[1].high == 6600
            &&& r.stages@[2].low == 6600 && r.stages@[2].high == 10000
            &&& r.stages@[0].artifact is Some && r.stages@[0].artifact->Some_0@ == wav
            &&& r.stages@[1].artifact is Some && r.stages@[1].artifact->Some_0@ == dwav
            &&& r.stages@[2].artifact is None
            &&& r.stages@[0].fine_progress && !r.stages@[1].fine_progress
                && r.stages@[2].fine_progress
        }),
{
    let base = match stem {
        Some(s) => owned(s),
        None => owned("video"),
    };
    let mut dir_name = owned("ripleyflow_denoise_");
    dir_name.append(base.as_str());
    let ws = join_path(temp_root, dir_name.as_str(), sep);
    let dd = join_path(ws.as_str(), "denoised", sep);
    let mut file = base.clone();
    file.append(".wav");
    let wav = join_path(ws.as_str(), file.as_str(), sep);
    let dwav = join_path(dd.as_str(), file.as_str(), sep);
    let s0 = StageSpec {
        tool: Tool::Encoder,
        args: extract_args_for(input_path, wav.as_str()),
        low: 0,
        high: 3300,
        artifact: Some(wav.clone()),
        fine_progress: true,
    };
    let s1 = StageSpec {
        tool: Tool::Denoiser,
        args: denoise_args_for(wav.as_str(), dd.as_str()),
        low: 3300,
        high: 6600,
        artifact: Some(dwav.clone()),
        fine_progress: false,
    };
    let s2 = StageSpec {
        tool: Tool::Encoder,
        args: combine_args_for(input_path, dwav.as_str(), output_path),
        low: 6600,
        high: 10000,
        artifact: None,
        fine_progress: true,
    };
    let dirs = vec![ws.clone(), dd];
    let r = Pipeline { workspace: ws, dirs, stages: vec![s0, s1, s2], output: owned(output_path) };
    assert(views(r.dirs@) =~= seq![r.workspace@, r.dirs@[1]@]);
    r
}

} // verus!
