use ripleyflow::binaries::{bundled_path, executable_name_of, resolve_binary};
use ripleyflow::commands::{
    conversion_args_for, conversion_args_of, format_timestamp, preview_args_for, preview_kind_of,
    PreviewKind,
};
use ripleyflow::denoise::denoise_plan;
use ripleyflow::job::StageError;
use ripleyflow::media::{
    data_url, fits_inline, normalize_separators, preview_mime_of, video_mime_of,
};
use ripleyflow::pipeline::Tool;
use ripleyflow::types::AppSettings;

fn strs(v: &[&str]) -> Vec<String> {
    v.iter().map(|s| s.to_string()).collect()
}

#[test]
fn conversion_to_mp4_ignores_case() {
    let args = conversion_args_of("in.mov", "out.mp4", "MP4");
    assert_eq!(
        args,
        strs(&[
            "-i", "in.mov", "-c:v", "libx264", "-c:a", "aac", "-preset", "medium", "-crf", "23",
            "-movflags", "+faststart", "-pix_fmt", "yuv420p", "-profile:v", "high", "-level",
            "4.0", "-y", "out.mp4",
        ])
    );
}

#[test]
fn conversion_to_other_containers() {
    assert_eq!(
        conversion_args_for("a", "b", "avi"),
        strs(&["-i", "a", "-c:v", "libx264", "-c:a", "libmp3lame", "-y", "b"])
    );
    assert_eq!(
        conversion_args_of("a", "b", "WebM"),
        strs(&[
            "-i", "a", "-c:v", "libvpx-vp9", "-crf", "30", "-b:v", "0", "-c:a", "libopus", "-b:a",
            "128k", "-pix_fmt", "yuv420p", "-y", "b",
        ])
    );
    assert_eq!(
        conversion_args_for("a", "b", "gif"),
        strs(&["-i", "a", "-c:v", "libx264", "-c:a", "aac", "-y", "b"])
    );
}

#[test]
fn preview_kinds() {
    assert_eq!(preview_kind_of("Thumbnail"), Some(PreviewKind::Thumbnail));
    assert_eq!(preview_kind_of("CLIP"), Some(PreviewKind::Clip));
    assert_eq!(preview_kind_of("poster"), None);
}

#[test]
fn timestamps_are_written_in_full() {
    assert_eq!(format_timestamp(100), "00:00:01.00");
    assert_eq!(format_timestamp(6150), "00:01:01.50");
    assert_eq!(format_timestamp(37230050), "103:25:00.50");
}

#[test]
fn preview_arguments() {
    assert_eq!(
        preview_args_for("in.mp4", "t.jpg", PreviewKind::Thumbnail, None),
        strs(&["-i", "in.mp4", "-ss", "00:00:01.00", "-vframes", "1", "-q:v", "2", "-y", "t.jpg"])
    );
    assert_eq!(
        preview_args_for("in.mp4", "c.mp4", PreviewKind::Clip, Some(6150)),
        strs(&[
            "-i", "in.mp4", "-ss", "00:01:01.50", "-t", "5", "-c:v", "libx264", "-c:a", "aac",
            "-y", "c.mp4",
        ])
    );
}

#[test]
fn denoise_plan_lays_out_the_workspace() {
    let plan = denoise_plan("/v/clip.mp4", "/o/clip_clean.mp4", "/tmp", Some("clip"), "/");
    assert_eq!(plan.workspace, "/tmp/ripleyflow_denoise_clip");
    assert_eq!(
        plan.dirs,
        strs(&["/tmp/ripleyflow_denoise_clip", "/tmp/ripleyflow_denoise_clip/denoised"])
    );
    assert_eq!(plan.stages.len(), 3);
    assert_eq!(
        plan.stages[0].args,
        strs(&[
            "-y", "-i", "/v/clip.mp4", "-vn", "-ar", "48000",
            "/tmp/ripleyflow_denoise_clip/clip.wav",
        ])
    );
    assert_eq!(
        plan.stages[1].args,
        strs(&[
            "/tmp/ripleyflow_denoise_clip/clip.wav", "-D", "-o",
            "/tmp/ripleyflow_denoise_clip/denoised",
        ])
    );
    assert_eq!(
        plan.stages[0].artifact.as_deref(),
        Some("/tmp/ripleyflow_denoise_clip/clip.wav")
    );
    assert_eq!(plan.stages[2].artifact, None);
    assert_eq!(plan.stages[1].tool, Tool::Denoiser);
    assert_eq!(
        plan.stages[1].artifact.as_deref(),
        Some("/tmp/ripleyflow_denoise_clip/denoised/clip.wav")
    );
    assert_eq!(plan.stages[2].args.len(), 35);
    assert_eq!(plan.stages[2].args[4], "/tmp/ripleyflow_denoise_clip/denoised/clip.wav");
    assert_eq!(plan.stages[2].args[34], "/o/clip_clean.mp4");
    assert_eq!((plan.stages[2].low, plan.stages[2].high), (6600, 10000));
    assert_eq!(plan.output, "/o/clip_clean.mp4");
}

#[test]
fn denoise_plan_without_a_stem_uses_video() {
    let plan = denoise_plan("/v/", "/o/x.mp4", "/tmp/", None, "/");
    assert_eq!(plan.workspace, "/tmp/ripleyflow_denoise_video");
}

#[test]
fn mime_types_follow_the_extension() {
    assert_eq!(video_mime_of("A.MKV"), "video/x-matroska");
    assert_eq!(video_mime_of("a.ogv"), "video/ogg");
    assert_eq!(video_mime_of("a.bin"), "video/mp4");
    assert_eq!(preview_mime_of("x.JPEG"), "image/jpeg");
    assert_eq!(preview_mime_of("x.webp"), "image/webp");
    assert_eq!(preview_mime_of("x.txt"), "application/octet-stream");
}

#[test]
fn data_url_holds_base64() {
    assert_eq!(data_url("video/mp4", &b"abc".to_vec()), "data:video/mp4;base64,YWJj");
    assert_eq!(data_url("image/png", &b"ab".to_vec()), "data:image/png;base64,YWI=");
    assert_eq!(data_url("image/png", &Vec::new()), "data:image/png;base64,");
}

#[test]
fn inline_size_limit() {
    assert!(fits_inline(100 * 1024 * 1024));
    assert!(!fits_inline(100 * 1024 * 1024 + 1));
}

#[test]
fn backslashes_become_slashes() {
    assert_eq!(normalize_separators("C:\\v\\a.mp4"), "C:/v/a.mp4");
    assert_eq!(normalize_separators("/plain/path"), "/plain/path");
}

#[test]
fn binaries_are_found_bundled_then_on_path() {
    assert_eq!(bundled_path("/res", Tool::Encoder, false, "/"), "/res/binaries/ffmpeg/ffmpeg");
    assert_eq!(
        bundled_path("C:\\app", Tool::Denoiser, true, "\\"),
        "C:\\app\\binaries\\deep-filter\\deep-filter.exe"
    );
    assert_eq!(executable_name_of(Tool::Encoder, true), "ffmpeg.exe");
    assert_eq!(
        resolve_binary("/b".to_string(), true, Some("/p".to_string())),
        Ok("/b".to_string())
    );
    assert_eq!(
        resolve_binary("/b".to_string(), false, Some("/p".to_string())),
        Ok("/p".to_string())
    );
    assert_eq!(
        resolve_binary("/b".to_string(), false, None),
        Err(StageError::BinaryNotFound("/b".to_string()))
    );
    let bundled = bundled_path("/res", Tool::Denoiser, false, "/");
    assert_eq!(
        resolve_binary(bundled, false, None),
        Err(StageError::BinaryNotFound("/res/binaries/deep-filter/deep-filter".to_string()))
    );
}

#[test]
fn default_settings() {
    let s = AppSettings::defaults_for(Some("/home/u"), "/");
    assert_eq!(s.workspace_path, "/home/u/Documents/RipleyFlow");
    let s = AppSettings::defaults_for(None, "/");
    assert_eq!(s.workspace_path, "");
}
