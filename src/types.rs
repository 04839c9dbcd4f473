//! The records that the application's commands take and give.
use vstd::prelude::*;
use crate::strings::{join_path, joined, owned};

verus! {

/// A denoising request.
pub struct DenoiseOptions {
    pub input_path: String,
    pub output_path: String,
}

/// A conversion request; `format` names the target container.
pub struct ConvertOptions {
    pub input_path: String,
    pub output_path: String,
    pub format: String,
}

/// A video that the user picked.
pub struct VideoInfo {
    pub path: String,
    pub name: String,
    pub size: u64,
}

/// An error of the encoder, as the user sees it.
pub struct FFmpegError {
    pub message: String,
}

/// An error of the denoiser, as the user sees it.
pub struct DeepFilterError {
    pub message: String,
}

/// The user's settings.
pub struct AppSettings {
    pub workspace_path: String,
}

/// The default workspace under the home directory `home`:
/// `<home>/Documents/RipleyFlow`, or empty where no home is known.
pub open spec fn default_workspace(home: Option<Seq<char>>, sep: Seq<char>) -> Seq<char> {
    match home {
        Some(h) => joined(joined(h, "Documents"@, sep), "RipleyFlow"@, sep),
        None => Seq::empty(),
    }
}

impl AppSettings {
    /// The settings used before any are saved.
    pub fn defaults_for(home: Option<&str>, sep: &str) -> (r: AppSettings)
        ensures
            r.workspace_path@ == default_workspace(
                match home {
                    Some(h) => Some(h@),
                    None => None,
                },
                sep@,
            ),
    {
        match home {
            Some(h) => {
                let docs = join_path(h, "Documents", sep);
                AppSettings { workspace_path: join_path(docs.as_str(), "RipleyFlow", sep) }
            },
            None => AppSettings { workspace_path: String::new() },
        }
    }
}

} // verus!
