//! Where the external tools are found: in the application's bundled
//! resources first, then on the `PATH`.
use vstd::prelude::*;
use crate::job::StageError;
use crate::pipeline::Tool;
use crate::strings::{join_path, joined, owned};

verus! {

pub open spec fn tool_name(t: Tool) -> Seq<char> {
    match t {
        Tool::Encoder => "ffmpeg"@,
        Tool::Denoiser => "deep-filter"@,
    }
}

/// The file name of a tool's executable; Windows adds `.exe`.
pub open spec fn executable_name(t: Tool, windows: bool) -> Seq<char> {
    if windows {
        tool_name(t) + ".exe"@
    } else {
        tool_name(t)
    }
}

pub fn executable_name_of(t: Tool, windows: bool) -> (r: String)
    ensures
        r@ == executable_name(t, windows),
{
    let mut r = match t {
        Tool::Encoder => owned("ffmpeg"),
        Tool::Denoiser => owned("deep-filter"),
    };
    if windows {
        r.append(".exe");
    }
    r
}

/// `<resources>/binaries/<tool>/<executable>`.
pub open spec fn bundled_location(resources: Seq<char>, t: Tool, windows: bool, sep: Seq<char>) -> Seq<char> {
    joined(joined(joined(resources, "binaries"@, sep), tool_name(t), sep), executable_name(t, windows), sep)
}

/// Where a tool is looked for among the bundled resources.
pub fn bundled_path(resources: &str, t: Tool, windows: bool, sep: &str) -> (r: String)
    ensures
        r@ == bundled_location(resources@, t, windows, sep@),
{
    let bin = join_path(resources, "binaries", sep);
    let dir = match t {
        Tool::Encoder => join_path(bin.as_str(), "ffmpeg", sep),
        Tool::Denoiser => join_path(bin.as_str(), "deep-filter", sep),
    };
    let exe = executable_name_of(t, windows);
    join_path(dir.as_str(), exe.as_str(), sep)
}

/// The bundled executable where it exists, else the one found on the `PATH`,
/// else `BinaryNotFound` naming the bundled location that was looked at.
pub fn resolve_binary(bundled: String, bundled_exists: bool, on_path: Option<String>) -> (r: Result<String, StageError>)
    ensures
        bundled_exists ==> r == Ok::<String, StageError>(bundled),
        !bundled_exists && on_path is Some ==> r == Ok::<String, StageError>(on_path->Some_0),
        !bundled_exists && on_path is None ==> r == Err::<String, StageError>(StageError::BinaryNotFound(bundled)),
{
    if bundled_exists {
        Ok(bundled)
    } else {
        match on_path {
            Some(p) => Ok(p),
            None => Err(StageError::BinaryNotFound(bundled)),
        }
    }
}

} // verus!
