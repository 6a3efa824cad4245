use vstd::prelude::*;
use crate::errors::CoreError;

verus! {

/// Builds the argument list for the extractor's metadata query: a single-item
/// JSON dump with warnings suppressed and playlist expansion disabled, with
/// `--proxy <url>` appended exactly when a proxy was detected.
pub fn info_args(url: &str, proxy: Option<&str>) -> (r: Vec<String>)
    ensures
        proxy is None ==> r@.len() == 4,
        proxy is Some ==> r@.len() == 6,
        r@[0]@ == "--dump-json"@,
        r@[1]@ == "--no-warnings"@,
        r@[2]@ == "--no-playlist"@,
        r@[3]@ == url@,
        proxy matches Some(p) ==> r@[4]@ == "--proxy"@ && r@[5]@ == p@,
{
    let mut args: Vec<String> = Vec::new();
    args.push("--dump-json".to_owned());
    args.push("--no-warnings".to_owned());
    args.push("--no-playlist".to_owned());
    args.push(url.to_owned());
    if let Some(p) = proxy {
        args.push("--proxy".to_owned());
        args.push(p.to_owned());
    }
    args
}

/// The languages requested for subtitles, in preference order.
pub fn subtitle_languages() -> (r: String)
    ensures
        r@ == "zh-Hans,zh-Hant,en"@,
{
    "zh-Hans,zh-Hant,en".to_owned()
}

/// The extractor's own output template, rooted at the per-video directory:
/// the extractor substitutes the title and container extension itself.
pub fn output_template(video_dir: &str) -> (r: String)
    ensures
        r@ == video_dir@ + "/%(title)s.%(ext)s"@,
{
    video_dir.to_owned().concat("/%(title)s.%(ext)s")
}

/// Builds the argument list for a download: select the chosen format, fetch
/// written and auto-generated subtitles for the fixed language preference,
/// convert them to srt and embed them, and write under the per-video
/// directory through the extractor's template. `--proxy` is appended exactly
/// when a proxy was detected.
pub fn download_args(url: &str, format_id: &str, video_dir: &str, proxy: Option<&str>) -> (r: Vec<String>)
    ensures
        proxy is None ==> r@.len() == 12,
        proxy is Some ==> r@.len() == 14,
        r@[0]@ == "-f"@,
        r@[1]@ == format_id@,
        r@[2]@ == "--write-subs"@,
        r@[3]@ == "--write-auto-sub"@,
        r@[4]@ == "--sub-lang"@,
        r@[5]@ == "zh-Hans,zh-Hant,en"@,
        r@[6]@ == "--convert-subs"@,
        r@[7]@ == "srt"@,
        r@[8]@ == "--embed-subs"@,
        r@[9]@ == "-o"@,
        r@[10]@ == video_dir@ + "/%(title)s.%(ext)s"@,
        r@[11]@ == url@,
        proxy matches Some(p) ==> r@[12]@ == "--proxy"@ && r@[13]@ == p@,
{
    let mut args: Vec<String> = Vec::new();
    args.push("-f".to_owned());
    args.push(format_id.to_owned());
    args.push("--write-subs".to_owned());
    args.push("--write-auto-sub".to_owned());
    args.push("--sub-lang".to_owned());
    args.push(subtitle_languages());
    args.push("--convert-subs".to_owned());
    args.push("srt".to_owned());
    args.push("--embed-subs".to_owned());
    args.push("-o".to_owned());
    args.push(output_template(video_dir));
    args.push(url.to_owned());
    if let Some(p) = proxy {
        args.push("--proxy".to_owned());
        args.push(p.to_owned());
    }
    args
}

/// Interprets one run of a download: a clean exit is the acknowledgement,
/// and any other exit surfaces the captured stderr as `DownloadFailed`.
pub fn download_outcome(exit_ok: bool, stderr: String) -> (r: Result<(), CoreError>)
    ensures
        exit_ok <==> r is Ok,
        !exit_ok ==> r == Err::<(), CoreError>(CoreError::DownloadFailed(stderr)),
{
    if exit_ok {
        Ok(())
    } else {
        Err(CoreError::DownloadFailed(stderr))
    }
}

/// Interprets one run of the self-update: a clean exit is the
/// acknowledgement, and any other exit surfaces stderr as `UpdateFailed`.
pub fn update_outcome(exit_ok: bool, stderr: String) -> (r: Result<(), CoreError>)
    ensures
        exit_ok <==> r is Ok,
        !exit_ok ==> r == Err::<(), CoreError>(CoreError::UpdateFailed(stderr)),
{
    if exit_ok {
        Ok(())
    } else {
        Err(CoreError::UpdateFailed(stderr))
    }
}

/// Builds the argument list for the extractor's self-update: its single
/// built-in update flag, with no proxy applied.
pub fn update_args() -> (r: Vec<String>)
    ensures
        r@.len() == 1,
        r@[0]@ == "-U"@,
{
    let mut args: Vec<String> = Vec::new();
    args.push("-U".to_owned());
    args
}

} // verus!
