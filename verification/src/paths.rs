use vstd::prelude::*;

verus! {

/// The operating systems whose installation conventions differ. Paths are
/// handled as sequences of components; the caller owns the conversion to and
/// from its platform path type.
pub enum Platform {
    MacOs,
    Windows,
    Linux,
}

/// Resolves the extractor binary's expected location from the running
/// executable's own path (its directory components followed by the executable
/// name). The executable name is dropped; on macOS the binary lives in the
/// app bundle's `Resources/binaries`, beside the bundle's executable
/// directory; on Windows in a sibling `binaries` folder; elsewhere directly
/// beside the executable. The platform binary name is appended last. Whether
/// the file exists there is the caller's check.
pub fn extractor_binary_segments(exe_path: &Vec<String>, platform: Platform) -> (r: Vec<String>)
    requires
        exe_path@.len() >= 1,
        platform is MacOs ==> exe_path@.len() >= 2,
    ensures
        platform is MacOs ==> {
            &&& r@.len() == exe_path@.len() + 1
            &&& forall|i: int| 0 <= i < exe_path@.len() - 2 ==> r@[i] == exe_path@[i]
            &&& r@[exe_path@.len() - 2]@ == "Resources"@
            &&& r@[exe_path@.len() - 1]@ == "binaries"@
            &&& r@[exe_path@.len() as int]@ == "yt-dlp"@
        },
        platform is Windows ==> {
            &&& r@.len() == exe_path@.len() + 1
            &&& forall|i: int| 0 <= i < exe_path@.len() - 1 ==> r@[i] == exe_path@[i]
            &&& r@[exe_path@.len() - 1]@ == "binaries"@
            &&& r@[exe_path@.len() as int]@ == "yt-dlp.exe"@
        },
        platform is Linux ==> {
            &&& r@.len() == exe_path@.len()
            &&& forall|i: int| 0 <= i < exe_path@.len() - 1 ==> r@[i] == exe_path@[i]
            &&& r@[exe_path@.len() - 1]@ == "yt-dlp"@
        },
{
    let mut r: Vec<String> = Vec::new();
    let keep: usize = match platform {
        Platform::MacOs => exe_path.len() - 2,
        Platform::Windows => exe_path.len() - 1,
        Platform::Linux => exe_path.len() - 1,
    };
    let mut i: usize = 0;
    while i < keep
        invariant
            i <= keep,
            keep <= exe_path@.len(),
            r@.len() == i,
            forall|j: int| 0 <= j < i ==> r@[j] == exe_path@[j],
        decreases keep - i,
    {
        r.push(exe_path[i].clone());
        i += 1;
    }
    match platform {
        Platform::MacOs => {
            r.push("Resources".to_owned());
            r.push("binaries".to_owned());
            r.push("yt-dlp".to_owned());
        },
        Platform::Windows => {
            r.push("binaries".to_owned());
            r.push("yt-dlp.exe".to_owned());
        },
        Platform::Linux => {
            r.push("yt-dlp".to_owned());
        },
    }
    r
}

/// Resolves the application's download root: the fixed application subfolder
/// under the platform's downloads location. Creating it is the caller's work.
pub fn download_root_segments(download_dir: &Vec<String>) -> (r: Vec<String>)
    ensures
        r@.len() == download_dir@.len() + 1,
        forall|i: int| 0 <= i < download_dir@.len() ==> r@[i] == download_dir@[i],
        r@[download_dir@.len() as int]@ == "videocap"@,
{
    let mut r = clone_segments(download_dir);
    r.push("videocap".to_owned());
    r
}

/// Resolves the settings file location: a fixed application subfolder and a
/// fixed file name under the platform's user-config location. Reading does
/// not require the directory to exist; writing creates it first.
pub fn settings_file_segments(config_dir: &Vec<String>) -> (r: Vec<String>)
    ensures
        r@.len() == config_dir@.len() + 2,
        forall|i: int| 0 <= i < config_dir@.len() ==> r@[i] == config_dir@[i],
        r@[config_dir@.len() as int]@ == "video-smart-downloader"@,
        r@[config_dir@.len() + 1int]@ == "settings.json"@,
{
    let mut r = clone_segments(config_dir);
    r.push("video-smart-downloader".to_owned());
    r.push("settings.json".to_owned());
    r
}

/// Copies a path's components, element for element.
fn clone_segments(segments: &Vec<String>) -> (r: Vec<String>)
    ensures
        r@ == segments@,
{
    let mut r: Vec<String> = Vec::new();
    let mut i: usize = 0;
    while i < segments.len()
        invariant
            i <= segments@.len(),
            r@ == segments@.take(i as int),
        decreases segments@.len() - i,
    {
        r.push(segments[i].clone());
        i += 1;
    }
    proof {
        assert(r@ == segments@.take(segments@.len() as int));
        assert(segments@.take(segments@.len() as int) =~= segments@);
    }
    r
}

} // verus!
