use video_smart_downloader::errors::CoreError;
use video_smart_downloader::invoker::{
    download_args, download_outcome, info_args, output_template, update_args, update_outcome,
};
use video_smart_downloader::paths::{
    download_root_segments, extractor_binary_segments, settings_file_segments, Platform,
};

#[test]
fn info_args_without_proxy() {
    let args = info_args("https://example.com/v", None);
    assert_eq!(
        args,
        vec!["--dump-json", "--no-warnings", "--no-playlist", "https://example.com/v"]
    );
}

#[test]
fn info_args_with_proxy() {
    let args = info_args("https://example.com/v", Some("http://127.0.0.1:7890"));
    assert_eq!(
        args,
        vec![
            "--dump-json",
            "--no-warnings",
            "--no-playlist",
            "https://example.com/v",
            "--proxy",
            "http://127.0.0.1:7890"
        ]
    );
}

#[test]
fn download_args_exact_invocation() {
    let args = download_args("https://example.com/v", "22", "/downloads/videocap/My Video", None);
    assert_eq!(
        args,
        vec![
            "-f",
            "22",
            "--write-subs",
            "--write-auto-sub",
            "--sub-lang",
            "zh-Hans,zh-Hant,en",
            "--convert-subs",
            "srt",
            "--embed-subs",
            "-o",
            "/downloads/videocap/My Video/%(title)s.%(ext)s",
            "https://example.com/v"
        ]
    );
}

#[test]
fn download_args_append_proxy() {
    let args = download_args("u", "f1", "/d", Some("http://p:1"));
    assert_eq!(args.len(), 14);
    assert_eq!(args[12], "--proxy");
    assert_eq!(args[13], "http://p:1");
}

#[test]
fn update_args_is_the_update_flag() {
    assert_eq!(update_args(), vec!["-U"]);
}

#[test]
fn output_template_appends_extractor_placeholders() {
    assert_eq!(output_template("/d/t"), "/d/t/%(title)s.%(ext)s");
}

fn segs(parts: &[&str]) -> Vec<String> {
    parts.iter().map(|s| s.to_string()).collect()
}

#[test]
fn binary_segments_on_macos() {
    let exe = segs(&["Applications", "Demo.app", "Contents", "MacOS", "demo"]);
    let r = extractor_binary_segments(&exe, Platform::MacOs);
    assert_eq!(
        r,
        segs(&["Applications", "Demo.app", "Contents", "Resources", "binaries", "yt-dlp"])
    );
}

#[test]
fn binary_segments_on_windows() {
    let exe = segs(&["C:", "Program Files", "Demo", "demo.exe"]);
    let r = extractor_binary_segments(&exe, Platform::Windows);
    assert_eq!(r, segs(&["C:", "Program Files", "Demo", "binaries", "yt-dlp.exe"]));
}

#[test]
fn binary_segments_elsewhere() {
    let exe = segs(&["usr", "local", "bin", "demo"]);
    let r = extractor_binary_segments(&exe, Platform::Linux);
    assert_eq!(r, segs(&["usr", "local", "bin", "yt-dlp"]));
}

#[test]
fn download_root_appends_app_folder() {
    let r = download_root_segments(&segs(&["home", "me", "Downloads"]));
    assert_eq!(r, segs(&["home", "me", "Downloads", "videocap"]));
}

#[test]
fn settings_file_location() {
    let r = settings_file_segments(&segs(&["home", "me", ".config"]));
    assert_eq!(
        r,
        segs(&["home", "me", ".config", "video-smart-downloader", "settings.json"])
    );
}

#[test]
fn download_outcome_maps_exit_status() {
    assert!(download_outcome(true, String::new()).is_ok());
    match download_outcome(false, "disk full".to_string()) {
        Err(CoreError::DownloadFailed(s)) => assert_eq!(s, "disk full"),
        _ => panic!("expected DownloadFailed"),
    }
    assert!(update_outcome(true, String::new()).is_ok());
    match update_outcome(false, "offline".to_string()) {
        Err(CoreError::UpdateFailed(s)) => assert_eq!(s, "offline"),
        _ => panic!("expected UpdateFailed"),
    }
}
