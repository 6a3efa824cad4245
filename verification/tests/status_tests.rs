use video_smart_downloader::errors::CoreError;
use video_smart_downloader::status::compose_status;

#[test]
fn status_proxy_and_reachable() {
    let s = compose_status(true, true);
    assert!(s.has_proxy);
    assert!(s.can_access_target);
    assert_eq!(s.message, "A system proxy was detected and the network is reachable.");
}

#[test]
fn status_no_proxy_and_reachable() {
    let s = compose_status(false, true);
    assert_eq!(s.message, "The network is reachable; downloads can proceed directly.");
}

#[test]
fn status_proxy_and_unreachable() {
    let s = compose_status(true, false);
    assert_eq!(
        s.message,
        "A proxy was detected but the target site is unreachable; please check the proxy settings."
    );
}

#[test]
fn status_no_proxy_and_unreachable() {
    let s = compose_status(false, false);
    assert!(!s.has_proxy);
    assert!(!s.can_access_target);
    assert_eq!(
        s.message,
        "The target site is unreachable; consider enabling a system proxy and retrying."
    );
}

#[test]
fn error_messages_carry_their_detail() {
    assert_eq!(
        CoreError::ExtractionFailed("boom".to_string()).message(),
        "extraction failed: boom"
    );
    assert_eq!(
        CoreError::DownloadFailed("no space".to_string()).message(),
        "download failed: no space"
    );
    assert_eq!(CoreError::UpdateFailed("offline".to_string()).message(), "update failed: offline");
    assert_eq!(
        CoreError::JsonParseFailed("eof".to_string()).message(),
        "failed to parse JSON: eof"
    );
    assert_eq!(
        CoreError::BinaryNotFound.message(),
        "yt-dlp was not found; please make sure it is installed"
    );
    assert_eq!(
        CoreError::NoSupportedFormats.message(),
        "no supported video formats were found"
    );
    assert_eq!(
        CoreError::SettingsParseFailed("bad".to_string()).message(),
        "failed to parse settings: bad"
    );
    assert_eq!(
        CoreError::SettingsWriteFailed("disk".to_string()).message(),
        "failed to save settings: disk"
    );
    assert_eq!(
        CoreError::SettingsReadFailed("denied".to_string()).message(),
        "failed to read settings: denied"
    );
    assert_eq!(
        CoreError::DirectoryCreationFailed("exists".to_string()).message(),
        "failed to create directory: exists"
    );
    assert_eq!(
        CoreError::SubprocessLaunchFailed("enoent".to_string()).message(),
        "failed to run yt-dlp: enoent"
    );
}
