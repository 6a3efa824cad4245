use vstd::prelude::*;

verus! {

/// The failure taxonomy of the core layer. Every operation fails at most
/// once, with one of these; no retry or recovery happens below the caller.
/// Variants that surface text captured from outside (a subprocess's stderr,
/// a decoder's message) carry it as a payload.
#[derive(Debug)]
pub enum CoreError {
    BinaryNotFound,
    DirectoryCreationFailed(String),
    SubprocessLaunchFailed(String),
    ExtractionFailed(String),
    JsonParseFailed(String),
    NoSupportedFormats,
    DownloadFailed(String),
    UpdateFailed(String),
    SettingsReadFailed(String),
    SettingsParseFailed(String),
    SettingsWriteFailed(String),
}

impl CoreError {
    /// The user-facing description of the error, with any captured detail
    /// appended after a fixed per-variant prefix.
    pub fn message(&self) -> (r: String)
        ensures
            self matches CoreError::BinaryNotFound ==> r@ == "yt-dlp was not found; please make sure it is installed"@,
            self matches CoreError::DirectoryCreationFailed(s) ==> r@ == "failed to create directory: "@ + s@,
            self matches CoreError::SubprocessLaunchFailed(s) ==> r@ == "failed to run yt-dlp: "@ + s@,
            self matches CoreError::ExtractionFailed(s) ==> r@ == "extraction failed: "@ + s@,
            self matches CoreError::JsonParseFailed(s) ==> r@ == "failed to parse JSON: "@ + s@,
            self matches CoreError::NoSupportedFormats ==> r@ == "no supported video formats were found"@,
            self matches CoreError::DownloadFailed(s) ==> r@ == "download failed: "@ + s@,
            self matches CoreError::UpdateFailed(s) ==> r@ == "update failed: "@ + s@,
            self matches CoreError::SettingsReadFailed(s) ==> r@ == "failed to read settings: "@ + s@,
            self matches CoreError::SettingsParseFailed(s) ==> r@ == "failed to parse settings: "@ + s@,
            self matches CoreError::SettingsWriteFailed(s) ==> r@ == "failed to save settings: "@ + s@,
    {
        match self {
            CoreError::BinaryNotFound => "yt-dlp was not found; please make sure it is installed".to_owned(),
            CoreError::DirectoryCreationFailed(s) => "failed to create directory: ".to_owned().concat(s.as_str()),
            CoreError::SubprocessLaunchFailed(s) => "failed to run yt-dlp: ".to_owned().concat(s.as_str()),
            CoreError::ExtractionFailed(s) => "extraction failed: ".to_owned().concat(s.as_str()),
            CoreError::JsonParseFailed(s) => "failed to parse JSON: ".to_owned().concat(s.as_str()),
            CoreError::NoSupportedFormats => "no supported video formats were found".to_owned(),
            CoreError::DownloadFailed(s) => "download failed: ".to_owned().concat(s.as_str()),
            CoreError::UpdateFailed(s) => "update failed: ".to_owned().concat(s.as_str()),
            CoreError::SettingsReadFailed(s) => "failed to read settings: ".to_owned().concat(s.as_str()),
            CoreError::SettingsParseFailed(s) => "failed to parse settings: ".to_owned().concat(s.as_str()),
            CoreError::SettingsWriteFailed(s) => "failed to save settings: ".to_owned().concat(s.as_str()),
        }
    }
}

} // verus!
