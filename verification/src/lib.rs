//! The orchestration core of a desktop video downloader: it locates the
//! external extractor binary per platform, detects the host's proxy
//! configuration, builds the extractor's command lines, parses and
//! normalises its format metadata, and persists the user's settings. The
//! graphical shell, the subprocess runs and all file and network I/O live
//! outside this crate and exchange plain values with it.

pub mod errors;
pub mod status;
pub mod invoker;
pub mod paths;
pub mod sanitize;
pub mod catalog;
pub mod metadata;
pub mod settings;
pub mod text;
pub mod proxy;
