//! Downloads and their state.

use vstd::prelude::*;

verus! {

/// The state of a download.
#[derive(Debug, Clone, Copy, PartialEq, Eq, Structural)]
pub enum DownloadStatus {
    Pending,
    InProgress,
    Paused,
    Completed,
    Failed,
}

/// One download.
#[derive(Debug)]
pub struct Download {
    pub id: String,
    pub url: String,
    pub filename: String,
    /// Where the file is written.
    pub path: String,
    pub total_bytes: Option<u64>,
    pub received_bytes: u64,
    pub status: DownloadStatus,
}

/// Calls `uuid::Uuid::new_v4` and writes the identifier as text. The
/// identifier is random: nothing is promised about it.
#[verifier::external_body]
fn new_uuid() -> String {
    uuid::Uuid::new_v4().to_string()
}

impl Download {
    /// A pending download with the given identifier: nothing received, the
    /// total size unknown.
    pub fn with_id(id: String, url: String, filename: String, path: String) -> (d: Download)
        ensures
            d.id == id,
            d.url == url,
            d.filename == filename,
            d.path == path,
            d.total_bytes is None,
            d.received_bytes == 0,
            d.status == DownloadStatus::Pending,
    {
        Download {
            id,
            url,
            filename,
            path,
            total_bytes: None,
            received_bytes: 0,
            status: DownloadStatus::Pending,
        }
    }

    /// A pending download with a fresh random identifier.
    pub fn new(url: String, filename: String, path: String) -> (d: Download)
        ensures
            d.url == url,
            d.filename == filename,
            d.path == path,
            d.total_bytes is None,
            d.received_bytes == 0,
            d.status == DownloadStatus::Pending,
    {
        Download::with_id(new_uuid(), url, filename, path)
    }
}

} // verus!
