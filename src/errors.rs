//! Why the work on one identifier failed.

use vstd::prelude::*;

verus! {

/// The cause of a failed identifier. A failure is reported for that
/// identifier alone and never stops the others.
#[derive(PartialEq, Eq, Structural, Clone, Copy, Debug)]
pub enum SyncError {
    /// The save directory could not be listed.
    ListDir,
    /// A stored file could not be read back for its digest.
    ReadFile,
    /// Every attempt at the metadata request failed.
    Fetch,
    /// The metadata reply is not a JSON document.
    Parse,
    /// The metadata reply carries an `error` member.
    Api,
    /// The metadata reply names no asset link.
    MissingLink,
    /// The asset link is not a valid URL.
    BadUrl,
    /// The asset could not be downloaded.
    Download,
    /// The asset is in no format that can be recognised.
    Decode,
    /// The asset could not be decoded or written.
    Save,
    /// The ledger could not be written.
    Persist,
}

impl SyncError {
    /// A short description for log lines.
    pub fn describe(&self) -> (r: &'static str) {
        match self {
            SyncError::ListDir => "unable to list the save directory",
            SyncError::ReadFile => "unable to read the stored file",
            SyncError::Fetch => "metadata request failed",
            SyncError::Parse => "metadata reply is not valid JSON",
            SyncError::Api => "API error",
            SyncError::MissingLink => "failed to get image link from API response",
            SyncError::BadUrl => "image link is not a valid URL",
            SyncError::Download => "image download failed",
            SyncError::Decode => "unrecognised image format",
            SyncError::Save => "unable to save the image",
            SyncError::Persist => "unable to write the lock file",
        }
    }
}

} // verus!
