//! Records kept about past batches, and the saved settings.
use vstd::prelude::*;

verus! {

/// A past batch, as the history lists it.
pub struct DownloadBatch {
    pub id: String,
    pub created_at: String,
    pub total_count: u32,
    pub success_count: u32,
    pub failed_count: u32,
    pub download_directory: String,
}

/// One invoice of a past batch.
pub struct HistoryInvoice {
    pub id: String,
    pub batch_id: String,
    pub code: String,
    pub status: String,
    pub error: Option<String>,
    pub file_path: Option<String>,
    pub downloaded_at: Option<String>,
}

/// The saved settings.
pub struct Settings {
    pub openai_api_key: String,
    pub vnpt_url: String,
    pub download_directory: String,
}

impl Settings {
    /// Settings from their stored values; a directory that was never stored
    /// falls back to `default_directory`.
    pub fn from_stored(
        openai_api_key: String,
        vnpt_url: String,
        stored_directory: String,
        default_directory: String,
    ) -> (r: Settings)
        ensures
            r.openai_api_key == openai_api_key,
            r.vnpt_url == vnpt_url,
            stored_directory@.len() == 0 ==> r.download_directory == default_directory,
            stored_directory@.len() > 0 ==> r.download_directory == stored_directory,
    {
        let download_directory = if stored_directory.as_str().unicode_len() == 0 {
            default_directory
        } else {
            stored_directory
        };
        Settings { openai_api_key, vnpt_url, download_directory }
    }
}

} // verus!
