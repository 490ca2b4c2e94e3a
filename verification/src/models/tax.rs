//! Records of the tariff lookup and of its data updates.

use vstd::prelude::*;

verus! {

/// A data version: its label, how many records it holds, and its date.
#[derive(Debug, Clone)]
pub struct VersionDetail {
    pub version: String,
    pub records: i64,
    pub date: String,
}

/// One line of the data changelog.
#[derive(Debug, Clone)]
pub struct ChangelogItem {
    pub date: String,
    pub message: String,
}

/// The local data version beside the newest published one.
#[derive(Debug, Clone)]
pub struct TaxVersionInfo {
    pub local: VersionDetail,
    pub remote: VersionDetail,
    pub has_update: bool,
    pub changelog: Vec<ChangelogItem>,
}

/// Counts and failures from looking up a whole sheet of codes.
#[derive(Debug, Clone)]
pub struct BatchResult {
    pub total: usize,
    pub success: usize,
    pub errors: Vec<String>,
    pub output_path: String,
}

/// What the publisher says about the newest data set.
#[derive(Debug, Clone)]
pub struct RemoteMetadata {
    pub version: String,
    pub timestamp: String,
    pub last_modified: String,
    pub file_size: u64,
    pub record_count: i64,
    pub download_urls: DownloadUrls,
    pub changelog: Option<Vec<ChangelogItem>>,
}

/// Where a data set can be fetched from.
#[derive(Debug, Clone)]
pub struct DownloadUrls {
    pub primary: String,
    pub metadata: String,
    pub mirror: Vec<String>,
}

/// The outcome of refreshing one tariff row, with the rates before and after.
#[derive(Debug, Clone)]
pub struct UpdateResult {
    pub success: bool,
    pub message: String,
    pub uk_updated: bool,
    pub ni_updated: bool,
    pub old_uk_rate: Option<String>,
    pub new_uk_rate: Option<String>,
    pub old_ni_rate: Option<String>,
    pub new_ni_rate: Option<String>,
    pub new_description: Option<String>,
}

} // verus!
