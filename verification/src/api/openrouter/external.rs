//! Replies of the OpenRouter video API, as the library reads them.
use vstd::prelude::*;

verus! {

/// The reply to a job submission.
#[derive(Debug, PartialEq, Eq)]
pub struct JobRespose {
    pub id: Option<String>,
    pub polling_url: Option<String>,
    pub status: Option<String>,
    pub error: Option<ResponseError>,
}

/// The reply to a poll of a job.
#[derive(Debug, PartialEq, Eq)]
pub struct PollingResponse {
    pub id: Option<String>,
    pub polling_url: Option<String>,
    pub status: Option<PollStatus>,
    pub unsigned_urls: Option<Vec<String>>,
    pub usage: Option<UsageInfo>,
    pub error: Option<ResponseError>,
}

/// The reply to a download that did not succeed.
#[derive(Debug, PartialEq, Eq)]
pub struct DownloadResponse {
    pub error: Option<ResponseError>,
}

/// What a job cost. The cost, a floating-point number on the wire, is held
/// by its IEEE-754 bit pattern (`f64::to_bits`), which the library carries
/// through unread.
#[derive(Debug, PartialEq, Eq)]
pub struct UsageInfo {
    pub cost_bits: u64,
    pub is_byok: bool,
}

/// The state of a job.
#[derive(Debug, Clone, Copy, PartialEq, Eq)]
pub enum PollStatus {
    Completed,
    Pending,
    InProgress,
    Failed,
    Cancelled,
    Expired,
}

/// An error that the service reports: a bare message, or a code with a
/// message.
#[derive(Debug, PartialEq, Eq)]
pub enum ResponseError {
    Simple(String),
    Complex { code: i32, message: String },
}

} // verus!
