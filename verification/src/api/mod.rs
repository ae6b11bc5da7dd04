//! Clients of the two web services that the pipeline uses.
pub mod openrouter;
pub mod tmpfiles;

pub use openrouter::client::{handle_error, POLL_INTERVAL_SECS};
pub use openrouter::external::{
    DownloadResponse, JobRespose, PollStatus, PollingResponse, ResponseError, UsageInfo,
};
pub use openrouter::internal::{AspectRatio, InputReference, Job, Reference, Resolution, VideoRequest};
