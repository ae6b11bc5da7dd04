use upscale_pipeline::api::openrouter::client::{
    authorization_header, content_type_header, download_error, handle_error, job_from_response,
    poll_step, status_is_success, DownloadError, HeaderError, JobError, PollError, PollStep,
    POLL_INTERVAL_SECS,
};
use upscale_pipeline::api::{
    DownloadResponse, InputReference, Job, JobRespose, PollStatus, PollingResponse, ResponseError,
    UsageInfo,
};

fn simple(m: &str) -> ResponseError {
    ResponseError::Simple(m.to_string())
}

fn complex(code: i32, m: &str) -> ResponseError {
    ResponseError::Complex { code, message: m.to_string() }
}

#[test]
fn handle_error_passes_without_error() {
    assert_eq!(handle_error(&None), Ok(()));
}

#[test]
fn handle_error_messages() {
    assert_eq!(handle_error(&Some(simple("boom"))), Err("boom".to_string()));
    assert_eq!(
        handle_error(&Some(complex(429, "Rate limited"))),
        Err("code 429: Rate limited".to_string())
    );
    assert_eq!(handle_error(&Some(complex(-3, "x"))), Err("code -3: x".to_string()));
    assert_eq!(handle_error(&Some(complex(0, ""))), Err("code 0: ".to_string()));
}

fn job_reply(id: Option<&str>, url: Option<&str>, error: Option<ResponseError>) -> JobRespose {
    JobRespose {
        id: id.map(String::from),
        polling_url: url.map(String::from),
        status: Some("pending".to_string()),
        error,
    }
}

#[test]
fn job_from_complete_reply() {
    assert_eq!(
        job_from_response(job_reply(Some("job-1"), Some("https://p/1"), None)),
        Ok(Job { id: "job-1".to_string(), polling_url: "https://p/1".to_string() })
    );
}

#[test]
fn job_reply_missing_fields() {
    assert_eq!(
        job_from_response(job_reply(Some("job-1"), None, None)),
        Err(JobError::MissingFields(job_reply(Some("job-1"), None, None)))
    );
    assert_eq!(
        job_from_response(job_reply(None, Some("u"), None)),
        Err(JobError::MissingFields(job_reply(None, Some("u"), None)))
    );
}

#[test]
fn job_reply_error_comes_first() {
    assert_eq!(
        job_from_response(job_reply(Some("a"), Some("b"), Some(complex(401, "No auth")))),
        Err(JobError::Api("code 401: No auth".to_string()))
    );
}

fn poll_reply(status: Option<PollStatus>, urls: Option<Vec<&str>>) -> PollingResponse {
    PollingResponse {
        id: Some("job-1".to_string()),
        polling_url: Some("https://p/1".to_string()),
        status,
        unsigned_urls: urls.map(|v| v.into_iter().map(String::from).collect()),
        usage: Some(UsageInfo { cost_bits: 0.25f64.to_bits(), is_byok: false }),
        error: None,
    }
}

#[test]
fn poll_completed_gives_urls() {
    assert_eq!(
        poll_step(poll_reply(Some(PollStatus::Completed), Some(vec!["v1", "v2"]))),
        PollStep::Done(vec!["v1".to_string(), "v2".to_string()])
    );
}

#[test]
fn poll_completed_without_urls() {
    assert_eq!(
        poll_step(poll_reply(Some(PollStatus::Completed), None)),
        PollStep::Stop(PollError::NoUrls(poll_reply(Some(PollStatus::Completed), None)))
    );
}

#[test]
fn poll_terminal_failures() {
    assert_eq!(
        poll_step(poll_reply(Some(PollStatus::Failed), None)),
        PollStep::Stop(PollError::Failed(poll_reply(Some(PollStatus::Failed), None)))
    );
    assert_eq!(
        poll_step(poll_reply(Some(PollStatus::Cancelled), None)),
        PollStep::Stop(PollError::Cancelled(poll_reply(Some(PollStatus::Cancelled), None)))
    );
    assert_eq!(
        poll_step(poll_reply(Some(PollStatus::Expired), Some(vec!["x"]))),
        PollStep::Stop(PollError::Expired(poll_reply(Some(PollStatus::Expired), Some(vec!["x"]))))
    );
}

#[test]
fn poll_keeps_waiting() {
    assert_eq!(poll_step(poll_reply(Some(PollStatus::Pending), None)), PollStep::Wait);
    assert_eq!(poll_step(poll_reply(Some(PollStatus::InProgress), None)), PollStep::Wait);
    assert_eq!(poll_step(poll_reply(None, Some(vec!["x"]))), PollStep::Wait);
    assert_eq!(POLL_INTERVAL_SECS, 30);
}

#[test]
fn poll_error_stops() {
    let mut r = poll_reply(Some(PollStatus::Completed), Some(vec!["v"]));
    r.error = Some(simple("quota"));
    assert_eq!(poll_step(r), PollStep::Stop(PollError::Api("quota".to_string())));
}

#[test]
fn download_failures() {
    assert_eq!(
        download_error(&DownloadResponse { error: Some(complex(404, "Not found")) }),
        DownloadError::Api("code 404: Not found".to_string())
    );
    assert_eq!(download_error(&DownloadResponse { error: None }), DownloadError::NotSuccess);
}

#[test]
fn success_status_class() {
    assert!(status_is_success(200));
    assert!(status_is_success(299));
    assert!(!status_is_success(199));
    assert!(!status_is_success(300));
    assert!(!status_is_success(404));
}

#[test]
fn authorization_header_value() {
    let v = authorization_header("sk-or-v1-abc").unwrap();
    assert_eq!(v.as_bytes(), b"Bearer sk-or-v1-abc");
    assert_eq!(authorization_header("bad\nkey"), Err(HeaderError::InvalidHeaderValue));
    assert_eq!(authorization_header("del\u{7f}").err(), Some(HeaderError::InvalidHeaderValue));
    assert!(authorization_header("tab\tok").is_ok());
}

#[test]
fn content_type_value() {
    assert_eq!(content_type_header().unwrap().as_bytes(), b"application/json");
}

#[test]
fn input_reference_from_url() {
    let r = InputReference::from_url("https://x/y.jpg".to_string());
    assert_eq!(r._type, "image_url");
    assert_eq!(r.image_url.url, "https://x/y.jpg");
}

#[test]
fn download_and_header_messages() {
    assert_eq!(DownloadError::Api("code 404: Not found".to_string()).message(), "code 404: Not found");
    assert_eq!(DownloadError::NotSuccess.message(), "Response didn't return success");
    assert_eq!(HeaderError::InvalidHeaderValue.message(), "failed to parse header value");
}
