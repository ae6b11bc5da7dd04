//! The decisions of the OpenRouter client: the headers it sends, and what
//! it makes of each reply (errors, submitted jobs, polls, downloads).
use vstd::prelude::*;
use vstd::string::*;
use vstd::utf8::{encode_utf8, is_ascii_chars, is_ascii_chars_encode_utf8};
use reqwest::header::{HeaderValue, InvalidHeaderValue};
use crate::api::openrouter::external::{
    DownloadResponse, JobRespose, PollStatus, PollingResponse, ResponseError,
};
use crate::api::openrouter::internal::Job;
use crate::number::{push_signed_decimal, signed_decimal};
use crate::text::{chars_to_string, owned, push_str};

verus! {

/// Seconds to wait between two polls of a job.
pub const POLL_INTERVAL_SECS: u64 = 30;

/// The message of an error that the service reports: the bare message, or
/// `code <code>: <message>`.
pub open spec fn error_message(e: ResponseError) -> Seq<char> {
    match e {
        ResponseError::Simple(message) => message@,
        ResponseError::Complex { code, message } => seq!['c', 'o', 'd', 'e', ' '] + signed_decimal(
            code as int,
        ) + seq![':', ' '] + message@,
    }
}

/// Turns the error that a reply may carry into a failure with its message;
/// a reply without one passes.
pub fn handle_error(err: &Option<ResponseError>) -> (r: Result<(), String>)
    ensures
        match err {
            None => r is Ok,
            Some(e) => r matches Err(m) && m@ == error_message(*e),
        },
{
    match err {
        None => Ok(()),
        Some(ResponseError::Simple(message)) => Err(message.clone()),
        Some(ResponseError::Complex { code, message }) => {
            let mut out: Vec<char> = Vec::new();
            out.push('c');
            out.push('o');
            out.push('d');
            out.push('e');
            out.push(' ');
            push_signed_decimal(&mut out, *code);
            out.push(':');
            out.push(' ');
            push_str(&mut out, message.as_str());
            assert(out@ =~= error_message(ResponseError::Complex { code: *code, message: *message }));
            Err(chars_to_string(out))
        },
    }
}

/// Why a job submission gave no job.
#[derive(Debug, PartialEq, Eq)]
pub enum JobError {
    /// The service reported an error, with this message.
    Api(String),
    /// The reply lacked the job's id or polling URL.
    MissingFields(JobRespose),
}

/// Reads the reply to a job submission: the job when the reply carries no
/// error and both its id and its polling URL.
pub fn job_from_response(data: JobRespose) -> (r: Result<Job, JobError>)
    ensures
        match data.error {
            Some(e) => r matches Err(JobError::Api(m)) && m@ == error_message(e),
            None => match (data.id, data.polling_url) {
                (Some(id), Some(polling_url)) => r == Ok::<Job, JobError>(
                    Job { id, polling_url },
                ),
                _ => r == Err::<Job, JobError>(JobError::MissingFields(data)),
            },
        },
{
    match handle_error(&data.error) {
        Err(m) => {
            return Err(JobError::Api(m));
        },
        Ok(()) => {},
    }
    match (&data.id, &data.polling_url) {
        (Some(id), Some(polling_url)) => Ok(Job { id: id.clone(), polling_url: polling_url.clone() }),
        _ => Err(JobError::MissingFields(data)),
    }
}

/// Why polling stopped without videos.
#[derive(Debug, PartialEq, Eq)]
pub enum PollError {
    /// The service reported an error, with this message.
    Api(String),
    /// The job completed but the reply lists no video URLs.
    NoUrls(PollingResponse),
    /// The job failed.
    Failed(PollingResponse),
    /// The job was cancelled.
    Cancelled(PollingResponse),
    /// The job expired.
    Expired(PollingResponse),
}

/// What to do after one poll of a job.
#[derive(Debug, PartialEq, Eq)]
pub enum PollStep {
    /// The job is complete; these are the URLs of its videos.
    Done(Vec<String>),
    /// The job is still running (or reported no state): poll again after
    /// `POLL_INTERVAL_SECS`.
    Wait,
    /// Stop polling with this error.
    Stop(PollError),
}

/// Reads one poll reply.
pub fn poll_step(data: PollingResponse) -> (r: PollStep)
    ensures
        match data.error {
            Some(e) => r matches PollStep::Stop(PollError::Api(m)) && m@ == error_message(e),
            None => match data.status {
                Some(PollStatus::Completed) => match data.unsigned_urls {
                    Some(urls) => r == PollStep::Done(urls),
                    None => r == PollStep::Stop(PollError::NoUrls(data)),
                },
                Some(PollStatus::Failed) => r == PollStep::Stop(PollError::Failed(data)),
                Some(PollStatus::Cancelled) => r == PollStep::Stop(PollError::Cancelled(data)),
                Some(PollStatus::Expired) => r == PollStep::Stop(PollError::Expired(data)),
                _ => r == PollStep::Wait,
            },
        },
{
    match handle_error(&data.error) {
        Err(m) => {
            return PollStep::Stop(PollError::Api(m));
        },
        Ok(()) => {},
    }
    match data.status {
        Some(PollStatus::Completed) => {
            let mut data = data;
            match data.unsigned_urls.take() {
                Some(urls) => PollStep::Done(urls),
                None => PollStep::Stop(PollError::NoUrls(data)),
            }
        },
        Some(PollStatus::Failed) => PollStep::Stop(PollError::Failed(data)),
        Some(PollStatus::Cancelled) => PollStep::Stop(PollError::Cancelled(data)),
        Some(PollStatus::Expired) => PollStep::Stop(PollError::Expired(data)),
        _ => PollStep::Wait,
    }
}

/// Why a download failed.
#[derive(Debug, PartialEq, Eq)]
pub enum DownloadError {
    /// The service reported an error, with this message.
    Api(String),
    /// The reply did not succeed and named no error.
    NotSuccess,
}

/// The message of a download error.
pub open spec fn download_error_text(e: DownloadError) -> Seq<char> {
    match e {
        DownloadError::Api(message) => message@,
        DownloadError::NotSuccess => "Response didn't return success"@,
    }
}

impl DownloadError {
    /// The message that reports this error.
    pub fn message(&self) -> (r: String)
        ensures
            r@ == download_error_text(*self),
    {
        match self {
            DownloadError::Api(message) => message.clone(),
            DownloadError::NotSuccess => owned("Response didn't return success"),
        }
    }
}

/// The failure that the reply to an unsuccessful download stands for.
pub fn download_error(data: &DownloadResponse) -> (r: DownloadError)
    ensures
        match data.error {
            Some(e) => r matches DownloadError::Api(m) && m@ == error_message(e),
            None => r == DownloadError::NotSuccess,
        },
{
    match handle_error(&data.error) {
        Err(m) => DownloadError::Api(m),
        Ok(()) => DownloadError::NotSuccess,
    }
}

/// Whether an HTTP status code reports success (the 2xx class).
pub open spec fn is_success_status(code: u16) -> bool {
    200 <= code < 300
}

/// Whether `code` lies in the 2xx success class (`StatusCode::is_success`).
pub fn status_is_success(code: u16) -> (r: bool)
    ensures
        r == is_success_status(code),
{
    200 <= code && code < 300
}

#[verifier::external_type_specification]
#[verifier::external_body]
pub struct ExHeaderValue(HeaderValue);

#[verifier::external_type_specification]
#[verifier::external_body]
pub struct ExInvalidHeaderValue(InvalidHeaderValue);

/// The bytes that a header value holds.
pub uninterp spec fn header_value_bytes(v: HeaderValue) -> Seq<u8>;

/// Whether `b` may stand in a header value: a tab, or any byte from 32 up
/// but 127.
pub open spec fn is_header_byte(b: u8) -> bool {
    (b >= 32 && b != 127) || b == 9
}

/// Whether every byte of the UTF-8 encoding of `text` may stand in a header
/// value.
pub open spec fn is_header_text(text: Seq<char>) -> bool {
    forall|i: int| 0 <= i < encode_utf8(text).len() ==> is_header_byte(#[trigger] encode_utf8(text)[i])
}

/// `HeaderValue::from_str` (reqwest's header type, from the `http` crate): it
/// succeeds exactly when every byte of `s` is a tab or lies in 32..=255 but
/// 127, and the value then holds the bytes of `s`.
#[verifier::external_body]
fn header_value_from_str(s: &str) -> (r: Result<HeaderValue, InvalidHeaderValue>)
    ensures
        r is Ok <==> is_header_text(s@),
        r matches Ok(v) ==> header_value_bytes(v) == encode_utf8(s@),
{
    HeaderValue::from_str(s)
}

/// A header value that could not be built.
#[derive(Debug, PartialEq, Eq)]
pub enum HeaderError {
    /// The text holds a byte that a header value refuses.
    InvalidHeaderValue,
}

impl HeaderError {
    /// The message that reports this error (that of `InvalidHeaderValue`).
    pub fn message(&self) -> (r: String)
        ensures
            r@ == "failed to parse header value"@,
    {
        owned("failed to parse header value")
    }
}

/// The text of the `Authorization` header for the API key `key`.
pub open spec fn bearer_text(key: Seq<char>) -> Seq<char> {
    seq!['B', 'e', 'a', 'r', 'e', 'r', ' '] + key
}

/// The `Authorization` header value for the API key `key`: `Bearer <key>`.
pub fn authorization_header(key: &str) -> (r: Result<HeaderValue, HeaderError>)
    ensures
        r is Ok <==> is_header_text(bearer_text(key@)),
        r matches Ok(v) ==> header_value_bytes(v) == encode_utf8(bearer_text(key@)),
{
    let mut text = String::from_str("Bearer ");
    text.append(key);
    proof {
        reveal_strlit("Bearer ");
        assert(text@ =~= bearer_text(key@));
    }
    match header_value_from_str(text.as_str()) {
        Ok(v) => Ok(v),
        Err(_) => Err(HeaderError::InvalidHeaderValue),
    }
}

/// The text of the `Content-Type` header of a request.
pub open spec fn json_content_type() -> Seq<char> {
    seq![
        'a', 'p', 'p', 'l', 'i', 'c', 'a', 't', 'i', 'o', 'n', '/', 'j', 's', 'o', 'n',
    ]
}

/// `application/json` may stand in a header value.
proof fn lemma_json_content_type_is_header_text()
    ensures
        is_header_text(json_content_type()),
{
    let t = json_content_type();
    assert forall|i: int| 0 <= i < t.len() implies 0x2f <= #[trigger] (t[i] as u32) <= 0x7a by {
        assert(t[i] == t[i]);
    }
    assert(is_ascii_chars(t));
    is_ascii_chars_encode_utf8(t);
    assert forall|i: int| 0 <= i < encode_utf8(t).len() implies is_header_byte(
        #[trigger] encode_utf8(t)[i],
    ) by {
        assert(t[i] as u8 == encode_utf8(t)[i]);
        assert(0x2f <= (t[i] as u32) <= 0x7a);
    }
}

/// The `Content-Type` header value `application/json`.
pub fn content_type_header() -> (r: Result<HeaderValue, HeaderError>)
    ensures
        r is Ok,
        r matches Ok(v) ==> header_value_bytes(v) == encode_utf8(json_content_type()),
{
    proof {
        lemma_json_content_type_is_header_text();
        reveal_strlit("application/json");
        assert("application/json"@ =~= json_content_type());
    }
    match header_value_from_str("application/json") {
        Ok(v) => Ok(v),
        Err(_) => Err(HeaderError::InvalidHeaderValue),
    }
}

} // verus!
