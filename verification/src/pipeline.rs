//! The pipeline as a state machine: upload the reference image (if any),
//! resolve its direct link, submit the generation job, poll it, then for
//! each video download it, upscale or copy it into `output/`, and remove
//! the temporary download. `step` decides; the caller performs each action
//! and reports how it went as the next event.
use vstd::prelude::*;
use crate::api::openrouter::client::{
    error_message, job_from_response, poll_step, JobError, PollError, PollStep,
    POLL_INTERVAL_SECS,
};
use crate::api::openrouter::external::{JobRespose, PollStatus, PollingResponse};
use crate::api::openrouter::internal::{image_url_tag, InputReference, Job, VideoRequest};
use crate::api::tmpfiles::{
    download_link, extract_download_link, upload_outcome, upload_result, ApiResponse, LinkError,
    UploadError, UploadOutcome,
};
use crate::cli::Args;
use crate::number::{decimal, law_decimal_injective, push_decimal};
use crate::text::{chars_to_string, push_str};

verus! {

/// What a run is given: its options and the id that names its files.
#[derive(Debug, PartialEq, Eq)]
pub struct PipelineConfig {
    pub args: Args,
    pub job_id: String,
}

/// Where a run stands.
#[derive(Debug, PartialEq, Eq)]
pub enum Stage {
    /// Nothing done yet.
    Start,
    /// The reference image is being uploaded.
    Uploading,
    /// The page of the uploaded image is being fetched.
    ResolvingLink,
    /// The generation job is being submitted.
    Submitting,
    /// The job is being polled.
    Polling(Job),
    /// The job is done with these videos; `output/` is being created.
    PreparingOutput(Vec<String>),
    /// Video `index` is being downloaded.
    Transferring { urls: Vec<String>, index: usize },
    /// Video `index` is being upscaled or copied into `output/`.
    Processing { urls: Vec<String>, index: usize },
    /// The temporary download of video `index` is being removed.
    Cleaning { urls: Vec<String>, index: usize },
    /// Every video is in `output/`.
    Finished,
    /// The run stopped on an error.
    Failed,
}

/// How the last action went.
#[derive(Debug, PartialEq, Eq)]
pub enum Event {
    /// The run begins.
    Begin,
    /// The upload was answered with this reply.
    Uploaded(ApiResponse),
    /// The page of the uploaded image holds this HTML.
    PageFetched(String),
    /// The job submission was answered with this reply.
    JobSubmitted(JobRespose),
    /// A poll was answered with this reply.
    Polled(PollingResponse),
    /// `output/` exists.
    OutputReady,
    /// The video was downloaded.
    Downloaded,
    /// The video was upscaled or copied.
    Processed,
    /// The temporary download was removed (or could not be, which only
    /// warrants a warning).
    TempRemoved,
}

/// Why a run stopped.
#[derive(Debug, PartialEq, Eq)]
pub enum PipelineError {
    Upload(UploadError),
    Link(LinkError),
    Job(JobError),
    Poll(PollError),
    /// The event does not answer the action of the stage.
    OutOfOrder,
}

/// What to do next.
#[derive(Debug, PartialEq, Eq)]
pub enum Action {
    /// Upload the image at this path to tmpfiles.org.
    UploadImage(String),
    /// Fetch the HTML of this page.
    FetchPage(String),
    /// Submit this generation request.
    SubmitJob(VideoRequest),
    /// Poll the job at `url`, after waiting `delay_secs` seconds.
    Poll { url: String, delay_secs: u64 },
    /// Create the directory `output/`.
    CreateOutputDir,
    /// Download `url` into the file `to`.
    Download { url: String, to: String },
    /// Upscale `input` into `output`, the longer side to `long_side` pixels.
    Upscale { input: String, output: String, long_side: u32 },
    /// Copy `from` to `to`.
    Copy { from: String, to: String },
    /// Remove this temporary file.
    RemoveTemp(String),
    /// The run is complete.
    Finish,
    /// Stop with this error.
    Fail(PipelineError),
}

/// The temporary file of video `index` of the run `job_id`:
/// `/tmp/<job_id>-<index>.mp4`.
pub open spec fn tmp_path(job_id: Seq<char>, index: nat) -> Seq<char> {
    seq!['/', 't', 'm', 'p', '/'] + job_id + seq!['-'] + decimal(index) + seq!['.', 'm', 'p', '4']
}

/// The output file of video `index` of the run `job_id`:
/// `output/<job_id>-<index>.mp4`.
pub open spec fn out_path(job_id: Seq<char>, index: nat) -> Seq<char> {
    seq!['o', 'u', 't', 'p', 'u', 't', '/'] + job_id + seq!['-'] + decimal(index) + seq![
        '.',
        'm',
        'p',
        '4',
    ]
}

/// The temporary file of video `index` of the run `job_id`.
pub fn temp_video_path(job_id: &str, index: usize) -> (r: String)
    ensures
        r@ == tmp_path(job_id@, index as nat),
{
    let mut out: Vec<char> = Vec::new();
    out.push('/');
    out.push('t');
    out.push('m');
    out.push('p');
    out.push('/');
    push_str(&mut out, job_id);
    out.push('-');
    push_decimal(&mut out, index as u64);
    out.push('.');
    out.push('m');
    out.push('p');
    out.push('4');
    assert(out@ =~= tmp_path(job_id@, index as nat));
    chars_to_string(out)
}

/// The output file of video `index` of the run `job_id`.
pub fn output_video_path(job_id: &str, index: usize) -> (r: String)
    ensures
        r@ == out_path(job_id@, index as nat),
{
    let mut out: Vec<char> = Vec::new();
    out.push('o');
    out.push('u');
    out.push('t');
    out.push('p');
    out.push('u');
    out.push('t');
    out.push('/');
    push_str(&mut out, job_id);
    out.push('-');
    push_decimal(&mut out, index as u64);
    out.push('.');
    out.push('m');
    out.push('p');
    out.push('4');
    assert(out@ =~= out_path(job_id@, index as nat));
    chars_to_string(out)
}

/// Whether `req` is the generation request of the run `c`, with the image
/// link `link` as its only reference when there is one.
pub open spec fn request_for(c: PipelineConfig, link: Option<Seq<char>>, req: VideoRequest) -> bool {
    &&& req.model == c.args.model
    &&& req.prompt == c.args.prompt
    &&& req.duration == c.args.duration
    &&& req.resolution == c.args.resolution
    &&& req.aspect_ratio == c.args.aspect_ratio
    &&& req.size is None
    &&& match link {
        None => req.input_references is None,
        Some(l) => req.input_references matches Some(refs) && refs@.len() == 1
            && refs@[0]._type@ == image_url_tag() && refs@[0].image_url.url@ == l,
    }
}

/// Whether `a` submits the generation request of the run `c`.
pub open spec fn submits(c: PipelineConfig, link: Option<Seq<char>>, a: Action) -> bool {
    a matches Action::SubmitJob(req) && request_for(c, link, req)
}

/// Whether `a` removes the temporary download of video `index`.
pub open spec fn removes_temp(c: PipelineConfig, index: int, a: Action) -> bool {
    a matches Action::RemoveTemp(p) && p@ == tmp_path(c.job_id@, index as nat)
}

/// Whether `a` downloads video `index` of `urls` into its temporary file.
pub open spec fn downloads(c: PipelineConfig, urls: Vec<String>, index: int, a: Action) -> bool {
    a matches Action::Download { url, to } && url == urls@[index] && to@ == tmp_path(
        c.job_id@,
        index as nat,
    )
}

/// Whether `a` moves the download of video `index` into `output/`: an
/// upscale to the configured size, or a plain copy when none is set.
pub open spec fn processes(c: PipelineConfig, index: int, a: Action) -> bool {
    match c.args.upscale_to {
        Some(size) => a matches Action::Upscale { input, output, long_side } && input@ == tmp_path(
            c.job_id@,
            index as nat,
        ) && output@ == out_path(c.job_id@, index as nat) && long_side == size,
        None => a matches Action::Copy { from, to } && from@ == tmp_path(c.job_id@, index as nat)
            && to@ == out_path(c.job_id@, index as nat),
    }
}

/// Whether a failed run reports the message `m` of a service error `e`.
pub open spec fn fails_with_message(
    a: Action,
    e: crate::api::openrouter::external::ResponseError,
    in_poll: bool,
) -> bool {
    if in_poll {
        a matches Action::Fail(PipelineError::Poll(PollError::Api(m))) && m@ == error_message(e)
    } else {
        a matches Action::Fail(PipelineError::Job(JobError::Api(m))) && m@ == error_message(e)
    }
}

/// The transition of the run `c` from `s` on the event `e` to `s2` with the
/// action `a`. An event that does not answer the stage's action fails the
/// run.
pub open spec fn transition(c: PipelineConfig, s: Stage, e: Event, s2: Stage, a: Action) -> bool {
    match (s, e) {
        (Stage::Start, Event::Begin) => match c.args.image {
            Some(path) => s2 == Stage::Uploading && a == Action::UploadImage(path),
            None => s2 == Stage::Submitting && submits(c, None, a),
        },
        (Stage::Uploading, Event::Uploaded(reply)) => match upload_outcome(reply) {
            UploadOutcome::PageUrl(url) => s2 == Stage::ResolvingLink && a == Action::FetchPage(
                url,
            ),
            UploadOutcome::Invalid => s2 == Stage::Failed && a == Action::Fail(
                PipelineError::Upload(UploadError::InvalidResponse(reply)),
            ),
            UploadOutcome::Failed => s2 == Stage::Failed && a == Action::Fail(
                PipelineError::Upload(UploadError::RequestFailed(reply)),
            ),
        },
        (Stage::ResolvingLink, Event::PageFetched(html)) => match download_link(html@) {
            Ok(link) => s2 == Stage::Submitting && submits(c, Some(link), a),
            Err(le) => s2 == Stage::Failed && a == Action::Fail(PipelineError::Link(le)),
        },
        (Stage::Submitting, Event::JobSubmitted(reply)) => match reply.error {
            Some(err) => s2 == Stage::Failed && fails_with_message(a, err, false),
            None => match (reply.id, reply.polling_url) {
                (Some(id), Some(url)) => s2 == Stage::Polling(Job { id, polling_url: url }) && a
                    == Action::Poll { url, delay_secs: 0 },
                _ => s2 == Stage::Failed && a == Action::Fail(
                    PipelineError::Job(JobError::MissingFields(reply)),
                ),
            },
        },
        (Stage::Polling(job), Event::Polled(reply)) => match reply.error {
            Some(err) => s2 == Stage::Failed && fails_with_message(a, err, true),
            None => match reply.status {
                Some(PollStatus::Completed) => match reply.unsigned_urls {
                    Some(urls) => s2 == Stage::PreparingOutput(urls) && a == Action::CreateOutputDir,
                    None => s2 == Stage::Failed && a == Action::Fail(
                        PipelineError::Poll(PollError::NoUrls(reply)),
                    ),
                },
                Some(PollStatus::Failed) => s2 == Stage::Failed && a == Action::Fail(
                    PipelineError::Poll(PollError::Failed(reply)),
                ),
                Some(PollStatus::Cancelled) => s2 == Stage::Failed && a == Action::Fail(
                    PipelineError::Poll(PollError::Cancelled(reply)),
                ),
                Some(PollStatus::Expired) => s2 == Stage::Failed && a == Action::Fail(
                    PipelineError::Poll(PollError::Expired(reply)),
                ),
                _ => s2 == Stage::Polling(job) && a == Action::Poll {
                    url: job.polling_url,
                    delay_secs: POLL_INTERVAL_SECS,
                },
            },
        },
        (Stage::PreparingOutput(urls), Event::OutputReady) => if urls@.len() > 0 {
            s2 == Stage::Transferring { urls, index: 0 } && downloads(c, urls, 0, a)
        } else {
            s2 == Stage::Finished && a == Action::Finish
        },
        (Stage::Transferring { urls, index }, Event::Downloaded) => s2 == Stage::Processing {
            urls,
            index,
        } && processes(c, index as int, a),
        (Stage::Processing { urls, index }, Event::Processed) => s2 == Stage::Cleaning {
            urls,
            index,
        } && removes_temp(c, index as int, a),
        (Stage::Cleaning { urls, index }, Event::TempRemoved) => if index + 1 < urls@.len() {
            s2 == Stage::Transferring { urls, index: (index + 1) as usize } && downloads(
                c,
                urls,
                index + 1,
                a,
            )
        } else {
            s2 == Stage::Finished && a == Action::Finish
        },
        _ => s2 == Stage::Failed && a == Action::Fail(PipelineError::OutOfOrder),
    }
}

/// A stage names only videos that exist.
pub open spec fn stage_wf(s: Stage) -> bool {
    match s {
        Stage::Transferring { urls, index } => index < urls@.len(),
        Stage::Processing { urls, index } => index < urls@.len(),
        Stage::Cleaning { urls, index } => index < urls@.len(),
        _ => true,
    }
}

/// The generation request of the run `c`, with `refs` as its references.
fn video_request(c: &PipelineConfig, refs: Option<Vec<InputReference>>) -> (r: VideoRequest)
    ensures
        r.model == c.args.model,
        r.prompt == c.args.prompt,
        r.duration == c.args.duration,
        r.resolution == c.args.resolution,
        r.aspect_ratio == c.args.aspect_ratio,
        r.size is None,
        r.input_references == refs,
{
    VideoRequest {
        model: c.args.model.clone(),
        prompt: c.args.prompt.clone(),
        duration: c.args.duration,
        resolution: c.args.resolution,
        aspect_ratio: c.args.aspect_ratio,
        size: None,
        input_references: refs,
    }
}

/// The action that moves the download of video `index` into `output/`.
fn process_action(c: &PipelineConfig, index: usize) -> (a: Action)
    ensures
        processes(*c, index as int, a),
{
    let input = temp_video_path(c.job_id.as_str(), index);
    let output = output_video_path(c.job_id.as_str(), index);
    match c.args.upscale_to {
        Some(size) => Action::Upscale { input, output, long_side: size },
        None => Action::Copy { from: input, to: output },
    }
}

/// The action that downloads video `index` of `urls`.
fn download_action(c: &PipelineConfig, urls: &Vec<String>, index: usize) -> (a: Action)
    requires
        index < urls@.len(),
    ensures
        downloads(*c, *urls, index as int, a),
{
    Action::Download { url: urls[index].clone(), to: temp_video_path(c.job_id.as_str(), index) }
}

/// Decides the next stage and action of the run `c` from the stage `s` and
/// the event `e`.
pub fn step(c: &PipelineConfig, s: Stage, e: Event) -> (r: (Stage, Action))
    ensures
        transition(*c, s, e, r.0, r.1),
        stage_wf(s) ==> stage_wf(r.0),
{
    match (s, e) {
        (Stage::Start, Event::Begin) => match &c.args.image {
            Some(path) => (Stage::Uploading, Action::UploadImage(path.clone())),
            None => (Stage::Submitting, Action::SubmitJob(video_request(c, None))),
        },
        (Stage::Uploading, Event::Uploaded(reply)) => match upload_result(reply) {
            Ok(url) => (Stage::ResolvingLink, Action::FetchPage(url)),
            Err(err) => (Stage::Failed, Action::Fail(PipelineError::Upload(err))),
        },
        (Stage::ResolvingLink, Event::PageFetched(html)) => match extract_download_link(
            html.as_str(),
        ) {
            Ok(link) => {
                let ghost l = link@;
                let reference = InputReference::from_url(link);
                let mut refs: Vec<InputReference> = Vec::new();
                refs.push(reference);
                let req = video_request(c, Some(refs));
                assert(request_for(*c, Some(l), req));
                (Stage::Submitting, Action::SubmitJob(req))
            },
            Err(le) => (Stage::Failed, Action::Fail(PipelineError::Link(le))),
        },
        (Stage::Submitting, Event::JobSubmitted(reply)) => match job_from_response(reply) {
            Ok(job) => {
                let url = job.polling_url.clone();
                (Stage::Polling(job), Action::Poll { url, delay_secs: 0 })
            },
            Err(err) => (Stage::Failed, Action::Fail(PipelineError::Job(err))),
        },
        (Stage::Polling(job), Event::Polled(reply)) => match poll_step(reply) {
            PollStep::Done(urls) => (Stage::PreparingOutput(urls), Action::CreateOutputDir),
            PollStep::Wait => {
                let url = job.polling_url.clone();
                (Stage::Polling(job), Action::Poll { url, delay_secs: POLL_INTERVAL_SECS })
            },
            PollStep::Stop(err) => (Stage::Failed, Action::Fail(PipelineError::Poll(err))),
        },
        (Stage::PreparingOutput(urls), Event::OutputReady) => {
            if urls.len() > 0 {
                let a = download_action(c, &urls, 0);
                (Stage::Transferring { urls, index: 0 }, a)
            } else {
                (Stage::Finished, Action::Finish)
            }
        },
        (Stage::Transferring { urls, index }, Event::Downloaded) => {
            let a = process_action(c, index);
            (Stage::Processing { urls, index }, a)
        },
        (Stage::Processing { urls, index }, Event::Processed) => {
            let p = temp_video_path(c.job_id.as_str(), index);
            (Stage::Cleaning { urls, index }, Action::RemoveTemp(p))
        },
        (Stage::Cleaning { urls, index }, Event::TempRemoved) => {
            if index < urls.len() && index + 1 < urls.len() {
                let a = download_action(c, &urls, index + 1);
                (Stage::Transferring { urls, index: index + 1 }, a)
            } else {
                (Stage::Finished, Action::Finish)
            }
        },
        _ => (Stage::Failed, Action::Fail(PipelineError::OutOfOrder)),
    }
}

/// Distinct videos of a run get distinct temporary files and distinct
/// output files, and no temporary file of any run is an output file.
pub proof fn law_video_paths_distinct(job_id: Seq<char>, i: nat, j: nat, other_id: Seq<char>)
    ensures
        i != j ==> tmp_path(job_id, i) != tmp_path(job_id, j),
        i != j ==> out_path(job_id, i) != out_path(job_id, j),
        tmp_path(job_id, i) != out_path(other_id, j),
{
    assert(tmp_path(job_id, i)[0] == '/');
    assert(out_path(other_id, j)[0] == 'o');
    if i != j {
        law_decimal_injective(i, j);
        let pt = seq!['/', 't', 'm', 'p', '/'] + job_id + seq!['-'];
        let po = seq!['o', 'u', 't', 'p', 'u', 't', '/'] + job_id + seq!['-'];
        let sfx = seq!['.', 'm', 'p', '4'];
        assert(tmp_path(job_id, i) =~= pt + decimal(i) + sfx);
        assert(tmp_path(job_id, j) =~= pt + decimal(j) + sfx);
        assert(out_path(job_id, i) =~= po + decimal(i) + sfx);
        assert(out_path(job_id, j) =~= po + decimal(j) + sfx);
        if tmp_path(job_id, i) == tmp_path(job_id, j) {
            assert(decimal(i).len() == decimal(j).len());
            assert(decimal(i) =~= (pt + decimal(i) + sfx).subrange(
                pt.len() as int,
                (pt.len() + decimal(i).len()) as int,
            ));
            assert(decimal(j) =~= (pt + decimal(j) + sfx).subrange(
                pt.len() as int,
                (pt.len() + decimal(j).len()) as int,
            ));
        }
        if out_path(job_id, i) == out_path(job_id, j) {
            assert(decimal(i).len() == decimal(j).len());
            assert(decimal(i) =~= (po + decimal(i) + sfx).subrange(
                po.len() as int,
                (po.len() + decimal(i).len()) as int,
            ));
            assert(decimal(j) =~= (po + decimal(j) + sfx).subrange(
                po.len() as int,
                (po.len() + decimal(j).len()) as int,
            ));
        }
    }
}

/// How far a stage is from the start of the run: the later the phase, the
/// smaller.
pub open spec fn phase(s: Stage) -> nat {
    match s {
        Stage::Start => 5,
        Stage::Uploading => 4,
        Stage::ResolvingLink => 3,
        Stage::Submitting => 2,
        Stage::Polling(_) => 1,
        _ => 0,
    }
}

/// The steps left once the videos are known: three per video still to be
/// moved into `output/`, one more to prepare `output/`.
pub open spec fn work_left(s: Stage) -> nat {
    match s {
        Stage::PreparingOutput(urls) => 3 * urls@.len() + 1,
        Stage::Transferring { urls, index } => (3 * (urls@.len() - index)) as nat,
        Stage::Processing { urls, index } => (3 * (urls@.len() - index) - 1) as nat,
        Stage::Cleaning { urls, index } => (3 * (urls@.len() - index) - 2) as nat,
        _ => 0,
    }
}

/// Whether `s2` is nearer the end of a run than `s`.
pub open spec fn nearer_end(s2: Stage, s: Stage) -> bool {
    phase(s2) < phase(s) || (phase(s2) == 0 && phase(s) == 0 && work_left(s2) < work_left(s))
}

/// Every step that neither fails the run nor polls a still-running job
/// again brings the run nearer its end: a run that does not fail finishes
/// once its job completes.
pub proof fn law_steps_progress(c: PipelineConfig, s: Stage, e: Event, s2: Stage, a: Action)
    requires
        stage_wf(s),
        transition(c, s, e, s2, a),
        !(s2 is Failed),
        !(s is Polling && s2 is Polling),
    ensures
        nearer_end(s2, s),
{
    match (s, e) {
        (Stage::PreparingOutput(urls), Event::OutputReady) => {},
        (Stage::Transferring { urls, index }, Event::Downloaded) => {},
        (Stage::Processing { urls, index }, Event::Processed) => {},
        (Stage::Cleaning { urls, index }, Event::TempRemoved) => {
            if index + 1 < urls@.len() {
                assert(urls.len() == urls@.len());
                assert(((index + 1) as usize) as int == index + 1);
            }
        },
        _ => {},
    }
}

/// A run that has finished or failed does no further work: whatever event
/// comes, it answers with the out-of-order failure.
pub proof fn law_terminal_stages(c: PipelineConfig, s: Stage, e: Event, s2: Stage, a: Action)
    requires
        s is Finished || s is Failed,
        transition(c, s, e, s2, a),
    ensures
        s2 is Failed,
        a == Action::Fail(PipelineError::OutOfOrder),
{
}

/// Once the job has completed with at least one video and `output/`
/// exists, the run downloads the first video into `/tmp/<job_id>-0.mp4`.
pub proof fn law_first_video_downloaded(c: PipelineConfig, urls: Vec<String>, s2: Stage, a: Action)
    requires
        urls@.len() > 0,
        transition(c, Stage::PreparingOutput(urls), Event::OutputReady, s2, a),
    ensures
        s2 == (Stage::Transferring { urls, index: 0 }),
        a matches Action::Download { url, to } && url == urls@[0] && to@ == seq![
            '/',
            't',
            'm',
            'p',
            '/',
        ] + c.job_id@ + seq!['-', '0', '.', 'm', 'p', '4'],
{
    if let Action::Download { url, to } = a {
        assert(decimal(0) == seq!['0']);
        assert(to@ =~= seq!['/', 't', 'm', 'p', '/'] + c.job_id@ + seq!['-', '0', '.', 'm', 'p', '4']);
    }
}

/// Whether `a` downloads video `k` of `urls` into its temporary file.
pub open spec fn is_download_of(c: PipelineConfig, urls: Vec<String>, k: int, a: Action) -> bool {
    a matches Action::Download { url, to } && url == urls@[k] && to@ == tmp_path(c.job_id@, k as nat)
}

/// Whether `a` writes video `k` from its temporary file into its output
/// file: upscaled to the configured size when one is set, copied otherwise.
pub open spec fn is_output_of(c: PipelineConfig, k: int, a: Action) -> bool {
    match c.args.upscale_to {
        Some(size) => a matches Action::Upscale { input, output, long_side } && input@ == tmp_path(
            c.job_id@,
            k as nat,
        ) && output@ == out_path(c.job_id@, k as nat) && long_side == size,
        None => a matches Action::Copy { from, to } && from@ == tmp_path(c.job_id@, k as nat) && to@
            == out_path(c.job_id@, k as nat),
    }
}

/// Whether `a` removes the temporary file of video `k`.
pub open spec fn is_removal_of(c: PipelineConfig, k: int, a: Action) -> bool {
    a matches Action::RemoveTemp(p) && p@ == tmp_path(c.job_id@, k as nat)
}

/// Whether one of `acts` downloads video `k`.
pub open spec fn downloaded(c: PipelineConfig, urls: Vec<String>, acts: Seq<Action>, k: int) -> bool {
    exists|j: int| 0 <= j < acts.len() && #[trigger] is_download_of(c, urls, k, acts[j])
}

/// Whether one of `acts` writes video `k` into `output/`.
pub open spec fn output_written(c: PipelineConfig, acts: Seq<Action>, k: int) -> bool {
    exists|j: int| 0 <= j < acts.len() && #[trigger] is_output_of(c, k, acts[j])
}

/// Whether one of `acts` removes the temporary file of video `k`.
pub open spec fn temp_removed(c: PipelineConfig, acts: Seq<Action>, k: int) -> bool {
    exists|j: int| 0 <= j < acts.len() && #[trigger] is_removal_of(c, k, acts[j])
}

/// Whether `acts` download each of the first `n` videos, write it into
/// `output/` and remove its temporary file.
pub open spec fn videos_done(c: PipelineConfig, urls: Vec<String>, acts: Seq<Action>, n: int) -> bool {
    forall|k: int|
        #![trigger downloaded(c, urls, acts, k)]
        0 <= k < n ==> downloaded(c, urls, acts, k) && output_written(c, acts, k) && temp_removed(
            c,
            acts,
            k,
        )
}

/// Whether `stages`, `events` and `actions` are a run of `c`: each stage
/// steps on its event to the next stage with its action.
pub open spec fn is_run(
    c: PipelineConfig,
    stages: Seq<Stage>,
    events: Seq<Event>,
    actions: Seq<Action>,
) -> bool {
    &&& stages.len() == events.len() + 1
    &&& actions.len() == events.len()
    &&& forall|t: int|
        0 <= t < events.len() ==> #[trigger] transition(
            c,
            stages[t],
            events[t],
            stages[t + 1],
            actions[t],
        )
}

/// What has been done for the videos `urls` by the time the run stands at
/// `s` after the actions `acts`.
pub open spec fn videos_progress(c: PipelineConfig, urls: Vec<String>, s: Stage, acts: Seq<Action>) -> bool {
    match s {
        Stage::PreparingOutput(u) => u == urls,
        Stage::Transferring { urls: u, index } => u == urls && index < urls@.len() && videos_done(
            c,
            urls,
            acts,
            index as int,
        ) && downloaded(c, urls, acts, index as int),
        Stage::Processing { urls: u, index } => u == urls && index < urls@.len() && videos_done(
            c,
            urls,
            acts,
            index as int,
        ) && downloaded(c, urls, acts, index as int) && output_written(c, acts, index as int),
        Stage::Cleaning { urls: u, index } => u == urls && index < urls@.len() && videos_done(
            c,
            urls,
            acts,
            index + 1,
        ),
        Stage::Finished => videos_done(c, urls, acts, urls@.len() as int),
        Stage::Failed => true,
        _ => false,
    }
}

/// More actions keep the downloads that earlier ones made.
proof fn lemma_downloaded_push(c: PipelineConfig, urls: Vec<String>, acts: Seq<Action>, a: Action, k: int)
    requires
        downloaded(c, urls, acts, k),
    ensures
        downloaded(c, urls, acts.push(a), k),
{
    let j = choose|j: int| 0 <= j < acts.len() && #[trigger] is_download_of(c, urls, k, acts[j]);
    assert(acts.push(a)[j] == acts[j]);
    assert(is_download_of(c, urls, k, acts.push(a)[j]));
}

/// More actions keep the outputs that earlier ones wrote.
proof fn lemma_output_written_push(c: PipelineConfig, acts: Seq<Action>, a: Action, k: int)
    requires
        output_written(c, acts, k),
    ensures
        output_written(c, acts.push(a), k),
{
    let j = choose|j: int| 0 <= j < acts.len() && #[trigger] is_output_of(c, k, acts[j]);
    assert(acts.push(a)[j] == acts[j]);
    assert(is_output_of(c, k, acts.push(a)[j]));
}

/// More actions keep the removals that earlier ones made.
proof fn lemma_temp_removed_push(c: PipelineConfig, acts: Seq<Action>, a: Action, k: int)
    requires
        temp_removed(c, acts, k),
    ensures
        temp_removed(c, acts.push(a), k),
{
    let j = choose|j: int| 0 <= j < acts.len() && #[trigger] is_removal_of(c, k, acts[j]);
    assert(acts.push(a)[j] == acts[j]);
    assert(is_removal_of(c, k, acts.push(a)[j]));
}

/// More actions keep what earlier ones did.
proof fn lemma_videos_done_push(c: PipelineConfig, urls: Vec<String>, acts: Seq<Action>, a: Action, n: int)
    requires
        videos_done(c, urls, acts, n),
    ensures
        videos_done(c, urls, acts.push(a), n),
{
    assert forall|k: int| 0 <= k < n implies #[trigger] downloaded(c, urls, acts.push(a), k)
        && output_written(c, acts.push(a), k) && temp_removed(c, acts.push(a), k) by {
        assert(downloaded(c, urls, acts, k));
        lemma_downloaded_push(c, urls, acts, a, k);
        lemma_output_written_push(c, acts, a, k);
        lemma_temp_removed_push(c, acts, a, k);
    }
}

/// Videos `0..n` done and video `n` done make videos `0..=n` done.
proof fn lemma_videos_done_extend(c: PipelineConfig, urls: Vec<String>, acts: Seq<Action>, n: int)
    requires
        videos_done(c, urls, acts, n),
        downloaded(c, urls, acts, n),
        output_written(c, acts, n),
        temp_removed(c, acts, n),
    ensures
        videos_done(c, urls, acts, n + 1),
{
    assert forall|k: int| 0 <= k < n + 1 implies #[trigger] downloaded(c, urls, acts, k)
        && output_written(c, acts, k) && temp_removed(c, acts, k) by {
        if k < n {
            assert(downloaded(c, urls, acts, k));
        }
    }
}

/// One step keeps the account of what has been done for the videos.
proof fn lemma_videos_progress_step(
    c: PipelineConfig,
    urls: Vec<String>,
    s: Stage,
    e: Event,
    s2: Stage,
    a: Action,
    acts: Seq<Action>,
)
    requires
        videos_progress(c, urls, s, acts),
        transition(c, s, e, s2, a),
    ensures
        videos_progress(c, urls, s2, acts.push(a)),
{
    let acts2 = acts.push(a);
    let t = acts.len() as int;
    assert(acts2[t] == a);
    match (s, e) {
        (Stage::PreparingOutput(u), Event::OutputReady) => {
            if u@.len() > 0 {
                assert(is_download_of(c, urls, 0, acts2[t]));
            }
        },
        (Stage::Transferring { urls: u, index }, Event::Downloaded) => {
            if u == urls {
                lemma_videos_done_push(c, urls, acts, a, index as int);
                lemma_downloaded_push(c, urls, acts, a, index as int);
                assert(is_output_of(c, index as int, acts2[t]));
                assert(output_written(c, acts2, index as int));
            }
        },
        (Stage::Processing { urls: u, index }, Event::Processed) => {
            if u == urls {
                lemma_videos_done_push(c, urls, acts, a, index as int);
                lemma_downloaded_push(c, urls, acts, a, index as int);
                lemma_output_written_push(c, acts, a, index as int);
                assert(is_removal_of(c, index as int, acts2[t]));
                assert(temp_removed(c, acts2, index as int));
                lemma_videos_done_extend(c, urls, acts2, index as int);
            }
        },
        (Stage::Cleaning { urls: u, index }, Event::TempRemoved) => {
            lemma_videos_done_push(c, urls, acts, a, index + 1);
            if index + 1 < u@.len() {
                assert(u.len() == u@.len());
                assert(((index + 1) as usize) as int == index + 1);
                assert(is_download_of(c, urls, index + 1, acts2[t]));
            }
        },
        _ => {},
    }
}

/// Along a run from the completed job, what has been done for the videos
/// matches where the run stands.
proof fn lemma_run_progress(
    c: PipelineConfig,
    urls: Vec<String>,
    stages: Seq<Stage>,
    events: Seq<Event>,
    actions: Seq<Action>,
    t: int,
)
    requires
        is_run(c, stages, events, actions),
        stages[0] == Stage::PreparingOutput(urls),
        0 <= t <= events.len(),
    ensures
        videos_progress(c, urls, stages[t], actions.take(t)),
    decreases t,
{
    if t == 0 {
        assert(actions.take(0) =~= Seq::<Action>::empty());
    } else {
        lemma_run_progress(c, urls, stages, events, actions, t - 1);
        let u = t - 1;
        assert(transition(c, stages[u], events[u], stages[u + 1], actions[u]));
        assert(u + 1 == t);
        lemma_videos_progress_step(
            c,
            urls,
            stages[t - 1],
            events[t - 1],
            stages[t],
            actions[t - 1],
            actions.take(t - 1),
        );
        assert(actions.take(t - 1).push(actions[t - 1]) =~= actions.take(t));
    }
}

/// Every video of a completed job reaches `output/`: in a run that starts
/// once the job has completed with the videos `urls` and ends finished,
/// every video is downloaded into its temporary file, upscaled from it into
/// its output file when a size is set (copied otherwise), and its temporary
/// file removed.
pub proof fn law_every_video_reaches_output(
    c: PipelineConfig,
    urls: Vec<String>,
    stages: Seq<Stage>,
    events: Seq<Event>,
    actions: Seq<Action>,
)
    requires
        is_run(c, stages, events, actions),
        stages[0] == Stage::PreparingOutput(urls),
        stages.last() is Finished,
    ensures
        forall|k: int|
            #![trigger downloaded(c, urls, actions, k)]
            0 <= k < urls@.len() ==> downloaded(c, urls, actions, k) && output_written(c, actions, k)
                && temp_removed(c, actions, k),
{
    let n = events.len() as int;
    lemma_run_progress(c, urls, stages, events, actions, n);
    assert(actions.take(n) =~= actions);
    assert(stages[n] == stages.last());
}

/// Polling keeps to the job: while the job is pending or in progress (or
/// its state is not given) the run polls the job's own polling URL again
/// after 30 seconds; a completed job with video URLs moves the run on to
/// those very videos; an error or a failed, cancelled or expired job ends
/// the run.
pub proof fn law_polling(c: PipelineConfig, job: Job, reply: PollingResponse, s2: Stage, a: Action)
    requires
        transition(c, Stage::Polling(job), Event::Polled(reply), s2, a),
    ensures
        a is Poll ==> s2 == Stage::Polling(job) && a == (Action::Poll {
            url: job.polling_url,
            delay_secs: 30,
        }),
        reply.error is None && (reply.status is None || reply.status == Some(PollStatus::Pending)
            || reply.status == Some(PollStatus::InProgress)) ==> a is Poll,
        reply.error is None && reply.status == Some(PollStatus::Completed)
            && reply.unsigned_urls is Some ==> s2 == Stage::PreparingOutput(
            reply.unsigned_urls->0,
        ) && a is CreateOutputDir,
        reply.error is Some ==> s2 is Failed && a is Fail,
        reply.status == Some(PollStatus::Failed) || reply.status == Some(PollStatus::Cancelled)
            || reply.status == Some(PollStatus::Expired) ==> s2 is Failed && a is Fail,
{
}

/// The reference image flows into the request: a run with `--image p`
/// first uploads `p`, and once the page of the upload yields the link `l`,
/// the submitted request carries exactly one reference, of type
/// `image_url`, to `l`, with the run's prompt, model, duration, resolution
/// and aspect ratio. A run without an image submits a request without
/// references straight away.
pub proof fn law_image_reaches_request(
    c: PipelineConfig,
    html: String,
    s1: Stage,
    a1: Action,
    s2: Stage,
    a2: Action,
)
    requires
        transition(c, Stage::Start, Event::Begin, s1, a1),
        transition(c, Stage::ResolvingLink, Event::PageFetched(html), s2, a2),
    ensures
        c.args.image matches Some(p) ==> s1 == Stage::Uploading && a1 == Action::UploadImage(p),
        c.args.image is None ==> s1 == Stage::Submitting && (a1 matches Action::SubmitJob(req)
            && req.input_references is None && req.prompt == c.args.prompt && req.model
            == c.args.model),
        download_link(html@) matches Ok(l) ==> (a2 matches Action::SubmitJob(req) && {
            &&& req.input_references matches Some(refs)
            &&& refs@.len() == 1
            &&& refs@[0]._type@ == seq!['i', 'm', 'a', 'g', 'e', '_', 'u', 'r', 'l']
            &&& refs@[0].image_url.url@ == l
            &&& req.prompt == c.args.prompt
            &&& req.model == c.args.model
            &&& req.duration == c.args.duration
            &&& req.resolution == c.args.resolution
            &&& req.aspect_ratio == c.args.aspect_ratio
            &&& req.size is None
        }),
{
}

} // verus!
