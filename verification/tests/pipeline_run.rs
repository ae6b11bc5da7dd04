use upscale_pipeline::api::openrouter::client::{JobError, PollError};
use upscale_pipeline::api::tmpfiles::{ApiResponse, ApiResponseDataField, LinkError, UploadError};
use upscale_pipeline::api::{
    AspectRatio, Job, JobRespose, PollStatus, PollingResponse, Resolution, ResponseError,
};
use upscale_pipeline::cli::Args;
use upscale_pipeline::pipeline::{
    output_video_path, step, temp_video_path, Action, Event, PipelineConfig, PipelineError, Stage,
};

fn config(image: Option<&str>, upscale_to: Option<u32>) -> PipelineConfig {
    PipelineConfig {
        args: Args {
            prompt: "A mountain".to_string(),
            image: image.map(String::from),
            aspect_ratio: Some(AspectRatio::Landscape),
            duration: 4,
            model: "m".to_string(),
            resolution: Some(Resolution::HD),
            upscale_to,
        },
        job_id: "abc".to_string(),
    }
}

fn job_reply() -> JobRespose {
    JobRespose {
        id: Some("job-1".to_string()),
        polling_url: Some("https://p/1".to_string()),
        status: None,
        error: None,
    }
}

fn poll_reply(status: PollStatus, urls: Option<Vec<&str>>) -> PollingResponse {
    PollingResponse {
        id: Some("job-1".to_string()),
        polling_url: None,
        status: Some(status),
        unsigned_urls: urls.map(|v| v.into_iter().map(String::from).collect()),
        usage: None,
        error: None,
    }
}

fn s(x: &str) -> String {
    x.to_string()
}

#[test]
fn paths_of_videos() {
    assert_eq!(temp_video_path("abc", 12), "/tmp/abc-12.mp4");
    assert_eq!(output_video_path("abc", 0), "output/abc-0.mp4");
    assert_ne!(temp_video_path("abc", 1), temp_video_path("abc", 11));
    assert_ne!(output_video_path("a", 1), output_video_path("a", 2));
}

#[test]
fn run_with_image_and_upscaling() {
    let c = config(Some("ref.jpg"), Some(1920));
    let (st, a) = step(&c, Stage::Start, Event::Begin);
    assert_eq!(st, Stage::Uploading);
    assert_eq!(a, Action::UploadImage(s("ref.jpg")));

    let reply = ApiResponse {
        status: Some(s("success")),
        data: Some(ApiResponseDataField { url: s("https://tmpfiles.org/1/ref.jpg") }),
    };
    let (st, a) = step(&c, st, Event::Uploaded(reply));
    assert_eq!(st, Stage::ResolvingLink);
    assert_eq!(a, Action::FetchPage(s("https://tmpfiles.org/1/ref.jpg")));

    let html = s("<a class=\"download\" href=\"https://tmpfiles.org/dl/1/ref.jpg\">");
    let (st, a) = step(&c, st, Event::PageFetched(html));
    assert_eq!(st, Stage::Submitting);
    match a {
        Action::SubmitJob(req) => {
            assert_eq!(req.model, "m");
            assert_eq!(req.prompt, "A mountain");
            assert_eq!(req.duration, 4);
            assert_eq!(req.resolution, Some(Resolution::HD));
            assert_eq!(req.aspect_ratio, Some(AspectRatio::Landscape));
            assert_eq!(req.size, None);
            let refs = req.input_references.unwrap();
            assert_eq!(refs.len(), 1);
            assert_eq!(refs[0]._type, "image_url");
            assert_eq!(refs[0].image_url.url, "https://tmpfiles.org/dl/1/ref.jpg");
        }
        other => panic!("unexpected {:?}", other),
    }

    let (st, a) = step(&c, st, Event::JobSubmitted(job_reply()));
    assert_eq!(st, Stage::Polling(Job { id: s("job-1"), polling_url: s("https://p/1") }));
    assert_eq!(a, Action::Poll { url: s("https://p/1"), delay_secs: 0 });

    let (st, a) = step(&c, st, Event::Polled(poll_reply(PollStatus::InProgress, None)));
    assert_eq!(a, Action::Poll { url: s("https://p/1"), delay_secs: 30 });

    let (st, a) = step(&c, st, Event::Polled(poll_reply(PollStatus::Completed, Some(vec!["v0", "v1"]))));
    assert_eq!(st, Stage::PreparingOutput(vec![s("v0"), s("v1")]));
    assert_eq!(a, Action::CreateOutputDir);

    let mut st = st;
    let (next, a) = step(&c, st, Event::OutputReady);
    st = next;
    assert_eq!(a, Action::Download { url: s("v0"), to: s("/tmp/abc-0.mp4") });
    for i in 0..2usize {
        let (next, a) = step(&c, st, Event::Downloaded);
        st = next;
        assert_eq!(
            a,
            Action::Upscale {
                input: format!("/tmp/abc-{i}.mp4"),
                output: format!("output/abc-{i}.mp4"),
                long_side: 1920
            }
        );
        let (next, a) = step(&c, st, Event::Processed);
        st = next;
        assert_eq!(a, Action::RemoveTemp(format!("/tmp/abc-{i}.mp4")));
        let (next, a) = step(&c, st, Event::TempRemoved);
        st = next;
        if i == 0 {
            assert_eq!(a, Action::Download { url: s("v1"), to: s("/tmp/abc-1.mp4") });
        } else {
            assert_eq!(a, Action::Finish);
            assert_eq!(st, Stage::Finished);
        }
    }
}

#[test]
fn run_without_image_copies() {
    let c = config(None, None);
    let (st, a) = step(&c, Stage::Start, Event::Begin);
    assert_eq!(st, Stage::Submitting);
    match a {
        Action::SubmitJob(req) => assert_eq!(req.input_references, None),
        other => panic!("unexpected {:?}", other),
    }
    let st = Stage::Transferring { urls: vec![s("v0")], index: 0 };
    let (_, a) = step(&c, st, Event::Downloaded);
    assert_eq!(a, Action::Copy { from: s("/tmp/abc-0.mp4"), to: s("output/abc-0.mp4") });
}

#[test]
fn no_videos_finishes_at_once() {
    let c = config(None, None);
    let (st, a) = step(&c, Stage::PreparingOutput(vec![]), Event::OutputReady);
    assert_eq!(st, Stage::Finished);
    assert_eq!(a, Action::Finish);
}

#[test]
fn failures_stop_the_run() {
    let c = config(Some("x"), None);
    let bad_upload = ApiResponse { status: Some(s("error")), data: None };
    let (st, a) = step(&c, Stage::Uploading, Event::Uploaded(bad_upload));
    assert_eq!(st, Stage::Failed);
    assert_eq!(
        a,
        Action::Fail(PipelineError::Upload(UploadError::RequestFailed(ApiResponse {
            status: Some(s("error")),
            data: None
        })))
    );
    let (_, a) = step(&c, Stage::ResolvingLink, Event::PageFetched(s("<html/>")));
    assert_eq!(a, Action::Fail(PipelineError::Link(LinkError::NoDownloadLine)));
    let mut reply = job_reply();
    reply.error = Some(ResponseError::Simple(s("denied")));
    let (_, a) = step(&c, Stage::Submitting, Event::JobSubmitted(reply));
    assert_eq!(a, Action::Fail(PipelineError::Job(JobError::Api(s("denied")))));
    let job = Job { id: s("j"), polling_url: s("u") };
    let (st, a) = step(&c, Stage::Polling(job), Event::Polled(poll_reply(PollStatus::Expired, None)));
    assert_eq!(st, Stage::Failed);
    assert_eq!(
        a,
        Action::Fail(PipelineError::Poll(PollError::Expired(poll_reply(PollStatus::Expired, None))))
    );
}

#[test]
fn out_of_order_events_fail() {
    let c = config(None, None);
    let (st, a) = step(&c, Stage::Start, Event::Downloaded);
    assert_eq!(st, Stage::Failed);
    assert_eq!(a, Action::Fail(PipelineError::OutOfOrder));
    let (_, a) = step(&c, Stage::Finished, Event::Begin);
    assert_eq!(a, Action::Fail(PipelineError::OutOfOrder));
}
