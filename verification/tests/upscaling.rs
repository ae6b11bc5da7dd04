use upscale_pipeline::upscale::{
    ffmpeg_args, ffprobe_args, filter_graph, parse_dimensions, probe_result, scale_spec,
    encode_result, EncodeError, ProbeError,
};

#[test]
fn dimensions_are_read() {
    assert_eq!(parse_dimensions("1920x1080\n"), Ok((1920, 1080)));
    assert_eq!(parse_dimensions("  640x480  "), Ok((640, 480)));
    assert_eq!(parse_dimensions("+8x+9"), Ok((8, 9)));
}

#[test]
fn dimensions_without_separator() {
    assert_eq!(parse_dimensions(" 1080 \n"), Err(ProbeError::UnexpectedOutput("1080".to_string())));
    assert_eq!(parse_dimensions(""), Err(ProbeError::UnexpectedOutput(String::new())));
}

#[test]
fn dimensions_bad_numbers() {
    assert_eq!(parse_dimensions("axb"), Err(ProbeError::InvalidWidth));
    assert_eq!(parse_dimensions("x5"), Err(ProbeError::InvalidWidth));
    assert_eq!(parse_dimensions("10xb"), Err(ProbeError::InvalidHeight));
    assert_eq!(parse_dimensions("10x20x30"), Err(ProbeError::InvalidHeight));
    assert_eq!(parse_dimensions("10 x 20"), Err(ProbeError::InvalidWidth));
}

#[test]
fn dimensions_zero_refused() {
    assert_eq!(parse_dimensions("0x5"), Err(ProbeError::ZeroDimensions(0, 5)));
    assert_eq!(parse_dimensions("5x0"), Err(ProbeError::ZeroDimensions(5, 0)));
}

#[test]
fn probe_results() {
    assert_eq!(
        probe_result(false, b"1x1".to_vec(), b"boom".to_vec()),
        Err(ProbeError::Failed(b"boom".to_vec()))
    );
    assert_eq!(probe_result(true, vec![0xff, 0x78, 0x31], vec![]), Err(ProbeError::NotUtf8));
    assert_eq!(probe_result(true, b"1280x720\n".to_vec(), vec![]), Ok((1280, 720)));
}

#[test]
fn longer_side_is_anchored() {
    assert_eq!(scale_spec(1920, 1080, 1920), "1920:-1");
    assert_eq!(scale_spec(720, 1280, 1920), "-1:1920");
    assert_eq!(scale_spec(500, 500, 1280), "1280:-1");
}

#[test]
fn filter_graph_text() {
    assert_eq!(
        filter_graph(854, 480, 1920),
        "hqdn3d=4:3:6:4.5,scale=1920:-1:flags=lanczos+accurate_rnd,cas=0.7"
    );
    assert_eq!(
        filter_graph(480, 854, 1280),
        "hqdn3d=4:3:6:4.5,scale=-1:1280:flags=lanczos+accurate_rnd,cas=0.7"
    );
}

#[test]
fn ffprobe_command_line() {
    assert_eq!(
        ffprobe_args("/tmp/a.mp4"),
        vec!["-v", "error", "-select_streams", "v:0", "-show_entries", "stream=width,height", "-of", "csv=s=x:p=0", "/tmp/a.mp4"]
    );
}

#[test]
fn ffmpeg_command_line() {
    assert_eq!(
        ffmpeg_args("in.mp4", "out.mp4", "VF"),
        vec!["-i", "in.mp4", "-vf", "VF", "-c:v", "libx265", "-preset", "veryslow", "-crf", "16", "-pix_fmt", "yuv420p10le", "-tag:v", "hvc1", "-c:a", "copy", "out.mp4"]
    );
}

#[test]
fn probe_messages() {
    assert_eq!(ProbeError::Failed(b"no such file".to_vec()).message(), "ffprobe exited with error:\nno such file");
    assert_eq!(ProbeError::Failed(vec![b'a', 0xff]).message(), "ffprobe exited with error:\na\u{fffd}");
    assert_eq!(ProbeError::NotUtf8.message(), "ffprobe stdout is not valid UTF-8");
    assert_eq!(ProbeError::UnexpectedOutput("1080".to_string()).message(), "unexpected ffprobe output: '1080'");
    assert_eq!(ProbeError::InvalidWidth.message(), "invalid width from ffprobe");
    assert_eq!(ProbeError::InvalidHeight.message(), "invalid height from ffprobe");
    assert_eq!(ProbeError::ZeroDimensions(0, 720).message(), "video dimensions are zero: 0x720");
}

#[test]
fn encode_results() {
    assert_eq!(encode_result(true), Ok(()));
    assert_eq!(encode_result(false), Err(EncodeError::Failed));
    assert_eq!(EncodeError::Failed.message(), "ffmpeg exited with an error");
}
