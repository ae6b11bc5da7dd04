use upscale_pipeline::api::{AspectRatio, Resolution};
use upscale_pipeline::cli::{
    aspect_ratio, flag, flag_name, parse_args, resolution, resolution_from_lowercase, usage, Args,
    ArgsError, Command, Flag,
};

fn argv(a: &[&str]) -> Vec<String> {
    a.iter().map(|s| s.to_string()).collect()
}

fn run(a: &[&str]) -> Args {
    match parse_args(&argv(a)) {
        Ok(Command::Run(args)) => args,
        other => panic!("unexpected {:?}", other),
    }
}

#[test]
fn help_anywhere() {
    assert_eq!(parse_args(&argv(&["prog", "-p", "x", "--help"])), Ok(Command::Help));
    assert_eq!(parse_args(&argv(&["prog", "--bogus", "-h"])), Ok(Command::Help));
    assert_eq!(parse_args(&argv(&["-h"])), Ok(Command::Help));
    assert_eq!(parse_args(&argv(&["prog", "-p", "--help"])), Ok(Command::Help));
}

#[test]
fn defaults_apply() {
    let a = run(&["prog", "--prompt", "A mountain at sunrise", "--duration", "4"]);
    assert_eq!(a.prompt, "A mountain at sunrise");
    assert_eq!(a.duration, 4);
    assert_eq!(a.model, "bytedance/seedance-2.0-fast");
    assert_eq!(a.resolution, Some(Resolution::SD));
    assert_eq!(a.image, None);
    assert_eq!(a.aspect_ratio, None);
    assert_eq!(a.upscale_to, None);
}

#[test]
fn all_options() {
    let a = run(&[
        "prog", "-p", "clouds", "-i", "assets/ref.jpg", "-a", "16:9", "-d", "-2", "-m", "m/x",
        "-r", "FHD", "-u", "1280",
    ]);
    assert_eq!(a.image, Some("assets/ref.jpg".to_string()));
    assert_eq!(a.aspect_ratio, Some(AspectRatio::Landscape));
    assert_eq!(a.duration, -2);
    assert_eq!(a.model, "m/x");
    assert_eq!(a.resolution, Some(Resolution::FHD));
    assert_eq!(a.upscale_to, Some(1280));
}

#[test]
fn long_option_names_and_size_alias() {
    let a = run(&[
        "prog", "--image", "i.png", "--aspect-ratio", "9:16", "--model", "m", "--resolution",
        "720P", "--size", "1920", "--prompt", "p", "--duration", "8",
    ]);
    assert_eq!(a.aspect_ratio, Some(AspectRatio::Portrait));
    assert_eq!(a.resolution, Some(Resolution::HD));
    assert_eq!(a.upscale_to, Some(1920));
    let b = run(&["prog", "-s", "640", "--upscale", "720", "-p", "p", "-d", "1", "-a", "1:1", "-r", "480p"]);
    assert_eq!(b.upscale_to, Some(720));
    assert_eq!(b.aspect_ratio, Some(AspectRatio::Square));
    assert_eq!(b.resolution, Some(Resolution::SD));
}

#[test]
fn last_value_wins() {
    let a = run(&["prog", "-p", "first", "-d", "1", "-p", "second", "-d", "2"]);
    assert_eq!(a.prompt, "second");
    assert_eq!(a.duration, 2);
}

#[test]
fn missing_values() {
    assert_eq!(parse_args(&argv(&["prog", "-p"])), Err(ArgsError::MissingValue(Flag::Prompt)));
    assert_eq!(
        parse_args(&argv(&["prog", "-p", "x", "--duration"])),
        Err(ArgsError::MissingValue(Flag::Duration))
    );
    assert_eq!(parse_args(&argv(&["prog", "--size"])), Err(ArgsError::MissingValue(Flag::Size)));
    assert_eq!(parse_args(&argv(&["prog", "-u"])), Err(ArgsError::MissingValue(Flag::Upscale)));
}

#[test]
fn invalid_values() {
    assert_eq!(
        parse_args(&argv(&["prog", "-a", "4:3"])),
        Err(ArgsError::InvalidAspectRatio("4:3".to_string()))
    );
    assert_eq!(
        parse_args(&argv(&["prog", "-d", "ten"])),
        Err(ArgsError::InvalidDuration("ten".to_string()))
    );
    assert_eq!(
        parse_args(&argv(&["prog", "-r", "UHD"])),
        Err(ArgsError::InvalidResolution("uhd".to_string()))
    );
    assert_eq!(
        parse_args(&argv(&["prog", "-u", "-5"])),
        Err(ArgsError::InvalidUpscale(Flag::Upscale, "-5".to_string()))
    );
}

#[test]
fn unknown_argument() {
    assert_eq!(
        parse_args(&argv(&["prog", "--foo", "bar"])),
        Err(ArgsError::UnknownArgument("--foo".to_string()))
    );
    assert_eq!(
        parse_args(&argv(&["prog", "-p", "x", "extra"])),
        Err(ArgsError::UnknownArgument("extra".to_string()))
    );
}

#[test]
fn required_options() {
    assert_eq!(parse_args(&argv(&["prog"])), Err(ArgsError::MissingPrompt));
    assert_eq!(parse_args(&argv(&["prog", "-d", "4"])), Err(ArgsError::MissingPrompt));
    assert_eq!(parse_args(&argv(&["prog", "-p", "x"])), Err(ArgsError::MissingDuration));
    assert_eq!(parse_args(&argv(&[])), Err(ArgsError::MissingPrompt));
}

#[test]
fn value_readers() {
    assert_eq!(flag("-r"), Some(Flag::Resolution));
    assert_eq!(flag("--prompts"), None);
    assert_eq!(aspect_ratio("16:9"), Some(AspectRatio::Landscape));
    assert_eq!(aspect_ratio("16/9"), None);
    assert_eq!(resolution_from_lowercase("1080p"), Some(Resolution::FHD));
    assert_eq!(resolution_from_lowercase("SD"), None);
    assert_eq!(resolution("Sd"), Ok(Resolution::SD));
    assert_eq!(resolution("ÜHD"), Err("ühd".to_string()));
}

#[test]
fn size_value_refused_names_size() {
    assert_eq!(
        parse_args(&argv(&["prog", "-s", "big"])),
        Err(ArgsError::InvalidUpscale(Flag::Size, "big".to_string()))
    );
    assert_eq!(
        ArgsError::InvalidUpscale(Flag::Size, "big".to_string()).message(),
        "--size must be a positive integer (pixels)"
    );
}

#[test]
fn error_messages() {
    let u = usage();
    assert!(u.starts_with("Usage: upscale_pipeline --prompt <PROMPT> [OPTIONS]"));
    assert!(u.contains("(default: bytedance/seedance-2.0-fast)"));
    assert_eq!(flag_name(Flag::AspectRatio), "--aspect-ratio");
    assert_eq!(ArgsError::MissingValue(Flag::Prompt).message(), "missing value for --prompt");
    assert_eq!(ArgsError::MissingValue(Flag::Size).message(), "missing value for --size");
    assert_eq!(
        ArgsError::InvalidAspectRatio("4:3".to_string()).message(),
        "invalid aspect ratio '4:3'. Use 1:1, 16:9, or 9:16"
    );
    assert_eq!(
        ArgsError::InvalidDuration("ten".to_string()).message(),
        "--duration must be an integer (seconds)"
    );
    assert_eq!(
        ArgsError::InvalidResolution("uhd".to_string()).message(),
        "invalid resolution 'uhd'. Use SD, HD, or FHD"
    );
    assert_eq!(
        ArgsError::InvalidUpscale(Flag::Upscale, "x".to_string()).message(),
        "--upscale must be a positive integer (pixels)"
    );
    assert_eq!(
        ArgsError::UnknownArgument("--foo".to_string()).message(),
        format!("unknown argument: --foo\n\n{u}")
    );
    assert_eq!(ArgsError::MissingPrompt.message(), format!("--prompt is required\n\n{u}"));
    assert_eq!(ArgsError::MissingDuration.message(), format!("--duration is required\n\n{u}"));
}

#[test]
fn order_and_repeats_do_not_matter() {
    let a = parse_args(&argv(&["prog", "-p", "x", "-d", "1", "-u", "640", "-p", "final", "-r", "hd"]));
    let b = parse_args(&argv(&["other", "--resolution", "HD", "-s", "640", "--duration", "1", "--prompt", "final"]));
    assert_eq!(a, b);
    let c = parse_args(&argv(&["prog", "-s", "100", "-p", "x", "-d", "2", "-u", "200"]));
    let d = parse_args(&argv(&["prog", "-d", "2", "-p", "x", "--upscale", "200"]));
    assert_eq!(c, d);
}

#[test]
fn resolution_in_any_case() {
    for (v, r) in [("SD", Resolution::SD), ("HD", Resolution::HD), ("FHD", Resolution::FHD), ("480P", Resolution::SD), ("720P", Resolution::HD), ("1080P", Resolution::FHD)] {
        assert_eq!(resolution(v), Ok(r));
        assert_eq!(run(&["prog", "-p", "x", "-d", "1", "-r", v]).resolution, Some(r));
    }
}
