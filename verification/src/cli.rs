//! The command line of the pipeline: which options it takes, their values
//! and defaults, and the errors it reports.
use vstd::prelude::*;
use crate::api::openrouter::internal::{AspectRatio, Resolution};
use crate::number::{parse_i32, parse_i32_spec, parse_u32, parse_u32_spec};
use vstd::utf8::is_ascii_chars;
use crate::text::{chars_to_string, owned, push_str, str_chars, str_eq, string_views};

verus! {

/// The model used when none is given.
pub open spec fn default_model() -> Seq<char> {
    "bytedance/seedance-2.0-fast"@
}

/// An option that takes a value.
#[derive(Debug, Clone, Copy, PartialEq, Eq)]
pub enum Flag {
    Prompt,
    Image,
    AspectRatio,
    Duration,
    Model,
    Resolution,
    /// `--upscale` or `-u`.
    Upscale,
    /// `--size` or `-s`, the usage text's name of the upscale size.
    Size,
}

/// What an option sets; `--upscale` and `--size` set the same thing.
#[derive(Debug, Clone, Copy, PartialEq, Eq)]
pub enum Setting {
    Prompt,
    Image,
    AspectRatio,
    Duration,
    Model,
    Resolution,
    UpscaleTo,
}

/// What the option `f` sets.
pub open spec fn setting_of(f: Flag) -> Setting {
    match f {
        Flag::Prompt => Setting::Prompt,
        Flag::Image => Setting::Image,
        Flag::AspectRatio => Setting::AspectRatio,
        Flag::Duration => Setting::Duration,
        Flag::Model => Setting::Model,
        Flag::Resolution => Setting::Resolution,
        Flag::Upscale => Setting::UpscaleTo,
        Flag::Size => Setting::UpscaleTo,
    }
}

/// The options of a run.
#[derive(Debug, PartialEq, Eq)]
pub struct Args {
    pub prompt: String,
    pub image: Option<String>,
    pub aspect_ratio: Option<AspectRatio>,
    pub duration: i32,
    pub model: String,
    pub resolution: Option<Resolution>,
    pub upscale_to: Option<u32>,
}

/// What the command line asks for.
#[derive(Debug, PartialEq, Eq)]
pub enum Command {
    /// Print the usage and stop.
    Help,
    /// Run the pipeline with these options.
    Run(Args),
}

/// Why a command line was refused.
#[derive(Debug, PartialEq, Eq)]
pub enum ArgsError {
    /// The option came last, without its value.
    MissingValue(Flag),
    /// The aspect ratio is not `1:1`, `16:9` or `9:16`.
    InvalidAspectRatio(String),
    /// The duration is not an `i32`.
    InvalidDuration(String),
    /// The resolution, lowercased (this text), is none of the known ones.
    InvalidResolution(String),
    /// The upscale size given to this option is not a `u32`.
    InvalidUpscale(Flag, String),
    /// The argument is no known option.
    UnknownArgument(String),
    /// No prompt was given.
    MissingPrompt,
    /// No duration was given.
    MissingDuration,
}

/// The options of a run, over character sequences.
pub struct ArgsView {
    pub prompt: Seq<char>,
    pub image: Option<Seq<char>>,
    pub aspect_ratio: Option<AspectRatio>,
    pub duration: i32,
    pub model: Seq<char>,
    pub resolution: Option<Resolution>,
    pub upscale_to: Option<u32>,
}

/// What a command line asks for, over character sequences.
pub enum CommandView {
    Help,
    Run(ArgsView),
}

/// Why a command line was refused, over character sequences.
pub enum ArgsErrorView {
    MissingValue(Flag),
    InvalidAspectRatio(Seq<char>),
    InvalidDuration(Seq<char>),
    InvalidResolution(Seq<char>),
    InvalidUpscale(Flag, Seq<char>),
    UnknownArgument(Seq<char>),
    MissingPrompt,
    MissingDuration,
}

/// The view of an optional string.
pub open spec fn opt_view(s: Option<String>) -> Option<Seq<char>> {
    match s {
        Some(s) => Some(s@),
        None => None,
    }
}

impl View for Args {
    type V = ArgsView;

    open spec fn view(&self) -> ArgsView {
        ArgsView {
            prompt: self.prompt@,
            image: opt_view(self.image),
            aspect_ratio: self.aspect_ratio,
            duration: self.duration,
            model: self.model@,
            resolution: self.resolution,
            upscale_to: self.upscale_to,
        }
    }
}

impl View for Command {
    type V = CommandView;

    open spec fn view(&self) -> CommandView {
        match self {
            Command::Help => CommandView::Help,
            Command::Run(a) => CommandView::Run(a@),
        }
    }
}

impl View for ArgsError {
    type V = ArgsErrorView;

    open spec fn view(&self) -> ArgsErrorView {
        match self {
            ArgsError::MissingValue(f) => ArgsErrorView::MissingValue(*f),
            ArgsError::InvalidAspectRatio(s) => ArgsErrorView::InvalidAspectRatio(s@),
            ArgsError::InvalidDuration(s) => ArgsErrorView::InvalidDuration(s@),
            ArgsError::InvalidResolution(s) => ArgsErrorView::InvalidResolution(s@),
            ArgsError::InvalidUpscale(f, s) => ArgsErrorView::InvalidUpscale(*f, s@),
            ArgsError::UnknownArgument(s) => ArgsErrorView::UnknownArgument(s@),
            ArgsError::MissingPrompt => ArgsErrorView::MissingPrompt,
            ArgsError::MissingDuration => ArgsErrorView::MissingDuration,
        }
    }
}

/// Whether `a` asks for help.
pub open spec fn is_help(a: Seq<char>) -> bool {
    a == "--help"@ || a == "-h"@
}

/// The option that the argument `a` names, if any.
pub open spec fn flag_of(a: Seq<char>) -> Option<Flag> {
    if a == "--prompt"@ || a == "-p"@ {
        Some(Flag::Prompt)
    } else if a == "--image"@ || a == "-i"@ {
        Some(Flag::Image)
    } else if a == "--aspect-ratio"@ || a == "-a"@ {
        Some(Flag::AspectRatio)
    } else if a == "--duration"@ || a == "-d"@ {
        Some(Flag::Duration)
    } else if a == "--model"@ || a == "-m"@ {
        Some(Flag::Model)
    } else if a == "--resolution"@ || a == "-r"@ {
        Some(Flag::Resolution)
    } else if a == "--upscale"@ || a == "-u"@ {
        Some(Flag::Upscale)
    } else if a == "--size"@ || a == "-s"@ {
        Some(Flag::Size)
    } else {
        None
    }
}

/// The aspect ratio that `v` names.
pub open spec fn aspect_ratio_of(v: Seq<char>) -> Option<AspectRatio> {
    if v == "1:1"@ {
        Some(AspectRatio::Square)
    } else if v == "16:9"@ {
        Some(AspectRatio::Landscape)
    } else if v == "9:16"@ {
        Some(AspectRatio::Portrait)
    } else {
        None
    }
}

/// The resolution that the lowercased `v` names.
pub open spec fn resolution_of(v: Seq<char>) -> Option<Resolution> {
    if v == "sd"@ || v == "480p"@ {
        Some(Resolution::SD)
    } else if v == "hd"@ || v == "720p"@ {
        Some(Resolution::HD)
    } else if v == "fhd"@ || v == "1080p"@ {
        Some(Resolution::FHD)
    } else {
        None
    }
}

/// `str::to_lowercase`: the lowercase mapping of Unicode's
/// `Lowercase_Mapping`, which is left unstated here.
pub uninterp spec fn lowercase(s: Seq<char>) -> Seq<char>;

/// The lowercase of an ASCII character: `A`..=`Z` become `a`..=`z`, every
/// other character stays.
pub open spec fn ascii_lower_char(c: char) -> char {
    if 0x41 <= (c as u32) <= 0x5a {
        ((c as u32) + 0x20) as char
    } else {
        c
    }
}

/// `s` with each ASCII capital letter made lowercase.
pub open spec fn ascii_lower(s: Seq<char>) -> Seq<char> {
    s.map_values(|c: char| ascii_lower_char(c))
}

/// The lowercase of `s`: stated for ASCII text, named (`lowercase`) beyond.
pub open spec fn lower_text(s: Seq<char>) -> Seq<char> {
    if is_ascii_chars(s) {
        ascii_lower(s)
    } else {
        lowercase(s)
    }
}

/// `str::to_lowercase`. The contract names its result `lowercase`, and
/// states it for ASCII text, where Unicode's lowercase mapping turns
/// `A`..=`Z` into `a`..=`z` and keeps every other character; the mapping
/// of other characters is left unstated.
#[verifier::external_body]
fn to_lowercase(s: &str) -> (r: String)
    ensures
        r@ == lowercase(s@),
        is_ascii_chars(s@) ==> r@ == ascii_lower(s@),
{
    s.to_lowercase()
}

/// The options given so far while a command line is read.
pub struct Given {
    pub prompt: Option<Seq<char>>,
    pub image: Option<Seq<char>>,
    pub aspect_ratio: Option<AspectRatio>,
    pub duration: Option<i32>,
    pub model: Option<Seq<char>>,
    pub resolution: Option<Resolution>,
    pub upscale_to: Option<u32>,
}

/// No option given yet.
pub open spec fn nothing_given() -> Given {
    Given {
        prompt: None,
        image: None,
        aspect_ratio: None,
        duration: None,
        model: None,
        resolution: None,
        upscale_to: None,
    }
}

/// Takes the value `v` of the option `f`: a later value replaces an earlier
/// one, and a value that cannot be read is refused.
pub open spec fn take_value(f: Flag, v: Seq<char>, g: Given) -> Result<Given, ArgsErrorView> {
    match f {
        Flag::Prompt => Ok(Given { prompt: Some(v), ..g }),
        Flag::Image => Ok(Given { image: Some(v), ..g }),
        Flag::AspectRatio => match aspect_ratio_of(v) {
            Some(a) => Ok(Given { aspect_ratio: Some(a), ..g }),
            None => Err(ArgsErrorView::InvalidAspectRatio(v)),
        },
        Flag::Duration => match parse_i32_spec(v) {
            Some(d) => Ok(Given { duration: Some(d), ..g }),
            None => Err(ArgsErrorView::InvalidDuration(v)),
        },
        Flag::Model => Ok(Given { model: Some(v), ..g }),
        Flag::Resolution => match resolution_of(lower_text(v)) {
            Some(r) => Ok(Given { resolution: Some(r), ..g }),
            None => Err(ArgsErrorView::InvalidResolution(lower_text(v))),
        },
        Flag::Upscale | Flag::Size => match parse_u32_spec(v) {
            Some(u) => Ok(Given { upscale_to: Some(u), ..g }),
            None => Err(ArgsErrorView::InvalidUpscale(f, v)),
        },
    }
}

/// Reads the options `args[i..]`, each followed by its value, on top of `g`.
pub open spec fn scan(args: Seq<Seq<char>>, i: int, g: Given) -> Result<Given, ArgsErrorView>
    decreases args.len() - i,
{
    if i >= args.len() || i < 0 {
        Ok(g)
    } else {
        match flag_of(args[i]) {
            None => Err(ArgsErrorView::UnknownArgument(args[i])),
            Some(f) => if i + 1 >= args.len() {
                Err(ArgsErrorView::MissingValue(f))
            } else {
                match take_value(f, args[i + 1], g) {
                    Ok(g2) => scan(args, i + 2, g2),
                    Err(e) => Err(e),
                }
            },
        }
    }
}

/// The options of a run once all are read: the prompt and the duration are
/// required, the model defaults to `default_model()` and the resolution to
/// SD.
pub open spec fn finish(g: Given) -> Result<ArgsView, ArgsErrorView> {
    match (g.prompt, g.duration) {
        (None, _) => Err(ArgsErrorView::MissingPrompt),
        (Some(_), None) => Err(ArgsErrorView::MissingDuration),
        (Some(prompt), Some(duration)) => Ok(
            ArgsView {
                prompt,
                image: g.image,
                aspect_ratio: g.aspect_ratio,
                duration,
                model: match g.model {
                    Some(m) => m,
                    None => default_model(),
                },
                resolution: match g.resolution {
                    Some(r) => Some(r),
                    None => Some(Resolution::SD),
                },
                upscale_to: g.upscale_to,
            },
        ),
    }
}

/// What the command line `args` (the program's name first) asks for: help
/// when any argument is `--help` or `-h`, else a run with the options that
/// follow the program's name.
pub open spec fn command(args: Seq<Seq<char>>) -> Result<CommandView, ArgsErrorView> {
    if exists|k: int| 0 <= k < args.len() && is_help(#[trigger] args[k]) {
        Ok(CommandView::Help)
    } else {
        match scan(args, 1, nothing_given()) {
            Err(e) => Err(e),
            Ok(g) => match finish(g) {
                Ok(a) => Ok(CommandView::Run(a)),
                Err(e) => Err(e),
            },
        }
    }
}

/// Whether the argument `a` asks for help.
fn asks_help(a: &str) -> (r: bool)
    ensures
        r == is_help(a@),
{
    str_eq(a, "--help") || str_eq(a, "-h")
}

/// The option that the argument `a` names, if any.
pub fn flag(a: &str) -> (r: Option<Flag>)
    ensures
        r == flag_of(a@),
{
    if str_eq(a, "--prompt") || str_eq(a, "-p") {
        Some(Flag::Prompt)
    } else if str_eq(a, "--image") || str_eq(a, "-i") {
        Some(Flag::Image)
    } else if str_eq(a, "--aspect-ratio") || str_eq(a, "-a") {
        Some(Flag::AspectRatio)
    } else if str_eq(a, "--duration") || str_eq(a, "-d") {
        Some(Flag::Duration)
    } else if str_eq(a, "--model") || str_eq(a, "-m") {
        Some(Flag::Model)
    } else if str_eq(a, "--resolution") || str_eq(a, "-r") {
        Some(Flag::Resolution)
    } else if str_eq(a, "--upscale") || str_eq(a, "-u") {
        Some(Flag::Upscale)
    } else if str_eq(a, "--size") || str_eq(a, "-s") {
        Some(Flag::Size)
    } else {
        None
    }
}

/// The aspect ratio that `v` names: `1:1`, `16:9` or `9:16`.
pub fn aspect_ratio(v: &str) -> (r: Option<AspectRatio>)
    ensures
        r == aspect_ratio_of(v@),
{
    if str_eq(v, "1:1") {
        Some(AspectRatio::Square)
    } else if str_eq(v, "16:9") {
        Some(AspectRatio::Landscape)
    } else if str_eq(v, "9:16") {
        Some(AspectRatio::Portrait)
    } else {
        None
    }
}

/// The resolution that an already lowercased value names: `sd` or `480p`,
/// `hd` or `720p`, `fhd` or `1080p`.
pub fn resolution_from_lowercase(v: &str) -> (r: Option<Resolution>)
    ensures
        r == resolution_of(v@),
{
    if str_eq(v, "sd") || str_eq(v, "480p") {
        Some(Resolution::SD)
    } else if str_eq(v, "hd") || str_eq(v, "720p") {
        Some(Resolution::HD)
    } else if str_eq(v, "fhd") || str_eq(v, "1080p") {
        Some(Resolution::FHD)
    } else {
        None
    }
}

/// The resolution that `v` names in any case.
pub fn resolution(v: &str) -> (r: Result<Resolution, String>)
    ensures
        match resolution_of(lower_text(v@)) {
            Some(res) => r == Ok::<Resolution, String>(res),
            None => r matches Err(l) && l@ == lower_text(v@),
        },
{
    let lower = to_lowercase(v);
    match resolution_from_lowercase(lower.as_str()) {
        Some(res) => Ok(res),
        None => Err(lower),
    }
}

/// The view of the options read so far.
pub open spec fn given_view(
    prompt: Option<String>,
    image: Option<String>,
    aspect_ratio: Option<AspectRatio>,
    duration: Option<i32>,
    model: Option<String>,
    resolution: Option<Resolution>,
    upscale_to: Option<u32>,
) -> Given {
    Given {
        prompt: opt_view(prompt),
        image: opt_view(image),
        aspect_ratio,
        duration,
        model: opt_view(model),
        resolution,
        upscale_to,
    }
}

/// Reads the command line `args`, the program's name first.
pub fn parse_args(args: &Vec<String>) -> (r: Result<Command, ArgsError>)
    ensures
        match r {
            Ok(c) => command(string_views(args@)) == Ok::<CommandView, ArgsErrorView>(c@),
            Err(e) => command(string_views(args@)) == Err::<CommandView, ArgsErrorView>(e@),
        },
{
    let ghost argv = string_views(args@);
    let n = args.len();
    for k in 0..n
        invariant
            n == args.len(),
            argv == string_views(args@),
            forall|j: int| 0 <= j < k ==> !is_help(#[trigger] argv[j]),
    {
        if asks_help(args[k].as_str()) {
            assert(is_help(argv[k as int]));
            return Ok(Command::Help);
        }
    }
    assert(!exists|k: int| 0 <= k < argv.len() && is_help(#[trigger] argv[k]));
    let mut prompt: Option<String> = None;
    let mut image: Option<String> = None;
    let mut aspect: Option<AspectRatio> = None;
    let mut duration: Option<i32> = None;
    let mut model: Option<String> = None;
    let mut res: Option<Resolution> = None;
    let mut upscale_to: Option<u32> = None;
    let mut i: usize = 1;
    assert(given_view(prompt, image, aspect, duration, model, res, upscale_to) == nothing_given());
    while i < n
        invariant
            n == args.len(),
            1 <= i,
            argv == string_views(args@),
            argv.len() == n,
            forall|j: int| 0 <= j < argv.len() ==> !is_help(#[trigger] argv[j]),
            scan(argv, 1, nothing_given()) == scan(
                argv,
                i as int,
                given_view(prompt, image, aspect, duration, model, res, upscale_to),
            ),
        decreases n - i,
    {
        let ghost g = given_view(prompt, image, aspect, duration, model, res, upscale_to);
        let a = args[i].as_str();
        assert(argv[i as int] == a@);
        let f = match flag(a) {
            Some(f) => f,
            None => {
                return Err(ArgsError::UnknownArgument(args[i].clone()));
            },
        };
        if i + 1 >= n {
            return Err(ArgsError::MissingValue(f));
        }
        let v = &args[i + 1];
        let ghost vv = argv[i + 1];
        assert(vv == v@);
        match f {
            Flag::Prompt => {
                prompt = Some(v.clone());
            },
            Flag::Image => {
                image = Some(v.clone());
            },
            Flag::AspectRatio => {
                match aspect_ratio(v.as_str()) {
                    Some(ar) => {
                        aspect = Some(ar);
                    },
                    None => {
                        return Err(ArgsError::InvalidAspectRatio(v.clone()));
                    },
                }
            },
            Flag::Duration => {
                let chars = str_chars(v.as_str());
                match parse_i32(&chars) {
                    Some(d) => {
                        duration = Some(d);
                    },
                    None => {
                        return Err(ArgsError::InvalidDuration(v.clone()));
                    },
                }
            },
            Flag::Model => {
                model = Some(v.clone());
            },
            Flag::Resolution => {
                match resolution(v.as_str()) {
                    Ok(r) => {
                        res = Some(r);
                    },
                    Err(lower) => {
                        return Err(ArgsError::InvalidResolution(lower));
                    },
                }
            },
            Flag::Upscale | Flag::Size => {
                let chars = str_chars(v.as_str());
                match parse_u32(&chars) {
                    Some(u) => {
                        upscale_to = Some(u);
                    },
                    None => {
                        return Err(ArgsError::InvalidUpscale(f, v.clone()));
                    },
                }
            },
        }
        assert(take_value(f, vv, g) == Ok::<Given, ArgsErrorView>(
            given_view(prompt, image, aspect, duration, model, res, upscale_to),
        ));
        i = i + 2;
    }
    let prompt = match prompt {
        Some(p) => p,
        None => {
            return Err(ArgsError::MissingPrompt);
        },
    };
    let duration = match duration {
        Some(d) => d,
        None => {
            return Err(ArgsError::MissingDuration);
        },
    };
    let model = match model {
        Some(m) => m,
        None => {
            proof {
                reveal_strlit("bytedance/seedance-2.0-fast");
            }
            owned("bytedance/seedance-2.0-fast")
        },
    };
    let resolution = match res {
        Some(r) => Some(r),
        None => Some(Resolution::SD),
    };
    Ok(
        Command::Run(
            Args { prompt, image, aspect_ratio: aspect, duration, model, resolution, upscale_to },
        ),
    )
}

/// `--help` or `-h` anywhere on the command line, the program's name
/// included, asks for help whatever else the line holds.
pub proof fn law_help_wins(args: Seq<Seq<char>>, k: int)
    requires
        0 <= k < args.len(),
        is_help(args[k]),
    ensures
        command(args) == Ok::<CommandView, ArgsErrorView>(CommandView::Help),
{
    assert(is_help(args[k]));
}

/// With only a prompt and a duration given, a run uses the default model
/// and the SD resolution, no reference image, aspect ratio or upscaling.
pub proof fn law_defaults(program: Seq<char>, prompt: Seq<char>, duration: Seq<char>, d: i32)
    requires
        !is_help(program),
        !is_help(prompt),
        !is_help(duration),
        parse_i32_spec(duration) == Some(d),
    ensures
        command(seq![program, "--prompt"@, prompt, "--duration"@, duration]) == Ok::<
            CommandView,
            ArgsErrorView,
        >(
            CommandView::Run(
                ArgsView {
                    prompt,
                    image: None,
                    aspect_ratio: None,
                    duration: d,
                    model: default_model(),
                    resolution: Some(Resolution::SD),
                    upscale_to: None,
                },
            ),
        ),
{
    reveal_strlit("--help");
    reveal_strlit("-h");
    reveal_strlit("--prompt");
    reveal_strlit("-p");
    reveal_strlit("--image");
    reveal_strlit("-i");
    reveal_strlit("--aspect-ratio");
    reveal_strlit("-a");
    reveal_strlit("--duration");
    let args = seq![program, "--prompt"@, prompt, "--duration"@, duration];
    assert("--prompt"@.len() == 8);
    assert("--help"@.len() == 6);
    assert("-h"@.len() == 2);
    assert("--duration"@.len() == 10);
    assert(!is_help("--prompt"@));
    assert(!is_help("--duration"@));
    assert(!exists|k: int| 0 <= k < args.len() && is_help(#[trigger] args[k])) by {
        assert forall|k: int| 0 <= k < args.len() implies !is_help(#[trigger] args[k]) by {
            if k == 0 {
            } else if k == 1 {
            } else if k == 2 {
            } else if k == 3 {
            } else {
            }
        }
    }
    assert(flag_of("--prompt"@) == Some(Flag::Prompt));
    assert("--duration"@ != "--prompt"@);
    assert("--duration"@ != "-p"@);
    assert("--duration"@ != "--image"@);
    assert("--duration"@ != "-i"@);
    assert("--duration"@ != "--aspect-ratio"@);
    assert("--duration"@ != "-a"@);
    assert(flag_of("--duration"@) == Some(Flag::Duration));
    let g1 = Given { prompt: Some(prompt), ..nothing_given() };
    let g2 = Given { duration: Some(d), ..g1 };
    assert(scan(args, 5, g2) == Ok::<Given, ArgsErrorView>(g2));
    assert(scan(args, 3, g1) == scan(args, 5, g2));
    assert(scan(args, 1, nothing_given()) == scan(args, 3, g1));
}

/// Whether `args[i..]` is a run of known options, each followed by a value
/// that it accepts.
pub open spec fn valid_pairs(args: Seq<Seq<char>>, i: int) -> bool
    decreases args.len() - i,
{
    if i < 0 || i >= args.len() {
        true
    } else {
        &&& i + 1 < args.len()
        &&& flag_of(args[i]) is Some
        &&& take_value(flag_of(args[i])->0, args[i + 1], nothing_given()) is Ok
        &&& valid_pairs(args, i + 2)
    }
}

/// The last value that `args[i..]` gives to an option that sets `st`.
pub open spec fn last_value(args: Seq<Seq<char>>, i: int, st: Setting) -> Option<Seq<char>>
    decreases args.len() - i,
{
    if i < 0 || i + 1 >= args.len() {
        None
    } else {
        match last_value(args, i + 2, st) {
            Some(v) => Some(v),
            None => match flag_of(args[i]) {
                Some(f) => if setting_of(f) == st {
                    Some(args[i + 1])
                } else {
                    None
                },
                None => None,
            },
        }
    }
}

/// The options that `args[i..]` leave on top of `g`: each setting takes the
/// last value given to it, or keeps its value in `g`.
pub open spec fn given_after(args: Seq<Seq<char>>, i: int, g: Given) -> Given {
    Given {
        prompt: match last_value(args, i, Setting::Prompt) {
            Some(v) => Some(v),
            None => g.prompt,
        },
        image: match last_value(args, i, Setting::Image) {
            Some(v) => Some(v),
            None => g.image,
        },
        aspect_ratio: match last_value(args, i, Setting::AspectRatio) {
            Some(v) => aspect_ratio_of(v),
            None => g.aspect_ratio,
        },
        duration: match last_value(args, i, Setting::Duration) {
            Some(v) => parse_i32_spec(v),
            None => g.duration,
        },
        model: match last_value(args, i, Setting::Model) {
            Some(v) => Some(v),
            None => g.model,
        },
        resolution: match last_value(args, i, Setting::Resolution) {
            Some(v) => resolution_of(lower_text(v)),
            None => g.resolution,
        },
        upscale_to: match last_value(args, i, Setting::UpscaleTo) {
            Some(v) => parse_u32_spec(v),
            None => g.upscale_to,
        },
    }
}

/// Reading a run of valid options leaves each setting with the last value
/// given to it.
pub proof fn lemma_scan_valid_pairs(args: Seq<Seq<char>>, i: int, g: Given)
    requires
        i >= 0,
        valid_pairs(args, i),
    ensures
        scan(args, i, g) == Ok::<Given, ArgsErrorView>(given_after(args, i, g)),
    decreases args.len() - i,
{
    if i < args.len() {
        let f = flag_of(args[i])->0;
        let v = args[i + 1];
        let g2 = take_value(f, v, g)->Ok_0;
        assert(take_value(f, v, g) is Ok);
        lemma_scan_valid_pairs(args, i + 2, g2);
        assert(given_after(args, i + 2, g2) == given_after(args, i, g));
    } else {
        assert(given_after(args, i, g) == g);
    }
}

/// Only the last value given to each option counts, and the order of the
/// options does not matter (`--upscale` and `--size` count as one option):
/// two command lines of known options with accepted values, without a help
/// request, that give each option the same last value ask for the same run.
pub proof fn law_last_value_counts(args1: Seq<Seq<char>>, args2: Seq<Seq<char>>)
    requires
        forall|k: int| 0 <= k < args1.len() ==> !is_help(#[trigger] args1[k]),
        forall|k: int| 0 <= k < args2.len() ==> !is_help(#[trigger] args2[k]),
        valid_pairs(args1, 1),
        valid_pairs(args2, 1),
        forall|st: Setting| #[trigger] last_value(args1, 1, st) == last_value(args2, 1, st),
    ensures
        command(args1) == command(args2),
{
    lemma_scan_valid_pairs(args1, 1, nothing_given());
    lemma_scan_valid_pairs(args2, 1, nothing_given());
    assert(last_value(args1, 1, Setting::Prompt) == last_value(args2, 1, Setting::Prompt));
    assert(last_value(args1, 1, Setting::Image) == last_value(args2, 1, Setting::Image));
    assert(last_value(args1, 1, Setting::AspectRatio) == last_value(args2, 1, Setting::AspectRatio));
    assert(last_value(args1, 1, Setting::Duration) == last_value(args2, 1, Setting::Duration));
    assert(last_value(args1, 1, Setting::Model) == last_value(args2, 1, Setting::Model));
    assert(last_value(args1, 1, Setting::Resolution) == last_value(args2, 1, Setting::Resolution));
    assert(last_value(args1, 1, Setting::UpscaleTo) == last_value(args2, 1, Setting::UpscaleTo));
    assert(given_after(args1, 1, nothing_given()) == given_after(args2, 1, nothing_given()));
    assert(!exists|k: int| 0 <= k < args1.len() && is_help(#[trigger] args1[k]));
    assert(!exists|k: int| 0 <= k < args2.len() && is_help(#[trigger] args2[k]));
}

/// The resolution names are read in any case: `SD`, `HD` and `FHD`, or
/// `480P`, `720P` and `1080P`, name the same resolutions as their
/// lowercase spellings.
pub proof fn law_resolution_any_case()
    ensures
        resolution_of(lower_text("SD"@)) == Some(Resolution::SD),
        resolution_of(lower_text("HD"@)) == Some(Resolution::HD),
        resolution_of(lower_text("FHD"@)) == Some(Resolution::FHD),
        resolution_of(lower_text("480P"@)) == Some(Resolution::SD),
        resolution_of(lower_text("720P"@)) == Some(Resolution::HD),
        resolution_of(lower_text("1080P"@)) == Some(Resolution::FHD),
{
    reveal_strlit("SD");
    reveal_strlit("HD");
    reveal_strlit("FHD");
    reveal_strlit("480P");
    reveal_strlit("720P");
    reveal_strlit("1080P");
    reveal_strlit("sd");
    reveal_strlit("hd");
    reveal_strlit("fhd");
    reveal_strlit("480p");
    reveal_strlit("720p");
    reveal_strlit("1080p");
    assert(is_ascii_chars("SD"@));
    assert(ascii_lower("SD"@) =~= "sd"@);
    assert(is_ascii_chars("HD"@));
    assert(ascii_lower("HD"@) =~= "hd"@);
    assert(is_ascii_chars("FHD"@));
    assert(ascii_lower("FHD"@) =~= "fhd"@);
    assert(is_ascii_chars("480P"@));
    assert(ascii_lower("480P"@) =~= "480p"@);
    assert(is_ascii_chars("720P"@));
    assert(ascii_lower("720P"@) =~= "720p"@);
    assert(is_ascii_chars("1080P"@));
    assert(ascii_lower("1080P"@) =~= "1080p"@);
    assert("hd"@[0] != "sd"@[0]);
    assert("720p"@[0] != "480p"@[0]);
    assert("fhd"@.len() != "sd"@.len() && "fhd"@.len() != "hd"@.len());
    assert("1080p"@.len() != "480p"@.len() && "1080p"@.len() != "720p"@.len());
}

/// The usage text of the program.
pub open spec fn usage_text() -> Seq<char> {
    "Usage: upscale_pipeline --prompt <PROMPT> [OPTIONS]

Options:
  -p, --prompt <TEXT>        Video generation prompt (required)
  -d, --duration <SECS>      Video duration in seconds (required)
  -m, --model <MODEL>        Model ID (default: bytedance/seedance-2.0-fast)
  -i, --image <PATH>         Input reference image to upload
  -a, --aspect-ratio <AR>    Target aspect ratio: 1:1, 16:9, or 9:16
  -r, --resolution <RES>     Output resolution: SD, HD, or FHD (default: SD)
  -s, --size <PX>            Upscale longer side to N pixels (omitting skips upscale)
  -h, --help                 Print this help"@
}

/// The usage text of the program.
pub fn usage() -> (r: &'static str)
    ensures
        r@ == usage_text(),
{
    "Usage: upscale_pipeline --prompt <PROMPT> [OPTIONS]

Options:
  -p, --prompt <TEXT>        Video generation prompt (required)
  -d, --duration <SECS>      Video duration in seconds (required)
  -m, --model <MODEL>        Model ID (default: bytedance/seedance-2.0-fast)
  -i, --image <PATH>         Input reference image to upload
  -a, --aspect-ratio <AR>    Target aspect ratio: 1:1, 16:9, or 9:16
  -r, --resolution <RES>     Output resolution: SD, HD, or FHD (default: SD)
  -s, --size <PX>            Upscale longer side to N pixels (omitting skips upscale)
  -h, --help                 Print this help"
}

/// The long name of an option.
pub open spec fn flag_text(f: Flag) -> Seq<char> {
    match f {
        Flag::Prompt => "--prompt"@,
        Flag::Image => "--image"@,
        Flag::AspectRatio => "--aspect-ratio"@,
        Flag::Duration => "--duration"@,
        Flag::Model => "--model"@,
        Flag::Resolution => "--resolution"@,
        Flag::Upscale => "--upscale"@,
        Flag::Size => "--size"@,
    }
}

/// The long name of an option.
pub fn flag_name(f: Flag) -> (r: &'static str)
    ensures
        r@ == flag_text(f),
{
    match f {
        Flag::Prompt => "--prompt",
        Flag::Image => "--image",
        Flag::AspectRatio => "--aspect-ratio",
        Flag::Duration => "--duration",
        Flag::Model => "--model",
        Flag::Resolution => "--resolution",
        Flag::Upscale => "--upscale",
        Flag::Size => "--size",
    }
}

/// The message of a refused command line.
pub open spec fn args_error_text(e: ArgsErrorView) -> Seq<char> {
    match e {
        ArgsErrorView::MissingValue(f) => "missing value for "@ + flag_text(f),
        ArgsErrorView::InvalidAspectRatio(other) => "invalid aspect ratio '"@ + other
            + "'. Use 1:1, 16:9, or 9:16"@,
        ArgsErrorView::InvalidDuration(_) => "--duration must be an integer (seconds)"@,
        ArgsErrorView::InvalidResolution(other) => "invalid resolution '"@ + other
            + "'. Use SD, HD, or FHD"@,
        ArgsErrorView::InvalidUpscale(f, _) => flag_text(f)
            + " must be a positive integer (pixels)"@,
        ArgsErrorView::UnknownArgument(other) => "unknown argument: "@ + other + "\n\n"@
            + usage_text(),
        ArgsErrorView::MissingPrompt => "--prompt is required\n\n"@ + usage_text(),
        ArgsErrorView::MissingDuration => "--duration is required\n\n"@ + usage_text(),
    }
}

impl ArgsError {
    /// The message that reports this error.
    pub fn message(&self) -> (r: String)
        ensures
            r@ == args_error_text(self@),
    {
        let mut out: Vec<char> = Vec::new();
        match self {
            ArgsError::MissingValue(f) => {
                push_str(&mut out, "missing value for ");
                push_str(&mut out, flag_name(*f));
            },
            ArgsError::InvalidAspectRatio(other) => {
                push_str(&mut out, "invalid aspect ratio '");
                push_str(&mut out, other.as_str());
                push_str(&mut out, "'. Use 1:1, 16:9, or 9:16");
            },
            ArgsError::InvalidDuration(_) => {
                push_str(&mut out, "--duration must be an integer (seconds)");
            },
            ArgsError::InvalidResolution(other) => {
                push_str(&mut out, "invalid resolution '");
                push_str(&mut out, other.as_str());
                push_str(&mut out, "'. Use SD, HD, or FHD");
            },
            ArgsError::InvalidUpscale(f, _) => {
                push_str(&mut out, flag_name(*f));
                push_str(&mut out, " must be a positive integer (pixels)");
            },
            ArgsError::UnknownArgument(other) => {
                push_str(&mut out, "unknown argument: ");
                push_str(&mut out, other.as_str());
                push_str(&mut out, "\n\n");
                push_str(&mut out, usage());
            },
            ArgsError::MissingPrompt => {
                push_str(&mut out, "--prompt is required\n\n");
                push_str(&mut out, usage());
            },
            ArgsError::MissingDuration => {
                push_str(&mut out, "--duration is required\n\n");
                push_str(&mut out, usage());
            },
        }
        assert(out@ =~= args_error_text(self@));
        chars_to_string(out)
    }
}

/// A command line of known options with accepted values, without a help
/// request, runs with each option's last value: the prompt, the image and
/// the model are the texts last given to them, the aspect ratio, duration,
/// resolution (in any case) and upscale size are what their last values
/// name; an option never given leaves no image, aspect ratio or upscale
/// size, the default model and the SD resolution. Without a prompt, or then
/// without a duration, the line is refused for that.
pub proof fn law_run_takes_last_values(args: Seq<Seq<char>>)
    requires
        forall|k: int| 0 <= k < args.len() ==> !is_help(#[trigger] args[k]),
        valid_pairs(args, 1),
    ensures
        last_value(args, 1, Setting::Prompt) is None ==> command(args) == Err::<
            CommandView,
            ArgsErrorView,
        >(ArgsErrorView::MissingPrompt),
        last_value(args, 1, Setting::Prompt) is Some && last_value(args, 1, Setting::Duration) is None
            ==> command(args) == Err::<CommandView, ArgsErrorView>(ArgsErrorView::MissingDuration),
        last_value(args, 1, Setting::Prompt) is Some && last_value(args, 1, Setting::Duration) is Some
            ==> (command(args) matches Ok(CommandView::Run(a)) && {
            &&& a.prompt == last_value(args, 1, Setting::Prompt)->0
            &&& a.image == last_value(args, 1, Setting::Image)
            &&& a.aspect_ratio == match last_value(args, 1, Setting::AspectRatio) {
                Some(v) => aspect_ratio_of(v),
                None => None,
            }
            &&& Some(a.duration) == parse_i32_spec(last_value(args, 1, Setting::Duration)->0)
            &&& a.model == match last_value(args, 1, Setting::Model) {
                Some(m) => m,
                None => default_model(),
            }
            &&& a.resolution == match last_value(args, 1, Setting::Resolution) {
                Some(v) => resolution_of(lower_text(v)),
                None => Some(Resolution::SD),
            }
            &&& a.upscale_to == match last_value(args, 1, Setting::UpscaleTo) {
                Some(v) => parse_u32_spec(v),
                None => None,
            }
        }),
{
    lemma_scan_valid_pairs(args, 1, nothing_given());
    lemma_last_values_accepted(args, 1);
    assert(!exists|k: int| 0 <= k < args.len() && is_help(#[trigger] args[k]));
}

/// The last value that a run of valid options gives to a setting is one
/// that the setting accepts.
pub proof fn lemma_last_values_accepted(args: Seq<Seq<char>>, i: int)
    requires
        i >= 0,
        valid_pairs(args, i),
    ensures
        last_value(args, i, Setting::AspectRatio) matches Some(v) ==> aspect_ratio_of(v) is Some,
        last_value(args, i, Setting::Duration) matches Some(v) ==> parse_i32_spec(v) is Some,
        last_value(args, i, Setting::Resolution) matches Some(v) ==> resolution_of(lower_text(v))
            is Some,
        last_value(args, i, Setting::UpscaleTo) matches Some(v) ==> parse_u32_spec(v) is Some,
    decreases args.len() - i,
{
    if i < args.len() {
        lemma_last_values_accepted(args, i + 2);
    }
}

} // verus!
