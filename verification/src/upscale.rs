//! The decisions of the video upscaler: reading the dimensions that ffprobe
//! reports, anchoring the longer side, and the ffprobe and ffmpeg command
//! lines.
use vstd::prelude::*;
use vstd::utf8::{decode_utf8, valid_utf8};
use crate::number::{
    decimal, is_digit, lemma_decimal_value, law_decimal_round_trip, parse_u32, parse_u32_spec,
    push_decimal,
};
use crate::text::{
    chars_to_string, is_white_space, owned, push_str, str_chars, string_views, trim, trim_chars, trim_end,
    trim_start,
};

verus! {

/// Why the dimensions of a video could not be read.
#[derive(Debug, PartialEq, Eq)]
pub enum ProbeError {
    /// ffprobe exited with an error; this is what it wrote to stderr.
    Failed(Vec<u8>),
    /// ffprobe's output is not valid UTF-8.
    NotUtf8,
    /// The trimmed output holds no `x` between width and height.
    UnexpectedOutput(String),
    /// The text before the `x` is not a `u32`.
    InvalidWidth,
    /// The text after the `x` is not a `u32`.
    InvalidHeight,
    /// A dimension is zero.
    ZeroDimensions(u32, u32),
}

/// What ffprobe's stderr `bytes` read as text, with invalid UTF-8 replaced
/// (`String::from_utf8_lossy`).
pub uninterp spec fn lossy_text(bytes: Seq<u8>) -> Seq<char>;

/// `String::from_utf8_lossy`: the text of `bytes`, each invalid sequence
/// replaced by U+FFFD. The contract names the result `lossy_text` and states
/// it for valid UTF-8, where it is the decoded text; the replacement of
/// invalid sequences is left unstated.
#[verifier::external_body]
fn utf8_lossy(bytes: &Vec<u8>) -> (r: String)
    ensures
        r@ == lossy_text(bytes@),
        valid_utf8(bytes@) ==> r@ == decode_utf8(bytes@),
{
    String::from_utf8_lossy(bytes).into_owned()
}

/// The message of a probe error.
pub open spec fn probe_error_text(e: ProbeError) -> Seq<char> {
    match e {
        ProbeError::Failed(stderr) => "ffprobe exited with error:\n"@ + lossy_text(stderr@),
        ProbeError::NotUtf8 => "ffprobe stdout is not valid UTF-8"@,
        ProbeError::UnexpectedOutput(dims) => "unexpected ffprobe output: '"@ + dims@ + "'"@,
        ProbeError::InvalidWidth => "invalid width from ffprobe"@,
        ProbeError::InvalidHeight => "invalid height from ffprobe"@,
        ProbeError::ZeroDimensions(w, h) => "video dimensions are zero: "@ + decimal(w as nat)
            + "x"@ + decimal(h as nat),
    }
}

impl ProbeError {
    /// The message that reports this error.
    pub fn message(&self) -> (r: String)
        ensures
            r@ == probe_error_text(*self),
    {
        let mut out: Vec<char> = Vec::new();
        match self {
            ProbeError::Failed(stderr) => {
                push_str(&mut out, "ffprobe exited with error:\n");
                let text = utf8_lossy(stderr);
                push_str(&mut out, text.as_str());
            },
            ProbeError::NotUtf8 => {
                push_str(&mut out, "ffprobe stdout is not valid UTF-8");
            },
            ProbeError::UnexpectedOutput(dims) => {
                push_str(&mut out, "unexpected ffprobe output: '");
                push_str(&mut out, dims.as_str());
                push_str(&mut out, "'");
            },
            ProbeError::InvalidWidth => {
                push_str(&mut out, "invalid width from ffprobe");
            },
            ProbeError::InvalidHeight => {
                push_str(&mut out, "invalid height from ffprobe");
            },
            ProbeError::ZeroDimensions(w, h) => {
                push_str(&mut out, "video dimensions are zero: ");
                push_decimal(&mut out, *w as u64);
                push_str(&mut out, "x");
                push_decimal(&mut out, *h as u64);
            },
        }
        assert(out@ =~= probe_error_text(*self));
        chars_to_string(out)
    }
}

/// Why encoding the upscaled video failed.
#[derive(Debug, PartialEq, Eq)]
pub enum EncodeError {
    /// ffmpeg exited with an error.
    Failed,
}

impl EncodeError {
    /// The message that reports this error.
    pub fn message(&self) -> (r: String)
        ensures
            r@ == "ffmpeg exited with an error"@,
    {
        owned("ffmpeg exited with an error")
    }
}

/// Reads how the ffmpeg run ended: it succeeded exactly when ffmpeg did.
pub fn encode_result(success: bool) -> (r: Result<(), EncodeError>)
    ensures
        success ==> r is Ok,
        !success ==> r == Err::<(), EncodeError>(EncodeError::Failed),
{
    if success {
        Ok(())
    } else {
        Err(EncodeError::Failed)
    }
}

/// The kind of a dimension-reading failure, without its payload.
pub enum DimensionsError {
    UnexpectedOutput,
    InvalidWidth,
    InvalidHeight,
    ZeroDimensions,
}

/// The parts of `s` before and after its first `c` (`str::split_once`).
pub open spec fn split_once(s: Seq<char>, c: char) -> Option<(Seq<char>, Seq<char>)> {
    if exists|k: int| 0 <= k < s.len() && s[k] == c {
        let k = choose|k: int|
            0 <= k < s.len() && s[k] == c && forall|j: int| 0 <= j < k ==> s[j] != c;
        Some((s.take(k), s.skip(k + 1)))
    } else {
        None
    }
}

/// The width and height that ffprobe's `WxH` output `text` states.
pub open spec fn dimensions(text: Seq<char>) -> Result<(u32, u32), DimensionsError> {
    match split_once(trim(text), 'x') {
        None => Err(DimensionsError::UnexpectedOutput),
        Some((w, h)) => match (parse_u32_spec(w), parse_u32_spec(h)) {
            (None, _) => Err(DimensionsError::InvalidWidth),
            (Some(_), None) => Err(DimensionsError::InvalidHeight),
            (Some(w), Some(h)) => if w > 0 && h > 0 {
                Ok((w, h))
            } else {
                Err(DimensionsError::ZeroDimensions)
            },
        },
    }
}

/// Whether `e` is the error that `d` calls for on the output `text`.
pub open spec fn dimensions_error_matches(text: Seq<char>, d: DimensionsError, e: ProbeError) -> bool {
    match d {
        DimensionsError::UnexpectedOutput => e matches ProbeError::UnexpectedOutput(dims) && dims@
            == trim(text),
        DimensionsError::InvalidWidth => e == ProbeError::InvalidWidth,
        DimensionsError::InvalidHeight => e == ProbeError::InvalidHeight,
        DimensionsError::ZeroDimensions => match split_once(trim(text), 'x') {
            Some((w, h)) => e == ProbeError::ZeroDimensions(
                parse_u32_spec(w)->0,
                parse_u32_spec(h)->0,
            ),
            None => false,
        },
    }
}

/// Reads the `WxH` that ffprobe prints: trims it, splits it at the first
/// `x`, reads both sides as `u32` and refuses a zero side.
pub fn parse_dimensions(text: &str) -> (r: Result<(u32, u32), ProbeError>)
    ensures
        match dimensions(text@) {
            Ok(wh) => r == Ok::<(u32, u32), ProbeError>(wh),
            Err(d) => r matches Err(e) && dimensions_error_matches(text@, d, e),
        },
{
    let chars = str_chars(text);
    let dims = trim_chars(&chars);
    let n = dims.len();
    let mut k: usize = 0;
    while k < n && dims[k] != 'x'
        invariant
            k <= n,
            n == dims.len(),
            forall|j: int| 0 <= j < k ==> dims@[j] != 'x',
        decreases n - k,
    {
        k = k + 1;
    }
    if k == n {
        return Err(ProbeError::UnexpectedOutput(chars_to_string(dims)));
    }
    let ghost chosen = choose|k: int|
        0 <= k < dims@.len() && dims@[k] == 'x' && forall|j: int| 0 <= j < k ==> dims@[j] != 'x';
    assert(chosen == k as int) by {
        if chosen < k {
        } else if chosen > k {
            assert(dims@[k as int] == 'x');
        }
    }
    let mut w_text: Vec<char> = Vec::new();
    let mut i: usize = 0;
    while i < k
        invariant
            i <= k < n,
            n == dims.len(),
            w_text@ == dims@.take(i as int),
        decreases k - i,
    {
        w_text.push(dims[i]);
        i = i + 1;
        assert(w_text@ =~= dims@.take(i as int));
    }
    let mut h_text: Vec<char> = Vec::new();
    let mut j: usize = k + 1;
    while j < n
        invariant
            k < j <= n,
            n == dims.len(),
            h_text@ == dims@.subrange(k + 1, j as int),
        decreases n - j,
    {
        h_text.push(dims[j]);
        j = j + 1;
        assert(h_text@ =~= dims@.subrange(k + 1, j as int));
    }
    assert(h_text@ =~= dims@.skip(k + 1));
    let w = match parse_u32(&w_text) {
        Some(w) => w,
        None => {
            return Err(ProbeError::InvalidWidth);
        },
    };
    let h = match parse_u32(&h_text) {
        Some(h) => h,
        None => {
            return Err(ProbeError::InvalidHeight);
        },
    };
    if w > 0 && h > 0 {
        Ok((w, h))
    } else {
        Err(ProbeError::ZeroDimensions(w, h))
    }
}

/// `String::from_utf8`: the text that `bytes` encode, when they are valid
/// UTF-8.
#[verifier::external_body]
fn utf8_to_string(bytes: Vec<u8>) -> (r: Option<String>)
    ensures
        r is Some <==> valid_utf8(bytes@),
        r matches Some(s) ==> s@ == decode_utf8(bytes@),
{
    match String::from_utf8(bytes) {
        Ok(s) => Some(s),
        Err(_) => None,
    }
}

/// Reads the result of an ffprobe run: whether it succeeded, what it wrote
/// to stdout and to stderr.
pub fn probe_result(success: bool, stdout: Vec<u8>, stderr: Vec<u8>) -> (r: Result<
    (u32, u32),
    ProbeError,
>)
    ensures
        !success ==> r == Err::<(u32, u32), ProbeError>(ProbeError::Failed(stderr)),
        success && !valid_utf8(stdout@) ==> r == Err::<(u32, u32), ProbeError>(
            ProbeError::NotUtf8,
        ),
        success && valid_utf8(stdout@) ==> match dimensions(decode_utf8(stdout@)) {
            Ok(wh) => r == Ok::<(u32, u32), ProbeError>(wh),
            Err(d) => r matches Err(e) && dimensions_error_matches(decode_utf8(stdout@), d, e),
        },
{
    if !success {
        return Err(ProbeError::Failed(stderr));
    }
    match utf8_to_string(stdout) {
        None => Err(ProbeError::NotUtf8),
        Some(text) => parse_dimensions(text.as_str()),
    }
}

/// The `scale` filter's size: the longer source side is driven to
/// `long_side` and ffmpeg derives the other (`-1`).
pub open spec fn scale_text(w: u32, h: u32, long_side: u32) -> Seq<char> {
    if w >= h {
        decimal(long_side as nat) + seq![':', '-', '1']
    } else {
        seq!['-', '1', ':'] + decimal(long_side as nat)
    }
}

/// The filter graph: denoise, then the lanczos scale, then sharpen.
pub open spec fn filter_text(w: u32, h: u32, long_side: u32) -> Seq<char> {
    "hqdn3d=4:3:6:4.5,scale="@ + scale_text(w, h, long_side)
        + ":flags=lanczos+accurate_rnd,cas=0.7"@
}

/// The scale size for a `w`×`h` source whose longer side becomes
/// `long_side`.
pub fn scale_spec(w: u32, h: u32, long_side: u32) -> (r: String)
    ensures
        r@ == scale_text(w, h, long_side),
        w < h ==> r@ == seq!['-', '1', ':'] + decimal(long_side as nat),
        w >= h ==> r@ == decimal(long_side as nat) + seq![':', '-', '1'],
{
    let mut out: Vec<char> = Vec::new();
    if w >= h {
        push_decimal(&mut out, long_side as u64);
        out.push(':');
        out.push('-');
        out.push('1');
    } else {
        out.push('-');
        out.push('1');
        out.push(':');
        push_decimal(&mut out, long_side as u64);
    }
    assert(out@ =~= scale_text(w, h, long_side));
    chars_to_string(out)
}

/// The ffmpeg filter graph for a `w`×`h` source whose longer side becomes
/// `long_side`.
pub fn filter_graph(w: u32, h: u32, long_side: u32) -> (r: String)
    ensures
        r@ == filter_text(w, h, long_side),
        w < h ==> r@ == "hqdn3d=4:3:6:4.5,scale="@ + seq!['-', '1', ':'] + decimal(long_side as nat)
            + ":flags=lanczos+accurate_rnd,cas=0.7"@,
        w >= h ==> r@ == "hqdn3d=4:3:6:4.5,scale="@ + decimal(long_side as nat) + seq![':', '-', '1']
            + ":flags=lanczos+accurate_rnd,cas=0.7"@,
{
    let mut out: Vec<char> = Vec::new();
    push_str(&mut out, "hqdn3d=4:3:6:4.5,scale=");
    let spec = scale_spec(w, h, long_side);
    push_str(&mut out, spec.as_str());
    push_str(&mut out, ":flags=lanczos+accurate_rnd,cas=0.7");
    assert(out@ =~= filter_text(w, h, long_side));
    chars_to_string(out)
}

/// The arguments of the ffprobe run that reads the size of the first video
/// stream of `input`.
pub open spec fn ffprobe_arg_texts(input: Seq<char>) -> Seq<Seq<char>> {
    seq![
        "-v"@,
        "error"@,
        "-select_streams"@,
        "v:0"@,
        "-show_entries"@,
        "stream=width,height"@,
        "-of"@,
        "csv=s=x:p=0"@,
        input,
    ]
}

/// The ffprobe arguments for `input`.
pub fn ffprobe_args(input: &str) -> (r: Vec<String>)
    ensures
        string_views(r@) == ffprobe_arg_texts(input@),
{
    let mut v: Vec<String> = Vec::new();
    v.push(owned("-v"));
    v.push(owned("error"));
    v.push(owned("-select_streams"));
    v.push(owned("v:0"));
    v.push(owned("-show_entries"));
    v.push(owned("stream=width,height"));
    v.push(owned("-of"));
    v.push(owned("csv=s=x:p=0"));
    v.push(owned(input));
    assert(string_views(v@) =~= ffprobe_arg_texts(input@));
    v
}

/// The arguments of the ffmpeg run that upscales `input` into `output` with
/// the filter graph `vf`: HEVC (libx265), preset veryslow, CRF 16, 10-bit
/// colour, the `hvc1` tag, and the audio copied.
pub open spec fn ffmpeg_arg_texts(input: Seq<char>, output: Seq<char>, vf: Seq<char>) -> Seq<
    Seq<char>,
> {
    seq![
        "-i"@,
        input,
        "-vf"@,
        vf,
        "-c:v"@,
        "libx265"@,
        "-preset"@,
        "veryslow"@,
        "-crf"@,
        "16"@,
        "-pix_fmt"@,
        "yuv420p10le"@,
        "-tag:v"@,
        "hvc1"@,
        "-c:a"@,
        "copy"@,
        output,
    ]
}

/// The ffmpeg arguments that upscale `input` into `output` with `vf`.
pub fn ffmpeg_args(input: &str, output: &str, vf: &str) -> (r: Vec<String>)
    ensures
        string_views(r@) == ffmpeg_arg_texts(input@, output@, vf@),
{
    let mut v: Vec<String> = Vec::new();
    v.push(owned("-i"));
    v.push(owned(input));
    v.push(owned("-vf"));
    v.push(owned(vf));
    v.push(owned("-c:v"));
    v.push(owned("libx265"));
    v.push(owned("-preset"));
    v.push(owned("veryslow"));
    v.push(owned("-crf"));
    v.push(owned("16"));
    v.push(owned("-pix_fmt"));
    v.push(owned("yuv420p10le"));
    v.push(owned("-tag:v"));
    v.push(owned("hvc1"));
    v.push(owned("-c:a"));
    v.push(owned("copy"));
    v.push(owned(output));
    assert(string_views(v@) =~= ffmpeg_arg_texts(input@, output@, vf@));
    v
}

/// The scale size drives the longer side of the source to the target and
/// lets ffmpeg derive the other: for a portrait source (`w < h`) it reads
/// `-1:` then the target (the height is driven), otherwise the target then
/// `:-1` (the width is driven); the target reads back as `long_side`.
pub proof fn law_scale_anchors_longer_side(w: u32, h: u32, long_side: u32)
    ensures
        ({
            let t = scale_text(w, h, long_side);
            &&& (t[0] == '-') == (w < h)
            &&& w < h ==> t.take(3) == seq!['-', '1', ':'] && parse_u32_spec(t.skip(3)) == Some(
                long_side,
            )
            &&& w >= h ==> t.skip(t.len() - 3) == seq![':', '-', '1'] && parse_u32_spec(
                t.take(t.len() - 3),
            ) == Some(long_side)
        }),
{
    let d = decimal(long_side as nat);
    lemma_decimal_value(long_side as nat);
    law_decimal_round_trip(long_side);
    assert(is_digit(d[0]));
    let t = scale_text(w, h, long_side);
    if w < h {
        assert(t.skip(3) =~= d);
        assert(t.take(3) =~= seq!['-', '1', ':']);
    } else {
        assert(t.take(t.len() - 3) =~= d);
        assert(t.skip(t.len() - 3) =~= seq![':', '-', '1']);
        assert(t[0] == d[0]);
    }
}

/// Trailing white space leaves text that ends in a digit as it is once
/// trimmed at the end.
proof fn lemma_trim_end_white_suffix(s: Seq<char>, ws: Seq<char>)
    requires
        s.len() > 0,
        is_digit(s.last()),
        forall|i: int| 0 <= i < ws.len() ==> is_white_space(#[trigger] ws[i]),
    ensures
        trim_end(s + ws) == s,
    decreases ws.len(),
{
    if ws.len() > 0 {
        assert((s + ws).drop_last() =~= s + ws.drop_last());
        assert((s + ws).last() == ws.last());
        lemma_trim_end_white_suffix(s, ws.drop_last());
    } else {
        assert(s + ws =~= s);
    }
}

/// ffprobe's `WxH` output reads as width `W` and height `H`, whatever the
/// orientation and whatever white space (such as the final line break)
/// follows: the number before the `x` is the width, the one after it the
/// height.
pub proof fn law_dimensions_read_back(w: u32, h: u32, ws: Seq<char>)
    requires
        w > 0,
        h > 0,
        forall|i: int| 0 <= i < ws.len() ==> is_white_space(#[trigger] ws[i]),
    ensures
        dimensions(decimal(w as nat) + seq!['x'] + decimal(h as nat) + ws) == Ok::<
            (u32, u32),
            DimensionsError,
        >((w, h)),
{
    let dw = decimal(w as nat);
    let dh = decimal(h as nat);
    lemma_decimal_value(w as nat);
    lemma_decimal_value(h as nat);
    law_decimal_round_trip(w);
    law_decimal_round_trip(h);
    let s0 = dw + seq!['x'] + dh;
    let text = s0 + ws;
    assert(is_digit(dw[0]));
    assert(s0[0] == dw[0]);
    assert(text[0] == dw[0]);
    assert(trim_start(text) == text);
    assert(s0.last() == dh.last());
    assert(is_digit(dh[dh.len() - 1]));
    lemma_trim_end_white_suffix(s0, ws);
    assert(trim(text) == s0);
    let k = dw.len() as int;
    assert(s0[k] == 'x');
    assert forall|j: int| 0 <= j < k implies s0[j] != 'x' by {
        assert(s0[j] == dw[j]);
        assert(is_digit(dw[j]));
    }
    let c = choose|c: int|
        0 <= c < s0.len() && s0[c] == 'x' && forall|j: int| 0 <= j < c ==> s0[j] != 'x';
    assert(c == k) by {
        if c > k {
            assert(s0[k] == 'x');
        }
    }
    assert(s0.take(k) =~= dw);
    assert(s0.skip(k + 1) =~= dh);
}

} // verus!
