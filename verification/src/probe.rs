//! Video metadata from the output of a stream-probing tool.
//!
//! The tool is run twice for one video: once for the dimensions of the first
//! video stream, which it prints as two lines, the width and then the
//! height; once for the duration of the container, which it prints as one
//! decimal number of seconds. This module says how the tool is to be called
//! and reads what it printed. Nothing here fails: whatever cannot be had is
//! absent from the metadata.

use crate::decimal::{parse_seconds, rounded_seconds};
use crate::text::{
    chars_of, line_at, line_range, trim, trimmed_range, unsigned64, unsigned64_in,
    unsigned_value,
};
use vstd::prelude::*;

verus! {

/// A call of an external tool: the program and its arguments, in order.
#[derive(Debug)]
pub struct ToolCall {
    pub program: String,
    pub args: Vec<String>,
}

/// The texts of a sequence of strings.
pub open spec fn texts(v: Seq<String>) -> Seq<Seq<char>> {
    Seq::new(v.len(), |i: int| v[i]@)
}

impl ToolCall {
    /// The program's name and the arguments, as texts.
    pub open spec fn view(&self) -> (Seq<char>, Seq<Seq<char>>) {
        (self.program@, texts(self.args@))
    }
}

/// How one run of the probing tool ended: whether it exited with success,
/// and what it wrote to its standard output.
#[derive(Debug)]
pub struct ProbeOutput {
    pub success: bool,
    pub stdout: String,
}

/// What probing found out about a video. Each field is there or not
/// independently of the others; one that is there is positive. A field
/// holds what the tool printed, whatever a call of the messaging client
/// can take: see `narrow16` and `narrow32`.
#[derive(Clone, Copy, Debug, PartialEq, Eq)]
pub struct VideoMetadata {
    pub width: Option<u64>,
    pub height: Option<u64>,
    pub duration: Option<u64>,
}

/// The name of the probing tool.
pub open spec fn probe_program() -> Seq<char> {
    "ffprobe"@
}

/// The arguments that make the probing tool print the width and the height
/// of the first video stream of `path`, one value per line.
pub open spec fn dimensions_args(path: Seq<char>) -> Seq<Seq<char>> {
    seq![
        "-v"@,
        "error"@,
        "-select_streams"@,
        "v:0"@,
        "-show_entries"@,
        "stream=width,height"@,
        "-of"@,
        "default=noprint_wrappers=1:nokey=1"@,
        path,
    ]
}

/// The arguments that make the probing tool print the duration of the
/// container of `path`, in seconds.
pub open spec fn duration_args(path: Seq<char>) -> Seq<Seq<char>> {
    seq![
        "-v"@,
        "error"@,
        "-show_entries"@,
        "format=duration"@,
        "-of"@,
        "default=noprint_wrappers=1:nokey=1"@,
        path,
    ]
}

/// `v` where it is positive, and nothing else.
pub open spec fn positive(v: Option<u64>) -> Option<u64> {
    match v {
        Some(n) => if n > 0 {
            Some(n)
        } else {
            None
        },
        None => None,
    }
}

/// The dimension that line `k` of `text` holds: the line, trimmed, read as
/// an unsigned integer, and kept where it is positive. It is absent where
/// sixty-four bits do not hold the integer.
pub open spec fn dimension_on_line(text: Seq<char>, k: nat) -> Option<u64> {
    positive(unsigned64(trim(line_at(text, k))))
}

/// The text that a run of the tool gives to read: its standard output where
/// it was run and exited with success.
pub open spec fn readable(run: Option<ProbeOutput>) -> Option<Seq<char>> {
    match run {
        Some(out) => if out.success {
            Some(out.stdout@)
        } else {
            None
        },
        None => None,
    }
}

/// The metadata that two runs of the tool give, the first for the
/// dimensions and the second for the duration. A run is `None` where the
/// tool could not be started.
pub open spec fn metadata_of(
    dimensions: Option<ProbeOutput>,
    duration: Option<ProbeOutput>,
) -> VideoMetadata {
    VideoMetadata {
        width: match readable(dimensions) {
            Some(text) => dimension_on_line(text, 0),
            None => None,
        },
        height: match readable(dimensions) {
            Some(text) => dimension_on_line(text, 1),
            None => None,
        },
        duration: match readable(duration) {
            Some(text) => rounded_seconds(trim(text)),
            None => None,
        },
    }
}

impl VideoMetadata {
    /// Metadata with every field absent.
    pub open spec fn absent() -> VideoMetadata {
        VideoMetadata { width: None, height: None, duration: None }
    }

    /// Whether every field that is there is positive.
    pub open spec fn well_formed(&self) -> bool {
        &&& self.width matches Some(w) ==> w > 0
        &&& self.height matches Some(h) ==> h > 0
        &&& self.duration matches Some(d) ==> d > 0
    }

    /// Metadata with every field absent.
    pub fn none() -> (m: VideoMetadata)
        ensures
            m == VideoMetadata::absent(),
    {
        VideoMetadata { width: None, height: None, duration: None }
    }
}

/// A dimension is the integer that its line writes. Where the line, trimmed,
/// writes the integer `v`, the dimension is `v` itself wherever `v` is
/// positive and sixty-four bits hold it, and it is absent else: no value
/// stands in for another.
pub proof fn lemma_dimension_is_the_integer(text: Seq<char>, k: nat, v: nat)
    requires
        unsigned_value(trim(line_at(text, k))) == Some(v),
    ensures
        1 <= v <= u64::MAX ==> dimension_on_line(text, k) == Some(v as u64),
        v == 0 || v > u64::MAX ==> dimension_on_line(text, k) is None,
{
}

/// Probing yields positive numbers only: every field of the metadata that is
/// there is greater than zero, whatever the tool printed.
pub proof fn lemma_metadata_is_positive(
    dimensions: Option<ProbeOutput>,
    duration: Option<ProbeOutput>,
)
    ensures
        metadata_of(dimensions, duration).well_formed(),
{
}

/// A probe that fails withholds its fields and raises nothing: where neither
/// run was started, or exited with success, all three fields are absent;
/// where one of the two did not, the fields that it is asked for are.
pub proof fn lemma_failed_probe_withholds(
    dimensions: Option<ProbeOutput>,
    duration: Option<ProbeOutput>,
)
    ensures
        readable(dimensions) is None ==> metadata_of(dimensions, duration).width is None
            && metadata_of(dimensions, duration).height is None,
        readable(duration) is None ==> metadata_of(dimensions, duration).duration is None,
        readable(dimensions) is None && readable(duration) is None ==> metadata_of(
            dimensions,
            duration,
        ) == VideoMetadata::absent(),
{
}

/// `v` where sixteen bits hold it, and nothing else.
pub open spec fn narrowed16(v: Option<u64>) -> Option<u16> {
    match v {
        Some(n) => if n <= u16::MAX {
            Some(n as u16)
        } else {
            None
        },
        None => None,
    }
}

/// `v` where thirty-two bits hold it, and nothing else.
pub open spec fn narrowed32(v: Option<u64>) -> Option<u32> {
    match v {
        Some(n) => if n <= u32::MAX {
            Some(n as u32)
        } else {
            None
        },
        None => None,
    }
}

/// A field for a call of the messaging client that takes sixteen bits: the
/// field where it fits, and absent where it does not. No value stands in
/// for another.
pub fn narrow16(v: Option<u64>) -> (r: Option<u16>)
    ensures
        r == narrowed16(v),
{
    match v {
        Some(n) => if n <= 65535 {
            Some(n as u16)
        } else {
            None
        },
        None => None,
    }
}

/// A field for a call of the messaging client that takes thirty-two bits:
/// the field where it fits, and absent where it does not. No value stands
/// in for another.
pub fn narrow32(v: Option<u64>) -> (r: Option<u32>)
    ensures
        r == narrowed32(v),
{
    match v {
        Some(n) => if n <= 4294967295 {
            Some(n as u32)
        } else {
            None
        },
        None => None,
    }
}

/// The call that asks the probing tool for the dimensions of `path`.
pub fn dimensions_probe(path: &str) -> (call: ToolCall)
    ensures
        call@ == (probe_program(), dimensions_args(path@)),
{
    let mut args: Vec<String> = Vec::new();
    args.push(String::from_str("-v"));
    args.push(String::from_str("error"));
    args.push(String::from_str("-select_streams"));
    args.push(String::from_str("v:0"));
    args.push(String::from_str("-show_entries"));
    args.push(String::from_str("stream=width,height"));
    args.push(String::from_str("-of"));
    args.push(String::from_str("default=noprint_wrappers=1:nokey=1"));
    args.push(String::from_str(path));
    assert(texts(args@) =~= dimensions_args(path@));
    ToolCall { program: String::from_str("ffprobe"), args }
}

/// The call that asks the probing tool for the duration of `path`.
pub fn duration_probe(path: &str) -> (call: ToolCall)
    ensures
        call@ == (probe_program(), duration_args(path@)),
{
    let mut args: Vec<String> = Vec::new();
    args.push(String::from_str("-v"));
    args.push(String::from_str("error"));
    args.push(String::from_str("-show_entries"));
    args.push(String::from_str("format=duration"));
    args.push(String::from_str("-of"));
    args.push(String::from_str("default=noprint_wrappers=1:nokey=1"));
    args.push(String::from_str(path));
    assert(texts(args@) =~= duration_args(path@));
    ToolCall { program: String::from_str("ffprobe"), args }
}

/// Keeps a number where it is positive.
pub fn keep_positive(v: Option<u64>) -> (r: Option<u64>)
    ensures
        r == positive(v),
{
    match v {
        Some(n) => if n > 0 {
            Some(n)
        } else {
            None
        },
        None => None,
    }
}

/// Reads the width and the height from what the tool printed: the first
/// line holds the width and the second the height.
pub fn parse_dimensions(stdout: &str) -> (r: (Option<u64>, Option<u64>))
    ensures
        r.0 == dimension_on_line(stdout@, 0),
        r.1 == dimension_on_line(stdout@, 1),
{
    let chars = chars_of(stdout);
    let (a0, b0) = line_range(&chars, 0);
    let (c0, d0) = trimmed_range(&chars, a0, b0);
    let width = keep_positive(unsigned64_in(&chars, c0, d0));
    let (a1, b1) = line_range(&chars, 1);
    let (c1, d1) = trimmed_range(&chars, a1, b1);
    let height = keep_positive(unsigned64_in(&chars, c1, d1));
    (width, height)
}

/// Reads the duration from what the tool printed: a decimal number of
/// seconds, rounded to the nearest whole second and kept where that is
/// positive.
pub fn parse_duration(stdout: &str) -> (r: Option<u64>)
    ensures
        r == rounded_seconds(trim(stdout@)),
        r matches Some(d) ==> d > 0,
{
    parse_seconds(stdout)
}

/// The metadata of a video from the two runs of the probing tool. A run is
/// `None` where the tool could not be started.
pub fn get_video_metadata(dimensions: &Option<ProbeOutput>, duration: &Option<ProbeOutput>) -> (m:
    VideoMetadata)
    ensures
        m == metadata_of(*dimensions, *duration),
        m.well_formed(),
{
    let mut m = VideoMetadata::none();
    match dimensions {
        Some(out) => {
            if out.success {
                let (w, h) = parse_dimensions(out.stdout.as_str());
                m.width = w;
                m.height = h;
            }
        },
        None => {},
    }
    match duration {
        Some(out) => {
            if out.success {
                m.duration = parse_duration(out.stdout.as_str());
            }
        },
        None => {},
    }
    m
}

} // verus!
