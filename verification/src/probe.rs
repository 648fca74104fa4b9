//! Reading the prober's JSON output into a metadata snapshot: the format
//! block gives size, bitrate and duration; the first video stream gives
//! resolution and codec; a file without a video stream is rejected.
//!
//! The JSON structure is navigated through `serde_json`; every figure
//! pulled out of it is then parsed and assembled by verified code.

use vstd::prelude::*;
use crate::media::{VideoInfo, JobStatus, has_no_score};
use crate::text::{
    to_chars, chars_eq, chars_to_string, parse_u64, parse_milli, dec_str, u64_to_string,
    push_char, digit_char,
};

verus! {

/// Declares `serde_json::Value` to the verifier: an opaque parsed JSON
/// value, navigated only through the wrappers below.
#[verifier::external_type_specification]
#[verifier::external_body]
pub struct ExValue(serde_json::Value);

/// Relies on `serde_json::from_str::<Value>`: parses a JSON document,
/// or yields nothing when the text is not valid JSON.
#[verifier::external_body]
fn parse_json(s: &str) -> (r: Option<serde_json::Value>) {
    serde_json::from_str(s).ok()
}

/// Relies on `serde_json::Value::get` with a string key: the value
/// under `key` when `v` is an object holding it, nothing otherwise.
#[verifier::external_body]
fn json_get<'a>(v: &'a serde_json::Value, key: &str) -> (r: Option<&'a serde_json::Value>) {
    v.get(key)
}

/// Relies on `serde_json::Value::get` with an index: the element at
/// `idx` when `v` is an array long enough, nothing otherwise.
#[verifier::external_body]
fn json_index<'a>(v: &'a serde_json::Value, idx: usize) -> (r: Option<&'a serde_json::Value>) {
    v.get(idx)
}

/// Relies on `serde_json::Value::as_str`: the text of a JSON string,
/// nothing for any other kind of value.
#[verifier::external_body]
fn json_as_str<'a>(v: &'a serde_json::Value) -> (r: Option<&'a str>) {
    v.as_str()
}

/// Relies on `serde_json::Value::as_u64`: the value of a JSON integer
/// representable as `u64`, nothing otherwise.
#[verifier::external_body]
fn json_as_u64(v: &serde_json::Value) -> (r: Option<u64>) {
    v.as_u64()
}

/// Relies on `serde_json::Value::as_array` and `Vec::len`: the length
/// of a JSON array, nothing for any other kind of value.
#[verifier::external_body]
fn json_array_len(v: &serde_json::Value) -> (r: Option<usize>) {
    v.as_array().map(|a| a.len())
}

/// Why a probe result could not be read.
#[derive(Clone, Copy, Debug, PartialEq, Eq, Structural)]
pub enum ProbeError {
    /// The output was not valid JSON.
    InvalidJson,
    /// No format block.
    NoFormat,
    /// No streams array.
    NoStreams,
    /// No video stream: a hard failure for the file.
    NoVideoStream,
}

impl ProbeError {
    /// A short description of the failure.
    pub fn message(&self) -> (r: &'static str)
        ensures
            *self == ProbeError::InvalidJson ==> r@ == "failed to parse probe output"@,
            *self == ProbeError::NoFormat ==> r@ == "no format info"@,
            *self == ProbeError::NoStreams ==> r@ == "no streams info"@,
            *self == ProbeError::NoVideoStream ==> r@ == "no video stream found"@,
    {
        match self {
            ProbeError::InvalidJson => "failed to parse probe output",
            ProbeError::NoFormat => "no format info",
            ProbeError::NoStreams => "no streams info",
            ProbeError::NoVideoStream => "no video stream found",
        }
    }
}

/// The human-readable bitrate: megabits per second to one decimal
/// place, halves rounding up, from a figure in bits per second.
pub open spec fn mbps_str(bps: u64) -> Seq<char> {
    let tenths = (bps + 50000) / 100000;
    dec_str((tenths / 10) as nat) + seq!['.', digit_char((tenths % 10) as nat)] + " Mbps"@
}

/// Render a bitrate in bits per second as megabits per second.
fn bitrate_display(bps: u64) -> (r: String)
    ensures
        r@ == mbps_str(bps),
{
    proof {
        reveal_strlit(" Mbps");
    }
    let tenths: u64 = (((bps as u128) + 50000) / 100000) as u64;
    let mut s = u64_to_string(tenths / 10);
    push_char(&mut s, '.');
    push_char(&mut s, crate::text::digit_char_exec(tenths % 10));
    s.append(" Mbps");
    proof {
        assert(s@ =~= mbps_str(bps));
    }
    s
}

/// Assemble the metadata snapshot of a freshly probed file from its raw
/// figures: resolution as `WxH`, the bitrate both as text and in
/// thousandths of a kilobit per second (numerically equal to bits per
/// second), status `Pending`, zero progress, and no score fields.
pub fn assemble_probe_info(
    name: String,
    path: String,
    size: u64,
    width: u64,
    height: u64,
    bitrate_bps: Option<u64>,
    codec: String,
    duration_ms: u64,
) -> (r: VideoInfo)
    ensures
        r.name == name,
        r.path == path,
        r.size == size,
        r.resolution@ == dec_str(width as nat) + "x"@ + dec_str(height as nat),
        match bitrate_bps {
            Some(b) => r.bitrate@ == mbps_str(b) && r.bitrate_milli == Some(b),
            None => r.bitrate@ == "N/A"@ && r.bitrate_milli is None,
        },
        r.encoder == codec,
        r.status == JobStatus::Pending,
        r.progress == 0,
        r.duration_ms == duration_ms,
        r.speed_milli is None,
        has_no_score(r),
{
    let mut resolution = u64_to_string(width);
    proof {
        reveal_strlit("x");
    }
    resolution.append("x");
    let h = u64_to_string(height);
    resolution.append(h.as_str());
    let (bitrate, bitrate_milli): (String, Option<u64>) = match bitrate_bps {
        Some(b) => (bitrate_display(b), Some(b)),
        None => (String::from_str("N/A"), None),
    };
    VideoInfo {
        name,
        path,
        size,
        resolution,
        bitrate,
        encoder: codec,
        status: JobStatus::Pending,
        progress: 0,
        duration_ms,
        speed_milli: None,
        bitrate_milli,
        vmaf_milli: None,
        vmaf_device: None,
        vmaf_detail: None,
        vmaf_total_segments: None,
        vmaf_model: None,
    }
}

fn str_field_u64(v: &serde_json::Value, key: &str) -> Option<u64> {
    match json_get(v, key) {
        Some(f) => match json_as_str(f) {
            Some(s) => {
                let c = to_chars(s);
                parse_u64(&c)
            },
            None => None,
        },
        None => None,
    }
}

/// Read the prober's JSON output into a metadata snapshot. The format
/// block must be present, the streams array too, and one stream must be
/// of video type; missing figures read as zero or unknown. A snapshot
/// read here is `Pending`, at zero progress, and carries no score
/// fields.
pub fn probe_video_info(json_text: &str, name: String, path: String) -> (r: Result<
    VideoInfo,
    ProbeError,
>)
    ensures
        match r {
            Ok(info) => {
                &&& info.name == name
                &&& info.path == path
                &&& info.status == JobStatus::Pending
                &&& info.progress == 0
                &&& info.speed_milli is None
                &&& has_no_score(info)
            },
            Err(_) => true,
        },
{
    let parsed = match parse_json(json_text) {
        Some(v) => v,
        None => {
            return Err(ProbeError::InvalidJson);
        },
    };
    let format = match json_get(&parsed, "format") {
        Some(f) => f,
        None => {
            return Err(ProbeError::NoFormat);
        },
    };
    let streams = match json_get(&parsed, "streams") {
        Some(s) => s,
        None => {
            return Err(ProbeError::NoStreams);
        },
    };
    let n_streams = match json_array_len(streams) {
        Some(n) => n,
        None => {
            return Err(ProbeError::NoStreams);
        },
    };
    let video_tag = to_chars("video");
    let mut video_stream: Option<&serde_json::Value> = None;
    let mut i: usize = 0;
    while i < n_streams
        invariant
            i <= n_streams,
        decreases n_streams - i,
    {
        if video_stream.is_none() {
            match json_index(streams, i) {
                Some(s) => {
                    match json_get(s, "codec_type") {
                        Some(t) => match json_as_str(t) {
                            Some(ts) => {
                                let tc = to_chars(ts);
                                if chars_eq(&tc, &video_tag) {
                                    video_stream = Some(s);
                                }
                            },
                            None => {},
                        },
                        None => {},
                    }
                },
                None => {},
            }
        }
        i += 1;
    }
    let stream = match video_stream {
        Some(s) => s,
        None => {
            return Err(ProbeError::NoVideoStream);
        },
    };
    let width = match json_get(stream, "width") {
        Some(w) => match json_as_u64(w) {
            Some(v) => v,
            None => 0,
        },
        None => 0,
    };
    let height = match json_get(stream, "height") {
        Some(h) => match json_as_u64(h) {
            Some(v) => v,
            None => 0,
        },
        None => 0,
    };
    let size = match str_field_u64(format, "size") {
        Some(v) => v,
        None => 0,
    };
    let bitrate_bps: Option<u64> = match json_get(format, "bit_rate") {
        Some(f) => match json_as_str(f) {
            Some(s) => {
                let c = to_chars(s);
                match parse_milli(&c) {
                    Some(v) => Some(v / 1000),
                    None => None,
                }
            },
            None => None,
        },
        None => None,
    };
    let duration_ms: u64 = match json_get(format, "duration") {
        Some(f) => match json_as_str(f) {
            Some(s) => {
                let c = to_chars(s);
                match parse_milli(&c) {
                    Some(v) => v,
                    None => 0,
                }
            },
            None => 0,
        },
        None => 0,
    };
    let codec: String = match json_get(stream, "codec_name") {
        Some(c) => match json_as_str(c) {
            Some(s) => {
                let v = to_chars(s);
                chars_to_string(&v)
            },
            None => String::from_str("unknown"),
        },
        None => String::from_str("unknown"),
    };
    Ok(assemble_probe_info(name, path, size, width, height, bitrate_bps, codec, duration_ms))
}

} // verus!
