//! Decisions of the video display: which decoded frames are shown and which
//! buffers go back for reuse, what the stream status shows, and when the
//! displayed image must be made anew.

use vstd::prelude::*;

verus! {

/// A message from the video connection, as far as the display decides on it
/// (a frame's pixels and timings stay with the caller, by position).
#[derive(Debug)]
pub enum VideoEvent {
    /// A decoded frame of this size.
    Frame { width: u32, height: u32 },
    /// The stream is established with this codec, decoder and size.
    StreamInfo { codec: String, hw_active: bool, width: u32, height: u32 },
    /// A script failed with this message.
    ScriptError { error: String },
    /// The last script error is cleared.
    ScriptClearError,
    /// The connection closed.
    Close,
}

/// What the status display shows of the stream and of scripts.
#[derive(Debug)]
pub struct StreamStatus {
    pub codec: Option<String>,
    pub hw_decode_active: bool,
    pub width: u32,
    pub height: u32,
    pub last_script_error: Option<String>,
}

/// The model of a [`StreamStatus`].
pub struct StatusModel {
    pub codec: Option<Seq<char>>,
    pub hw_decode_active: bool,
    pub width: u32,
    pub height: u32,
    pub last_script_error: Option<Seq<char>>,
}

pub open spec fn opt_view(o: Option<String>) -> Option<Seq<char>> {
    match o {
        Some(s) => Some(s@),
        None => None,
    }
}

pub open spec fn status_view(s: StreamStatus) -> StatusModel {
    StatusModel {
        codec: opt_view(s.codec),
        hw_decode_active: s.hw_decode_active,
        width: s.width,
        height: s.height,
        last_script_error: opt_view(s.last_script_error),
    }
}

/// What an event does to the status: stream information is recorded, a
/// script error is kept until cleared, and a closed connection forgets the
/// stream (but not the script error).
pub open spec fn status_step(s: StatusModel, e: VideoEvent) -> StatusModel {
    match e {
        VideoEvent::Frame { .. } => s,
        VideoEvent::StreamInfo { codec, hw_active, width, height } => StatusModel {
            codec: Some(codec@),
            hw_decode_active: hw_active,
            width,
            height,
            ..s
        },
        VideoEvent::ScriptError { error } => StatusModel { last_script_error: Some(error@), ..s },
        VideoEvent::ScriptClearError => StatusModel { last_script_error: None, ..s },
        VideoEvent::Close => StatusModel { codec: None, hw_decode_active: false, width: 0, height: 0, ..s },
    }
}

/// Updates the status for one event.
pub fn apply_event(s: &mut StreamStatus, e: VideoEvent)
    ensures
        status_view(*final(s)) == status_step(status_view(*old(s)), e),
{
    match e {
        VideoEvent::Frame { .. } => {},
        VideoEvent::StreamInfo { codec, hw_active, width, height } => {
            s.codec = Some(codec);
            s.hw_decode_active = hw_active;
            s.width = width;
            s.height = height;
        },
        VideoEvent::ScriptError { error } => {
            s.last_script_error = Some(error);
        },
        VideoEvent::ScriptClearError => {
            s.last_script_error = None;
        },
        VideoEvent::Close => {
            s.codec = None;
            s.hw_decode_active = false;
            s.width = 0;
            s.height = 0;
        },
    }
}

/// Of the events of one display frame, the position of the last decoded
/// frame (the one shown); the frames before it go back for reuse.
pub open spec fn last_frame(events: Seq<VideoEvent>, i: int) -> Option<int>
    decreases i,
{
    if i <= 0 || i > events.len() {
        None
    } else if events[i - 1] is Frame {
        Some(i - 1)
    } else {
        last_frame(events, i - 1)
    }
}

/// Finds the decoded frame to show among the events of one display frame.
pub fn frame_to_show(events: &Vec<VideoEvent>) -> (r: Option<usize>)
    ensures
        match r {
            Some(k) => last_frame(events@, events@.len() as int) == Some(k as int),
            None => last_frame(events@, events@.len() as int) is None,
        },
{
    let mut i = events.len();
    while i > 0
        invariant
            i <= events@.len(),
            last_frame(events@, events@.len() as int) == last_frame(events@, i as int),
        decreases i,
    {
        match &events[i - 1] {
            VideoEvent::Frame { .. } => {
                return Some(i - 1);
            },
            _ => {},
        }
        i = i - 1;
    }
    None
}

/// A frame needs a new image when there is none yet or its size changed;
/// otherwise its pixels replace those of the current image.
pub fn needs_new_image(has_image: bool, cur_w: u32, cur_h: u32, w: u32, h: u32) -> (b: bool)
    ensures
        b == (!has_image || cur_w != w || cur_h != h),
{
    cur_w != w || cur_h != h || !has_image
}

/// The status display is shown when diagnostics are enabled or a script
/// error is waiting to be read.
pub fn show_status(enabled: bool, s: &StreamStatus) -> (b: bool)
    ensures
        b == (enabled || s.last_script_error is Some),
{
    enabled || s.last_script_error.is_some()
}

/// The encoder options that the status display lists, in order.
pub open spec fn option_labels(low_latency: bool, realtime: bool, qcom: bool, intra: bool, custom: bool) -> Seq<Seq<char>> {
    (if low_latency { seq!["latency=0"@] } else { Seq::empty() })
        + (if realtime { seq!["priority=0"@] } else { Seq::empty() })
        + (if qcom { seq!["qcom-ll"@] } else { Seq::empty() })
        + (if intra { seq!["intra-refresh"@] } else { Seq::empty() })
        + (if custom { seq!["custom"@] } else { Seq::empty() })
}

/// Lists the encoder options for the status display.
pub fn status_option_labels(low_latency: bool, realtime: bool, qcom: bool, intra: bool, custom: bool) -> (v: Vec<String>)
    ensures
        v@.map_values(|s: String| s@) == option_labels(low_latency, realtime, qcom, intra, custom),
{
    let mut v: Vec<String> = Vec::new();
    if low_latency {
        v.push(String::from_str("latency=0"));
    }
    if realtime {
        v.push(String::from_str("priority=0"));
    }
    if qcom {
        v.push(String::from_str("qcom-ll"));
    }
    if intra {
        v.push(String::from_str("intra-refresh"));
    }
    if custom {
        v.push(String::from_str("custom"));
    }
    assert(v@.map_values(|s: String| s@) =~= option_labels(low_latency, realtime, qcom, intra, custom));
    v
}

} // verus!
