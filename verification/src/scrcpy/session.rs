//! Starting a session with the device server: the command line it runs
//! with, the connections it opens, and the scaling of positions sent to it.

use vstd::prelude::*;
use crate::scrcpy::media::{VideoCodec, codec_name};
use crate::script::value::trunc_div;
use crate::text::{dec_int, dec_nat, i64_to_string, u64_to_string};

verus! {

/// The video settings that shape the server's command line.
#[derive(Debug)]
pub struct VideoOptions {
    pub codec: VideoCodec,
    pub bit_rate: u32,
    pub max_size: u32,
    pub max_fps: u32,
    pub low_latency: bool,
    pub realtime_priority: bool,
    pub qcom_low_latency: bool,
    pub intra_refresh: bool,
    pub codec_options: String,
}

/// The encoder options: low latency, real-time priority, the Qualcomm
/// low-latency switch, intra refresh, then the user's own options.
pub open spec fn codec_option_list(o: VideoOptions) -> Seq<Seq<char>> {
    let a = if o.low_latency { seq!["latency=0"@] } else { Seq::empty() };
    let b = if o.realtime_priority { seq!["priority=0"@] } else { Seq::empty() };
    let c = if o.qcom_low_latency { seq!["vendor.qti-ext-enc-low-latency.enable=1"@] } else { Seq::empty() };
    let d = if o.intra_refresh { seq!["intra-refresh-period=60"@] } else { Seq::empty() };
    let e = if o.codec_options@.len() > 0 { seq![o.codec_options@] } else { Seq::empty() };
    a + b + c + d + e
}

/// Items joined with `sep` between them.
pub open spec fn join_with(items: Seq<Seq<char>>, sep: Seq<char>) -> Seq<char>
    decreases items.len(),
{
    if items.len() == 0 {
        Seq::empty()
    } else if items.len() == 1 {
        items[0]
    } else {
        join_with(items.drop_last(), sep) + sep + items.last()
    }
}

/// A boolean as the server's options spell it.
pub open spec fn flag_text(b: bool) -> Seq<char> {
    if b { "true"@ } else { "false"@ }
}

/// The command line of the device server: the fixed launcher words, the
/// version, session id, video switch, display and no audio; for the first
/// (main) device with video also the codec, bit rate, size and frame-rate
/// limits (when set) and the encoder options (when any).
pub open spec fn server_args_model(version: Seq<char>, scid: Seq<char>, video: bool, display_id: i32, main: bool, o: VideoOptions) -> Seq<Seq<char>> {
    let base = seq![
        "CLASSPATH=/data/local/tmp/scrcpy-server.jar"@,
        "app_process"@,
        "/"@,
        "com.genymobile.scrcpy.Server"@,
        version,
        "scid="@ + scid,
        "video="@ + flag_text(video),
        "display_id="@ + dec_int(display_id as int),
        "audio=false"@
    ];
    if main && video {
        let v = seq!["video_codec="@ + codec_name(o.codec), "video_bit_rate="@ + dec_nat(o.bit_rate as nat)];
        let s = if o.max_size > 0 { seq!["max_size="@ + dec_nat(o.max_size as nat)] } else { Seq::empty() };
        let f = if o.max_fps > 0 { seq!["max_fps="@ + dec_nat(o.max_fps as nat)] } else { Seq::empty() };
        let opts = codec_option_list(o);
        let c = if opts.len() > 0 { seq!["video_codec_options="@ + join_with(opts, ","@)] } else { Seq::empty() };
        base + v + s + f + c
    } else {
        base
    }
}

/// The views of a list of strings.
pub open spec fn views(v: Seq<String>) -> Seq<Seq<char>> {
    v.map_values(|s: String| s@)
}

fn push_text(out: &mut Vec<String>, s: String)
    ensures
        views(final(out)@) == views(old(out)@).push(s@),
{
    let ghost before = out@;
    out.push(s);
    assert(views(out@) =~= views(before).push(s@));
}

fn prefixed(prefix: &str, value: &str) -> (s: String)
    ensures
        s@ == prefix@ + value@,
{
    let mut s = String::from_str(prefix);
    s.append(value);
    s
}

/// The encoder options, joined with commas.
fn codec_options_text(o: &VideoOptions) -> (r: Option<String>)
    ensures
        match r {
            Some(s) => codec_option_list(*o).len() > 0 && s@ == join_with(codec_option_list(*o), ","@),
            None => codec_option_list(*o).len() == 0,
        },
{
    let mut items: Vec<String> = Vec::new();
    if o.low_latency {
        push_text(&mut items, String::from_str("latency=0"));
    }
    if o.realtime_priority {
        push_text(&mut items, String::from_str("priority=0"));
    }
    if o.qcom_low_latency {
        push_text(&mut items, String::from_str("vendor.qti-ext-enc-low-latency.enable=1"));
    }
    if o.intra_refresh {
        push_text(&mut items, String::from_str("intra-refresh-period=60"));
    }
    if o.codec_options.as_str().unicode_len() > 0 {
        push_text(&mut items, o.codec_options.clone());
    }
    let ghost list = codec_option_list(*o);
    assert(views(items@) =~= list);
    if items.len() == 0 {
        return None;
    }
    let mut s = items[0].clone();
    let mut i: usize = 1;
    assert(views(items@).take(1) =~= seq![items@[0]@]);
    while i < items.len()
        invariant
            1 <= i <= items@.len(),
            views(items@) == list,
            s@ == join_with(list.take(i as int), ","@),
        decreases items@.len() - i,
    {
        s.append(",");
        s.append(items[i].as_str());
        assert(list.take(i + 1).drop_last() =~= list.take(i as int));
        i = i + 1;
    }
    assert(list.take(items@.len() as int) =~= list);
    Some(s)
}

/// The command line that starts the device server.
pub fn server_args(version: &str, scid: &str, video: bool, display_id: i32, main: bool, o: &VideoOptions) -> (args: Vec<String>)
    ensures
        views(args@) == server_args_model(version@, scid@, video, display_id, main, *o),
{
    let mut args: Vec<String> = Vec::new();
    push_text(&mut args, String::from_str("CLASSPATH=/data/local/tmp/scrcpy-server.jar"));
    push_text(&mut args, String::from_str("app_process"));
    push_text(&mut args, String::from_str("/"));
    push_text(&mut args, String::from_str("com.genymobile.scrcpy.Server"));
    push_text(&mut args, String::from_str(version));
    push_text(&mut args, prefixed("scid=", scid));
    push_text(&mut args, prefixed("video=", if video { "true" } else { "false" }));
    push_text(&mut args, prefixed("display_id=", i64_to_string(display_id as i64).as_str()));
    push_text(&mut args, String::from_str("audio=false"));
    let ghost base = views(args@);
    if main && video {
        push_text(&mut args, prefixed("video_codec=", o.codec.name().as_str()));
        push_text(&mut args, prefixed("video_bit_rate=", u64_to_string(o.bit_rate as u64).as_str()));
        if o.max_size > 0 {
            push_text(&mut args, prefixed("max_size=", u64_to_string(o.max_size as u64).as_str()));
        }
        if o.max_fps > 0 {
            push_text(&mut args, prefixed("max_fps=", u64_to_string(o.max_fps as u64).as_str()));
        }
        match codec_options_text(o) {
            Some(t) => push_text(&mut args, prefixed("video_codec_options=", t.as_str())),
            None => {},
        }
    }
    assert(views(args@) =~= server_args_model(version@, scid@, video, display_id, main, *o));
    args
}

/// A connection to open to the device server, with whether it reads the
/// device metadata first.
#[derive(Debug, PartialEq, Eq)]
pub enum ConnectCommand {
    MainVideo { scid: String, meta: bool },
    MainControl { scid: String, meta: bool },
    SubControl { scid: String },
}

/// The connections a session opens, with their socket names: the first
/// device opens its video connection (when asked for) and then its control
/// connection, and the metadata is read on the first of them; a further
/// device opens a control connection only.
pub fn session_connections(scid: &String, video: bool, main: bool) -> (r: (Vec<String>, Vec<ConnectCommand>))
    ensures
        main && video ==> views(r.0@) == seq!["main_video"@, "main_control"@] && r.1@.len() == 2
            && r.1@[0] == (ConnectCommand::MainVideo { scid: r.1@[0]->MainVideo_scid, meta: true })
            && r.1@[0]->MainVideo_scid@ == scid@
            && r.1@[1] == (ConnectCommand::MainControl { scid: r.1@[1]->MainControl_scid, meta: false })
            && r.1@[1]->MainControl_scid@ == scid@,
        main && !video ==> views(r.0@) == seq!["main_control"@] && r.1@.len() == 1
            && r.1@[0] == (ConnectCommand::MainControl { scid: r.1@[0]->MainControl_scid, meta: true })
            && r.1@[0]->MainControl_scid@ == scid@,
        !main ==> views(r.0@) == seq!["sub_control_"@ + scid@] && r.1@.len() == 1 && r.1@[0] is SubControl
            && r.1@[0]->SubControl_scid@ == scid@,
{
    let mut ids: Vec<String> = Vec::new();
    let mut cmds: Vec<ConnectCommand> = Vec::new();
    if main {
        let mut meta = true;
        if video {
            push_text(&mut ids, String::from_str("main_video"));
            cmds.push(ConnectCommand::MainVideo { scid: scid.clone(), meta });
            meta = false;
        }
        push_text(&mut ids, String::from_str("main_control"));
        cmds.push(ConnectCommand::MainControl { scid: scid.clone(), meta });
    } else {
        push_text(&mut ids, prefixed("sub_control_", scid.as_str()));
        cmds.push(ConnectCommand::SubControl { scid: scid.clone() });
    }
    (ids, cmds)
}

/// The device size to scale to: the size recorded for the device, or, while
/// either side of it is unknown (0), the size last reported by the device.
pub open spec fn device_size_model(recorded: Option<(u32, u32)>, reported: (u32, u32)) -> (u32, u32) {
    let s = match recorded {
        Some(s) => s,
        None => (0u32, 0u32),
    };
    if s.0 == 0 || s.1 == 0 { reported } else { s }
}

/// A position in a frame of size `w`×`h`, scaled to a device of size
/// `dw`×`dh` (unchanged when the frame has no size), with the device size.
pub open spec fn scaled_position(x: i32, y: i32, w: u16, h: u16, dw: u32, dh: u32) -> (i32, i32, u16, u16) {
    if w > 0 && h > 0 {
        (
            trunc_div(x * (dw as i32), w as int) as i32,
            trunc_div(y * (dh as i32), h as int) as i32,
            dw as u16,
            dh as u16,
        )
    } else {
        (x, y, dw as u16, dh as u16)
    }
}

/// Scaling cannot overflow: the products fit in `i32`.
pub open spec fn scale_fits(x: i32, y: i32, w: u16, h: u16, dw: u32, dh: u32) -> bool {
    w > 0 && h > 0 ==> i32::MIN <= x * (dw as i32) <= i32::MAX && i32::MIN <= y * (dh as i32) <= i32::MAX
}

/// Scales a touch or scroll position from the frame it was given in to the
/// device, picking the device size as [`device_size_model`] does.
pub fn scale_to_device(x: i32, y: i32, w: u16, h: u16, recorded: Option<(u32, u32)>, reported: (u32, u32)) -> (r: (i32, i32, u16, u16))
    requires
        ({
            let (dw, dh) = device_size_model(recorded, reported);
            scale_fits(x, y, w, h, dw, dh)
        }),
    ensures
        ({
            let (dw, dh) = device_size_model(recorded, reported);
            r == scaled_position(x, y, w, h, dw, dh)
        }),
{
    let (mut dw, mut dh) = match recorded {
        Some(s) => s,
        None => (0u32, 0u32),
    };
    if dw == 0 || dh == 0 {
        dw = reported.0;
        dh = reported.1;
    }
    if w > 0 && h > 0 {
        let sx = x * (dw as i32);
        let sy = y * (dh as i32);
        let nx = match sx.checked_div(w as i32) {
            Some(v) => v,
            None => x,
        };
        let ny = match sy.checked_div(h as i32) {
            Some(v) => v,
            None => y,
        };
        (nx, ny, dw as u16, dh as u16)
    } else {
        (x, y, dw as u16, dh as u16)
    }
}

/// The reverse tunnel of a session: the device's abstract socket for the
/// session id, and the local port of the controller.
pub fn reverse_tunnel(scid: &str, controller_port: u16) -> (r: (String, String))
    ensures
        r.0@ == "localabstract:scrcpy_"@ + scid@,
        r.1@ == "tcp:"@ + dec_nat(controller_port as nat),
{
    (prefixed("localabstract:scrcpy_", scid), prefixed("tcp:", u64_to_string(controller_port as u64).as_str()))
}

/// The server command line carries the session's own values: the session
/// id, the video switch and the display; and, for the main device with
/// video, the codec, the bit rate, and each size or frame-rate limit that is
/// set, each under its own option name with its own value.
pub proof fn law_server_args_carry_settings(version: Seq<char>, scid: Seq<char>, video: bool, display_id: i32, main: bool, o: VideoOptions)
    ensures
        ({
            let args = server_args_model(version, scid, video, display_id, main, o);
            &&& args.contains(version)
            &&& args.contains("scid="@ + scid)
            &&& args.contains("video="@ + (if video { "true"@ } else { "false"@ }))
            &&& args.contains("display_id="@ + dec_int(display_id as int))
            &&& main && video ==> args.contains("video_codec="@ + codec_name(o.codec))
            &&& main && video ==> args.contains("video_bit_rate="@ + dec_nat(o.bit_rate as nat))
            &&& main && video && o.max_size > 0 ==> args.contains("max_size="@ + dec_nat(o.max_size as nat))
            &&& main && video && o.max_fps > 0 ==> args.contains("max_fps="@ + dec_nat(o.max_fps as nat))
        }),
{
    let args = server_args_model(version, scid, video, display_id, main, o);
    assert(args[4] == version);
    assert(args[5] == "scid="@ + scid);
    assert(args[6] == "video="@ + (if video { "true"@ } else { "false"@ }));
    assert(args[7] == "display_id="@ + dec_int(display_id as int));
    if main && video {
        assert(args[9] == "video_codec="@ + codec_name(o.codec));
        assert(args[10] == "video_bit_rate="@ + dec_nat(o.bit_rate as nat));
        if o.max_size > 0 {
            assert(args[11] == "max_size="@ + dec_nat(o.max_size as nat));
            if o.max_fps > 0 {
                assert(args[12] == "max_fps="@ + dec_nat(o.max_fps as nat));
            }
        } else if o.max_fps > 0 {
            assert(args[11] == "max_fps="@ + dec_nat(o.max_fps as nat));
        }
    }
}

} // verus!
