//! The configuration endpoint: which keys it accepts with which values, the
//! change each one asks for, and the error replies for the others.

use vstd::prelude::*;
use crate::scrcpy::media::VideoCodec;
use crate::script::host::lit_eq;
use crate::text::{dec_nat, u64_to_string};
use crate::web::{WebServerError, error_view};

verus! {

/// A JSON value, as far as the endpoint reads it. A number carries what
/// `serde_json` gives for it as `u64` and as `i64`; a number with a fraction
/// has neither.
#[derive(Debug)]
pub enum JsonValue {
    Null,
    Bool(bool),
    Number { as_u64: Option<u64>, as_i64: Option<i64> },
    Str(String),
    Array(Vec<JsonValue>),
    Object,
}

/// A boolean setting that is stored as it comes.
#[derive(Debug, Clone, Copy, PartialEq, Eq, Structural)]
pub enum Flag {
    ClipboardSync,
    VideoLowLatency,
    VideoRealtimePriority,
    VideoQcomLowLatency,
    VideoIntraRefresh,
    ShowDiagnostics,
    HwDecode,
}

/// A video setting that must lie between 1 and `u32::MAX`.
#[derive(Debug, Clone, Copy, PartialEq, Eq, Structural)]
pub enum Limit {
    VideoBitRate,
    VideoMaxSize,
    VideoMaxFps,
}

/// The change that an accepted request asks for.
#[derive(Debug)]
pub enum ConfigUpdate {
    /// Switch the interface language.
    Language(String),
    /// The web port, used after a restart.
    WebPort(u16),
    /// The controller port, used after a restart.
    ControllerPort(u16),
    /// The adb executable; it is stored once it has been checked.
    AdbPath(String),
    /// Keep the mask window above others; the mask answers the request.
    AlwaysOnTop(bool),
    /// Mask height in portrait; the mask window follows when a device is on.
    VerticalMaskHeight(u32),
    /// Mask width in landscape; the mask window follows when a device is on.
    HorizontalMaskWidth(u32),
    /// Mask position in portrait.
    VerticalPosition(i32, i32),
    /// Mask position in landscape.
    HorizontalPosition(i32, i32),
    /// The opacity of mapping labels; the number is taken as a float and
    /// checked to lie in `[0, 1]` by the caller.
    MappingLabelOpacity,
    /// A boolean setting.
    Flag(Flag, bool),
    /// The video codec.
    VideoCodec(VideoCodec),
    /// A bounded video setting.
    Limit(Limit, u32),
    /// The present mode of the mask window.
    PresentMode(String),
    /// Extra encoder options, passed on as they come.
    VideoCodecOptions(String),
}

/// The model of a [`ConfigUpdate`].
pub enum UpdateModel {
    Language(Seq<char>),
    WebPort(u16),
    ControllerPort(u16),
    AdbPath(Seq<char>),
    AlwaysOnTop(bool),
    VerticalMaskHeight(u32),
    HorizontalMaskWidth(u32),
    VerticalPosition(i32, i32),
    HorizontalPosition(i32, i32),
    MappingLabelOpacity,
    Flag(Flag, bool),
    VideoCodec(VideoCodec),
    Limit(Limit, u32),
    PresentMode(Seq<char>),
    VideoCodecOptions(Seq<char>),
}

impl View for ConfigUpdate {
    type V = UpdateModel;

    open spec fn view(&self) -> UpdateModel {
        match self {
            ConfigUpdate::Language(s) => UpdateModel::Language(s@),
            ConfigUpdate::WebPort(p) => UpdateModel::WebPort(*p),
            ConfigUpdate::ControllerPort(p) => UpdateModel::ControllerPort(*p),
            ConfigUpdate::AdbPath(s) => UpdateModel::AdbPath(s@),
            ConfigUpdate::AlwaysOnTop(b) => UpdateModel::AlwaysOnTop(*b),
            ConfigUpdate::VerticalMaskHeight(v) => UpdateModel::VerticalMaskHeight(*v),
            ConfigUpdate::HorizontalMaskWidth(v) => UpdateModel::HorizontalMaskWidth(*v),
            ConfigUpdate::VerticalPosition(x, y) => UpdateModel::VerticalPosition(*x, *y),
            ConfigUpdate::HorizontalPosition(x, y) => UpdateModel::HorizontalPosition(*x, *y),
            ConfigUpdate::MappingLabelOpacity => UpdateModel::MappingLabelOpacity,
            ConfigUpdate::Flag(f, b) => UpdateModel::Flag(*f, *b),
            ConfigUpdate::VideoCodec(c) => UpdateModel::VideoCodec(*c),
            ConfigUpdate::Limit(l, v) => UpdateModel::Limit(*l, *v),
            ConfigUpdate::PresentMode(s) => UpdateModel::PresentMode(s@),
            ConfigUpdate::VideoCodecOptions(s) => UpdateModel::VideoCodecOptions(s@),
        }
    }
}

pub open spec fn as_bool(v: JsonValue) -> Option<bool> {
    match v {
        JsonValue::Bool(b) => Some(b),
        _ => None,
    }
}

pub open spec fn as_u64(v: JsonValue) -> Option<u64> {
    match v {
        JsonValue::Number { as_u64, .. } => as_u64,
        _ => None,
    }
}

pub open spec fn as_i64(v: JsonValue) -> Option<i64> {
    match v {
        JsonValue::Number { as_i64, .. } => as_i64,
        _ => None,
    }
}

pub open spec fn as_str(v: JsonValue) -> Option<Seq<char>> {
    match v {
        JsonValue::Str(s) => Some(s@),
        _ => None,
    }
}

/// `"<label>: <value>"`.
pub open spec fn labelled(label: Seq<char>, value: Seq<char>) -> Seq<char> {
    label + ": "@ + value
}

/// A boolean as it is displayed.
pub open spec fn bool_text(b: bool) -> Seq<char> {
    if b { "true"@ } else { "false"@ }
}

/// The outcome of a request: the change and its reply message, or the status
/// and message of the error reply.
pub type Decision = Result<(UpdateModel, Seq<char>), (u16, Seq<char>)>;

pub open spec fn bad(m: Seq<char>) -> Decision {
    Err((400u16, m))
}

/// The key of a boolean setting, with its success and type-error messages.
pub open spec fn flag_named(key: Seq<char>) -> Option<(Flag, Seq<char>, Seq<char>)> {
    if key == "clipboard_sync"@ {
        Some((Flag::ClipboardSync, "web.config.setClipboardSyncSuccess"@, "web.config.clipboardSyncTypeError"@))
    } else if key == "video_low_latency"@ {
        Some((Flag::VideoLowLatency, "web.config.setVideoLowLatencySuccess"@, "web.config.videoLowLatencyTypeError"@))
    } else if key == "video_realtime_priority"@ {
        Some((Flag::VideoRealtimePriority, "web.config.setVideoRealtimePrioritySuccess"@, "web.config.videoRealtimePriorityTypeError"@))
    } else if key == "video_qcom_low_latency"@ {
        Some((Flag::VideoQcomLowLatency, "web.config.setVideoQcomLowLatencySuccess"@, "web.config.videoQcomLowLatencyTypeError"@))
    } else if key == "video_intra_refresh"@ {
        Some((Flag::VideoIntraRefresh, "web.config.setVideoIntraRefreshSuccess"@, "web.config.videoIntraRefreshTypeError"@))
    } else if key == "show_diagnostics"@ {
        Some((Flag::ShowDiagnostics, "web.config.setShowDiagnosticsSuccess"@, "web.config.showDiagnosticsTypeError"@))
    } else if key == "hw_decode"@ {
        Some((Flag::HwDecode, "web.config.setHwDecodeSuccess"@, "web.config.hwDecodeTypeError"@))
    } else {
        None
    }
}

/// The key of a bounded video setting, with its range, success and
/// type-error messages.
pub open spec fn limit_named(key: Seq<char>) -> Option<(Limit, Seq<char>, Seq<char>, Seq<char>)> {
    if key == "video_bit_rate"@ {
        Some((Limit::VideoBitRate, "Video bit rate must be between 1 and 4294967295"@, "web.config.setVideoBitRateSuccess"@, "web.config.videoBitRateTypeError"@))
    } else if key == "video_max_size"@ {
        Some((Limit::VideoMaxSize, "Video max size must be between 1 and 4294967295"@, "web.config.setVideoMaxSizeSuccess"@, "web.config.videoMaxSizeTypeError"@))
    } else if key == "video_max_fps"@ {
        Some((Limit::VideoMaxFps, "Video max FPS must be between 1 and 4294967295"@, "web.config.setVideoMaxFpsSuccess"@, "web.config.videoMaxFpsTypeError"@))
    } else {
        None
    }
}

/// A port: an integer from 1 to 65535.
pub open spec fn port_model(v: JsonValue, range: Seq<char>, ok: Seq<char>, type_err: Seq<char>) -> Result<(u16, Seq<char>), (u16, Seq<char>)> {
    match as_u64(v) {
        Some(n) => if n < 1 || n > 65535 { Err((400u16, range)) } else { Ok((n as u16, labelled(ok, dec_nat(n as nat)))) },
        None => Err((400u16, type_err)),
    }
}

/// A position: an array of two integers (each taken modulo 2^32).
pub open spec fn position_model(v: JsonValue) -> Option<(i32, i32)> {
    match v {
        JsonValue::Array(a) => if a@.len() == 2 {
            match (as_i64(a@[0]), as_i64(a@[1])) {
                (Some(x), Some(y)) => Some((x as i32, y as i32)),
                _ => None,
            }
        } else {
            None
        },
        _ => None,
    }
}

/// What the endpoint does with `value` for setting `key`.
pub open spec fn update_model(key: Seq<char>, v: JsonValue) -> Decision {
    if key == "language"@ {
        match as_str(v) {
            Some(s) => if s == "zh-CN"@ || s == "en-US"@ || s == "tr-TR"@ {
                Ok((UpdateModel::Language(s), labelled("web.config.setLanguageSuccess"@, s)))
            } else {
                bad(labelled("web.config.invalidLanguage"@, s))
            },
            None => bad("web.config.languageMustBeString"@),
        }
    } else if key == "web_port"@ {
        match port_model(v, "Web port must be between 1 and 65535"@, "web.config.restartToApplyWebPort"@, "web.config.webPortMustBeU16"@) {
            Ok((p, m)) => Ok((UpdateModel::WebPort(p), m)),
            Err(e) => Err(e),
        }
    } else if key == "adb_path"@ {
        match as_str(v) {
            Some(s) => Ok((UpdateModel::AdbPath(s), labelled("web.config.adbPathSetSuccess"@, s))),
            None => bad("web.config.adbPathMustBeString"@),
        }
    } else if key == "controller_port"@ {
        match port_model(v, "Controller port must be between 1 and 65535"@, "web.config.restartToApplyControllerPort"@, "web.config.controllerPortMustBeU16"@) {
            Ok((p, m)) => Ok((UpdateModel::ControllerPort(p), m)),
            Err(e) => Err(e),
        }
    } else if key == "always_on_top"@ {
        match as_bool(v) {
            Some(b) => Ok((UpdateModel::AlwaysOnTop(b), Seq::empty())),
            None => bad("web.config.alwaysOnTopMustBeBool"@),
        }
    } else if key == "vertical_mask_height"@ {
        match as_u64(v) {
            Some(n) => Ok((UpdateModel::VerticalMaskHeight(n as u32), "web.config.setVerticalMaskHeightSuccess"@)),
            None => bad("web.config.verticalMaskHeightMustBeu32"@),
        }
    } else if key == "horizontal_mask_width"@ {
        match as_u64(v) {
            Some(n) => Ok((UpdateModel::HorizontalMaskWidth(n as u32), "web.config.setHorizontalMaskWidthSuccess"@)),
            None => bad("web.config.horizontalMaskWidthMustBeu32"@),
        }
    } else if key == "vertical_position"@ {
        match position_model(v) {
            Some((x, y)) => Ok((UpdateModel::VerticalPosition(x, y), "web.config.setVerticalPositionSuccess"@)),
            None => bad("web.config.verticalPositionTypeError"@),
        }
    } else if key == "horizontal_position"@ {
        match position_model(v) {
            Some((x, y)) => Ok((UpdateModel::HorizontalPosition(x, y), "web.config.setHorizontalPositionSuccess"@)),
            None => bad("web.config.horizontalPositionTypeError"@),
        }
    } else if key == "active_mapping_file"@ {
        bad("web.config.pleaseRequestForOperation"@)
    } else if key == "mapping_label_opacity"@ {
        match v {
            JsonValue::Number { .. } => Ok((UpdateModel::MappingLabelOpacity, "web.config.setMappingLabelOpacitySuccess"@)),
            _ => bad("web.config.mappingLabelOpacityRange"@),
        }
    } else if key == "video_codec"@ {
        match as_str(v) {
            Some(s) => if s == "H264"@ {
                Ok((UpdateModel::VideoCodec(VideoCodec::H264), labelled("web.config.setVideoCodecSuccess"@, s)))
            } else if s == "H265"@ {
                Ok((UpdateModel::VideoCodec(VideoCodec::H265), labelled("web.config.setVideoCodecSuccess"@, s)))
            } else if s == "AV1"@ {
                Ok((UpdateModel::VideoCodec(VideoCodec::AV1), labelled("web.config.setVideoCodecSuccess"@, s)))
            } else {
                bad(labelled("web.config.invalidVideoCodec"@, s))
            },
            None => bad("web.config.videoCodecTypeError"@),
        }
    } else if key == "present_mode"@ {
        match as_str(v) {
            Some(s) => if s == "AutoVsync"@ || s == "AutoNoVsync"@ || s == "Immediate"@ || s == "Mailbox"@ {
                Ok((UpdateModel::PresentMode(s), labelled("web.config.setPresentModeSuccess"@, s)))
            } else {
                bad(labelled("web.config.invalidPresentMode"@, s))
            },
            None => bad("web.config.presentModeTypeError"@),
        }
    } else if key == "video_codec_options"@ {
        match as_str(v) {
            Some(s) => Ok((UpdateModel::VideoCodecOptions(s), labelled("web.config.setVideoCodecOptionsSuccess"@, s))),
            None => bad("web.config.videoCodecOptionsTypeError"@),
        }
    } else {
        match flag_named(key) {
            Some((f, ok, type_err)) => match as_bool(v) {
                Some(b) => Ok((UpdateModel::Flag(f, b), labelled(ok, bool_text(b)))),
                None => bad(type_err),
            },
            None => match limit_named(key) {
                Some((l, range, ok, type_err)) => match as_u64(v) {
                    Some(n) => if n == 0 || n > u32::MAX {
                        bad(range)
                    } else {
                        Ok((UpdateModel::Limit(l, n as u32), labelled(ok, dec_nat(n as nat))))
                    },
                    None => bad(type_err),
                },
                None => bad(labelled("web.config.invalidMappingKey"@, key)),
            },
        }
    }
}

/// An executable decision agrees with its model.
pub open spec fn decision_matches(r: Result<(ConfigUpdate, String), WebServerError>, d: Decision) -> bool {
    match (r, d) {
        (Ok((u, m)), Ok((w, n))) => u@ == w && m@ == n,
        (Err(e), Err(f)) => error_view(e) == f,
        _ => false,
    }
}

fn bad_request(m: &str) -> (r: Result<(ConfigUpdate, String), WebServerError>)
    ensures
        r matches Err(e) && error_view(e) == (400u16, m@),
{
    Err(WebServerError(400, String::from_str(m)))
}

fn labelled_text(label: &str, value: &str) -> (s: String)
    ensures
        s@ == labelled(label@, value@),
{
    let mut s = String::from_str(label);
    s.append(": ");
    s.append(value);
    s
}

fn json_u64(v: &JsonValue) -> (r: Option<u64>)
    ensures
        r == as_u64(*v),
{
    match v {
        JsonValue::Number { as_u64, .. } => *as_u64,
        _ => None,
    }
}

fn json_i64(v: &JsonValue) -> (r: Option<i64>)
    ensures
        r == as_i64(*v),
{
    match v {
        JsonValue::Number { as_i64, .. } => *as_i64,
        _ => None,
    }
}

fn json_str(v: &JsonValue) -> (r: Option<&String>)
    ensures
        r is Some <==> as_str(*v) is Some,
        r matches Some(s) ==> Some(s@) == as_str(*v),
{
    match v {
        JsonValue::Str(s) => Some(s),
        _ => None,
    }
}

fn json_bool(v: &JsonValue) -> (r: Option<bool>)
    ensures
        r == as_bool(*v),
{
    match v {
        JsonValue::Bool(b) => Some(*b),
        _ => None,
    }
}

fn port_value(v: &JsonValue, range: &str, ok: &str, type_err: &str) -> (r: Result<(u16, String), WebServerError>)
    ensures
        match (r, port_model(*v, range@, ok@, type_err@)) {
            (Ok((p, m)), Ok((q, n))) => p == q && m@ == n,
            (Err(e), Err(f)) => error_view(e) == f,
            _ => false,
        },
{
    match json_u64(v) {
        Some(n) => {
            if n < 1 || n > 65535 {
                Err(WebServerError(400, String::from_str(range)))
            } else {
                Ok((n as u16, labelled_text(ok, u64_to_string(n).as_str())))
            }
        },
        None => Err(WebServerError(400, String::from_str(type_err))),
    }
}

fn position_value(v: &JsonValue) -> (r: Option<(i32, i32)>)
    ensures
        r == position_model(*v),
{
    match v {
        JsonValue::Array(a) => {
            if a.len() == 2 {
                match (json_i64(&a[0]), json_i64(&a[1])) {
                    (Some(x), Some(y)) => Some((x as i32, y as i32)),
                    _ => None,
                }
            } else {
                None
            }
        },
        _ => None,
    }
}

/// The key of a boolean setting, with its messages.
fn flag_of(key: &String) -> (r: Option<(Flag, &'static str, &'static str)>)
    ensures
        match (r, flag_named(key@)) {
            (Some((f, ok, te)), Some((g, ok2, te2))) => f == g && ok@ == ok2 && te@ == te2,
            (None, None) => true,
            _ => false,
        },
{
    if lit_eq(key, "clipboard_sync") {
        Some((Flag::ClipboardSync, "web.config.setClipboardSyncSuccess", "web.config.clipboardSyncTypeError"))
    } else if lit_eq(key, "video_low_latency") {
        Some((Flag::VideoLowLatency, "web.config.setVideoLowLatencySuccess", "web.config.videoLowLatencyTypeError"))
    } else if lit_eq(key, "video_realtime_priority") {
        Some((Flag::VideoRealtimePriority, "web.config.setVideoRealtimePrioritySuccess", "web.config.videoRealtimePriorityTypeError"))
    } else if lit_eq(key, "video_qcom_low_latency") {
        Some((Flag::VideoQcomLowLatency, "web.config.setVideoQcomLowLatencySuccess", "web.config.videoQcomLowLatencyTypeError"))
    } else if lit_eq(key, "video_intra_refresh") {
        Some((Flag::VideoIntraRefresh, "web.config.setVideoIntraRefreshSuccess", "web.config.videoIntraRefreshTypeError"))
    } else if lit_eq(key, "show_diagnostics") {
        Some((Flag::ShowDiagnostics, "web.config.setShowDiagnosticsSuccess", "web.config.showDiagnosticsTypeError"))
    } else if lit_eq(key, "hw_decode") {
        Some((Flag::HwDecode, "web.config.setHwDecodeSuccess", "web.config.hwDecodeTypeError"))
    } else {
        None
    }
}

/// The key of a bounded video setting, with its messages.
fn limit_of(key: &String) -> (r: Option<(Limit, &'static str, &'static str, &'static str)>)
    ensures
        match (r, limit_named(key@)) {
            (Some((l, a, b, c)), Some((m, a2, b2, c2))) => l == m && a@ == a2 && b@ == b2 && c@ == c2,
            (None, None) => true,
            _ => false,
        },
{
    if lit_eq(key, "video_bit_rate") {
        Some((Limit::VideoBitRate, "Video bit rate must be between 1 and 4294967295", "web.config.setVideoBitRateSuccess", "web.config.videoBitRateTypeError"))
    } else if lit_eq(key, "video_max_size") {
        Some((Limit::VideoMaxSize, "Video max size must be between 1 and 4294967295", "web.config.setVideoMaxSizeSuccess", "web.config.videoMaxSizeTypeError"))
    } else if lit_eq(key, "video_max_fps") {
        Some((Limit::VideoMaxFps, "Video max FPS must be between 1 and 4294967295", "web.config.setVideoMaxFpsSuccess", "web.config.videoMaxFpsTypeError"))
    } else {
        None
    }
}

/// The settings stored as they come, those with a range, and the unknown keys.
fn update_other(key: &String, value: &JsonValue) -> (r: Result<(ConfigUpdate, String), WebServerError>)
    requires
        !(key@ == "language"@ || key@ == "web_port"@ || key@ == "adb_path"@ || key@ == "controller_port"@
            || key@ == "always_on_top"@ || key@ == "vertical_mask_height"@ || key@ == "horizontal_mask_width"@
            || key@ == "vertical_position"@ || key@ == "horizontal_position"@ || key@ == "active_mapping_file"@
            || key@ == "mapping_label_opacity"@ || key@ == "video_codec"@ || key@ == "present_mode"@
            || key@ == "video_codec_options"@),
    ensures
        decision_matches(r, update_model(key@, *value)),
{
    match flag_of(key) {
        Some((f, ok, type_err)) => match json_bool(value) {
            Some(b) => Ok((ConfigUpdate::Flag(f, b), labelled_text(ok, if b { "true" } else { "false" }))),
            None => bad_request(type_err),
        },
        None => match limit_of(key) {
            Some((l, range, ok, type_err)) => match json_u64(value) {
                Some(n) => {
                    if n == 0 || n > 4294967295 {
                        bad_request(range)
                    } else {
                        Ok((ConfigUpdate::Limit(l, n as u32), labelled_text(ok, u64_to_string(n).as_str())))
                    }
                },
                None => bad_request(type_err),
            },
            None => Err(WebServerError(400, labelled_text("web.config.invalidMappingKey", key.as_str()))),
        },
    }
}

/// The settings from `active_mapping_file` on.
fn update_later(key: &String, value: &JsonValue) -> (r: Result<(ConfigUpdate, String), WebServerError>)
    requires
        !(key@ == "language"@ || key@ == "web_port"@ || key@ == "adb_path"@ || key@ == "controller_port"@
            || key@ == "always_on_top"@ || key@ == "vertical_mask_height"@ || key@ == "horizontal_mask_width"@
            || key@ == "vertical_position"@ || key@ == "horizontal_position"@),
    ensures
        decision_matches(r, update_model(key@, *value)),
{
    if lit_eq(key, "active_mapping_file") {
        bad_request("web.config.pleaseRequestForOperation")
    } else if lit_eq(key, "mapping_label_opacity") {
        match value {
            JsonValue::Number { .. } => Ok((ConfigUpdate::MappingLabelOpacity, String::from_str("web.config.setMappingLabelOpacitySuccess"))),
            _ => bad_request("web.config.mappingLabelOpacityRange"),
        }
    } else if lit_eq(key, "video_codec") {
        let s = match json_str(value) {
            Some(s) => s,
            None => return bad_request("web.config.videoCodecTypeError"),
        };
        let c = if lit_eq(s, "H264") {
            VideoCodec::H264
        } else if lit_eq(s, "H265") {
            VideoCodec::H265
        } else if lit_eq(s, "AV1") {
            VideoCodec::AV1
        } else {
            return Err(WebServerError(400, labelled_text("web.config.invalidVideoCodec", s.as_str())));
        };
        Ok((ConfigUpdate::VideoCodec(c), labelled_text("web.config.setVideoCodecSuccess", s.as_str())))
    } else if lit_eq(key, "present_mode") {
        let s = match json_str(value) {
            Some(s) => s,
            None => return bad_request("web.config.presentModeTypeError"),
        };
        if lit_eq(s, "AutoVsync") || lit_eq(s, "AutoNoVsync") || lit_eq(s, "Immediate") || lit_eq(s, "Mailbox") {
            Ok((ConfigUpdate::PresentMode(s.clone()), labelled_text("web.config.setPresentModeSuccess", s.as_str())))
        } else {
            Err(WebServerError(400, labelled_text("web.config.invalidPresentMode", s.as_str())))
        }
    } else if lit_eq(key, "video_codec_options") {
        match json_str(value) {
            Some(s) => Ok((ConfigUpdate::VideoCodecOptions(s.clone()), labelled_text("web.config.setVideoCodecOptionsSuccess", s.as_str()))),
            None => bad_request("web.config.videoCodecOptionsTypeError"),
        }
    } else {
        update_other(key, value)
    }
}

/// Decides what a request to set `key` to `value` does: the change to make
/// with its reply message, or the error reply. For `always_on_top` the reply
/// comes from the mask, and for the mask size and position settings the
/// caller adds the mask's answer when a device is connected.
pub fn update_config(key: &String, value: &JsonValue) -> (r: Result<(ConfigUpdate, String), WebServerError>)
    ensures
        decision_matches(r, update_model(key@, *value)),
{
    if lit_eq(key, "language") {
        let s = match json_str(value) {
            Some(s) => s,
            None => return bad_request("web.config.languageMustBeString"),
        };
        if lit_eq(s, "zh-CN") || lit_eq(s, "en-US") || lit_eq(s, "tr-TR") {
            Ok((ConfigUpdate::Language(s.clone()), labelled_text("web.config.setLanguageSuccess", s.as_str())))
        } else {
            Err(WebServerError(400, labelled_text("web.config.invalidLanguage", s.as_str())))
        }
    } else if lit_eq(key, "web_port") {
        match port_value(value, "Web port must be between 1 and 65535", "web.config.restartToApplyWebPort", "web.config.webPortMustBeU16") {
            Ok((p, m)) => Ok((ConfigUpdate::WebPort(p), m)),
            Err(e) => Err(e),
        }
    } else if lit_eq(key, "adb_path") {
        match json_str(value) {
            Some(s) => Ok((ConfigUpdate::AdbPath(s.clone()), labelled_text("web.config.adbPathSetSuccess", s.as_str()))),
            None => bad_request("web.config.adbPathMustBeString"),
        }
    } else if lit_eq(key, "controller_port") {
        match port_value(value, "Controller port must be between 1 and 65535", "web.config.restartToApplyControllerPort", "web.config.controllerPortMustBeU16") {
            Ok((p, m)) => Ok((ConfigUpdate::ControllerPort(p), m)),
            Err(e) => Err(e),
        }
    } else if lit_eq(key, "always_on_top") {
        match json_bool(value) {
            Some(b) => Ok((ConfigUpdate::AlwaysOnTop(b), String::new())),
            None => bad_request("web.config.alwaysOnTopMustBeBool"),
        }
    } else if lit_eq(key, "vertical_mask_height") {
        match json_u64(value) {
            Some(n) => Ok((ConfigUpdate::VerticalMaskHeight(n as u32), String::from_str("web.config.setVerticalMaskHeightSuccess"))),
            None => bad_request("web.config.verticalMaskHeightMustBeu32"),
        }
    } else if lit_eq(key, "horizontal_mask_width") {
        match json_u64(value) {
            Some(n) => Ok((ConfigUpdate::HorizontalMaskWidth(n as u32), String::from_str("web.config.setHorizontalMaskWidthSuccess"))),
            None => bad_request("web.config.horizontalMaskWidthMustBeu32"),
        }
    } else if lit_eq(key, "vertical_position") {
        match position_value(value) {
            Some((x, y)) => Ok((ConfigUpdate::VerticalPosition(x, y), String::from_str("web.config.setVerticalPositionSuccess"))),
            None => bad_request("web.config.verticalPositionTypeError"),
        }
    } else if lit_eq(key, "horizontal_position") {
        match position_value(value) {
            Some((x, y)) => Ok((ConfigUpdate::HorizontalPosition(x, y), String::from_str("web.config.setHorizontalPositionSuccess"))),
            None => bad_request("web.config.horizontalPositionTypeError"),
        }
    } else {
        update_later(key, value)
    }
}

/// The reply to a change of mask size or position, given the mask's answer
/// when a device is connected: `"<message>. <answer>"`, or the message alone.
/// A landscape position with no device connected is answered with its type
/// error, although the position was stored.
pub fn mask_reply(update: &ConfigUpdate, message: &String, answer: Option<&String>) -> (r: Result<String, WebServerError>)
    ensures
        match answer {
            Some(a) => r matches Ok(s) && s@ == message@ + ". "@ + a@,
            None => match *update {
                ConfigUpdate::HorizontalPosition(_, _) => r matches Err(e) && error_view(e) == (400u16, "web.config.horizontalPositionTypeError"@),
                _ => r matches Ok(s) && s@ == message@,
            },
        },
{
    match answer {
        Some(a) => {
            let mut s = message.clone();
            s.append(". ");
            s.append(a.as_str());
            Ok(s)
        },
        None => match update {
            ConfigUpdate::HorizontalPosition(_, _) => Err(WebServerError(400, String::from_str("web.config.horizontalPositionTypeError"))),
            _ => Ok(message.clone()),
        },
    }
}

/// The configuration key of a boolean setting.
pub open spec fn flag_has_key(f: Flag, key: Seq<char>) -> bool {
    match f {
        Flag::ClipboardSync => key == "clipboard_sync"@,
        Flag::VideoLowLatency => key == "video_low_latency"@,
        Flag::VideoRealtimePriority => key == "video_realtime_priority"@,
        Flag::VideoQcomLowLatency => key == "video_qcom_low_latency"@,
        Flag::VideoIntraRefresh => key == "video_intra_refresh"@,
        Flag::ShowDiagnostics => key == "show_diagnostics"@,
        Flag::HwDecode => key == "hw_decode"@,
    }
}

/// The configuration key of a bounded video setting.
pub open spec fn limit_has_key(l: Limit, key: Seq<char>) -> bool {
    match l {
        Limit::VideoBitRate => key == "video_bit_rate"@,
        Limit::VideoMaxSize => key == "video_max_size"@,
        Limit::VideoMaxFps => key == "video_max_fps"@,
    }
}

/// Which setting a change sets, from which key and to which value sent:
/// each change is asked for by the key of its own setting and carries the
/// value that was sent (a port or a size as the number sent, a position as
/// the two numbers sent, a text as the text sent).
pub open spec fn change_matches_request(u: UpdateModel, key: Seq<char>, v: JsonValue) -> bool {
    match u {
        UpdateModel::Language(s) => key == "language"@ && as_str(v) == Some(s),
        UpdateModel::WebPort(p) => key == "web_port"@ && as_u64(v) == Some(p as u64),
        UpdateModel::ControllerPort(p) => key == "controller_port"@ && as_u64(v) == Some(p as u64),
        UpdateModel::AdbPath(s) => key == "adb_path"@ && as_str(v) == Some(s),
        UpdateModel::AlwaysOnTop(b) => key == "always_on_top"@ && as_bool(v) == Some(b),
        UpdateModel::VerticalMaskHeight(n) => key == "vertical_mask_height"@ && (as_u64(v) matches Some(m) && n == m as u32),
        UpdateModel::HorizontalMaskWidth(n) => key == "horizontal_mask_width"@ && (as_u64(v) matches Some(m) && n == m as u32),
        UpdateModel::VerticalPosition(x, y) => key == "vertical_position"@ && position_model(v) == Some((x, y)),
        UpdateModel::HorizontalPosition(x, y) => key == "horizontal_position"@ && position_model(v) == Some((x, y)),
        UpdateModel::MappingLabelOpacity => key == "mapping_label_opacity"@ && v is Number,
        UpdateModel::Flag(f, b) => flag_has_key(f, key) && as_bool(v) == Some(b),
        UpdateModel::VideoCodec(c) => key == "video_codec"@ && (as_str(v) matches Some(s) && codec_spelled(c, s)),
        UpdateModel::Limit(l, n) => limit_has_key(l, key) && as_u64(v) == Some(n as u64),
        UpdateModel::PresentMode(s) => key == "present_mode"@ && as_str(v) == Some(s),
        UpdateModel::VideoCodecOptions(s) => key == "video_codec_options"@ && as_str(v) == Some(s),
    }
}

/// How a codec is named in a request.
pub open spec fn codec_spelled(c: VideoCodec, s: Seq<char>) -> bool {
    match c {
        VideoCodec::H264 => s == "H264"@,
        VideoCodec::H265 => s == "H265"@,
        VideoCodec::AV1 => s == "AV1"@,
    }
}

/// Every accepted request changes the setting that its key names, to the
/// value that was sent; so two different keys never change the same
/// setting (a boolean setting, a limit, a port, a position or a text).
pub proof fn law_setting_keys(key: Seq<char>, v: JsonValue)
    ensures
        update_model(key, v) matches Ok((u, _)) ==> change_matches_request(u, key, v),
{
}

} // verus!
