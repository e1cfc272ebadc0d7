use scrcpy_mask::config::{StoredVideoSettings, migrate, system_language};
use scrcpy_mask::mask::{
    PendingResize, PresentChoice, ResizeState, WindowStep, advance_resize, connection_change, eval_script_command, level_changed_message,
    plan_win_move, present_mode_of,
};
use scrcpy_mask::scrcpy::media::VideoCodec;
use scrcpy_mask::video::{StreamStatus, VideoEvent, apply_event, frame_to_show, needs_new_image, show_status, status_option_labels};

#[test]
fn hidden_window_is_placed_at_once() {
    let (step, pending) = plan_win_move(false, 10, 20, 110, 220);
    assert_eq!(step, WindowStep::Place { left: 10, top: 20, width: 100, height: 200 });
    assert_eq!(pending, None);
}

#[test]
fn visible_window_is_resized_over_two_frames() {
    let (step, pending) = plan_win_move(true, 10, 20, 110, 220);
    assert_eq!(step, WindowStep::Hide);
    let p = pending.unwrap();
    assert_eq!(p, PendingResize { left: 10, top: 20, right: 110, bottom: 220, state: ResizeState::Resizing });
    let (s1, p1) = advance_resize(&p);
    assert_eq!(s1, WindowStep::Place { left: 10, top: 20, width: 100, height: 200 });
    let p1 = p1.unwrap();
    assert_eq!(p1.state, ResizeState::Showing);
    let (s2, p2) = advance_resize(&p1);
    assert_eq!(s2, WindowStep::ShowAndAnswer);
    assert_eq!(p2, None);
}

#[test]
fn connection_changes() {
    assert_eq!(connection_change(true), (true, "mask.mainDeviceConnected".to_string()));
    assert_eq!(connection_change(false), (false, "mask.mainDeviceDisconnected".to_string()));
}

#[test]
fn eval_script_needs_a_parse_and_a_mapping() {
    let ok = "let a = 1;".to_string();
    let ast = eval_script_command(&ok, true).unwrap();
    assert_eq!(ast.script, ok);
    assert!(!ast.empty);
    assert_eq!(ast.program.stmts.len(), 1);
    assert_eq!(eval_script_command(&ok, false).unwrap_err(), "mask.evalScriptnoMappingError");
    let bad = "let = ;".to_string();
    let e = eval_script_command(&bad, true).unwrap_err();
    assert!(e.starts_with("mask.mapping.parseScriptFailed\n: line 1, column 5: expected a variable name"));
    assert_eq!(eval_script_command(&bad, false).unwrap_err(), e);
}

fn settings(codec: VideoCodec, size: u32, fps: u32, rate: u32, qcom: bool, version: u32) -> StoredVideoSettings {
    StoredVideoSettings {
        video_codec: codec,
        video_max_size: size,
        video_max_fps: fps,
        video_bit_rate: rate,
        video_qcom_low_latency: qcom,
        config_version: version,
    }
}

#[test]
fn old_configuration_is_upgraded_once() {
    let mut c = settings(VideoCodec::H264, 0, 0, 8_000_000, true, 0);
    assert!(migrate(&mut c));
    assert_eq!(c, settings(VideoCodec::H265, 1920, 60, 16_000_000, false, 2));
    assert!(!migrate(&mut c));
    assert_eq!(c, settings(VideoCodec::H265, 1920, 60, 16_000_000, false, 2));
    let mut d = settings(VideoCodec::AV1, 1280, 30, 4_000_000, true, 2);
    assert!(!migrate(&mut d));
    assert_eq!(d, settings(VideoCodec::AV1, 1280, 30, 4_000_000, true, 2));
    let mut e = settings(VideoCodec::AV1, 1280, 30, 4_000_000, true, 1);
    assert!(migrate(&mut e));
    assert_eq!(e, settings(VideoCodec::AV1, 1280, 30, 4_000_000, false, 2));
}

#[test]
fn language_from_locale() {
    assert_eq!(system_language(Some("zh_CN.UTF-8")), "zh-CN");
    assert_eq!(system_language(Some("tr_TR.UTF-8")), "tr-TR");
    assert_eq!(system_language(Some("de_DE.UTF-8")), "en-US");
    assert_eq!(system_language(Some("z")), "en-US");
    assert_eq!(system_language(None), "en-US");
}

#[test]
fn status_follows_events() {
    let mut s = StreamStatus { codec: None, hw_decode_active: false, width: 0, height: 0, last_script_error: None };
    apply_event(&mut s, VideoEvent::StreamInfo { codec: "h265".to_string(), hw_active: true, width: 1080, height: 2400 });
    assert_eq!(s.codec.as_deref(), Some("h265"));
    assert!(s.hw_decode_active);
    assert_eq!((s.width, s.height), (1080, 2400));
    apply_event(&mut s, VideoEvent::ScriptError { error: "oops".to_string() });
    assert_eq!(s.last_script_error.as_deref(), Some("oops"));
    assert!(show_status(false, &s));
    apply_event(&mut s, VideoEvent::Close);
    assert_eq!(s.codec, None);
    assert!(!s.hw_decode_active);
    assert_eq!((s.width, s.height), (0, 0));
    assert_eq!(s.last_script_error.as_deref(), Some("oops"));
    apply_event(&mut s, VideoEvent::ScriptClearError);
    assert_eq!(s.last_script_error, None);
    assert!(!show_status(false, &s));
    assert!(show_status(true, &s));
}

#[test]
fn last_frame_of_a_batch_is_shown() {
    let events = vec![
        VideoEvent::Frame { width: 1, height: 1 },
        VideoEvent::ScriptClearError,
        VideoEvent::Frame { width: 2, height: 2 },
        VideoEvent::Close,
    ];
    assert_eq!(frame_to_show(&events), Some(2));
    assert_eq!(frame_to_show(&vec![VideoEvent::Close]), None);
    assert_eq!(frame_to_show(&Vec::new()), None);
}

#[test]
fn image_is_remade_on_size_change() {
    assert!(needs_new_image(false, 10, 10, 10, 10));
    assert!(needs_new_image(true, 10, 10, 10, 11));
    assert!(!needs_new_image(true, 10, 10, 10, 10));
}

#[test]
fn option_labels_in_order() {
    assert_eq!(status_option_labels(true, false, true, true, false), vec!["latency=0", "qcom-ll", "intra-refresh"]);
    assert_eq!(status_option_labels(false, false, false, false, false), Vec::<String>::new());
    assert_eq!(status_option_labels(true, true, true, true, true), vec!["latency=0", "priority=0", "qcom-ll", "intra-refresh", "custom"]);
}

#[test]
fn present_modes_and_levels() {
    assert_eq!(present_mode_of(&"Mailbox".to_string()), PresentChoice::Mailbox);
    assert_eq!(present_mode_of(&"Immediate".to_string()), PresentChoice::Immediate);
    assert_eq!(present_mode_of(&"AutoNoVsync".to_string()), PresentChoice::AutoNoVsync);
    assert_eq!(present_mode_of(&"AutoVsync".to_string()), PresentChoice::AutoVsync);
    assert_eq!(present_mode_of(&"mailbox".to_string()), PresentChoice::AutoVsync);
    assert_eq!(level_changed_message(true), "[Mask] mask.windowLevelChanged: true");
    assert_eq!(level_changed_message(false), "[Mask] mask.windowLevelChanged: false");
}
