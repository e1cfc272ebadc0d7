use scrcpy_mask::scrcpy::media::VideoCodec;
use scrcpy_mask::web::config::{ConfigUpdate, Flag, JsonValue, Limit, mask_reply, update_config};
use scrcpy_mask::web::device::{check_not_controlled, decontrol_plan, display_id_from_dumpsys, eval_script_reply, pick_server_version};
use scrcpy_mask::web::ws::{MAX_TEXT_MESSAGE, ScrcpyDevice, Shutdown, accepts_text_message, shutdowns_on_close};
use scrcpy_mask::web::{WebServerError, find_query_token, inject_api_key, is_authorized};

fn num(n: u64) -> JsonValue {
    JsonValue::Number { as_u64: Some(n), as_i64: i64::try_from(n).ok() }
}

fn sint(n: i64) -> JsonValue {
    JsonValue::Number { as_u64: u64::try_from(n).ok(), as_i64: Some(n) }
}

fn text(s: &str) -> JsonValue {
    JsonValue::Str(s.to_string())
}

fn err_of(r: Result<(ConfigUpdate, String), WebServerError>) -> (u16, String) {
    match r {
        Err(e) => (e.0, e.1),
        Ok((u, m)) => panic!("expected an error, got {:?} {}", u, m),
    }
}

#[test]
fn query_token_is_the_first_token_pair() {
    assert_eq!(find_query_token("a=1&token=abc&b=2"), Some("abc".to_string()));
    assert_eq!(find_query_token("token=x&token=y"), Some("x".to_string()));
    assert_eq!(find_query_token("token="), Some(String::new()));
    assert_eq!(find_query_token("tokens=1"), None);
    assert_eq!(find_query_token("a&b"), None);
    assert_eq!(find_query_token(""), None);
}

#[test]
fn header_key_comes_before_query_token() {
    assert!(is_authorized(Some("k"), None, "k"));
    assert!(!is_authorized(Some("bad"), Some("token=k"), "k"));
    assert!(is_authorized(None, Some("x=1&token=k"), "k"));
    assert!(!is_authorized(None, Some("x=1"), "k"));
    assert!(!is_authorized(None, None, "k"));
}

#[test]
fn api_key_is_injected_before_head_end() {
    assert_eq!(
        inject_api_key("<html><head></head><body></body></html>", "K1"),
        "<html><head><script>window.API_KEY = \"K1\";</script></head><body></body></html>"
    );
    assert_eq!(inject_api_key("<p>no head</p>", "K1"), "<p>no head</p>");
}

#[test]
fn error_replies_have_their_status() {
    let e = WebServerError::internal_error("boom".to_string());
    assert_eq!((e.0, e.1.as_str()), (500, "boom"));
    let e = WebServerError::bad_request("bad".to_string());
    assert_eq!((e.0, e.1.as_str()), (400, "bad"));
}

#[test]
fn display_id_is_second_word_of_first_line() {
    let out = b"Display 4619827259835644672 (HWC display 0): port=0 pnpId=GGL\nDisplay 2 other\n";
    assert_eq!(display_id_from_dumpsys(out).unwrap(), "4619827259835644672");
    let e = display_id_from_dumpsys(b"").unwrap_err();
    assert_eq!((e.0, e.1.as_str()), (400, "no display found"));
    assert_eq!(display_id_from_dumpsys(b"Display \xff7 x\n").unwrap(), "\u{fffd}7");
    let e = display_id_from_dumpsys(b"Display\nDisplay 3\n").unwrap_err();
    assert_eq!((e.0, e.1.as_str()), (400, "invalid display line"));
}

#[test]
fn newest_server_is_picked() {
    let names: Vec<String> = vec![
        "scrcpy-mask-server-v3.3".to_string(),
        "scrcpy-mask-server-v3.10.1".to_string(),
        "readme.txt".to_string(),
        "scrcpy-mask-server-vbad".to_string(),
    ];
    assert_eq!(pick_server_version(&names), "3.10.1");
    let names: Vec<String> = vec!["scrcpy-mask-server-v4.1".to_string(), "scrcpy-mask-server-v4.0.9".to_string()];
    assert_eq!(pick_server_version(&names), "4.1");
    assert_eq!(pick_server_version(&Vec::new()), "4.0");
}

#[test]
fn text_messages_up_to_one_mebibyte_are_read() {
    assert!(accepts_text_message(0));
    assert!(accepts_text_message(MAX_TEXT_MESSAGE));
    assert!(!accepts_text_message(MAX_TEXT_MESSAGE + 1));
}

#[test]
fn language_setting() {
    match update_config(&"language".to_string(), &text("tr-TR")) {
        Ok((ConfigUpdate::Language(l), m)) => {
            assert_eq!(l, "tr-TR");
            assert_eq!(m, "web.config.setLanguageSuccess: tr-TR");
        },
        other => panic!("{:?}", other),
    }
    assert_eq!(err_of(update_config(&"language".to_string(), &text("fr-FR"))), (400, "web.config.invalidLanguage: fr-FR".to_string()));
    assert_eq!(err_of(update_config(&"language".to_string(), &num(1))), (400, "web.config.languageMustBeString".to_string()));
}

#[test]
fn port_settings() {
    match update_config(&"web_port".to_string(), &num(27799)) {
        Ok((ConfigUpdate::WebPort(p), m)) => {
            assert_eq!(p, 27799);
            assert_eq!(m, "web.config.restartToApplyWebPort: 27799");
        },
        other => panic!("{:?}", other),
    }
    assert_eq!(err_of(update_config(&"web_port".to_string(), &num(0))), (400, "Web port must be between 1 and 65535".to_string()));
    assert_eq!(err_of(update_config(&"controller_port".to_string(), &num(70000))), (400, "Controller port must be between 1 and 65535".to_string()));
    assert_eq!(err_of(update_config(&"controller_port".to_string(), &text("1"))), (400, "web.config.controllerPortMustBeU16".to_string()));
}

#[test]
fn positions_and_flags() {
    let pos = JsonValue::Array(vec![sint(-5), sint(10)]);
    match update_config(&"vertical_position".to_string(), &pos) {
        Ok((ConfigUpdate::VerticalPosition(x, y), m)) => {
            assert_eq!((x, y), (-5, 10));
            assert_eq!(m, "web.config.setVerticalPositionSuccess");
        },
        other => panic!("{:?}", other),
    }
    let short = JsonValue::Array(vec![sint(1)]);
    assert_eq!(err_of(update_config(&"horizontal_position".to_string(), &short)), (400, "web.config.horizontalPositionTypeError".to_string()));
    match update_config(&"hw_decode".to_string(), &JsonValue::Bool(true)) {
        Ok((ConfigUpdate::Flag(Flag::HwDecode, true), m)) => assert_eq!(m, "web.config.setHwDecodeSuccess: true"),
        other => panic!("{:?}", other),
    }
    assert_eq!(err_of(update_config(&"clipboard_sync".to_string(), &num(1))), (400, "web.config.clipboardSyncTypeError".to_string()));
}

#[test]
fn video_settings() {
    match update_config(&"video_codec".to_string(), &text("AV1")) {
        Ok((ConfigUpdate::VideoCodec(VideoCodec::AV1), m)) => assert_eq!(m, "web.config.setVideoCodecSuccess: AV1"),
        other => panic!("{:?}", other),
    }
    assert_eq!(err_of(update_config(&"video_codec".to_string(), &text("VP9"))), (400, "web.config.invalidVideoCodec: VP9".to_string()));
    match update_config(&"video_max_fps".to_string(), &num(120)) {
        Ok((ConfigUpdate::Limit(Limit::VideoMaxFps, 120), m)) => assert_eq!(m, "web.config.setVideoMaxFpsSuccess: 120"),
        other => panic!("{:?}", other),
    }
    assert_eq!(err_of(update_config(&"video_bit_rate".to_string(), &num(0))), (400, "Video bit rate must be between 1 and 4294967295".to_string()));
    assert_eq!(err_of(update_config(&"video_max_size".to_string(), &num(1 << 32))), (400, "Video max size must be between 1 and 4294967295".to_string()));
}

#[test]
fn refused_keys() {
    assert_eq!(err_of(update_config(&"active_mapping_file".to_string(), &text("a.json"))), (400, "web.config.pleaseRequestForOperation".to_string()));
    assert_eq!(err_of(update_config(&"no_such_key".to_string(), &num(1))), (400, "web.config.invalidMappingKey: no_such_key".to_string()));
    assert_eq!(err_of(update_config(&"always_on_top".to_string(), &JsonValue::Null)), (400, "web.config.alwaysOnTopMustBeBool".to_string()));
}

#[test]
fn mask_replies() {
    let msg = "web.config.setVerticalMaskHeightSuccess".to_string();
    let answer = "resized".to_string();
    assert_eq!(mask_reply(&ConfigUpdate::VerticalMaskHeight(720), &msg, Some(&answer)).unwrap(), "web.config.setVerticalMaskHeightSuccess. resized");
    assert_eq!(mask_reply(&ConfigUpdate::VerticalMaskHeight(720), &msg, None).unwrap(), msg);
    let e = mask_reply(&ConfigUpdate::HorizontalPosition(1, 2), &msg, None).unwrap_err();
    assert_eq!((e.0, e.1.as_str()), (400, "web.config.horizontalPositionTypeError"));
}

fn device(id: &str, scid: &str, main: bool) -> ScrcpyDevice {
    ScrcpyDevice {
        device_id: id.to_string(),
        device_name: "phone".to_string(),
        scid: scid.to_string(),
        main,
        device_size: (1080, 2400),
        socket_ids: Vec::new(),
    }
}

#[test]
fn decontrol_ends_the_first_matching_session() {
    let devices = vec![device("a", "11", true), device("b", "22", false), device("b", "33", true)];
    let (s, m) = decontrol_plan(&devices, "b").unwrap();
    assert_eq!(s, Shutdown::Sub("22".to_string()));
    assert_eq!(m, "web.device.decontrolDevice: b");
    let (s, _) = decontrol_plan(&devices, "a").unwrap();
    assert_eq!(s, Shutdown::Main("11".to_string()));
    let e = decontrol_plan(&devices, "zz").unwrap_err();
    assert_eq!((e.0, e.1.as_str()), (400, "web.device.deviceNotFound: zz"));
    let e = decontrol_plan(&Vec::new(), "a").unwrap_err();
    assert_eq!(e.0, 400);
}

#[test]
fn closing_the_page_ends_every_session() {
    let devices = vec![device("a", "11", true), device("b", "22", false)];
    assert_eq!(shutdowns_on_close(&devices), vec![Shutdown::Main("11".to_string()), Shutdown::Sub("22".to_string())]);
    assert_eq!(shutdowns_on_close(&Vec::new()), Vec::<Shutdown>::new());
}

#[test]
fn a_device_is_controlled_once() {
    let devices = vec![device("a", "11", true)];
    let e = check_not_controlled(&devices, "a").unwrap_err();
    assert_eq!((e.0, e.1.as_str()), (400, "web.device.alreadyControlled: a"));
    assert!(check_not_controlled(&devices, "b").is_ok());
    assert!(check_not_controlled(&Vec::new(), "a").is_ok());
}

#[test]
fn eval_script_replies() {
    let e = eval_script_reply(false, Ok(())).unwrap_err();
    assert_eq!((e.0, e.1.as_str()), (400, "web.device.noDeviceControlled"));
    assert_eq!(eval_script_reply(true, Ok(())).unwrap(), "web.device.evalScriptSuccess");
    let e = eval_script_reply(true, Err("boom".to_string())).unwrap_err();
    assert_eq!((e.0, e.1.as_str()), (400, "web.device.evalScriptError:\nboom"));
}
