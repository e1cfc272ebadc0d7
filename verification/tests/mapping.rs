use scrcpy_mask::mapping::{
    BindMappingAutoRepeat, BindMappingScript, MappingAutoRepeat, MappingScript, ScriptRun, auto_repeat_press, script_run,
    uses_held_timer,
};
use scrcpy_mask::script::host::{PrintDecision, ScriptAction, ScriptHost, is_repeating, print_rate_step};
use scrcpy_mask::utils::{gen_scid, generate_api_key, is_plain_name, is_safe_file_name, to_hex, update_check};

fn keys() -> Vec<String> {
    vec!["KEYCODE_A".to_string(), "KEYCODE_B".to_string()]
}

fn auto(target: &str, interval: u32) -> MappingAutoRepeat<(i32, i32), u8> {
    MappingAutoRepeat { position: (1, 2), note: "n".to_string(), target_key: target.to_string(), interval, bind: 7 }
}

#[test]
fn auto_repeat_validation() {
    assert_eq!(auto("KEYCODE_A", 100).validate(&keys()), Ok(()));
    assert_eq!(auto("", 100).validate(&keys()), Err("Target key cannot be empty".to_string()));
    assert_eq!(auto("KEYCODE_A", 0).validate(&keys()), Err("Interval must be a positive integer".to_string()));
    assert_eq!(auto("KEYCODE_Z", 5).validate(&keys()), Err("Invalid target key name 'KEYCODE_Z'".to_string()));
    assert_eq!(auto("KEYCODE_\\u0042", 5).validate(&keys()), Ok(()));
    assert_eq!(auto("KEYCODE_\"A", 5).validate(&keys()), Err("Invalid target key name 'KEYCODE_\"A'".to_string()));
}

#[test]
fn auto_repeat_binding_keeps_fields() {
    let b = BindMappingAutoRepeat::from_mapping(auto("KEYCODE_B", 30));
    assert_eq!(b.position, (1, 2));
    assert_eq!(b.note, "n");
    assert_eq!(b.target_key, "KEYCODE_B");
    assert_eq!(b.interval, 30);
    assert_eq!(b.bind, 7);
}

#[test]
fn auto_repeat_press_toggles_the_repeat() {
    let mut host = ScriptHost::new(keys(), Vec::new());
    let target = "KEYCODE_A".to_string();
    auto_repeat_press(&mut host, &target, 50);
    assert!(is_repeating(&host, &target));
    auto_repeat_press(&mut host, &target, 50);
    assert!(!is_repeating(&host, &target));
    let actions = host.take_actions();
    assert_eq!(actions.len(), 2);
    assert!(matches!(&actions[0], ScriptAction::StartRepeat { key_name, keycode, interval: 50 } if key_name == "KEYCODE_A" && keycode == "KEYCODE_A"));
    assert!(matches!(&actions[1], ScriptAction::StopRepeat { key_name } if key_name == "KEYCODE_A"));
    let unknown = "KEYCODE_Q".to_string();
    auto_repeat_press(&mut host, &unknown, 50);
    assert!(!is_repeating(&host, &unknown));
    assert!(host.take_actions().is_empty());
}

fn scripts(pressed: &str, released: &str, held: &str) -> MappingScript<(i32, i32), u8> {
    MappingScript {
        position: (0, 0),
        note: String::new(),
        pressed_script: pressed.to_string(),
        released_script: released.to_string(),
        held_script: held.to_string(),
        interval: 100,
        bind: 1,
    }
}

#[test]
fn script_mapping_validation() {
    assert_eq!(scripts("let a = 1;", "", "print(1);").validate(), Ok(()));
    let e = scripts("let = 1;", "", "@").validate().unwrap_err();
    assert_eq!(
        e,
        "mask.mapping.pressedScriptError:\nmask.mapping.parseScriptFailed\n: line 1, column 5: expected a variable name\n\
         mask.mapping.heldScriptError:\nmask.mapping.parseScriptFailed\n: line 1, column 1: unexpected character"
    );
}

#[test]
fn script_binding_keeps_parse_errors() {
    let b = BindMappingScript::from_mapping(scripts("let a = 1;", "(", ""));
    assert_eq!(script_run(&b.pressed_script_ast), ScriptRun::Run);
    assert_eq!(
        script_run(&b.released_script_ast),
        ScriptRun::ReportError("Released Script: mask.mapping.parseScriptFailed\n: line 1, column 2: expected an expression".to_string())
    );
    assert_eq!(script_run(&b.held_script_ast), ScriptRun::Nothing);
    assert!(uses_held_timer(&b.pressed_script_ast));
    assert!(!uses_held_timer(&b.held_script_ast));
    assert_eq!(b.interval, 100);
}

#[test]
fn file_names() {
    assert!(is_plain_name("mapping.json"));
    assert!(!is_plain_name("../x.json"));
    assert!(!is_plain_name("a?b"));
    assert!(is_safe_file_name("mapping.json"));
    assert!(!is_safe_file_name(".."));
    assert!(!is_safe_file_name("a/b.json"));
    assert!(!is_safe_file_name("a\\b.json"));
    assert!(!is_safe_file_name(""));
    assert!(!is_safe_file_name("."));
    assert!(is_safe_file_name("a."));
    assert!(is_safe_file_name(".hidden"));
}

#[test]
fn session_ids_and_keys() {
    let s = gen_scid();
    assert_eq!(s.len(), 8);
    assert!(s.starts_with("10"));
    assert!(s[2..].chars().all(|c| ('1'..='9').contains(&c)));
    assert_eq!(to_hex(&vec![0x00, 0x0f, 0xa5, 0xff]), "000fa5ff");
    assert_eq!(to_hex(&Vec::new()), "");
    let k = generate_api_key();
    assert_eq!(k.len(), 32);
    assert!(k.chars().all(|c| c.is_ascii_hexdigit() && !c.is_ascii_uppercase()));
}

#[test]
fn release_versions_are_compared() {
    assert_eq!(update_check("v1.2.0", "1.1.9"), Ok((true, "1.2.0".to_string())));
    assert_eq!(update_check("vv1.1.9", "1.1.9"), Ok((false, "1.1.9".to_string())));
    assert_eq!(update_check("1.0.0", "1.1.9"), Ok((false, "1.0.0".to_string())));
    let e = update_check("v1.2", "1.1.9").unwrap_err();
    assert!(e.starts_with("utils.checkForUpdateFailed: "));
    assert!(e.len() > "utils.checkForUpdateFailed: ".len());
    let e2 = update_check("v1.2.0", "bad").unwrap_err();
    assert!(e2.starts_with("utils.checkForUpdateFailed: "));
}

#[test]
fn global_print_limit() {
    assert_eq!(print_rate_step(0, 0), (false, 1, PrintDecision::Print));
    assert_eq!(print_rate_step(99, 0), (false, 100, PrintDecision::Print));
    assert_eq!(print_rate_step(100, 0), (false, 101, PrintDecision::WarnAndSuppress));
    assert_eq!(print_rate_step(101, 0), (false, 102, PrintDecision::Suppress));
    assert_eq!(print_rate_step(500, 1), (true, 1, PrintDecision::Print));
    assert_eq!(print_rate_step(500, 7), (true, 1, PrintDecision::Print));
}
