use scrcpy_mask::script::host::{KeyAction, ScriptAction, ScriptHost, TouchAction};
use scrcpy_mask::script::interp::ScriptAST;
use scrcpy_mask::script::value::Value;

fn host() -> ScriptHost {
    ScriptHost::new(
        vec!["HOME".to_string(), "BACK".to_string()],
        vec!["NONE".to_string(), "SHIFT_ON".to_string()],
    )
}

fn run(script: &str, h: &mut ScriptHost) -> Result<(), String> {
    let ast = ScriptAST::new(script)?;
    ast.eval_script(h, 1080, 1920, 540, 960).map_err(|e| e.render())
}

fn int_var(h: &ScriptHost, name: &str) -> i64 {
    match h.vars.get(&name.to_string()) {
        Some(Value::Int(n)) => *n,
        other => panic!("{} is {:?}", name, other),
    }
}

fn str_var(h: &ScriptHost, name: &str) -> String {
    match h.vars.get(&name.to_string()) {
        Some(Value::Str(s)) => s.clone(),
        other => panic!("{} is {:?}", name, other),
    }
}

fn bool_var(h: &ScriptHost, name: &str) -> bool {
    match h.vars.get(&name.to_string()) {
        Some(Value::Bool(b)) => *b,
        other => panic!("{} is {:?}", name, other),
    }
}

#[test]
fn precedence_and_associativity() {
    let mut h = host();
    run("set_var(\"a\", 1 + 2 * 3); set_var(\"b\", 10 - 3 - 2); set_var(\"c\", (1 + 2) * 3); set_var(\"d\", -7 / 2); set_var(\"e\", -7 % 2);", &mut h).unwrap();
    assert_eq!(int_var(&h, "a"), 7);
    assert_eq!(int_var(&h, "b"), 5);
    assert_eq!(int_var(&h, "c"), 9);
    assert_eq!(int_var(&h, "d"), -3);
    assert_eq!(int_var(&h, "e"), -1);
}

#[test]
fn screen_variables_are_visible() {
    let mut h = host();
    run("set_var(\"w\", ORIGINAL_W); set_var(\"h\", ORIGINAL_H); set_var(\"x\", CURSOR_X); set_var(\"y\", CURSOR_Y);", &mut h).unwrap();
    assert_eq!(int_var(&h, "w"), 1080);
    assert_eq!(int_var(&h, "h"), 1920);
    assert_eq!(int_var(&h, "x"), 540);
    assert_eq!(int_var(&h, "y"), 960);
}

#[test]
fn strings_escapes_and_comparisons() {
    let mut h = host();
    run(r#"set_var("s", "a\tb" + "\"q\"\n"); set_var("lt", "abc" < "abd"); set_var("eq", "x" == "x"); set_var("ne", 1 != true); set_var("mixed", 1 == "1");"#, &mut h).unwrap();
    assert_eq!(str_var(&h, "s"), "a\tb\"q\"\n");
    assert!(bool_var(&h, "lt"));
    assert!(bool_var(&h, "eq"));
    assert!(!bool_var(&h, "ne"));
    assert!(!bool_var(&h, "mixed"));
}

#[test]
fn logic_and_truthiness() {
    let mut h = host();
    run(r#"set_var("a", 0 || "x"); set_var("b", !""); set_var("c", 1 && 0); if "" { set_var("d", 1); } else { set_var("d", 2); }"#, &mut h).unwrap();
    assert!(bool_var(&h, "a"));
    assert!(bool_var(&h, "b"));
    assert!(!bool_var(&h, "c"));
    assert_eq!(int_var(&h, "d"), 2);
}

#[test]
fn assignment_reaches_outer_scope_of_the_run_only() {
    let mut h = host();
    run("let t = 1; fn bump() { t = t + 1; return t; } let r = bump(); set_var(\"r\", r); set_var(\"t\", t);", &mut h).unwrap();
    assert_eq!(int_var(&h, "r"), 2);
    assert_eq!(int_var(&h, "t"), 2);
}

#[test]
fn top_level_return_does_not_stop_the_run() {
    let mut h = host();
    run("return 5; set_var(\"after\", 1);", &mut h).unwrap();
    assert_eq!(int_var(&h, "after"), 1);
}

#[test]
fn function_without_return_gives_zero() {
    let mut h = host();
    run("fn f() { let a = 3; } set_var(\"v\", f() + 4);", &mut h).unwrap();
    assert_eq!(int_var(&h, "v"), 4);
}

#[test]
fn division_by_zero_renders_the_statement() {
    let mut h = host();
    let err = run("let x = 1 / 0;", &mut h).unwrap_err();
    assert_eq!(
        err,
        "error: Division by zero\n --> line 1, column 1 to line 1, column 15\n1 | let x = 1 / 0;\n  |         ^^^^^\n"
    );
}

#[test]
fn undefined_names() {
    let mut h = host();
    assert!(run("y = 1;", &mut h).unwrap_err().contains("Variable 'y' not defined"));
    assert!(run("let a = b;", &mut h).unwrap_err().contains("Variable 'b' not defined"));
    assert!(run("nothing(1);", &mut h).unwrap_err().contains("Function 'nothing' not defined"));
}

#[test]
fn wrong_number_of_arguments() {
    let mut h = host();
    let err = run("fn f(a, b) { return a; } f(1);", &mut h).unwrap_err();
    assert!(err.contains("Function 'f' expects 2 arguments, but got 1"), "{}", err);
}

#[test]
fn overflow_is_an_error() {
    let mut h = host();
    assert!(run("let a = 9223372036854775807 + 1;", &mut h).unwrap_err().contains("Integer overflow in addition: 9223372036854775807 + 1"));
    assert!(run("let a = -(0 - 9223372036854775807 - 1);", &mut h).unwrap_err().contains("Integer overflow in negation: --9223372036854775808"));
    assert!(run("let a = 5 % 0;", &mut h).unwrap_err().contains("Modulo by zero"));
    assert!(run("let a = \"a\" - 1;", &mut h).unwrap_err().contains("Subtraction not supported between Str(\"a\") and Int(1)"));
}

#[test]
fn loop_limit() {
    let mut h = host();
    let err = run("while true { }", &mut h).unwrap_err();
    assert!(err.contains("Loop limit exceeded (100k iterations)"), "{}", err);
}

#[test]
fn toggles_and_variables_persist_between_runs() {
    let mut h = host();
    run("set_var(\"t\", toggle(7));", &mut h).unwrap();
    assert!(bool_var(&h, "t"));
    run("set_var(\"t\", toggle(7)); set_var(\"g\", get_toggle(7)); set_toggle(8, 2); set_var(\"g8\", get_toggle(8));", &mut h).unwrap();
    assert!(!bool_var(&h, "t"));
    assert!(!bool_var(&h, "g"));
    assert!(bool_var(&h, "g8"));
    run("del_var(\"t\"); set_var(\"has\", has_var(\"t\")); set_var(\"missing\", get_var(\"t\"));", &mut h).unwrap();
    assert!(!bool_var(&h, "has"));
    assert_eq!(int_var(&h, "missing"), 0);
}

#[test]
fn device_actions_are_recorded_in_order() {
    let mut h = host();
    run("tap(1, 10, 20); tap(2, 5, 6, \"move\"); swipe(0, 100, 1, 2, 3, 4); send_key(\"HOME\"); paste_text(\"hi\"); sleep(15); print(\"n\", 3, true);", &mut h).unwrap();
    let acts = h.take_actions();
    assert_eq!(acts.len(), 10);
    assert!(matches!(acts[0], ScriptAction::Touch { action: TouchAction::Down, pointer_id: 1, x: 10, y: 20 }));
    assert!(matches!(acts[1], ScriptAction::Sleep { ms: 30 }));
    assert!(matches!(acts[2], ScriptAction::Touch { action: TouchAction::Up, pointer_id: 1, x: 10, y: 20 }));
    assert!(matches!(acts[3], ScriptAction::Touch { action: TouchAction::Move, pointer_id: 2, x: 5, y: 6 }));
    match &acts[4] {
        ScriptAction::Swipe { pointer_id, interval, points } => {
            assert_eq!((*pointer_id, *interval), (0, 100));
            assert_eq!(points, &vec![(1, 2), (3, 4)]);
        }
        other => panic!("{:?}", other),
    }
    assert!(matches!(&acts[5], ScriptAction::Key { action: KeyAction::Down, key_name, metastate } if key_name == "HOME" && metastate == "NONE"));
    assert!(matches!(&acts[6], ScriptAction::Key { action: KeyAction::Up, .. }));
    assert!(matches!(&acts[7], ScriptAction::Paste { text } if text == "hi"));
    assert!(matches!(acts[8], ScriptAction::Sleep { ms: 15 }));
    assert!(matches!(&acts[9], ScriptAction::Print { text } if text == "n 3 true"));
    assert!(h.take_actions().is_empty());
}

#[test]
fn builtin_argument_errors() {
    let mut h = host();
    assert!(run("tap(1, 2);", &mut h).unwrap_err().contains("The tap function takes 3-4 arguments"));
    assert!(run("tap(-1, 2, 3);", &mut h).unwrap_err().contains("The pointer_id must be non-negative"));
    assert!(run("tap(1, 2, 3, \"jump\");", &mut h).unwrap_err().contains("Invalid action 'jump'"));
    assert!(run("swipe(0, 10, 1, 2, 3);", &mut h).unwrap_err().contains("The swipe function takes at least 6 arguments"));
    assert!(run("swipe(0, 10, 1, 2, \"a\", 4);", &mut h).unwrap_err().contains("Coordinates at index 4 and 5 must be integers"));
    assert!(run("send_key(\"NOPE\");", &mut h).unwrap_err().contains("Invalid key name 'NOPE'"));
    assert!(run("send_key(\"HOME\", \"up\", \"ALT\");", &mut h).unwrap_err().contains("Invalid metastate 'ALT'"));
    assert!(run("sleep(\"1\");", &mut h).unwrap_err().contains("The sleep function takes one argument: time (int)"));
    assert!(run("repeat(\"HOME\", 0);", &mut h).unwrap_err().contains("Second argument to repeat must be a positive integer"));
    assert!(run("set_var(1, 2);", &mut h).unwrap_err().contains("The set_var function's first argument must be a string"));
}

#[test]
fn repeats_start_and_stop() {
    let mut h = host();
    run("repeat(\"HOME\", 50); set_var(\"r\", is_repeating(\"HOME\"));", &mut h).unwrap();
    assert!(bool_var(&h, "r"));
    run("stop_repeat(\"HOME\"); set_var(\"r\", is_repeating(\"HOME\"));", &mut h).unwrap();
    assert!(!bool_var(&h, "r"));
    let acts = h.take_actions();
    assert!(matches!(&acts[0], ScriptAction::StartRepeat { key_name, keycode, interval: 50 } if key_name == "HOME" && keycode == "HOME"));
    assert!(matches!(&acts[1], ScriptAction::StopRepeat { key_name } if key_name == "HOME"));
    assert!(run("repeat(\"NOPE\", 5);", &mut h).unwrap_err().contains("Invalid key name 'NOPE'"));
}

#[test]
fn print_is_limited_per_run() {
    let mut h = host();
    run("let i = 0; while i < 1005 { print(i); i = i + 1; }", &mut h).unwrap();
    let prints = h.take_actions().into_iter().filter(|a| matches!(a, ScriptAction::Print { .. })).count();
    assert_eq!(prints, 1000);
    run("print(1);", &mut h).unwrap();
    assert_eq!(h.take_actions().len(), 1);
}

#[test]
fn errors_keep_earlier_effects() {
    let mut h = host();
    assert!(run("set_var(\"kept\", 1); let z = 1 / 0;", &mut h).is_err());
    assert_eq!(int_var(&h, "kept"), 1);
}

#[test]
fn key_names_are_read_as_json_strings() {
    let mut h = host();
    run("send_key(\"HOM\\\\u0045\", \"down\", \"N\\\\u004fNE\");", &mut h).unwrap();
    let acts = h.take_actions();
    assert_eq!(acts.len(), 1);
    assert!(matches!(&acts[0], ScriptAction::Key { action: KeyAction::Down, key_name, metastate } if key_name == "HOME" && metastate == "NONE"));
    run("repeat(\"HOM\\\\u0045\", 50);", &mut h).unwrap();
    let acts = h.take_actions();
    assert!(matches!(&acts[0], ScriptAction::StartRepeat { key_name, keycode, interval: 50 } if key_name == "HOM\\u0045" && keycode == "HOME"));
    assert!(run("send_key(\"HO\\\"ME\");", &mut h).unwrap_err().contains("Invalid key name 'HO\"ME'"));
    assert!(run("send_key(\"HOME\\\\\");", &mut h).unwrap_err().contains("Invalid key name"));
}
