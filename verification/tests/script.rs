use scrcpy_mask::script::ast::{ScriptError, SourceSpan};
use scrcpy_mask::script::host::ScriptHost;
use scrcpy_mask::script::interp::ScriptAST;
use scrcpy_mask::script::value::Value;

fn new_host() -> ScriptHost {
    ScriptHost::new(
        vec!["KEYCODE_HOME".to_string(), "KEYCODE_BACK".to_string()],
        vec!["NONE".to_string(), "SHIFT_ON".to_string()],
    )
}

fn run_test_script(script: &str, host: &mut ScriptHost) -> Result<(), ScriptError> {
    let ast = ScriptAST::new(script).map_err(|e| {
        ScriptError::from_span(
            SourceSpan { start_line: 1, start_col: 1, end_line: 1, end_col: 1 },
            script,
            e,
        )
    })?;
    ast.eval_script(host, 1080, 1920, 540, 960)
}

fn var(host: &ScriptHost, name: &str) -> Option<i64> {
    match host.vars.get(&name.to_string()) {
        Some(Value::Int(n)) => Some(*n),
        _ => None,
    }
}

#[test]
fn test_script_variables() {
    let mut host = new_host();

    let script = r#"
            let a = 10;
            let b = 20;
            set_var("result", a + b);
        "#;
    run_test_script(script, &mut host).unwrap();

    let val = host.vars.get(&"result".to_string());
    assert!(val.is_some());
    match val.unwrap() {
        Value::Int(n) => assert_eq!(*n, 30),
        _ => panic!("Expected ScriptVar::Int"),
    }
}

#[test]
fn test_script_loops_and_conditionals() {
    let mut host = new_host();

    let script = r#"
            let i = 0;
            let sum = 0;
            while i < 10 {
                sum = sum + i;
                i = i + 1;
            };
            set_var("sum", sum);
        "#;
    run_test_script(script, &mut host).unwrap();

    assert_eq!(var(&host, "sum").unwrap_or(0), 45);
}

#[test]
fn test_script_user_functions() {
    let mut host = new_host();

    let script = r#"
            fn calculate(x, y) {
                return x * y + 5;
            }
            let res = calculate(3, 4);
            set_var("res", res);
        "#;
    run_test_script(script, &mut host).unwrap();

    assert_eq!(var(&host, "res").unwrap_or(0), 17);
}

#[test]
fn test_script_recursion_depth_limit() {
    let mut host = new_host();
    // Recursive function call
    let script = r#"
            fn infinite_recursion(n) {
                return infinite_recursion(n + 1);
            }
            infinite_recursion(0);
        "#;
    let res = run_test_script(script, &mut host);
    assert!(res.is_err());
    let err_msg = res.unwrap_err().render();
    assert!(err_msg.contains("Recursion depth limit exceeded"), "Error message: {}", err_msg);
}
