use scrcpy_mask::script::ast::{Expr, Stmt};
use scrcpy_mask::script::interp::ScriptAST;
use scrcpy_mask::script::parser::number_value;
use scrcpy_mask::script::value::BinOp;

#[test]
fn empty_script_is_empty() {
    let ast = ScriptAST::new("").unwrap();
    assert!(ast.empty);
    let ast = ScriptAST::new("  // only a comment\n").unwrap();
    assert!(!ast.empty);
    assert!(ast.program.stmts.is_empty());
}

#[test]
fn chains_are_left_associative_with_the_chain_span() {
    let ast = ScriptAST::new("a - b - c;").unwrap();
    match &ast.program.stmts[0] {
        Stmt::Expr { expr: Expr::Binary { lhs, op: BinOp::Sub, span, .. }, .. } => {
            assert_eq!((span.start_col, span.end_col), (1, 10));
            match lhs.as_ref() {
                Expr::Binary { op: BinOp::Sub, span: inner, .. } => assert_eq!((inner.start_col, inner.end_col), (1, 10)),
                other => panic!("{:?}", other),
            }
        }
        other => panic!("{:?}", other),
    }
}

#[test]
fn spans_follow_lines_and_columns() {
    let ast = ScriptAST::new("let a = 1;\n  if a {\n    b();\n  }\n").unwrap();
    match &ast.program.stmts[1] {
        Stmt::If { span, .. } => {
            assert_eq!((span.start_line, span.start_col, span.end_line, span.end_col), (2, 3, 4, 4));
        }
        other => panic!("{:?}", other),
    }
}

#[test]
fn syntax_errors_are_reported_with_position() {
    let err = ScriptAST::new("let = 3;").unwrap_err();
    assert!(err.starts_with("mask.mapping.parseScriptFailed\n: line 1, column 5"), "{}", err);
    assert!(ScriptAST::new("let a = 1").is_err());
    assert!(ScriptAST::new("print(\"open").unwrap_err().contains("unterminated string literal"));
    assert!(ScriptAST::new("let a = 1 $ 2;").unwrap_err().contains("unexpected character"));
    assert!(ScriptAST::new("if a { b(); } else c();").is_err());
}

#[test]
fn numbers_that_do_not_fit_are_statement_errors() {
    let err = ScriptAST::new("let a = 99999999999999999999;\nlet b = 1;\nlet c = 99999999999999999999;").unwrap_err();
    assert_eq!(err.matches("number too large to fit in target type").count(), 2, "{}", err);
    assert!(err.contains("\n\n"));
    assert_eq!(number_value(&"9223372036854775807".chars().collect()), Some(i64::MAX));
    assert_eq!(number_value(&"9223372036854775808".chars().collect()), None);
    assert_eq!(number_value(&"007".chars().collect()), Some(7));
}

#[test]
fn optional_semicolons_after_blocks() {
    assert!(ScriptAST::new("while false { };").is_ok());
    assert!(ScriptAST::new("{ let a = 1; } if true { } else { };").is_ok());
    assert!(ScriptAST::new("fn f(a, b) { return; }").is_ok());
}
