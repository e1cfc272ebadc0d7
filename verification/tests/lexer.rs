use scrcpy_mask::script::lexer::{TokKind, lex};

fn kinds(src: &str) -> Vec<TokKind> {
    let cs: Vec<char> = src.chars().collect();
    lex(&cs).unwrap().iter().map(|t| t.kind).collect()
}

#[test]
fn words_numbers_and_operators() {
    assert_eq!(
        kinds("let x1 = 42 <= y && !z;"),
        vec![
            TokKind::Let,
            TokKind::Ident,
            TokKind::Assign,
            TokKind::Number,
            TokKind::Le,
            TokKind::Ident,
            TokKind::AndAnd,
            TokKind::Bang,
            TokKind::Ident,
            TokKind::Semi,
        ]
    );
    assert_eq!(kinds("fn while if else return true false"), vec![
        TokKind::Fn,
        TokKind::While,
        TokKind::If,
        TokKind::Else,
        TokKind::Return,
        TokKind::True,
        TokKind::False,
    ]);
    assert_eq!(kinds("a==b!=c||d"), vec![
        TokKind::Ident,
        TokKind::EqEq,
        TokKind::Ident,
        TokKind::Ne,
        TokKind::Ident,
        TokKind::OrOr,
        TokKind::Ident,
    ]);
}

#[test]
fn positions_count_lines_and_columns() {
    let cs: Vec<char> = "x\n  // note\n  yy \"a\\\"b\"".chars().collect();
    let toks = lex(&cs).unwrap();
    assert_eq!(toks.len(), 3);
    let s = toks[1].span;
    assert_eq!((s.start_line, s.start_col, s.end_line, s.end_col), (3, 3, 3, 5));
    assert_eq!(toks[1].text, vec!['y', 'y']);
    assert_eq!(toks[2].kind, TokKind::Str);
    assert_eq!(toks[2].text, vec!['a', '\\', '"', 'b']);
    let s = toks[2].span;
    assert_eq!((s.start_line, s.start_col, s.end_line, s.end_col), (3, 6, 3, 12));
}

#[test]
fn lexical_errors() {
    let cs: Vec<char> = "a = 1;\n  #".chars().collect();
    assert_eq!(lex(&cs).unwrap_err(), "mask.mapping.parseScriptFailed\n: line 2, column 3: unexpected character");
    let cs: Vec<char> = "x = \"open".chars().collect();
    assert_eq!(lex(&cs).unwrap_err(), "mask.mapping.parseScriptFailed\n: line 1, column 5: unterminated string literal");
    let cs: Vec<char> = "a & b".chars().collect();
    assert!(lex(&cs).is_err());
}
