//! Parsing a script into its syntax tree.
//!
//! The grammar, over the tokens of `script::lexer`:
//!
//! ```text
//! program  = item*
//! item     = fn_def | stmt
//! fn_def   = "fn" ident "(" (ident ("," ident)*)? ")" block
//! block    = "{" item* "}"
//! stmt     = "let" ident "=" expr ";"
//!          | "return" expr? ";"
//!          | block ";"?
//!          | "while" expr block ";"?
//!          | "if" expr block ("else" block)? ";"?
//!          | ident "=" expr ";"
//!          | expr ";"
//! expr     = and ("||" and)*
//! and      = equality ("&&" equality)*
//! equality = compare (("==" | "!=") compare)*
//! compare  = sum (("<" | "<=" | ">" | ">=") sum)*
//! sum      = product (("+" | "-") product)*
//! product  = prefix (("*" | "/" | "%") prefix)*
//! prefix   = ("+" | "-" | "!") prefix | primary
//! primary  = number | "true" | "false" | string | ident "(" (expr ("," expr)*)? ")"
//!          | ident | "(" expr ")"
//! ```
//!
//! Binary operators associate to the left, and every node of one chain
//! (`a + b - c`) is placed at the span of the whole chain. A number that does
//! not fit in `i64` is an error of its statement; the parse goes on and all
//! such errors are reported together.

use vstd::prelude::*;
use crate::script::ast::{ErrorModel, Expr, Program, ScriptError, SourceSpan, Stmt, render_error, renderable, with_outer};
use crate::script::grammar::{
    ExprM, ExprParseM, PartsParseM, SimpleM, StmtM, StmtParseM, StmtsParseM, all_digits_spec, errs_m, expr_m, exprs_m,
    first_err, fold_chain, forward, kind_at, level_op_spec, msg_at, opt_err, p_args, p_binary, p_block, p_chain,
    p_fn_def, p_item, p_items, p_operand, p_params, p_prefix, p_primary, p_program, p_simple, p_stmt, prefix_op,
    prepend, prepend_stmts, script_spec, join_err_texts, skip_semi_spec, span_of, stmt_m, stmts_m,
};
use crate::script::host::strs;
use crate::script::interp::ScriptAST;
use crate::script::lexer::{TokKind, Token, lex, syntax_error, tok_views, toks_ok};
use crate::script::semantics::{expr_wf, program_wf, span_ok, stmt_wf};
use crate::script::value::{BinOp, UnaryOp};
use crate::text::{chars_of, string_of, text_lines};

verus! {

/// The value of a string of decimal digits.
pub open spec fn digits_value(s: Seq<char>) -> int
    decreases s.len(),
{
    if s.len() == 0 {
        0
    } else {
        digits_value(s.drop_last()) * 10 + (s.last() as int - '0' as int)
    }
}

/// `s` with each non-overlapping occurrence of `a b`, from the left,
/// replaced by `r` (what `str::replace` does with a two-character pattern).
pub open spec fn replace2(s: Seq<char>, a: char, b: char, r: char) -> Seq<char>
    decreases s.len(),
{
    if s.len() == 0 {
        s
    } else if s.len() >= 2 && s[0] == a && s[1] == b {
        seq![r] + replace2(s.skip(2), a, b, r)
    } else {
        seq![s[0]] + replace2(s.skip(1), a, b, r)
    }
}

/// The value of a string literal from its raw content: `\n`, `\t`, `\"`
/// and `\\` are replaced, in that order.
pub open spec fn unescape(raw: Seq<char>) -> Seq<char> {
    replace2(replace2(replace2(replace2(raw, '\\', 'n', '\n'), '\\', 't', '\t'), '\\', '"', '"'), '\\', '\\', '\\')
}

proof fn lemma_digits_monotone(s: Seq<char>, i: int)
    requires
        0 <= i <= s.len(),
        forall|j: int| 0 <= j < s.len() ==> '0' <= #[trigger] s[j] <= '9',
    ensures
        0 <= digits_value(s.take(i)) <= digits_value(s),
    decreases s.len() - i,
{
    if i < s.len() {
        lemma_digits_monotone(s, i + 1);
        assert(s.take(i + 1).drop_last() =~= s.take(i));
        assert('0' <= s[i] <= '9');
    } else {
        assert(s.take(i) =~= s);
        lemma_digits_nonneg(s);
    }
}

proof fn lemma_digits_nonneg(s: Seq<char>)
    requires
        forall|j: int| 0 <= j < s.len() ==> '0' <= #[trigger] s[j] <= '9',
    ensures
        0 <= digits_value(s),
    decreases s.len(),
{
    if s.len() > 0 {
        lemma_digits_nonneg(s.drop_last());
        assert('0' <= s[s.len() - 1] <= '9');
    }
}

/// The value of a number token, if it fits in `i64`.
pub fn number_value(d: &Vec<char>) -> (r: Option<i64>)
    requires
        forall|j: int| 0 <= j < d@.len() ==> '0' <= #[trigger] d@[j] <= '9',
    ensures
        r matches Some(v) ==> v == digits_value(d@),
        r is None <==> digits_value(d@) > i64::MAX,
{
    let mut acc: i64 = 0;
    let mut i: usize = 0;
    assert(d@.take(0) =~= Seq::<char>::empty());
    while i < d.len()
        invariant
            i <= d@.len(),
            forall|j: int| 0 <= j < d@.len() ==> '0' <= #[trigger] d@[j] <= '9',
            acc == digits_value(d@.take(i as int)),
            acc >= 0,
        decreases d@.len() - i,
    {
        let dg = (d[i] as u32 - '0' as u32) as i64;
        assert(d@.take(i + 1).drop_last() =~= d@.take(i as int));
        proof {
            lemma_digits_monotone(d@, i + 1);
        }
        match acc.checked_mul(10) {
            None => {
                return None;
            },
            Some(m) => match m.checked_add(dg) {
                None => {
                    return None;
                },
                Some(v) => {
                    acc = v;
                },
            },
        }
        i = i + 1;
    }
    assert(d@.take(d@.len() as int) =~= d@);
    Some(acc)
}

/// Replaces each `a b` in `s`, from the left, by `r`.
fn replace_pair(s: &Vec<char>, a: char, b: char, r: char) -> (out: Vec<char>)
    ensures
        out@ == replace2(s@, a, b, r),
{
    let mut out: Vec<char> = Vec::new();
    let mut i: usize = 0;
    assert(s@.skip(0) =~= s@);
    while i < s.len()
        invariant
            i <= s@.len(),
            replace2(s@, a, b, r) == out@ + replace2(s@.skip(i as int), a, b, r),
        decreases s@.len() - i,
    {
        let ghost rest = s@.skip(i as int);
        if s.len() - i >= 2 && s[i] == a && s[i + 1] == b {
            out.push(r);
            assert(rest.skip(2) =~= s@.skip(i + 2));
            assert(replace2(rest, a, b, r) == seq![r] + replace2(rest.skip(2), a, b, r));
            i = i + 2;
        } else {
            out.push(s[i]);
            assert(rest.skip(1) =~= s@.skip(i + 1));
            assert(replace2(rest, a, b, r) == seq![s@[i as int]] + replace2(rest.skip(1), a, b, r));
            i = i + 1;
        }
    }
    assert(s@.skip(i as int) =~= Seq::<char>::empty());
    out
}

/// The value of a string literal with raw content `raw`.
pub fn unescape_literal(raw: &Vec<char>) -> (s: String)
    ensures
        s@ == unescape(raw@),
{
    let a = replace_pair(raw, '\\', 'n', '\n');
    let b = replace_pair(&a, '\\', 't', '\t');
    let c = replace_pair(&b, '\\', '"', '"');
    let d = replace_pair(&c, '\\', '\\', '\\');
    string_of(d.as_slice())
}

/// The span from the start of token `a` to the end of token `b`.
fn span_between(toks: &Vec<Token>, a: usize, b: usize) -> (sp: SourceSpan)
    requires
        toks_ok(toks@),
        a <= b < toks@.len(),
    ensures
        span_ok(sp),
        sp.start_line == toks@[a as int].span.start_line,
        sp.start_col == toks@[a as int].span.start_col,
        sp.end_line == toks@[b as int].span.end_line,
        sp.end_col == toks@[b as int].span.end_col,
        sp == span_of(tok_views(toks@), a as nat, b as nat),
{
    if a < b {
        assert(toks@[a as int].span.start_line <= toks@[b as int].span.start_line);
    }
    SourceSpan {
        start_line: toks[a].span.start_line,
        start_col: toks[a].span.start_col,
        end_line: toks[b].span.end_line,
        end_col: toks[b].span.end_col,
    }
}

/// The message for a token that the grammar does not allow at `pos`.
fn error_at(toks: &Vec<Token>, pos: usize, what: &str) -> (m: String)
    ensures
        m@ == msg_at(tok_views(toks@), pos as nat, what@),
{
    if pos < toks.len() {
        syntax_error(toks[pos].span.start_line, toks[pos].span.start_col, what)
    } else if toks.len() > 0 {
        let last = toks.len() - 1;
        syntax_error(toks[last].span.end_line, toks[last].span.end_col, what)
    } else {
        syntax_error(1, 1, what)
    }
}

/// Whether the token at `pos` is of kind `k`.
fn at(toks: &Vec<Token>, pos: usize, k: TokKind) -> (b: bool)
    ensures
        b == (pos < toks@.len() && toks@[pos as int].kind == k),
        b == kind_at(tok_views(toks@), pos as nat, k),
{
    pos < toks.len() && toks[pos].kind == k
}

/// The operator of precedence level `level` (0 binds tightest) spelled by `k`.
fn level_op(level: u8, k: TokKind) -> (r: Option<BinOp>)
    ensures
        r == level_op_spec(level as nat, k),
{
    match (level, k) {
        (0, TokKind::Star) => Some(BinOp::Mul),
        (0, TokKind::Slash) => Some(BinOp::Div),
        (0, TokKind::Percent) => Some(BinOp::Mod),
        (1, TokKind::Plus) => Some(BinOp::Add),
        (1, TokKind::Minus) => Some(BinOp::Sub),
        (2, TokKind::Lt) => Some(BinOp::Lt),
        (2, TokKind::Le) => Some(BinOp::Le),
        (2, TokKind::Gt) => Some(BinOp::Gt),
        (2, TokKind::Ge) => Some(BinOp::Ge),
        (3, TokKind::EqEq) => Some(BinOp::Eq),
        (3, TokKind::Ne) => Some(BinOp::Neq),
        (4, TokKind::AndAnd) => Some(BinOp::And),
        (5, TokKind::OrOr) => Some(BinOp::Or),
        _ => None,
    }
}

/// What an expression parse gives: the expression, the first number that
/// did not fit (as an error), and the position after it.
pub type ExprParse = Result<(Expr, Option<ScriptError>, usize), String>;

/// The model of an expression parse.
pub open spec fn expr_parse_m(r: ExprParse) -> ExprParseM {
    match r {
        Ok((e, err, p)) => Ok((expr_m(e), opt_err(err), p as nat)),
        Err(m) => Err(m@),
    }
}

/// Putting parts in front twice is putting them in front at once.
proof fn lemma_prepend_twice<A>(xs: Seq<A>, e: Option<ErrorModel>, ys: Seq<A>, e2: Option<ErrorModel>, r: PartsParseM<A>)
    ensures
        prepend(xs, e, prepend(ys, e2, r)) == prepend(xs + ys, first_err(e, e2), r),
{
    match r {
        Ok((zs, e3, q)) => {
            assert(xs + (ys + zs) =~= (xs + ys) + zs);
        },
        Err(m) => {},
    }
}

/// The model of a sequence with one more expression.
proof fn lemma_exprs_push(s: Seq<Expr>, e: Expr)
    ensures
        exprs_m(s.push(e)) == exprs_m(s).push(expr_m(e)),
{
    assert(s.push(e).subrange(0, s.len() as int) =~= s);
}

/// Parses a chain of binary operators of precedence `level` (5 is `||`).
fn parse_binary(level: u8, toks: &Vec<Token>, pos: usize, src: &str) -> (r: ExprParse)
    requires
        toks_ok(toks@),
        level <= 5,
    ensures
        r matches Ok((e, _, p)) ==> pos < p <= toks@.len() && expr_wf(e),
        expr_parse_m(r) == p_binary(level as nat, tok_views(toks@), pos as nat, text_lines(src@)),
    decreases toks@.len() - pos, level as nat + 2,
{
    let ghost t = tok_views(toks@);
    let ghost lines = text_lines(src@);
    let first = if level == 0 { parse_prefix(toks, pos, src) } else { parse_binary(level - 1, toks, pos, src) };
    assert(expr_parse_m(first) == p_operand(level as nat, t, pos as nat, lines));
    let (lhs, mut err, mut p) = match first {
        Ok(x) => x,
        Err(m) => return Err(m),
    };
    assert(forward(pos as nat, p as nat, t.len()));
    let ghost lhs_m = expr_m(lhs);
    let ghost err0 = opt_err(err);
    let ghost p1 = p as nat;
    assert(p_operand(level as nat, t, pos as nat, lines) == Ok::<_, Seq<char>>((lhs_m, err0, p1)));
    let ghost mut items: Seq<(BinOp, ExprM)> = Seq::empty();
    let ghost mut e_items: Option<ErrorModel> = None;
    let mut ops: Vec<BinOp> = Vec::new();
    let mut rands: Vec<Expr> = Vec::new();
    assert(items + Seq::<(BinOp, ExprM)>::empty() =~= items);
    loop
        invariant
            toks_ok(toks@),
            t == tok_views(toks@),
            lines == text_lines(src@),
            level <= 5,
            pos < p <= toks@.len(),
            pos < p1,
            ops@.len() == rands@.len(),
            items.len() == ops@.len(),
            forall|j: int| 0 <= j < items.len() ==> (#[trigger] items[j]) == (ops@[j], expr_m(rands@[j])),
            forall|j: int| 0 <= j < rands@.len() ==> expr_wf(#[trigger] rands@[j]),
            p_chain(level as nat, t, p1, lines) == prepend(items, e_items, p_chain(level as nat, t, p as nat, lines)),
            opt_err(err) == first_err(err0, e_items),
            items.len() == 0 ==> e_items is None,
            p_operand(level as nat, t, pos as nat, lines) == Ok::<_, Seq<char>>((lhs_m, err0, p1)),
            forward(pos as nat, p1, t.len()),
        ensures
            p >= toks@.len() || level_op_spec(level as nat, t[p as int].0) is None,
        decreases toks@.len() - p,
    {
        if p >= toks.len() {
            break;
        }
        assert(t[p as int].0 == toks@[p as int].kind);
        let op = match level_op(level, toks[p].kind) {
            Some(op) => op,
            None => break,
        };
        let next = if level == 0 { parse_prefix(toks, p + 1, src) } else { parse_binary(level - 1, toks, p + 1, src) };
        assert(expr_parse_m(next) == p_operand(level as nat, t, (p + 1) as nat, lines));
        match next {
            Ok((rhs, e2, p2)) => {
                proof {
                    lemma_prepend_twice(items, e_items, seq![(op, expr_m(rhs))], opt_err(e2), p_chain(level as nat, t, p2 as nat, lines));
                    assert(p_chain(level as nat, t, p as nat, lines) == prepend(seq![(op, expr_m(rhs))], opt_err(e2), p_chain(level as nat, t, p2 as nat, lines)));
                    assert(items + seq![(op, expr_m(rhs))] =~= items.push((op, expr_m(rhs))));
                    items = items.push((op, expr_m(rhs)));
                    e_items = first_err(e_items, opt_err(e2));
                }
                if err.is_none() {
                    err = e2;
                }
                ops.push(op);
                rands.push(rhs);
                p = p2;
            },
            Err(m) => {
                assert(p_chain(level as nat, t, p as nat, lines) == Err::<(Seq<(BinOp, ExprM)>, Option<ErrorModel>, nat), Seq<char>>(m@));
                assert(p_chain(level as nat, t, p1, lines) == Err::<(Seq<(BinOp, ExprM)>, Option<ErrorModel>, nat), Seq<char>>(m@));
                return Err(m);
            },
        }
    }
    assert(p_chain(level as nat, t, p as nat, lines) == Ok::<_, Seq<char>>((Seq::<(BinOp, ExprM)>::empty(), None::<ErrorModel>, p as nat)));
    assert(items + Seq::<(BinOp, ExprM)>::empty() =~= items);
    if rands.len() == 0 {
        return Ok((lhs, err, p));
    }
    let span = span_between(toks, pos, p - 1);
    let ghost rands0 = rands@;
    let mut acc = lhs;
    let mut k: usize = 0;
    let n = ops.len();
    assert(items.take(0) =~= Seq::<(BinOp, ExprM)>::empty());
    assert(rands@ =~= rands0.subrange(0, n as int));
    while k < n
        invariant
            ops@.len() == n,
            rands0.len() == n,
            items.len() == n,
            rands@ =~= rands0.subrange(k as int, n as int),
            k <= n,
            expr_wf(acc),
            span_ok(span),
            forall|j: int| 0 <= j < n ==> (#[trigger] items[j]) == (ops@[j], expr_m(rands0[j])),
            forall|j: int| 0 <= j < rands@.len() ==> expr_wf(#[trigger] rands@[j]),
            expr_m(acc) == fold_chain(lhs_m, items.take(k as int), span),
        decreases n - k,
    {
        let rhs = rands.remove(0);
        assert(rhs == rands0[k as int]);
        acc = Expr::Binary { lhs: Box::new(acc), op: ops[k], rhs: Box::new(rhs), span };
        assert(items.take(k + 1).drop_last() =~= items.take(k as int));
        k = k + 1;
        assert(rands@ =~= rands0.subrange(k as int, n as int));
    }
    assert(items.take(n as int) =~= items);
    Ok((acc, err, p))
}

/// Parses a prefix expression.
fn parse_prefix(toks: &Vec<Token>, pos: usize, src: &str) -> (r: ExprParse)
    requires
        toks_ok(toks@),
    ensures
        r matches Ok((e, _, p)) ==> pos < p <= toks@.len() && expr_wf(e),
        expr_parse_m(r) == p_prefix(tok_views(toks@), pos as nat, text_lines(src@)),
    decreases toks@.len() - pos, 1nat,
{
    if pos >= toks.len() {
        return Err(error_at(toks, pos, "expected an expression"));
    }
    let op = match toks[pos].kind {
        TokKind::Plus => Some(UnaryOp::Plus),
        TokKind::Minus => Some(UnaryOp::Minus),
        TokKind::Bang => Some(UnaryOp::Not),
        _ => None,
    };
    assert(op == prefix_op(tok_views(toks@)[pos as int].0));
    match op {
        None => parse_primary(toks, pos, src),
        Some(op) => match parse_prefix(toks, pos + 1, src) {
            Ok((rhs, err, p)) => {
                let span = span_between(toks, pos, p - 1);
                Ok((Expr::Unary { op, rhs: Box::new(rhs), span }, err, p))
            },
            Err(m) => Err(m),
        },
    }
}

/// Parses a primary expression.
fn parse_primary(toks: &Vec<Token>, pos: usize, src: &str) -> (r: ExprParse)
    requires
        toks_ok(toks@),
    ensures
        r matches Ok((e, _, p)) ==> pos < p <= toks@.len() && expr_wf(e),
        expr_parse_m(r) == p_primary(tok_views(toks@), pos as nat, text_lines(src@)),
    decreases toks@.len() - pos, 0nat,
{
    let ghost t = tok_views(toks@);
    let ghost lines = text_lines(src@);
    if pos >= toks.len() {
        return Err(error_at(toks, pos, "expected an expression"));
    }
    let tok = &toks[pos];
    let span = tok.span;
    assert(span_ok(span));
    assert(t[pos as int] == (tok.kind, tok.text@, span));
    match tok.kind {
        TokKind::Number => {
            if !all_digits(&tok.text) {
                return Err(error_at(toks, pos, "expected a number"));
            }
            match number_value(&tok.text) {
                Some(v) => Ok((Expr::Number { value: v, span }, None, pos + 1)),
                None => {
                    let e = ScriptError::from_span(span, src, String::from_str("number too large to fit in target type"));
                    Ok((Expr::Number { value: 0, span }, Some(e), pos + 1))
                },
            }
        },
        TokKind::True => Ok((Expr::Bool { value: true, span }, None, pos + 1)),
        TokKind::False => Ok((Expr::Bool { value: false, span }, None, pos + 1)),
        TokKind::Str => Ok((Expr::Str { value: unescape_literal(&tok.text), span }, None, pos + 1)),
        TokKind::Ident => {
            let name = string_of(tok.text.as_slice());
            if !at(toks, pos + 1, TokKind::LParen) {
                return Ok((Expr::Var { name, span }, None, pos + 1));
            }
            let mut args: Vec<Expr> = Vec::new();
            let mut err: Option<ScriptError> = None;
            let mut p = pos + 2;
            if !at(toks, p, TokKind::RParen) {
                assert(exprs_m(args@) =~= Seq::<ExprM>::empty());
                assert(Seq::<ExprM>::empty() + Seq::<ExprM>::empty() =~= Seq::<ExprM>::empty());
                assert(prepend(Seq::<ExprM>::empty(), None, p_args(t, p as nat, lines)) == p_args(t, p as nat, lines)) by {
                    match p_args(t, p as nat, lines) {
                        Ok((ys, e2, q)) => {
                            assert(Seq::<ExprM>::empty() + ys =~= ys);
                        },
                        Err(m) => {},
                    }
                }
                loop
                    invariant_except_break
                        p_args(t, (pos + 2) as nat, lines) == prepend(exprs_m(args@), opt_err(err), p_args(t, p as nat, lines)),
                    invariant
                        toks_ok(toks@),
                        t == tok_views(toks@),
                        lines == text_lines(src@),
                        pos + 2 <= p <= toks@.len(),
                        forall|j: int| 0 <= j < args@.len() ==> expr_wf(#[trigger] args@[j]),
                        pos < t.len(),
                        t[pos as int].0 == TokKind::Ident,
                        kind_at(t, (pos + 1) as nat, TokKind::LParen),
                        !kind_at(t, (pos + 2) as nat, TokKind::RParen),
                    ensures
                        p_args(t, (pos + 2) as nat, lines) == Ok::<_, Seq<char>>((exprs_m(args@), opt_err(err), p as nat)),
                    decreases toks@.len() - p,
                {
                    let ghost p0 = p as nat;
                    match parse_binary(5, toks, p, src) {
                        Ok((a, e2, p2)) => {
                            proof {
                                lemma_exprs_push(args@, a);
                                lemma_prepend_twice(exprs_m(args@), opt_err(err), seq![expr_m(a)], opt_err(e2), p_args(t, (p2 + 1) as nat, lines));
                                assert(exprs_m(args@) + seq![expr_m(a)] =~= exprs_m(args@).push(expr_m(a)));
                            }
                            if err.is_none() {
                                err = e2;
                            }
                            args.push(a);
                            p = p2;
                        },
                        Err(m) => {
                            assert(p_args(t, p as nat, lines) == Err::<(Seq<ExprM>, Option<ErrorModel>, nat), Seq<char>>(m@));
                            assert(p_args(t, (pos + 2) as nat, lines) == Err::<(Seq<ExprM>, Option<ErrorModel>, nat), Seq<char>>(m@));
                            return Err(m);
                        },
                    }
                    if at(toks, p, TokKind::Comma) {
                        p = p + 1;
                    } else {
                        proof {
                            let ghost pre = exprs_m(args@).drop_last();
                            assert(pre + seq![exprs_m(args@).last()] =~= exprs_m(args@));
                        }
                        break;
                    }
                }
                if !at(toks, p, TokKind::RParen) {
                    return Err(error_at(toks, p, "expected ',' or ')'"));
                }
            }
            let cspan = span_between(toks, pos, p);
            proof {
                if args@.len() == 0 {
                    assert(exprs_m(args@) =~= Seq::<ExprM>::empty());
                }
            }
            Ok((Expr::Call { name, args, span: cspan }, err, p + 1))
        },
        TokKind::LParen => {
            match parse_binary(5, toks, pos + 1, src) {
                Ok((e, err, p)) => {
                    if !at(toks, p, TokKind::RParen) {
                        return Err(error_at(toks, p, "expected ')'"));
                    }
                    Ok((e, err, p + 1))
                },
                Err(m) => Err(m),
            }
        },
        _ => Err(error_at(toks, pos, "expected an expression")),
    }
}

/// Whether every character is a decimal digit.
fn all_digits(d: &Vec<char>) -> (b: bool)
    ensures
        b == forall|j: int| 0 <= j < d@.len() ==> '0' <= #[trigger] d@[j] <= '9',
        b == all_digits_spec(d@),
{
    let mut i: usize = 0;
    while i < d.len()
        invariant
            i <= d@.len(),
            forall|j: int| 0 <= j < i ==> '0' <= #[trigger] d@[j] <= '9',
        decreases d@.len() - i,
    {
        if !('0' <= d[i] && d[i] <= '9') {
            return false;
        }
        i = i + 1;
    }
    true
}

/// Parses an expression.
fn parse_expr(toks: &Vec<Token>, pos: usize, src: &str) -> (r: ExprParse)
    requires
        toks_ok(toks@),
    ensures
        r matches Ok((e, _, p)) ==> pos < p <= toks@.len() && expr_wf(e),
        expr_parse_m(r) == p_binary(5, tok_views(toks@), pos as nat, text_lines(src@)),
{
    parse_binary(5, toks, pos, src)
}

/// What a statement parse gives: the statement, the errors of numbers that
/// did not fit, and the position after it.
pub type StmtParse = Result<(Stmt, Vec<ScriptError>, usize), String>;

/// The model of a statement parse.
pub open spec fn stmt_parse_m(r: StmtParse) -> StmtParseM {
    match r {
        Ok((s, errs, p)) => Ok((stmt_m(s), errs_m(errs@), p as nat)),
        Err(m) => Err(m@),
    }
}

/// The models of errors, one list after another.
proof fn lemma_errs_concat(a: Seq<ScriptError>, b: Seq<ScriptError>)
    ensures
        errs_m(a + b) == errs_m(a) + errs_m(b),
{
    assert(errs_m(a + b) =~= errs_m(a) + errs_m(b));
}

/// The model of a sequence with one more statement.
proof fn lemma_stmts_push(s: Seq<Stmt>, x: Stmt)
    ensures
        stmts_m(s.push(x)) == stmts_m(s).push(stmt_m(x)),
{
    assert(s.push(x).subrange(0, s.len() as int) =~= s);
}

/// Putting statements in front twice is putting them in front at once.
proof fn lemma_prepend_stmts_twice(xs: Seq<StmtM>, es: Seq<ErrorModel>, ys: Seq<StmtM>, es2: Seq<ErrorModel>, r: StmtsParseM)
    ensures
        prepend_stmts(xs, es, prepend_stmts(ys, es2, r)) == prepend_stmts(xs + ys, es + es2, r),
{
    match r {
        Ok((zs, es3, q)) => {
            assert(xs + (ys + zs) =~= (xs + ys) + zs);
            assert(es + (es2 + es3) =~= (es + es2) + es3);
        },
        Err(m) => {},
    }
}

/// The statement for an expression that held a number that did not fit.
fn failed(err: ScriptError, span: SourceSpan, src: &str) -> (r: (Stmt, Vec<ScriptError>))
    requires
        span_ok(span),
    ensures
        r.1@.len() == 1,
        stmt_m(r.0) == StmtM::Error(span),
        errs_m(r.1@) == seq![with_outer(err@, span, text_lines(src@))],
{
    let mut errs: Vec<ScriptError> = Vec::new();
    errs.push(err.with_outer_span(span, src));
    assert(errs_m(errs@) =~= seq![errs@[0]@]);
    (Stmt::Error { span }, errs)
}

/// Skips an optional `;`.
fn skip_semi(toks: &Vec<Token>, p: usize) -> (q: usize)
    requires
        toks_ok(toks@),
        p <= toks@.len(),
    ensures
        p <= q <= toks@.len(),
        q > 0 ==> q - 1 >= p - 1,
        q == skip_semi_spec(tok_views(toks@), p as nat),
{
    if at(toks, p, TokKind::Semi) { p + 1 } else { p }
}

/// The model of what `parse_simple` gives.
pub open spec fn simple_m(r: Result<(Result<(Expr, SourceSpan), (Stmt, Vec<ScriptError>)>, usize), String>) -> Result<(SimpleM, nat), Seq<char>> {
    match r {
        Err(m) => Err(m@),
        Ok((Ok((e, span)), q)) => Ok((Ok((expr_m(e), span)), q as nat)),
        Ok((Err((s, errs)), q)) => Ok((Err((stmt_m(s), errs_m(errs@))), q as nat)),
    }
}

/// Parses an expression from `start`, then `;`, for the statement that
/// starts at `pos`: the expression with the statement's span, or the
/// statement in error when a number did not fit; and the position after
/// the `;`.
fn parse_simple(toks: &Vec<Token>, pos: usize, start: usize, src: &str) -> (r: Result<(Result<(Expr, SourceSpan), (Stmt, Vec<ScriptError>)>, usize), String>)
    requires
        toks_ok(toks@),
        pos <= start,
        pos < toks@.len(),
    ensures
        simple_m(r) == p_simple(tok_views(toks@), pos as nat, start as nat, text_lines(src@)),
        r matches Ok((Ok((e, span)), q)) ==> pos < q <= toks@.len() && expr_wf(e) && span_ok(span),
        r matches Ok((Err((_, errs)), q)) ==> pos < q <= toks@.len() && errs@.len() == 1,
{
    let (expr, err, p) = match parse_expr(toks, start, src) {
        Ok(x) => x,
        Err(m) => return Err(m),
    };
    let q = match expect_semi(toks, p) {
        Ok(q) => q,
        Err(m) => return Err(m),
    };
    let span = span_between(toks, pos, p);
    match err {
        Some(e) => Ok((Err(failed(e, span, src)), q)),
        None => Ok((Ok((expr, span)), q)),
    }
}

/// Parses a block: `{` items `}`.
fn parse_block(toks: &Vec<Token>, pos: usize, src: &str) -> (r: StmtParse)
    requires
        toks_ok(toks@),
    ensures
        r matches Ok((s, errs, p)) ==> pos < p <= toks@.len() && (errs@.len() == 0 ==> stmt_wf(s)),
        stmt_parse_m(r) == p_block(tok_views(toks@), pos as nat, text_lines(src@)),
    decreases toks@.len() - pos, 2nat,
{
    let ghost t = tok_views(toks@);
    let ghost lines = text_lines(src@);
    if !at(toks, pos, TokKind::LBrace) {
        return Err(error_at(toks, pos, "expected '{'"));
    }
    let mut p = pos + 1;
    let mut stmts: Vec<Stmt> = Vec::new();
    let mut errs: Vec<ScriptError> = Vec::new();
    proof {
        assert(stmts_m(stmts@) =~= Seq::<StmtM>::empty());
        assert(errs_m(errs@) =~= Seq::<ErrorModel>::empty());
        match p_items(t, p as nat, lines) {
            Ok((ys, es, q)) => {
                assert(Seq::<StmtM>::empty() + ys =~= ys);
                assert(Seq::<ErrorModel>::empty() + es =~= es);
            },
            Err(m) => {},
        }
    }
    while !at(toks, p, TokKind::RBrace)
        invariant
            toks_ok(toks@),
            t == tok_views(toks@),
            lines == text_lines(src@),
            kind_at(t, pos as nat, TokKind::LBrace),
            pos < p <= toks@.len(),
            errs@.len() == 0 ==> forall|j: int| 0 <= j < stmts@.len() ==> stmt_wf(#[trigger] stmts@[j]),
            p_items(t, (pos + 1) as nat, lines) == prepend_stmts(stmts_m(stmts@), errs_m(errs@), p_items(t, p as nat, lines)),
        decreases toks@.len() - p,
    {
        if p >= toks.len() {
            return Err(error_at(toks, p, "expected '}'"));
        }
        match parse_item(toks, p, src) {
            Ok((s, mut e, p2)) => {
                proof {
                    lemma_stmts_push(stmts@, s);
                    lemma_errs_concat(errs@, e@);
                    lemma_prepend_stmts_twice(stmts_m(stmts@), errs_m(errs@), seq![stmt_m(s)], errs_m(e@), p_items(t, p2 as nat, lines));
                    assert(stmts_m(stmts@) + seq![stmt_m(s)] =~= stmts_m(stmts@).push(stmt_m(s)));
                }
                stmts.push(s);
                errs.append(&mut e);
                p = p2;
            },
            Err(m) => return Err(m),
        }
    }
    proof {
        assert(stmts_m(stmts@) + Seq::<StmtM>::empty() =~= stmts_m(stmts@));
        assert(errs_m(errs@) + Seq::<ErrorModel>::empty() =~= errs_m(errs@));
    }
    let span = span_between(toks, pos, p);
    Ok((Stmt::Block { stmts, span }, errs, p + 1))
}

/// Parses a function definition.
fn parse_fn_def(toks: &Vec<Token>, pos: usize, src: &str) -> (r: StmtParse)
    requires
        toks_ok(toks@),
        pos < toks@.len(),
    ensures
        r matches Ok((s, errs, p)) ==> pos < p <= toks@.len() && (errs@.len() == 0 ==> stmt_wf(s)),
        stmt_parse_m(r) == p_fn_def(tok_views(toks@), pos as nat, text_lines(src@)),
    decreases toks@.len() - pos, 2nat,
{
    let ghost t = tok_views(toks@);
    let ghost lines = text_lines(src@);
    if !at(toks, pos + 1, TokKind::Ident) {
        return Err(error_at(toks, pos + 1, "expected a function name"));
    }
    let name = string_of(toks[pos + 1].text.as_slice());
    if !at(toks, pos + 2, TokKind::LParen) {
        return Err(error_at(toks, pos + 2, "expected '('"));
    }
    let mut params: Vec<String> = Vec::new();
    let mut p = pos + 3;
    if !at(toks, p, TokKind::RParen) {
        proof {
            assert(strs(params@) =~= Seq::<Seq<char>>::empty());
            match p_params(t, p as nat) {
                Ok((ps, q)) => {
                    assert(Seq::<Seq<char>>::empty() + ps =~= ps);
                },
                Err(m) => {},
            }
        }
        loop
            invariant_except_break
                p_params(t, (pos + 3) as nat) == (match p_params(t, p as nat) {
                    Ok((ps, q)) => Ok((strs(params@) + ps, q)),
                    Err(m) => Err(m),
                }),
            invariant
                toks_ok(toks@),
                t == tok_views(toks@),
                lines == text_lines(src@),
                pos + 3 <= p <= toks@.len(),
                kind_at(t, (pos + 1) as nat, TokKind::Ident),
                kind_at(t, (pos + 2) as nat, TokKind::LParen),
                !kind_at(t, (pos + 3) as nat, TokKind::RParen),
                name@ == t[pos + 1].1,
            ensures
                p_params(t, (pos + 3) as nat) == Ok::<_, Seq<char>>((strs(params@), p as nat)),
            decreases toks@.len() - p,
        {
            if !at(toks, p, TokKind::Ident) {
                return Err(error_at(toks, p, "expected a parameter name"));
            }
            let pname = string_of(toks[p].text.as_slice());
            let ghost p0 = p as nat;
            let ghost old_strs = strs(params@);
            proof {
                assert(strs(params@.push(pname)) =~= strs(params@).push(pname@));
                assert(pname@ == t[p as int].1);
            }
            params.push(pname);
            p = p + 1;
            if at(toks, p, TokKind::Comma) {
                p = p + 1;
                proof {
                    assert(strs(params@) == old_strs.push(t[p0 as int].1));
                    match p_params(t, p as nat) {
                        Ok((ps, q)) => {
                            assert(p_params(t, p0) == Ok::<_, Seq<char>>((seq![t[p0 as int].1] + ps, q)));
                            assert(old_strs + (seq![t[p0 as int].1] + ps) =~= strs(params@) + ps);
                        },
                        Err(m) => {
                            assert(p_params(t, p0) == Err::<(Seq<Seq<char>>, nat), Seq<char>>(m));
                        },
                    }
                }
            } else {
                proof {
                    assert(p_params(t, p0) == Ok::<_, Seq<char>>((seq![t[p0 as int].1], p0 + 1)));
                    assert(strs(params@) == old_strs.push(t[p0 as int].1));
                    assert(old_strs + seq![t[p0 as int].1] =~= strs(params@));
                }
                break;
            }
        }
        if !at(toks, p, TokKind::RParen) {
            return Err(error_at(toks, p, "expected ',' or ')'"));
        }
    } else {
        assert(strs(params@) =~= Seq::<Seq<char>>::empty());
    }
    match parse_block(toks, p + 1, src) {
        Ok((body, errs, p2)) => {
            let span = span_between(toks, pos, p2 - 1);
            Ok((Stmt::FnDef { name, params, body: Box::new(body), span }, errs, p2))
        },
        Err(m) => Err(m),
    }
}

/// Parses a function definition or a statement.
fn parse_item(toks: &Vec<Token>, pos: usize, src: &str) -> (r: StmtParse)
    requires
        toks_ok(toks@),
        pos < toks@.len(),
    ensures
        r matches Ok((s, errs, p)) ==> pos < p <= toks@.len() && (errs@.len() == 0 ==> stmt_wf(s)),
        stmt_parse_m(r) == p_item(tok_views(toks@), pos as nat, text_lines(src@)),
    decreases toks@.len() - pos, 5nat,
{
    if toks[pos].kind == TokKind::Fn {
        parse_fn_def(toks, pos, src)
    } else {
        parse_stmt(toks, pos, src)
    }
}

/// Expects `;` at `p`.
fn expect_semi(toks: &Vec<Token>, p: usize) -> (r: Result<usize, String>)
    requires
        toks_ok(toks@),
    ensures
        r matches Ok(q) ==> q == p + 1 && p < toks@.len() && kind_at(tok_views(toks@), p as nat, TokKind::Semi),
        r matches Err(m) ==> !kind_at(tok_views(toks@), p as nat, TokKind::Semi) && m@ == msg_at(tok_views(toks@), p as nat, "expected ';'"@),
{
    if at(toks, p, TokKind::Semi) {
        Ok(p + 1)
    } else {
        Err(error_at(toks, p, "expected ';'"))
    }
}

/// Parses a `while` statement.
fn parse_while(toks: &Vec<Token>, pos: usize, src: &str) -> (r: StmtParse)
    requires
        toks_ok(toks@),
        pos < toks@.len(),
        toks@[pos as int].kind == TokKind::While,
    ensures
        r matches Ok((s, errs, p)) ==> pos < p <= toks@.len() && (errs@.len() == 0 ==> stmt_wf(s)),
        stmt_parse_m(r) == p_stmt(tok_views(toks@), pos as nat, text_lines(src@)),
    decreases toks@.len() - pos, 3nat,
{
    let ghost t = tok_views(toks@);
    assert(t[pos as int].0 == TokKind::While);
    let (cond, err, p) = match parse_expr(toks, pos + 1, src) {
        Ok(x) => x,
        Err(m) => return Err(m),
    };
    let (body, body_errs, p2) = match parse_block(toks, p, src) {
        Ok(x) => x,
        Err(m) => return Err(m),
    };
    let q = skip_semi(toks, p2);
    let wspan = span_between(toks, pos, p2 - 1);
    let sspan = span_between(toks, pos, q - 1);
    match err {
        Some(e) => {
            let (s, errs) = failed(e, sspan, src);
            Ok((s, errs, q))
        },
        None => Ok((Stmt::While { condition: cond, body: Box::new(body), span: wspan }, body_errs, q)),
    }
}

/// Parses an `if` statement.
fn parse_if(toks: &Vec<Token>, pos: usize, src: &str) -> (r: StmtParse)
    requires
        toks_ok(toks@),
        pos < toks@.len(),
        toks@[pos as int].kind == TokKind::If,
    ensures
        r matches Ok((s, errs, p)) ==> pos < p <= toks@.len() && (errs@.len() == 0 ==> stmt_wf(s)),
        stmt_parse_m(r) == p_stmt(tok_views(toks@), pos as nat, text_lines(src@)),
    decreases toks@.len() - pos, 3nat,
{
    let ghost t = tok_views(toks@);
    assert(t[pos as int].0 == TokKind::If);
    let (cond, err, p) = match parse_expr(toks, pos + 1, src) {
        Ok(x) => x,
        Err(m) => return Err(m),
    };
    let (then_block, mut then_errs, p2) = match parse_block(toks, p, src) {
        Ok(x) => x,
        Err(m) => return Err(m),
    };
    let mut end = p2;
    let mut else_block: Option<Box<Stmt>> = None;
    let mut else_errs: Vec<ScriptError> = Vec::new();
    if at(toks, p2, TokKind::Else) {
        match parse_block(toks, p2 + 1, src) {
            Ok((b, e, p3)) => {
                else_block = Some(Box::new(b));
                else_errs = e;
                end = p3;
            },
            Err(m) => return Err(m),
        }
    }
    let q = skip_semi(toks, end);
    let ispan = span_between(toks, pos, end - 1);
    let sspan = span_between(toks, pos, q - 1);
    match err {
        Some(e) => {
            let (s, errs) = failed(e, sspan, src);
            Ok((s, errs, q))
        },
        None => {
            proof {
                lemma_errs_concat(then_errs@, else_errs@);
            }
            then_errs.append(&mut else_errs);
            Ok((Stmt::If { condition: cond, then_block: Box::new(then_block), else_block, span: ispan }, then_errs, q))
        },
    }
}

/// Parses a statement.
fn parse_stmt(toks: &Vec<Token>, pos: usize, src: &str) -> (r: StmtParse)
    requires
        toks_ok(toks@),
        pos < toks@.len(),
    ensures
        r matches Ok((s, errs, p)) ==> pos < p <= toks@.len() && (errs@.len() == 0 ==> stmt_wf(s)),
        stmt_parse_m(r) == p_stmt(tok_views(toks@), pos as nat, text_lines(src@)),
    decreases toks@.len() - pos, 4nat,
{
    let ghost t = tok_views(toks@);
    let ghost lines = text_lines(src@);
    assert(t[pos as int].0 == toks@[pos as int].kind);
    assert(errs_m(Seq::<ScriptError>::empty()) =~= Seq::<ErrorModel>::empty());
    match toks[pos].kind {
        TokKind::Let => {
            if !at(toks, pos + 1, TokKind::Ident) {
                return Err(error_at(toks, pos + 1, "expected a variable name"));
            }
            let name = string_of(toks[pos + 1].text.as_slice());
            if !at(toks, pos + 2, TokKind::Assign) {
                return Err(error_at(toks, pos + 2, "expected '='"));
            }
            match parse_simple(toks, pos, pos + 3, src) {
                Ok((Ok((expr, span)), q)) => Ok((Stmt::Let { name, expr, span }, Vec::new(), q)),
                Ok((Err((s, errs)), q)) => Ok((s, errs, q)),
                Err(m) => Err(m),
            }
        },
        TokKind::Return => {
            if at(toks, pos + 1, TokKind::Semi) {
                let span = span_between(toks, pos, pos + 1);
                return Ok((Stmt::Return { expr: None, span }, Vec::new(), pos + 2));
            }
            match parse_simple(toks, pos, pos + 1, src) {
                Ok((Ok((expr, span)), q)) => Ok((Stmt::Return { expr: Some(expr), span }, Vec::new(), q)),
                Ok((Err((s, errs)), q)) => Ok((s, errs, q)),
                Err(m) => Err(m),
            }
        },
        TokKind::LBrace => {
            match parse_block(toks, pos, src) {
                Ok((s, errs, p)) => Ok((s, errs, skip_semi(toks, p))),
                Err(m) => Err(m),
            }
        },
        TokKind::While => parse_while(toks, pos, src),
        TokKind::If => parse_if(toks, pos, src),
        _ => {
            if toks[pos].kind == TokKind::Ident && at(toks, pos + 1, TokKind::Assign) {
                let name = string_of(toks[pos].text.as_slice());
                match parse_simple(toks, pos, pos + 2, src) {
                    Ok((Ok((expr, span)), q)) => Ok((Stmt::Assign { name, expr, span }, Vec::new(), q)),
                    Ok((Err((s, errs)), q)) => Ok((s, errs, q)),
                    Err(m) => Err(m),
                }
            } else {
                match parse_simple(toks, pos, pos, src) {
                    Ok((Ok((expr, span)), q)) => Ok((Stmt::Expr { expr, span }, Vec::new(), q)),
                    Ok((Err((s, errs)), q)) => Ok((s, errs, q)),
                    Err(m) => Err(m),
                }
            }
        },
    }
}

/// `r` with the statements `xs` (and their errors `es`) in front.
pub open spec fn prepend_program(xs: Seq<StmtM>, es: Seq<ErrorModel>, r: Result<(Seq<StmtM>, Seq<ErrorModel>), Seq<char>>) -> Result<(Seq<StmtM>, Seq<ErrorModel>), Seq<char>> {
    match r {
        Ok((ys, es2)) => Ok((xs + ys, es + es2)),
        Err(m) => Err(m),
    }
}

/// Putting statements in front of a program twice is putting them in front at once.
proof fn lemma_prepend_program_twice(xs: Seq<StmtM>, es: Seq<ErrorModel>, ys: Seq<StmtM>, es2: Seq<ErrorModel>, r: Result<(Seq<StmtM>, Seq<ErrorModel>), Seq<char>>)
    ensures
        prepend_program(xs, es, prepend_program(ys, es2, r)) == prepend_program(xs + ys, es + es2, r),
{
    match r {
        Ok((zs, es3)) => {
            assert(xs + (ys + zs) =~= (xs + ys) + zs);
            assert(es + (es2 + es3) =~= (es + es2) + es3);
        },
        Err(m) => {},
    }
}

/// Parses a whole program: its statements and the errors of numbers that did
/// not fit.
pub fn parse_program(toks: &Vec<Token>, src: &str) -> (r: Result<(Vec<Stmt>, Vec<ScriptError>), String>)
    requires
        toks_ok(toks@),
    ensures
        r matches Ok((stmts, errs)) ==> (errs@.len() == 0 ==> program_wf(stmts@)),
        match r {
            Ok((stmts, errs)) => p_program(tok_views(toks@), 0, text_lines(src@)) == Ok::<_, Seq<char>>((stmts_m(stmts@), errs_m(errs@))),
            Err(m) => p_program(tok_views(toks@), 0, text_lines(src@)) == Err::<(Seq<StmtM>, Seq<ErrorModel>), _>(m@),
        },
{
    let ghost t = tok_views(toks@);
    let ghost lines = text_lines(src@);
    let mut p: usize = 0;
    let mut stmts: Vec<Stmt> = Vec::new();
    let mut errs: Vec<ScriptError> = Vec::new();
    proof {
        assert(stmts_m(stmts@) =~= Seq::<StmtM>::empty());
        assert(errs_m(errs@) =~= Seq::<ErrorModel>::empty());
        match p_program(t, 0, lines) {
            Ok((ys, es)) => {
                assert(Seq::<StmtM>::empty() + ys =~= ys);
                assert(Seq::<ErrorModel>::empty() + es =~= es);
            },
            Err(m) => {},
        }
    }
    while p < toks.len()
        invariant
            toks_ok(toks@),
            t == tok_views(toks@),
            lines == text_lines(src@),
            p <= toks@.len(),
            errs@.len() == 0 ==> forall|j: int| 0 <= j < stmts@.len() ==> stmt_wf(#[trigger] stmts@[j]),
            p_program(t, 0, lines) == prepend_program(stmts_m(stmts@), errs_m(errs@), p_program(t, p as nat, lines)),
        decreases toks@.len() - p,
    {
        match parse_item(toks, p, src) {
            Ok((s, mut e, p2)) => {
                proof {
                    lemma_stmts_push(stmts@, s);
                    lemma_errs_concat(errs@, e@);
                    lemma_prepend_program_twice(stmts_m(stmts@), errs_m(errs@), seq![stmt_m(s)], errs_m(e@), p_program(t, p2 as nat, lines));
                    assert(stmts_m(stmts@) + seq![stmt_m(s)] =~= stmts_m(stmts@).push(stmt_m(s)));
                }
                stmts.push(s);
                errs.append(&mut e);
                p = p2;
            },
            Err(m) => return Err(m),
        }
    }
    proof {
        assert(stmts_m(stmts@) + Seq::<StmtM>::empty() =~= stmts_m(stmts@));
        assert(errs_m(errs@) + Seq::<ErrorModel>::empty() =~= errs_m(errs@));
    }
    Ok((stmts, errs))
}

/// Whether an error can be rendered (see `ast::renderable`).
fn can_render(e: &ScriptError) -> (b: bool)
    ensures
        b == renderable(e@),
{
    let shown = match e.outer_span {
        Some(sp) => sp,
        None => e.span,
    };
    (e.span.start_line == e.span.end_line || e.span.start_col >= 1)
        && (shown.start_line as u64).checked_add(e.snippet_lines.len() as u64).is_some()
}

impl ScriptError {
    /// The error as it is displayed: rendered with its source lines, or its
    /// message alone when its positions cannot be rendered.
    pub fn to_text(&self) -> (s: String)
        ensures
            renderable(self@) ==> s@ == render_error(self@),
            !renderable(self@) ==> s@ == self.message@,
    {
        if can_render(self) {
            self.render()
        } else {
            self.message.clone()
        }
    }
}

/// The displayed errors, separated by blank lines.
fn render_all(errs: &Vec<ScriptError>) -> (s: String)
    ensures
        s@ == join_err_texts(errs_m(errs@)),
{
    let ghost es = errs_m(errs@);
    let mut out = String::new();
    let mut i: usize = 0;
    assert(es.take(0) =~= Seq::<ErrorModel>::empty());
    while i < errs.len()
        invariant
            i <= errs@.len(),
            es == errs_m(errs@),
            out@ == join_err_texts(es.take(i as int)),
        decreases errs@.len() - i,
    {
        if i > 0 {
            out.append("\n\n");
        }
        out.append(errs[i].to_text().as_str());
        proof {
            assert(es.take(i + 1).drop_last() =~= es.take(i as int));
            if i == 0 {
                assert(out@ =~= join_err_texts(es.take(1)));
            }
        }
        i = i + 1;
    }
    assert(es.take(errs@.len() as int) =~= es);
    out
}

impl ScriptAST {
    /// Parses `script`: exactly `script_spec`. A script that does not follow
    /// the grammar gives the message of the first place where it departs
    /// from it; one with numbers that do not fit in `i64` gives all their
    /// errors, displayed and separated by blank lines. An empty script is
    /// accepted as empty. The length bound is a machine limit: positions are
    /// counted in `usize`.
    pub fn new(script: &str) -> (r: Result<ScriptAST, String>)
        requires
            script@.len() < usize::MAX,
        ensures
            match r {
                Ok(ast) => {
                    &&& script_spec(script@) == Ok::<_, Seq<char>>(stmts_m(ast.program.stmts@))
                    &&& ast.script@ == script@
                    &&& ast.empty == (script@.len() == 0)
                    &&& ast.parse_error is None
                    &&& ast.program.errors@.len() == 0
                    &&& program_wf(ast.program.stmts@)
                },
                Err(m) => script_spec(script@) == Err::<Seq<StmtM>, _>(m@),
            },
    {
        let cs = chars_of(script);
        let toks = match lex(&cs) {
            Ok(t) => t,
            Err(m) => return Err(m),
        };
        let (stmts, errs) = match parse_program(&toks, script) {
            Ok(x) => x,
            Err(m) => return Err(m),
        };
        if cs.len() == 0 {
            let ast = ScriptAST {
                program: Program { stmts: Vec::new(), errors: Vec::new() },
                script: String::new(),
                empty: true,
                parse_error: None,
            };
            assert(ast.script@ =~= script@);
            assert(stmts_m(ast.program.stmts@) =~= Seq::<StmtM>::empty());
            return Ok(ast);
        }
        if errs.len() > 0 {
            return Err(render_all(&errs));
        }
        Ok(ScriptAST {
            program: Program { stmts, errors: Vec::new() },
            script: String::from_str(script),
            empty: false,
            parse_error: None,
        })
    }
}

} // verus!
