//! The script language as mathematics: the syntax trees that a script's
//! tokens stand for, and the recursive-descent grammar that the parser is
//! held to (see `script::parser` for the grammar in words).
//!
//! Every parse moves forward within the tokens. The grammar checks this
//! (`forward`) before it goes on after a sub-parse, which makes its
//! recursion visibly finite; the check never fails
//! (`law_parses_move_forward`).

use vstd::prelude::*;
use crate::script::ast::{ErrorModel, Expr, ScriptError, SourceSpan, Stmt, error_at, render_error, renderable, with_outer};
use crate::script::host::strs;
use crate::script::lexer::{TokKind, lex_spec, syntax_msg};
use crate::script::parser::{digits_value, unescape};
use crate::script::value::{BinOp, UnaryOp};
use crate::text::text_lines;

verus! {

/// What a token is to the grammar: its kind, its characters, its span.
pub type TokenView = (TokKind, Seq<char>, SourceSpan);

/// The model of an expression: names and strings as character sequences.
pub enum ExprM {
    Number(i64, SourceSpan),
    Str(Seq<char>, SourceSpan),
    Bool(bool, SourceSpan),
    Var(Seq<char>, SourceSpan),
    Unary(UnaryOp, Box<ExprM>, SourceSpan),
    Binary(Box<ExprM>, BinOp, Box<ExprM>, SourceSpan),
    Call(Seq<char>, Seq<ExprM>, SourceSpan),
}

/// The model of a statement.
pub enum StmtM {
    Let(Seq<char>, ExprM, SourceSpan),
    Assign(Seq<char>, ExprM, SourceSpan),
    Expr(ExprM, SourceSpan),
    Block(Seq<StmtM>, SourceSpan),
    If(ExprM, Box<StmtM>, Option<Box<StmtM>>, SourceSpan),
    While(ExprM, Box<StmtM>, SourceSpan),
    FnDef(Seq<char>, Seq<Seq<char>>, Box<StmtM>, SourceSpan),
    Return(Option<ExprM>, SourceSpan),
    Error(SourceSpan),
}

/// The model of an expression tree.
pub open spec fn expr_m(e: Expr) -> ExprM
    decreases e,
{
    match e {
        Expr::Number { value, span } => ExprM::Number(value, span),
        Expr::Str { value, span } => ExprM::Str(value@, span),
        Expr::Bool { value, span } => ExprM::Bool(value, span),
        Expr::Var { name, span } => ExprM::Var(name@, span),
        Expr::Unary { op, rhs, span } => ExprM::Unary(op, Box::new(expr_m(*rhs)), span),
        Expr::Binary { lhs, op, rhs, span } => ExprM::Binary(Box::new(expr_m(*lhs)), op, Box::new(expr_m(*rhs)), span),
        Expr::Call { name, args, span } => ExprM::Call(name@, exprs_m(args@), span),
    }
}

/// The models of a sequence of expressions.
pub open spec fn exprs_m(s: Seq<Expr>) -> Seq<ExprM>
    decreases s,
{
    if s.len() == 0 {
        Seq::empty()
    } else {
        exprs_m(s.subrange(0, s.len() - 1)).push(expr_m(s[s.len() - 1]))
    }
}

/// The model of a statement tree.
pub open spec fn stmt_m(s: Stmt) -> StmtM
    decreases s,
{
    match s {
        Stmt::Let { name, expr, span } => StmtM::Let(name@, expr_m(expr), span),
        Stmt::Assign { name, expr, span } => StmtM::Assign(name@, expr_m(expr), span),
        Stmt::Expr { expr, span } => StmtM::Expr(expr_m(expr), span),
        Stmt::Block { stmts, span } => StmtM::Block(stmts_m(stmts@), span),
        Stmt::If { condition, then_block, else_block, span } => StmtM::If(
            expr_m(condition),
            Box::new(stmt_m(*then_block)),
            match else_block {
                Some(b) => Some(Box::new(stmt_m(*b))),
                None => None,
            },
            span,
        ),
        Stmt::While { condition, body, span } => StmtM::While(expr_m(condition), Box::new(stmt_m(*body)), span),
        Stmt::FnDef { name, params, body, span } => StmtM::FnDef(name@, strs(params@), Box::new(stmt_m(*body)), span),
        Stmt::Return { expr, span } => StmtM::Return(
            match expr {
                Some(e) => Some(expr_m(e)),
                None => None,
            },
            span,
        ),
        Stmt::Error { span } => StmtM::Error(span),
    }
}

/// The models of a sequence of statements.
pub open spec fn stmts_m(s: Seq<Stmt>) -> Seq<StmtM>
    decreases s,
{
    if s.len() == 0 {
        Seq::empty()
    } else {
        stmts_m(s.subrange(0, s.len() - 1)).push(stmt_m(s[s.len() - 1]))
    }
}

/// The model of an optional error.
pub open spec fn opt_err(e: Option<ScriptError>) -> Option<ErrorModel> {
    match e {
        Some(x) => Some(x@),
        None => None,
    }
}

/// The models of a sequence of errors.
pub open spec fn errs_m(s: Seq<ScriptError>) -> Seq<ErrorModel> {
    s.map_values(|e: ScriptError| e@)
}

/// The first of two optional errors that is there.
pub open spec fn first_err(a: Option<ErrorModel>, b: Option<ErrorModel>) -> Option<ErrorModel> {
    if a is Some { a } else { b }
}

/// A parse from `p` that ended at `q` moved forward within `len` tokens.
pub open spec fn forward(p: nat, q: nat, len: nat) -> bool {
    p < q <= len
}

/// Whether the token at `pos` is of kind `k`.
pub open spec fn kind_at(t: Seq<TokenView>, pos: nat, k: TokKind) -> bool {
    pos < t.len() && t[pos as int].0 == k
}

/// The message for a token that the grammar does not allow at `pos`: at
/// the token, or at the end of the last token when the tokens ran out.
pub open spec fn msg_at(t: Seq<TokenView>, pos: nat, what: Seq<char>) -> Seq<char> {
    if pos < t.len() {
        syntax_msg(t[pos as int].2.start_line as nat, t[pos as int].2.start_col as nat, what)
    } else if t.len() > 0 {
        syntax_msg(t[t.len() - 1].2.end_line as nat, t[t.len() - 1].2.end_col as nat, what)
    } else {
        syntax_msg(1, 1, what)
    }
}

/// The span from the start of token `a` to the end of token `b`.
pub open spec fn span_of(t: Seq<TokenView>, a: nat, b: nat) -> SourceSpan {
    SourceSpan {
        start_line: t[a as int].2.start_line,
        start_col: t[a as int].2.start_col,
        end_line: t[b as int].2.end_line,
        end_col: t[b as int].2.end_col,
    }
}

/// The binary operator of precedence `level` (0 binds tightest, 5 is `||`)
/// that a token of kind `k` spells.
pub open spec fn level_op_spec(level: nat, k: TokKind) -> Option<BinOp> {
    if level == 0 {
        match k {
            TokKind::Star => Some(BinOp::Mul),
            TokKind::Slash => Some(BinOp::Div),
            TokKind::Percent => Some(BinOp::Mod),
            _ => None,
        }
    } else if level == 1 {
        match k {
            TokKind::Plus => Some(BinOp::Add),
            TokKind::Minus => Some(BinOp::Sub),
            _ => None,
        }
    } else if level == 2 {
        match k {
            TokKind::Lt => Some(BinOp::Lt),
            TokKind::Le => Some(BinOp::Le),
            TokKind::Gt => Some(BinOp::Gt),
            TokKind::Ge => Some(BinOp::Ge),
            _ => None,
        }
    } else if level == 3 {
        match k {
            TokKind::EqEq => Some(BinOp::Eq),
            TokKind::Ne => Some(BinOp::Neq),
            _ => None,
        }
    } else if level == 4 {
        match k {
            TokKind::AndAnd => Some(BinOp::And),
            _ => None,
        }
    } else if level == 5 {
        match k {
            TokKind::OrOr => Some(BinOp::Or),
            _ => None,
        }
    } else {
        None
    }
}

/// The prefix operator that a token of kind `k` spells.
pub open spec fn prefix_op(k: TokKind) -> Option<UnaryOp> {
    match k {
        TokKind::Plus => Some(UnaryOp::Plus),
        TokKind::Minus => Some(UnaryOp::Minus),
        TokKind::Bang => Some(UnaryOp::Not),
        _ => None,
    }
}

/// Every character is a decimal digit.
pub open spec fn all_digits_spec(d: Seq<char>) -> bool {
    forall|j: int| 0 <= j < d.len() ==> '0' <= #[trigger] d[j] <= '9'
}

/// `lhs` followed by the operators and operands `items`, associated to the
/// left, every node at `span`.
pub open spec fn fold_chain(lhs: ExprM, items: Seq<(BinOp, ExprM)>, span: SourceSpan) -> ExprM
    decreases items.len(),
{
    if items.len() == 0 {
        lhs
    } else {
        ExprM::Binary(Box::new(fold_chain(lhs, items.drop_last(), span)), items.last().0, Box::new(items.last().1), span)
    }
}

/// An expression parse: the expression, the error of the first number that
/// did not fit, and the position after it; or a syntax error message.
pub type ExprParseM = Result<(ExprM, Option<ErrorModel>, nat), Seq<char>>;

/// A parse of several parts: the parts, the first number error, the
/// position after them; or a syntax error message.
pub type PartsParseM<A> = Result<(Seq<A>, Option<ErrorModel>, nat), Seq<char>>;

/// `r` with the parts `xs` (first number error `e`) in front.
pub open spec fn prepend<A>(xs: Seq<A>, e: Option<ErrorModel>, r: PartsParseM<A>) -> PartsParseM<A> {
    match r {
        Ok((ys, e2, q)) => Ok((xs + ys, first_err(e, e2), q)),
        Err(m) => Err(m),
    }
}

/// `primary = number | "true" | "false" | string | call | ident | "(" expr ")"`
pub open spec fn p_primary(t: Seq<TokenView>, pos: nat, lines: Seq<Seq<char>>) -> ExprParseM
    decreases t.len() - pos, 0nat,
{
    if pos >= t.len() {
        Err(msg_at(t, pos, "expected an expression"@))
    } else {
        let (k, text, span) = t[pos as int];
        match k {
            TokKind::Number => {
                if !all_digits_spec(text) {
                    Err(msg_at(t, pos, "expected a number"@))
                } else if digits_value(text) <= i64::MAX {
                    Ok((ExprM::Number(digits_value(text) as i64, span), None, pos + 1))
                } else {
                    Ok((ExprM::Number(0, span), Some(error_at(span, lines, "number too large to fit in target type"@)), pos + 1))
                }
            },
            TokKind::True => Ok((ExprM::Bool(true, span), None, pos + 1)),
            TokKind::False => Ok((ExprM::Bool(false, span), None, pos + 1)),
            TokKind::Str => Ok((ExprM::Str(unescape(text), span), None, pos + 1)),
            TokKind::Ident => {
                if !kind_at(t, pos + 1, TokKind::LParen) {
                    Ok((ExprM::Var(text, span), None, pos + 1))
                } else if kind_at(t, pos + 2, TokKind::RParen) {
                    Ok((ExprM::Call(text, Seq::empty(), span_of(t, pos, pos + 2)), None, pos + 3))
                } else {
                    match p_args(t, pos + 2, lines) {
                        Err(m) => Err(m),
                        Ok((args, err, p)) => {
                            if !kind_at(t, p, TokKind::RParen) {
                                Err(msg_at(t, p, "expected ',' or ')'"@))
                            } else {
                                Ok((ExprM::Call(text, args, span_of(t, pos, p)), err, p + 1))
                            }
                        },
                    }
                }
            },
            TokKind::LParen => match p_binary(5, t, pos + 1, lines) {
                Err(m) => Err(m),
                Ok((e, err, p)) => {
                    if !kind_at(t, p, TokKind::RParen) {
                        Err(msg_at(t, p, "expected ')'"@))
                    } else {
                        Ok((e, err, p + 1))
                    }
                },
            },
            _ => Err(msg_at(t, pos, "expected an expression"@)),
        }
    }
}

/// The arguments of a call: `expr ("," expr)*`.
pub open spec fn p_args(t: Seq<TokenView>, p: nat, lines: Seq<Seq<char>>) -> PartsParseM<ExprM>
    decreases t.len() - p, 14nat,
{
    match p_binary(5, t, p, lines) {
        Err(m) => Err(m),
        Ok((a, e2, p2)) => {
            if kind_at(t, p2, TokKind::Comma) && p <= p2 {
                prepend(seq![a], e2, p_args(t, p2 + 1, lines))
            } else {
                Ok((seq![a], e2, p2))
            }
        },
    }
}

/// `prefix = ("+" | "-" | "!") prefix | primary`
pub open spec fn p_prefix(t: Seq<TokenView>, pos: nat, lines: Seq<Seq<char>>) -> ExprParseM
    decreases t.len() - pos, 1nat,
{
    if pos >= t.len() {
        Err(msg_at(t, pos, "expected an expression"@))
    } else {
        match prefix_op(t[pos as int].0) {
            None => p_primary(t, pos, lines),
            Some(op) => match p_prefix(t, pos + 1, lines) {
                Err(m) => Err(m),
                Ok((rhs, err, p)) => Ok((ExprM::Unary(op, Box::new(rhs), span_of(t, pos, (p - 1) as nat)), err, p)),
            },
        }
    }
}

/// The operand of an operator of precedence `level`.
pub open spec fn p_operand(level: nat, t: Seq<TokenView>, pos: nat, lines: Seq<Seq<char>>) -> ExprParseM
    decreases t.len() - pos, 2 * level + 2,
{
    if level == 0 {
        p_prefix(t, pos, lines)
    } else {
        p_binary((level - 1) as nat, t, pos, lines)
    }
}

/// The operators of precedence `level` and their operands from `p` on.
pub open spec fn p_chain(level: nat, t: Seq<TokenView>, p: nat, lines: Seq<Seq<char>>) -> PartsParseM<(BinOp, ExprM)>
    decreases t.len() - p, 2 * level + 3,
{
    if p >= t.len() {
        Ok((Seq::empty(), None, p))
    } else {
        match level_op_spec(level, t[p as int].0) {
            None => Ok((Seq::empty(), None, p)),
            Some(op) => match p_operand(level, t, p + 1, lines) {
                Err(m) => Err(m),
                Ok((rhs, e2, p2)) => {
                    if !forward(p, p2, t.len()) {
                        Err(Seq::empty())
                    } else {
                        prepend(seq![(op, rhs)], e2, p_chain(level, t, p2, lines))
                    }
                },
            },
        }
    }
}

/// A chain of binary operators of precedence `level`, associated to the
/// left: `operand (op operand)*`.
pub open spec fn p_binary(level: nat, t: Seq<TokenView>, pos: nat, lines: Seq<Seq<char>>) -> ExprParseM
    decreases t.len() - pos, 2 * level + 3,
{
    match p_operand(level, t, pos, lines) {
        Err(m) => Err(m),
        Ok((lhs, err, p1)) => {
            if !forward(pos, p1, t.len()) {
                Err(Seq::empty())
            } else {
                match p_chain(level, t, p1, lines) {
                    Err(m) => Err(m),
                    Ok((items, e2, p)) => {
                        if items.len() == 0 {
                            Ok((lhs, err, p))
                        } else {
                            Ok((fold_chain(lhs, items, span_of(t, pos, (p - 1) as nat)), first_err(err, e2), p))
                        }
                    },
                }
            }
        },
    }
}

/// A statement parse: the statement, the errors of numbers that did not
/// fit, and the position after it; or a syntax error message.
pub type StmtParseM = Result<(StmtM, Seq<ErrorModel>, nat), Seq<char>>;

/// A parse of several statements.
pub type StmtsParseM = Result<(Seq<StmtM>, Seq<ErrorModel>, nat), Seq<char>>;

/// `r` with the statements `xs` (and their errors `es`) in front.
pub open spec fn prepend_stmts(xs: Seq<StmtM>, es: Seq<ErrorModel>, r: StmtsParseM) -> StmtsParseM {
    match r {
        Ok((ys, es2, q)) => Ok((xs + ys, es + es2, q)),
        Err(m) => Err(m),
    }
}

/// The position after an optional `;` at `p`.
pub open spec fn skip_semi_spec(t: Seq<TokenView>, p: nat) -> nat {
    if kind_at(t, p, TokKind::Semi) { p + 1 } else { p }
}

/// What an expression statement's parse gives before the statement is
/// built: the expression with the statement's span, or, when a number did
/// not fit, the statement in error with its error shown in that span.
pub type SimpleM = Result<(ExprM, SourceSpan), (StmtM, Seq<ErrorModel>)>;

/// An expression from `start`, then `;`, for the statement that starts at
/// `pos`; and the position after the `;`.
pub open spec fn p_simple(t: Seq<TokenView>, pos: nat, start: nat, lines: Seq<Seq<char>>) -> Result<(SimpleM, nat), Seq<char>> {
    match p_binary(5, t, start, lines) {
        Err(m) => Err(m),
        Ok((e, err, p)) => {
            if !kind_at(t, p, TokKind::Semi) {
                Err(msg_at(t, p, "expected ';'"@))
            } else {
                let span = span_of(t, pos, p);
                match err {
                    Some(x) => Ok((Err((StmtM::Error(span), seq![with_outer(x, span, lines)])), p + 1)),
                    None => Ok((Ok((e, span)), p + 1)),
                }
            }
        },
    }
}

/// The statement that `mk` builds from a parse of `p_simple`.
pub open spec fn finish(r: Result<(SimpleM, nat), Seq<char>>, mk: spec_fn(ExprM, SourceSpan) -> StmtM) -> StmtParseM {
    match r {
        Err(m) => Err(m),
        Ok((Ok((e, span)), q)) => Ok((mk(e, span), Seq::empty(), q)),
        Ok((Err((s, es)), q)) => Ok((s, es, q)),
    }
}

/// The parameter names of a function from `p` on: `ident ("," ident)*`,
/// and the position after the last name.
pub open spec fn p_params(t: Seq<TokenView>, p: nat) -> Result<(Seq<Seq<char>>, nat), Seq<char>>
    decreases t.len() - p,
{
    if !kind_at(t, p, TokKind::Ident) {
        Err(msg_at(t, p, "expected a parameter name"@))
    } else if kind_at(t, p + 1, TokKind::Comma) {
        match p_params(t, p + 2) {
            Err(m) => Err(m),
            Ok((ps, q)) => Ok((seq![t[p as int].1] + ps, q)),
        }
    } else {
        Ok((seq![t[p as int].1], p + 1))
    }
}

/// `block = "{" item* "}"`
pub open spec fn p_block(t: Seq<TokenView>, pos: nat, lines: Seq<Seq<char>>) -> StmtParseM
    decreases t.len() - pos, 0nat,
{
    if !kind_at(t, pos, TokKind::LBrace) {
        Err(msg_at(t, pos, "expected '{'"@))
    } else {
        match p_items(t, pos + 1, lines) {
            Err(m) => Err(m),
            Ok((ss, es, p)) => Ok((StmtM::Block(ss, span_of(t, pos, p)), es, p + 1)),
        }
    }
}

/// The items of a block from `p` on, up to its `}`.
pub open spec fn p_items(t: Seq<TokenView>, p: nat, lines: Seq<Seq<char>>) -> StmtsParseM
    decreases t.len() - p, 3nat,
{
    if kind_at(t, p, TokKind::RBrace) {
        Ok((Seq::empty(), Seq::empty(), p))
    } else if p >= t.len() {
        Err(msg_at(t, p, "expected '}'"@))
    } else {
        match p_item(t, p, lines) {
            Err(m) => Err(m),
            Ok((s, es, p2)) => {
                if !forward(p, p2, t.len()) {
                    Err(Seq::empty())
                } else {
                    prepend_stmts(seq![s], es, p_items(t, p2, lines))
                }
            },
        }
    }
}

/// `item = fn_def | stmt`
pub open spec fn p_item(t: Seq<TokenView>, pos: nat, lines: Seq<Seq<char>>) -> StmtParseM
    decreases t.len() - pos, 2nat,
{
    if kind_at(t, pos, TokKind::Fn) {
        p_fn_def(t, pos, lines)
    } else {
        p_stmt(t, pos, lines)
    }
}

/// `fn_def = "fn" ident "(" (ident ("," ident)*)? ")" block`
pub open spec fn p_fn_def(t: Seq<TokenView>, pos: nat, lines: Seq<Seq<char>>) -> StmtParseM
    decreases t.len() - pos, 1nat,
{
    if !kind_at(t, pos + 1, TokKind::Ident) {
        Err(msg_at(t, pos + 1, "expected a function name"@))
    } else if !kind_at(t, pos + 2, TokKind::LParen) {
        Err(msg_at(t, pos + 2, "expected '('"@))
    } else {
        let pr = if kind_at(t, pos + 3, TokKind::RParen) {
            Ok((Seq::empty(), pos + 3))
        } else {
            p_params(t, pos + 3)
        };
        match pr {
            Err(m) => Err(m),
            Ok((params, p)) => {
                if !kind_at(t, p, TokKind::RParen) {
                    Err(msg_at(t, p, "expected ',' or ')'"@))
                } else if !forward(pos, p, t.len()) {
                    Err(Seq::empty())
                } else {
                    match p_block(t, p + 1, lines) {
                        Err(m) => Err(m),
                        Ok((body, es, p2)) => Ok(
                            (StmtM::FnDef(t[pos as int + 1].1, params, Box::new(body), span_of(t, pos, (p2 - 1) as nat)), es, p2),
                        ),
                    }
                }
            },
        }
    }
}

/// `stmt`: a `let`, a `return`, a block, a `while`, an `if`, an assignment
/// or an expression statement (see `script::parser`).
pub open spec fn p_stmt(t: Seq<TokenView>, pos: nat, lines: Seq<Seq<char>>) -> StmtParseM
    decreases t.len() - pos, 1nat,
{
    match t[pos as int].0 {
        TokKind::Let => {
            if !kind_at(t, pos + 1, TokKind::Ident) {
                Err(msg_at(t, pos + 1, "expected a variable name"@))
            } else if !kind_at(t, pos + 2, TokKind::Assign) {
                Err(msg_at(t, pos + 2, "expected '='"@))
            } else {
                let name = t[pos as int + 1].1;
                finish(p_simple(t, pos, pos + 3, lines), |e: ExprM, sp: SourceSpan| StmtM::Let(name, e, sp))
            }
        },
        TokKind::Return => {
            if kind_at(t, pos + 1, TokKind::Semi) {
                Ok((StmtM::Return(None, span_of(t, pos, pos + 1)), Seq::empty(), pos + 2))
            } else {
                finish(p_simple(t, pos, pos + 1, lines), |e: ExprM, sp: SourceSpan| StmtM::Return(Some(e), sp))
            }
        },
        TokKind::LBrace => match p_block(t, pos, lines) {
            Err(m) => Err(m),
            Ok((s, es, p)) => Ok((s, es, skip_semi_spec(t, p))),
        },
        TokKind::While => match p_binary(5, t, pos + 1, lines) {
            Err(m) => Err(m),
            Ok((c, err, p)) => {
                if !forward(pos, p, t.len()) {
                    Err(Seq::empty())
                } else {
                    match p_block(t, p, lines) {
                        Err(m) => Err(m),
                        Ok((body, es, p2)) => {
                            let q = skip_semi_spec(t, p2);
                            let sspan = span_of(t, pos, (q - 1) as nat);
                            match err {
                                Some(x) => Ok((StmtM::Error(sspan), seq![with_outer(x, sspan, lines)], q)),
                                None => Ok((StmtM::While(c, Box::new(body), span_of(t, pos, (p2 - 1) as nat)), es, q)),
                            }
                        },
                    }
                }
            },
        },
        TokKind::If => match p_binary(5, t, pos + 1, lines) {
            Err(m) => Err(m),
            Ok((c, err, p)) => {
                if !forward(pos, p, t.len()) {
                    Err(Seq::empty())
                } else {
                    match p_block(t, p, lines) {
                        Err(m) => Err(m),
                        Ok((th, es1, p2)) => {
                            if !forward(pos, p2, t.len()) {
                                Err(Seq::empty())
                            } else {
                                let er = if kind_at(t, p2, TokKind::Else) {
                                    match p_block(t, p2 + 1, lines) {
                                        Err(m) => Err(m),
                                        Ok((b, es2, p3)) => Ok((Some(Box::new(b)), es2, p3)),
                                    }
                                } else {
                                    Ok((None, Seq::empty(), p2))
                                };
                                match er {
                                    Err(m) => Err(m),
                                    Ok((eb, es2, end)) => {
                                        let q = skip_semi_spec(t, end);
                                        let sspan = span_of(t, pos, (q - 1) as nat);
                                        match err {
                                            Some(x) => Ok((StmtM::Error(sspan), seq![with_outer(x, sspan, lines)], q)),
                                            None => Ok((StmtM::If(c, Box::new(th), eb, span_of(t, pos, (end - 1) as nat)), es1 + es2, q)),
                                        }
                                    },
                                }
                            }
                        },
                    }
                }
            },
        },
        _ => {
            if t[pos as int].0 == TokKind::Ident && kind_at(t, pos + 1, TokKind::Assign) {
                let name = t[pos as int].1;
                finish(p_simple(t, pos, pos + 2, lines), |e: ExprM, sp: SourceSpan| StmtM::Assign(name, e, sp))
            } else {
                finish(p_simple(t, pos, pos, lines), |e: ExprM, sp: SourceSpan| StmtM::Expr(e, sp))
            }
        },
    }
}

/// A whole program from `p` on: `program = item*`, with the errors of
/// numbers that did not fit.
pub open spec fn p_program(t: Seq<TokenView>, p: nat, lines: Seq<Seq<char>>) -> Result<(Seq<StmtM>, Seq<ErrorModel>), Seq<char>>
    decreases t.len() - p,
{
    if p >= t.len() {
        Ok((Seq::empty(), Seq::empty()))
    } else {
        match p_item(t, p, lines) {
            Err(m) => Err(m),
            Ok((s, es, p2)) => {
                if !forward(p, p2, t.len()) {
                    Err(Seq::empty())
                } else {
                    match p_program(t, p2, lines) {
                        Err(m) => Err(m),
                        Ok((ss, es2)) => Ok((seq![s] + ss, es + es2)),
                    }
                }
            },
        }
    }
}

/// How an error is displayed: rendered with its source lines, or its
/// message alone when its positions cannot be rendered.
pub open spec fn err_text(e: ErrorModel) -> Seq<char> {
    if renderable(e) { render_error(e) } else { e.message }
}

/// The displayed errors, separated by blank lines.
pub open spec fn join_err_texts(es: Seq<ErrorModel>) -> Seq<char>
    decreases es.len(),
{
    if es.len() == 0 {
        Seq::empty()
    } else if es.len() == 1 {
        err_text(es[0])
    } else {
        join_err_texts(es.drop_last()) + "\n\n"@ + err_text(es.last())
    }
}

/// What a script parses to: its statements; or the message of its first
/// lexical or syntax error; or, when numbers in it do not fit in `i64`,
/// all their errors, displayed and separated by blank lines. An empty
/// script has no statements.
pub open spec fn script_spec(src: Seq<char>) -> Result<Seq<StmtM>, Seq<char>> {
    match lex_spec(src) {
        Err(m) => Err(m),
        Ok(t) => match p_program(t, 0, text_lines(src)) {
            Err(m) => Err(m),
            Ok((ss, es)) => {
                if src.len() == 0 {
                    Ok(Seq::empty())
                } else if es.len() > 0 {
                    Err(join_err_texts(es))
                } else {
                    Ok(ss)
                }
            },
        },
    }
}

proof fn fwd_primary(t: Seq<TokenView>, pos: nat, lines: Seq<Seq<char>>)
    ensures
        p_primary(t, pos, lines) matches Ok((_, _, p)) ==> pos < p <= t.len(),
    decreases t.len() - pos, 0nat,
{
    if pos < t.len() {
        let k = t[pos as int].0;
        if k == TokKind::Ident && kind_at(t, pos + 1, TokKind::LParen) && !kind_at(t, pos + 2, TokKind::RParen) {
            fwd_args(t, pos + 2, lines);
        }
        if k == TokKind::LParen {
            fwd_binary(5, t, pos + 1, lines);
        }
    }
}

proof fn fwd_args(t: Seq<TokenView>, p: nat, lines: Seq<Seq<char>>)
    ensures
        p_args(t, p, lines) matches Ok((_, _, q)) ==> p < q <= t.len(),
    decreases t.len() - p, 14nat,
{
    fwd_binary(5, t, p, lines);
    if let Ok((a, e2, p2)) = p_binary(5, t, p, lines) {
        if kind_at(t, p2, TokKind::Comma) && p <= p2 {
            fwd_args(t, p2 + 1, lines);
        }
    }
}

proof fn fwd_prefix(t: Seq<TokenView>, pos: nat, lines: Seq<Seq<char>>)
    ensures
        p_prefix(t, pos, lines) matches Ok((_, _, p)) ==> pos < p <= t.len(),
    decreases t.len() - pos, 1nat,
{
    if pos < t.len() {
        fwd_primary(t, pos, lines);
        fwd_prefix(t, pos + 1, lines);
    }
}

proof fn fwd_operand(level: nat, t: Seq<TokenView>, pos: nat, lines: Seq<Seq<char>>)
    ensures
        p_operand(level, t, pos, lines) matches Ok((_, _, p)) ==> pos < p <= t.len(),
    decreases t.len() - pos, 2 * level + 2,
{
    if level == 0 {
        fwd_prefix(t, pos, lines);
    } else {
        fwd_binary((level - 1) as nat, t, pos, lines);
    }
}

proof fn fwd_chain(level: nat, t: Seq<TokenView>, p: nat, lines: Seq<Seq<char>>)
    requires
        p <= t.len(),
    ensures
        p_chain(level, t, p, lines) matches Ok((_, _, q)) ==> p <= q <= t.len(),
    decreases t.len() - p, 2 * level + 3,
{
    if p < t.len() {
        if let Some(op) = level_op_spec(level, t[p as int].0) {
            fwd_operand(level, t, p + 1, lines);
            if let Ok((rhs, e2, p2)) = p_operand(level, t, p + 1, lines) {
                if forward(p, p2, t.len()) {
                    fwd_chain(level, t, p2, lines);
                }
            }
        }
    }
}

proof fn fwd_binary(level: nat, t: Seq<TokenView>, pos: nat, lines: Seq<Seq<char>>)
    ensures
        p_binary(level, t, pos, lines) matches Ok((_, _, p)) ==> pos < p <= t.len(),
    decreases t.len() - pos, 2 * level + 3,
{
    fwd_operand(level, t, pos, lines);
    if let Ok((lhs, err, p1)) = p_operand(level, t, pos, lines) {
        if forward(pos, p1, t.len()) {
            fwd_chain(level, t, p1, lines);
        }
    }
}

proof fn fwd_params(t: Seq<TokenView>, p: nat)
    ensures
        p_params(t, p) matches Ok((_, q)) ==> p < q <= t.len(),
    decreases t.len() - p,
{
    if kind_at(t, p, TokKind::Ident) && kind_at(t, p + 1, TokKind::Comma) {
        fwd_params(t, p + 2);
    }
}

proof fn fwd_simple(t: Seq<TokenView>, pos: nat, start: nat, lines: Seq<Seq<char>>)
    requires
        pos <= start,
    ensures
        p_simple(t, pos, start, lines) matches Ok((_, q)) ==> pos < q <= t.len(),
{
    fwd_binary(5, t, start, lines);
}

proof fn fwd_block(t: Seq<TokenView>, pos: nat, lines: Seq<Seq<char>>)
    ensures
        p_block(t, pos, lines) matches Ok((_, _, p)) ==> pos < p <= t.len(),
    decreases t.len() - pos, 0nat,
{
    if kind_at(t, pos, TokKind::LBrace) {
        fwd_items(t, pos + 1, lines);
    }
}

proof fn fwd_items(t: Seq<TokenView>, p: nat, lines: Seq<Seq<char>>)
    requires
        p <= t.len(),
    ensures
        p_items(t, p, lines) matches Ok((_, _, q)) ==> p <= q < t.len() && kind_at(t, q, TokKind::RBrace),
    decreases t.len() - p, 3nat,
{
    if !kind_at(t, p, TokKind::RBrace) && p < t.len() {
        fwd_item(t, p, lines);
        if let Ok((s, es, p2)) = p_item(t, p, lines) {
            if forward(p, p2, t.len()) {
                fwd_items(t, p2, lines);
            }
        }
    }
}

proof fn fwd_item(t: Seq<TokenView>, pos: nat, lines: Seq<Seq<char>>)
    requires
        pos < t.len(),
    ensures
        p_item(t, pos, lines) matches Ok((_, _, p)) ==> pos < p <= t.len(),
    decreases t.len() - pos, 2nat,
{
    fwd_fn_def(t, pos, lines);
    fwd_stmt(t, pos, lines);
}

proof fn fwd_fn_def(t: Seq<TokenView>, pos: nat, lines: Seq<Seq<char>>)
    requires
        pos < t.len(),
    ensures
        p_fn_def(t, pos, lines) matches Ok((_, _, p)) ==> pos < p <= t.len(),
    decreases t.len() - pos, 1nat,
{
    fwd_params(t, pos + 3);
    let pr = if kind_at(t, pos + 3, TokKind::RParen) {
        Ok::<(Seq<Seq<char>>, nat), Seq<char>>((Seq::empty(), pos + 3))
    } else {
        p_params(t, pos + 3)
    };
    if let Ok((params, p)) = pr {
        if kind_at(t, p, TokKind::RParen) && forward(pos, p, t.len()) {
            fwd_block(t, p + 1, lines);
        }
    }
}

proof fn fwd_stmt(t: Seq<TokenView>, pos: nat, lines: Seq<Seq<char>>)
    requires
        pos < t.len(),
    ensures
        p_stmt(t, pos, lines) matches Ok((_, _, p)) ==> pos < p <= t.len(),
    decreases t.len() - pos, 1nat,
{
    fwd_simple(t, pos, pos, lines);
    fwd_simple(t, pos, pos + 1, lines);
    fwd_simple(t, pos, pos + 2, lines);
    fwd_simple(t, pos, pos + 3, lines);
    fwd_block(t, pos, lines);
    fwd_binary(5, t, pos + 1, lines);
    if let Ok((c, err, p)) = p_binary(5, t, pos + 1, lines) {
        if forward(pos, p, t.len()) {
            fwd_block(t, p, lines);
            if let Ok((b, es, p2)) = p_block(t, p, lines) {
                if forward(pos, p2, t.len()) && kind_at(t, p2, TokKind::Else) {
                    fwd_block(t, p2 + 1, lines);
                }
            }
        }
    }
}

/// Every parse that succeeds moves forward and stays within the tokens: an
/// expression from any position, and an item (a function definition or a
/// statement) from a position inside the tokens. So the grammar's `forward`
/// checks never fail.
pub proof fn law_parses_move_forward(t: Seq<TokenView>, pos: nat, lines: Seq<Seq<char>>)
    ensures
        p_binary(5, t, pos, lines) matches Ok((_, _, p)) ==> pos < p <= t.len(),
        pos < t.len() ==> (p_item(t, pos, lines) matches Ok((_, _, p)) ==> pos < p <= t.len()),
{
    fwd_binary(5, t, pos, lines);
    if pos < t.len() {
        fwd_item(t, pos, lines);
    }
}

} // verus!
