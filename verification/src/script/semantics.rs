//! The meaning of a script: how expressions and statements evaluate, what
//! they do to variables, user functions and the shared state, and which
//! error stops a run.

use vstd::prelude::*;
use crate::script::ast::{Expr, ErrorModel, SourceSpan, Stmt, error_at, with_outer};
use crate::script::builtins::{builtin_model, builtin_named};
use crate::script::host::{HostModel, strs};
use crate::script::value::{ValueModel, binop_result, truthy, unop_result};
use crate::text::{dec_nat, text_lines};

verus! {

/// Variables in scope (innermost last), the user functions defined so far
/// (each by its definition), and the shared state.
pub struct EvalState {
    pub scopes: Seq<Map<Seq<char>, ValueModel>>,
    pub funcs: Map<Seq<char>, Stmt>,
    pub host: HostModel,
}

/// How many user-function calls may still nest under a run with `d` scopes.
pub open spec fn depth_measure(d: nat) -> nat {
    if d <= 65 { (65 - d) as nat } else { 0 }
}

/// The most deeply nested binding of `name`.
pub open spec fn lookup(scopes: Seq<Map<Seq<char>, ValueModel>>, name: Seq<char>) -> Option<ValueModel>
    decreases scopes.len(),
{
    if scopes.len() == 0 {
        None
    } else if scopes.last().dom().contains(name) {
        Some(scopes.last()[name])
    } else {
        lookup(scopes.drop_last(), name)
    }
}

/// Binds `name` in the innermost scope.
pub open spec fn declare(scopes: Seq<Map<Seq<char>, ValueModel>>, name: Seq<char>, v: ValueModel) -> Seq<Map<Seq<char>, ValueModel>> {
    if scopes.len() == 0 {
        scopes
    } else {
        scopes.update(scopes.len() - 1, scopes.last().insert(name, v))
    }
}

/// Rebinds the most deeply nested `name`; `None` when no scope binds it.
pub open spec fn assign(scopes: Seq<Map<Seq<char>, ValueModel>>, name: Seq<char>, v: ValueModel) -> Option<Seq<Map<Seq<char>, ValueModel>>>
    decreases scopes.len(),
{
    if scopes.len() == 0 {
        None
    } else if scopes.last().dom().contains(name) {
        Some(scopes.update(scopes.len() - 1, scopes.last().insert(name, v)))
    } else {
        match assign(scopes.drop_last(), name, v) {
            Some(s) => Some(s.push(scopes.last())),
            None => None,
        }
    }
}

/// The scope of a call: each parameter bound to its argument (a later
/// parameter of the same name wins).
pub open spec fn bind_params(params: Seq<Seq<char>>, args: Seq<ValueModel>) -> Map<Seq<char>, ValueModel>
    decreases params.len(),
{
    if params.len() == 0 || args.len() == 0 || params.len() != args.len() {
        Map::empty()
    } else {
        bind_params(params.drop_last(), args.drop_last()).insert(params.last(), args.last())
    }
}

/// The message for a call with the wrong number of arguments.
pub open spec fn arity_msg(name: Seq<char>, expected: nat, got: nat) -> Seq<char> {
    "Function '"@ + name + "' expects "@ + dec_nat(expected) + " arguments, but got "@ + dec_nat(got)
}

/// Evaluates expression `e` of source `src` with `d` scopes active.
pub open spec fn sem_expr(src: Seq<char>, e: Expr, st: EvalState, d: nat) -> (Result<ValueModel, ErrorModel>, EvalState)
    decreases depth_measure(d), 0nat, e, 0nat,
{
    let lines = text_lines(src);
    match e {
        Expr::Number { value, .. } => (Ok(ValueModel::Int(value)), st),
        Expr::Str { value, .. } => (Ok(ValueModel::Str(value@)), st),
        Expr::Bool { value, .. } => (Ok(ValueModel::Bool(value)), st),
        Expr::Var { name, span } => match lookup(st.scopes, name@) {
            Some(v) => (Ok(v), st),
            None => (Err(error_at(span, lines, "Variable '"@ + name@ + "' not defined"@)), st),
        },
        Expr::Unary { op, rhs, span } => {
            let (r, st1) = sem_expr(src, *rhs, st, d);
            match r {
                Err(x) => (Err(x), st1),
                Ok(v) => match unop_result(op, v) {
                    Ok(w) => (Ok(w), st1),
                    Err(m) => (Err(error_at(span, lines, m)), st1),
                },
            }
        },
        Expr::Binary { lhs, op, rhs, span } => {
            let (r1, st1) = sem_expr(src, *lhs, st, d);
            match r1 {
                Err(x) => (Err(x), st1),
                Ok(a) => {
                    let (r2, st2) = sem_expr(src, *rhs, st1, d);
                    match r2 {
                        Err(x) => (Err(x), st2),
                        Ok(b) => match binop_result(op, a, b) {
                            Ok(w) => (Ok(w), st2),
                            Err(m) => (Err(error_at(span, lines, m)), st2),
                        },
                    }
                },
            }
        },
        Expr::Call { name, args, span } => {
            let (r, st1) = sem_args(src, args@, 0, Seq::empty(), st, d);
            match r {
                Err(x) => (Err(x), st1),
                Ok(vs) => match builtin_named(name@) {
                    Some(b) => {
                        let (br, h1) = builtin_model(b, vs, st1.host);
                        let st2 = EvalState { host: h1, ..st1 };
                        match br {
                            Ok(v) => (Ok(v), st2),
                            Err(m) => (Err(with_outer(error_at(span, lines, m), span, lines)), st2),
                        }
                    },
                    None => {
                        if !st1.funcs.dom().contains(name@) {
                            (Err(error_at(span, lines, "Function '"@ + name@ + "' not defined"@)), st1)
                        } else if d > 64 {
                            (Err(error_at(span, lines, "Recursion depth limit exceeded (max 64)"@)), st1)
                        } else {
                            match st1.funcs[name@] {
                                Stmt::FnDef { params, body, .. } => {
                                    if vs.len() != params@.len() {
                                        (Err(error_at(span, lines, arity_msg(name@, params@.len(), vs.len()))), st1)
                                    } else {
                                        let local = bind_params(strs(params@), vs);
                                        let (br, st2) = sem_stmt(src, *body, EvalState { scopes: st1.scopes.push(local), ..st1 }, d + 1);
                                        let st3 = EvalState { scopes: st2.scopes.drop_last(), ..st2 };
                                        match br {
                                            Ok(Some(v)) => (Ok(v), st3),
                                            Ok(None) => (Ok(ValueModel::Int(0)), st3),
                                            Err(x) => (Err(x), st3),
                                        }
                                    }
                                },
                                _ => (Ok(ValueModel::Int(0)), st1),
                            }
                        }
                    },
                },
            }
        },
    }
}

/// Evaluates `args[i..]` in order after the values `acc` of `args[..i]`.
pub open spec fn sem_args(src: Seq<char>, args: Seq<Expr>, i: nat, acc: Seq<ValueModel>, st: EvalState, d: nat) -> (Result<Seq<ValueModel>, ErrorModel>, EvalState)
    decreases depth_measure(d), 0nat, args, args.len() - i,
{
    if i >= args.len() {
        (Ok(acc), st)
    } else {
        let (r, st1) = sem_expr(src, args[i as int], st, d);
        match r {
            Err(x) => (Err(x), st1),
            Ok(v) => sem_args(src, args, i + 1, acc.push(v), st1, d),
        }
    }
}

/// Executes statement `s`: `Some(v)` when a `return` gave `v`.
pub open spec fn sem_stmt(src: Seq<char>, s: Stmt, st: EvalState, d: nat) -> (Result<Option<ValueModel>, ErrorModel>, EvalState)
    decreases depth_measure(d), 1nat, s, 100002nat,
{
    let lines = text_lines(src);
    match s {
        Stmt::Let { name, expr, span } => {
            let (r, st1) = sem_expr(src, expr, st, d);
            match r {
                Err(x) => (Err(with_outer(x, span, lines)), st1),
                Ok(v) => (Ok(None), EvalState { scopes: declare(st1.scopes, name@, v), ..st1 }),
            }
        },
        Stmt::Assign { name, expr, span } => {
            let (r, st1) = sem_expr(src, expr, st, d);
            match r {
                Err(x) => (Err(with_outer(x, span, lines)), st1),
                Ok(v) => match assign(st1.scopes, name@, v) {
                    Some(sc) => (Ok(None), EvalState { scopes: sc, ..st1 }),
                    None => (Err(error_at(span, lines, "Variable '"@ + name@ + "' not defined"@)), st1),
                },
            }
        },
        Stmt::Expr { expr, span } => {
            let (r, st1) = sem_expr(src, expr, st, d);
            match r {
                Err(x) => (Err(with_outer(x, span, lines)), st1),
                Ok(_) => (Ok(None), st1),
            }
        },
        Stmt::Block { stmts, .. } => sem_block(src, stmts@, 0, st, d),
        Stmt::If { condition, then_block, else_block, span } => {
            let (r, st1) = sem_expr(src, condition, st, d);
            match r {
                Err(x) => (Err(with_outer(x, span, lines)), st1),
                Ok(c) => {
                    if truthy(c) {
                        sem_stmt(src, *then_block, st1, d)
                    } else {
                        match else_block {
                            Some(b) => sem_stmt(src, *b, st1, d),
                            None => (Ok(None), st1),
                        }
                    }
                },
            }
        },
        Stmt::While { .. } => sem_while(src, s, 0, st, d),
        Stmt::FnDef { name, .. } => (Ok(None), EvalState { funcs: st.funcs.insert(name@, s), ..st }),
        Stmt::Return { expr, span } => match expr {
            None => (Ok(Some(ValueModel::Int(0))), st),
            Some(e) => {
                let (r, st1) = sem_expr(src, e, st, d);
                match r {
                    Err(x) => (Err(with_outer(x, span, lines)), st1),
                    Ok(v) => (Ok(Some(v)), st1),
                }
            },
        },
        Stmt::Error { .. } => (Ok(None), st),
    }
}

/// Executes `stmts[i..]` in order, stopping at a `return` or an error.
pub open spec fn sem_block(src: Seq<char>, stmts: Seq<Stmt>, i: nat, st: EvalState, d: nat) -> (Result<Option<ValueModel>, ErrorModel>, EvalState)
    decreases depth_measure(d), 1nat, stmts, stmts.len() - i,
{
    if i >= stmts.len() {
        (Ok(None), st)
    } else {
        let (r, st1) = sem_stmt(src, stmts[i as int], st, d);
        match r {
            Err(x) => (Err(x), st1),
            Ok(Some(v)) => (Ok(Some(v)), st1),
            Ok(None) => sem_block(src, stmts, i + 1, st1, d),
        }
    }
}

/// Runs `while` statement `w` after `iter` completed iterations: at most
/// 100000 iterations are allowed.
pub open spec fn sem_while(src: Seq<char>, w: Stmt, iter: nat, st: EvalState, d: nat) -> (Result<Option<ValueModel>, ErrorModel>, EvalState)
    decreases depth_measure(d), 1nat, w, (if iter <= 100001 { (100001 - iter) as nat } else { 0nat }),
{
    let lines = text_lines(src);
    match w {
        Stmt::While { condition, body, span } => {
            let (r, st1) = sem_expr(src, condition, st, d);
            match r {
                Err(x) => (Err(with_outer(x, span, lines)), st1),
                Ok(c) => {
                    if !truthy(c) {
                        (Ok(None), st1)
                    } else if iter + 1 > 100000 {
                        (Err(error_at(span, lines, "Loop limit exceeded (100k iterations)"@)), st1)
                    } else {
                        let (br, st2) = sem_stmt(src, *body, st1, d);
                        match br {
                            Err(x) => (Err(x), st2),
                            Ok(Some(v)) => (Ok(Some(v)), st2),
                            Ok(None) => sem_while(src, w, iter + 1, st2, d),
                        }
                    }
                },
            }
        },
        _ => (Ok(None), st),
    }
}

/// Runs the top-level statements `stmts[i..]`: a top-level `return` does
/// not stop the run; an error does.
pub open spec fn sem_top(src: Seq<char>, stmts: Seq<Stmt>, i: nat, st: EvalState) -> (Result<(), ErrorModel>, EvalState)
    decreases stmts.len() - i,
{
    if i >= stmts.len() {
        (Ok(()), st)
    } else {
        let (r, st1) = sem_stmt(src, stmts[i as int], st, 1);
        match r {
            Err(x) => (Err(x), st1),
            Ok(_) => sem_top(src, stmts, i + 1, st1),
        }
    }
}

/// The variables every run starts with.
pub open spec fn initial_scope(w: i64, h: i64, cx: i64, cy: i64) -> Map<Seq<char>, ValueModel> {
    Map::<Seq<char>, ValueModel>::empty()
        .insert("ORIGINAL_W"@, ValueModel::Int(w))
        .insert("ORIGINAL_H"@, ValueModel::Int(h))
        .insert("CURSOR_X"@, ValueModel::Int(cx))
        .insert("CURSOR_Y"@, ValueModel::Int(cy))
}

/// The outcome of running a script and the shared state after it: an empty
/// script does nothing; otherwise the print count restarts, the run starts
/// with one scope holding the four screen variables and no user functions,
/// and the first error stops it.
pub open spec fn run_model(empty: bool, src: Seq<char>, stmts: Seq<Stmt>, w: i64, h: i64, cx: i64, cy: i64, host: HostModel) -> (Result<(), ErrorModel>, HostModel) {
    if empty {
        (Ok(()), host)
    } else {
        let st = EvalState {
            scopes: seq![initial_scope(w, h, cx, cy)],
            funcs: Map::empty(),
            host: HostModel { prints: 0, ..host },
        };
        let (r, st1) = sem_top(src, stmts, 0, st);
        (r, st1.host)
    }
}

/// Every top-level statement is well formed.
pub open spec fn program_wf(stmts: Seq<Stmt>) -> bool {
    forall|i: int| 0 <= i < stmts.len() ==> stmt_wf(#[trigger] stmts[i])
}

/// A span that an error can point at.
pub open spec fn span_ok(sp: SourceSpan) -> bool {
    sp.start_line >= 1 && sp.end_line + 1 >= sp.start_line
}

/// An expression whose spans all can be pointed at.
pub open spec fn expr_wf(e: Expr) -> bool
    decreases e,
{
    match e {
        Expr::Number { span, .. } => span_ok(span),
        Expr::Str { span, .. } => span_ok(span),
        Expr::Bool { span, .. } => span_ok(span),
        Expr::Var { span, .. } => span_ok(span),
        Expr::Unary { rhs, span, .. } => span_ok(span) && expr_wf(*rhs),
        Expr::Binary { lhs, rhs, span, .. } => span_ok(span) && expr_wf(*lhs) && expr_wf(*rhs),
        Expr::Call { args, span, .. } => span_ok(span) && forall|i: int| 0 <= i < args@.len() ==> expr_wf(#[trigger] args@[i]),
    }
}

/// A statement with well-formed parts and no placeholder for a parse error.
pub open spec fn stmt_wf(s: Stmt) -> bool
    decreases s,
{
    match s {
        Stmt::Let { expr, span, .. } => span_ok(span) && expr_wf(expr),
        Stmt::Assign { expr, span, .. } => span_ok(span) && expr_wf(expr),
        Stmt::Expr { expr, span } => span_ok(span) && expr_wf(expr),
        Stmt::Block { stmts, .. } => forall|i: int| 0 <= i < stmts@.len() ==> stmt_wf(#[trigger] stmts@[i]),
        Stmt::If { condition, then_block, else_block, span } => span_ok(span) && expr_wf(condition) && stmt_wf(*then_block)
            && match else_block {
                Some(b) => stmt_wf(*b),
                None => true,
            },
        Stmt::While { condition, body, span } => span_ok(span) && expr_wf(condition) && stmt_wf(*body),
        Stmt::FnDef { body, span, .. } => span_ok(span) && stmt_wf(*body),
        Stmt::Return { expr, span } => span_ok(span) && match expr {
            Some(e) => expr_wf(e),
            None => true,
        },
        Stmt::Error { .. } => false,
    }
}

/// Every stored user function is a well-formed definition.
pub open spec fn funcs_wf(f: Map<Seq<char>, Stmt>) -> bool {
    forall|k: Seq<char>| f.dom().contains(k) ==> (#[trigger] f[k] is FnDef) && stmt_wf(f[k])
}

} // verus!
