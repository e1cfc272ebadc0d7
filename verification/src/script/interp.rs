//! The interpreter: a parsed script and the evaluation of its statements,
//! proved to follow the semantics of `script::semantics`.

use vstd::prelude::*;
use crate::assoc::AssocList;
use crate::script::ast::{ErrorModel, Expr, Program, ScriptError, Stmt};
use crate::script::builtins::{call_builtin, lookup_builtin};
use crate::script::host::{HostModel, ScriptHost, join3, strs, vals};
use crate::script::semantics::{
    EvalState, arity_msg, assign, bind_params, declare, depth_measure, expr_wf, funcs_wf,
    initial_scope, lookup, program_wf, run_model, sem_args, sem_block, sem_expr, sem_stmt, sem_top,
    sem_while, stmt_wf,
};
use crate::script::value::{Value, ValueModel, apply_binop, apply_unop, is_truthy};
use crate::text::u64_to_string;

verus! {

/// The variables of one scope.
pub open spec fn scope_view(a: AssocList<Value>) -> Map<Seq<char>, ValueModel> {
    a.map().map_values(|v: Value| v@)
}

/// The variables of each scope, innermost last.
pub open spec fn scopes_view(s: Seq<AssocList<Value>>) -> Seq<Map<Seq<char>, ValueModel>> {
    s.map_values(|a: AssocList<Value>| scope_view(a))
}

/// The user functions by name.
pub open spec fn funcs_view<'a>(f: AssocList<&'a Stmt>) -> Map<Seq<char>, Stmt> {
    f.map().map_values(|s: &'a Stmt| *s)
}

/// Every scope is a well-formed association list.
pub open spec fn scopes_ok(s: Seq<AssocList<Value>>) -> bool {
    forall|i: int| 0 <= i < s.len() ==> (#[trigger] s[i]).wf()
}

/// The evaluation state that the interpreter's data stands for.
pub open spec fn state_of<'a>(s: Seq<AssocList<Value>>, f: AssocList<&'a Stmt>, h: HostModel) -> EvalState {
    EvalState { scopes: scopes_view(s), funcs: funcs_view(f), host: h }
}

/// The interpreter's data is well formed.
pub open spec fn env_ok<'a>(s: Seq<AssocList<Value>>, f: AssocList<&'a Stmt>, h: ScriptHost) -> bool {
    scopes_ok(s) && f.wf() && funcs_wf(funcs_view(f)) && h.wf()
}

/// An executable expression result agrees with its model.
pub open spec fn value_outcome(r: Result<Value, ScriptError>, m: Result<ValueModel, ErrorModel>) -> bool {
    match (r, m) {
        (Ok(v), Ok(w)) => v@ == w,
        (Err(e), Err(f)) => e@ == f,
        _ => false,
    }
}

/// An executable statement result agrees with its model.
pub open spec fn stmt_outcome(r: Result<Option<Value>, ScriptError>, m: Result<Option<ValueModel>, ErrorModel>) -> bool {
    match (r, m) {
        (Ok(None), Ok(None)) => true,
        (Ok(Some(v)), Ok(Some(w))) => v@ == w,
        (Err(e), Err(f)) => e@ == f,
        _ => false,
    }
}

proof fn lemma_lookup_at(s: Seq<Map<Seq<char>, ValueModel>>, name: Seq<char>, j: int)
    requires
        0 <= j < s.len(),
        s[j].dom().contains(name),
        forall|k: int| j < k < s.len() ==> !(#[trigger] s[k]).dom().contains(name),
    ensures
        lookup(s, name) == Some(s[j][name]),
    decreases s.len(),
{
    if j < s.len() - 1 {
        assert(!s[s.len() - 1].dom().contains(name));
        lemma_lookup_at(s.drop_last(), name, j);
    }
}

proof fn lemma_lookup_none(s: Seq<Map<Seq<char>, ValueModel>>, name: Seq<char>)
    requires
        forall|k: int| 0 <= k < s.len() ==> !(#[trigger] s[k]).dom().contains(name),
    ensures
        lookup(s, name) is None,
    decreases s.len(),
{
    if s.len() > 0 {
        assert(!s[s.len() - 1].dom().contains(name));
        lemma_lookup_none(s.drop_last(), name);
    }
}

proof fn lemma_assign_at(s: Seq<Map<Seq<char>, ValueModel>>, name: Seq<char>, v: ValueModel, j: int)
    requires
        0 <= j < s.len(),
        s[j].dom().contains(name),
        forall|k: int| j < k < s.len() ==> !(#[trigger] s[k]).dom().contains(name),
    ensures
        assign(s, name, v) == Some(s.update(j, s[j].insert(name, v))),
    decreases s.len(),
{
    if j < s.len() - 1 {
        assert(!s[s.len() - 1].dom().contains(name));
        lemma_assign_at(s.drop_last(), name, v, j);
        assert(s.drop_last().update(j, s[j].insert(name, v)).push(s.last()) =~= s.update(j, s[j].insert(name, v)));
    }
}

proof fn lemma_assign_none(s: Seq<Map<Seq<char>, ValueModel>>, name: Seq<char>, v: ValueModel)
    requires
        forall|k: int| 0 <= k < s.len() ==> !(#[trigger] s[k]).dom().contains(name),
    ensures
        assign(s, name, v) is None,
    decreases s.len(),
{
    if s.len() > 0 {
        assert(!s[s.len() - 1].dom().contains(name));
        lemma_assign_none(s.drop_last(), name, v);
    }
}

/// The innermost scope that binds `name`.
fn find_scope(scopes: &Vec<AssocList<Value>>, name: &String) -> (r: Option<usize>)
    requires
        scopes_ok(scopes@),
    ensures
        r matches Some(j) ==> j < scopes@.len() && scopes_view(scopes@)[j as int].dom().contains(name@)
            && forall|k: int| j < k < scopes@.len() ==> !(#[trigger] scopes_view(scopes@)[k]).dom().contains(name@),
        r is None ==> forall|k: int| 0 <= k < scopes@.len() ==> !(#[trigger] scopes_view(scopes@)[k]).dom().contains(name@),
{
    let ghost sv = scopes_view(scopes@);
    let mut i = scopes.len();
    while i > 0
        invariant
            i <= scopes@.len(),
            sv == scopes_view(scopes@),
            scopes_ok(scopes@),
            forall|k: int| i <= k < scopes@.len() ==> !(#[trigger] sv[k]).dom().contains(name@),
        decreases i,
    {
        assert(scopes@[i - 1].wf());
        if scopes[i - 1].contains(name) {
            assert(sv[i - 1].dom() =~= scopes@[i - 1].map().dom());
            return Some(i - 1);
        }
        assert(sv[i - 1].dom() =~= scopes@[i - 1].map().dom());
        i = i - 1;
    }
    None
}

/// The value of the most deeply nested binding of `name`.
fn lookup_var(scopes: &Vec<AssocList<Value>>, name: &String) -> (r: Option<Value>)
    requires
        scopes_ok(scopes@),
    ensures
        match (r, lookup(scopes_view(scopes@), name@)) {
            (Some(v), Some(w)) => v@ == w,
            (None, None) => true,
            _ => false,
        },
{
    match find_scope(scopes, name) {
        Some(j) => {
            proof {
                lemma_lookup_at(scopes_view(scopes@), name@, j as int);
            }
            assert(scopes@[j as int].wf());
            match scopes[j].get(name) {
                Some(v) => Some(v.duplicate()),
                None => None,
            }
        },
        None => {
            proof {
                lemma_lookup_none(scopes_view(scopes@), name@);
            }
            None
        },
    }
}

/// Binds `name` to `v` in the innermost scope.
fn declare_var(scopes: &mut Vec<AssocList<Value>>, name: String, v: Value)
    requires
        scopes_ok(old(scopes)@),
    ensures
        scopes_ok(final(scopes)@),
        final(scopes)@.len() == old(scopes)@.len(),
        scopes_view(final(scopes)@) == declare(scopes_view(old(scopes)@), name@, v@),
{
    let n = scopes.len();
    if n == 0 {
        return;
    }
    let ghost s0 = scopes@;
    let ghost k = name@;
    let ghost vm = v@;
    assert(s0[n - 1].wf());
    scopes[n - 1].insert(name, v);
    proof {
        assert(scope_view(scopes@[n - 1]) =~= scope_view(s0[n - 1]).insert(k, vm));
        assert(scopes_view(scopes@) =~= declare(scopes_view(s0), k, vm));
        assert forall|i: int| 0 <= i < scopes@.len() implies (#[trigger] scopes@[i]).wf() by {
            if i != n - 1 {
                assert(scopes@[i] == s0[i]);
            }
        }
    }
}

/// Rebinds the most deeply nested `name`; `false` when no scope binds it.
fn assign_var(scopes: &mut Vec<AssocList<Value>>, name: &String, v: Value) -> (b: bool)
    requires
        scopes_ok(old(scopes)@),
    ensures
        scopes_ok(final(scopes)@),
        final(scopes)@.len() == old(scopes)@.len(),
        match assign(scopes_view(old(scopes)@), name@, v@) {
            Some(sc) => b && scopes_view(final(scopes)@) == sc,
            None => !b && final(scopes)@ == old(scopes)@,
        },
{
    let ghost s0 = scopes@;
    let ghost vm = v@;
    match find_scope(scopes, name) {
        None => {
            proof {
                lemma_assign_none(scopes_view(s0), name@, vm);
            }
            false
        },
        Some(j) => {
            proof {
                lemma_assign_at(scopes_view(s0), name@, vm, j as int);
            }
            assert(s0[j as int].wf());
            scopes[j].insert(name.clone(), v);
            proof {
                assert(scope_view(scopes@[j as int]) =~= scope_view(s0[j as int]).insert(name@, vm));
                assert(scopes_view(scopes@) =~= scopes_view(s0).update(j as int, scopes_view(s0)[j as int].insert(name@, vm)));
                assert forall|i: int| 0 <= i < scopes@.len() implies (#[trigger] scopes@[i]).wf() by {
                    if i != j {
                        assert(scopes@[i] == s0[i]);
                    }
                }
            }
            true
        },
    }
}

/// The scope of a call: parameters bound to argument values.
fn bind_args(params: &Vec<String>, args: &Vec<Value>) -> (a: AssocList<Value>)
    requires
        params@.len() == args@.len(),
    ensures
        a.wf(),
        scope_view(a) == bind_params(strs(params@), vals(args@)),
{
    let ghost ps = strs(params@);
    let ghost vs = vals(args@);
    let mut a: AssocList<Value> = AssocList::new();
    let mut i: usize = 0;
    assert(scope_view(a) =~= bind_params(ps.take(0), vs.take(0)));
    while i < params.len()
        invariant
            i <= params@.len(),
            params@.len() == args@.len(),
            ps == strs(params@),
            vs == vals(args@),
            a.wf(),
            scope_view(a) == bind_params(ps.take(i as int), vs.take(i as int)),
        decreases params@.len() - i,
    {
        let ghost before = scope_view(a);
        let ghost k = params@[i as int]@;
        let ghost vm = args@[i as int]@;
        a.insert(params[i].clone(), args[i].duplicate());
        proof {
            let p2 = ps.take(i + 1);
            let a2 = vs.take(i + 1);
            assert(p2.drop_last() =~= ps.take(i as int));
            assert(a2.drop_last() =~= vs.take(i as int));
            assert(scope_view(a) =~= before.insert(k, vm));
        }
        i = i + 1;
    }
    assert(ps.take(params@.len() as int) =~= ps);
    assert(vs.take(args@.len() as int) =~= vs);
    a
}

/// A parsed script, ready to run.
#[derive(Debug)]
pub struct ScriptAST {
    pub program: Program,
    pub script: String,
    pub empty: bool,
    pub parse_error: Option<String>,
}

impl Default for ScriptAST {
    /// A script with no statements, not marked empty, with no parse error.
    fn default() -> (r: ScriptAST)
        ensures
            r.program.stmts@.len() == 0,
            r.program.errors@.len() == 0,
            r.script@.len() == 0,
            !r.empty,
            r.parse_error is None,
    {
        ScriptAST {
            program: Program { stmts: Vec::new(), errors: Vec::new() },
            script: String::new(),
            empty: false,
            parse_error: None,
        }
    }
}

impl ScriptAST {
    /// Evaluates an expression.
    pub fn eval_expr<'a>(
        &'a self,
        expr: &'a Expr,
        scopes: &mut Vec<AssocList<Value>>,
        user_funcs: &mut AssocList<&'a Stmt>,
        host: &mut ScriptHost,
    ) -> (r: Result<Value, ScriptError>)
        requires
            expr_wf(*expr),
            env_ok(old(scopes)@, *old(user_funcs), *old(host)),
        ensures
            env_ok(final(scopes)@, *final(user_funcs), *final(host)),
            final(scopes)@.len() == old(scopes)@.len(),
            value_outcome(r, sem_expr(self.script@, *expr, state_of(old(scopes)@, *old(user_funcs), old(host)@), old(scopes)@.len() as nat).0),
            state_of(final(scopes)@, *final(user_funcs), final(host)@)
                == sem_expr(self.script@, *expr, state_of(old(scopes)@, *old(user_funcs), old(host)@), old(scopes)@.len() as nat).1,
        decreases depth_measure(old(scopes)@.len() as nat), 0nat, expr, 1nat,
    {
        match expr {
            Expr::Number { value, .. } => Ok(Value::Int(*value)),
            Expr::Str { value, .. } => Ok(Value::Str(value.clone())),
            Expr::Bool { value, .. } => Ok(Value::Bool(*value)),
            Expr::Var { name, span } => match lookup_var(scopes, name) {
                Some(v) => Ok(v),
                None => Err(ScriptError::from_span(*span, self.script.as_str(), join3("Variable '", name.as_str(), "' not defined"))),
            },
            Expr::Unary { op, rhs, span } => {
                let v = match self.eval_expr(&**rhs, scopes, user_funcs, host) {
                    Ok(v) => v,
                    Err(e) => return Err(e),
                };
                match apply_unop(*op, &v) {
                    Ok(w) => Ok(w),
                    Err(m) => Err(ScriptError::from_span(*span, self.script.as_str(), m)),
                }
            },
            Expr::Binary { lhs, op, rhs, span } => {
                let a = match self.eval_expr(&**lhs, scopes, user_funcs, host) {
                    Ok(v) => v,
                    Err(e) => return Err(e),
                };
                let b = match self.eval_expr(&**rhs, scopes, user_funcs, host) {
                    Ok(v) => v,
                    Err(e) => return Err(e),
                };
                match apply_binop(*op, &a, &b) {
                    Ok(w) => Ok(w),
                    Err(m) => Err(ScriptError::from_span(*span, self.script.as_str(), m)),
                }
            },
            Expr::Call { .. } => self.eval_call(expr, scopes, user_funcs, host),
        }
    }

    /// Evaluates a call: arguments first, then a built-in function or a
    /// user function of that name.
    fn eval_call<'a>(
        &'a self,
        expr: &'a Expr,
        scopes: &mut Vec<AssocList<Value>>,
        user_funcs: &mut AssocList<&'a Stmt>,
        host: &mut ScriptHost,
    ) -> (r: Result<Value, ScriptError>)
        requires
            expr is Call,
            expr_wf(*expr),
            env_ok(old(scopes)@, *old(user_funcs), *old(host)),
        ensures
            env_ok(final(scopes)@, *final(user_funcs), *final(host)),
            final(scopes)@.len() == old(scopes)@.len(),
            value_outcome(r, sem_expr(self.script@, *expr, state_of(old(scopes)@, *old(user_funcs), old(host)@), old(scopes)@.len() as nat).0),
            state_of(final(scopes)@, *final(user_funcs), final(host)@)
                == sem_expr(self.script@, *expr, state_of(old(scopes)@, *old(user_funcs), old(host)@), old(scopes)@.len() as nat).1,
        decreases depth_measure(old(scopes)@.len() as nat), 0nat, expr, 0nat,
    {
        let ghost src = self.script@;
        let ghost st0 = state_of(scopes@, *user_funcs, host@);
        let ghost d = scopes@.len() as nat;
        let (name, args, span) = match expr {
            Expr::Call { name, args, span } => (name, args, span),
            _ => return Ok(Value::Int(0)),
        };
        let mut vs: Vec<Value> = Vec::new();
        let mut i: usize = 0;
        assert(vals(vs@) =~= Seq::<ValueModel>::empty());
        while i < args.len()
            invariant
                i <= args@.len(),
                env_ok(scopes@, *user_funcs, *host),
                scopes@.len() == d,
                d == old(scopes)@.len(),
                src == self.script@,
                st0 == state_of(old(scopes)@, *old(user_funcs), old(host)@),
                vs@.len() == i,
                *expr == (Expr::Call { name: *name, args: *args, span: *span }),
                forall|j: int| 0 <= j < args@.len() ==> expr_wf(#[trigger] args@[j]),
                sem_args(src, args@, 0, Seq::empty(), st0, d)
                    == sem_args(src, args@, i as nat, vals(vs@), state_of(scopes@, *user_funcs, host@), d),
            decreases args@.len() - i,
        {
            proof {
                assert(decreases_to!(*expr => expr->Call_args));
                assert(decreases_to!(*args => args@));
                assert(decreases_to!(args@ => args@[i as int]));
            }
            let ghost cur = state_of(scopes@, *user_funcs, host@);
            match self.eval_expr(&args[i], scopes, user_funcs, host) {
                Ok(v) => {
                    let ghost before = vs@;
                    vs.push(v);
                    assert(vals(vs@) =~= vals(before).push(vs@[i as int]@));
                },
                Err(e) => {
                    return Err(e);
                },
            }
            i = i + 1;
        }
        let ghost st1 = state_of(scopes@, *user_funcs, host@);
        assert(sem_args(src, args@, 0, Seq::empty(), st0, d) == (Ok::<Seq<ValueModel>, ErrorModel>(vals(vs@)), st1));
        match lookup_builtin(name) {
            Some(b) => {
                let res = call_builtin(b, &vs, host);
                assert(state_of(scopes@, *user_funcs, host@) =~= EvalState { host: host@, ..st1 });
                match res {
                    Ok(v) => Ok(v),
                    Err(m) => {
                        let e = ScriptError::from_span(*span, self.script.as_str(), m);
                        Err(e.with_outer_span(*span, self.script.as_str()))
                    },
                }
            },
            None => {
                let f: &'a Stmt = match user_funcs.get(name) {
                    Some(f) => *f,
                    None => {
                        return Err(ScriptError::from_span(*span, self.script.as_str(), join3("Function '", name.as_str(), "' not defined")));
                    },
                };
                assert(st1.funcs.dom().contains(name@) && st1.funcs[name@] == *f);
                if scopes.len() > 64 {
                    return Err(ScriptError::from_span(*span, self.script.as_str(), String::from_str("Recursion depth limit exceeded (max 64)")));
                }
                match f {
                    Stmt::FnDef { params, body, .. } => {
                        if vs.len() != params.len() {
                            let mut m = join3("Function '", name.as_str(), "' expects ");
                            m.append(u64_to_string(params.len() as u64).as_str());
                            m.append(" arguments, but got ");
                            m.append(u64_to_string(vs.len() as u64).as_str());
                            assert(m@ == arity_msg(name@, params@.len(), vals(vs@).len()));
                            return Err(ScriptError::from_span(*span, self.script.as_str(), m));
                        }
                        let local = bind_args(params, &vs);
                        let ghost sv0 = scopes@;
                        scopes.push(local);
                        assert(scopes_view(scopes@) =~= scopes_view(sv0).push(scope_view(local)));
                        assert(state_of(scopes@, *user_funcs, host@) =~= EvalState { scopes: st1.scopes.push(bind_params(strs(params@), vals(vs@))), ..st1 });
                        let res = self.eval_stmt(&**body, scopes, user_funcs, host);
                        let ghost sv2 = scopes@;
                        scopes.pop();
                        assert(scopes_view(scopes@) =~= scopes_view(sv2).drop_last());
                        assert(scopes_ok(scopes@));
                        match res {
                            Ok(Some(v)) => Ok(v),
                            Ok(None) => Ok(Value::Int(0)),
                            Err(e) => Err(e),
                        }
                    },
                    _ => Ok(Value::Int(0)),
                }
            },
        }
    }

    /// Executes a statement: `Some(v)` when a `return` gave `v`.
    pub fn eval_stmt<'a>(
        &'a self,
        stmt: &'a Stmt,
        scopes: &mut Vec<AssocList<Value>>,
        user_funcs: &mut AssocList<&'a Stmt>,
        host: &mut ScriptHost,
    ) -> (r: Result<Option<Value>, ScriptError>)
        requires
            stmt_wf(*stmt),
            env_ok(old(scopes)@, *old(user_funcs), *old(host)),
        ensures
            env_ok(final(scopes)@, *final(user_funcs), *final(host)),
            final(scopes)@.len() == old(scopes)@.len(),
            stmt_outcome(r, sem_stmt(self.script@, *stmt, state_of(old(scopes)@, *old(user_funcs), old(host)@), old(scopes)@.len() as nat).0),
            state_of(final(scopes)@, *final(user_funcs), final(host)@)
                == sem_stmt(self.script@, *stmt, state_of(old(scopes)@, *old(user_funcs), old(host)@), old(scopes)@.len() as nat).1,
        decreases depth_measure(old(scopes)@.len() as nat), 1nat, stmt, 3nat,
    {
        match stmt {
            Stmt::Let { name, expr, span } => {
                match self.eval_expr(expr, scopes, user_funcs, host) {
                    Err(e) => Err(e.with_outer_span(*span, self.script.as_str())),
                    Ok(v) => {
                        declare_var(scopes, name.clone(), v);
                        Ok(None)
                    },
                }
            },
            Stmt::Assign { name, expr, span } => {
                match self.eval_expr(expr, scopes, user_funcs, host) {
                    Err(e) => Err(e.with_outer_span(*span, self.script.as_str())),
                    Ok(v) => {
                        if assign_var(scopes, name, v) {
                            Ok(None)
                        } else {
                            Err(ScriptError::from_span(*span, self.script.as_str(), join3("Variable '", name.as_str(), "' not defined")))
                        }
                    },
                }
            },
            Stmt::Expr { expr, span } => {
                match self.eval_expr(expr, scopes, user_funcs, host) {
                    Err(e) => Err(e.with_outer_span(*span, self.script.as_str())),
                    Ok(_) => Ok(None),
                }
            },
            Stmt::Block { .. } => self.eval_block(stmt, scopes, user_funcs, host),
            Stmt::If { condition, then_block, else_block, span } => {
                let c = match self.eval_expr(condition, scopes, user_funcs, host) {
                    Ok(c) => c,
                    Err(e) => return Err(e.with_outer_span(*span, self.script.as_str())),
                };
                if is_truthy(&c) {
                    self.eval_stmt(&**then_block, scopes, user_funcs, host)
                } else {
                    match else_block {
                        Some(b) => self.eval_stmt(&**b, scopes, user_funcs, host),
                        None => Ok(None),
                    }
                }
            },
            Stmt::While { .. } => self.eval_while(stmt, scopes, user_funcs, host),
            Stmt::FnDef { name, .. } => {
                let ghost f0 = *user_funcs;
                user_funcs.insert(name.clone(), stmt);
                assert(funcs_view(*user_funcs) =~= funcs_view(f0).insert(name@, *stmt));
                Ok(None)
            },
            Stmt::Return { expr, span } => match expr {
                None => Ok(Some(Value::Int(0))),
                Some(e) => match self.eval_expr(e, scopes, user_funcs, host) {
                    Ok(v) => Ok(Some(v)),
                    Err(x) => Err(x.with_outer_span(*span, self.script.as_str())),
                },
            },
            Stmt::Error { .. } => Ok(None),
        }
    }

    /// Executes the statements of a block in order.
    fn eval_block<'a>(
        &'a self,
        stmt: &'a Stmt,
        scopes: &mut Vec<AssocList<Value>>,
        user_funcs: &mut AssocList<&'a Stmt>,
        host: &mut ScriptHost,
    ) -> (r: Result<Option<Value>, ScriptError>)
        requires
            stmt is Block,
            stmt_wf(*stmt),
            env_ok(old(scopes)@, *old(user_funcs), *old(host)),
        ensures
            env_ok(final(scopes)@, *final(user_funcs), *final(host)),
            final(scopes)@.len() == old(scopes)@.len(),
            stmt_outcome(r, sem_stmt(self.script@, *stmt, state_of(old(scopes)@, *old(user_funcs), old(host)@), old(scopes)@.len() as nat).0),
            state_of(final(scopes)@, *final(user_funcs), final(host)@)
                == sem_stmt(self.script@, *stmt, state_of(old(scopes)@, *old(user_funcs), old(host)@), old(scopes)@.len() as nat).1,
        decreases depth_measure(old(scopes)@.len() as nat), 1nat, stmt, 2nat,
    {
        let ghost src = self.script@;
        let ghost st0 = state_of(scopes@, *user_funcs, host@);
        let ghost d = scopes@.len() as nat;
        let (stmts, bspan) = match stmt {
            Stmt::Block { stmts, span } => (stmts, span),
            _ => return Ok(None),
        };
        let mut i: usize = 0;
        while i < stmts.len()
            invariant
                i <= stmts@.len(),
                env_ok(scopes@, *user_funcs, *host),
                scopes@.len() == d,
                d == old(scopes)@.len(),
                src == self.script@,
                st0 == state_of(old(scopes)@, *old(user_funcs), old(host)@),
                *stmt == (Stmt::Block { stmts: *stmts, span: *bspan }),
                forall|j: int| 0 <= j < stmts@.len() ==> stmt_wf(#[trigger] stmts@[j]),
                sem_block(src, stmts@, 0, st0, d) == sem_block(src, stmts@, i as nat, state_of(scopes@, *user_funcs, host@), d),
            decreases stmts@.len() - i,
        {
            proof {
                assert(decreases_to!(*stmt => stmt->Block_stmts));
                assert(decreases_to!(*stmts => stmts@));
                assert(decreases_to!(stmts@ => stmts@[i as int]));
            }
            match self.eval_stmt(&stmts[i], scopes, user_funcs, host) {
                Err(e) => return Err(e),
                Ok(Some(v)) => return Ok(Some(v)),
                Ok(None) => {},
            }
            i = i + 1;
        }
        Ok(None)
    }

    /// Runs a `while` statement: at most 100000 iterations.
    fn eval_while<'a>(
        &'a self,
        stmt: &'a Stmt,
        scopes: &mut Vec<AssocList<Value>>,
        user_funcs: &mut AssocList<&'a Stmt>,
        host: &mut ScriptHost,
    ) -> (r: Result<Option<Value>, ScriptError>)
        requires
            stmt is While,
            stmt_wf(*stmt),
            env_ok(old(scopes)@, *old(user_funcs), *old(host)),
        ensures
            env_ok(final(scopes)@, *final(user_funcs), *final(host)),
            final(scopes)@.len() == old(scopes)@.len(),
            stmt_outcome(r, sem_stmt(self.script@, *stmt, state_of(old(scopes)@, *old(user_funcs), old(host)@), old(scopes)@.len() as nat).0),
            state_of(final(scopes)@, *final(user_funcs), final(host)@)
                == sem_stmt(self.script@, *stmt, state_of(old(scopes)@, *old(user_funcs), old(host)@), old(scopes)@.len() as nat).1,
        decreases depth_measure(old(scopes)@.len() as nat), 1nat, stmt, 2nat,
    {
        let ghost src = self.script@;
        let ghost st0 = state_of(scopes@, *user_funcs, host@);
        let ghost d = scopes@.len() as nat;
        let (condition, body, span) = match stmt {
            Stmt::While { condition, body, span } => (condition, body, span),
            _ => return Ok(None),
        };
        let mut iter: u64 = 0;
        loop
            invariant
                iter <= 100000,
                env_ok(scopes@, *user_funcs, *host),
                scopes@.len() == d,
                d == old(scopes)@.len(),
                src == self.script@,
                st0 == state_of(old(scopes)@, *old(user_funcs), old(host)@),
                stmt_wf(*stmt),
                *stmt == (Stmt::While { condition: *condition, body: *body, span: *span }),
                sem_while(src, *stmt, 0, st0, d) == sem_while(src, *stmt, iter as nat, state_of(scopes@, *user_funcs, host@), d),
            decreases 100000 - iter,
        {
            let c = match self.eval_expr(condition, scopes, user_funcs, host) {
                Ok(c) => c,
                Err(e) => return Err(e.with_outer_span(*span, self.script.as_str())),
            };
            if !is_truthy(&c) {
                return Ok(None);
            }
            if iter + 1 > 100000 {
                return Err(ScriptError::from_span(*span, self.script.as_str(), String::from_str("Loop limit exceeded (100k iterations)")));
            }
            iter = iter + 1;
            match self.eval_stmt(&**body, scopes, user_funcs, host) {
                Err(e) => return Err(e),
                Ok(Some(v)) => return Ok(Some(v)),
                Ok(None) => {},
            }
        }
    }

    /// Runs the script against the shared state: `original_w`/`original_h`
    /// are the original screen size and `cursor_x`/`cursor_y` the cursor
    /// position on it, visible to the script as `ORIGINAL_W`, `ORIGINAL_H`,
    /// `CURSOR_X` and `CURSOR_Y`.
    pub fn eval_script(
        &self,
        host: &mut ScriptHost,
        original_w: i64,
        original_h: i64,
        cursor_x: i64,
        cursor_y: i64,
    ) -> (r: Result<(), ScriptError>)
        requires
            old(host).wf(),
            self.empty || program_wf(self.program.stmts@),
        ensures
            final(host).wf(),
            ({
                let (m, h) = run_model(self.empty, self.script@, self.program.stmts@, original_w, original_h, cursor_x, cursor_y, old(host)@);
                &&& final(host)@ == h
                &&& match (r, m) {
                    (Ok(()), Ok(())) => true,
                    (Err(e), Err(f)) => e@ == f,
                    _ => false,
                }
            }),
    {
        if self.empty {
            return Ok(());
        }
        let ghost h0 = host@;
        host.print_count = 0;
        let mut scope: AssocList<Value> = AssocList::new();
        scope.insert(String::from_str("ORIGINAL_W"), Value::Int(original_w));
        scope.insert(String::from_str("ORIGINAL_H"), Value::Int(original_h));
        scope.insert(String::from_str("CURSOR_X"), Value::Int(cursor_x));
        scope.insert(String::from_str("CURSOR_Y"), Value::Int(cursor_y));
        assert(scope_view(scope) =~= initial_scope(original_w, original_h, cursor_x, cursor_y));
        let mut scopes: Vec<AssocList<Value>> = Vec::new();
        scopes.push(scope);
        let mut user_funcs: AssocList<&Stmt> = AssocList::new();
        let ghost src = self.script@;
        let ghost stmts = self.program.stmts@;
        let ghost st0 = EvalState {
            scopes: seq![initial_scope(original_w, original_h, cursor_x, cursor_y)],
            funcs: Map::empty(),
            host: HostModel { prints: 0, ..h0 },
        };
        assert(scopes_view(scopes@) =~= seq![initial_scope(original_w, original_h, cursor_x, cursor_y)]);
        assert(funcs_view(user_funcs) =~= Map::<Seq<char>, Stmt>::empty());
        assert(host@ =~= HostModel { prints: 0, ..h0 });
        assert(state_of(scopes@, user_funcs, host@) =~= st0);
        let mut i: usize = 0;
        while i < self.program.stmts.len()
            invariant
                i <= stmts.len(),
                src == self.script@,
                stmts == self.program.stmts@,
                !self.empty,
                h0 == old(host)@,
                st0 == (EvalState {
                    scopes: seq![initial_scope(original_w, original_h, cursor_x, cursor_y)],
                    funcs: Map::empty(),
                    host: HostModel { prints: 0, ..h0 },
                }),
                program_wf(stmts),
                env_ok(scopes@, user_funcs, *host),
                scopes@.len() == 1,
                sem_top(src, stmts, 0, st0) == sem_top(src, stmts, i as nat, state_of(scopes@, user_funcs, host@)),
            decreases stmts.len() - i,
        {
            match self.eval_stmt(&self.program.stmts[i], &mut scopes, &mut user_funcs, host) {
                Err(e) => return Err(e),
                Ok(_) => {},
            }
            i = i + 1;
        }
        Ok(())
    }
}

} // verus!
