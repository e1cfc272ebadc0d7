//! Properties of the script language that relate several operations.

use vstd::prelude::*;
use crate::script::builtins::{builtin_model, toggle_on, Builtin};
use crate::script::grammar::level_op_spec;
use crate::script::lexer::{TokKind, operator_spec};
use crate::script::host::{HostModel, name_known, start_repeat_model, stop_repeat_model};
use crate::script::semantics::{assign, declare, lookup};
use crate::script::value::{BinOp, UnaryOp, ValueModel, binop_result, comparable, int_of, is_numeric, seq_lt, trunc_div, trunc_rem, truthy, unop_result};
use vstd::arithmetic::div_mod::lemma_fundamental_div_mod;

verus! {

/// `!=` is the negation of `==`, on any two values, and neither fails.
pub proof fn law_neq_negates_eq(l: ValueModel, r: ValueModel)
    ensures
        binop_result(BinOp::Eq, l, r) matches Ok(ValueModel::Bool(a)) && binop_result(BinOp::Neq, l, r) matches Ok(ValueModel::Bool(b)) && a == !b,
{
}

/// `a < b` is `b > a`, and `a <= b` is `b >= a`, for any two values (both
/// fail together on values that cannot be compared).
pub proof fn law_comparison_mirrors(l: ValueModel, r: ValueModel)
    ensures
        comparable(l, r) ==> binop_result(BinOp::Lt, l, r) == binop_result(BinOp::Gt, r, l),
        comparable(l, r) ==> binop_result(BinOp::Le, l, r) == binop_result(BinOp::Ge, r, l),
        !comparable(l, r) ==> binop_result(BinOp::Lt, l, r) is Err && binop_result(BinOp::Gt, r, l) is Err,
{
}

/// `&&`, `||` and `!` never fail, and follow truthiness.
pub proof fn law_logic_follows_truthiness(l: ValueModel, r: ValueModel)
    ensures
        binop_result(BinOp::And, l, r) == Ok::<ValueModel, Seq<char>>(ValueModel::Bool(truthy(l) && truthy(r))),
        binop_result(BinOp::Or, l, r) == Ok::<ValueModel, Seq<char>>(ValueModel::Bool(truthy(l) || truthy(r))),
        unop_result(UnaryOp::Not, l) == Ok::<ValueModel, Seq<char>>(ValueModel::Bool(!truthy(l))),
{
}

/// Toggling the same id twice leaves it as it was (as far as `get_toggle`
/// sees), when both toggles succeed.
pub proof fn law_toggle_twice(id: i64, h: HostModel)
    ensures
        ({
            let args = seq![ValueModel::Int(id)];
            let (r1, h1) = builtin_model(Builtin::Toggle, args, h);
            let (r2, h2) = builtin_model(Builtin::Toggle, args, h1);
            r1 is Ok ==> r2 is Ok && toggle_on(h2, id) == toggle_on(h, id)
                && r1 == Ok::<ValueModel, Seq<char>>(ValueModel::Bool(!toggle_on(h, id)))
                && r2 == Ok::<ValueModel, Seq<char>>(ValueModel::Bool(toggle_on(h, id)))
        }),
{
}

/// `get_toggle` gives what `set_toggle` stored.
pub proof fn law_set_then_get_toggle(id: i64, v: bool, h: HostModel)
    ensures
        ({
            let (r1, h1) = builtin_model(Builtin::SetToggle, seq![ValueModel::Int(id), ValueModel::Bool(v)], h);
            let (r2, h2) = builtin_model(Builtin::GetToggle, seq![ValueModel::Int(id)], h1);
            r1 is Ok ==> r2 == Ok::<ValueModel, Seq<char>>(ValueModel::Bool(v)) && h2 == h1
        }),
{
}

/// `get_var` gives what `set_var` stored, and `has_var` sees it.
pub proof fn law_set_then_get_var(name: Seq<char>, v: ValueModel, h: HostModel)
    ensures
        ({
            let (r1, h1) = builtin_model(Builtin::SetVar, seq![ValueModel::Str(name), v], h);
            let (r2, _) = builtin_model(Builtin::GetVar, seq![ValueModel::Str(name)], h1);
            let (r3, _) = builtin_model(Builtin::HasVar, seq![ValueModel::Str(name)], h1);
            r1 is Ok ==> r2 == Ok::<ValueModel, Seq<char>>(v) && r3 == Ok::<ValueModel, Seq<char>>(ValueModel::Bool(true))
        }),
{
}

/// Once deleted, a variable is gone: `has_var` is false and `get_var` gives 0.
pub proof fn law_del_var(name: Seq<char>, h: HostModel)
    ensures
        ({
            let (_, h1) = builtin_model(Builtin::DelVar, seq![ValueModel::Str(name)], h);
            let (r2, _) = builtin_model(Builtin::HasVar, seq![ValueModel::Str(name)], h1);
            let (r3, _) = builtin_model(Builtin::GetVar, seq![ValueModel::Str(name)], h1);
            r2 == Ok::<ValueModel, Seq<char>>(ValueModel::Bool(false)) && r3 == Ok::<ValueModel, Seq<char>>(ValueModel::Int(0))
        }),
{
}

/// A started repeat runs until it is stopped; stopping twice is stopping once.
pub proof fn law_repeat_start_stop(key: Seq<char>, interval: u64, h: HostModel)
    ensures
        ({
            let (r, h1) = start_repeat_model(key, interval, h);
            let h2 = stop_repeat_model(key, h1);
            r is Ok ==> h1.repeats.dom().contains(key) && h1.repeats[key] == interval
                && !h2.repeats.dom().contains(key) && stop_repeat_model(key, h2) == h2
        }),
{
}

/// A repeat cannot start on a key name the device does not know, and the
/// attempt changes nothing.
pub proof fn law_repeat_unknown_key(key: Seq<char>, interval: u64, h: HostModel)
    requires
        !name_known(h.keys, key),
    ensures
        start_repeat_model(key, interval, h).0 is Err && start_repeat_model(key, interval, h).1 == h,
{
}

/// A variable reads back what `let` bound, and an assignment to it replaces
/// the value in the scope that binds it.
pub proof fn law_let_then_read(scopes: Seq<Map<Seq<char>, ValueModel>>, name: Seq<char>, v: ValueModel, w: ValueModel)
    requires
        scopes.len() > 0,
    ensures
        lookup(declare(scopes, name, v), name) == Some(v),
        assign(declare(scopes, name, v), name, w) matches Some(s) && lookup(s, name) == Some(w),
{
    let d = declare(scopes, name, v);
    assert(d.last() == scopes.last().insert(name, v));
    let s = d.update(d.len() - 1, d.last().insert(name, w));
    assert(s.last() == d.last().insert(name, w));
}

/// No string comes before itself.
proof fn lemma_str_lt_irreflexive(a: Seq<char>)
    ensures
        !seq_lt(a, a),
    decreases a.len(),
{
    if a.len() > 0 {
        lemma_str_lt_irreflexive(a.drop_first());
    }
}

/// Of two different strings, exactly one comes first.
proof fn lemma_str_lt_trichotomy(a: Seq<char>, b: Seq<char>)
    ensures
        a != b ==> (seq_lt(a, b) || seq_lt(b, a)),
        !(seq_lt(a, b) && seq_lt(b, a)),
    decreases a.len(),
{
    if a.len() > 0 && b.len() > 0 && a[0] == b[0] {
        lemma_str_lt_trichotomy(a.drop_first(), b.drop_first());
        if a != b {
            if a.drop_first() == b.drop_first() {
                assert(a =~= seq![a[0]] + a.drop_first());
                assert(b =~= seq![b[0]] + b.drop_first());
            }
        }
    } else if a.len() == 0 && b.len() == 0 {
        assert(a =~= b);
    }
}

/// On integers and booleans (taken as 1 and 0), the comparisons are those of
/// the numbers: `<`, `<=`, `>`, `>=`, `==` and `!=` give exactly the
/// mathematical relations, so `x <= x` and `x >= x` hold and `x < x` does not.
pub proof fn law_numeric_comparisons(l: ValueModel, r: ValueModel)
    requires
        is_numeric(l),
        is_numeric(r),
    ensures
        binop_result(BinOp::Lt, l, r) == Ok::<ValueModel, Seq<char>>(ValueModel::Bool(int_of(l) < int_of(r))),
        binop_result(BinOp::Le, l, r) == Ok::<ValueModel, Seq<char>>(ValueModel::Bool(int_of(l) <= int_of(r))),
        binop_result(BinOp::Gt, l, r) == Ok::<ValueModel, Seq<char>>(ValueModel::Bool(int_of(l) > int_of(r))),
        binop_result(BinOp::Ge, l, r) == Ok::<ValueModel, Seq<char>>(ValueModel::Bool(int_of(l) >= int_of(r))),
        binop_result(BinOp::Eq, l, r) == Ok::<ValueModel, Seq<char>>(ValueModel::Bool(int_of(l) == int_of(r))),
        binop_result(BinOp::Neq, l, r) == Ok::<ValueModel, Seq<char>>(ValueModel::Bool(int_of(l) != int_of(r))),
{
}

/// On any two values that can be compared, `<=` is `<` or `==`, `>=` is
/// `>` or `==`, and exactly one of `<`, `==`, `>` holds; so every value is
/// `<=` and `>=` itself and not `<` itself.
pub proof fn law_comparisons_are_an_order(l: ValueModel, r: ValueModel)
    requires
        comparable(l, r),
    ensures
        ({
            let lt = binop_result(BinOp::Lt, l, r);
            let gt = binop_result(BinOp::Gt, l, r);
            let eq = binop_result(BinOp::Eq, l, r);
            let le = binop_result(BinOp::Le, l, r);
            let ge = binop_result(BinOp::Ge, l, r);
            &&& lt matches Ok(ValueModel::Bool(a)) && gt matches Ok(ValueModel::Bool(b)) && eq matches Ok(ValueModel::Bool(c))
                && le matches Ok(ValueModel::Bool(d)) && ge matches Ok(ValueModel::Bool(e))
                && d == (a || c) && e == (b || c) && (a as int) + (b as int) + (c as int) == 1
        }),
        binop_result(BinOp::Le, l, l) == Ok::<ValueModel, Seq<char>>(ValueModel::Bool(true)),
        binop_result(BinOp::Ge, l, l) == Ok::<ValueModel, Seq<char>>(ValueModel::Bool(true)),
        binop_result(BinOp::Lt, l, l) == Ok::<ValueModel, Seq<char>>(ValueModel::Bool(false)),
        binop_result(BinOp::Gt, l, l) == Ok::<ValueModel, Seq<char>>(ValueModel::Bool(false)),
{
    if l is Str && r is Str {
        lemma_str_lt_trichotomy(l->Str_0, r->Str_0);
        lemma_str_lt_irreflexive(l->Str_0);
        lemma_str_lt_irreflexive(r->Str_0);
    }
}

/// Token `k1` binds tighter than token `k2`: wherever both are binary
/// operators, the level of `k1` is below that of `k2`.
pub open spec fn binds_tighter(k1: TokKind, k2: TokKind) -> bool {
    forall|l1: nat, l2: nat|
        #![trigger level_op_spec(l1, k1), level_op_spec(l2, k2)]
        level_op_spec(l1, k1) is Some && level_op_spec(l2, k2) is Some ==> l1 < l2
}

/// Token `k` is the binary operator `op`: it is that operator at some
/// level, and never another one.
pub open spec fn spells_binop(k: TokKind, op: BinOp) -> bool {
    &&& exists|l: nat| #[trigger] level_op_spec(l, k) == Some(op)
    &&& forall|l: nat| #[trigger] level_op_spec(l, k) matches Some(o) ==> o == op
}

/// The binary operators of the grammar and their precedence: `* / %` bind
/// tightest, then `+ -`, then `< <= > >=`, then `== !=`, then `&&`, and `||`
/// binds loosest. So `a || b && c` is `a || (b && c)`, `a == b < c` is
/// `a == (b < c)`, and `a + b * c` is `a + (b * c)`.
pub proof fn law_operator_precedence()
    ensures
        spells_binop(TokKind::Star, BinOp::Mul),
        spells_binop(TokKind::Slash, BinOp::Div),
        spells_binop(TokKind::Percent, BinOp::Mod),
        spells_binop(TokKind::Plus, BinOp::Add),
        spells_binop(TokKind::Minus, BinOp::Sub),
        spells_binop(TokKind::Lt, BinOp::Lt),
        spells_binop(TokKind::Le, BinOp::Le),
        spells_binop(TokKind::Gt, BinOp::Gt),
        spells_binop(TokKind::Ge, BinOp::Ge),
        spells_binop(TokKind::EqEq, BinOp::Eq),
        spells_binop(TokKind::Ne, BinOp::Neq),
        spells_binop(TokKind::AndAnd, BinOp::And),
        spells_binop(TokKind::OrOr, BinOp::Or),
        binds_tighter(TokKind::Star, TokKind::Plus),
        binds_tighter(TokKind::Plus, TokKind::Lt),
        binds_tighter(TokKind::Lt, TokKind::EqEq),
        binds_tighter(TokKind::EqEq, TokKind::AndAnd),
        binds_tighter(TokKind::AndAnd, TokKind::OrOr),
        binds_tighter(TokKind::Slash, TokKind::Minus),
        binds_tighter(TokKind::Percent, TokKind::Plus),
        binds_tighter(TokKind::Minus, TokKind::Ge),
        binds_tighter(TokKind::Gt, TokKind::Ne),
        binds_tighter(TokKind::Le, TokKind::EqEq),
        binds_tighter(TokKind::Ne, TokKind::AndAnd),
{
    assert(level_op_spec(0, TokKind::Star) == Some(BinOp::Mul));
    assert(level_op_spec(0, TokKind::Slash) == Some(BinOp::Div));
    assert(level_op_spec(0, TokKind::Percent) == Some(BinOp::Mod));
    assert(level_op_spec(1, TokKind::Plus) == Some(BinOp::Add));
    assert(level_op_spec(1, TokKind::Minus) == Some(BinOp::Sub));
    assert(level_op_spec(2, TokKind::Lt) == Some(BinOp::Lt));
    assert(level_op_spec(2, TokKind::Le) == Some(BinOp::Le));
    assert(level_op_spec(2, TokKind::Gt) == Some(BinOp::Gt));
    assert(level_op_spec(2, TokKind::Ge) == Some(BinOp::Ge));
    assert(level_op_spec(3, TokKind::EqEq) == Some(BinOp::Eq));
    assert(level_op_spec(3, TokKind::Ne) == Some(BinOp::Neq));
    assert(level_op_spec(4, TokKind::AndAnd) == Some(BinOp::And));
    assert(level_op_spec(5, TokKind::OrOr) == Some(BinOp::Or));
}

/// The characters that an operator token of kind `k` is made of.
pub open spec fn spelled_as(k: TokKind, text: Seq<char>) -> bool {
    match k {
        TokKind::LParen => text == seq!['('],
        TokKind::RParen => text == seq![')'],
        TokKind::LBrace => text == seq!['{'],
        TokKind::RBrace => text == seq!['}'],
        TokKind::Comma => text == seq![','],
        TokKind::Semi => text == seq![';'],
        TokKind::Assign => text == seq!['='],
        TokKind::Plus => text == seq!['+'],
        TokKind::Minus => text == seq!['-'],
        TokKind::Star => text == seq!['*'],
        TokKind::Slash => text == seq!['/'],
        TokKind::Percent => text == seq!['%'],
        TokKind::Bang => text == seq!['!'],
        TokKind::Lt => text == seq!['<'],
        TokKind::Le => text == seq!['<', '='],
        TokKind::Gt => text == seq!['>'],
        TokKind::Ge => text == seq!['>', '='],
        TokKind::EqEq => text == seq!['=', '='],
        TokKind::Ne => text == seq!['!', '='],
        TokKind::AndAnd => text == seq!['&', '&'],
        TokKind::OrOr => text == seq!['|', '|'],
        _ => false,
    }
}

/// A character that is an operator on its own.
pub open spec fn single_operator_char(c: char) -> bool {
    c == '(' || c == ')' || c == '{' || c == '}' || c == ',' || c == ';' || c == '=' || c == '+' || c == '-'
        || c == '*' || c == '/' || c == '%' || c == '!' || c == '<' || c == '>'
}

/// Two characters that make an operator together.
pub open spec fn operator_pair(a: char, b: char) -> bool {
    (a == '=' && b == '=') || (a == '!' && b == '=') || (a == '<' && b == '=') || (a == '>' && b == '=')
        || (a == '&' && b == '&') || (a == '|' && b == '|')
}

/// An operator token is spelled by the characters it is read from: a lone
/// `>` is `Gt`, `>=` is `Ge`, and so on for each operator. Every operator
/// character starts a token, and a two-character operator is read whole
/// (`>=` is never `>` then `=`).
pub proof fn law_operator_tokens(cs: Seq<char>, i: nat)
    requires
        i < cs.len(),
    ensures
        operator_spec(cs, i) matches Some((k, n)) ==> i + n <= cs.len() && spelled_as(k, cs.subrange(i as int, i + n as int)),
        single_operator_char(cs[i as int]) ==> operator_spec(cs, i) is Some,
        (i + 1 < cs.len() && operator_pair(cs[i as int], cs[i as int + 1])) ==> (operator_spec(cs, i) matches Some((_, n)) && n == 2),
{
    let t1 = cs.subrange(i as int, i as int + 1);
    assert(t1 =~= seq![cs[i as int]]);
    if i + 1 < cs.len() {
        let t2 = cs.subrange(i as int, i as int + 2);
        assert(t2 =~= seq![cs[i as int], cs[i as int + 1]]);
    }
}

/// `/` and `%` on integers: the quotient times the divisor plus the
/// remainder is the dividend, the remainder is smaller than the divisor in
/// size, and it is zero or has the sign of the dividend (division rounds
/// toward zero).
proof fn lemma_trunc_div_rem(x: int, d: int)
    requires
        d != 0,
    ensures
        trunc_div(x, d) * d + trunc_rem(x, d) == x,
        x >= 0 ==> 0 <= trunc_rem(x, d) < d * sign(d),
        x < 0 ==> -(d * sign(d)) < trunc_rem(x, d) <= 0,
{
    if x == 0 {
    } else if x > 0 && d > 0 {
        lemma_mod_bound(x, d);
        let q = x / d;
        let m = x % d;
        assert(q * d == d * q) by (nonlinear_arith);
    } else if x < 0 && d < 0 {
        let nx = x * -1;
        let nd = d * -1;
        lemma_mod_bound(nx, nd);
        let q = nx / nd;
        let m = nx % nd;
        assert(trunc_div(x, d) == q);
        assert(trunc_rem(x, d) == m * -1);
        assert(q * d == -(nd * q)) by (nonlinear_arith) requires nd == d * -1;
    } else if x < 0 {
        let nx = x * -1;
        lemma_mod_bound(nx, d);
        let q = nx / d;
        let m = nx % d;
        assert(trunc_div(x, d) == q * -1);
        assert(trunc_rem(x, d) == m * -1);
        assert((q * -1) * d == -(d * q)) by (nonlinear_arith);
    } else {
        let nd = d * -1;
        lemma_mod_bound(x, nd);
        let q = x / nd;
        let m = x % nd;
        assert(trunc_div(x, d) == q * -1);
        assert(trunc_rem(x, d) == m);
        assert((q * -1) * d == nd * q) by (nonlinear_arith) requires nd == d * -1;
    }
}

/// The sign of an integer.
pub open spec fn sign(x: int) -> int {
    if x > 0 { 1 } else if x < 0 { -1 } else { 0 }
}

proof fn lemma_mod_bound(x: int, d: int)
    requires
        x >= 0,
        d > 0,
    ensures
        0 <= x % d < d,
        x / d >= 0,
        d * (x / d) + x % d == x,
{
    lemma_fundamental_div_mod(x, d);
    assert(0 <= x % d < d) by (nonlinear_arith) requires d > 0;
    assert(x / d >= 0) by (nonlinear_arith) requires x >= 0, d > 0;
}

/// Arithmetic on integers and booleans (taken as 1 and 0) is that of the
/// numbers, whenever the result fits in `i64`: `+`, `-` and `*` give the sum,
/// difference and product; `/` and `%` by a non-zero number give a quotient
/// and remainder with quotient * divisor + remainder = dividend, the
/// remainder smaller than the divisor in size and zero or of the dividend's
/// sign. Division by zero is an error. Unary `+` gives the number and
/// unary `-` its negation.
pub proof fn law_numeric_arithmetic(l: ValueModel, r: ValueModel)
    requires
        is_numeric(l),
        is_numeric(r),
    ensures
        ({
            let a = int_of(l) as int;
            let b = int_of(r) as int;
            &&& i64::MIN <= a + b <= i64::MAX ==> binop_result(BinOp::Add, l, r) == Ok::<ValueModel, Seq<char>>(ValueModel::Int((a + b) as i64))
            &&& i64::MIN <= a - b <= i64::MAX ==> binop_result(BinOp::Sub, l, r) == Ok::<ValueModel, Seq<char>>(ValueModel::Int((a - b) as i64))
            &&& i64::MIN <= a * b <= i64::MAX ==> binop_result(BinOp::Mul, l, r) == Ok::<ValueModel, Seq<char>>(ValueModel::Int((a * b) as i64))
            &&& b == 0 ==> binop_result(BinOp::Div, l, r) is Err && binop_result(BinOp::Mod, l, r) is Err
            &&& binop_result(BinOp::Div, l, r) matches Ok(ValueModel::Int(q)) ==> (binop_result(BinOp::Mod, l, r) matches Ok(ValueModel::Int(m))
                && q * b + m == a
                && (a >= 0 ==> 0 <= m < b * sign(b))
                && (a < 0 ==> -(b * sign(b)) < m <= 0))
            &&& b != 0 && !(a == i64::MIN && b == -1) ==> binop_result(BinOp::Div, l, r) is Ok && binop_result(BinOp::Mod, l, r) is Ok
            &&& unop_result(UnaryOp::Plus, l) == Ok::<ValueModel, Seq<char>>(ValueModel::Int(int_of(l)))
            &&& a != i64::MIN ==> (unop_result(UnaryOp::Minus, l) matches Ok(ValueModel::Int(n)) && n + a == 0)
        }),
{
    let a = int_of(l) as int;
    let b = int_of(r) as int;
    assert(unop_result(UnaryOp::Plus, l) == Ok::<ValueModel, Seq<char>>(ValueModel::Int(int_of(l))));
    if a != i64::MIN {
        assert(unop_result(UnaryOp::Minus, l) == Ok::<ValueModel, Seq<char>>(ValueModel::Int((-int_of(l)) as i64)));
    }
    if b != 0 {
        lemma_trunc_div_rem(a, b);
        if !(a == i64::MIN && b == -1) {
            lemma_trunc_div_range(a, b);
        }
    }
}

/// The quotient is no larger than the dividend in size, so it fits in
/// `i64` except for `i64::MIN / -1`.
proof fn lemma_trunc_div_range(x: int, d: int)
    requires
        d != 0,
        i64::MIN <= x <= i64::MAX,
        i64::MIN <= d <= i64::MAX,
        !(x == i64::MIN && d == -1),
    ensures
        i64::MIN <= trunc_div(x, d) <= i64::MAX,
{
    if x > 0 && d > 0 {
        lemma_mod_bound(x, d);
        assert(x / d <= x) by (nonlinear_arith) requires d > 0, x / d >= 0, d * (x / d) + x % d == x, x % d >= 0;
    } else if x < 0 && d < 0 {
        let nx = x * -1;
        let nd = d * -1;
        lemma_mod_bound(nx, nd);
        let q = nx / nd;
        if x == i64::MIN {
            assert(nd >= 2);
            assert(2 * q <= nx) by (nonlinear_arith) requires nd >= 2, q >= 0, nd * q + nx % nd == nx, nx % nd >= 0;
        } else {
            assert(q <= nx) by (nonlinear_arith) requires nd > 0, q >= 0, nd * q + nx % nd == nx, nx % nd >= 0;
        }
    } else if x < 0 {
        let nx = x * -1;
        lemma_mod_bound(nx, d);
        let q = nx / d;
        assert(q <= nx) by (nonlinear_arith) requires d > 0, q >= 0, d * q + nx % d == nx, nx % d >= 0;
    } else if x > 0 {
        let nd = d * -1;
        lemma_mod_bound(x, nd);
        let q = x / nd;
        assert(q <= x) by (nonlinear_arith) requires nd > 0, q >= 0, nd * q + x % nd == x, x % nd >= 0;
    }
}

} // verus!
