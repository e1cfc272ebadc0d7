//! Runtime values of the script language and the meaning of its operators.

use vstd::prelude::*;
use crate::text::{chars_of, dec_int, i64_to_string};

verus! {

/// A runtime value.
#[derive(Debug)]
pub enum Value {
    Int(i64),
    Bool(bool),
    Str(String),
}

/// The mathematical model of a [`Value`].
pub enum ValueModel {
    Int(i64),
    Bool(bool),
    Str(Seq<char>),
}

impl View for Value {
    type V = ValueModel;

    open spec fn view(&self) -> ValueModel {
        match self {
            Value::Int(n) => ValueModel::Int(*n),
            Value::Bool(b) => ValueModel::Bool(*b),
            Value::Str(s) => ValueModel::Str(s@),
        }
    }
}

impl Value {
    /// A copy of the value.
    pub fn duplicate(&self) -> (r: Value)
        ensures
            r@ == self@,
    {
        match self {
            Value::Int(n) => Value::Int(*n),
            Value::Bool(b) => Value::Bool(*b),
            Value::Str(s) => Value::Str(s.clone()),
        }
    }
}

/// Unary operators.
#[derive(Debug, Clone, Copy, PartialEq, Eq, Structural)]
pub enum UnaryOp {
    Plus,
    Minus,
    Not,
}

/// Binary operators.
#[derive(Debug, Clone, Copy, PartialEq, Eq, Structural)]
pub enum BinOp {
    Add,
    Sub,
    Mul,
    Div,
    Mod,
    And,
    Or,
    Eq,
    Neq,
    Lt,
    Le,
    Gt,
    Ge,
}

/// Integers and booleans take part in arithmetic.
pub open spec fn is_numeric(v: ValueModel) -> bool {
    v is Int || v is Bool
}

/// The integer of a numeric value (`true` is 1, `false` is 0).
pub open spec fn int_of(v: ValueModel) -> i64 {
    match v {
        ValueModel::Int(n) => n,
        ValueModel::Bool(b) => if b { 1 } else { 0 },
        ValueModel::Str(_) => 0,
    }
}

/// Truthiness: non-zero integers, `true` and non-empty strings.
pub open spec fn truthy(v: ValueModel) -> bool {
    match v {
        ValueModel::Int(n) => n != 0,
        ValueModel::Bool(b) => b,
        ValueModel::Str(s) => s.len() > 0,
    }
}

/// Two values can be ordered: both strings, or both numeric.
pub open spec fn comparable(l: ValueModel, r: ValueModel) -> bool {
    (l is Str && r is Str) || (is_numeric(l) && is_numeric(r))
}

/// Lexicographic order of character sequences (by code point), which is the
/// order of their UTF-8 encodings.
pub open spec fn seq_lt(a: Seq<char>, b: Seq<char>) -> bool
    decreases a.len(),
{
    if a.len() == 0 {
        b.len() > 0
    } else if b.len() == 0 {
        false
    } else if a[0] != b[0] {
        a[0] < b[0]
    } else {
        seq_lt(a.drop_first(), b.drop_first())
    }
}

/// Quotient of integer division rounded toward zero.
pub open spec fn trunc_div(x: int, d: int) -> int {
    if x == 0 {
        0
    } else if x > 0 && d > 0 {
        x / d
    } else if x < 0 && d < 0 {
        (x * -1) / (d * -1)
    } else if x < 0 {
        ((x * -1) / d) * -1
    } else {
        (x / (d * -1)) * -1
    }
}

/// Remainder of integer division rounded toward zero (it takes the sign of `x`).
pub open spec fn trunc_rem(x: int, d: int) -> int {
    if x == 0 {
        0
    } else if x > 0 && d > 0 {
        x % d
    } else if x < 0 && d < 0 {
        ((x * -1) % (d * -1)) * -1
    } else if x < 0 {
        ((x * -1) % d) * -1
    } else {
        x % (d * -1)
    }
}

/// The `Debug` rendering of a string slice (quoted and escaped).
pub uninterp spec fn str_debug(s: Seq<char>) -> Seq<char>;

/// `format!("{:?}", s)` on a string slice.
#[verifier::external_body]
pub(crate) fn debug_str(s: &str) -> (r: String)
    ensures
        r@ == str_debug(s@),
{
    format!("{:?}", s)
}

/// The `Debug` rendering of a value, as the derived implementation writes it.
pub open spec fn debug_value(v: ValueModel) -> Seq<char> {
    match v {
        ValueModel::Int(n) => "Int("@ + dec_int(n as int) + ")"@,
        ValueModel::Bool(b) => "Bool("@ + (if b { "true"@ } else { "false"@ }) + ")"@,
        ValueModel::Str(s) => "Str("@ + str_debug(s) + ")"@,
    }
}

/// Renders a value for error messages.
pub fn value_debug(v: &Value) -> (r: String)
    ensures
        r@ == debug_value(v@),
{
    match v {
        Value::Int(n) => {
            let mut s = String::from_str("Int(");
            let d = i64_to_string(*n);
            s.append(d.as_str());
            s.append(")");
            s
        },
        Value::Bool(b) => {
            let mut s = String::from_str("Bool(");
            if *b {
                s.append("true");
            } else {
                s.append("false");
            }
            s.append(")");
            s
        },
        Value::Str(t) => {
            let mut s = String::from_str("Str(");
            let d = debug_str(t.as_str());
            s.append(d.as_str());
            s.append(")");
            s
        },
    }
}

/// The message of "<what> not supported between <l> and <r>".
pub open spec fn unsupported_msg(what: Seq<char>, l: ValueModel, r: ValueModel) -> Seq<char> {
    what + " not supported between "@ + debug_value(l) + " and "@ + debug_value(r)
}

/// "<prefix><l><sep><r>" with both numbers in decimal.
pub open spec fn overflow_msg(prefix: Seq<char>, l: i64, sep: Seq<char>, r: i64) -> Seq<char> {
    prefix + dec_int(l as int) + sep + dec_int(r as int)
}

/// The value of `l op r`, or the message of the error it raises.
pub open spec fn binop_result(op: BinOp, l: ValueModel, r: ValueModel) -> Result<ValueModel, Seq<char>> {
    let a = int_of(l) as int;
    let b = int_of(r) as int;
    match op {
        BinOp::Add => {
            if l is Str && r is Str {
                Ok(ValueModel::Str(l->Str_0 + r->Str_0))
            } else if is_numeric(l) && is_numeric(r) {
                if i64::MIN <= a + b <= i64::MAX {
                    Ok(ValueModel::Int((a + b) as i64))
                } else {
                    Err(overflow_msg("Integer overflow in addition: "@, int_of(l), " + "@, int_of(r)))
                }
            } else {
                Err(unsupported_msg("Addition"@, l, r))
            }
        },
        BinOp::Sub => {
            if is_numeric(l) && is_numeric(r) {
                if i64::MIN <= a - b <= i64::MAX {
                    Ok(ValueModel::Int((a - b) as i64))
                } else {
                    Err(overflow_msg("Integer overflow/underflow in subtraction: "@, int_of(l), " - "@, int_of(r)))
                }
            } else {
                Err(unsupported_msg("Subtraction"@, l, r))
            }
        },
        BinOp::Mul => {
            if is_numeric(l) && is_numeric(r) {
                if i64::MIN <= a * b <= i64::MAX {
                    Ok(ValueModel::Int((a * b) as i64))
                } else {
                    Err(overflow_msg("Integer overflow in multiplication: "@, int_of(l), " * "@, int_of(r)))
                }
            } else {
                Err(unsupported_msg("Multiplication"@, l, r))
            }
        },
        BinOp::Div => {
            if is_numeric(l) && is_numeric(r) {
                if b == 0 {
                    Err("Division by zero"@)
                } else if i64::MIN <= trunc_div(a, b) <= i64::MAX {
                    Ok(ValueModel::Int(trunc_div(a, b) as i64))
                } else {
                    Err(overflow_msg("Integer overflow in division: "@, int_of(l), " / "@, int_of(r)))
                }
            } else {
                Err(unsupported_msg("Division"@, l, r))
            }
        },
        BinOp::Mod => {
            if is_numeric(l) && is_numeric(r) {
                if b == 0 {
                    Err("Modulo by zero"@)
                } else if !(a == i64::MIN && b == -1) {
                    Ok(ValueModel::Int(trunc_rem(a, b) as i64))
                } else {
                    Err(overflow_msg("Integer overflow in modulo: "@, int_of(l), " % "@, int_of(r)))
                }
            } else {
                Err(unsupported_msg("Modulo"@, l, r))
            }
        },
        BinOp::Lt => {
            if comparable(l, r) {
                if l is Str { Ok(ValueModel::Bool(seq_lt(l->Str_0, r->Str_0))) }
                else { Ok(ValueModel::Bool(a < b)) }
            } else {
                Err(unsupported_msg("Less than comparison"@, l, r))
            }
        },
        BinOp::Le => {
            if comparable(l, r) {
                if l is Str { Ok(ValueModel::Bool(!seq_lt(r->Str_0, l->Str_0))) }
                else { Ok(ValueModel::Bool(a <= b)) }
            } else {
                Err(unsupported_msg("Less than or equal comparison"@, l, r))
            }
        },
        BinOp::Gt => {
            if comparable(l, r) {
                if l is Str { Ok(ValueModel::Bool(seq_lt(r->Str_0, l->Str_0))) }
                else { Ok(ValueModel::Bool(a > b)) }
            } else {
                Err(unsupported_msg("Greater than comparison"@, l, r))
            }
        },
        BinOp::Ge => {
            if comparable(l, r) {
                if l is Str { Ok(ValueModel::Bool(!seq_lt(l->Str_0, r->Str_0))) }
                else { Ok(ValueModel::Bool(a >= b)) }
            } else {
                Err(unsupported_msg("Greater than or equal comparison"@, l, r))
            }
        },
        BinOp::Eq => {
            if comparable(l, r) {
                if l is Str { Ok(ValueModel::Bool(l->Str_0 == r->Str_0)) }
                else { Ok(ValueModel::Bool(a == b)) }
            } else {
                Ok(ValueModel::Bool(false))
            }
        },
        BinOp::Neq => {
            if comparable(l, r) {
                if l is Str { Ok(ValueModel::Bool(l->Str_0 != r->Str_0)) }
                else { Ok(ValueModel::Bool(a != b)) }
            } else {
                Ok(ValueModel::Bool(true))
            }
        },
        BinOp::And => Ok(ValueModel::Bool(truthy(l) && truthy(r))),
        BinOp::Or => Ok(ValueModel::Bool(truthy(l) || truthy(r))),
    }
}

/// The value of `op v`, or the message of the error it raises.
pub open spec fn unop_result(op: UnaryOp, v: ValueModel) -> Result<ValueModel, Seq<char>> {
    match op {
        UnaryOp::Plus => {
            if is_numeric(v) {
                Ok(ValueModel::Int(int_of(v)))
            } else {
                Err("Unary plus operator only supports integers or booleans"@)
            }
        },
        UnaryOp::Minus => {
            if is_numeric(v) {
                if int_of(v) == i64::MIN {
                    Err("Integer overflow in negation: -"@ + dec_int(int_of(v) as int))
                } else {
                    Ok(ValueModel::Int((-int_of(v)) as i64))
                }
            } else {
                Err("Unary minus operator only supports integers or booleans"@)
            }
        },
        UnaryOp::Not => Ok(ValueModel::Bool(!truthy(v))),
    }
}

/// The integer of a numeric value.
pub fn to_int_value(v: &Value) -> (n: i64)
    requires
        is_numeric(v@),
    ensures
        n == int_of(v@),
{
    match v {
        Value::Int(n) => *n,
        Value::Bool(b) => if *b { 1 } else { 0 },
        Value::Str(_) => 0,
    }
}

/// Whether a value counts as true in a condition.
pub fn is_truthy(v: &Value) -> (b: bool)
    ensures
        b == truthy(v@),
{
    match v {
        Value::Int(n) => *n != 0,
        Value::Bool(b) => *b,
        Value::Str(s) => !s.as_str().is_empty(),
    }
}

/// Whether a value is an integer or a boolean.
pub fn is_numeric_value(v: &Value) -> (b: bool)
    ensures
        b == is_numeric(v@),
{
    match v {
        Value::Int(_) | Value::Bool(_) => true,
        Value::Str(_) => false,
    }
}

/// Whether both values are integers or booleans.
pub fn are_numeric_values(l: &Value, r: &Value) -> (b: bool)
    ensures
        b == (is_numeric(l@) && is_numeric(r@)),
{
    is_numeric_value(l) && is_numeric_value(r)
}

/// Whether two values can be compared.
pub fn are_comparable_values(l: &Value, r: &Value) -> (b: bool)
    ensures
        b == comparable(l@, r@),
{
    match (l, r) {
        (Value::Str(_), Value::Str(_)) => true,
        _ => are_numeric_values(l, r),
    }
}

/// Lexicographic comparison of two strings.
pub fn str_lt(a: &String, b: &String) -> (r: bool)
    ensures
        r == seq_lt(a@, b@),
{
    let x = chars_of(a.as_str());
    let y = chars_of(b.as_str());
    let mut i: usize = 0;
    assert(x@.skip(0) =~= x@);
    assert(y@.skip(0) =~= y@);
    while i < x.len() && i < y.len() && x[i] == y[i]
        invariant
            i <= x@.len(),
            i <= y@.len(),
            x@.take(i as int) == y@.take(i as int),
            seq_lt(x@, y@) == seq_lt(x@.skip(i as int), y@.skip(i as int)),
        decreases x@.len() - i,
    {
        proof {
            let xs = x@.skip(i as int);
            let ys = y@.skip(i as int);
            assert(xs.drop_first() =~= x@.skip(i + 1));
            assert(ys.drop_first() =~= y@.skip(i + 1));
            assert(x@.take(i + 1) =~= x@.take(i as int).push(x@[i as int]));
            assert(y@.take(i + 1) =~= y@.take(i as int).push(y@[i as int]));
        }
        i = i + 1;
    }
    if i == x.len() {
        i < y.len()
    } else if i == y.len() {
        false
    } else {
        x[i] < y[i]
    }
}

/// String equality.
pub fn str_eq(a: &String, b: &String) -> (r: bool)
    ensures
        r == (a@ == b@),
{
    a.eq(b)
}

/// Concatenates two strings.
fn concat(a: &String, b: &String) -> (r: String)
    ensures
        r@ == a@ + b@,
{
    let mut s = a.clone();
    s.append(b.as_str());
    s
}

fn overflow_message(prefix: &str, l: i64, sep: &str, r: i64) -> (m: String)
    ensures
        m@ == overflow_msg(prefix@, l, sep@, r),
{
    let mut s = String::from_str(prefix);
    s.append(i64_to_string(l).as_str());
    s.append(sep);
    s.append(i64_to_string(r).as_str());
    s
}

fn unsupported_message(what: &str, l: &Value, r: &Value) -> (m: String)
    ensures
        m@ == unsupported_msg(what@, l@, r@),
{
    let mut s = String::from_str(what);
    s.append(" not supported between ");
    s.append(value_debug(l).as_str());
    s.append(" and ");
    s.append(value_debug(r).as_str());
    s
}

/// Evaluates a unary operator on a value.
pub fn apply_unop(op: UnaryOp, v: &Value) -> (r: Result<Value, String>)
    ensures
        match (r, unop_result(op, v@)) {
            (Ok(x), Ok(y)) => x@ == y,
            (Err(m), Err(n)) => m@ == n,
            _ => false,
        },
{
    match op {
        UnaryOp::Plus => {
            if is_numeric_value(v) {
                Ok(Value::Int(to_int_value(v)))
            } else {
                Err(String::from_str("Unary plus operator only supports integers or booleans"))
            }
        },
        UnaryOp::Minus => {
            if is_numeric_value(v) {
                let n = to_int_value(v);
                if n == i64::MIN {
                    let mut s = String::from_str("Integer overflow in negation: -");
                    s.append(i64_to_string(n).as_str());
                    Err(s)
                } else {
                    Ok(Value::Int(-n))
                }
            } else {
                Err(String::from_str("Unary minus operator only supports integers or booleans"))
            }
        },
        UnaryOp::Not => Ok(Value::Bool(!is_truthy(v))),
    }
}

/// Evaluates a binary operator on two values.
pub fn apply_binop(op: BinOp, l: &Value, r: &Value) -> (res: Result<Value, String>)
    ensures
        match (res, binop_result(op, l@, r@)) {
            (Ok(x), Ok(y)) => x@ == y,
            (Err(m), Err(n)) => m@ == n,
            _ => false,
        },
{
    match op {
        BinOp::Add => {
            match (l, r) {
                (Value::Str(a), Value::Str(b)) => {
                    return Ok(Value::Str(concat(a, b)));
                },
                _ => {},
            }
            if are_numeric_values(l, r) {
                let a = to_int_value(l);
                let b = to_int_value(r);
                match a.checked_add(b) {
                    Some(c) => Ok(Value::Int(c)),
                    None => Err(overflow_message("Integer overflow in addition: ", a, " + ", b)),
                }
            } else {
                Err(unsupported_message("Addition", l, r))
            }
        },
        BinOp::Sub => {
            if are_numeric_values(l, r) {
                let a = to_int_value(l);
                let b = to_int_value(r);
                match a.checked_sub(b) {
                    Some(c) => Ok(Value::Int(c)),
                    None => Err(overflow_message("Integer overflow/underflow in subtraction: ", a, " - ", b)),
                }
            } else {
                Err(unsupported_message("Subtraction", l, r))
            }
        },
        BinOp::Mul => {
            if are_numeric_values(l, r) {
                let a = to_int_value(l);
                let b = to_int_value(r);
                match a.checked_mul(b) {
                    Some(c) => Ok(Value::Int(c)),
                    None => Err(overflow_message("Integer overflow in multiplication: ", a, " * ", b)),
                }
            } else {
                Err(unsupported_message("Multiplication", l, r))
            }
        },
        BinOp::Div => {
            if are_numeric_values(l, r) {
                let a = to_int_value(l);
                let b = to_int_value(r);
                if b == 0 {
                    Err(String::from_str("Division by zero"))
                } else {
                    match a.checked_div(b) {
                        Some(c) => Ok(Value::Int(c)),
                        None => Err(overflow_message("Integer overflow in division: ", a, " / ", b)),
                    }
                }
            } else {
                Err(unsupported_message("Division", l, r))
            }
        },
        BinOp::Mod => {
            if are_numeric_values(l, r) {
                let a = to_int_value(l);
                let b = to_int_value(r);
                if b == 0 {
                    Err(String::from_str("Modulo by zero"))
                } else {
                    match a.checked_rem(b) {
                        Some(c) => Ok(Value::Int(c)),
                        None => Err(overflow_message("Integer overflow in modulo: ", a, " % ", b)),
                    }
                }
            } else {
                Err(unsupported_message("Modulo", l, r))
            }
        },
        BinOp::Lt | BinOp::Le | BinOp::Gt | BinOp::Ge => {
            if are_comparable_values(l, r) {
                let b = match (l, r) {
                    (Value::Str(x), Value::Str(y)) => {
                        match op {
                            BinOp::Lt => str_lt(x, y),
                            BinOp::Le => !str_lt(y, x),
                            BinOp::Gt => str_lt(y, x),
                            _ => !str_lt(x, y),
                        }
                    },
                    _ => {
                        let x = to_int_value(l);
                        let y = to_int_value(r);
                        match op {
                            BinOp::Lt => x < y,
                            BinOp::Le => x <= y,
                            BinOp::Gt => x > y,
                            _ => x >= y,
                        }
                    },
                };
                Ok(Value::Bool(b))
            } else {
                let what = match op {
                    BinOp::Lt => "Less than comparison",
                    BinOp::Le => "Less than or equal comparison",
                    BinOp::Gt => "Greater than comparison",
                    _ => "Greater than or equal comparison",
                };
                Err(unsupported_message(what, l, r))
            }
        },
        BinOp::Eq | BinOp::Neq => {
            let eq = if are_comparable_values(l, r) {
                match (l, r) {
                    (Value::Str(x), Value::Str(y)) => str_eq(x, y),
                    _ => to_int_value(l) == to_int_value(r),
                }
            } else {
                false
            };
            if op == BinOp::Eq {
                Ok(Value::Bool(eq))
            } else if are_comparable_values(l, r) {
                Ok(Value::Bool(!eq))
            } else {
                Ok(Value::Bool(true))
            }
        },
        BinOp::And => Ok(Value::Bool(is_truthy(l) && is_truthy(r))),
        BinOp::Or => Ok(Value::Bool(is_truthy(l) || is_truthy(r))),
    }
}

} // verus!
