//! The mathematical semantics of the language: what a term evaluates to,
//! which lines it prints, and on which terms evaluation faults.
//!
//! [`eval_spec`] is a fuel-indexed interpreter over [`TermV`]: one unit of
//! fuel is spent on every recursive evaluation step, so a program whose
//! nesting outruns the fuel ends in a `StackExhausted` fault, mirroring the
//! native call-depth bound of the executable evaluator.  The executable
//! evaluator in [`crate::eval`] is proved to return exactly what
//! [`eval_spec`] says, fault for fault and output line for output line.
use vstd::prelude::*;

use crate::ast::BinaryOp;
use crate::ast::TermV;

verus! {

/// The mathematical shape of a runtime value.
pub enum ValueV {
    Int(i32),
    Str(Seq<char>),
    Bool(bool),
    Tuple(Box<ValueV>, Box<ValueV>),
    Nil,
}

/// The mathematical shape of an evaluation fault.
pub enum FaultV {
    /// A `Var` read a name absent from the context.
    UndefinedVariable(Seq<char>),
    /// An operand of the named operation had the wrong kind.
    TypeFault(Seq<char>),
    /// Division or remainder by zero.
    ArithmeticFault,
    /// A call argument evaluated to a tuple or nil, which cannot be
    /// re-expressed as a term.
    UnsupportedReification,
    /// The recursion bound was exceeded.
    StackExhausted,
}

/// Truthiness: how `If`, `And` and `Or` read a value.
pub open spec fn truthy(v: ValueV) -> bool {
    match v {
        ValueV::Int(i) => i != 0,
        ValueV::Str(s) => s.len() != 0,
        ValueV::Bool(b) => b,
        ValueV::Tuple(_, _) => false,
        ValueV::Nil => false,
    }
}

/// Structural equality of values; values of different kinds are always
/// unequal.
pub open spec fn val_eq(a: ValueV, b: ValueV) -> bool
    decreases a,
{
    match (a, b) {
        (ValueV::Int(x), ValueV::Int(y)) => x == y,
        (ValueV::Str(x), ValueV::Str(y)) => x == y,
        (ValueV::Bool(x), ValueV::Bool(y)) => x == y,
        (ValueV::Tuple(a1, a2), ValueV::Tuple(b1, b2)) => val_eq(*a1, *b1) && val_eq(*a2, *b2),
        (ValueV::Nil, ValueV::Nil) => true,
        _ => false,
    }
}

/// Strict lexicographic order on character sequences, by code point.
pub open spec fn lex_lt(a: Seq<char>, b: Seq<char>) -> bool
    decreases a.len(),
{
    if b.len() == 0 {
        false
    } else if a.len() == 0 {
        true
    } else if a[0] == b[0] {
        lex_lt(a.drop_first(), b.drop_first())
    } else {
        a[0] < b[0]
    }
}

/// The decimal digit characters.
pub open spec fn dec_digit_char(d: nat) -> char {
    if d == 0 {
        '0'
    } else if d == 1 {
        '1'
    } else if d == 2 {
        '2'
    } else if d == 3 {
        '3'
    } else if d == 4 {
        '4'
    } else if d == 5 {
        '5'
    } else if d == 6 {
        '6'
    } else if d == 7 {
        '7'
    } else if d == 8 {
        '8'
    } else {
        '9'
    }
}

/// Decimal digits of a natural number, most significant first.
pub open spec fn dec_nat(n: nat) -> Seq<char>
    decreases n,
{
    if n < 10 {
        seq![dec_digit_char(n)]
    } else {
        dec_nat(n / 10) + seq![dec_digit_char(n % 10)]
    }
}

/// Decimal rendering of a 32-bit integer, with a leading minus sign when
/// negative.
pub open spec fn dec_i32(i: i32) -> Seq<char> {
    if i < 0 {
        seq!['-'] + dec_nat((-(i as int)) as nat)
    } else {
        dec_nat(i as nat)
    }
}

/// `true` or `false`, spelled out.
pub open spec fn bool_str(b: bool) -> Seq<char> {
    if b {
        "true"@
    } else {
        "false"@
    }
}

/// The canonical text form of a value: integers in decimal, strings
/// verbatim, booleans spelled out, tuples as `(a, b)`, nil as `nil`.
/// Both `Print` and the string-concatenation coercion of `Add` use it.
pub open spec fn render(v: ValueV) -> Seq<char>
    decreases v,
{
    match v {
        ValueV::Int(i) => dec_i32(i),
        ValueV::Str(s) => s,
        ValueV::Bool(b) => bool_str(b),
        ValueV::Tuple(a, b) => "("@ + render(*a) + ", "@ + render(*b) + ")"@,
        ValueV::Nil => "nil"@,
    }
}

/// Truncating quotient of two mathematical integers (rounds toward zero),
/// written over the Euclidean `/` of the logic.
pub open spec fn trunc_div_int(x: int, d: int) -> int
    recommends
        d != 0,
{
    if x == 0 {
        0
    } else if x > 0 && d > 0 {
        x / d
    } else if x < 0 && d < 0 {
        (x * -1) / (d * -1)
    } else if x < 0 {
        ((x * -1) / d) * -1
    } else {
        (x / (d * -1)) * -1
    }
}

/// Truncating remainder of two mathematical integers: the sign follows the
/// dividend.
pub open spec fn trunc_rem_int(x: int, d: int) -> int
    recommends
        d != 0,
{
    if x == 0 {
        0
    } else if x > 0 && d > 0 {
        x % d
    } else if x < 0 && d < 0 {
        ((x * -1) % (d * -1)) * -1
    } else if x < 0 {
        ((x * -1) % d) * -1
    } else {
        x % (d * -1)
    }
}

/// Truncating `i32` division; the one overflowing case, `i32::MIN / -1`,
/// wraps to `i32::MIN`.
pub open spec fn div_i32(a: i32, b: i32) -> i32
    recommends
        b != 0,
{
    if a == i32::MIN && b == -1 {
        i32::MIN
    } else {
        trunc_div_int(a as int, b as int) as i32
    }
}

/// Truncating `i32` remainder; `i32::MIN % -1` is `0`.
pub open spec fn rem_i32(a: i32, b: i32) -> i32
    recommends
        b != 0,
{
    if a == i32::MIN && b == -1 {
        0
    } else {
        trunc_rem_int(a as int, b as int) as i32
    }
}

/// The short operation name carried by a `TypeFault`.
pub open spec fn op_name(op: BinaryOp) -> Seq<char> {
    match op {
        BinaryOp::Add => "add"@,
        BinaryOp::Sub => "sub"@,
        BinaryOp::Mul => "mul"@,
        BinaryOp::Div => "div"@,
        BinaryOp::Rem => "rem"@,
        BinaryOp::Eq => "eq"@,
        BinaryOp::Neq => "neq"@,
        BinaryOp::Lt => "lt"@,
        BinaryOp::Gt => "gt"@,
        BinaryOp::Lte => "lte"@,
        BinaryOp::Gte => "gte"@,
        BinaryOp::And => "and"@,
        BinaryOp::Or => "or"@,
    }
}

/// What a binary operator yields on two already-evaluated operands.
/// Both operands are always in hand: no operator short-circuits.
pub open spec fn apply_binary(op: BinaryOp, a: ValueV, b: ValueV) -> Result<ValueV, FaultV> {
    match op {
        BinaryOp::Add => match (a, b) {
            (ValueV::Int(x), ValueV::Int(y)) => Ok(
                ValueV::Int(vstd::wrapping::i32_specs::wrapping_add(x, y)),
            ),
            (ValueV::Str(_), _) => Ok(ValueV::Str(render(a) + render(b))),
            (_, ValueV::Str(_)) => Ok(ValueV::Str(render(a) + render(b))),
            _ => Err(FaultV::TypeFault(op_name(op))),
        },
        BinaryOp::Sub => match (a, b) {
            (ValueV::Int(x), ValueV::Int(y)) => Ok(
                ValueV::Int(vstd::wrapping::i32_specs::wrapping_sub(x, y)),
            ),
            _ => Err(FaultV::TypeFault(op_name(op))),
        },
        BinaryOp::Mul => match (a, b) {
            (ValueV::Int(x), ValueV::Int(y)) => Ok(
                ValueV::Int(vstd::wrapping::i32_specs::wrapping_mul(x, y)),
            ),
            _ => Err(FaultV::TypeFault(op_name(op))),
        },
        BinaryOp::Div => match (a, b) {
            (ValueV::Int(x), ValueV::Int(y)) => if y == 0 {
                Err(FaultV::ArithmeticFault)
            } else {
                Ok(ValueV::Int(div_i32(x, y)))
            },
            _ => Err(FaultV::TypeFault(op_name(op))),
        },
        BinaryOp::Rem => match (a, b) {
            (ValueV::Int(x), ValueV::Int(y)) => if y == 0 {
                Err(FaultV::ArithmeticFault)
            } else {
                Ok(ValueV::Int(rem_i32(x, y)))
            },
            _ => Err(FaultV::TypeFault(op_name(op))),
        },
        BinaryOp::Eq => Ok(ValueV::Bool(val_eq(a, b))),
        BinaryOp::Neq => Ok(ValueV::Bool(!val_eq(a, b))),
        BinaryOp::Lt => match (a, b) {
            (ValueV::Int(x), ValueV::Int(y)) => Ok(ValueV::Bool(x < y)),
            (ValueV::Str(x), ValueV::Str(y)) => Ok(ValueV::Bool(lex_lt(x, y))),
            (ValueV::Bool(x), ValueV::Bool(y)) => Ok(ValueV::Bool(!x && y)),
            _ => Err(FaultV::TypeFault(op_name(op))),
        },
        BinaryOp::Gt => match (a, b) {
            (ValueV::Int(x), ValueV::Int(y)) => Ok(ValueV::Bool(x > y)),
            (ValueV::Str(x), ValueV::Str(y)) => Ok(ValueV::Bool(lex_lt(y, x))),
            (ValueV::Bool(x), ValueV::Bool(y)) => Ok(ValueV::Bool(x && !y)),
            _ => Err(FaultV::TypeFault(op_name(op))),
        },
        BinaryOp::Lte => match (a, b) {
            (ValueV::Int(x), ValueV::Int(y)) => Ok(ValueV::Bool(x <= y)),
            (ValueV::Str(x), ValueV::Str(y)) => Ok(ValueV::Bool(lex_lt(x, y) || x == y)),
            (ValueV::Bool(x), ValueV::Bool(y)) => Ok(ValueV::Bool(!x || y)),
            _ => Err(FaultV::TypeFault(op_name(op))),
        },
        BinaryOp::Gte => match (a, b) {
            (ValueV::Int(x), ValueV::Int(y)) => Ok(ValueV::Bool(x >= y)),
            (ValueV::Str(x), ValueV::Str(y)) => Ok(ValueV::Bool(lex_lt(y, x) || x == y)),
            (ValueV::Bool(x), ValueV::Bool(y)) => Ok(ValueV::Bool(x || !y)),
            _ => Err(FaultV::TypeFault(op_name(op))),
        },
        BinaryOp::And => Ok(ValueV::Bool(truthy(a) && truthy(b))),
        BinaryOp::Or => Ok(ValueV::Bool(truthy(a) || truthy(b))),
    }
}

/// A value turned back into a literal term, for argument passing.  Tuples
/// and nil have no literal form: they cannot be reified.
pub open spec fn reify(v: ValueV) -> Option<TermV> {
    match v {
        ValueV::Int(i) => Some(TermV::Int { value: i }),
        ValueV::Str(s) => Some(TermV::Str { value: s }),
        ValueV::Bool(b) => Some(TermV::Bool { value: b }),
        ValueV::Tuple(_, _) => None,
        ValueV::Nil => None,
    }
}

/// Parameter names zipped positionally against the argument stack, each
/// bound to the argument term; binding stops at the shorter sequence.
pub open spec fn bind_params(
    ctx: Map<Seq<char>, TermV>,
    params: Seq<Seq<char>>,
    stack: Seq<TermV>,
) -> Map<Seq<char>, TermV>
    decreases params.len(),
{
    if params.len() == 0 || stack.len() == 0 {
        ctx
    } else {
        bind_params(ctx.insert(params.first(), stack.first()), params.drop_first(), stack.drop_first())
    }
}

/// What evaluating one term comes to: a value or a fault, together with
/// the output lines emitted on the way (each line without its terminating
/// newline).
pub struct Outcome {
    pub result: Result<ValueV, FaultV>,
    pub out: Seq<Seq<char>>,
}

/// What evaluating a list of call arguments comes to: a fresh argument
/// stack of reified terms, or the first fault, with the output emitted.
pub struct ArgsOutcome {
    pub result: Result<Seq<TermV>, FaultV>,
    pub out: Seq<Seq<char>>,
}

/// The semantics of one term under a variable context and an argument
/// stack.  Every recursive step spends one unit of fuel; running out of
/// fuel is the `StackExhausted` fault.
pub open spec fn eval_spec(
    fuel: nat,
    t: TermV,
    ctx: Map<Seq<char>, TermV>,
    stack: Seq<TermV>,
) -> Outcome
    decreases fuel, 1int, 0int,
{
    if fuel == 0 {
        Outcome { result: Err(FaultV::StackExhausted), out: Seq::empty() }
    } else {
        let rec = (fuel - 1) as nat;
        match t {
            TermV::Int { value } => Outcome { result: Ok(ValueV::Int(value)), out: Seq::empty() },
            TermV::Str { value } => Outcome { result: Ok(ValueV::Str(value)), out: Seq::empty() },
            TermV::Bool { value } => Outcome { result: Ok(ValueV::Bool(value)), out: Seq::empty() },
            TermV::Var { text } => if ctx.contains_key(text) {
                eval_spec(rec, ctx[text], ctx, stack)
            } else {
                Outcome { result: Err(FaultV::UndefinedVariable(text)), out: Seq::empty() }
            },
            TermV::Let { name, value, next } => eval_spec(rec, *next, ctx.insert(name, *value), stack),
            TermV::Function { parameters, body } => eval_spec(
                rec,
                *body,
                bind_params(ctx, parameters, stack),
                stack,
            ),
            TermV::Call { callee, arguments } => {
                let ao = eval_args_spec(fuel, arguments, ctx, Seq::empty());
                match ao.result {
                    Ok(new_stack) => {
                        let co = eval_spec(rec, *callee, ctx, new_stack);
                        Outcome { result: co.result, out: ao.out + co.out }
                    },
                    Err(f) => Outcome { result: Err(f), out: ao.out },
                }
            },
            TermV::If { condition, then_branch, otherwise } => {
                let co = eval_spec(rec, *condition, ctx, stack);
                match co.result {
                    Ok(c) => {
                        let bo = eval_spec(
                            rec,
                            if truthy(c) {
                                *then_branch
                            } else {
                                *otherwise
                            },
                            ctx,
                            stack,
                        );
                        Outcome { result: bo.result, out: co.out + bo.out }
                    },
                    Err(_) => co,
                }
            },
            TermV::Print { value } => {
                let vo = eval_spec(rec, *value, ctx, stack);
                match vo.result {
                    Ok(v) => Outcome { result: Ok(ValueV::Nil), out: vo.out.push(render(v)) },
                    Err(_) => vo,
                }
            },
            TermV::First { value } => {
                let vo = eval_spec(rec, *value, ctx, stack);
                match vo.result {
                    Ok(v) => match v {
                        ValueV::Tuple(a, _) => Outcome { result: Ok(*a), out: vo.out },
                        _ => Outcome { result: Err(FaultV::TypeFault("first"@)), out: vo.out },
                    },
                    Err(_) => vo,
                }
            },
            TermV::Second { value } => {
                let vo = eval_spec(rec, *value, ctx, stack);
                match vo.result {
                    Ok(v) => match v {
                        ValueV::Tuple(_, b) => Outcome { result: Ok(*b), out: vo.out },
                        _ => Outcome { result: Err(FaultV::TypeFault("second"@)), out: vo.out },
                    },
                    Err(_) => vo,
                }
            },
            TermV::Tuple { first, second } => {
                let fo = eval_spec(rec, *first, ctx, stack);
                match fo.result {
                    Ok(a) => {
                        let so = eval_spec(rec, *second, ctx, stack);
                        match so.result {
                            Ok(b) => Outcome {
                                result: Ok(ValueV::Tuple(Box::new(a), Box::new(b))),
                                out: fo.out + so.out,
                            },
                            Err(f) => Outcome { result: Err(f), out: fo.out + so.out },
                        }
                    },
                    Err(_) => fo,
                }
            },
            TermV::Binary { op, lhs, rhs } => {
                let lo = eval_spec(rec, *lhs, ctx, stack);
                match lo.result {
                    Ok(a) => {
                        let ro = eval_spec(rec, *rhs, ctx, stack);
                        match ro.result {
                            Ok(b) => Outcome {
                                result: apply_binary(op, a, b),
                                out: lo.out + ro.out,
                            },
                            Err(f) => Outcome { result: Err(f), out: lo.out + ro.out },
                        }
                    },
                    Err(_) => lo,
                }
            },
        }
    }
}

/// The semantics of a call's argument list: each argument is evaluated
/// left to right against the context and the stack accumulated so far
/// (starting empty), reified, and pushed; a tuple- or nil-valued argument
/// is the `UnsupportedReification` fault.
pub open spec fn eval_args_spec(
    fuel: nat,
    args: Seq<TermV>,
    ctx: Map<Seq<char>, TermV>,
    acc: Seq<TermV>,
) -> ArgsOutcome
    decreases fuel, 0int, args.len(),
{
    if args.len() == 0 {
        ArgsOutcome { result: Ok(acc), out: Seq::empty() }
    } else if fuel == 0 {
        ArgsOutcome { result: Err(FaultV::StackExhausted), out: Seq::empty() }
    } else {
        let ao = eval_spec((fuel - 1) as nat, args.first(), ctx, acc);
        match ao.result {
            Ok(v) => match reify(v) {
                Some(tv) => {
                    let rest = eval_args_spec(fuel, args.drop_first(), ctx, acc.push(tv));
                    ArgsOutcome { result: rest.result, out: ao.out + rest.out }
                },
                None => ArgsOutcome { result: Err(FaultV::UnsupportedReification), out: ao.out },
            },
            Err(f) => ArgsOutcome { result: Err(f), out: ao.out },
        }
    }
}

} // verus!
