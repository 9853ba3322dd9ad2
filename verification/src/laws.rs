//! General laws of the semantics, stated over [`eval_spec`] and proved
//! once and for all: the remainder identity, the absence of
//! short-circuiting, the division-by-zero fault, and the reification
//! fault on tuple- or nil-valued call arguments.
use vstd::prelude::*;

use crate::ast::{BinaryOp, TermV};
use crate::eval::lemma_trunc_div_bounds;
use crate::semantics::{div_i32, eval_args_spec, eval_spec, reify, rem_i32, trunc_div_int,
    trunc_rem_int, FaultV, Outcome, ValueV};

verus! {

/// Truncating division and remainder satisfy the division identity, and
/// the remainder lies between zero and the dividend.
proof fn lemma_trunc_div_mod(x: int, d: int)
    requires
        d != 0,
    ensures
        x == d * trunc_div_int(x, d) + trunc_rem_int(x, d),
        x >= 0 ==> 0 <= trunc_rem_int(x, d) <= x,
        x < 0 ==> x <= trunc_rem_int(x, d) <= 0,
{
    if x != 0 {
        let p = if x < 0 { x * -1 } else { x };
        let e = if d < 0 { d * -1 } else { d };
        vstd::arithmetic::div_mod::lemma_fundamental_div_mod(p, e);
        vstd::arithmetic::div_mod::lemma_mod_bound(p, e);
        let qq = p / e;
        let rr = p % e;
        if p < e {
            vstd::arithmetic::div_mod::lemma_small_mod(p as nat, e as nat);
        }
        assert(rr <= p);
        if x > 0 && d > 0 {
        } else if x < 0 && d < 0 {
            assert(x == d * qq + rr * -1) by (nonlinear_arith)
                requires
                    p == e * qq + rr,
                    p == x * -1,
                    e == d * -1,
            ;
        } else if x < 0 {
            assert(x == d * (qq * -1) + rr * -1) by (nonlinear_arith)
                requires
                    p == e * qq + rr,
                    p == x * -1,
                    e == d,
            ;
        } else {
            assert(x == d * (qq * -1) + rr) by (nonlinear_arith)
                requires
                    p == e * qq + rr,
                    p == x,
                    e == d * -1,
            ;
        }
    }
}

/// Cropping a value already within `i32` range changes nothing.
proof fn lemma_signed_crop_identity(v: int)
    requires
        -0x8000_0000 <= v <= 0x7fff_ffff,
    ensures
        vstd::wrapping::i32_specs::signed_crop(v) == v as i32,
{
    if v >= 0 {
        vstd::arithmetic::div_mod::lemma_small_mod(v as nat, 0x1_0000_0000);
    } else {
        vstd::arithmetic::div_mod::lemma_mod_add_multiples_vanish(v, 0x1_0000_0000);
        vstd::arithmetic::div_mod::lemma_small_mod((v + 0x1_0000_0000) as nat, 0x1_0000_0000);
    }
}

/// The remainder identity at the value level: for every `b != 0`, the
/// remainder equals `a - b * (a / b)` as the evaluator computes it, with
/// the subtraction and multiplication wrapping exactly as `Sub` and `Mul`
/// do.
pub proof fn lemma_rem_is_sub_mul_div(a: i32, b: i32)
    requires
        b != 0,
    ensures
        rem_i32(a, b) == vstd::wrapping::i32_specs::wrapping_sub(
            a,
            vstd::wrapping::i32_specs::wrapping_mul(b, div_i32(a, b)),
        ),
{
    if a == i32::MIN && b == -1 {
        assert((b as int) * (div_i32(a, b) as int) == 0x8000_0000);
        vstd::arithmetic::div_mod::lemma_small_mod(0x8000_0000, 0x1_0000_0000);
    } else {
        let x = a as int;
        let d = b as int;
        lemma_trunc_div_mod(x, d);
        lemma_trunc_div_bounds(x, d);
        let q = trunc_div_int(x, d);
        let r = trunc_rem_int(x, d);
        let m = d * q;
        assert(m == x - r);
        lemma_signed_crop_identity(m);
        assert(vstd::wrapping::i32_specs::wrapping_mul(b, div_i32(a, b)) == m as i32);
        assert(a as int - (m as i32) as int == r);
    }
}

/// The output of a batch with nothing in it is nothing.
proof fn lemma_empty_out()
    ensures
        Seq::<Seq<char>>::empty() + Seq::<Seq<char>>::empty() == Seq::<Seq<char>>::empty(),
{
    assert(Seq::<Seq<char>>::empty() + Seq::<Seq<char>>::empty() =~= Seq::<Seq<char>>::empty());
}

/// For all integers `a` and `b` with `b != 0`, evaluating `a % b` yields
/// exactly the value of evaluating `a - b * (a / b)`: the remainder
/// identity under truncating division, with `Sub` and `Mul` wrapping.
/// Neither term prints anything.
pub proof fn lemma_rem_matches_div_identity(
    a: i32,
    b: i32,
    fuel: nat,
    ctx: Map<Seq<char>, TermV>,
    stack: Seq<TermV>,
)
    requires
        b != 0,
        fuel >= 4,
    ensures
        ({
            let rem_t = TermV::Binary {
                op: BinaryOp::Rem,
                lhs: Box::new(TermV::Int { value: a }),
                rhs: Box::new(TermV::Int { value: b }),
            };
            let id_t = TermV::Binary {
                op: BinaryOp::Sub,
                lhs: Box::new(TermV::Int { value: a }),
                rhs: Box::new(TermV::Binary {
                    op: BinaryOp::Mul,
                    lhs: Box::new(TermV::Int { value: b }),
                    rhs: Box::new(TermV::Binary {
                        op: BinaryOp::Div,
                        lhs: Box::new(TermV::Int { value: a }),
                        rhs: Box::new(TermV::Int { value: b }),
                    }),
                }),
            };
            &&& eval_spec(fuel, rem_t, ctx, stack) == Outcome {
                result: Ok::<ValueV, FaultV>(ValueV::Int(rem_i32(a, b))),
                out: Seq::empty(),
            }
            &&& eval_spec(fuel, id_t, ctx, stack) == Outcome {
                result: Ok::<ValueV, FaultV>(ValueV::Int(rem_i32(a, b))),
                out: Seq::empty(),
            }
        }),
{
    reveal_with_fuel(eval_spec, 6);
    lemma_empty_out();
    lemma_rem_is_sub_mul_div(a, b);
}

/// `Or` (like every binary operator) evaluates its right operand even
/// when the left operand is already true: a fault in the right operand
/// propagates, together with whatever the right operand printed first.
pub proof fn lemma_or_does_not_short_circuit(
    rhs: TermV,
    fuel: nat,
    ctx: Map<Seq<char>, TermV>,
    stack: Seq<TermV>,
)
    requires
        fuel >= 2,
        eval_spec((fuel - 1) as nat, rhs, ctx, stack).result is Err,
    ensures
        ({
            let or_t = TermV::Binary {
                op: BinaryOp::Or,
                lhs: Box::new(TermV::Bool { value: true }),
                rhs: Box::new(rhs),
            };
            let ro = eval_spec((fuel - 1) as nat, rhs, ctx, stack);
            eval_spec(fuel, or_t, ctx, stack) == Outcome { result: ro.result, out: ro.out }
        }),
{
    reveal_with_fuel(eval_spec, 3);
    let ro = eval_spec((fuel - 1) as nat, rhs, ctx, stack);
    assert(Seq::<Seq<char>>::empty() + ro.out =~= ro.out);
}

/// Division and remainder by zero fault with `ArithmeticFault` and
/// produce no value and no output.
pub proof fn lemma_division_by_zero_faults(
    a: i32,
    fuel: nat,
    ctx: Map<Seq<char>, TermV>,
    stack: Seq<TermV>,
)
    requires
        fuel >= 2,
    ensures
        ({
            let div_t = TermV::Binary {
                op: BinaryOp::Div,
                lhs: Box::new(TermV::Int { value: a }),
                rhs: Box::new(TermV::Int { value: 0 }),
            };
            let rem_t = TermV::Binary {
                op: BinaryOp::Rem,
                lhs: Box::new(TermV::Int { value: a }),
                rhs: Box::new(TermV::Int { value: 0 }),
            };
            &&& eval_spec(fuel, div_t, ctx, stack) == Outcome {
                result: Err::<ValueV, FaultV>(FaultV::ArithmeticFault),
                out: Seq::empty(),
            }
            &&& eval_spec(fuel, rem_t, ctx, stack) == Outcome {
                result: Err::<ValueV, FaultV>(FaultV::ArithmeticFault),
                out: Seq::empty(),
            }
        }),
{
    reveal_with_fuel(eval_spec, 3);
    lemma_empty_out();
}

/// A call whose argument evaluates to a tuple or to nil faults with
/// `UnsupportedReification`, whatever the callee is: such a value cannot
/// be reified onto the argument stack.
pub proof fn lemma_tuple_argument_faults(
    callee: TermV,
    arg: TermV,
    fuel: nat,
    ctx: Map<Seq<char>, TermV>,
    stack: Seq<TermV>,
)
    requires
        fuel >= 1,
        eval_spec((fuel - 1) as nat, arg, ctx, Seq::empty()).result is Ok,
        reify(eval_spec((fuel - 1) as nat, arg, ctx, Seq::empty()).result->Ok_0) is None,
    ensures
        ({
            let call_t = TermV::Call { callee: Box::new(callee), arguments: seq![arg] };
            let ao = eval_spec((fuel - 1) as nat, arg, ctx, Seq::empty());
            eval_spec(fuel, call_t, ctx, stack) == Outcome {
                result: Err::<ValueV, FaultV>(FaultV::UnsupportedReification),
                out: ao.out,
            }
        }),
{
    reveal_with_fuel(eval_spec, 2);
    reveal_with_fuel(eval_args_spec, 2);
    let args = seq![arg];
    assert(args.first() == arg);
}

/// Scoping is dynamic: when the same name is bound twice by nested
/// `Let`s and then read inside the body of a function called under the
/// inner binding, the reference resolves to the innermost binding active
/// in the caller's context at call time — evaluation continues with the
/// inner bound term, under a context in which it has shadowed the outer
/// one, and with the fresh empty argument stack of the call.
pub proof fn lemma_reference_uses_callers_binding(
    name: Seq<char>,
    outer: TermV,
    inner: TermV,
    fuel: nat,
    ctx: Map<Seq<char>, TermV>,
    stack: Seq<TermV>,
)
    requires
        fuel >= 5,
    ensures
        ({
            let program = TermV::Let {
                name: name,
                value: Box::new(outer),
                next: Box::new(TermV::Let {
                    name: name,
                    value: Box::new(inner),
                    next: Box::new(TermV::Call {
                        callee: Box::new(TermV::Function {
                            parameters: Seq::empty(),
                            body: Box::new(TermV::Var { text: name }),
                        }),
                        arguments: Seq::empty(),
                    }),
                }),
            };
            let continued = eval_spec(
                (fuel - 5) as nat,
                inner,
                ctx.insert(name, outer).insert(name, inner),
                Seq::empty(),
            );
            eval_spec(fuel, program, ctx, stack) == Outcome {
                result: continued.result,
                out: continued.out,
            }
        }),
{
    reveal_with_fuel(eval_spec, 6);
    reveal_with_fuel(eval_args_spec, 2);
    let shadowed = ctx.insert(name, outer).insert(name, inner);
    assert(shadowed.contains_key(name));
    assert(shadowed[name] == inner);
    let continued = eval_spec((fuel - 5) as nat, inner, shadowed, Seq::empty());
    assert(Seq::<Seq<char>>::empty() + continued.out =~= continued.out);
}

} // verus!
