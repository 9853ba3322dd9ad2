//! The executable evaluator: runtime values, faults, the variable context,
//! and the interpreter itself, each proved against the semantics in
//! [`crate::semantics`].
use vstd::prelude::*;

use crate::ast::{Bool, BinaryOp, File, Int, Location, Str, Term, TermV, Var};
use crate::semantics::{apply_binary, bind_params, dec_digit_char, dec_i32, dec_nat,
    eval_args_spec, eval_spec, lex_lt, op_name, reify, render, trunc_div_int, trunc_rem_int,
    truthy, val_eq, FaultV, ValueV};

verus! {

broadcast use vstd::std_specs::vec::axiom_vec_index_decreases;

/// The runtime result of evaluating a term.
#[derive(Debug, PartialEq)]
pub enum Value {
    Int(i32),
    Str(String),
    Bool(bool),
    Tuple(Box<Value>, Box<Value>),
    Nil,
}

/// An unrecoverable evaluation fault; it aborts the whole run.
#[derive(Debug, PartialEq)]
pub enum Fault {
    /// A `Var` read a name absent from the context.
    UndefinedVariable(String),
    /// An operand of the named operation had the wrong kind.
    TypeFault(String),
    /// Division or remainder by zero.
    ArithmeticFault,
    /// A call argument evaluated to a tuple or nil.
    UnsupportedReification,
    /// The recursion bound was exceeded.
    StackExhausted,
}

/// The view of a value: the same shape with text as character sequences.
pub open spec fn value_view(v: Value) -> ValueV
    decreases v,
{
    match v {
        Value::Int(i) => ValueV::Int(i),
        Value::Str(s) => ValueV::Str(s@),
        Value::Bool(b) => ValueV::Bool(b),
        Value::Tuple(a, b) => ValueV::Tuple(Box::new(value_view(*a)), Box::new(value_view(*b))),
        Value::Nil => ValueV::Nil,
    }
}

impl View for Value {
    type V = ValueV;

    open spec fn view(&self) -> ValueV {
        value_view(*self)
    }
}

impl View for Fault {
    type V = FaultV;

    open spec fn view(&self) -> FaultV {
        match *self {
            Fault::UndefinedVariable(ref s) => FaultV::UndefinedVariable(s@),
            Fault::TypeFault(ref s) => FaultV::TypeFault(s@),
            Fault::ArithmeticFault => FaultV::ArithmeticFault,
            Fault::UnsupportedReification => FaultV::UnsupportedReification,
            Fault::StackExhausted => FaultV::StackExhausted,
        }
    }
}

/// One decimal digit as a string slice.
fn digit_str(d: u64) -> (r: &'static str)
    requires
        d < 10,
    ensures
        r@ == seq![dec_digit_char(d as nat)],
{
    proof {
        reveal_strlit("0");
        reveal_strlit("1");
        reveal_strlit("2");
        reveal_strlit("3");
        reveal_strlit("4");
        reveal_strlit("5");
        reveal_strlit("6");
        reveal_strlit("7");
        reveal_strlit("8");
        reveal_strlit("9");
    }
    let r: &'static str = match d {
        0 => "0",
        1 => "1",
        2 => "2",
        3 => "3",
        4 => "4",
        5 => "5",
        6 => "6",
        7 => "7",
        8 => "8",
        _ => "9",
    };
    proof {
        assert(r@ =~= seq![dec_digit_char(d as nat)]);
    }
    r
}

/// Appends the decimal digits of `n` to `s`, most significant first.
fn push_digits(n: u64, s: &mut String)
    ensures
        final(s)@ == old(s)@ + dec_nat(n as nat),
    decreases n,
{
    if n < 10 {
        s.append(digit_str(n));
        proof {
            assert(final(s)@ =~= old(s)@ + dec_nat(n as nat));
        }
    } else {
        proof {
            vstd::arithmetic::div_mod::lemma_div_is_strictly_smaller(n as int, 10);
        }
        push_digits(n / 10, s);
        s.append(digit_str(n % 10));
        proof {
            assert(final(s)@ =~= old(s)@ + dec_nat(n as nat));
        }
    }
}

/// The decimal rendering of an `i32`, sign included.
fn int_to_string(i: i32) -> (r: String)
    ensures
        r@ == dec_i32(i),
{
    let mut s = String::new();
    if i < 0 {
        proof {
            reveal_strlit("-");
        }
        s.append("-");
        let n: u64 = (-(i as i64)) as u64;
        push_digits(n, &mut s);
        proof {
            assert(s@ =~= dec_i32(i));
        }
    } else {
        push_digits(i as u64, &mut s);
        proof {
            assert(s@ =~= dec_i32(i));
        }
    }
    s
}

impl Value {
    /// Whether this value is an integer.
    pub fn is_int(&self) -> (r: bool)
        ensures
            r == (self@ is Int),
    {
        match self {
            Value::Int(_) => true,
            Value::Str(_) => false,
            Value::Bool(_) => false,
            Value::Tuple(_, _) => false,
            Value::Nil => false,
        }
    }

    /// Whether this value is a string.
    pub fn is_string(&self) -> (r: bool)
        ensures
            r == (self@ is Str),
    {
        match self {
            Value::Int(_) => false,
            Value::Str(_) => true,
            Value::Bool(_) => false,
            Value::Tuple(_, _) => false,
            Value::Nil => false,
        }
    }

    /// The integer held by an `Int` value; any other kind is a type fault.
    pub fn to_int(&self) -> (r: Result<i32, Fault>)
        ensures
            self@ is Int <==> r is Ok,
            r is Ok ==> self@ == ValueV::Int(r->Ok_0),
            r is Err ==> r->Err_0@ == FaultV::TypeFault("int"@),
    {
        match self {
            Value::Int(i) => Ok(*i),
            _ => Err(Fault::TypeFault(String::from_str("int"))),
        }
    }

    /// Truthiness: nonzero integers, non-empty strings and `true` are
    /// truthy; tuples and nil never are.
    pub fn to_bool(&self) -> (r: bool)
        ensures
            r == truthy(self@),
    {
        match self {
            Value::Int(i) => *i != 0,
            Value::Str(s) => !s.as_str().is_empty(),
            Value::Bool(b) => *b,
            Value::Tuple(_, _) => false,
            Value::Nil => false,
        }
    }

    /// The canonical text form of this value.
    pub fn to_string(&self) -> (r: String)
        ensures
            r@ == render(self@),
        decreases *self,
    {
        match self {
            Value::Int(i) => int_to_string(*i),
            Value::Str(s) => s.clone(),
            Value::Bool(b) => if *b {
                String::from_str("true")
            } else {
                String::from_str("false")
            },
            Value::Tuple(a, b) => {
                let mut s = String::from_str("(");
                let sa = a.to_string();
                s.append(sa.as_str());
                s.append(", ");
                let sb = b.to_string();
                s.append(sb.as_str());
                s.append(")");
                proof {
                    assert(s@ =~= render(self@));
                }
                s
            },
            Value::Nil => String::from_str("nil"),
        }
    }

    /// This value turned back into a literal term (with an empty
    /// location), for argument passing.  Tuples and nil cannot be
    /// reified.
    pub fn to_term(&self) -> (r: Result<Term, Fault>)
        ensures
            reify(self@) is Some <==> r is Ok,
            r is Ok ==> reify(self@) == Some((r->Ok_0)@),
            r is Err ==> r->Err_0@ == FaultV::UnsupportedReification,
    {
        match self {
            Value::Int(i) => Ok(Term::Int(Int { value: *i, location: empty_location() })),
            Value::Str(s) => Ok(Term::Str(Str { value: s.clone(), location: empty_location() })),
            Value::Bool(b) => Ok(Term::Bool(Bool { value: *b, location: empty_location() })),
            _ => Err(Fault::UnsupportedReification),
        }
    }
}

/// The placeholder location carried by reified terms.
fn empty_location() -> (r: Location) {
    Location { start: 0, end: 0, filename: String::new() }
}

/// Dropping an equal prefix does not change which sequence is
/// lexicographically smaller.
proof fn lemma_lex_lt_skip(a: Seq<char>, b: Seq<char>, i: int)
    requires
        0 <= i <= a.len(),
        i <= b.len(),
        forall|k: int| 0 <= k < i ==> a[k] == b[k],
    ensures
        lex_lt(a, b) == lex_lt(a.skip(i), b.skip(i)),
    decreases i,
{
    if i > 0 {
        lemma_lex_lt_skip(a.drop_first(), b.drop_first(), i - 1);
        assert(a.drop_first().skip(i - 1) =~= a.skip(i));
        assert(b.drop_first().skip(i - 1) =~= b.skip(i));
    } else {
        assert(a.skip(0) =~= a);
        assert(b.skip(0) =~= b);
    }
}

/// Lexicographic comparison of two strings, character by character.
fn str_lt(a: &str, b: &str) -> (r: bool)
    ensures
        r == lex_lt(a@, b@),
{
    let alen = a.unicode_len();
    let blen = b.unicode_len();
    let mut i: usize = 0;
    while i < alen && i < blen
        invariant
            i <= alen,
            i <= blen,
            alen == a@.len(),
            blen == b@.len(),
            forall|k: int| 0 <= k < i ==> a@[k] == b@[k],
        decreases alen - i,
    {
        let ca = a.get_char(i);
        let cb = b.get_char(i);
        if ca != cb {
            proof {
                lemma_lex_lt_skip(a@, b@, i as int);
            }
            return ca < cb;
        }
        i = i + 1;
    }
    proof {
        lemma_lex_lt_skip(a@, b@, i as int);
    }
    alen < blen
}

/// Structural equality of two values.
fn value_eq(a: &Value, b: &Value) -> (r: bool)
    ensures
        r == val_eq(a@, b@),
    decreases *a,
{
    match (a, b) {
        (Value::Int(x), Value::Int(y)) => *x == *y,
        (Value::Str(x), Value::Str(y)) => *x == *y,
        (Value::Bool(x), Value::Bool(y)) => *x == *y,
        (Value::Tuple(a1, a2), Value::Tuple(b1, b2)) => value_eq(a1, b1) && value_eq(a2, b2),
        (Value::Nil, Value::Nil) => true,
        _ => false,
    }
}

/// The short operation name of an operator, for fault payloads.
fn op_string(op: BinaryOp) -> (r: String)
    ensures
        r@ == op_name(op),
{
    match op {
        BinaryOp::Add => String::from_str("add"),
        BinaryOp::Sub => String::from_str("sub"),
        BinaryOp::Mul => String::from_str("mul"),
        BinaryOp::Div => String::from_str("div"),
        BinaryOp::Rem => String::from_str("rem"),
        BinaryOp::Eq => String::from_str("eq"),
        BinaryOp::Neq => String::from_str("neq"),
        BinaryOp::Lt => String::from_str("lt"),
        BinaryOp::Gt => String::from_str("gt"),
        BinaryOp::Lte => String::from_str("lte"),
        BinaryOp::Gte => String::from_str("gte"),
        BinaryOp::And => String::from_str("and"),
        BinaryOp::Or => String::from_str("or"),
    }
}

/// Whether an executable result agrees, view for view, with a result of
/// the semantics.
pub open spec fn res_matches(r: Result<Value, Fault>, s: Result<ValueV, FaultV>) -> bool {
    match (r, s) {
        (Ok(v), Ok(vv)) => v@ == vv,
        (Err(f), Err(ff)) => f@ == ff,
        _ => false,
    }
}

/// The truncating `i32` quotient stays within `i32` except for
/// `i32::MIN / -1`.
pub(crate) proof fn lemma_trunc_div_bounds(x: int, d: int)
    requires
        d != 0,
        -0x8000_0000 <= x <= 0x7fff_ffff,
        -0x8000_0000 <= d <= 0x7fff_ffff,
        !(x == -0x8000_0000 && d == -1),
    ensures
        -0x8000_0000 <= trunc_div_int(x, d) <= 0x7fff_ffff,
{
    if x != 0 {
        let p = if x < 0 { x * -1 } else { x };
        let q = if d < 0 { d * -1 } else { d };
        vstd::arithmetic::div_mod::lemma_div_pos_is_pos(p, q);
        vstd::arithmetic::div_mod::lemma_div_nonincreasing(p, q);
        if q >= 2 {
            vstd::arithmetic::div_mod::lemma_div_is_ordered_by_denominator(p, 2, q);
            vstd::arithmetic::div_mod::lemma_div_nonincreasing(p / 2, 2);
            vstd::arithmetic::div_mod::lemma_fundamental_div_mod(p, 2);
        }
    }
}

/// The truncating `i32` remainder always stays within `i32`.
proof fn lemma_trunc_rem_bounds(x: int, d: int)
    requires
        d != 0,
        -0x8000_0000 <= x <= 0x7fff_ffff,
        -0x8000_0000 <= d <= 0x7fff_ffff,
    ensures
        -0x8000_0000 <= trunc_rem_int(x, d) <= 0x7fff_ffff,
{
    if x != 0 {
        let p = if x < 0 { x * -1 } else { x };
        let q = if d < 0 { d * -1 } else { d };
        vstd::arithmetic::div_mod::lemma_mod_bound(p, q);
    }
}

/// What a binary operator computes, mirrored from
/// [`crate::semantics::apply_binary`]; both operands are already in hand.
fn run_binary(op: BinaryOp, a: Value, b: Value) -> (r: Result<Value, Fault>)
    ensures
        res_matches(r, apply_binary(op, a@, b@)),
{
    match op {
        BinaryOp::Add => match (&a, &b) {
            (Value::Int(x), Value::Int(y)) => Ok(Value::Int(x.wrapping_add(*y))),
            _ => {
                if a.is_string() || b.is_string() {
                    let mut s = a.to_string();
                    let sb = b.to_string();
                    s.append(sb.as_str());
                    Ok(Value::Str(s))
                } else {
                    Err(Fault::TypeFault(op_string(op)))
                }
            },
        },
        BinaryOp::Sub => match (&a, &b) {
            (Value::Int(x), Value::Int(y)) => Ok(Value::Int(x.wrapping_sub(*y))),
            _ => Err(Fault::TypeFault(op_string(op))),
        },
        BinaryOp::Mul => match (&a, &b) {
            (Value::Int(x), Value::Int(y)) => Ok(Value::Int(x.wrapping_mul(*y))),
            _ => Err(Fault::TypeFault(op_string(op))),
        },
        BinaryOp::Div => match (&a, &b) {
            (Value::Int(x), Value::Int(y)) => {
                if *y == 0 {
                    Err(Fault::ArithmeticFault)
                } else if *x == i32::MIN && *y == -1 {
                    Ok(Value::Int(i32::MIN))
                } else {
                    proof {
                        lemma_trunc_div_bounds(*x as int, *y as int);
                    }
                    Ok(Value::Int(x.checked_div(*y).unwrap()))
                }
            },
            _ => Err(Fault::TypeFault(op_string(op))),
        },
        BinaryOp::Rem => match (&a, &b) {
            (Value::Int(x), Value::Int(y)) => {
                if *y == 0 {
                    Err(Fault::ArithmeticFault)
                } else if *x == i32::MIN && *y == -1 {
                    Ok(Value::Int(0))
                } else {
                    proof {
                        lemma_trunc_rem_bounds(*x as int, *y as int);
                    }
                    Ok(Value::Int(x.checked_rem(*y).unwrap()))
                }
            },
            _ => Err(Fault::TypeFault(op_string(op))),
        },
        BinaryOp::Eq => Ok(Value::Bool(value_eq(&a, &b))),
        BinaryOp::Neq => Ok(Value::Bool(!value_eq(&a, &b))),
        BinaryOp::Lt => match (&a, &b) {
            (Value::Int(x), Value::Int(y)) => Ok(Value::Bool(*x < *y)),
            (Value::Str(x), Value::Str(y)) => Ok(Value::Bool(str_lt(x.as_str(), y.as_str()))),
            (Value::Bool(x), Value::Bool(y)) => Ok(Value::Bool(!*x && *y)),
            _ => Err(Fault::TypeFault(op_string(op))),
        },
        BinaryOp::Gt => match (&a, &b) {
            (Value::Int(x), Value::Int(y)) => Ok(Value::Bool(*x > *y)),
            (Value::Str(x), Value::Str(y)) => Ok(Value::Bool(str_lt(y.as_str(), x.as_str()))),
            (Value::Bool(x), Value::Bool(y)) => Ok(Value::Bool(*x && !*y)),
            _ => Err(Fault::TypeFault(op_string(op))),
        },
        BinaryOp::Lte => match (&a, &b) {
            (Value::Int(x), Value::Int(y)) => Ok(Value::Bool(*x <= *y)),
            (Value::Str(x), Value::Str(y)) => Ok(
                Value::Bool(str_lt(x.as_str(), y.as_str()) || *x == *y),
            ),
            (Value::Bool(x), Value::Bool(y)) => Ok(Value::Bool(!*x || *y)),
            _ => Err(Fault::TypeFault(op_string(op))),
        },
        BinaryOp::Gte => match (&a, &b) {
            (Value::Int(x), Value::Int(y)) => Ok(Value::Bool(*x >= *y)),
            (Value::Str(x), Value::Str(y)) => Ok(
                Value::Bool(str_lt(y.as_str(), x.as_str()) || *x == *y),
            ),
            (Value::Bool(x), Value::Bool(y)) => Ok(Value::Bool(*x || !*y)),
            _ => Err(Fault::TypeFault(op_string(op))),
        },
        BinaryOp::And => Ok(Value::Bool(a.to_bool() && b.to_bool())),
        BinaryOp::Or => Ok(Value::Bool(a.to_bool() || b.to_bool())),
    }
}

/// The variable context: a mapping from name to the bound, unevaluated
/// term.  Entries are kept in binding order; the latest binding of a name
/// shadows the earlier ones.
pub struct Ctx {
    entries: Vec<(String, Term)>,
}

/// The mapping that a list of bindings denotes: later entries shadow
/// earlier ones.
pub open spec fn ctx_view(entries: Seq<(String, Term)>) -> Map<Seq<char>, TermV>
    decreases entries.len(),
{
    if entries.len() == 0 {
        Map::empty()
    } else {
        ctx_view(entries.drop_last()).insert(entries.last().0@, entries.last().1@)
    }
}

impl View for Ctx {
    type V = Map<Seq<char>, TermV>;

    closed spec fn view(&self) -> Map<Seq<char>, TermV> {
        ctx_view(self.entries@)
    }
}

/// The latest entry holding a name gives that name's value in the
/// denoted mapping.
proof fn lemma_ctx_lookup_hit(entries: Seq<(String, Term)>, name: Seq<char>, i: int)
    requires
        0 <= i < entries.len(),
        entries[i].0@ == name,
        forall|k: int| i < k < entries.len() ==> (#[trigger] entries[k].0)@ != name,
    ensures
        ctx_view(entries).contains_key(name),
        ctx_view(entries)[name] == entries[i].1@,
    decreases entries.len(),
{
    if i < entries.len() - 1 {
        let d = entries.drop_last();
        assert(forall|k: int| i < k < d.len() ==> (#[trigger] d[k].0)@ != name);
        lemma_ctx_lookup_hit(d, name, i);
    }
}

/// A name held by no entry is absent from the denoted mapping.
proof fn lemma_ctx_lookup_miss(entries: Seq<(String, Term)>, name: Seq<char>)
    requires
        forall|k: int| 0 <= k < entries.len() ==> (#[trigger] entries[k].0)@ != name,
    ensures
        !ctx_view(entries).contains_key(name),
    decreases entries.len(),
{
    if entries.len() > 0 {
        let d = entries.drop_last();
        assert(forall|k: int| 0 <= k < d.len() ==> (#[trigger] d[k].0)@ != name);
        lemma_ctx_lookup_miss(d, name);
    }
}

/// Binding lists equal in view denote the same mapping.
proof fn lemma_ctx_view_congruence(a: Seq<(String, Term)>, b: Seq<(String, Term)>)
    requires
        a.len() == b.len(),
        forall|k: int|
            0 <= k < a.len() ==> (#[trigger] a[k].0)@ == b[k].0@ && a[k].1@ == b[k].1@,
    ensures
        ctx_view(a) == ctx_view(b),
    decreases a.len(),
{
    if a.len() > 0 {
        let da = a.drop_last();
        let db = b.drop_last();
        assert(forall|k: int|
            0 <= k < da.len() ==> (#[trigger] da[k].0)@ == db[k].0@ && da[k].1@ == db[k].1@);
        lemma_ctx_view_congruence(da, db);
    }
}

impl Ctx {
    /// The empty context.
    pub fn new() -> (r: Ctx)
        ensures
            r@ == Map::<Seq<char>, TermV>::empty(),
    {
        Ctx { entries: Vec::new() }
    }

    /// Adds a binding; it shadows any earlier binding of the same name.
    pub fn bind(&mut self, name: String, value: Term)
        ensures
            final(self)@ == old(self)@.insert(name@, value@),
    {
        let ghost gname = name@;
        let ghost gvalue = value@;
        self.entries.push((name, value));
        proof {
            assert(self.entries@.drop_last() =~= old(self).entries@);
            assert(self.entries@.last().0@ == gname);
            assert(self.entries@.last().1@ == gvalue);
        }
    }

    /// A fresh context denoting the same mapping.
    pub fn dup(&self) -> (r: Ctx)
        ensures
            r@ == self@,
    {
        let mut entries: Vec<(String, Term)> = Vec::new();
        let mut i: usize = 0;
        while i < self.entries.len()
            invariant
                i <= self.entries@.len(),
                entries@.len() == i,
                forall|k: int|
                    0 <= k < i ==> (#[trigger] entries@[k].0)@ == self.entries@[k].0@
                        && entries@[k].1@ == self.entries@[k].1@,
            decreases self.entries@.len() - i,
        {
            let name = self.entries[i].0.clone();
            let term = self.entries[i].1.deep_clone();
            entries.push((name, term));
            i = i + 1;
        }
        let r = Ctx { entries };
        proof {
            lemma_ctx_view_congruence(r.entries@, self.entries@);
        }
        r
    }

    /// The term bound to a name, if any: the latest binding wins.
    pub fn lookup(&self, name: &String) -> (r: Option<&Term>)
        ensures
            r is Some <==> self@.contains_key(name@),
            r is Some ==> r->Some_0@ == self@[name@],
    {
        let mut i: usize = self.entries.len();
        while i > 0
            invariant
                i <= self.entries@.len(),
                forall|k: int|
                    i <= k < self.entries@.len() ==> (#[trigger] self.entries@[k].0)@ != name@,
            decreases i,
        {
            i = i - 1;
            if self.entries[i].0 == *name {
                proof {
                    lemma_ctx_lookup_hit(self.entries@, name@, i as int);
                }
                return Some(&self.entries[i].1);
            }
        }
        proof {
            lemma_ctx_lookup_miss(self.entries@, name@);
        }
        None
    }
}

/// The argument stack: the reified argument terms of the nearest
/// enclosing call, in order.
pub type Stack = Vec<Term>;

/// The views of the terms on an argument stack.
pub open spec fn stack_view(s: Seq<Term>) -> Seq<TermV> {
    s.map_values(|t: Term| t@)
}

/// The views of the output lines collected so far.
pub open spec fn out_lines(v: Seq<String>) -> Seq<Seq<char>> {
    v.map_values(|s: String| s@)
}

/// Concatenating an empty batch of output lines changes nothing.
proof fn out_cat_empty(a: Seq<Seq<char>>)
    ensures
        a + Seq::<Seq<char>>::empty() == a,
{
    assert(a + Seq::<Seq<char>>::empty() =~= a);
}

/// Output batches concatenate associatively.
proof fn out_cat_assoc(a: Seq<Seq<char>>, b: Seq<Seq<char>>, c: Seq<Seq<char>>)
    ensures
        a + (b + c) == (a + b) + c,
{
    assert(a + (b + c) =~= (a + b) + c);
}

/// A line pushed after a concatenation lands at the very end.
proof fn out_cat_push(a: Seq<Seq<char>>, b: Seq<Seq<char>>, l: Seq<char>)
    ensures
        (a + b).push(l) == a + b.push(l),
{
    assert((a + b).push(l) =~= a + b.push(l));
}

/// Pushing an output line commutes with taking views.
proof fn out_lines_push(v: Seq<String>, s: String)
    ensures
        out_lines(v.push(s)) == out_lines(v).push(s@),
{
    assert(out_lines(v.push(s)) =~= out_lines(v).push(s@));
}

/// Pushing a term commutes with taking stack views.
proof fn stack_view_push(v: Seq<Term>, t: Term)
    ensures
        stack_view(v.push(t)) == stack_view(v).push(t@),
{
    assert(stack_view(v.push(t)) =~= stack_view(v).push(t@));
}

/// The tree-walking evaluator.  It carries the output emitted so far;
/// evaluation appends to it, line by line, in evaluation order.
pub struct Interpreter {
    /// The lines printed by `Print` so far, each without its newline.
    pub output: Vec<String>,
}

impl Interpreter {
    /// A fresh interpreter with no output.
    pub fn new() -> (r: Interpreter)
        ensures
            r.output@ == Seq::<String>::empty(),
    {
        Interpreter { output: Vec::new() }
    }

    /// Evaluates a whole document: the root expression under an empty
    /// context and an empty argument stack, with the given recursion
    /// bound.
    pub fn eval(&mut self, file: &File, fuel: u64) -> (r: Result<Value, Fault>)
        ensures
            ({
                let o = eval_spec(
                    fuel as nat,
                    file.expression@,
                    Map::empty(),
                    Seq::empty(),
                );
                &&& out_lines(final(self).output@) == out_lines(old(self).output@) + o.out
                &&& res_matches(r, o.result)
            }),
    {
        let ctx = Ctx::new();
        let call_stack: Stack = Vec::new();
        let r = self.eval_expr(&file.expression, &ctx, &call_stack, fuel);
        proof {
            assert(stack_view(call_stack@) =~= Seq::<TermV>::empty());
        }
        r
    }

    /// Evaluates one term under a context and an argument stack.  The
    /// result and every output line agree with the semantics
    /// [`eval_spec`] at the same fuel.
    pub fn eval_expr(&mut self, expr: &Term, ctx: &Ctx, call_stack: &Stack, fuel: u64) -> (r:
        Result<Value, Fault>)
        ensures
            ({
                let o = eval_spec(fuel as nat, expr@, ctx@, stack_view(call_stack@));
                &&& out_lines(final(self).output@) == out_lines(old(self).output@) + o.out
                &&& res_matches(r, o.result)
            }),
        decreases fuel,
    {
        proof {
            out_cat_empty(out_lines(self.output@));
        }
        if fuel == 0 {
            return Err(Fault::StackExhausted);
        }
        match expr {
            Term::Int(n) => Ok(Value::Int(n.value)),
            Term::Str(s) => Ok(Value::Str(s.value.clone())),
            Term::Bool(b) => Ok(Value::Bool(b.value)),
            Term::Var(v) => match ctx.lookup(&v.text) {
                Some(t) => self.eval_expr(t, ctx, call_stack, fuel - 1),
                None => Err(Fault::UndefinedVariable(v.text.clone())),
            },
            Term::Let(l) => {
                let mut local = ctx.dup();
                local.bind(l.name.text.clone(), l.value.deep_clone());
                self.eval_expr(&l.next, &local, call_stack, fuel - 1)
            },
            Term::Function(f) => {
                let mut local = ctx.dup();
                let n = if f.parameters.len() < call_stack.len() {
                    f.parameters.len()
                } else {
                    call_stack.len()
                };
                let ghost pv = f.parameters@.map_values(|p: Var| p.text@);
                let ghost sv = stack_view(call_stack@);
                let mut i: usize = 0;
                proof {
                    assert(pv.skip(0) =~= pv);
                    assert(sv.skip(0) =~= sv);
                }
                while i < n
                    invariant
                        i <= n,
                        n == if pv.len() < sv.len() {
                            pv.len()
                        } else {
                            sv.len()
                        },
                        pv == f.parameters@.map_values(|p: Var| p.text@),
                        sv == stack_view(call_stack@),
                        bind_params(ctx@, pv, sv) == bind_params(
                            local@,
                            pv.skip(i as int),
                            sv.skip(i as int),
                        ),
                    decreases n - i,
                {
                    local.bind(f.parameters[i].text.clone(), call_stack[i].deep_clone());
                    proof {
                        assert(pv.skip(i as int).drop_first() =~= pv.skip(i as int + 1));
                        assert(sv.skip(i as int).drop_first() =~= sv.skip(i as int + 1));
                    }
                    i = i + 1;
                }
                proof {
                    assert(pv.skip(n as int).len() == 0 || sv.skip(n as int).len() == 0);
                }
                self.eval_expr(&f.value, &local, call_stack, fuel - 1)
            },
            Term::Call(c) => {
                let ghost args_v = expr@->Call_arguments;
                let ghost full = eval_args_spec(fuel as nat, args_v, ctx@, Seq::empty());
                let ghost out0 = out_lines(self.output@);
                let ghost mut acc_out: Seq<Seq<char>> = Seq::empty();
                let mut new_stack: Stack = Vec::new();
                let mut i: usize = 0;
                proof {
                    assert(stack_view(new_stack@) =~= Seq::<TermV>::empty());
                    assert(args_v.skip(0) =~= args_v);
                }
                while i < c.arguments.len()
                    invariant
                        fuel >= 1,
                        i <= c.arguments@.len(),
                        expr@ is Call,
                        args_v == expr@->Call_arguments,
                        out0 == out_lines(old(self).output@),
                        args_v.len() == c.arguments@.len(),
                        forall|j: int|
                            0 <= j < c.arguments@.len() ==> args_v[j] == (
                            #[trigger] c.arguments@[j])@,
                        full == eval_args_spec(fuel as nat, args_v, ctx@, Seq::empty()),
                        out_lines(self.output@) == out0 + acc_out,
                        ({
                            let rest = eval_args_spec(
                                fuel as nat,
                                args_v.skip(i as int),
                                ctx@,
                                stack_view(new_stack@),
                            );
                            &&& full.result == rest.result
                            &&& full.out == acc_out + rest.out
                        }),
                    decreases c.arguments@.len() - i,
                {
                    let ghost stack_before = stack_view(new_stack@);
                    let arg_result = self.eval_expr(&c.arguments[i], ctx, &new_stack, fuel - 1);
                    let ghost o_i = eval_spec(
                        (fuel - 1) as nat,
                        args_v[i as int],
                        ctx@,
                        stack_before,
                    );
                    proof {
                        assert(args_v.skip(i as int).first() == args_v[i as int]);
                    }
                    match arg_result {
                        Ok(v) => match v.to_term() {
                            Ok(t) => {
                                let ghost vec_old = new_stack@;
                                let ghost acc_old = acc_out;
                                new_stack.push(t);
                                proof {
                                    stack_view_push(vec_old, t);
                                    assert(args_v.skip(i as int).drop_first() =~= args_v.skip(
                                        i as int + 1,
                                    ));
                                    let rest_next = eval_args_spec(
                                        fuel as nat,
                                        args_v.skip(i as int + 1),
                                        ctx@,
                                        stack_view(new_stack@),
                                    );
                                    out_cat_assoc(out0, acc_old, o_i.out);
                                    out_cat_assoc(acc_old, o_i.out, rest_next.out);
                                    acc_out = acc_old + o_i.out;
                                }
                                i = i + 1;
                            },
                            Err(f) => {
                                proof {
                                    out_cat_assoc(out0, acc_out, o_i.out);
                                }
                                return Err(f);
                            },
                        },
                        Err(f) => {
                            proof {
                                out_cat_assoc(out0, acc_out, o_i.out);
                            }
                            return Err(f);
                        },
                    }
                }
                proof {
                    assert(args_v.skip(i as int).len() == 0);
                    out_cat_empty(acc_out);
                }
                let callee_result = self.eval_expr(&c.callee, ctx, &new_stack, fuel - 1);
                proof {
                    let co = eval_spec(
                        (fuel - 1) as nat,
                        c.callee@,
                        ctx@,
                        stack_view(new_stack@),
                    );
                    out_cat_assoc(out0, acc_out, co.out);
                }
                callee_result
            },
            Term::If(node) => match self.eval_expr(&node.condition, ctx, call_stack, fuel - 1) {
                Ok(c) => {
                    let ghost co = eval_spec(
                        (fuel - 1) as nat,
                        node.condition@,
                        ctx@,
                        stack_view(call_stack@),
                    );
                    let branch_result = if c.to_bool() {
                        self.eval_expr(&node.then_branch, ctx, call_stack, fuel - 1)
                    } else {
                        self.eval_expr(&node.otherwise, ctx, call_stack, fuel - 1)
                    };
                    proof {
                        let bo = eval_spec(
                            (fuel - 1) as nat,
                            if truthy(co.result->Ok_0) {
                                node.then_branch@
                            } else {
                                node.otherwise@
                            },
                            ctx@,
                            stack_view(call_stack@),
                        );
                        out_cat_assoc(out_lines(old(self).output@), co.out, bo.out);
                    }
                    branch_result
                },
                Err(f) => Err(f),
            },
            Term::Print(p) => match self.eval_expr(&p.value, ctx, call_stack, fuel - 1) {
                Ok(v) => {
                    let line = v.to_string();
                    let ghost vo = eval_spec(
                        (fuel - 1) as nat,
                        p.value@,
                        ctx@,
                        stack_view(call_stack@),
                    );
                    proof {
                        out_lines_push(self.output@, line);
                        out_cat_push(out_lines(old(self).output@), vo.out, line@);
                    }
                    self.output.push(line);
                    Ok(Value::Nil)
                },
                Err(f) => Err(f),
            },
            Term::First(f) => match self.eval_expr(&f.value, ctx, call_stack, fuel - 1) {
                Ok(v) => match v {
                    Value::Tuple(a, _) => Ok(*a),
                    _ => Err(Fault::TypeFault(String::from_str("first"))),
                },
                Err(f) => Err(f),
            },
            Term::Second(s) => match self.eval_expr(&s.value, ctx, call_stack, fuel - 1) {
                Ok(v) => match v {
                    Value::Tuple(_, b) => Ok(*b),
                    _ => Err(Fault::TypeFault(String::from_str("second"))),
                },
                Err(f) => Err(f),
            },
            Term::Tuple(t) => match self.eval_expr(&t.first, ctx, call_stack, fuel - 1) {
                Ok(a) => {
                    let second_result = self.eval_expr(&t.second, ctx, call_stack, fuel - 1);
                    proof {
                        let fo = eval_spec(
                            (fuel - 1) as nat,
                            t.first@,
                            ctx@,
                            stack_view(call_stack@),
                        );
                        let so = eval_spec(
                            (fuel - 1) as nat,
                            t.second@,
                            ctx@,
                            stack_view(call_stack@),
                        );
                        out_cat_assoc(out_lines(old(self).output@), fo.out, so.out);
                    }
                    match second_result {
                        Ok(b) => Ok(Value::Tuple(Box::new(a), Box::new(b))),
                        Err(f) => Err(f),
                    }
                },
                Err(f) => Err(f),
            },
            Term::Binary(b) => match self.eval_expr(&b.lhs, ctx, call_stack, fuel - 1) {
                Ok(a) => {
                    let rhs_result = self.eval_expr(&b.rhs, ctx, call_stack, fuel - 1);
                    proof {
                        let lo = eval_spec(
                            (fuel - 1) as nat,
                            b.lhs@,
                            ctx@,
                            stack_view(call_stack@),
                        );
                        let ro = eval_spec(
                            (fuel - 1) as nat,
                            b.rhs@,
                            ctx@,
                            stack_view(call_stack@),
                        );
                        out_cat_assoc(out_lines(old(self).output@), lo.out, ro.out);
                    }
                    match rhs_result {
                        Ok(bv) => run_binary(b.op, a, bv),
                        Err(f) => Err(f),
                    }
                },
                Err(f) => Err(f),
            },
        }
    }
}

} // verus!
