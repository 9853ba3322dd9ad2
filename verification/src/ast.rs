//! The term model: the immutable tree shape of a program fragment, exactly
//! as the external deserializer builds it, plus its mathematical view.
//!
//! Every node carries a [`Location`] used only for diagnostics; the view
//! [`TermV`] therefore drops locations, and every contract of the library
//! is location-independent.
use vstd::prelude::*;

verus! {

broadcast use vstd::std_specs::vec::axiom_vec_index_decreases;

/// A whole document: a named top-level expression.
pub struct File {
    pub name: String,
    pub expression: Term,
    pub location: Location,
}

/// Source span attached to every node; never consulted by evaluation.
pub struct Location {
    pub start: i32,
    pub end: i32,
    pub filename: String,
}

/// Integer literal node.
pub struct Int {
    pub value: i32,
    pub location: Location,
}

/// Boolean literal node.
pub struct Bool {
    pub value: bool,
    pub location: Location,
}

/// String literal node.
pub struct Str {
    pub value: String,
    pub location: Location,
}

/// Application of a binary operator to two subterms.
pub struct Binary {
    pub lhs: Box<Term>,
    pub op: BinaryOp,
    pub rhs: Box<Term>,
    pub location: Location,
}

/// A call: a callee expression and the actual arguments.
pub struct Call {
    pub callee: Box<Term>,
    pub arguments: Vec<Box<Term>>,
    pub location: Location,
}

/// A function literal: parameter names and a body.
pub struct Function {
    pub parameters: Vec<Var>,
    pub value: Box<Term>,
    pub location: Location,
}

/// A variable reference.
pub struct Var {
    pub text: String,
    pub location: Location,
}

/// A name being bound (the left-hand side of a `Let`).
pub struct Parameter {
    pub text: String,
    pub location: Location,
}

/// Binds `name` to the unevaluated `value` while evaluating `next`.
pub struct Let {
    pub name: Parameter,
    pub value: Box<Term>,
    pub next: Box<Term>,
    pub location: Location,
}

/// Two-way branch on the truthiness of `condition`.
pub struct If {
    pub condition: Box<Term>,
    pub then_branch: Box<Term>,
    pub otherwise: Box<Term>,
    pub location: Location,
}

/// Evaluates `value`, emits its rendering as an output line, returns nil.
pub struct Print {
    pub value: Box<Term>,
    pub location: Location,
}

/// Projection of the first slot of a tuple value.
pub struct First {
    pub value: Box<Term>,
    pub location: Location,
}

/// Projection of the second slot of a tuple value.
pub struct Second {
    pub value: Box<Term>,
    pub location: Location,
}

/// A pair constructor.
pub struct Tuple {
    pub first: Box<Term>,
    pub second: Box<Term>,
    pub location: Location,
}

/// The binary operators of the language.
#[derive(Clone, Copy, Debug)]
pub enum BinaryOp {
    Add,
    Sub,
    Mul,
    Div,
    Rem,
    Eq,
    Neq,
    Lt,
    Gt,
    Lte,
    Gte,
    And,
    Or,
}

/// A program fragment: a closed tagged union, one variant per construct.
pub enum Term {
    Int(Int),
    Str(Str),
    Bool(Bool),
    Binary(Binary),
    Call(Call),
    Function(Function),
    Let(Let),
    If(If),
    Print(Print),
    First(First),
    Second(Second),
    Tuple(Tuple),
    Var(Var),
}

/// The mathematical shape of a [`Term`]: the same tree with names as
/// character sequences and all source locations erased.
pub enum TermV {
    Int { value: i32 },
    Str { value: Seq<char> },
    Bool { value: bool },
    Binary { op: BinaryOp, lhs: Box<TermV>, rhs: Box<TermV> },
    Call { callee: Box<TermV>, arguments: Seq<TermV> },
    Function { parameters: Seq<Seq<char>>, body: Box<TermV> },
    Let { name: Seq<char>, value: Box<TermV>, next: Box<TermV> },
    If { condition: Box<TermV>, then_branch: Box<TermV>, otherwise: Box<TermV> },
    Print { value: Box<TermV> },
    First { value: Box<TermV> },
    Second { value: Box<TermV> },
    Tuple { first: Box<TermV>, second: Box<TermV> },
    Var { text: Seq<char> },
}

/// The view of a term: the same tree, locations erased.
pub open spec fn term_view(t: Term) -> TermV
    decreases t,
{
    match t {
        Term::Int(n) => TermV::Int { value: n.value },
        Term::Str(s) => TermV::Str { value: s.value@ },
        Term::Bool(b) => TermV::Bool { value: b.value },
        Term::Binary(b) => TermV::Binary {
            op: b.op,
            lhs: Box::new(term_view(*b.lhs)),
            rhs: Box::new(term_view(*b.rhs)),
        },
        Term::Call(c) => TermV::Call {
            callee: Box::new(term_view(*c.callee)),
            arguments: Seq::new(
                c.arguments.len() as nat,
                |i: int|
                    if 0 <= i < c.arguments.len() {
                        term_view(*c.arguments[i])
                    } else {
                        term_view(*c.callee)
                    },
            ),
        },
        Term::Function(f) => TermV::Function {
            parameters: f.parameters@.map_values(|p: Var| p.text@),
            body: Box::new(term_view(*f.value)),
        },
        Term::Let(l) => TermV::Let {
            name: l.name.text@,
            value: Box::new(term_view(*l.value)),
            next: Box::new(term_view(*l.next)),
        },
        Term::If(i) => TermV::If {
            condition: Box::new(term_view(*i.condition)),
            then_branch: Box::new(term_view(*i.then_branch)),
            otherwise: Box::new(term_view(*i.otherwise)),
        },
        Term::Print(p) => TermV::Print { value: Box::new(term_view(*p.value)) },
        Term::First(f) => TermV::First { value: Box::new(term_view(*f.value)) },
        Term::Second(s) => TermV::Second { value: Box::new(term_view(*s.value)) },
        Term::Tuple(t) => TermV::Tuple {
            first: Box::new(term_view(*t.first)),
            second: Box::new(term_view(*t.second)),
        },
        Term::Var(v) => TermV::Var { text: v.text@ },
    }
}

impl View for Term {
    type V = TermV;

    open spec fn view(&self) -> TermV {
        term_view(*self)
    }
}

impl Location {
    /// A fresh copy of this location.
    pub fn dup(&self) -> (r: Location)
        ensures
            r.start == self.start,
            r.end == self.end,
            r.filename@ == self.filename@,
    {
        Location { start: self.start, end: self.end, filename: self.filename.clone() }
    }
}

/// Fresh copies of a list of argument subterms, equal in view to the given
/// ones position by position.
fn clone_args(args: &Vec<Box<Term>>) -> (r: Vec<Box<Term>>)
    ensures
        r@.len() == args@.len(),
        forall|i: int| 0 <= i < args@.len() ==> (#[trigger] r@[i])@ == args@[i]@,
    decreases *args,
{
    let mut r: Vec<Box<Term>> = Vec::new();
    let mut i: usize = 0;
    while i < args.len()
        invariant
            i <= args@.len(),
            r@.len() == i,
            forall|j: int| 0 <= j < i ==> (#[trigger] r@[j])@ == args@[j]@,
        decreases args@.len() - i,
    {
        let c = args[i].deep_clone();
        r.push(Box::new(c));
        i = i + 1;
    }
    r
}

/// Fresh copies of a parameter list, equal in view name by name.
fn clone_params(params: &Vec<Var>) -> (r: Vec<Var>)
    ensures
        r@.len() == params@.len(),
        forall|i: int| 0 <= i < params@.len() ==> (#[trigger] r@[i]).text@ == params@[i].text@,
{
    let mut r: Vec<Var> = Vec::new();
    let mut i: usize = 0;
    while i < params.len()
        invariant
            i <= params@.len(),
            r@.len() == i,
            forall|j: int| 0 <= j < i ==> (#[trigger] r@[j]).text@ == params@[j].text@,
        decreases params@.len() - i,
    {
        let p = Var { text: params[i].text.clone(), location: params[i].location.dup() };
        r.push(p);
        i = i + 1;
    }
    r
}

impl Term {
    /// A fresh copy of this term, equal to it in view.  The evaluator uses
    /// this wherever a subtree is shared into a context or an argument
    /// stack.
    pub fn deep_clone(&self) -> (r: Term)
        ensures
            r@ == self@,
        decreases *self,
    {
        match self {
            Term::Int(n) => Term::Int(Int { value: n.value, location: n.location.dup() }),
            Term::Str(s) => Term::Str(Str { value: s.value.clone(), location: s.location.dup() }),
            Term::Bool(b) => Term::Bool(Bool { value: b.value, location: b.location.dup() }),
            Term::Binary(b) => Term::Binary(
                Binary {
                    lhs: Box::new(b.lhs.deep_clone()),
                    op: b.op,
                    rhs: Box::new(b.rhs.deep_clone()),
                    location: b.location.dup(),
                },
            ),
            Term::Call(c) => {
                let callee = Box::new(c.callee.deep_clone());
                let arguments = clone_args(&c.arguments);
                let r = Term::Call(Call { callee, arguments, location: c.location.dup() });
                proof {
                    assert(r@ is Call);
                    assert(r@->Call_arguments =~= self@->Call_arguments);
                }
                r
            },
            Term::Function(f) => {
                let parameters = clone_params(&f.parameters);
                let value = Box::new(f.value.deep_clone());
                let r = Term::Function(Function { parameters, value, location: f.location.dup() });
                proof {
                    assert(r@->Function_parameters =~= self@->Function_parameters);
                }
                r
            },
            Term::Let(l) => Term::Let(
                Let {
                    name: Parameter { text: l.name.text.clone(), location: l.name.location.dup() },
                    value: Box::new(l.value.deep_clone()),
                    next: Box::new(l.next.deep_clone()),
                    location: l.location.dup(),
                },
            ),
            Term::If(i) => Term::If(
                If {
                    condition: Box::new(i.condition.deep_clone()),
                    then_branch: Box::new(i.then_branch.deep_clone()),
                    otherwise: Box::new(i.otherwise.deep_clone()),
                    location: i.location.dup(),
                },
            ),
            Term::Print(p) => Term::Print(
                Print { value: Box::new(p.value.deep_clone()), location: p.location.dup() },
            ),
            Term::First(f) => Term::First(
                First { value: Box::new(f.value.deep_clone()), location: f.location.dup() },
            ),
            Term::Second(s) => Term::Second(
                Second { value: Box::new(s.value.deep_clone()), location: s.location.dup() },
            ),
            Term::Tuple(t) => Term::Tuple(
                Tuple {
                    first: Box::new(t.first.deep_clone()),
                    second: Box::new(t.second.deep_clone()),
                    location: t.location.dup(),
                },
            ),
            Term::Var(v) => Term::Var(Var { text: v.text.clone(), location: v.location.dup() }),
        }
    }
}

} // verus!
