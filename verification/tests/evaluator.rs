use treewalk::ast::{Binary, BinaryOp, Bool, Call, File, First, Function, If, Int, Let, Location,
    Parameter, Print, Second, Str, Term, Tuple, Var};
use treewalk::eval::{Fault, Interpreter, Value};

fn loc() -> Location {
    Location { start: 0, end: 0, filename: String::new() }
}

fn int_lit(v: i32) -> Term {
    Term::Int(Int { value: v, location: loc() })
}

fn boolean(v: bool) -> Term {
    Term::Bool(Bool { value: v, location: loc() })
}

fn string(v: &str) -> Term {
    Term::Str(Str { value: v.to_string(), location: loc() })
}

fn var(name: &str) -> Term {
    Term::Var(Var { text: name.to_string(), location: loc() })
}

fn binary(op: BinaryOp, lhs: Term, rhs: Term) -> Term {
    Term::Binary(Binary { lhs: Box::new(lhs), op, rhs: Box::new(rhs), location: loc() })
}

fn call(callee: Term, arguments: Vec<Term>) -> Term {
    Term::Call(Call {
        callee: Box::new(callee),
        arguments: arguments.into_iter().map(Box::new).collect(),
        location: loc(),
    })
}

fn function(parameters: Vec<&str>, body: Term) -> Term {
    Term::Function(Function {
        parameters: parameters
            .into_iter()
            .map(|p| Var { text: p.to_string(), location: loc() })
            .collect(),
        value: Box::new(body),
        location: loc(),
    })
}

fn let_in(name: &str, value: Term, next: Term) -> Term {
    Term::Let(Let {
        name: Parameter { text: name.to_string(), location: loc() },
        value: Box::new(value),
        next: Box::new(next),
        location: loc(),
    })
}

fn if_then(condition: Term, then_branch: Term, otherwise: Term) -> Term {
    Term::If(If {
        condition: Box::new(condition),
        then_branch: Box::new(then_branch),
        otherwise: Box::new(otherwise),
        location: loc(),
    })
}

fn print(value: Term) -> Term {
    Term::Print(Print { value: Box::new(value), location: loc() })
}

fn first(value: Term) -> Term {
    Term::First(First { value: Box::new(value), location: loc() })
}

fn second(value: Term) -> Term {
    Term::Second(Second { value: Box::new(value), location: loc() })
}

fn tuple(a: Term, b: Term) -> Term {
    Term::Tuple(Tuple { first: Box::new(a), second: Box::new(b), location: loc() })
}

fn run(expression: Term) -> (Result<Value, Fault>, Vec<String>) {
    run_with_fuel(expression, 100_000)
}

fn run_with_fuel(expression: Term, fuel: u64) -> (Result<Value, Fault>, Vec<String>) {
    let file = File { name: "main".to_string(), expression, location: loc() };
    let mut interpreter = Interpreter::new();
    let result = interpreter.eval(&file, fuel);
    (result, interpreter.output)
}

fn rem_identity_holds(a: i32, b: i32) {
    let (rem, _) = run(binary(BinaryOp::Rem, int_lit(a), int_lit(b)));
    let (id, _) = run(binary(
        BinaryOp::Sub,
        int_lit(a),
        binary(BinaryOp::Mul, int_lit(b), binary(BinaryOp::Div, int_lit(a), int_lit(b))),
    ));
    assert!(rem.is_ok());
    assert_eq!(rem, id);
}

#[test]
fn rem_is_sub_mul_div_across_signs() {
    rem_identity_holds(7, 3);
    rem_identity_holds(-7, 3);
    rem_identity_holds(7, -3);
    rem_identity_holds(-7, -3);
    rem_identity_holds(0, 5);
    rem_identity_holds(i32::MIN, -1);
    rem_identity_holds(i32::MAX, 2);
}

#[test]
fn division_truncates_toward_zero() {
    let (r, _) = run(binary(BinaryOp::Div, int_lit(-7), int_lit(2)));
    assert_eq!(r, Ok(Value::Int(-3)));
    let (r, _) = run(binary(BinaryOp::Div, int_lit(7), int_lit(-2)));
    assert_eq!(r, Ok(Value::Int(-3)));
    let (r, _) = run(binary(BinaryOp::Rem, int_lit(-7), int_lit(2)));
    assert_eq!(r, Ok(Value::Int(-1)));
    let (r, _) = run(binary(BinaryOp::Rem, int_lit(7), int_lit(-2)));
    assert_eq!(r, Ok(Value::Int(1)));
}

#[test]
fn division_overflow_wraps() {
    let (r, _) = run(binary(BinaryOp::Div, int_lit(i32::MIN), int_lit(-1)));
    assert_eq!(r, Ok(Value::Int(i32::MIN)));
    let (r, _) = run(binary(BinaryOp::Rem, int_lit(i32::MIN), int_lit(-1)));
    assert_eq!(r, Ok(Value::Int(0)));
}

#[test]
fn print_tuple_emits_rendered_line_and_returns_nil() {
    let (r, out) = run(print(tuple(int_lit(1), int_lit(2))));
    assert_eq!(r, Ok(Value::Nil));
    assert_eq!(out, vec!["(1, 2)".to_string()]);
}

#[test]
fn add_coerces_to_string_concatenation() {
    let (r, _) = run(binary(BinaryOp::Add, string("x"), int_lit(1)));
    assert_eq!(r, Ok(Value::Str("x1".to_string())));
    let (r, _) = run(binary(BinaryOp::Add, int_lit(1), string("x")));
    assert_eq!(r, Ok(Value::Str("1x".to_string())));
    let (r, _) = run(binary(BinaryOp::Add, string("b:"), boolean(true)));
    assert_eq!(r, Ok(Value::Str("b:true".to_string())));
    let (r, _) = run(binary(BinaryOp::Add, string(""), tuple(int_lit(1), int_lit(2))));
    assert_eq!(r, Ok(Value::Str("(1, 2)".to_string())));
}

#[test]
fn add_on_integers_wraps() {
    let (r, _) = run(binary(BinaryOp::Add, int_lit(2), int_lit(3)));
    assert_eq!(r, Ok(Value::Int(5)));
    let (r, _) = run(binary(BinaryOp::Add, int_lit(i32::MAX), int_lit(1)));
    assert_eq!(r, Ok(Value::Int(i32::MIN)));
}

#[test]
fn add_on_unsupported_kinds_is_a_type_fault() {
    let (r, _) = run(binary(BinaryOp::Add, boolean(true), int_lit(1)));
    assert_eq!(r, Err(Fault::TypeFault("add".to_string())));
}

#[test]
fn or_does_not_short_circuit() {
    let (r, _) = run(binary(BinaryOp::Or, boolean(true), binary(BinaryOp::Div, int_lit(1), int_lit(0))));
    assert_eq!(r, Err(Fault::ArithmeticFault));
}

#[test]
fn and_does_not_short_circuit() {
    let (r, _) = run(binary(BinaryOp::And, boolean(false), binary(BinaryOp::Rem, int_lit(1), int_lit(0))));
    assert_eq!(r, Err(Fault::ArithmeticFault));
}

#[test]
fn call_binds_arguments_positionally() {
    let (r, _) = run(call(function(vec!["x"], var("x")), vec![int_lit(7)]));
    assert_eq!(r, Ok(Value::Int(7)));
}

#[test]
fn call_ignores_extra_arguments() {
    let (r, _) = run(call(function(vec!["x"], var("x")), vec![int_lit(1), int_lit(2)]));
    assert_eq!(r, Ok(Value::Int(1)));
}

#[test]
fn unbound_extra_parameter_is_undefined() {
    let (r, _) = run(call(function(vec!["x", "y"], var("y")), vec![int_lit(1)]));
    assert_eq!(r, Err(Fault::UndefinedVariable("y".to_string())));
}

#[test]
fn scoping_is_dynamic() {
    // `f` is defined before any `x` exists; the `x` in its body resolves
    // to whichever binding is active in the caller's context at call
    // time.
    let program = let_in(
        "f",
        function(vec![], var("x")),
        let_in("x", int_lit(1), let_in("x", int_lit(2), call(var("f"), vec![]))),
    );
    let (r, _) = run(program);
    assert_eq!(r, Ok(Value::Int(2)));
}

#[test]
fn let_extension_leaves_parent_context_alone() {
    // The binding made inside the left element of the tuple must not
    // leak into the evaluation of the right element.
    let program = tuple(let_in("x", int_lit(1), var("x")), var("x"));
    let (r, _) = run(program);
    assert_eq!(r, Err(Fault::UndefinedVariable("x".to_string())));
}

#[test]
fn bound_term_is_reevaluated_at_each_reference() {
    // `x` is bound to a print expression; each reference prints again.
    let program = let_in(
        "x",
        print(int_lit(5)),
        tuple(var("x"), var("x")),
    );
    let (r, out) = run(program);
    assert_eq!(r, Ok(Value::Tuple(Box::new(Value::Nil), Box::new(Value::Nil))));
    assert_eq!(out, vec!["5".to_string(), "5".to_string()]);
}

#[test]
fn projections_read_tuple_slots() {
    let (r, _) = run(first(tuple(int_lit(1), string("a"))));
    assert_eq!(r, Ok(Value::Int(1)));
    let (r, _) = run(second(tuple(int_lit(1), string("a"))));
    assert_eq!(r, Ok(Value::Str("a".to_string())));
}

#[test]
fn projections_on_non_tuples_are_type_faults() {
    let (r, _) = run(first(int_lit(1)));
    assert_eq!(r, Err(Fault::TypeFault("first".to_string())));
    let (r, _) = run(second(string("a")));
    assert_eq!(r, Err(Fault::TypeFault("second".to_string())));
}

#[test]
fn division_by_zero_faults() {
    let (r, _) = run(binary(BinaryOp::Div, int_lit(1), int_lit(0)));
    assert_eq!(r, Err(Fault::ArithmeticFault));
    let (r, _) = run(binary(BinaryOp::Rem, int_lit(5), int_lit(0)));
    assert_eq!(r, Err(Fault::ArithmeticFault));
}

#[test]
fn tuple_valued_argument_cannot_be_reified() {
    let (r, _) = run(call(function(vec!["x"], var("x")), vec![tuple(int_lit(1), int_lit(2))]));
    assert_eq!(r, Err(Fault::UnsupportedReification));
}

#[test]
fn nil_valued_argument_cannot_be_reified() {
    let (r, _) = run(call(function(vec!["x"], var("x")), vec![print(int_lit(1))]));
    assert_eq!(r, Err(Fault::UnsupportedReification));
}

#[test]
fn equality_is_structural_and_cross_kind_unequal() {
    let (r, _) = run(binary(BinaryOp::Eq, tuple(int_lit(1), int_lit(2)), tuple(int_lit(1), int_lit(2))));
    assert_eq!(r, Ok(Value::Bool(true)));
    let (r, _) = run(binary(BinaryOp::Eq, int_lit(1), string("1")));
    assert_eq!(r, Ok(Value::Bool(false)));
    let (r, _) = run(binary(BinaryOp::Neq, int_lit(1), string("1")));
    assert_eq!(r, Ok(Value::Bool(true)));
}

#[test]
fn ordering_within_kinds() {
    let (r, _) = run(binary(BinaryOp::Lt, int_lit(2), int_lit(3)));
    assert_eq!(r, Ok(Value::Bool(true)));
    let (r, _) = run(binary(BinaryOp::Lt, string("abc"), string("abd")));
    assert_eq!(r, Ok(Value::Bool(true)));
    let (r, _) = run(binary(BinaryOp::Lt, string("ab"), string("abc")));
    assert_eq!(r, Ok(Value::Bool(true)));
    let (r, _) = run(binary(BinaryOp::Gt, string("b"), string("a")));
    assert_eq!(r, Ok(Value::Bool(true)));
    let (r, _) = run(binary(BinaryOp::Lte, string("ab"), string("ab")));
    assert_eq!(r, Ok(Value::Bool(true)));
    let (r, _) = run(binary(BinaryOp::Gte, boolean(true), boolean(false)));
    assert_eq!(r, Ok(Value::Bool(true)));
    let (r, _) = run(binary(BinaryOp::Lt, boolean(false), boolean(true)));
    assert_eq!(r, Ok(Value::Bool(true)));
}

#[test]
fn ordering_across_kinds_is_a_type_fault() {
    let (r, _) = run(binary(BinaryOp::Lt, int_lit(1), string("1")));
    assert_eq!(r, Err(Fault::TypeFault("lt".to_string())));
    let (r, _) = run(binary(BinaryOp::Gte, tuple(int_lit(1), int_lit(2)), tuple(int_lit(1), int_lit(2))));
    assert_eq!(r, Err(Fault::TypeFault("gte".to_string())));
}

#[test]
fn truthiness_drives_if_and_logic() {
    let (r, _) = run(if_then(int_lit(0), int_lit(1), int_lit(2)));
    assert_eq!(r, Ok(Value::Int(2)));
    let (r, _) = run(if_then(string(""), int_lit(1), int_lit(2)));
    assert_eq!(r, Ok(Value::Int(2)));
    let (r, _) = run(if_then(string("x"), int_lit(1), int_lit(2)));
    assert_eq!(r, Ok(Value::Int(1)));
    let (r, _) = run(binary(BinaryOp::And, int_lit(1), string("x")));
    assert_eq!(r, Ok(Value::Bool(true)));
    let (r, _) = run(binary(BinaryOp::Or, int_lit(0), string("")));
    assert_eq!(r, Ok(Value::Bool(false)));
    let (r, _) = run(binary(BinaryOp::And, tuple(int_lit(1), int_lit(2)), boolean(true)));
    assert_eq!(r, Ok(Value::Bool(false)));
}

#[test]
fn if_evaluates_only_the_chosen_branch() {
    let (r, _) = run(if_then(boolean(true), int_lit(1), binary(BinaryOp::Div, int_lit(1), int_lit(0))));
    assert_eq!(r, Ok(Value::Int(1)));
}

#[test]
fn undefined_variable_faults_with_its_name() {
    let (r, _) = run(var("y"));
    assert_eq!(r, Err(Fault::UndefinedVariable("y".to_string())));
}

#[test]
fn output_lines_come_in_evaluation_order() {
    let (r, out) = run(tuple(print(int_lit(1)), print(string("two"))));
    assert_eq!(
        r,
        Ok(Value::Tuple(Box::new(Value::Nil), Box::new(Value::Nil))),
    );
    assert_eq!(out, vec!["1".to_string(), "two".to_string()]);
}

#[test]
fn rendering_covers_every_kind() {
    let (_, out) = run(print(int_lit(-42)));
    assert_eq!(out, vec!["-42".to_string()]);
    let (_, out) = run(print(int_lit(i32::MIN)));
    assert_eq!(out, vec!["-2147483648".to_string()]);
    let (_, out) = run(print(string("hi")));
    assert_eq!(out, vec!["hi".to_string()]);
    let (_, out) = run(print(boolean(false)));
    assert_eq!(out, vec!["false".to_string()]);
    let (_, out) = run(print(tuple(int_lit(1), tuple(string("a"), boolean(true)))));
    assert_eq!(out, vec!["(1, (a, true))".to_string()]);
    let (_, out) = run(print(print(int_lit(9))));
    assert_eq!(out, vec!["9".to_string(), "nil".to_string()]);
}

#[test]
fn runaway_recursion_exhausts_the_fuel() {
    let program = let_in(
        "f",
        function(vec![], call(var("f"), vec![])),
        call(var("f"), vec![]),
    );
    let (r, _) = run_with_fuel(program, 50);
    assert_eq!(r, Err(Fault::StackExhausted));
}

#[test]
fn value_predicates_and_coercions() {
    assert!(Value::Int(5).is_int());
    assert!(!Value::Str("5".to_string()).is_int());
    assert!(Value::Str("x".to_string()).is_string());
    assert!(!Value::Nil.is_string());
    assert_eq!(Value::Int(5).to_int(), Ok(5));
    assert_eq!(
        Value::Bool(true).to_int(),
        Err(Fault::TypeFault("int".to_string())),
    );
    assert!(Value::Int(-1).to_bool());
    assert!(!Value::Int(0).to_bool());
    assert!(Value::Str("x".to_string()).to_bool());
    assert!(!Value::Str(String::new()).to_bool());
    assert!(Value::Bool(true).to_bool());
    assert!(!Value::Tuple(Box::new(Value::Int(1)), Box::new(Value::Int(2))).to_bool());
    assert!(!Value::Nil.to_bool());
}

#[test]
fn value_rendering_matches_print() {
    assert_eq!(Value::Int(-7).to_string(), "-7".to_string());
    assert_eq!(Value::Str("abc".to_string()).to_string(), "abc".to_string());
    assert_eq!(Value::Bool(true).to_string(), "true".to_string());
    assert_eq!(
        Value::Tuple(Box::new(Value::Int(1)), Box::new(Value::Nil)).to_string(),
        "(1, nil)".to_string(),
    );
}

#[test]
fn reified_values_evaluate_back_to_themselves() {
    let t = Value::Int(3).to_term().unwrap();
    let (r, _) = run(t);
    assert_eq!(r, Ok(Value::Int(3)));
    let t = Value::Str("s".to_string()).to_term().unwrap();
    let (r, _) = run(t);
    assert_eq!(r, Ok(Value::Str("s".to_string())));
    let t = Value::Bool(true).to_term().unwrap();
    let (r, _) = run(t);
    assert_eq!(r, Ok(Value::Bool(true)));
    assert!(matches!(Value::Nil.to_term(), Err(Fault::UnsupportedReification)));
    assert!(matches!(
        Value::Tuple(Box::new(Value::Int(1)), Box::new(Value::Int(2))).to_term(),
        Err(Fault::UnsupportedReification)
    ));
}

#[test]
fn duplicate_parameter_names_take_the_later_argument() {
    let (r, _) = run(call(function(vec!["x", "x"], var("x")), vec![int_lit(1), int_lit(2)]));
    assert_eq!(r, Ok(Value::Int(2)));
}

#[test]
fn function_body_keeps_the_argument_stack() {
    // The stack is not cleared after parameter binding: a function term
    // inside the body still consumes the same call's arguments.
    let program = call(
        function(vec![], function(vec!["b"], var("b"))),
        vec![int_lit(9)],
    );
    let (r, _) = run(program);
    assert_eq!(r, Ok(Value::Int(9)));
}

#[test]
fn calling_a_literal_returns_the_literal() {
    // The callee need not resolve to a function: a literal ignores the
    // argument stack and evaluates to itself.
    let (r, _) = run(call(int_lit(5), vec![int_lit(1)]));
    assert_eq!(r, Ok(Value::Int(5)));
}

#[test]
fn let_does_not_evaluate_the_bound_term() {
    let program = let_in("x", binary(BinaryOp::Div, int_lit(1), int_lit(0)), int_lit(5));
    let (r, _) = run(program);
    assert_eq!(r, Ok(Value::Int(5)));
}

#[test]
fn later_arguments_see_the_stack_built_so_far() {
    // The second argument is itself a function literal: it is evaluated
    // against the stack holding the already-reified first argument, so
    // its parameter binds to that argument.
    let program = call(
        function(vec!["a", "b"], var("b")),
        vec![int_lit(1), function(vec!["p"], var("p"))],
    );
    let (r, _) = run(program);
    assert_eq!(r, Ok(Value::Int(1)));
}
