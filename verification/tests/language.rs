use lazarus::env::Env;
use lazarus::eval::{apply, eval, eval_bounded, MAX_DEPTH};
use lazarus::lexer::Lexer;
use lazarus::parser::Parser;
use lazarus::types::{EvalError, EvalResult, Obj, Prim, Symb};

fn read(s: &str) -> Obj {
    let mut parser = Parser::new(Lexer::new(s, "test.scm")).unwrap();
    parser.expr().unwrap().to_obj()
}

fn run(s: &str) -> EvalResult<Obj> {
    let mut env = Env::the_global_environment();
    eval(read(s), &mut env)
}

fn num(n: i64) -> Obj {
    Obj::new_int(n, None)
}

fn ints(ns: &[i64]) -> Obj {
    Obj::list_from_vec(ns.iter().map(|n| num(*n)).collect(), None)
}

fn sym(name: &str) -> Obj {
    Obj::new_symb(name.to_string(), None)
}

#[test]
fn literal_list_round_trip() {
    let list = read("(1 2 3)");
    assert!(list.is_list());
    assert_eq!(list.list_length(), Ok(3));
    assert_eq!(list.car().unwrap(), num(1));
    assert_eq!(list.cadr().unwrap(), num(2));
    assert_eq!(list.caddr().unwrap(), num(3));
    assert_eq!(list.cdddr().unwrap(), Obj::nil(None));
    assert_eq!(list, ints(&[1, 2, 3]));
}

#[test]
fn empty_and_long_literal_lists_round_trip() {
    assert_eq!(read("()"), Obj::nil(None));
    let ns: Vec<i64> = (0..50).collect();
    let text = format!(
        "({})",
        ns.iter().map(|n| n.to_string()).collect::<Vec<String>>().join(" ")
    );
    assert_eq!(read(&text), ints(&ns));
}

#[test]
fn definition_then_lookup_then_assignment() {
    let mut env = Env::the_global_environment();
    let x = Symb::new_unknown("x");
    assert_eq!(eval(read("(begin (define x 42) x)"), &mut env), Ok(num(42)));
    assert_eq!(env.lookup_variable_value(&x), Ok(num(42)));
    assert_eq!(eval(read("(set! x 43)"), &mut env), Ok(num(43)));
    assert_eq!(env.lookup_variable_value(&x), Ok(num(43)));
}

#[test]
fn definition_gives_ok() {
    assert_eq!(run("(define x 1)"), Ok(sym("ok")));
}

#[test]
fn assignment_evaluates_its_value() {
    assert_eq!(run("(begin (define x 1) (set! x (+ x 41)) x)"), Ok(num(42)));
}

#[test]
fn assignment_never_defines() {
    let mut env = Env::the_global_environment();
    assert_eq!(eval(read("(set! nowhere 1)"), &mut env), Err(EvalError::UnboundVariable));
    assert_eq!(
        env.lookup_variable_value(&Symb::new_unknown("nowhere")),
        Err(EvalError::UnboundVariable)
    );
    assert_eq!(
        env.set_variable_value(&Symb::new_unknown("nowhere"), num(1)),
        Err(EvalError::UnboundVariable)
    );
}

#[test]
fn lexical_scoping() {
    assert_eq!(run("(begin (define f (lambda (x) x)) (f 4))"), Ok(num(4)));
    assert_eq!(
        run("(begin (define f1 (lambda (x) x)) (define f2 (lambda (x) (f1 x))) (f2 5))"),
        Ok(num(5))
    );
}

#[test]
fn parameters_shadow_and_do_not_leak() {
    assert_eq!(run("(begin (define x 1) (define f (lambda (x) x)) (f 2))"), Ok(num(2)));
    assert_eq!(run("(begin (define x 1) (define f (lambda (x) x)) (f 2) x)"), Ok(num(1)));
    assert_eq!(
        run("(begin (define f (lambda (y) (define inner y) inner)) (f 2) inner)"),
        Err(EvalError::UnboundVariable)
    );
}

#[test]
fn a_procedure_sees_later_definitions_in_its_scope() {
    assert_eq!(
        run("(begin (define f (lambda () later)) (define later 7) (f))"),
        Ok(num(7))
    );
    assert_eq!(
        run("(begin (define n 1) (define bump (lambda () (set! n (+ n 1)))) (bump) (bump) n)"),
        Ok(num(3))
    );
}

#[test]
fn closures_keep_the_scope_they_were_made_in() {
    let prog = "(begin (define make (lambda (n) (lambda (m) (+ n m)))) \
                (define add2 (make 2)) (define add5 (make 5)) (list (add2 1) (add5 1)))";
    assert_eq!(run(prog), Ok(ints(&[3, 6])));
}

#[test]
fn the_callers_scope_is_current_after_a_call() {
    let mut env = Env::the_global_environment();
    let before = env.handle();
    assert_eq!(eval(read("(begin (define id (lambda (x) x)) (id 1))"), &mut env), Ok(num(1)));
    assert_eq!(env.handle(), before);
    assert_eq!(eval(read("(id)"), &mut env), Err(EvalError::ArityMismatch));
    assert_eq!(env.handle(), before);
    assert!(env.is_global());
}

#[test]
fn conditionals() {
    assert_eq!(run("(if 1 2 3)"), Ok(num(2)));
    assert_eq!(run("(if 0 2 3)"), Ok(num(2)));
    assert_eq!(run("(if (list) 2 3)"), Ok(num(2)));
    assert_eq!(run("(if true 2 3)"), Ok(num(2)));
    assert_eq!(run("(if false 2 3)"), Ok(num(3)));
    assert_eq!(run("(if #f 2 3)"), Ok(num(3)));
    assert_eq!(run("(if (eq? 1 2) 2 3)"), Ok(num(3)));
    assert_eq!(run("(if 1 2)"), Ok(num(2)));
    assert_eq!(run("(if false 2)"), Ok(Obj::new_bool(false, None)));
    assert_eq!(read("(if 1 2)").if_alternative(), Ok(Obj::new_bool(false, None)));
    assert_eq!(read("(if 1 2 3)").if_alternative(), Ok(num(3)));
}

#[test]
fn only_the_taken_branch_is_evaluated() {
    assert_eq!(run("(if 1 2 nowhere)"), Ok(num(2)));
    assert_eq!(run("(if false nowhere 3)"), Ok(num(3)));
    assert_eq!(run("(if nowhere 2 3)"), Err(EvalError::UnboundVariable));
}

#[test]
fn sequencing() {
    assert_eq!(run("(begin 1 2 3)"), Ok(num(3)));
    assert_eq!(run("(begin 7)"), Ok(num(7)));
    assert_eq!(run("(begin (define a 1) (define b 2) (+ a b))"), Ok(num(3)));
    assert_eq!(run("(begin 1 nowhere 3)"), Err(EvalError::UnboundVariable));
    assert_eq!(run("(begin)"), Err(EvalError::NotACons));
}

#[test]
fn cons_takes_two_arguments() {
    assert_eq!(run("(cons 1)"), Err(EvalError::ArityMismatch));
    assert_eq!(run("(cons 1 2 3)"), Err(EvalError::ArityMismatch));
    assert_eq!(run("(cons)"), Err(EvalError::ArityMismatch));
    assert_eq!(run("(cons 1 2)"), Ok(Obj::cons(num(1), num(2))));
    let pair = run("(cons 1 2)").unwrap();
    assert!(pair.is_cons());
    assert!(!pair.is_list());
    assert_eq!(pair.car(), Ok(num(1)));
    assert_eq!(pair.cdr(), Ok(num(2)));
}

#[test]
fn unbound_variables() {
    assert_eq!(run("(begin nowhere)"), Err(EvalError::UnboundVariable));
    let env = Env::the_global_environment();
    for name in ["x", "define", "if", "CAR", "nil", ""] {
        assert_eq!(
            env.lookup_variable_value(&Symb::new_unknown(name)),
            Err(EvalError::UnboundVariable)
        );
    }
}

#[test]
fn the_global_names() {
    let env = Env::the_global_environment();
    let mut names = env.frame().all_names();
    names.sort();
    let mut wanted: Vec<String> = [
        "true", "false", "#t", "#f", "car", "cdr", "list", "null?", "mul", "*", "+", "-", ">", "<",
        "cons", "eq?", "dec",
    ]
    .iter()
    .map(|s| s.to_string())
    .collect();
    wanted.sort();
    assert_eq!(names, wanted);
    assert_eq!(env.lookup_variable_value(&Symb::new_unknown("true")), Ok(Obj::new_bool(true, None)));
    assert_eq!(env.lookup_variable_value(&Symb::new_unknown("#f")), Ok(Obj::new_bool(false, None)));
    let plus = env.lookup_variable_value(&Symb::new_unknown("+")).unwrap();
    assert!(plus.is_primitive_procedure());
    assert_eq!(plus.is_primitive_implementation(), Ok(Obj::new_primitive_func(Prim::Add, None)));
    assert!(env.is_global());
    assert_eq!(env.id(), 0);
}

#[test]
fn redefinition_keeps_the_latest_value() {
    let mut env = Env::new(7);
    let x = Symb::new_unknown("x");
    for n in [1, 2, 3, 2, 1, 99] {
        env.define_variable(&x, num(n));
        assert_eq!(env.lookup_variable_value(&x), Ok(num(n)));
        assert_eq!(env.frame().all_names(), vec!["x".to_string()]);
    }
    assert_eq!(run("(begin (define x 1) (define x 2) x)"), Ok(num(2)));
    assert_eq!(env.id(), 7);
}

#[test]
fn quotation() {
    assert_eq!(run("(quote x)"), Ok(sym("x")));
    assert_eq!(run("(quote (1 2))"), Ok(ints(&[1, 2])));
    assert_eq!(run("(quote)"), Err(EvalError::NotACons));
    assert_eq!(read("(quote x)").text_of_quotation(), Ok(sym("x")));
}

#[test]
fn lambda_makes_a_procedure() {
    let mut env = Env::the_global_environment();
    let f = eval(read("(lambda (x y) x y)"), &mut env).unwrap();
    assert!(f.is_compound_procedure());
    assert!(!f.is_primitive_procedure());
    assert_eq!(f.parameters(), Ok(Obj::list_from_vec(vec![sym("x"), sym("y")], None)));
    assert_eq!(f.body(), Ok(Obj::list_from_vec(vec![sym("x"), sym("y")], None)));
    assert_eq!(f.environment(), Ok(env.handle()));
    assert_eq!(f.cadddr(), Ok(Obj::from_env(0, None)));
    assert_eq!(apply(f, ints(&[1, 2]), &mut env), Ok(num(2)));
}

#[test]
fn sugared_definition() {
    assert_eq!(run("(begin (define (id x) x) (id 5))"), Ok(num(5)));
    assert_eq!(run("(begin (define (second a b) a b) (second 1 2))"), Ok(num(2)));
    let exp = read("(define (f a b) a b)");
    assert_eq!(exp.definition_variable(), Ok(sym("f")));
    assert_eq!(exp.definition_value(), Ok(read("(lambda (a b) a b)")));
    let plain = read("(define g 3)");
    assert_eq!(plain.definition_variable(), Ok(sym("g")));
    assert_eq!(plain.definition_value(), Ok(num(3)));
}

#[test]
fn arithmetic() {
    assert_eq!(run("(+)"), Ok(num(0)));
    assert_eq!(run("(+ 5)"), Ok(num(5)));
    assert_eq!(run("(+ 1 2 3)"), Ok(num(6)));
    assert_eq!(run("(*)"), Ok(num(1)));
    assert_eq!(run("(* 2 3 4)"), Ok(num(24)));
    assert_eq!(run("(mul 6 7)"), Ok(num(42)));
    assert_eq!(run("(-)"), Ok(num(0)));
    assert_eq!(run("(- 10 3)"), Ok(num(7)));
    assert_eq!(run("(- 10 3 2)"), Ok(num(9)));
    assert_eq!(run("(- 3 10)"), Ok(num(-7)));
    assert_eq!(run("(dec 5)"), Ok(num(4)));
    assert_eq!(run("(dec 0)"), Ok(num(-1)));
    assert_eq!(run("(+ (quote a))"), Ok(sym("a")));
    assert_eq!(run("(+ 1 (quote a))"), Err(EvalError::NotAnInteger));
    assert_eq!(run("(+ 1.5 2)"), Err(EvalError::NotAnInteger));
}

#[test]
fn arithmetic_overflow_is_a_failure() {
    assert_eq!(run("(+ 9223372036854775807 1)"), Err(EvalError::Overflow));
    assert_eq!(run("(+ 9223372036854775806 1)"), Ok(num(i64::MAX)));
    assert_eq!(run("(* 4611686018427387904 2)"), Err(EvalError::Overflow));
    assert_eq!(run("(- 0 9223372036854775807 2)"), Ok(num(i64::MIN + 3)));
    assert_eq!(run("(- (- 0 9223372036854775807) 2)"), Err(EvalError::Overflow));
    assert_eq!(run("(dec (- (- 0 9223372036854775807) 1))"), Err(EvalError::Overflow));
}

fn call(operator: &str, operands: Vec<Obj>) -> EvalResult<Obj> {
    let mut items = vec![sym(operator)];
    items.extend(operands);
    let mut env = Env::the_global_environment();
    eval(Obj::list_from_vec(items, None), &mut env)
}

fn float(text: &str) -> Obj {
    Obj::new_float(text.to_string(), None)
}

#[test]
fn comparisons() {
    assert_eq!(call("<", vec![num(1), num(2)]), Ok(Obj::new_bool(true, None)));
    assert_eq!(call("<", vec![num(2), num(1)]), Ok(Obj::new_bool(false, None)));
    assert_eq!(call("<", vec![num(2), num(2)]), Ok(Obj::new_bool(false, None)));
    assert_eq!(call(">", vec![num(2), num(1)]), Ok(Obj::new_bool(true, None)));
    assert_eq!(call(">", vec![num(1), num(2)]), Ok(Obj::new_bool(false, None)));
    assert_eq!(call(">", vec![num(-1), num(-2)]), Ok(Obj::new_bool(true, None)));
    assert_eq!(
        call("<", vec![num(9007199254740992), num(9007199254740993)]),
        Ok(Obj::new_bool(true, None))
    );
    assert_eq!(call("<", vec![float("1.5"), num(2)]), Err(EvalError::FloatOperand));
    assert_eq!(call(">", vec![num(1), float("2.5")]), Err(EvalError::FloatOperand));
    assert_eq!(call("<", vec![Obj::new_bool(true, None), num(2)]), Err(EvalError::UnknownExpression));
    assert_eq!(call("<", vec![read("(list)"), num(2)]), Err(EvalError::NotANumber));
    assert_eq!(call("<", vec![num(1)]), Err(EvalError::NotACons));
    assert_eq!(run("(eq? 1 1)"), Ok(Obj::new_bool(true, None)));
    assert_eq!(run("(eq? 1 2)"), Ok(Obj::new_bool(false, None)));
    assert_eq!(run("(eq? 1.5 1.5)"), Ok(Obj::new_bool(true, None)));
    assert_eq!(run("(eq? 1.5 1.50)"), Ok(Obj::new_bool(false, None)));
    assert_eq!(run("(eq? 1 1.0)"), Ok(Obj::new_bool(false, None)));
    assert_eq!(run("(eq? (list 1 2) (list 1 2))"), Ok(Obj::new_bool(true, None)));
    assert_eq!(run("(eq? (quote a) (quote b))"), Ok(Obj::new_bool(false, None)));
    assert_eq!(run("(eq? car car)"), Ok(Obj::new_bool(true, None)));
    assert_eq!(run("(eq? car cdr)"), Ok(Obj::new_bool(false, None)));
    assert_eq!(run("(eq? 1)"), Err(EvalError::NotACons));
}

#[test]
fn list_primitives() {
    assert_eq!(run("(car (list 1 2))"), Ok(num(1)));
    assert_eq!(run("(cdr (list 1 2))"), Ok(ints(&[2])));
    assert_eq!(run("(car (list 1) (list 2))"), Err(EvalError::ArityMismatch));
    assert_eq!(run("(cdr (list 1) (list 2))"), Err(EvalError::ArityMismatch));
    assert_eq!(run("(car)"), Err(EvalError::NotACons));
    assert_eq!(run("(car 1)"), Err(EvalError::NotACons));
    assert_eq!(run("(car (list))"), Err(EvalError::NotACons));
    assert_eq!(run("(null? (list))"), Ok(Obj::new_bool(true, None)));
    assert_eq!(run("(null? (list 1))"), Ok(Obj::new_bool(false, None)));
    assert_eq!(run("(null? 0)"), Ok(Obj::new_bool(false, None)));
    assert_eq!(run("(null?)"), Err(EvalError::NotACons));
    assert_eq!(run("(list)"), Ok(Obj::nil(None)));
    assert_eq!(run("(list 1 (list 2) 3)"), Ok(Obj::list_from_vec(vec![num(1), ints(&[2]), num(3)], None)));
}

#[test]
fn operands_are_evaluated_from_the_left() {
    let prog = "(begin (define n 0) \
                (define next (lambda () (set! n (+ n 1)))) \
                (list (next) (next) (next)))";
    assert_eq!(run(prog), Ok(ints(&[1, 2, 3])));
}

#[test]
fn what_is_no_expression() {
    assert_eq!(run("(begin (list) 1)"), Ok(num(1)));
    let mut env = Env::the_global_environment();
    assert_eq!(eval(Obj::nil(None), &mut env), Err(EvalError::UnknownExpression));
    assert_eq!(eval(Obj::new_bool(true, None), &mut env), Err(EvalError::UnknownExpression));
    assert_eq!(eval(Obj::from_env(0, None), &mut env), Err(EvalError::UnknownExpression));
    assert_eq!(eval(Obj::cons(sym("car"), num(1)), &mut env), Err(EvalError::UnknownExpression));
}

#[test]
fn what_is_no_procedure() {
    assert_eq!(run("(1 2)"), Err(EvalError::UnknownProcedure));
    assert_eq!(run("((quote a))"), Err(EvalError::UnknownProcedure));
    assert_eq!(run("((list 1 2) 3)"), Err(EvalError::UnknownProcedure));
    assert_eq!(run("((quote (primitive 1)) 3)"), Err(EvalError::NotAPrimitive));
    assert_eq!(run("((quote (primitive)) 3)"), Err(EvalError::NotACons));
    assert_eq!(run("((quote (procedure (x) (x) 1)) 3)"), Err(EvalError::MissingEnvironment));
    assert_eq!(run("((quote (procedure (x))) 3)"), Err(EvalError::NotACons));
    assert_eq!(num(1).environment(), Err(EvalError::NotACompoundProcedure));
    assert_eq!(read("(primitive 1)").environment(), Err(EvalError::NotACompoundProcedure));
}

#[test]
fn a_procedure_from_another_environment() {
    let mut env = Env::the_global_environment();
    let stray = Obj::list_from_vec(
        vec![sym("procedure"), ints(&[]), ints(&[1]), Obj::from_env(5, None)],
        None,
    );
    assert_eq!(apply(stray, Obj::nil(None), &mut env), Err(EvalError::MissingEnvironment));
    assert_eq!(env.handle(), 0);
    assert_eq!(env.enter(5), Err(EvalError::MissingEnvironment));
    assert_eq!(env.enter(0), Ok(()));
}

#[test]
fn arity_of_compound_procedures() {
    assert_eq!(run("((lambda (x) x))"), Err(EvalError::ArityMismatch));
    assert_eq!(run("((lambda (x) x) 1 2)"), Err(EvalError::ArityMismatch));
    assert_eq!(run("((lambda () 5))"), Ok(num(5)));
    assert_eq!(run("((lambda (1) 5) 2)"), Err(EvalError::NotASymbol));
    assert_eq!(run("((lambda x 5) 2)"), Err(EvalError::NotAList));
    assert_eq!(run("((lambda (x x) x) 1 2)"), Ok(num(2)));
}

#[test]
fn extend_opens_a_scope() {
    let mut env = Env::new(0);
    let params = Obj::list_from_vec(vec![sym("a"), sym("b")], None);
    assert_eq!(env.extend(params.clone(), ints(&[1])), Err(EvalError::ArityMismatch));
    assert_eq!(env.handle(), 0);
    assert_eq!(env.extend(params.clone(), ints(&[1, 2])), Ok(()));
    assert_eq!(env.handle(), 1);
    assert!(!env.is_global());
    assert_eq!(env.frame().all_names(), vec!["a".to_string(), "b".to_string()]);
    assert_eq!(env.lookup_variable_value(&Symb::new_unknown("b")), Ok(num(2)));
    assert_eq!(env.enter(0), Ok(()));
    assert_eq!(env.lookup_variable_value(&Symb::new_unknown("b")), Err(EvalError::UnboundVariable));
}

#[test]
fn the_depth_of_calls_is_bounded() {
    let mut env = Env::the_global_environment();
    let count = "(define countdown (lambda (n) (if (eq? n 0) 1 (countdown (dec n)))))";
    assert_eq!(eval(read(count), &mut env), Ok(sym("ok")));
    assert_eq!(eval(read("(countdown 150)"), &mut env), Ok(num(1)));
    assert_eq!(eval(read("(countdown 199)"), &mut env), Ok(num(1)));
    assert_eq!(eval(read("(countdown 200)"), &mut env), Err(EvalError::DepthExceeded));
    assert_eq!(eval_bounded(read("(countdown 2)"), &mut env, 3), Ok(num(1)));
    assert_eq!(eval_bounded(read("(countdown 3)"), &mut env, 3), Err(EvalError::DepthExceeded));
    assert_eq!(eval_bounded(read("(+ 1 2)"), &mut env, 0), Ok(num(3)));
    assert_eq!(MAX_DEPTH, 200);
    assert_eq!(env.handle(), 0);
}

#[test]
fn factorial() {
    let fact = "(define fact (lambda (n) (if (eq? n 0) 1 (* n (fact (dec n))))))";
    let mut env = Env::the_global_environment();
    assert_eq!(eval(read(fact), &mut env), Ok(sym("ok")));
    assert_eq!(eval(read("(fact 0)"), &mut env), Ok(num(1)));
    assert_eq!(eval(read("(fact 5)"), &mut env), Ok(num(120)));
    assert_eq!(eval(read("(fact 10)"), &mut env), Ok(num(3628800)));
    assert_eq!(eval(read("(fact 20)"), &mut env), Ok(num(2432902008176640000)));
    assert_eq!(eval(read("(fact 21)"), &mut env), Err(EvalError::Overflow));
    assert!(env.is_global());
}

#[test]
fn the_identity_leaves_one_scope() {
    let mut env = Env::new(0);
    assert_eq!(eval(read("((lambda (x) x) 7)"), &mut env), Ok(num(7)));
    assert_eq!(env.handle(), 0);
    assert!(env.frame().all_names().is_empty());
    assert_eq!(env.enter(1), Ok(()));
    assert_eq!(env.frame().all_names(), vec!["x".to_string()]);
    assert_eq!(env.lookup_variable_value(&Symb::new_unknown("x")), Ok(num(7)));
    assert_eq!(env.enter(2), Err(EvalError::MissingEnvironment));
}

#[test]
fn the_missing_feature() {
    let r: EvalResult<Obj> = lazarus::types::unimplemented_eval();
    assert_eq!(r, Err(EvalError::Unimplemented));
    assert_eq!(EvalError::Unimplemented.message(), "unimplemented");
}

#[test]
fn failures_in_words() {
    assert_eq!(run("nowhere").unwrap_err().message(), "unbound variable");
    assert_eq!(run("(cons 1)").unwrap_err().message(), "wrong number of arguments");
    assert_eq!(run("(car 1)").unwrap_err().message(), "not a cons cell");
    assert_eq!(run("(1 2)").unwrap_err().message(), "unknown procedure type");
    assert_eq!(EvalError::UnknownExpression.message(), "unknown expression type");
    assert_eq!(EvalError::DepthExceeded.message(), "procedure calls nest too deep");
}
