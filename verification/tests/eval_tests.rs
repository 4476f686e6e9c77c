use lazarus::env::Env;
use lazarus::eval::{eval, eval_sequence, list_of_values};
use lazarus::lexer::Lexer;
use lazarus::parser::Parser;
use lazarus::types::{Ast, EvalResult, Obj, Symb, Tok, Token};

fn get_parser(s: &str) -> Parser {
    let lexer = Lexer::new(s, "test.scm");
    Parser::new(lexer).unwrap()
}

fn eval_str(s: &str) -> EvalResult<Obj> {
    let mut env = Env::the_global_environment();
    let mut parser = get_parser(s);
    let parse_results = parser.list().unwrap();
    let obj = parse_results.to_obj();
    println!("obj: {:?}", obj);
    eval(obj, &mut env)
}

fn eval_str_env(s: &str) -> (EvalResult<Obj>, Env) {
    let mut env = Env::the_global_environment();
    let mut parser = get_parser(s);
    let parse_results = parser.list().unwrap();
    let obj = parse_results.to_obj();
    println!("obj: {:?}", obj);
    (eval(obj, &mut env), env)
}

#[test]
fn test_define_1() {
    let prog = "(begin (define foo (lambda (x) x)) (foo 4))";
    let (result, env) = eval_str_env(prog);
    assert!(env.frame().all_names().contains(&"foo".to_string()));
    assert!(result.is_ok());
    assert_eq!(result.unwrap(), Obj::new_int(4, None));
}

#[test]
fn test_define_2() {
    // A procedure that calls itself without end is the subject of
    // `endless_self_call_stops`.
}

#[test]
fn endless_self_call_stops() {
    let prog = "(begin (define fact (lambda (x) (fact x))) (fact 3) 4)";
    let (result, env) = eval_str_env(prog);
    assert!(env.frame().all_names().contains(&"fact".to_string()));
    assert_eq!(result, Err(lazarus::types::EvalError::DepthExceeded));
}

#[test]
fn test_define_3() {
    let prog = "(begin (define temp 42) (define foo (lambda () temp)) (foo))";
    let (result, env) = eval_str_env(prog);
    assert!(env.frame().all_names().contains(&"foo".to_string()));
    println!("{:?}", result);
    assert!(result.is_ok());
    assert_eq!(result.unwrap(), Obj::new_int(42, None));
}

#[test]
fn test_define_4() {
    let prog = r#"
(begin 

(define f1 (lambda (x) x))
(define f2 (lambda (x) (f1 x)))
(define f3 (lambda (x) (f2 x)))
(f3 4)
)

"#;
    let (result, env) = eval_str_env(prog);
    println!("env:    {:?}", env.frame().all_names());
    println!("result: {:?}", result);
    assert!(result.is_ok());
    assert_eq!(result.unwrap(), Obj::new_int(4, None));
}

#[test]
fn test_define_5() {
    let prog = r#"
(begin 

(define countdown (lambda (n)
 (if (eq? n 0) 1
  (countdown (dec n)))))

(countdown 3)
)

"#;
    let (result, env) = eval_str_env(prog);
    println!("env:    {:?}", env.frame().all_names());
    println!("result: {:?}", result);
    assert!(result.is_ok());
    assert_eq!(result.unwrap(), Obj::new_int(1, None));
}

#[test]
fn test_empty_list() {
    let prog = "(list)";
    let result = eval_str(prog).unwrap();
    assert_eq!(result, Obj::list_from_vec(vec![], None));
}

#[test]
fn test_eval_cdr() {
    let prog = "(cdr (list 1 2 3))";
    let result = eval_str(prog).unwrap();
    assert_eq!(
        result,
        Obj::list_from_vec(vec!(Obj::new_int(2, None), Obj::new_int(3, None)), None)
    );
}

#[test]
fn test_eval_list_car() {
    let prog = "(car (list 1 2 3))";
    let result = eval_str(prog).unwrap();
    assert_eq!(result, Obj::new_int(1, None),);
}

#[test]
fn test_list_of_values() {
    let mut env = Env::the_global_environment();
    let prog = "(list 1 2)";
    let mut parser = get_parser(prog);
    let parse_results = parser.list().unwrap();
    let obj = parse_results.to_obj();
    let result = list_of_values(obj.operands().unwrap(), &mut env).unwrap();
    let inner = Obj::list_from_vec(vec![Obj::new_int(1, None), Obj::new_int(2, None)], None);
    assert_eq!(result, inner);
}

#[test]
fn test_list_list() {
    let prog = "(list (list 1 2))";
    let result = eval_str(prog).unwrap();
    let inner = Obj::list_from_vec(vec![Obj::new_int(1, None), Obj::new_int(2, None)], None);
    let outer = Obj::list_from_vec(vec![inner], None);
    assert_eq!(result, outer);
}

#[test]
fn test_eval_seq_1() {
    let mut env = Env::the_global_environment();
    let seq = Obj::list_from_vec(vec![Obj::new_int(2, None), Obj::new_int(3, None)], None);
    let result = eval_sequence(seq, &mut env).unwrap();
    assert_eq!(result, Obj::new_int(3, None));
}

#[test]
fn test_eval_list_1() {
    let prog = "(list 2 3)";
    let result = eval_str(prog).unwrap();
    assert_eq!(
        result,
        Obj::list_from_vec(vec!(Obj::new_int(2, None), Obj::new_int(3, None),), None)
    );
}

#[test]
fn apply_3() {
    let prog = "(begin (define pair (lambda (x y) (list x y))) (pair 1 2))";
    let result = eval_str(prog).unwrap();
    assert_eq!(
        result,
        Obj::list_from_vec(vec!(Obj::new_int(1, None), Obj::new_int(2, None),), None)
    );
}

#[test]
fn apply_2() {
    let prog = "(begin (define dup (lambda (x) (list x x))) (dup 1))";
    let result = eval_str(prog).unwrap();
    assert_eq!(
        result,
        Obj::list_from_vec(vec!(Obj::new_int(1, None), Obj::new_int(1, None),), None)
    );
}

#[test]
fn apply_1() {
    let result = eval_str("(list 1 2 3)").unwrap();
    println!("result: {:?}", result);
    assert_eq!(
        result,
        Obj::list_from_vec(
            vec!(
                Obj::new_int(1, None),
                Obj::new_int(2, None),
                Obj::new_int(3, None),
            ),
            None
        )
    );
}

#[test]
fn eval_begin_3() {
    let prog = "(begin (define three 5) (set! three 3) 1 2 3 4 three)";
    let result = eval_str(prog).unwrap();
    assert_eq!(result, Obj::new_int(3, None));
    assert_ne!(result, Obj::new_int(1, None));
}

#[test]
fn eval_begin_2() {
    let prog = "(begin (define three 5) (set! three 3) three)";
    let result = eval_str(prog).unwrap();
    assert_eq!(result, Obj::new_int(3, None));
    assert_ne!(result, Obj::new_int(1, None));
}

#[test]
fn eval_begin_1() {
    let prog = "(begin 1 2 3)";
    let result = eval_str(prog).unwrap();
    assert_eq!(result, Obj::new_int(3, None));
    assert_ne!(result, Obj::new_int(1, None));
}

#[test]
fn eval_if_1() {
    let prog = "(if 1 2 3)";
    let result = eval_str(prog).unwrap();
    assert_eq!(result, Obj::new_int(2, None));
    assert_ne!(result, Obj::new_int(3, None));
}

#[test]
fn eval_if_2() {
    let prog = "(if 1 2.0 3)";
    let result = eval_str(prog).unwrap();
    assert_eq!(result, Obj::new_float(format!("{:?}", 2.0_f64), None));
    assert_ne!(result, Obj::new_int(3, None));
}

#[test]
fn eval_definition_1() {
    let mut env = Env::new(0);
    let sym = Symb::new("foo", "test-eval.rs".to_owned(), 0);
    let mut parser = get_parser("(define foo 42)");
    let parse_results = parser.list().unwrap();
    let obj = parse_results.to_obj();
    let _ = eval(obj, &mut env);
    println!("{:?}", env);
    let val = &env.lookup_variable_value(&sym).unwrap();
    assert_eq!(val, &Obj::new_int(42, None));
    assert_ne!(val, &Obj::new_int(43, None));
}

#[test]
fn eval_assign_1() {
    let mut env = Env::new(0);
    let sym = Symb::new("foo", "test-eval.rs".to_owned(), 0);
    env.define_variable(&sym, Obj::new_int(123, None));

    let mut parser = get_parser("(set! foo 42)");
    let parse_results = parser.list().unwrap();
    let obj = parse_results.to_obj();
    let _ = eval(obj, &mut env);
    println!("{:?}", env);

    let val = &env.lookup_variable_value(&sym).unwrap();
    assert_eq!(val, &Obj::new_int(42, None));
    assert_ne!(val, &Obj::new_int(43, None));
}

#[test]
fn eval_assign_2() {
    let mut env2 = Env::new(0);
    let sym = Symb::new("foo", "test-eval.rs".to_owned(), 0);

    env2.define_variable(&sym, Obj::new_int(123, None));
    env2.extend(Obj::nil(None), Obj::nil(None)).unwrap();
    assert!(!env2.is_global());

    let mut parser = get_parser("(set! foo 42)");
    let parse_results = parser.list().unwrap();
    let obj = parse_results.to_obj();
    let _ = eval(obj, &mut env2);

    let val = &env2.lookup_variable_value(&sym).unwrap();
    assert_eq!(val, &Obj::new_int(42, None));
    assert_ne!(val, &Obj::new_int(43, None));
    assert!(env2.frame().all_names().is_empty());
}

#[test]
fn eval_number_set() {
    let mut parser = get_parser("(set! foo 42)");
    let results = parser.list().unwrap();
    let objtree = results.to_obj();
    assert!(objtree.is_assignment());
}

#[test]
fn self_evaluating_1() {
    let obj = Obj::new_int(128, None);
    let mut env = Env::new(0);
    let result = eval(obj.clone(), &mut env).unwrap();
    assert_eq!(result, obj);
}

#[test]
fn eval_lookup_variable_1() {
    let obj = Obj::new_int(128, None);
    let mut env = Env::new(0);
    let sym = Symb::new("x", "test-eval.rs".to_owned(), 42);
    env.define_variable(&sym, obj.clone());
    let obj2 = env.lookup_variable_value(&sym).unwrap();
    assert_eq!(obj, obj2);
}

#[test]
fn eval_number_1() {
    let mut parser = get_parser("1");
    let results = parser.expr();
    match results {
        Err(msg) => panic!("{:?}", msg),
        Ok(Ast::Leaf(Token { tok, .. })) => match tok {
            Tok::Int(n) => assert_eq!(n, 1),
            x => panic!("should have got a 1, got: {:?}", x),
        },
        Ok(other) => panic!("should have got a 1, but got: {:?}", other),
    }
}
