//! What expressions mean: the value of an expression in an environment,
//! the environment that evaluating it leaves, and what follows from both.

use crate::env::{EnvView, ScopeView};
use crate::frame::bind_params;
use crate::obj::{list_value, pair, symbol};
use crate::types::{EvalError, EvalResult, Value};
use vstd::prelude::*;

verus! {

/// What an evaluation leaves behind: its result, and the environment after
/// it.
pub type Outcome = (EvalResult<Value>, EnvView);

/// A compound procedure: `(procedure params body env)`, where `env` is the
/// handle of the scope it was made in.
pub open spec fn procedure_value(params: Value, body: Value, scope: nat) -> Value {
    list_value(seq![symbol("procedure"), params, body, Value::Env(scope)])
}

/// The value of `exp` in `env`, where procedure calls nest at most `fuel`
/// deep. The shapes are tried in this order: number, variable, quotation,
/// assignment, definition, conditional, lambda, sequence, procedure call.
pub open spec fn eval_spec(exp: Value, env: EnvView, fuel: nat) -> Outcome
    decreases fuel, 1int, exp, 1int,
{
    if exp.is_self_evaluating() {
        (Ok(exp), env)
    } else if exp is Symbol {
        (env.lookup(exp->Symbol_0), env)
    } else if exp.is_tagged("quote"@) {
        (exp.cadr(), env)
    } else if exp.is_tagged("set!"@) {
        eval_assignment_spec(exp, env, fuel)
    } else if exp.is_tagged("define"@) {
        eval_definition_spec(exp, env, fuel)
    } else if exp.is_tagged("if"@) {
        eval_if_spec(exp, env, fuel)
    } else if exp.is_tagged("lambda"@) {
        (make_procedure_spec(exp.cadr(), exp.cddr(), env.current), env)
    } else if exp.is_tagged("begin"@) {
        match exp.cdr() {
            Ok(actions) => eval_sequence_spec(actions, env, fuel),
            Err(e) => (Err(e), env),
        }
    } else if exp.is_application() {
        eval_application_spec(exp, env, fuel)
    } else {
        (Err(EvalError::UnknownExpression), env)
    }
}

/// The procedure that a lambda with these parameters and this body makes
/// in the scope with the given handle.
pub open spec fn make_procedure_spec(
    params: EvalResult<Value>,
    body: EvalResult<Value>,
    scope: nat,
) -> EvalResult<Value> {
    match params {
        Ok(p) => match body {
            Ok(b) => Ok(procedure_value(p, b, scope)),
            Err(e) => Err(e),
        },
        Err(e) => Err(e),
    }
}

/// `(set! var value)`: the value is evaluated, put in place of what the
/// nearest binding of `var` held, and handed back.
pub open spec fn eval_assignment_spec(exp: Value, env: EnvView, fuel: nat) -> Outcome
    decreases fuel, 1int, exp, 0int,
{
    match exp.assignment_variable() {
        Err(e) => (Err(e), env),
        Ok(name) => match exp.caddr() {
            Err(e) => (Err(e), env),
            Ok(rhs) => {
                let (r, env1) = eval_spec(rhs, env, fuel);
                match r {
                    Err(e) => (Err(e), env1),
                    Ok(v) => {
                        let (set, env2) = env1.assign(name, v);
                        match set {
                            Err(e) => (Err(e), env2),
                            Ok(_) => (Ok(v), env2),
                        }
                    },
                }
            },
        },
    }
}

/// `(define name value)` and `(define (name params...) body...)`: the value,
/// or the procedure, is bound to `name` in the current scope. The result is
/// the symbol `ok`.
pub open spec fn eval_definition_spec(exp: Value, env: EnvView, fuel: nat) -> Outcome
    decreases fuel, 1int, exp, 0int,
{
    match exp.definition_variable() {
        Err(e) => (Err(e), env),
        Ok(target) => match target.to_symb() {
            Err(e) => (Err(e), env),
            Ok(name) => {
                let (r, env1) = if exp.cadr() matches Ok(t) && t is Symbol {
                    match exp.caddr() {
                        Ok(rhs) => eval_spec(rhs, env, fuel),
                        Err(e) => (Err(e), env),
                    }
                } else {
                    (make_procedure_spec(exp.cdadr(), exp.cddr(), env.current), env)
                };
                match r {
                    Err(e) => (Err(e), env1),
                    Ok(v) => (Ok(symbol("ok")), env1.define(name, v)),
                }
            },
        },
    }
}

/// `(if pred then else)`: where the predicate is worth anything but
/// `Bool(false)`, the value of `then`; else the value of `else`, and
/// `Bool(false)` where there is no `else`.
pub open spec fn eval_if_spec(exp: Value, env: EnvView, fuel: nat) -> Outcome
    decreases fuel, 1int, exp, 0int,
{
    match exp.cadr() {
        Err(e) => (Err(e), env),
        Ok(pred) => {
            let (p, env1) = eval_spec(pred, env, fuel);
            match p {
                Err(e) => (Err(e), env1),
                Ok(truth) => if truth.is_true() {
                    match exp.caddr() {
                        Ok(then) => eval_spec(then, env1, fuel),
                        Err(e) => (Err(e), env1),
                    }
                } else {
                    match exp.cdddr() {
                        Err(e) => (Err(e), env1),
                        Ok(rest) => if rest is Nil {
                            (Ok(Value::Bool(false)), env1)
                        } else {
                            match rest.car() {
                                Ok(otherwise) => eval_spec(otherwise, env1, fuel),
                                Err(e) => (Err(e), env1),
                            }
                        },
                    }
                },
            }
        },
    }
}

/// A sequence of expressions: each is evaluated in turn, in the
/// environment that the one before it left, and the value of the last is
/// the value of the sequence. A failure ends it.
pub open spec fn eval_sequence_spec(xs: Value, env: EnvView, fuel: nat) -> Outcome
    decreases fuel, 1int, xs, 0int,
{
    match xs.is_last_expr() {
        Err(e) => (Err(e), env),
        Ok(last) => match xs.car() {
            Err(e) => (Err(e), env),
            Ok(first) => {
                let (r, env1) = eval_spec(first, env, fuel);
                if last {
                    (r, env1)
                } else {
                    match r {
                        Err(e) => (Err(e), env1),
                        Ok(_) => match xs.cdr() {
                            Ok(rest) => eval_sequence_spec(rest, env1, fuel),
                            Err(e) => (Err(e), env1),
                        },
                    }
                }
            },
        },
    }
}

/// The values of the operands of a call, from the left, as a list.
pub open spec fn list_of_values_spec(exps: Value, env: EnvView, fuel: nat) -> Outcome
    decreases fuel, 1int, exps, 0int,
{
    if exps is Nil {
        (Ok(Value::Nil), env)
    } else {
        match exps.car() {
            Err(e) => (Err(e), env),
            Ok(first) => {
                let (r, env1) = eval_spec(first, env, fuel);
                match r {
                    Err(e) => (Err(e), env1),
                    Ok(v) => match exps.cdr() {
                        Err(e) => (Err(e), env1),
                        Ok(rest) => {
                            let (rs, env2) = list_of_values_spec(rest, env1, fuel);
                            match rs {
                                Err(e) => (Err(e), env2),
                                Ok(vs) => (Ok(pair(v, vs)), env2),
                            }
                        },
                    },
                }
            },
        }
    }
}

/// A procedure call: the operator is evaluated, then the operands from the
/// left, then the procedure is applied to their values.
pub open spec fn eval_application_spec(exp: Value, env: EnvView, fuel: nat) -> Outcome
    decreases fuel, 1int, exp, 0int,
{
    match exp.car() {
        Err(e) => (Err(e), env),
        Ok(operator) => {
            let (f, env1) = eval_spec(operator, env, fuel);
            match f {
                Err(e) => (Err(e), env1),
                Ok(procedure) => match exp.cdr() {
                    Err(e) => (Err(e), env1),
                    Ok(operands) => {
                        let (a, env2) = list_of_values_spec(operands, env1, fuel);
                        match a {
                            Err(e) => (Err(e), env2),
                            Ok(arguments) => apply_spec(procedure, arguments, env2, fuel),
                        }
                    },
                }
            }
        },
    }
}

/// Applying a procedure to the list of its arguments. A native procedure
/// computes on the list. A compound procedure opens a scope inside the one
/// it was made in, binds its parameters there, evaluates its body there as
/// a sequence, and leaves the caller's scope current. Anything else is no
/// procedure.
pub open spec fn apply_spec(procedure: Value, arguments: Value, env: EnvView, fuel: nat) -> Outcome
    decreases fuel, 0int, procedure, 0int,
{
    if procedure.is_tagged("primitive"@) {
        (procedure.primitive_apply_to(arguments), env)
    } else if procedure.is_tagged("procedure"@) {
        if fuel == 0 {
            (Err(EvalError::DepthExceeded), env)
        } else {
            match procedure.environment() {
                Err(e) => (Err(e), env),
                Ok(scope) => if scope >= env.scopes.len() {
                    (Err(EvalError::MissingEnvironment), env)
                } else {
                    match procedure.cadr() {
                        Err(e) => (Err(e), env),
                        Ok(params) => match procedure.caddr() {
                            Err(e) => (Err(e), env),
                            Ok(body) => match bind_params(params, arguments) {
                                Err(e) => (Err(e), env),
                                Ok(bindings) => {
                                    let (r, after) = eval_sequence_spec(
                                        body,
                                        env.enter(scope).extend(bindings),
                                        (fuel - 1) as nat,
                                    );
                                    (r, after.enter(env.current))
                                },
                            },
                        },
                    }
                },
            }
        }
    } else {
        (Err(EvalError::UnknownProcedure), env)
    }
}

/// The words that mark the special forms and the procedures are eight
/// different words.
pub proof fn lemma_tags_differ()
    ensures
        "quote"@ != "set!"@,
        "quote"@ != "define"@,
        "quote"@ != "if"@,
        "quote"@ != "lambda"@,
        "quote"@ != "begin"@,
        "set!"@ != "define"@,
        "set!"@ != "if"@,
        "set!"@ != "lambda"@,
        "set!"@ != "begin"@,
        "define"@ != "if"@,
        "define"@ != "lambda"@,
        "define"@ != "begin"@,
        "if"@ != "lambda"@,
        "if"@ != "begin"@,
        "lambda"@ != "begin"@,
        "primitive"@ != "procedure"@,
{
    reveal_strlit("quote");
    reveal_strlit("set!");
    reveal_strlit("define");
    reveal_strlit("if");
    reveal_strlit("lambda");
    reveal_strlit("begin");
    reveal_strlit("primitive");
    reveal_strlit("procedure");
    assert("quote"@.len() == 5 && "set!"@.len() == 4 && "define"@.len() == 6);
    assert("if"@.len() == 2 && "lambda"@.len() == 6 && "begin"@.len() == 5);
    assert("primitive"@.len() == 9 && "procedure"@.len() == 9);
    assert("quote"@[0] != "begin"@[0]);
    assert("define"@[0] != "lambda"@[0]);
    assert("primitive"@[2] != "procedure"@[2]);
}

/// `(if pred then else)`: whatever the predicate is worth, unless it is
/// `Bool(false)`, the conditional is worth what `then` is worth in the
/// environment that the predicate left; for `Bool(false)` it is worth what
/// `else` is worth there. A predicate that fails makes the conditional fail.
pub proof fn lemma_if(pred: Value, then: Value, otherwise: Value, env: EnvView, fuel: nat)
    ensures
        ({
            let exp = pair(
                symbol("if"),
                pair(pred, pair(then, pair(otherwise, Value::Nil))),
            );
            let (p, env1) = eval_spec(pred, env, fuel);
            eval_spec(exp, env, fuel) == match p {
                Err(e) => (Err::<Value, EvalError>(e), env1),
                Ok(v) => if v != Value::Bool(false) {
                    eval_spec(then, env1, fuel)
                } else {
                    eval_spec(otherwise, env1, fuel)
                },
            }
        }),
{
    lemma_tags_differ();
}

/// `(if pred then)`: where the predicate is worth `Bool(false)`, the
/// conditional is worth `Bool(false)`; else what `then` is worth.
pub proof fn lemma_if_without_alternative(pred: Value, then: Value, env: EnvView, fuel: nat)
    ensures
        ({
            let exp = pair(symbol("if"), pair(pred, pair(then, Value::Nil)));
            let (p, env1) = eval_spec(pred, env, fuel);
            eval_spec(exp, env, fuel) == match p {
                Err(e) => (Err::<Value, EvalError>(e), env1),
                Ok(v) => if v != Value::Bool(false) {
                    eval_spec(then, env1, fuel)
                } else {
                    (Ok::<Value, EvalError>(Value::Bool(false)), env1)
                },
            }
        }),
{
    lemma_tags_differ();
}

/// In a sequence of more than one expression, the value of the first is
/// dropped: the sequence is worth what the rest is worth in the environment
/// that the first left.
pub proof fn lemma_sequence_step(first: Value, rest: Value, env: EnvView, fuel: nat)
    requires
        rest is Cons,
        eval_spec(first, env, fuel).0 is Ok,
    ensures
        eval_sequence_spec(pair(first, rest), env, fuel) == eval_sequence_spec(
            rest,
            eval_spec(first, env, fuel).1,
            fuel,
        ),
{
}

/// A sequence of one expression is worth what the expression is worth.
pub proof fn lemma_sequence_last(last: Value, env: EnvView, fuel: nat)
    ensures
        eval_sequence_spec(pair(last, Value::Nil), env, fuel) == eval_spec(last, env, fuel),
{
}

/// A sequence of numbers is worth the last of them, and leaves the
/// environment as it was.
pub proof fn lemma_sequence_of_numbers(items: Seq<Value>, env: EnvView, fuel: nat)
    requires
        items.len() > 0,
        forall|i: int| 0 <= i < items.len() ==> (#[trigger] items[i]).is_self_evaluating(),
    ensures
        eval_sequence_spec(list_value(items), env, fuel) == (
            Ok::<Value, EvalError>(items.last()),
            env,
        ),
    decreases items.len(),
{
    let rest = items.drop_first();
    assert(items[0].is_self_evaluating());
    assert(list_value(items) == pair(items[0], list_value(rest)));
    assert(eval_spec(items[0], env, fuel) == (Ok::<Value, EvalError>(items[0]), env));
    if items.len() == 1 {
        assert(list_value(rest) == Value::Nil);
    } else {
        assert(list_value(rest) == pair(rest[0], list_value(rest.drop_first())));
        assert(rest[0].is_self_evaluating());
        assert forall|i: int| 0 <= i < rest.len() implies (#[trigger] rest[i]).is_self_evaluating() by {
            assert(rest[i] == items[i + 1]);
        }
        lemma_sequence_of_numbers(rest, env, fuel);
        assert(rest.last() == items.last());
    }
}

/// `(begin n ...)` on numbers is worth the last of them.
pub proof fn lemma_begin_of_numbers(items: Seq<Value>, env: EnvView, fuel: nat)
    requires
        items.len() > 0,
        forall|i: int| 0 <= i < items.len() ==> (#[trigger] items[i]).is_self_evaluating(),
    ensures
        eval_spec(pair(symbol("begin"), list_value(items)), env, fuel) == (
            Ok::<Value, EvalError>(items.last()),
            env,
        ),
{
    lemma_tags_differ();
    lemma_sequence_of_numbers(items, env, fuel);
}

/// `(begin (define name n) name)`, for a number `n`, is worth `n`, and
/// leaves `name` bound to `n` in the current scope.
pub proof fn lemma_define_then_variable(name: Seq<char>, n: Value, env: EnvView, fuel: nat)
    requires
        env.wf(),
        n.is_self_evaluating(),
    ensures
        ({
            let definition = pair(
                symbol("define"),
                pair(Value::Symbol(name), pair(n, Value::Nil)),
            );
            let exp = pair(
                symbol("begin"),
                pair(definition, pair(Value::Symbol(name), Value::Nil)),
            );
            eval_spec(exp, env, fuel) == (Ok::<Value, EvalError>(n), env.define(name, n))
        }),
{
    lemma_tags_differ();
    crate::env::lemma_define_then_lookup(env, name, n);
    let definition = pair(symbol("define"), pair(Value::Symbol(name), pair(n, Value::Nil)));
    assert(eval_spec(n, env, fuel) == (Ok::<Value, EvalError>(n), env));
    assert(eval_definition_spec(definition, env, fuel) == (
        Ok::<Value, EvalError>(symbol("ok")),
        env.define(name, n),
    ));
    assert(eval_spec(Value::Symbol(name), env.define(name, n), fuel) == (
        Ok::<Value, EvalError>(n),
        env.define(name, n),
    ));
    let actions = pair(definition, pair(Value::Symbol(name), Value::Nil));
    assert(eval_spec(definition, env, fuel) == (
        Ok::<Value, EvalError>(symbol("ok")),
        env.define(name, n),
    ));
    assert(eval_sequence_spec(pair(Value::Symbol(name), Value::Nil), env.define(name, n), fuel) == (
        Ok::<Value, EvalError>(n),
        env.define(name, n),
    ));
    assert(eval_sequence_spec(actions, env, fuel) == (
        Ok::<Value, EvalError>(n),
        env.define(name, n),
    ));
}

/// `(set! name n)`, for a number `n` and a name that is bound, is worth
/// `n`, and the name is worth `n` afterwards. Where the name is not bound,
/// the assignment fails and binds nothing.
pub proof fn lemma_assignment(name: Seq<char>, n: Value, env: EnvView, fuel: nat)
    requires
        n.is_self_evaluating(),
    ensures
        ({
            let exp = pair(symbol("set!"), pair(Value::Symbol(name), pair(n, Value::Nil)));
            let (r, after) = eval_spec(exp, env, fuel);
            &&& env.lookup(name) is Ok ==> r == Ok::<Value, EvalError>(n) && after.lookup(name)
                == Ok::<Value, EvalError>(n)
            &&& env.lookup(name) is Err ==> r == Err::<Value, EvalError>(
                EvalError::UnboundVariable,
            ) && after == env
        }),
{
    lemma_tags_differ();
    crate::env::lemma_assign_then_lookup(env, name, n);
    let exp = pair(symbol("set!"), pair(Value::Symbol(name), pair(n, Value::Nil)));
    assert(eval_spec(n, env, fuel) == (Ok::<Value, EvalError>(n), env));
    assert(eval_spec(exp, env, fuel) == eval_assignment_spec(exp, env, fuel));
}

/// The sugared definition `(define (name params...) body...)` binds what
/// the lambda `(lambda (params...) body...)` is worth.
pub proof fn lemma_sugared_definition(exp: Value, env: EnvView, fuel: nat)
    requires
        exp.cadr() matches Ok(target) && !(target is Symbol),
        exp.definition_value() is Ok,
    ensures
        eval_spec(exp.definition_value()->Ok_0, env, fuel) == (
            make_procedure_spec(exp.cdadr(), exp.cddr(), env.current),
            env,
        ),
{
    lemma_tags_differ();
}

/// What holds of the environment after any evaluation: the caller's scope
/// is current again, and no scope has gone.
pub open spec fn kept(before: EnvView, after: EnvView) -> bool {
    &&& after.current == before.current
    &&& after.scopes.len() >= before.scopes.len()
}

/// Calling the identity `(lambda (x) x)` on a number is worth the number.
/// The call leaves one new scope behind, opened inside the scope the lambda
/// was made in, in which the parameter is bound to the number; the caller's
/// scope is current again.
pub proof fn lemma_identity_call(x: Seq<char>, n: Value, env: EnvView, fuel: nat)
    requires
        env.wf(),
        n.is_self_evaluating(),
        fuel > 0,
    ensures
        ({
            let params = pair(Value::Symbol(x), Value::Nil);
            let body = pair(Value::Symbol(x), Value::Nil);
            let identity = pair(symbol("lambda"), pair(params, body));
            let exp = pair(identity, pair(n, Value::Nil));
            eval_spec(exp, env, fuel) == (
                Ok::<Value, EvalError>(n),
                EnvView {
                    scopes: env.scopes.push(
                        ScopeView {
                            bindings: Map::<Seq<char>, Value>::empty().insert(x, n),
                            enclosing: Some(env.current),
                        },
                    ),
                    current: env.current,
                },
            )
        }),
{
    lemma_tags_differ();
    let params = pair(Value::Symbol(x), Value::Nil);
    let body = pair(Value::Symbol(x), Value::Nil);
    let identity = pair(symbol("lambda"), pair(params, body));
    let operands = pair(n, Value::Nil);
    let exp = pair(identity, operands);
    let procedure = procedure_value(params, body, env.current);
    let bindings = Map::<Seq<char>, Value>::empty().insert(x, n);
    let inner = env.enter(env.current).extend(bindings);
    // The operator is a lambda: it makes a procedure in the current scope.
    assert(eval_spec(identity, env, fuel) == (Ok::<Value, EvalError>(procedure), env));
    // The one operand is worth itself.
    assert(eval_spec(n, env, fuel) == (Ok::<Value, EvalError>(n), env));
    assert(list_of_values_spec(Value::Nil, env, fuel) == (Ok::<Value, EvalError>(Value::Nil), env));
    assert(list_of_values_spec(operands, env, fuel) == (Ok::<Value, EvalError>(operands), env));
    // The procedure keeps its parameters, its body and the handle of its scope.
    let items = seq![symbol("procedure"), params, body, Value::Env(env.current)];
    assert(procedure == pair(items[0], list_value(items.drop_first())));
    let rest1 = items.drop_first();
    assert(list_value(rest1) == pair(rest1[0], list_value(rest1.drop_first())));
    let rest2 = rest1.drop_first();
    assert(list_value(rest2) == pair(rest2[0], list_value(rest2.drop_first())));
    let rest3 = rest2.drop_first();
    assert(list_value(rest3) == pair(rest3[0], list_value(rest3.drop_first())));
    assert(procedure.cadr() == Ok::<Value, EvalError>(params));
    assert(procedure.caddr() == Ok::<Value, EvalError>(body));
    assert(procedure.environment() == Ok::<nat, EvalError>(env.current));
    // The parameter is bound to the argument.
    assert(params.list_length() == Ok::<usize, EvalError>(1)) by {
        reveal_with_fuel(Value::list_length, 3);
    }
    assert(operands.list_length() == Ok::<usize, EvalError>(1)) by {
        reveal_with_fuel(Value::list_length, 3);
    }
    assert(crate::frame::zip_bindings(params, operands, Map::empty()) == Ok::<
        Map<Seq<char>, Value>,
        EvalError,
    >(bindings)) by {
        reveal_with_fuel(crate::frame::zip_bindings, 3);
    }
    assert(bind_params(params, operands) == Ok::<Map<Seq<char>, Value>, EvalError>(bindings));
    // The body is the parameter, looked up in the new scope.
    assert(inner.scopes[inner.current as int].bindings.dom().contains(x));
    assert(inner.lookup(x) == Ok::<Value, EvalError>(n));
    assert(eval_spec(Value::Symbol(x), inner, (fuel - 1) as nat) == (
        Ok::<Value, EvalError>(n),
        inner,
    ));
    assert(eval_sequence_spec(body, inner, (fuel - 1) as nat) == (Ok::<Value, EvalError>(n), inner));
    assert(apply_spec(procedure, operands, env, fuel) == (
        Ok::<Value, EvalError>(n),
        inner.enter(env.current),
    ));
    assert(exp.is_application()) by {
        reveal_with_fuel(Value::is_list, 3);
    }
    assert(eval_application_spec(exp, env, fuel) == (
        Ok::<Value, EvalError>(n),
        inner.enter(env.current),
    ));
}

/// Whether an evaluation ran into the bound on the depth of calls.
pub open spec fn out_of_depth(outcome: Outcome) -> bool {
    outcome.0 == Err::<Value, EvalError>(EvalError::DepthExceeded)
}

/// The bound on the depth of calls never changes what an expression is
/// worth: an evaluation that does not run into the bound has the same
/// outcome under every larger bound.
pub proof fn lemma_eval_depth(exp: Value, env: EnvView, fuel: nat, more: nat)
    requires
        fuel <= more,
        !out_of_depth(eval_spec(exp, env, fuel)),
    ensures
        eval_spec(exp, env, more) == eval_spec(exp, env, fuel),
    decreases fuel, 1int, exp, 1int,
{
    if exp.is_self_evaluating() || exp is Symbol || exp.is_tagged("quote"@) {
    } else if exp.is_tagged("set!"@) {
        lemma_assignment_depth(exp, env, fuel, more);
    } else if exp.is_tagged("define"@) {
        lemma_definition_depth(exp, env, fuel, more);
    } else if exp.is_tagged("if"@) {
        lemma_if_depth(exp, env, fuel, more);
    } else if exp.is_tagged("lambda"@) {
    } else if exp.is_tagged("begin"@) {
        lemma_sequence_depth(exp.cdr()->Ok_0, env, fuel, more);
    } else if exp.is_application() {
        lemma_application_depth(exp, env, fuel, more);
    }
}

proof fn lemma_assignment_depth(exp: Value, env: EnvView, fuel: nat, more: nat)
    requires
        fuel <= more,
        !out_of_depth(eval_assignment_spec(exp, env, fuel)),
    ensures
        eval_assignment_spec(exp, env, more) == eval_assignment_spec(exp, env, fuel),
    decreases fuel, 1int, exp, 0int,
{
    if exp.assignment_variable() is Ok && exp.caddr() is Ok {
        lemma_eval_depth(exp.caddr()->Ok_0, env, fuel, more);
    }
}

proof fn lemma_definition_depth(exp: Value, env: EnvView, fuel: nat, more: nat)
    requires
        fuel <= more,
        !out_of_depth(eval_definition_spec(exp, env, fuel)),
    ensures
        eval_definition_spec(exp, env, more) == eval_definition_spec(exp, env, fuel),
    decreases fuel, 1int, exp, 0int,
{
    if exp.definition_variable() matches Ok(target) && target.to_symb() is Ok {
        if exp.cadr() matches Ok(t) && t is Symbol {
            if exp.caddr() is Ok {
                lemma_eval_depth(exp.caddr()->Ok_0, env, fuel, more);
            }
        }
    }
}

proof fn lemma_if_depth(exp: Value, env: EnvView, fuel: nat, more: nat)
    requires
        fuel <= more,
        !out_of_depth(eval_if_spec(exp, env, fuel)),
    ensures
        eval_if_spec(exp, env, more) == eval_if_spec(exp, env, fuel),
    decreases fuel, 1int, exp, 0int,
{
    if exp.cadr() is Ok {
        let pred = exp.cadr()->Ok_0;
        lemma_eval_depth(pred, env, fuel, more);
        let (p, env1) = eval_spec(pred, env, fuel);
        if p is Ok {
            if p->Ok_0.is_true() {
                if exp.caddr() is Ok {
                    lemma_eval_depth(exp.caddr()->Ok_0, env1, fuel, more);
                }
            } else if exp.cdddr() matches Ok(rest) && !(rest is Nil) && rest.car() is Ok {
                lemma_eval_depth(exp.cdddr()->Ok_0.car()->Ok_0, env1, fuel, more);
            }
        }
    }
}

/// The bound on the depth of calls never changes what a sequence of
/// expressions is worth.
pub proof fn lemma_sequence_depth(xs: Value, env: EnvView, fuel: nat, more: nat)
    requires
        fuel <= more,
        !out_of_depth(eval_sequence_spec(xs, env, fuel)),
    ensures
        eval_sequence_spec(xs, env, more) == eval_sequence_spec(xs, env, fuel),
    decreases fuel, 1int, xs, 0int,
{
    if xs.is_last_expr() is Ok && xs.car() is Ok {
        let first = xs.car()->Ok_0;
        lemma_eval_depth(first, env, fuel, more);
        let (r, env1) = eval_spec(first, env, fuel);
        if !xs.is_last_expr()->Ok_0 && r is Ok && xs.cdr() is Ok {
            lemma_sequence_depth(xs.cdr()->Ok_0, env1, fuel, more);
        }
    }
}

proof fn lemma_list_of_values_depth(exps: Value, env: EnvView, fuel: nat, more: nat)
    requires
        fuel <= more,
        !out_of_depth(list_of_values_spec(exps, env, fuel)),
    ensures
        list_of_values_spec(exps, env, more) == list_of_values_spec(exps, env, fuel),
    decreases fuel, 1int, exps, 0int,
{
    if !(exps is Nil) && exps.car() is Ok {
        let first = exps.car()->Ok_0;
        lemma_eval_depth(first, env, fuel, more);
        let (r, env1) = eval_spec(first, env, fuel);
        if r is Ok && exps.cdr() is Ok {
            lemma_list_of_values_depth(exps.cdr()->Ok_0, env1, fuel, more);
        }
    }
}

proof fn lemma_application_depth(exp: Value, env: EnvView, fuel: nat, more: nat)
    requires
        fuel <= more,
        !out_of_depth(eval_application_spec(exp, env, fuel)),
    ensures
        eval_application_spec(exp, env, more) == eval_application_spec(exp, env, fuel),
    decreases fuel, 1int, exp, 0int,
{
    if exp.car() is Ok {
        let operator = exp.car()->Ok_0;
        lemma_eval_depth(operator, env, fuel, more);
        let (f, env1) = eval_spec(operator, env, fuel);
        if f is Ok && exp.cdr() is Ok {
            lemma_list_of_values_depth(exp.cdr()->Ok_0, env1, fuel, more);
            let (a, env2) = list_of_values_spec(exp.cdr()->Ok_0, env1, fuel);
            if a is Ok {
                lemma_apply_depth(f->Ok_0, a->Ok_0, env2, fuel, more);
            }
        }
    }
}

/// The bound on the depth of calls never changes what applying a procedure
/// is worth.
pub proof fn lemma_apply_depth(
    procedure: Value,
    arguments: Value,
    env: EnvView,
    fuel: nat,
    more: nat,
)
    requires
        fuel <= more,
        !out_of_depth(apply_spec(procedure, arguments, env, fuel)),
    ensures
        apply_spec(procedure, arguments, env, more) == apply_spec(procedure, arguments, env, fuel),
    decreases fuel, 0int, procedure, 0int,
{
    if !procedure.is_tagged("primitive"@) && procedure.is_tagged("procedure"@) && fuel > 0 {
        if procedure.environment() matches Ok(scope) && scope < env.scopes.len()
            && procedure.cadr() is Ok && procedure.caddr() is Ok {
            let scope = procedure.environment()->Ok_0;
            let params = procedure.cadr()->Ok_0;
            let body = procedure.caddr()->Ok_0;
            if bind_params(params, arguments) is Ok {
                let bindings = bind_params(params, arguments)->Ok_0;
                let inner = env.enter(scope).extend(bindings);
                lemma_sequence_depth(body, inner, (fuel - 1) as nat, (more - 1) as nat);
            }
        }
    }
}

/// What holds of a well-formed environment after any evaluation in it: it
/// is well formed, the caller's scope is current again, and no scope has
/// gone, so that the handle a procedure keeps never dangles.
pub open spec fn preserved(before: EnvView, after: EnvView) -> bool {
    kept(before, after) && after.wf()
}

/// Binding a name in a scope that exists keeps an environment well formed,
/// with the scopes it had.
pub proof fn lemma_bind_in_preserves(env: EnvView, scope: int, name: Seq<char>, v: Value)
    requires
        env.wf(),
        0 <= scope < env.scopes.len(),
    ensures
        preserved(env, env.bind_in(scope, name, v)),
        env.bind_in(scope, name, v).scopes.len() == env.scopes.len(),
{
    let after = env.bind_in(scope, name, v);
    assert forall|i: int| 0 <= i < after.scopes.len() implies ((
    #[trigger] after.scopes[i]).enclosing matches Some(p) ==> p < i) by {
        assert(after.scopes[i].enclosing == env.scopes[i].enclosing);
    }
}

/// Opening a scope inside one that exists keeps an environment well
/// formed.
pub proof fn lemma_extend_preserves(env: EnvView, scope: nat, bindings: Map<Seq<char>, Value>)
    requires
        env.wf(),
        scope < env.scopes.len(),
    ensures
        env.enter(scope).extend(bindings).wf(),
        env.enter(scope).extend(bindings).scopes.len() == env.scopes.len() + 1,
{
    let after = env.enter(scope).extend(bindings);
    assert forall|i: int| 0 <= i < after.scopes.len() implies ((
    #[trigger] after.scopes[i]).enclosing matches Some(p) ==> p < i) by {
        if i < env.scopes.len() {
            assert(after.scopes[i] == env.scopes[i]);
        }
    }
}

/// Every evaluation preserves the environment it runs in.
pub proof fn lemma_eval_preserves(exp: Value, env: EnvView, fuel: nat)
    requires
        env.wf(),
    ensures
        preserved(env, eval_spec(exp, env, fuel).1),
    decreases fuel, 1int, exp, 1int,
{
    if exp.is_self_evaluating() || exp is Symbol || exp.is_tagged("quote"@) {
    } else if exp.is_tagged("set!"@) {
        lemma_assignment_preserves(exp, env, fuel);
    } else if exp.is_tagged("define"@) {
        lemma_definition_preserves(exp, env, fuel);
    } else if exp.is_tagged("if"@) {
        lemma_if_preserves(exp, env, fuel);
    } else if exp.is_tagged("lambda"@) {
    } else if exp.is_tagged("begin"@) {
        lemma_sequence_preserves(exp.cdr()->Ok_0, env, fuel);
    } else if exp.is_application() {
        lemma_application_preserves(exp, env, fuel);
    }
}

proof fn lemma_assignment_preserves(exp: Value, env: EnvView, fuel: nat)
    requires
        env.wf(),
    ensures
        preserved(env, eval_assignment_spec(exp, env, fuel).1),
    decreases fuel, 1int, exp, 0int,
{
    if exp.assignment_variable() is Ok && exp.caddr() is Ok {
        let name = exp.assignment_variable()->Ok_0;
        let rhs = exp.caddr()->Ok_0;
        lemma_eval_preserves(rhs, env, fuel);
        let (r, env1) = eval_spec(rhs, env, fuel);
        if r is Ok {
            crate::env::lemma_binder_binds(env1, env1.current as int, name);
            if env1.binder(env1.current as int, name) is Some {
                lemma_bind_in_preserves(
                    env1,
                    env1.binder(env1.current as int, name)->0,
                    name,
                    r->Ok_0,
                );
            }
        }
    }
}

proof fn lemma_definition_preserves(exp: Value, env: EnvView, fuel: nat)
    requires
        env.wf(),
    ensures
        preserved(env, eval_definition_spec(exp, env, fuel).1),
    decreases fuel, 1int, exp, 0int,
{
    if exp.definition_variable() matches Ok(target) && target.to_symb() is Ok {
        let name = exp.definition_variable()->Ok_0.to_symb()->Ok_0;
        if exp.cadr() matches Ok(t) && t is Symbol {
            if exp.caddr() is Ok {
                let rhs = exp.caddr()->Ok_0;
                lemma_eval_preserves(rhs, env, fuel);
                let (r, env1) = eval_spec(rhs, env, fuel);
                if r is Ok {
                    lemma_bind_in_preserves(env1, env1.current as int, name, r->Ok_0);
                }
            }
        } else {
            let r = make_procedure_spec(exp.cdadr(), exp.cddr(), env.current);
            if r is Ok {
                lemma_bind_in_preserves(env, env.current as int, name, r->Ok_0);
            }
        }
    }
}

proof fn lemma_if_preserves(exp: Value, env: EnvView, fuel: nat)
    requires
        env.wf(),
    ensures
        preserved(env, eval_if_spec(exp, env, fuel).1),
    decreases fuel, 1int, exp, 0int,
{
    if exp.cadr() is Ok {
        let pred = exp.cadr()->Ok_0;
        lemma_eval_preserves(pred, env, fuel);
        let (p, env1) = eval_spec(pred, env, fuel);
        if p is Ok {
            if p->Ok_0.is_true() {
                if exp.caddr() is Ok {
                    lemma_eval_preserves(exp.caddr()->Ok_0, env1, fuel);
                }
            } else if exp.cdddr() matches Ok(rest) && !(rest is Nil) && rest.car() is Ok {
                lemma_eval_preserves(exp.cdddr()->Ok_0.car()->Ok_0, env1, fuel);
            }
        }
    }
}

/// Every sequence of expressions preserves the environment it runs in.
pub proof fn lemma_sequence_preserves(xs: Value, env: EnvView, fuel: nat)
    requires
        env.wf(),
    ensures
        preserved(env, eval_sequence_spec(xs, env, fuel).1),
    decreases fuel, 1int, xs, 0int,
{
    if xs.is_last_expr() is Ok && xs.car() is Ok {
        let first = xs.car()->Ok_0;
        lemma_eval_preserves(first, env, fuel);
        let (r, env1) = eval_spec(first, env, fuel);
        if !xs.is_last_expr()->Ok_0 && r is Ok && xs.cdr() is Ok {
            lemma_sequence_preserves(xs.cdr()->Ok_0, env1, fuel);
        }
    }
}

proof fn lemma_list_of_values_preserves(exps: Value, env: EnvView, fuel: nat)
    requires
        env.wf(),
    ensures
        preserved(env, list_of_values_spec(exps, env, fuel).1),
    decreases fuel, 1int, exps, 0int,
{
    if !(exps is Nil) && exps.car() is Ok {
        let first = exps.car()->Ok_0;
        lemma_eval_preserves(first, env, fuel);
        let (r, env1) = eval_spec(first, env, fuel);
        if r is Ok && exps.cdr() is Ok {
            lemma_list_of_values_preserves(exps.cdr()->Ok_0, env1, fuel);
        }
    }
}

proof fn lemma_application_preserves(exp: Value, env: EnvView, fuel: nat)
    requires
        env.wf(),
    ensures
        preserved(env, eval_application_spec(exp, env, fuel).1),
    decreases fuel, 1int, exp, 0int,
{
    if exp.car() is Ok {
        let operator = exp.car()->Ok_0;
        lemma_eval_preserves(operator, env, fuel);
        let (f, env1) = eval_spec(operator, env, fuel);
        if f is Ok && exp.cdr() is Ok {
            lemma_list_of_values_preserves(exp.cdr()->Ok_0, env1, fuel);
            let (a, env2) = list_of_values_spec(exp.cdr()->Ok_0, env1, fuel);
            if a is Ok {
                lemma_apply_preserves(f->Ok_0, a->Ok_0, env2, fuel);
            }
        }
    }
}

/// Every application of a procedure preserves the environment it runs in.
pub proof fn lemma_apply_preserves(procedure: Value, arguments: Value, env: EnvView, fuel: nat)
    requires
        env.wf(),
    ensures
        preserved(env, apply_spec(procedure, arguments, env, fuel).1),
    decreases fuel, 0int, procedure, 0int,
{
    if !procedure.is_tagged("primitive"@) && procedure.is_tagged("procedure"@) && fuel > 0 {
        if procedure.environment() matches Ok(scope) && scope < env.scopes.len()
            && procedure.cadr() is Ok && procedure.caddr() is Ok {
            let scope = procedure.environment()->Ok_0;
            let params = procedure.cadr()->Ok_0;
            let body = procedure.caddr()->Ok_0;
            if bind_params(params, arguments) is Ok {
                let bindings = bind_params(params, arguments)->Ok_0;
                lemma_extend_preserves(env, scope, bindings);
                let inner = env.enter(scope).extend(bindings);
                lemma_sequence_preserves(body, inner, (fuel - 1) as nat);
            }
        }
    }
}

} // verus!
