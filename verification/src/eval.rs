//! The evaluator: it computes what an expression is worth in an
//! environment, and changes the environment as the expression says.

use crate::env::Env;
use crate::obj::{symbol, values_of};
use crate::semantics::{
    apply_spec, eval_application_spec, eval_assignment_spec, eval_definition_spec, eval_if_spec,
    eval_sequence_spec, eval_spec, kept, list_of_values_spec, procedure_value,
};
use crate::types::{clone_loc, EvalError, EvalResult, Obj, Value, value_of};
use vstd::prelude::*;

verus! {

/// How deep procedure calls may nest in [`eval`].
pub const MAX_DEPTH: usize = 200;

/// The compound procedure with these parameters and this body, made in the
/// current scope of `env`.
pub fn make_procedure(parameters: Obj, body: Obj, env: &Env) -> (r: Obj)
    ensures
        r@ == procedure_value(parameters@, body@, env@.current),
{
    let mut items: Vec<Obj> = Vec::new();
    items.push(Obj::new_symb("procedure".to_owned(), None));
    items.push(parameters);
    items.push(body);
    items.push(Obj::from_env(env.handle(), None));
    assert(values_of(items@) =~= seq![
        symbol("procedure"),
        parameters@,
        body@,
        Value::Env(env@.current),
    ]);
    Obj::list_from_vec(items, None)
}

fn eval_assignment(exp: Obj, env: &mut Env, depth: usize) -> (r: EvalResult<Obj>)
    ensures
        (value_of(r), final(env)@) == eval_assignment_spec(exp@, old(env)@, depth as nat),
        kept(old(env)@, final(env)@),
        final(env).label() == old(env).label(),
    decreases depth, 1int, exp@, 0int,
{
    let var = exp.assignment_variable()?;
    let rhs = exp.assignment_value()?;
    let val = eval_bounded(rhs, env, depth)?;
    env.set_variable_value(&var, val.clone())?;
    Ok(val)
}

fn eval_definition(exp: Obj, env: &mut Env, depth: usize) -> (r: EvalResult<Obj>)
    ensures
        (value_of(r), final(env)@) == eval_definition_spec(exp@, old(env)@, depth as nat),
        kept(old(env)@, final(env)@),
        final(env).label() == old(env).label(),
    decreases depth, 1int, exp@, 0int,
{
    let var = exp.definition_variable()?.to_symb()?;
    let val = if exp.cadr()?.is_symbol() {
        let rhs = exp.caddr()?;
        eval_bounded(rhs, env, depth)?
    } else {
        let params = exp.cdadr()?;
        let body = exp.cddr()?;
        make_procedure(params, body, env)
    };
    env.define_variable(&var, val);
    Ok(Obj::new_symb("ok".to_owned(), clone_loc(&exp.loc)))
}

fn eval_if(exp: Obj, env: &mut Env, depth: usize) -> (r: EvalResult<Obj>)
    ensures
        (value_of(r), final(env)@) == eval_if_spec(exp@, old(env)@, depth as nat),
        kept(old(env)@, final(env)@),
        final(env).label() == old(env).label(),
    decreases depth, 1int, exp@, 0int,
{
    let pred = exp.if_predicate()?;
    if eval_bounded(pred, env, depth)?.is_true() {
        let then = exp.if_consequent()?;
        eval_bounded(then, env, depth)
    } else {
        let rest = exp.cdddr()?;
        if rest.is_null()? {
            Ok(Obj::new_bool(false, None))
        } else {
            let otherwise = rest.car()?;
            eval_bounded(otherwise, env, depth)
        }
    }
}

/// Evaluates a sequence of expressions, with procedure calls nested at
/// most `depth` deep.
pub fn eval_sequence_bounded(xs: Obj, env: &mut Env, depth: usize) -> (r: EvalResult<Obj>)
    ensures
        (value_of(r), final(env)@) == eval_sequence_spec(xs@, old(env)@, depth as nat),
        kept(old(env)@, final(env)@),
        final(env).label() == old(env).label(),
    decreases depth, 1int, xs@, 0int,
{
    let last: bool = xs.is_last_expr()?;
    let first = xs.car()?;
    if last {
        eval_bounded(first, env, depth)
    } else {
        eval_bounded(first, env, depth)?;
        let rest = xs.rest_expr()?;
        eval_sequence_bounded(rest, env, depth)
    }
}

/// Evaluates the operands of a call from the left, with procedure calls
/// nested at most `depth` deep.
pub fn list_of_values_bounded(exps: Obj, env: &mut Env, depth: usize) -> (r: EvalResult<Obj>)
    ensures
        (value_of(r), final(env)@) == list_of_values_spec(exps@, old(env)@, depth as nat),
        kept(old(env)@, final(env)@),
        final(env).label() == old(env).label(),
    decreases depth, 1int, exps@, 0int,
{
    if exps.has_no_operands()? {
        Ok(Obj::empty_list(clone_loc(&exps.loc)))
    } else {
        let first = exps.first_operand()?;
        let v = eval_bounded(first, env, depth)?;
        let rest = exps.rest_operands()?;
        let vs = list_of_values_bounded(rest, env, depth)?;
        Ok(Obj::cons(v, vs))
    }
}

fn eval_application(exp: Obj, env: &mut Env, depth: usize) -> (r: EvalResult<Obj>)
    ensures
        (value_of(r), final(env)@) == eval_application_spec(exp@, old(env)@, depth as nat),
        kept(old(env)@, final(env)@),
        final(env).label() == old(env).label(),
    decreases depth, 1int, exp@, 0int,
{
    let operator = exp.operator()?;
    let procedure = eval_bounded(operator, env, depth)?;
    let operands = exp.operands()?;
    let arguments = list_of_values_bounded(operands, env, depth)?;
    apply_bounded(procedure, arguments, env, depth)
}

/// Applies a procedure to the list of its arguments, with procedure calls
/// nested at most `depth` deep in the body.
pub fn apply_bounded(procedure: Obj, arguments: Obj, env: &mut Env, depth: usize) -> (r: EvalResult<
    Obj,
>)
    ensures
        (value_of(r), final(env)@) == apply_spec(procedure@, arguments@, old(env)@, depth as nat),
        kept(old(env)@, final(env)@),
        final(env).label() == old(env).label(),
    decreases depth, 0int, procedure@, 0int,
{
    let caller: usize = env.handle();
    if procedure.is_primitive_procedure() {
        procedure.primitive_apply_to(arguments)
    } else if procedure.is_compound_procedure() {
        if depth == 0 {
            return Err(EvalError::DepthExceeded);
        }
        let scope: usize = procedure.environment()?;
        let params = procedure.parameters()?;
        let body = procedure.body()?;
        env.enter(scope)?;
        match env.extend(params, arguments) {
            Ok(_) => {
                let r = eval_sequence_bounded(body, env, depth - 1);
                let _ = env.enter(caller);
                r
            },
            Err(e) => {
                let _ = env.enter(caller);
                Err(e)
            },
        }
    } else {
        Err(EvalError::UnknownProcedure)
    }
}

/// Evaluates `exp` in `env`, with procedure calls nested at most `depth`
/// deep. Definitions and assignments change `env`; the scope that was
/// current is current again afterwards, whatever the result.
pub fn eval_bounded(exp: Obj, env: &mut Env, depth: usize) -> (r: EvalResult<Obj>)
    ensures
        (value_of(r), final(env)@) == eval_spec(exp@, old(env)@, depth as nat),
        kept(old(env)@, final(env)@),
        final(env).label() == old(env).label(),
    decreases depth, 1int, exp@, 1int,
{
    if exp.is_self_evaluating() {
        Ok(exp)
    } else if exp.is_variable() {
        match exp.to_symb() {
            Ok(sym) => env.lookup_variable_value(&sym),
            Err(e) => Err(e),
        }
    } else if exp.is_quoted() {
        exp.text_of_quotation()
    } else if exp.is_assignment() {
        eval_assignment(exp, env, depth)
    } else if exp.is_definition() {
        eval_definition(exp, env, depth)
    } else if exp.is_if() {
        eval_if(exp, env, depth)
    } else if exp.is_lambda() {
        let params = exp.lambda_parameters()?;
        let body = exp.lambda_body()?;
        Ok(make_procedure(params, body, env))
    } else if exp.is_begin() {
        let actions = exp.begin_actions()?;
        eval_sequence_bounded(actions, env, depth)
    } else if exp.is_application() {
        eval_application(exp, env, depth)
    } else {
        Err(EvalError::UnknownExpression)
    }
}

/// Evaluates `exp` in `env`, with procedure calls nested at most
/// [`MAX_DEPTH`] deep.
pub fn eval(exp: Obj, env: &mut Env) -> (r: EvalResult<Obj>)
    ensures
        (value_of(r), final(env)@) == eval_spec(exp@, old(env)@, MAX_DEPTH as nat),
        kept(old(env)@, final(env)@),
        final(env).label() == old(env).label(),
{
    eval_bounded(exp, env, MAX_DEPTH)
}

/// Evaluates a sequence of expressions and hands back the value of the
/// last, with procedure calls nested at most [`MAX_DEPTH`] deep.
pub fn eval_sequence(xs: Obj, env: &mut Env) -> (r: EvalResult<Obj>)
    ensures
        (value_of(r), final(env)@) == eval_sequence_spec(xs@, old(env)@, MAX_DEPTH as nat),
        kept(old(env)@, final(env)@),
        final(env).label() == old(env).label(),
{
    eval_sequence_bounded(xs, env, MAX_DEPTH)
}

/// Evaluates the operands of a call from the left and hands back the list
/// of their values, with procedure calls nested at most [`MAX_DEPTH`] deep.
pub fn list_of_values(exps: Obj, env: &mut Env) -> (r: EvalResult<Obj>)
    ensures
        (value_of(r), final(env)@) == list_of_values_spec(exps@, old(env)@, MAX_DEPTH as nat),
        kept(old(env)@, final(env)@),
        final(env).label() == old(env).label(),
{
    list_of_values_bounded(exps, env, MAX_DEPTH)
}

/// Applies a procedure to the list of its arguments, with procedure calls
/// nested at most [`MAX_DEPTH`] deep in the body.
pub fn apply(procedure: Obj, arguments: Obj, env: &mut Env) -> (r: EvalResult<Obj>)
    ensures
        (value_of(r), final(env)@) == apply_spec(procedure@, arguments@, old(env)@, MAX_DEPTH as nat),
        kept(old(env)@, final(env)@),
        final(env).label() == old(env).label(),
{
    apply_bounded(procedure, arguments, env, MAX_DEPTH)
}

} // verus!
