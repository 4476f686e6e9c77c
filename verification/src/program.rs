//! Whole programs: from the text of a program to what it is worth.

use crate::env::{global_view, Env};
use crate::eval::{eval, MAX_DEPTH};
use crate::lexer::{LexError, Lexer};
use crate::parser::{list_trace, parse_list, significant_tokens, ParseError, Parser, Production};
use crate::semantics::eval_spec;
use crate::types::{EvalError, Obj, TokenView};
use vstd::prelude::*;

verus! {

/// Why a program has no value: its text is no sequence of tokens, its
/// tokens are no list, or its evaluation fails.
#[derive(Debug)]
pub enum Failure {
    Lex(LexError),
    Parse(ParseError),
    Eval(EvalError),
}

/// A parser over the tokens of a program text.
pub fn get_parser(s: &str, filename: &str) -> (r: Result<Parser, LexError>)
    ensures
        match r {
            Ok(p) => significant_tokens(s@) == Ok::<Seq<TokenView>, LexError>(p.tokens())
                && p.cursor() == 0 && p.file() == filename@,
            Err(e) => significant_tokens(s@) == Err::<Seq<TokenView>, LexError>(e),
        },
{
    let lexer = Lexer::new(s, filename);
    Parser::new(lexer)
}

/// What a program is worth: its text is read as one list, and the list is
/// evaluated in a new global environment.
pub fn eval_str(s: &str, filename: &str) -> (r: Result<Obj, Failure>)
    ensures
        match significant_tokens(s@) {
            Err(e) => r matches Err(Failure::Lex(f)) && f == e,
            Ok(toks) => match parse_list(toks, 0) {
                None => r matches Err(Failure::Parse(e)) && e.production == Production::List
                    && e.at == Parser::position(toks, 0) && e.filename@ == filename@ && e.trace@
                    == list_trace(toks, 0),
                Some((tree, _)) => match eval_spec(tree.value(), global_view(), MAX_DEPTH as nat).0 {
                    Ok(v) => r matches Ok(obj) && obj@ == v,
                    Err(e) => r matches Err(Failure::Eval(f)) && f == e,
                },
            },
        },
{
    let mut parser = match get_parser(s, filename) {
        Ok(parser) => parser,
        Err(e) => {
            return Err(Failure::Lex(e));
        },
    };
    let tree = match parser.list() {
        Ok(tree) => tree,
        Err(e) => {
            return Err(Failure::Parse(e));
        },
    };
    let mut env = Env::the_global_environment();
    match eval(tree.to_obj(), &mut env) {
        Ok(obj) => Ok(obj),
        Err(e) => Err(Failure::Eval(e)),
    }
}

} // verus!
