//! From tokens to runtime values.

use crate::types::{Loc, Obj, Tok, TokView, Token, Value};
use vstd::prelude::*;

verus! {

impl TokView {
    /// Whether the token stands for a value: a symbol or a number.
    pub open spec fn is_value(self) -> bool {
        self is Symbol || self is Float || self is Int
    }

    /// The value that a symbol or a number stands for.
    pub open spec fn value(self) -> Value {
        match self {
            TokView::Symbol(name) => Value::Symbol(name),
            TokView::Float(text) => Value::Float(text),
            TokView::Int(n) => Value::Int(n),
            _ => Value::Nil,
        }
    }
}

impl Token {
    /// The span of the token. The file is not known to a token.
    pub fn loc(&self) -> (l: Loc)
        ensures
            l.filename@ == "nofile"@,
            l.start == self.start,
            l.end == self.end,
    {
        Loc::new("nofile".to_owned(), self.start, self.end)
    }

    /// The value that a symbol or a number stands for, with the span of the
    /// token.
    pub fn to_obj(&self) -> (r: Obj)
        requires
            self.tok@.is_value(),
        ensures
            r@ == self.tok@.value(),
    {
        self.tok.to_objval(self.loc())
    }
}

impl Tok {
    /// The value that a symbol or a number stands for.
    pub fn to_objval(&self, loc: Loc) -> (r: Obj)
        requires
            self@.is_value(),
        ensures
            r@ == self@.value(),
            r.loc == Some(loc),
    {
        match self {
            Tok::Symbol(symb) => Obj::new_symb(symb.name.clone(), Some(loc)),
            Tok::Float(text) => Obj::new_float(text.clone(), Some(loc)),
            Tok::Int(n) => Obj::new_int(*n, Some(loc)),
            _ => Obj::nil(Some(loc)),
        }
    }
}

} // verus!
