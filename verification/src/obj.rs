//! Runtime values: constructors, the list accessors, and the shapes of the
//! special forms.

use crate::types::{clone_loc, EvalError, EvalResult, Loc, Obj, ObjVal, Prim, Symb, Value, value_of};
use std::rc::Rc;
use vstd::prelude::*;

verus! {

/// The proper list that holds `items` in order.
pub open spec fn list_value(items: Seq<Value>) -> Value
    decreases items.len(),
{
    if items.len() == 0 {
        Value::Nil
    } else {
        Value::Cons(Box::new(items[0]), Box::new(list_value(items.drop_first())))
    }
}

/// The values that a sequence of objects holds.
pub open spec fn values_of(items: Seq<Obj>) -> Seq<Value> {
    items.map_values(|o: Obj| o@)
}

/// A pair.
pub open spec fn pair(x: Value, y: Value) -> Value {
    Value::Cons(Box::new(x), Box::new(y))
}

/// A symbol with the name that a string literal writes.
pub open spec fn symbol(name: &str) -> Value {
    Value::Symbol(name@)
}

impl Value {
    pub open spec fn car(self) -> EvalResult<Value> {
        match self {
            Value::Cons(x, _) => Ok(*x),
            _ => Err(EvalError::NotACons),
        }
    }

    pub open spec fn cdr(self) -> EvalResult<Value> {
        match self {
            Value::Cons(_, y) => Ok(*y),
            _ => Err(EvalError::NotACons),
        }
    }

    pub open spec fn cadr(self) -> EvalResult<Value> {
        match self.cdr() {
            Ok(d) => d.car(),
            Err(e) => Err(e),
        }
    }

    pub open spec fn cddr(self) -> EvalResult<Value> {
        match self.cdr() {
            Ok(d) => d.cdr(),
            Err(e) => Err(e),
        }
    }

    pub open spec fn caddr(self) -> EvalResult<Value> {
        match self.cddr() {
            Ok(d) => d.car(),
            Err(e) => Err(e),
        }
    }

    pub open spec fn cdadr(self) -> EvalResult<Value> {
        match self.cadr() {
            Ok(d) => d.cdr(),
            Err(e) => Err(e),
        }
    }

    pub open spec fn cdddr(self) -> EvalResult<Value> {
        match self.cddr() {
            Ok(d) => d.cdr(),
            Err(e) => Err(e),
        }
    }

    pub open spec fn cadddr(self) -> EvalResult<Value> {
        match self.cdddr() {
            Ok(d) => d.car(),
            Err(e) => Err(e),
        }
    }

    /// Whether the value is the empty list or a pair whose second part is a
    /// proper list.
    pub open spec fn is_list(self) -> bool
        decreases self,
    {
        match self {
            Value::Nil => true,
            Value::Cons(_, y) => y.is_list(),
            _ => false,
        }
    }

    /// The number of pairs down the second parts, where they end in the
    /// empty list and can be counted in a machine word.
    pub open spec fn list_length(self) -> EvalResult<usize>
        decreases self,
    {
        match self {
            Value::Nil => Ok(0),
            Value::Cons(_, y) => match y.list_length() {
                Ok(n) => if n < usize::MAX {
                    Ok((n + 1) as usize)
                } else {
                    Err(EvalError::Overflow)
                },
                Err(e) => Err(e),
            },
            _ => Err(EvalError::NotAList),
        }
    }

    /// Everything but `Bool(false)` counts as true.
    pub open spec fn is_true(self) -> bool {
        self != Value::Bool(false)
    }

    pub open spec fn is_self_evaluating(self) -> bool {
        self is Int || self is Float
    }

    /// Whether the value is a pair whose first part is the symbol `tag`.
    pub open spec fn is_tagged(self, tag: Seq<char>) -> bool {
        self matches Value::Cons(x, _) && *x == Value::Symbol(tag)
    }

    pub open spec fn to_symb(self) -> EvalResult<Seq<char>> {
        match self {
            Value::Symbol(name) => Ok(name),
            _ => Err(EvalError::NotASymbol),
        }
    }

    pub open spec fn int_val(self) -> EvalResult<i64> {
        match self {
            Value::Int(n) => Ok(n),
            _ => Err(EvalError::NotAnInteger),
        }
    }

    pub open spec fn describe_type(self) -> Seq<char> {
        if self is Int {
            "int"@
        } else if self is Float {
            "float"@
        } else if self.is_list() {
            "list"@
        } else if self is Bool {
            "bool"@
        } else {
            "symbol"@
        }
    }

    /// The variable that an assignment `(set! var value)` names.
    pub open spec fn assignment_variable(self) -> EvalResult<Seq<char>> {
        match self.cadr() {
            Ok(v) => v.to_symb(),
            Err(e) => Err(e),
        }
    }

    /// The third branch of `(if pred then else)`, and `Bool(false)` where
    /// there is none.
    pub open spec fn if_alternative(self) -> EvalResult<Value> {
        match self.cdddr() {
            Ok(rest) => if rest is Nil {
                Ok(Value::Bool(false))
            } else {
                self.cadddr()
            },
            Err(e) => Err(e),
        }
    }

    /// The name that a definition binds: the second element of
    /// `(define name value)`, and the head of the second element of
    /// `(define (name params...) body...)`.
    pub open spec fn definition_variable(self) -> EvalResult<Value> {
        match self.cadr() {
            Ok(target) => if target is Symbol {
                Ok(target)
            } else {
                target.car()
            },
            Err(e) => Err(e),
        }
    }

    /// `(lambda params . body)`.
    pub open spec fn make_lambda(params: Value, body: Value) -> Value {
        pair(symbol("lambda"), pair(params, body))
    }

    /// The expression whose value a definition binds: the third element of
    /// `(define name value)`; for `(define (name params...) body...)` the
    /// lambda with those parameters and that body.
    pub open spec fn definition_value(self) -> EvalResult<Value> {
        match self.cadr() {
            Ok(target) => if target is Symbol {
                self.caddr()
            } else {
                match self.cdadr() {
                    Ok(params) => match self.cddr() {
                        Ok(body) => Ok(Value::make_lambda(params, body)),
                        Err(e) => Err(e),
                    },
                    Err(e) => Err(e),
                }
            },
            Err(e) => Err(e),
        }
    }

    /// Whether a sequence of expressions has one expression only.
    pub open spec fn is_last_expr(self) -> EvalResult<bool> {
        match self.cdr() {
            Ok(rest) => Ok(rest is Nil),
            Err(e) => Err(e),
        }
    }

    /// A procedure call: a pair that is a proper list.
    pub open spec fn is_application(self) -> bool {
        self is Cons && self.is_list()
    }

    /// The handle of the scope that a compound procedure
    /// `(procedure params body env)` was made in.
    pub open spec fn environment(self) -> EvalResult<nat> {
        if !self.is_tagged("procedure"@) {
            Err(EvalError::NotACompoundProcedure)
        } else {
            match self.cadddr() {
                Ok(Value::Env(handle)) => Ok(handle),
                Ok(_) => Err(EvalError::MissingEnvironment),
                Err(e) => Err(e),
            }
        }
    }
}

/// The first element of a list of values is its head, the rest its tail.
pub proof fn lemma_list_value_cons(items: Seq<Value>, i: int)
    requires
        0 <= i < items.len(),
    ensures
        list_value(items.subrange(i, items.len() as int)) == pair(
            items[i],
            list_value(items.subrange(i + 1, items.len() as int)),
        ),
{
    let tail = items.subrange(i, items.len() as int);
    assert(tail.drop_first() =~= items.subrange(i + 1, items.len() as int));
}

/// The list of some values is a proper list, and its first and second
/// parts hand the values out in order: the first part is the first value,
/// the second part the list of the others, down to the empty list.
pub proof fn lemma_list_value_proper(items: Seq<Value>)
    ensures
        list_value(items).is_list(),
        items.len() == 0 ==> list_value(items) == Value::Nil,
        items.len() > 0 ==> list_value(items).car() == Ok::<Value, EvalError>(items[0])
            && list_value(items).cdr() == Ok::<Value, EvalError>(list_value(items.drop_first())),
    decreases items.len(),
{
    if items.len() > 0 {
        lemma_list_value_proper(items.drop_first());
    }
}

impl Obj {
    pub fn new(val: ObjVal, loc: Option<Loc>) -> (r: Obj)
        ensures
            *r.val == val,
            r.loc == loc,
    {
        Obj { val: Rc::new(val), loc }
    }

    pub fn new_int(num: i64, loc: Option<Loc>) -> (r: Obj)
        ensures
            r@ == Value::Int(num),
            r.loc == loc,
    {
        Obj::new(ObjVal::Int(num), loc)
    }

    /// A decimal literal, given as it is written.
    pub fn new_float(text: String, loc: Option<Loc>) -> (r: Obj)
        ensures
            r@ == Value::Float(text@),
            r.loc == loc,
    {
        Obj::new(ObjVal::Float(text), loc)
    }

    pub fn nil(loc: Option<Loc>) -> (r: Obj)
        ensures
            r@ == Value::Nil,
            r.loc == loc,
    {
        Obj::new(ObjVal::Nil, loc)
    }

    /// The proper list of the given objects, in order.
    pub fn list_from_vec(xs: Vec<Obj>, loc: Option<Loc>) -> (r: Obj)
        ensures
            r@ == list_value(values_of(xs@)),
    {
        let mut list = Obj::empty_list(clone_loc(&loc));
        let mut i: usize = xs.len();
        let ghost items = values_of(xs@);
        assert(items.subrange(i as int, items.len() as int) =~= Seq::<Value>::empty());
        while i > 0
            invariant
                i <= xs.len(),
                items == values_of(xs@),
                list@ == list_value(items.subrange(i as int, items.len() as int)),
            decreases i,
        {
            i -= 1;
            proof {
                lemma_list_value_cons(items, i as int);
            }
            list = Obj::new(ObjVal::Cons(xs[i].clone(), list), clone_loc(&loc));
        }
        assert(items.subrange(0, items.len() as int) =~= items);
        list
    }

    pub fn empty_list(loc: Option<Loc>) -> (r: Obj)
        ensures
            r@ == Value::Nil,
            r.loc == loc,
    {
        Obj::new(ObjVal::Nil, loc)
    }

    /// The pair of `x` and `y`; it has the provenance of `x`.
    pub fn cons(x: Obj, y: Obj) -> (r: Obj)
        ensures
            r@ == pair(x@, y@),
            r.loc == x.loc,
    {
        let loc = clone_loc(&x.loc);
        Obj::new(ObjVal::Cons(x, y), loc)
    }

    pub fn new_symb(name: String, loc: Option<Loc>) -> (r: Obj)
        ensures
            r@ == Value::Symbol(name@),
            r.loc == loc,
    {
        Obj::new(ObjVal::Symbol(name), loc)
    }

    pub fn new_bool(b: bool, loc: Option<Loc>) -> (r: Obj)
        ensures
            r@ == Value::Bool(b),
            r.loc == loc,
    {
        Obj::new(ObjVal::Bool(b), loc)
    }

    /// The value that stands for the scope with the given handle.
    pub fn from_env(env: usize, loc: Option<Loc>) -> (r: Obj)
        ensures
            r@ == Value::Env(env as nat),
            r.loc == loc,
    {
        Obj::new(ObjVal::Env(env), loc)
    }

    pub fn new_primitive_func(f: Prim, loc: Option<Loc>) -> (r: Obj)
        ensures
            r@ == Value::PrimFunc(f),
            r.loc == loc,
    {
        Obj::new(ObjVal::PrimFunc(f), loc)
    }

    /// The symbol that the object is, without a place of its own.
    pub fn to_symb(&self) -> (r: EvalResult<Symb>)
        ensures
            match r {
                Ok(s) => self@.to_symb() == Ok::<Seq<char>, EvalError>(s.name@) && s.filename@
                    == ""@ && s.pos == 0,
                Err(e) => self@.to_symb() == Err::<Seq<char>, EvalError>(e),
            },
    {
        match &*self.val {
            ObjVal::Symbol(name) => Ok(Symb::new(name.as_str(), "".to_owned(), 0)),
            _ => Err(EvalError::NotASymbol),
        }
    }

    pub fn int_val(&self) -> (r: EvalResult<i64>)
        ensures
            r == self@.int_val(),
    {
        match &*self.val {
            ObjVal::Int(n) => Ok(*n),
            _ => Err(EvalError::NotAnInteger),
        }
    }

    pub fn is_list(&self) -> (b: bool)
        ensures
            b == self@.is_list(),
        decreases self,
    {
        match &*self.val {
            ObjVal::Nil => true,
            ObjVal::Cons(_, y) => y.is_list(),
            _ => false,
        }
    }

    pub fn is_float(&self) -> (b: bool)
        ensures
            b == (self@ is Float),
    {
        match &*self.val {
            ObjVal::Float(_) => true,
            _ => false,
        }
    }

    pub fn is_int(&self) -> (b: bool)
        ensures
            b == (self@ is Int),
    {
        match &*self.val {
            ObjVal::Int(_) => true,
            _ => false,
        }
    }

    pub fn is_symbol(&self) -> (b: bool)
        ensures
            b == (self@ is Symbol),
    {
        match &*self.val {
            ObjVal::Symbol(_) => true,
            _ => false,
        }
    }

    pub fn is_bool(&self) -> (b: bool)
        ensures
            b == (self@ is Bool),
    {
        match &*self.val {
            ObjVal::Bool(_) => true,
            _ => false,
        }
    }

    /// Everything but `Bool(false)` counts as true.
    pub fn is_true(&self) -> (b: bool)
        ensures
            b == self@.is_true(),
            b == (self@ != Value::Bool(false)),
    {
        match &*self.val {
            ObjVal::Bool(b) => *b,
            _ => true,
        }
    }

    pub fn is_func(&self) -> (b: bool)
        ensures
            b == (self@ is PrimFunc),
    {
        match &*self.val {
            ObjVal::PrimFunc(_) => true,
            _ => false,
        }
    }

    pub fn is_cons(&self) -> (b: bool)
        ensures
            b == (self@ is Cons),
    {
        match &*self.val {
            ObjVal::Cons(_, _) => true,
            _ => false,
        }
    }

    pub fn is_variable(&self) -> (b: bool)
        ensures
            b == (self@ is Symbol),
    {
        self.is_symbol()
    }

    pub fn is_self_evaluating(&self) -> (b: bool)
        ensures
            b == self@.is_self_evaluating(),
            b == (self@ is Int || self@ is Float),
    {
        self.is_float() || self.is_int()
    }

    pub fn describe_type(&self) -> (r: &'static str)
        ensures
            r@ == self@.describe_type(),
    {
        if self.is_int() {
            "int"
        } else if self.is_float() {
            "float"
        } else if self.is_list() {
            "list"
        } else if self.is_bool() {
            "bool"
        } else {
            "symbol"
        }
    }

    pub fn is_empty_list(&self) -> (r: EvalResult<bool>)
        ensures
            r == Ok::<bool, EvalError>(self@ is Nil),
    {
        match &*self.val {
            ObjVal::Nil => Ok(true),
            _ => Ok(false),
        }
    }

    pub fn list_length(&self) -> (r: EvalResult<usize>)
        ensures
            r == self@.list_length(),
        decreases self,
    {
        match &*self.val {
            ObjVal::Nil => Ok(0),
            ObjVal::Cons(_, y) => {
                let n: usize = y.list_length()?;
                if n < usize::MAX {
                    Ok(n + 1)
                } else {
                    Err(EvalError::Overflow)
                }
            },
            _ => Err(EvalError::NotAList),
        }
    }

    /// The first part of a pair, as it stands there.
    pub fn car(&self) -> (r: EvalResult<Obj>)
        ensures
            value_of(r) == self@.car(),
            r matches Ok(x) ==> *self.val matches ObjVal::Cons(a, _) && x == a,
    {
        match &*self.val {
            ObjVal::Cons(x, _) => Ok(x.clone()),
            _ => Err(EvalError::NotACons),
        }
    }

    /// The second part of a pair, as it stands there.
    pub fn cdr(&self) -> (r: EvalResult<Obj>)
        ensures
            value_of(r) == self@.cdr(),
            r matches Ok(y) ==> *self.val matches ObjVal::Cons(_, b) && y == b,
    {
        match &*self.val {
            ObjVal::Cons(_, y) => Ok(y.clone()),
            _ => Err(EvalError::NotACons),
        }
    }

    pub fn cadr(&self) -> (r: EvalResult<Obj>)
        ensures
            value_of(r) == self@.cadr(),
    {
        self.cdr()?.car()
    }

    pub fn caddr(&self) -> (r: EvalResult<Obj>)
        ensures
            value_of(r) == self@.caddr(),
    {
        self.cdr()?.cdr()?.car()
    }

    pub fn cddr(&self) -> (r: EvalResult<Obj>)
        ensures
            value_of(r) == self@.cddr(),
    {
        self.cdr()?.cdr()
    }

    pub fn cdadr(&self) -> (r: EvalResult<Obj>)
        ensures
            value_of(r) == self@.cdadr(),
    {
        self.cdr()?.car()?.cdr()
    }

    pub fn cdddr(&self) -> (r: EvalResult<Obj>)
        ensures
            value_of(r) == self@.cdddr(),
    {
        self.cddr()?.cdr()
    }

    pub fn cadddr(&self) -> (r: EvalResult<Obj>)
        ensures
            value_of(r) == self@.cadddr(),
    {
        self.cdddr()?.car()
    }

    /// Whether the object is the symbol with the given name.
    pub fn string_matches(&self, s: &str) -> (b: bool)
        ensures
            b == (self@ == Value::Symbol(s@)),
    {
        match &*self.val {
            ObjVal::Symbol(sym) => {
                let wanted = s.to_owned();
                *sym == wanted
            },
            _ => false,
        }
    }

    pub fn is_tagged_list(&self, tag: &str) -> (b: bool)
        ensures
            b == self@.is_tagged(tag@),
    {
        match self.car() {
            Ok(obj) => obj.string_matches(tag),
            Err(_) => false,
        }
    }

    pub fn is_quoted(&self) -> (b: bool)
        ensures
            b == self@.is_tagged("quote"@),
    {
        self.is_tagged_list("quote")
    }

    pub fn text_of_quotation(&self) -> (r: EvalResult<Obj>)
        ensures
            value_of(r) == self@.cadr(),
    {
        self.cadr()
    }

    pub fn is_assignment(&self) -> (b: bool)
        ensures
            b == self@.is_tagged("set!"@),
    {
        self.is_tagged_list("set!")
    }

    pub fn is_definition(&self) -> (b: bool)
        ensures
            b == self@.is_tagged("define"@),
    {
        self.is_tagged_list("define")
    }

    pub fn assignment_variable(&self) -> (r: EvalResult<Symb>)
        ensures
            match r {
                Ok(s) => self@.assignment_variable() == Ok::<Seq<char>, EvalError>(s.name@),
                Err(e) => self@.assignment_variable() == Err::<Seq<char>, EvalError>(e),
            },
    {
        self.cadr()?.to_symb()
    }

    pub fn assignment_value(&self) -> (r: EvalResult<Obj>)
        ensures
            value_of(r) == self@.caddr(),
    {
        self.caddr()
    }

    pub fn is_if(&self) -> (b: bool)
        ensures
            b == self@.is_tagged("if"@),
    {
        self.is_tagged_list("if")
    }

    pub fn if_predicate(&self) -> (r: EvalResult<Obj>)
        ensures
            value_of(r) == self@.cadr(),
    {
        self.cadr()
    }

    pub fn if_consequent(&self) -> (r: EvalResult<Obj>)
        ensures
            value_of(r) == self@.caddr(),
    {
        self.caddr()
    }

    pub fn if_alternative(&self) -> (r: EvalResult<Obj>)
        ensures
            value_of(r) == self@.if_alternative(),
    {
        if !self.cdddr()?.is_null()? {
            self.cadddr()
        } else {
            Ok(Obj::new_bool(false, None))
        }
    }

    pub fn is_null(&self) -> (r: EvalResult<bool>)
        ensures
            r == Ok::<bool, EvalError>(self@ is Nil),
    {
        self.is_empty_list()
    }

    pub fn definition_variable(&self) -> (r: EvalResult<Obj>)
        ensures
            value_of(r) == self@.definition_variable(),
    {
        let target = self.cadr()?;
        if target.is_symbol() {
            Ok(target)
        } else {
            target.car()
        }
    }

    fn make_lambda(params: Obj, body: Obj) -> (r: Obj)
        ensures
            r@ == Value::make_lambda(params@, body@),
    {
        let lambda = Obj::new_symb("lambda".to_owned(), None);
        Obj::cons(lambda, Obj::cons(params, body))
    }

    pub fn definition_value(&self) -> (r: EvalResult<Obj>)
        ensures
            value_of(r) == self@.definition_value(),
    {
        if self.cadr()?.is_symbol() {
            self.caddr()
        } else {
            let params = self.cdadr()?;
            let body = self.cddr()?;
            Ok(Obj::make_lambda(params, body))
        }
    }

    pub fn is_lambda(&self) -> (b: bool)
        ensures
            b == self@.is_tagged("lambda"@),
    {
        self.is_tagged_list("lambda")
    }

    pub fn lambda_parameters(&self) -> (r: EvalResult<Obj>)
        ensures
            value_of(r) == self@.cadr(),
    {
        self.cadr()
    }

    pub fn lambda_body(&self) -> (r: EvalResult<Obj>)
        ensures
            value_of(r) == self@.cddr(),
    {
        self.cddr()
    }

    pub fn is_begin(&self) -> (b: bool)
        ensures
            b == self@.is_tagged("begin"@),
    {
        self.is_tagged_list("begin")
    }

    pub fn begin_actions(&self) -> (r: EvalResult<Obj>)
        ensures
            value_of(r) == self@.cdr(),
    {
        self.cdr()
    }

    pub fn is_last_expr(&self) -> (r: EvalResult<bool>)
        ensures
            r == self@.is_last_expr(),
    {
        self.cdr()?.is_null()
    }

    pub fn first_expr(&self) -> (r: EvalResult<Obj>)
        ensures
            value_of(r) == self@.car(),
    {
        self.car()
    }

    pub fn rest_expr(&self) -> (r: EvalResult<Obj>)
        ensures
            value_of(r) == self@.cdr(),
    {
        self.cdr()
    }

    /// Whether the object has the shape of a procedure call: a pair that is
    /// a proper list.
    pub fn is_application(&self) -> (b: bool)
        ensures
            b == self@.is_application(),
    {
        self.is_cons() && self.is_list()
    }

    pub fn operator(&self) -> (r: EvalResult<Obj>)
        ensures
            value_of(r) == self@.car(),
    {
        self.car()
    }

    pub fn operands(&self) -> (r: EvalResult<Obj>)
        ensures
            value_of(r) == self@.cdr(),
    {
        self.cdr()
    }

    pub fn has_no_operands(&self) -> (r: EvalResult<bool>)
        ensures
            r == Ok::<bool, EvalError>(self@ is Nil),
    {
        self.is_null()
    }

    pub fn first_operand(&self) -> (r: EvalResult<Obj>)
        ensures
            value_of(r) == self@.car(),
    {
        self.car()
    }

    pub fn rest_operands(&self) -> (r: EvalResult<Obj>)
        ensures
            value_of(r) == self@.cdr(),
    {
        self.cdr()
    }

    pub fn is_primitive_procedure(&self) -> (b: bool)
        ensures
            b == self@.is_tagged("primitive"@),
    {
        self.is_tagged_list("primitive")
    }

    pub fn is_compound_procedure(&self) -> (b: bool)
        ensures
            b == self@.is_tagged("procedure"@),
    {
        self.is_tagged_list("procedure")
    }

    pub fn is_primitive_implementation(&self) -> (r: EvalResult<Obj>)
        ensures
            value_of(r) == self@.cadr(),
    {
        self.cadr()
    }

    pub fn body(&self) -> (r: EvalResult<Obj>)
        ensures
            value_of(r) == self@.caddr(),
    {
        self.caddr()
    }

    pub fn parameters(&self) -> (r: EvalResult<Obj>)
        ensures
            value_of(r) == self@.cadr(),
    {
        self.cadr()
    }

    /// The handle of the scope that a compound procedure was made in.
    pub fn environment(&self) -> (r: EvalResult<usize>)
        ensures
            match r {
                Ok(handle) => self@.environment() == Ok::<nat, EvalError>(handle as nat),
                Err(e) => self@.environment() == Err::<nat, EvalError>(e),
            },
    {
        if !self.is_compound_procedure() {
            return Err(EvalError::NotACompoundProcedure);
        }
        let slot = self.cadddr()?;
        match &*slot.val {
            ObjVal::Env(handle) => Ok(*handle),
            _ => Err(EvalError::MissingEnvironment),
        }
    }

    /// Whether two objects hold the same value, whatever their provenance.
    pub fn same(&self, other: &Obj) -> (b: bool)
        ensures
            b == (self@ == other@),
        decreases self,
    {
        match &*self.val {
            ObjVal::Symbol(a) => match &*other.val {
                ObjVal::Symbol(b) => *a == *b,
                _ => false,
            },
            ObjVal::Float(a) => match &*other.val {
                ObjVal::Float(b) => *a == *b,
                _ => false,
            },
            ObjVal::Int(a) => match &*other.val {
                ObjVal::Int(b) => *a == *b,
                _ => false,
            },
            ObjVal::Bool(a) => match &*other.val {
                ObjVal::Bool(b) => *a == *b,
                _ => false,
            },
            ObjVal::Env(a) => match &*other.val {
                ObjVal::Env(b) => *a == *b,
                _ => false,
            },
            ObjVal::PrimFunc(a) => match &*other.val {
                ObjVal::PrimFunc(b) => *a == *b,
                _ => false,
            },
            ObjVal::Cons(a, b) => match &*other.val {
                ObjVal::Cons(c, d) => {
                    let heads = a.same(c);
                    let tails = b.same(d);
                    heads && tails
                },
                _ => false,
            },
            ObjVal::Nil => match &*other.val {
                ObjVal::Nil => true,
                _ => false,
            },
        }
    }
}

impl PartialEq for Obj {
    fn eq(&self, other: &Obj) -> (b: bool) {
        self.same(other)
    }
}

impl Eq for Obj {

}

impl vstd::std_specs::cmp::PartialEqSpecImpl for Obj {
    open spec fn obeys_eq_spec() -> bool {
        true
    }

    open spec fn eq_spec(&self, other: &Obj) -> bool {
        self@ == other@
    }
}

} // verus!
