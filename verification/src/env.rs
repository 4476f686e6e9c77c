//! Environments: scopes chained to the scope they were opened in, and the
//! native procedures that the global scope starts with.

use crate::frame::{bind_params, Frame};
use crate::obj::{list_value, pair, symbol};
use crate::types::{clone_loc, EvalError, EvalResult, Obj, ObjVal, Prim, Symb, Value, value_of};
use vstd::prelude::*;

verus! {

/// One scope of an environment, as a table and the handle of the scope
/// around it. The global scope has no scope around it.
pub struct ScopeView {
    pub bindings: Map<Seq<char>, Value>,
    pub enclosing: Option<nat>,
}

/// An environment: every scope that was ever opened, by handle, and the
/// handle of the scope that evaluation currently runs in. A procedure keeps
/// the handle of the scope it was made in, so it sees what is defined there
/// later.
pub struct EnvView {
    pub scopes: Seq<ScopeView>,
    pub current: nat,
}

impl EnvView {
    /// The current scope exists, and every scope was opened inside an
    /// older one.
    pub open spec fn wf(self) -> bool {
        &&& self.current < self.scopes.len()
        &&& forall|i: int|
            0 <= i < self.scopes.len() ==> ((#[trigger] self.scopes[i]).enclosing matches Some(p)
                ==> p < i)
    }

    /// The nearest scope that binds `name`, from `scope` outwards.
    pub open spec fn binder(self, scope: int, name: Seq<char>) -> Option<int>
        decreases scope,
    {
        if !(0 <= scope < self.scopes.len()) {
            None
        } else if self.scopes[scope].bindings.dom().contains(name) {
            Some(scope)
        } else {
            match self.scopes[scope].enclosing {
                Some(p) => if p < scope {
                    self.binder(p as int, name)
                } else {
                    None
                },
                None => None,
            }
        }
    }

    /// The value of a variable: that of its nearest binding.
    pub open spec fn lookup(self, name: Seq<char>) -> EvalResult<Value> {
        match self.binder(self.current as int, name) {
            Some(s) => Ok(self.scopes[s].bindings[name]),
            None => Err(EvalError::UnboundVariable),
        }
    }

    /// The environment with `name` bound to `v` in the given scope.
    pub open spec fn bind_in(self, scope: int, name: Seq<char>, v: Value) -> EnvView {
        EnvView {
            scopes: self.scopes.update(
                scope,
                ScopeView {
                    bindings: self.scopes[scope].bindings.insert(name, v),
                    enclosing: self.scopes[scope].enclosing,
                },
            ),
            current: self.current,
        }
    }

    /// A definition binds in the current scope, whatever the scopes around
    /// it hold.
    pub open spec fn define(self, name: Seq<char>, v: Value) -> EnvView {
        self.bind_in(self.current as int, name, v)
    }

    /// An assignment changes the nearest binding, and fails where there is
    /// none: it never makes one.
    pub open spec fn assign(self, name: Seq<char>, v: Value) -> (EvalResult<()>, EnvView) {
        match self.binder(self.current as int, name) {
            Some(s) => (Ok(()), self.bind_in(s, name, v)),
            None => (Err(EvalError::UnboundVariable), self),
        }
    }

    /// The environment with a new scope inside the current one, which
    /// becomes the current scope.
    pub open spec fn extend(self, bindings: Map<Seq<char>, Value>) -> EnvView {
        EnvView {
            scopes: self.scopes.push(ScopeView { bindings, enclosing: Some(self.current) }),
            current: self.scopes.len(),
        }
    }

    /// The same scopes, with another one current.
    pub open spec fn enter(self, scope: nat) -> EnvView {
        EnvView { scopes: self.scopes, current: scope }
    }
}

impl Prim {
    /// The operation that comes after this one when a list of numbers is
    /// worked off from the left: after the first subtraction the rest is
    /// added.
    pub open spec fn following(self) -> Prim {
        if self == Prim::Sub {
            Prim::Add
        } else {
            self
        }
    }

    /// What the operation gives for no argument at all.
    pub open spec fn unit(self) -> i64 {
        if self == Prim::Mul {
            1
        } else {
            0
        }
    }

    /// One step of arithmetic on 64-bit integers. A result that does not
    /// fit is a failure.
    pub open spec fn combine(self, a: i64, b: i64) -> EvalResult<i64> {
        let c: int = match self {
            Prim::Mul => a * b,
            Prim::Sub => a - b,
            _ => a + b,
        };
        if i64::MIN <= c <= i64::MAX {
            Ok(c as i64)
        } else {
            Err(EvalError::Overflow)
        }
    }

    /// Works the numbers of `rest` into `acc` from the left.
    pub open spec fn fold(self, acc: i64, rest: Value) -> EvalResult<Value>
        decreases rest,
    {
        match rest {
            Value::Cons(b, more) => match b.int_val() {
                Ok(n) => match self.combine(acc, n) {
                    Ok(c) => self.following().fold(c, *more),
                    Err(e) => Err(e),
                },
                Err(e) => Err(e),
            },
            _ => Ok(Value::Int(acc)),
        }
    }

    /// `+`, `-` and `*` on a list of arguments: the unit for none, the
    /// argument itself for one, and for more the integers worked off from
    /// the left.
    pub open spec fn arith(self, xs: Value) -> EvalResult<Value> {
        match xs.list_length() {
            Err(e) => Err(e),
            Ok(n) => if n == 0 {
                Ok(Value::Int(self.unit()))
            } else if n == 1 {
                xs.car()
            } else {
                match xs.car() {
                    Ok(first) => match first.int_val() {
                        Ok(a) => match xs.cdr() {
                            Ok(rest) => self.fold(a, rest),
                            Err(e) => Err(e),
                        },
                        Err(e) => Err(e),
                    },
                    Err(e) => Err(e),
                }
            },
        }
    }

    /// The integer that a comparison reads from an argument. A decimal
    /// literal has no ordering here.
    pub open spec fn number(v: Value) -> EvalResult<i64> {
        match v {
            Value::Int(n) => Ok(n),
            Value::Float(_) => Err(EvalError::FloatOperand),
            _ => Err(EvalError::NotANumber),
        }
    }

    /// `<` and `>` on the first two arguments.
    pub open spec fn compare(self, xs: Value) -> EvalResult<Value> {
        match xs.car() {
            Ok(a) => match Prim::number(a) {
                Ok(x) => match xs.cadr() {
                    Ok(b) => match Prim::number(b) {
                        Ok(y) => Ok(
                            Value::Bool(
                                if self == Prim::Lt {
                                    x < y
                                } else {
                                    x > y
                                },
                            ),
                        ),
                        Err(e) => Err(e),
                    },
                    Err(e) => Err(e),
                },
                Err(e) => Err(e),
            },
            Err(e) => Err(e),
        }
    }

    /// `car` and `cdr` of the one argument.
    pub open spec fn take(self, xs: Value) -> EvalResult<Value> {
        match xs.list_length() {
            Err(e) => Err(e),
            Ok(n) => if n > 1 {
                Err(EvalError::ArityMismatch)
            } else {
                match xs.car() {
                    Ok(x) => if self == Prim::Car {
                        x.car()
                    } else {
                        x.cdr()
                    },
                    Err(e) => Err(e),
                }
            },
        }
    }

    /// What the native procedure gives for the list `xs` of its arguments.
    pub open spec fn apply(self, xs: Value) -> EvalResult<Value> {
        match self {
            Prim::Car | Prim::Cdr => self.take(xs),
            Prim::List => Ok(xs),
            Prim::IsNull => match xs.car() {
                Ok(x) => Ok(Value::Bool(x is Nil)),
                Err(e) => Err(e),
            },
            Prim::Mul | Prim::Add | Prim::Sub => self.arith(xs),
            Prim::Gt | Prim::Lt => self.compare(xs),
            Prim::Cons => match xs.list_length() {
                Err(e) => Err(e),
                Ok(n) => if n != 2 {
                    Err(EvalError::ArityMismatch)
                } else {
                    match xs.car() {
                        Ok(x) => match xs.cadr() {
                            Ok(y) => Ok(pair(x, y)),
                            Err(e) => Err(e),
                        },
                        Err(e) => Err(e),
                    }
                },
            },
            Prim::Eq => match xs.car() {
                Ok(x) => match xs.cadr() {
                    Ok(y) => Ok(Value::Bool(x == y)),
                    Err(e) => Err(e),
                },
                Err(e) => Err(e),
            },
            Prim::Dec => match xs.car() {
                Ok(x) => match x.int_val() {
                    Ok(n) => match Prim::Sub.combine(n, 1) {
                        Ok(c) => Ok(Value::Int(c)),
                        Err(e) => Err(e),
                    },
                    Err(e) => Err(e),
                },
                Err(e) => Err(e),
            },
        }
    }
}

impl Value {
    /// What applying `(primitive f)` to the list `args` gives.
    pub open spec fn primitive_apply_to(self, args: Value) -> EvalResult<Value> {
        match self.cadr() {
            Ok(Value::PrimFunc(f)) => f.apply(args),
            Ok(_) => Err(EvalError::NotAPrimitive),
            Err(e) => Err(e),
        }
    }
}

/// The value under which a native procedure is bound: `(primitive f)`.
pub open spec fn primitive_value(f: Prim) -> Value {
    list_value(seq![symbol("primitive"), Value::PrimFunc(f)])
}

/// What the global scope binds before any program has run: the two truth
/// values under two names each, and the native procedures.
pub open spec fn global_bindings() -> Map<Seq<char>, Value> {
    Map::<Seq<char>, Value>::empty().insert("true"@, Value::Bool(true)).insert(
        "false"@,
        Value::Bool(false),
    ).insert("#t"@, Value::Bool(true)).insert("#f"@, Value::Bool(false)).insert(
        "car"@,
        primitive_value(Prim::Car),
    ).insert("cdr"@, primitive_value(Prim::Cdr)).insert("list"@, primitive_value(Prim::List)).insert(
        "null?"@,
        primitive_value(Prim::IsNull),
    ).insert("mul"@, primitive_value(Prim::Mul)).insert("*"@, primitive_value(Prim::Mul)).insert(
        "+"@,
        primitive_value(Prim::Add),
    ).insert("-"@, primitive_value(Prim::Sub)).insert(">"@, primitive_value(Prim::Gt)).insert(
        "<"@,
        primitive_value(Prim::Lt),
    ).insert("cons"@, primitive_value(Prim::Cons)).insert("eq?"@, primitive_value(Prim::Eq)).insert(
        "dec"@,
        primitive_value(Prim::Dec),
    )
}

/// The names that the global scope binds before any program has run.
pub open spec fn global_names() -> Set<Seq<char>> {
    set![
        "true"@,
        "false"@,
        "#t"@,
        "#f"@,
        "car"@,
        "cdr"@,
        "list"@,
        "null?"@,
        "mul"@,
        "*"@,
        "+"@,
        "-"@,
        ">"@,
        "<"@,
        "cons"@,
        "eq?"@,
        "dec"@,
    ]
}

/// The global environment before any program has run.
pub open spec fn global_view() -> EnvView {
    EnvView { scopes: seq![ScopeView { bindings: global_bindings(), enclosing: None }], current: 0 }
}

/// The scope that binds a name lies in the chain: it exists, it is not
/// younger than the scope the search began in, and it binds the name.
pub proof fn lemma_binder_binds(env: EnvView, scope: int, name: Seq<char>)
    ensures
        env.binder(scope, name) matches Some(s) ==> 0 <= s <= scope && s < env.scopes.len()
            && env.scopes[s].bindings.dom().contains(name),
    decreases scope,
{
    if 0 <= scope < env.scopes.len() && !env.scopes[scope].bindings.dom().contains(name) {
        match env.scopes[scope].enclosing {
            Some(p) => {
                if p < scope {
                    lemma_binder_binds(env, p as int, name);
                }
            },
            None => {},
        }
    }
}

/// Binding a name in the scope that already binds it nearest leaves the
/// search for that name where it was.
pub proof fn lemma_binder_kept(env: EnvView, scope: int, name: Seq<char>, v: Value)
    requires
        env.binder(scope, name) is Some,
    ensures
        env.bind_in(env.binder(scope, name)->0, name, v).binder(scope, name) == env.binder(
            scope,
            name,
        ),
    decreases scope,
{
    let s = env.binder(scope, name)->0;
    lemma_binder_binds(env, scope, name);
    let after = env.bind_in(s, name, v);
    if s != scope {
        let p = env.scopes[scope].enclosing->0;
        assert(env.binder(p as int, name) == Some(s));
        lemma_binder_binds(env, p as int, name);
        lemma_binder_kept(env, p as int, name, v);
        assert(after.scopes[scope] == env.scopes[scope]);
    }
}

/// A name that is looked up right after it was defined has the value it
/// was defined with, whatever the scopes around hold.
pub proof fn lemma_define_then_lookup(env: EnvView, name: Seq<char>, v: Value)
    requires
        env.wf(),
    ensures
        env.define(name, v).lookup(name) == Ok::<Value, EvalError>(v),
        env.define(name, v).wf(),
{
    let after = env.define(name, v);
    assert(after.scopes[env.current as int].bindings.dom().contains(name));
}

/// Defining a name again in the same scope leaves no trace of the earlier
/// definition: the environment is the one that the later definition alone
/// gives, and a lookup finds the later value.
pub proof fn lemma_redefinition(env: EnvView, name: Seq<char>, v1: Value, v2: Value)
    requires
        env.wf(),
    ensures
        env.define(name, v1).define(name, v2) == env.define(name, v2),
        env.define(name, v1).define(name, v2).lookup(name) == Ok::<Value, EvalError>(v2),
{
    let once = env.define(name, v2);
    let twice = env.define(name, v1).define(name, v2);
    let at = env.current as int;
    assert(twice.scopes[at].bindings =~= once.scopes[at].bindings);
    assert(twice.scopes =~= once.scopes);
    lemma_define_then_lookup(env, name, v2);
}

/// An assignment succeeds exactly where a lookup does. Then a lookup finds
/// the assigned value afterwards; else the environment is as it was.
pub proof fn lemma_assign_then_lookup(env: EnvView, name: Seq<char>, v: Value)
    ensures
        env.assign(name, v).0 is Ok <==> env.lookup(name) is Ok,
        env.lookup(name) is Ok ==> env.assign(name, v).1.lookup(name) == Ok::<Value, EvalError>(v),
        env.lookup(name) is Err ==> env.assign(name, v).1 == env && env.assign(name, v).0 == Err::<
            (),
            EvalError,
        >(EvalError::UnboundVariable),
{
    if env.binder(env.current as int, name) is Some {
        lemma_binder_binds(env, env.current as int, name);
        lemma_binder_kept(env, env.current as int, name, v);
    }
}

/// A name that no scope binds is unbound, wherever the lookup begins.
pub proof fn lemma_unbound(env: EnvView, scope: int, name: Seq<char>)
    requires
        forall|i: int|
            0 <= i < env.scopes.len() ==> !(#[trigger] env.scopes[i]).bindings.dom().contains(name),
    ensures
        env.binder(scope, name) is None,
    decreases scope,
{
    if 0 <= scope < env.scopes.len() {
        match env.scopes[scope].enclosing {
            Some(p) => {
                if p < scope {
                    lemma_unbound(env, p as int, name);
                }
            },
            None => {},
        }
    }
}

/// A variable that no scope binds cannot be looked up.
pub proof fn lemma_lookup_unbound(env: EnvView, name: Seq<char>)
    requires
        forall|i: int|
            0 <= i < env.scopes.len() ==> !(#[trigger] env.scopes[i]).bindings.dom().contains(name),
    ensures
        env.lookup(name) == Err::<Value, EvalError>(EvalError::UnboundVariable),
{
    lemma_unbound(env, env.current as int, name);
}

/// The global scope binds the seeded names and no other.
pub proof fn lemma_global_names()
    ensures
        global_bindings().dom() == global_names(),
{
    assert(global_bindings().dom() =~= global_names());
}

/// In the global environment, before any program has run, every name but
/// the seeded ones is unbound.
pub proof fn lemma_unbound_in_global(name: Seq<char>)
    requires
        !global_names().contains(name),
    ensures
        global_view().lookup(name) == Err::<Value, EvalError>(EvalError::UnboundVariable),
{
    lemma_global_names();
}

/// A list of two elements has a first and a second.
pub proof fn lemma_two_elements(xs: Value)
    requires
        xs.list_length() == Ok::<usize, EvalError>(2),
    ensures
        xs.car() is Ok,
        xs.cadr() is Ok,
        xs.cddr() == Ok::<Value, EvalError>(Value::Nil),
{
    reveal_with_fuel(Value::list_length, 3);
}

/// One step of arithmetic on 64-bit integers.
fn combine(op: Prim, a: i64, b: i64) -> (r: EvalResult<i64>)
    ensures
        r == op.combine(a, b),
{
    let c = match op {
        Prim::Mul => a.checked_mul(b),
        Prim::Sub => a.checked_sub(b),
        _ => a.checked_add(b),
    };
    match c {
        Some(n) => Ok(n),
        None => Err(EvalError::Overflow),
    }
}

/// `+`, `-` and `*` on a list of arguments.
fn arith(op: Prim, xs: Obj) -> (r: EvalResult<Obj>)
    ensures
        value_of(r) == op.arith(xs@),
{
    let n: usize = xs.list_length()?;
    if n == 0 {
        let unit: i64 = if op == Prim::Mul {
            1
        } else {
            0
        };
        return Ok(Obj::new_int(unit, clone_loc(&xs.loc)));
    }
    if n == 1 {
        return xs.car();
    }
    let mut acc: i64 = xs.car()?.int_val()?;
    let mut rest = xs.cdr()?;
    let mut step = op;
    loop
        invariant
            step.fold(acc, rest@) == op.arith(xs@),
        decreases rest@,
    {
        if !rest.is_cons() {
            return Ok(Obj::new_int(acc, clone_loc(&xs.loc)));
        }
        let b: i64 = rest.car()?.int_val()?;
        acc = combine(step, acc, b)?;
        if step == Prim::Sub {
            step = Prim::Add;
        }
        rest = rest.cdr()?;
    }
}

/// `car` and `cdr` of the one argument.
fn take(op: Prim, xs: Obj) -> (r: EvalResult<Obj>)
    ensures
        value_of(r) == op.take(xs@),
{
    if xs.list_length()? > 1 {
        Err(EvalError::ArityMismatch)
    } else if op == Prim::Car {
        xs.car()?.car()
    } else {
        xs.car()?.cdr()
    }
}

/// The integer that a comparison reads from an argument.
fn number(x: &Obj) -> (r: EvalResult<i64>)
    ensures
        r == Prim::number(x@),
{
    if x.is_float() {
        Err(EvalError::FloatOperand)
    } else {
        match x.int_val() {
            Ok(n) => Ok(n),
            Err(_) => Err(EvalError::NotANumber),
        }
    }
}

/// `(car pair)`: the first part of its one argument.
pub fn car(xs: Obj) -> (r: EvalResult<Obj>)
    ensures
        value_of(r) == Prim::Car.apply(xs@),
{
    take(Prim::Car, xs)
}

/// `(cdr pair)`: the second part of its one argument.
pub fn cdr(xs: Obj) -> (r: EvalResult<Obj>)
    ensures
        value_of(r) == Prim::Cdr.apply(xs@),
{
    take(Prim::Cdr, xs)
}

/// `(list x ...)`: its arguments, as the list they come in.
pub fn list(xs: Obj) -> (r: EvalResult<Obj>)
    ensures
        value_of(r) == Prim::List.apply(xs@),
{
    Ok(xs)
}

/// `(null? x)`: whether the first argument is the empty list.
pub fn is_null(xs: Obj) -> (r: EvalResult<Obj>)
    ensures
        value_of(r) == Prim::IsNull.apply(xs@),
{
    let empty: bool = xs.car()?.is_null()?;
    Ok(Obj::new_bool(empty, clone_loc(&xs.loc)))
}

/// `(* n ...)`: the product of the integers, 1 for none.
pub fn mul(xs: Obj) -> (r: EvalResult<Obj>)
    ensures
        value_of(r) == Prim::Mul.apply(xs@),
{
    arith(Prim::Mul, xs)
}

/// `(+ n ...)`: the sum of the integers, 0 for none.
pub fn add(xs: Obj) -> (r: EvalResult<Obj>)
    ensures
        value_of(r) == Prim::Add.apply(xs@),
{
    arith(Prim::Add, xs)
}

/// `(- a b n ...)`: the first integer less the second, and the rest added
/// to that.
pub fn sub(xs: Obj) -> (r: EvalResult<Obj>)
    ensures
        value_of(r) == Prim::Sub.apply(xs@),
{
    arith(Prim::Sub, xs)
}

/// `(dec n)`: the integer before `n`.
pub fn dec(xs: Obj) -> (r: EvalResult<Obj>)
    ensures
        value_of(r) == Prim::Dec.apply(xs@),
{
    let x: i64 = xs.car()?.int_val()?;
    let y: i64 = combine(Prim::Sub, x, 1)?;
    Ok(Obj::new_int(y, clone_loc(&xs.loc)))
}

/// `(cons x y)`: the pair of its two arguments. Any other number of
/// arguments fails.
pub fn cons(xs: Obj) -> (r: EvalResult<Obj>)
    ensures
        value_of(r) == Prim::Cons.apply(xs@),
        r is Ok <==> xs@.list_length() == Ok::<usize, EvalError>(2),
{
    proof {
        if xs@.list_length() == Ok::<usize, EvalError>(2) {
            lemma_two_elements(xs@);
        }
    }
    if xs.list_length()? != 2 {
        Err(EvalError::ArityMismatch)
    } else {
        let x = xs.car()?;
        let y = xs.cadr()?;
        Ok(Obj::cons(x, y))
    }
}

/// `(eq? x y)`: whether the first two arguments hold the same value.
pub fn eq(xs: Obj) -> (r: EvalResult<Obj>)
    ensures
        value_of(r) == Prim::Eq.apply(xs@),
{
    let x = xs.car()?;
    let y = xs.cadr()?;
    Ok(Obj::new_bool(x.same(&y), None))
}

/// `(< a b)` on integers.
pub fn lt(xs: Obj) -> (r: EvalResult<Obj>)
    ensures
        value_of(r) == Prim::Lt.apply(xs@),
{
    let lhs: i64 = number(&xs.car()?)?;
    let rhs: i64 = number(&xs.cadr()?)?;
    Ok(Obj::new_bool(lhs < rhs, None))
}

/// `(> a b)` on integers.
pub fn gt(xs: Obj) -> (r: EvalResult<Obj>)
    ensures
        value_of(r) == Prim::Gt.apply(xs@),
{
    let lhs: i64 = number(&xs.car()?)?;
    let rhs: i64 = number(&xs.cadr()?)?;
    Ok(Obj::new_bool(lhs > rhs, None))
}

/// Calls the native procedure `f` on the list of its arguments.
pub fn apply_primitive(f: Prim, args: Obj) -> (r: EvalResult<Obj>)
    ensures
        value_of(r) == f.apply(args@),
{
    match f {
        Prim::Car => car(args),
        Prim::Cdr => cdr(args),
        Prim::List => list(args),
        Prim::IsNull => is_null(args),
        Prim::Mul => self::mul(args),
        Prim::Add => self::add(args),
        Prim::Sub => self::sub(args),
        Prim::Gt => gt(args),
        Prim::Lt => lt(args),
        Prim::Cons => cons(args),
        Prim::Eq => eq(args),
        Prim::Dec => dec(args),
    }
}

impl Obj {
    /// Applies the native procedure that `(primitive f)` holds to the list
    /// of arguments.
    pub fn primitive_apply_to(&self, args: Obj) -> (r: EvalResult<Obj>)
        ensures
            value_of(r) == self@.primitive_apply_to(args@),
    {
        let slot = self.cadr()?;
        match &*slot.val {
            ObjVal::PrimFunc(f) => apply_primitive(*f, args),
            _ => Err(EvalError::NotAPrimitive),
        }
    }
}

/// An environment. Its scopes are kept for as long as it lives: the frame
/// of each, and beside it the handle of the scope around it.
#[derive(Debug)]
pub struct Env {
    id: usize,
    frames: Vec<Frame>,
    parents: Vec<Option<usize>>,
    current: usize,
}

impl View for Env {
    type V = EnvView;

    closed spec fn view(&self) -> EnvView {
        EnvView {
            scopes: Seq::new(
                self.frames@.len(),
                |i: int|
                    ScopeView {
                        bindings: self.frames@[i]@,
                        enclosing: match self.parents@[i] {
                            Some(p) => Some(p as nat),
                            None => None,
                        },
                    },
            ),
            current: self.current as nat,
        }
    }
}

impl Env {
    #[verifier::type_invariant]
    spec fn inv(self) -> bool {
        &&& self.frames@.len() == self.parents@.len()
        &&& self.current < self.frames@.len()
        &&& forall|i: int|
            0 <= i < self.parents@.len() ==> (#[trigger] self.parents@[i] matches Some(p) ==> p
                < i)
    }

    /// The view of an environment whose scopes are chained as they must be
    /// is well formed.
    proof fn lemma_wf(self)
        requires
            self.inv(),
        ensures
            self@.wf(),
    {
        assert forall|i: int| 0 <= i < self@.scopes.len() implies ((
        #[trigger] self@.scopes[i]).enclosing matches Some(p) ==> p < i) by {
            assert(self.parents@[i] matches Some(q) ==> q < i);
        }
    }

    /// The label the environment was made with.
    pub closed spec fn label(&self) -> usize {
        self.id
    }

    /// An environment with one empty scope, the global one.
    pub fn new(id: usize) -> (env: Env)
        ensures
            env@.scopes == seq![ScopeView { bindings: Map::empty(), enclosing: None }],
            env@.current == 0,
            env@.wf(),
            env.label() == id,
    {
        let mut frames: Vec<Frame> = Vec::new();
        frames.push(Frame::new());
        let mut parents: Vec<Option<usize>> = Vec::new();
        parents.push(None);
        let env = Env { id, frames, parents, current: 0 };
        proof {
            assert(env@.scopes =~= seq![ScopeView { bindings: Map::empty(), enclosing: None }]);
            env.lemma_wf();
        }
        env
    }

    /// The global environment: one scope, which binds `true`, `false`, `#t`,
    /// `#f` and the native procedures.
    pub fn the_global_environment() -> (env: Env)
        ensures
            env@ == global_view(),
            env@.wf(),
            env.label() == 0,
    {
        let mut env = Env::new(0);
        env.define_variable(&Symb::new_unknown("true"), Obj::new_bool(true, None));
        env.define_variable(&Symb::new_unknown("false"), Obj::new_bool(false, None));
        env.define_variable(&Symb::new_unknown("#t"), Obj::new_bool(true, None));
        env.define_variable(&Symb::new_unknown("#f"), Obj::new_bool(false, None));
        env.add_primitive_func("car", Prim::Car);
        env.add_primitive_func("cdr", Prim::Cdr);
        env.add_primitive_func("list", Prim::List);
        env.add_primitive_func("null?", Prim::IsNull);
        env.add_primitive_func("mul", Prim::Mul);
        env.add_primitive_func("*", Prim::Mul);
        env.add_primitive_func("+", Prim::Add);
        env.add_primitive_func("-", Prim::Sub);
        env.add_primitive_func(">", Prim::Gt);
        env.add_primitive_func("<", Prim::Lt);
        env.add_primitive_func("cons", Prim::Cons);
        env.add_primitive_func("eq?", Prim::Eq);
        env.add_primitive_func("dec", Prim::Dec);
        assert(env@.scopes =~= global_view().scopes);
        env
    }

    /// Binds `funcname` in the current scope to the native procedure
    /// `func`, as the list `(primitive func)`.
    pub fn add_primitive_func(&mut self, funcname: &str, func: Prim)
        ensures
            final(self)@ == old(self)@.define(funcname@, primitive_value(func)),
            final(self)@.wf(),
            final(self).label() == old(self).label(),
    {
        let mut items: Vec<Obj> = Vec::new();
        items.push(Obj::new_symb("primitive".to_owned(), None));
        items.push(Obj::new_primitive_func(func, None));
        assert(crate::obj::values_of(items@) =~= seq![symbol("primitive"), Value::PrimFunc(func)]);
        let procedure = Obj::list_from_vec(items, None);
        self.define_variable(&Symb::new_unknown(funcname), procedure);
    }

    pub fn id(&self) -> (id: usize)
        ensures
            id == self.label(),
    {
        self.id
    }

    /// The handle of the current scope.
    pub fn handle(&self) -> (h: usize)
        ensures
            h == self@.current,
            self@.wf(),
    {
        proof {
            use_type_invariant(self);
            self.lemma_wf();
        }
        self.current
    }

    /// The frame of the current scope.
    pub fn frame(&self) -> (frame: &Frame)
        ensures
            frame@ == self@.scopes[self@.current as int].bindings,
            self@.wf(),
    {
        proof {
            use_type_invariant(self);
            self.lemma_wf();
        }
        &self.frames[self.current]
    }

    /// Makes the scope with the given handle the current one. Fails, and
    /// changes nothing, where there is no such scope.
    pub fn enter(&mut self, scope: usize) -> (r: EvalResult<()>)
        ensures
            final(self).label() == old(self).label(),
            final(self)@.wf(),
            scope < old(self)@.scopes.len() ==> r is Ok && final(self)@ == old(self)@.enter(
                scope as nat,
            ),
            scope >= old(self)@.scopes.len() ==> r == Err::<(), EvalError>(
                EvalError::MissingEnvironment,
            ) && final(self)@ == old(self)@,
    {
        proof {
            use_type_invariant(&*self);
            self.lemma_wf();
        }
        if scope < self.frames.len() {
            self.current = scope;
            proof {
                self.lemma_wf();
            }
            Ok(())
        } else {
            Err(EvalError::MissingEnvironment)
        }
    }

    /// Whether the current scope is the global one.
    pub fn is_global(&self) -> (b: bool)
        ensures
            b == (self@.scopes[self@.current as int].enclosing is None),
            self@.wf(),
    {
        proof {
            use_type_invariant(self);
            self.lemma_wf();
        }
        self.parents[self.current].is_none()
    }

    /// Binds `var` in the current scope only.
    pub fn define_variable(&mut self, var: &Symb, obj: Obj)
        ensures
            final(self)@ == old(self)@.define(var.name@, obj@),
            final(self)@.wf(),
            final(self)@.current == old(self)@.current,
            final(self)@.scopes.len() == old(self)@.scopes.len(),
            final(self).label() == old(self).label(),
    {
        proof {
            use_type_invariant(&*self);
        }
        let at: usize = self.current;
        self.frames[at].insert(var.clone(), obj);
        proof {
            assert(self@.scopes =~= old(self)@.define(var.name@, obj@).scopes);
            use_type_invariant(&*self);
            self.lemma_wf();
        }
    }

    /// The nearest scope that binds `var`, from the current one outwards.
    fn find_binder(&self, var: &Symb) -> (r: Option<usize>)
        ensures
            self@.wf(),
            match r {
                Some(s) => {
                    &&& self@.binder(self@.current as int, var.name@) == Some(s as int)
                    &&& s < self@.scopes.len()
                    &&& self@.scopes[s as int].bindings.dom().contains(var.name@)
                },
                None => self@.binder(self@.current as int, var.name@) is None,
            },
    {
        proof {
            use_type_invariant(self);
            self.lemma_wf();
        }
        let mut at: usize = self.current;
        loop
            invariant
                self@.wf(),
                at < self.frames@.len(),
                self.frames@.len() == self.parents@.len(),
                self@.binder(at as int, var.name@) == self@.binder(self@.current as int, var.name@),
            decreases at,
        {
            match self.frames[at].get(var) {
                Some(_) => {
                    return Some(at);
                },
                None => {
                    match self.parents[at] {
                        Some(p) => {
                            at = p;
                        },
                        None => {
                            return None;
                        },
                    }
                },
            }
        }
    }

    /// The value that `var` is bound to in the nearest scope that binds it.
    /// Fails where no scope does.
    pub fn lookup_variable_value(&self, var: &Symb) -> (r: EvalResult<Obj>)
        ensures
            value_of(r) == self@.lookup(var.name@),
            self@.wf(),
    {
        match self.find_binder(var) {
            Some(s) => {
                match self.frames[s].get(var) {
                    Some(obj) => Ok(obj),
                    None => Err(EvalError::UnboundVariable),
                }
            },
            None => Err(EvalError::UnboundVariable),
        }
    }

    /// Changes what `var` is bound to in the nearest scope that binds it.
    /// Fails, and changes nothing, where no scope does.
    pub fn set_variable_value(&mut self, var: &Symb, obj: Obj) -> (r: EvalResult<()>)
        ensures
            (r, final(self)@) == old(self)@.assign(var.name@, obj@),
            final(self)@.wf(),
            final(self)@.current == old(self)@.current,
            final(self)@.scopes.len() == old(self)@.scopes.len(),
            final(self).label() == old(self).label(),
    {
        proof {
            use_type_invariant(&*self);
            self.lemma_wf();
        }
        match self.find_binder(var) {
            Some(s) => {
                self.frames[s].insert(var.clone(), obj);
                proof {
                    assert(self@.scopes =~= old(self)@.bind_in(s as int, var.name@, obj@).scopes);
                    use_type_invariant(&*self);
                    self.lemma_wf();
                }
                Ok(())
            },
            None => Err(EvalError::UnboundVariable),
        }
    }

    /// Opens a scope inside the current one, with each parameter bound to
    /// the argument at its place, and makes it current. Fails, and changes
    /// nothing, where the two are not proper lists of one length, and where
    /// a parameter is no symbol.
    pub fn extend(&mut self, params: Obj, arguments: Obj) -> (r: EvalResult<()>)
        ensures
            final(self)@.wf(),
            final(self).label() == old(self).label(),
            match bind_params(params@, arguments@) {
                Ok(bindings) => r is Ok && final(self)@ == old(self)@.extend(bindings),
                Err(e) => r == Err::<(), EvalError>(e) && final(self)@ == old(self)@,
            },
    {
        proof {
            use_type_invariant(&*self);
            self.lemma_wf();
        }
        let frame = Frame::from_var_vals(params, arguments)?;
        let ghost goal = old(self)@.extend(frame@);
        let mut taken = Env::new(self.id);
        std::mem::swap(self, &mut taken);
        let Env { id, frames, parents, current } = taken;
        let mut frames = frames;
        let mut parents = parents;
        let opened: usize = frames.len();
        frames.push(frame);
        parents.push(Some(current));
        *self = Env { id, frames, parents, current: opened };
        proof {
            assert(self@.scopes =~= goal.scopes);
            self.lemma_wf();
        }
        Ok(())
    }
}

} // verus!
