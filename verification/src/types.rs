//! The data types shared by every stage, with their mathematical views.

use std::rc::Rc;
use vstd::prelude::*;

verus! {

/// Why an evaluation stopped without a value.
#[derive(Debug, Clone, Copy, PartialEq, Eq, Structural)]
pub enum EvalError {
    /// `car` or `cdr` was applied to something that is not a pair.
    NotACons,
    /// A list operation met a value that is neither a pair nor the empty list.
    NotAList,
    /// A symbol was needed.
    NotASymbol,
    /// An integer was needed.
    NotAnInteger,
    /// A number was needed.
    NotANumber,
    /// An ordering was asked of a decimal literal, which is carried as text only.
    FloatOperand,
    /// No frame of the environment binds the variable.
    UnboundVariable,
    /// The number of arguments does not fit the procedure.
    ArityMismatch,
    /// The expression has none of the shapes the evaluator knows.
    UnknownExpression,
    /// The operator is neither a primitive nor a compound procedure.
    UnknownProcedure,
    /// A list tagged `primitive` does not hold a native function.
    NotAPrimitive,
    /// The closure environment of a procedure was asked of something else.
    NotACompoundProcedure,
    /// A list tagged `procedure` holds no usable environment.
    MissingEnvironment,
    /// An integer result does not fit in 64 bits, or a list is too long to count.
    Overflow,
    /// Procedure calls are nested deeper than the evaluator allows.
    DepthExceeded,
    /// The feature does not exist.
    Unimplemented,
}

impl EvalError {
    /// The failure in words.
    pub open spec fn text(self) -> Seq<char> {
        match self {
            EvalError::NotACons => "not a cons cell"@,
            EvalError::NotAList => "not a list"@,
            EvalError::NotASymbol => "not a symbol"@,
            EvalError::NotAnInteger => "not an integer"@,
            EvalError::NotANumber => "not a number"@,
            EvalError::FloatOperand => "a decimal literal has no ordering"@,
            EvalError::UnboundVariable => "unbound variable"@,
            EvalError::ArityMismatch => "wrong number of arguments"@,
            EvalError::UnknownExpression => "unknown expression type"@,
            EvalError::UnknownProcedure => "unknown procedure type"@,
            EvalError::NotAPrimitive => "not a primitive procedure"@,
            EvalError::NotACompoundProcedure => "not a compound procedure"@,
            EvalError::MissingEnvironment => "a procedure without its environment"@,
            EvalError::Overflow => "integer overflow"@,
            EvalError::DepthExceeded => "procedure calls nest too deep"@,
            EvalError::Unimplemented => "unimplemented"@,
        }
    }

    /// The failure in words.
    pub fn message(&self) -> (r: &'static str)
        ensures
            r@ == self.text(),
    {
        match self {
            EvalError::NotACons => "not a cons cell",
            EvalError::NotAList => "not a list",
            EvalError::NotASymbol => "not a symbol",
            EvalError::NotAnInteger => "not an integer",
            EvalError::NotANumber => "not a number",
            EvalError::FloatOperand => "a decimal literal has no ordering",
            EvalError::UnboundVariable => "unbound variable",
            EvalError::ArityMismatch => "wrong number of arguments",
            EvalError::UnknownExpression => "unknown expression type",
            EvalError::UnknownProcedure => "unknown procedure type",
            EvalError::NotAPrimitive => "not a primitive procedure",
            EvalError::NotACompoundProcedure => "not a compound procedure",
            EvalError::MissingEnvironment => "a procedure without its environment",
            EvalError::Overflow => "integer overflow",
            EvalError::DepthExceeded => "procedure calls nest too deep",
            EvalError::Unimplemented => "unimplemented",
        }
    }
}

pub type EvalResult<T> = Result<T, EvalError>;

/// The failure that stands for a feature the language does not have.
pub fn unimplemented_eval<T>() -> (r: EvalResult<T>)
    ensures
        r == Err::<T, EvalError>(EvalError::Unimplemented),
{
    Err(EvalError::Unimplemented)
}

/// A name together with the place it was written at. Two symbols are equal
/// when their names are: file and position only serve diagnostics.
#[derive(Debug)]
pub struct Symb {
    pub name: String,
    pub filename: String,
    pub pos: usize,
}

impl Symb {
    pub fn new(name: &str, filename: String, pos: usize) -> (s: Symb)
        ensures
            s.name@ == name@,
            s.filename@ == filename@,
            s.pos == pos,
    {
        Symb { name: name.to_owned(), filename, pos }
    }

    pub fn new_unknown(name: &str) -> (s: Symb)
        ensures
            s.name@ == name@,
            s.filename@ == "<unknown file>"@,
            s.pos == 0,
    {
        Symb::new(name, "<unknown file>".to_owned(), 0)
    }
}

impl Clone for Symb {
    fn clone(&self) -> (r: Self)
        ensures
            r == *self,
    {
        Symb { name: self.name.clone(), filename: self.filename.clone(), pos: self.pos }
    }
}

impl PartialEq for Symb {
    fn eq(&self, other: &Symb) -> (b: bool) {
        self.name == other.name
    }
}

impl Eq for Symb {

}

/// `String`'s `Hash::hash` feeds the text to the hasher. Nothing is claimed
/// of what the hasher makes of it.
pub assume_specification<H: std::hash::Hasher>[ <String as std::hash::Hash>::hash ](
    s: &String,
    state: &mut H,
);

impl std::hash::Hash for Symb {
    /// A symbol hashes as its name does, so that equal symbols hash alike.
    fn hash<H: std::hash::Hasher>(&self, state: &mut H) {
        self.name.hash(state);
    }
}

impl vstd::std_specs::cmp::PartialEqSpecImpl for Symb {
    open spec fn obeys_eq_spec() -> bool {
        true
    }

    open spec fn eq_spec(&self, other: &Symb) -> bool {
        self.name@ == other.name@
    }
}

/// A span of the source text, in bytes.
#[derive(Debug, PartialEq)]
pub struct Loc {
    pub filename: String,
    pub start: usize,
    pub end: usize,
}

impl Loc {
    pub fn new(filename: String, start: usize, end: usize) -> (l: Loc)
        ensures
            l.filename == filename,
            l.start == start,
            l.end == end,
    {
        Loc { filename, start, end }
    }
}

impl Clone for Loc {
    fn clone(&self) -> (r: Self)
        ensures
            r == *self,
    {
        Loc { filename: self.filename.clone(), start: self.start, end: self.end }
    }
}

/// Copies an optional span.
pub fn clone_loc(loc: &Option<Loc>) -> (r: Option<Loc>)
    ensures
        r == *loc,
{
    match loc {
        Some(l) => Some(l.clone()),
        None => None,
    }
}

/// The kind of a lexeme, with its value where it has one. A decimal literal
/// is kept as it was written.
#[derive(Debug, PartialEq)]
pub enum Tok {
    Symbol(Symb),
    Float(String),
    Int(i64),
    LParen,
    RParen,
    Dot,
    Space,
}

/// What a token kind is, apart from where a symbol was written.
pub enum TokView {
    Symbol(Seq<char>),
    Float(Seq<char>),
    Int(i64),
    LParen,
    RParen,
    Dot,
    Space,
}

impl View for Tok {
    type V = TokView;

    open spec fn view(&self) -> TokView {
        match *self {
            Tok::Symbol(s) => TokView::Symbol(s.name@),
            Tok::Float(t) => TokView::Float(t@),
            Tok::Int(n) => TokView::Int(n),
            Tok::LParen => TokView::LParen,
            Tok::RParen => TokView::RParen,
            Tok::Dot => TokView::Dot,
            Tok::Space => TokView::Space,
        }
    }
}

impl Clone for Tok {
    fn clone(&self) -> (r: Self)
        ensures
            r == *self,
    {
        match self {
            Tok::Symbol(s) => Tok::Symbol(s.clone()),
            Tok::Float(t) => Tok::Float(t.clone()),
            Tok::Int(n) => Tok::Int(*n),
            Tok::LParen => Tok::LParen,
            Tok::RParen => Tok::RParen,
            Tok::Dot => Tok::Dot,
            Tok::Space => Tok::Space,
        }
    }
}

/// A lexeme with the bytes it spans: `start` is its first byte, `end` the
/// byte after its last.
#[derive(Debug, PartialEq)]
pub struct Token {
    pub tok: Tok,
    pub start: usize,
    pub end: usize,
}

pub struct TokenView {
    pub tok: TokView,
    pub start: usize,
    pub end: usize,
}

impl View for Token {
    type V = TokenView;

    open spec fn view(&self) -> TokenView {
        TokenView { tok: self.tok@, start: self.start, end: self.end }
    }
}

impl Clone for Token {
    fn clone(&self) -> (r: Self)
        ensures
            r == *self,
    {
        Token { tok: self.tok.clone(), start: self.start, end: self.end }
    }
}

/// The production a syntax tree node came from. `Exprs` only exists while
/// the inside of a list is being read.
#[derive(Debug, Clone, Copy, PartialEq, Eq, Structural)]
pub enum Rule {
    Exprs,
    List,
    Empty,
    EmptyList,
}

/// A syntax tree: a token, or a production with its children in order.
#[derive(Debug)]
pub enum Ast {
    Node { rule: Rule, nodes: Vec<Ast> },
    Leaf(Token),
}

pub enum AstView {
    Node { rule: Rule, nodes: Seq<AstView> },
    Leaf(TokenView),
}

/// The view of a tree: that of its token, or its rule with the views of its
/// children.
pub open spec fn ast_view(ast: Ast) -> AstView
    decreases ast,
{
    match ast {
        Ast::Node { rule, nodes } => AstView::Node {
            rule,
            nodes: Seq::new(
                nodes@.len(),
                |i: int|
                    if 0 <= i < nodes@.len() {
                        ast_view(nodes@[i])
                    } else {
                        AstView::Leaf(TokenView { tok: TokView::Space, start: 0, end: 0 })
                    },
            ),
        },
        Ast::Leaf(token) => AstView::Leaf(token@),
    }
}

impl View for Ast {
    type V = AstView;

    open spec fn view(&self) -> AstView {
        ast_view(*self)
    }
}

/// The native procedures of the language.
#[derive(Debug, Clone, Copy, PartialEq, Eq, Structural)]
pub enum Prim {
    Car,
    Cdr,
    List,
    IsNull,
    Mul,
    Add,
    Sub,
    Gt,
    Lt,
    Cons,
    Eq,
    Dec,
}

/// What a runtime value holds.
#[derive(Debug)]
pub enum ObjVal {
    Symbol(String),
    /// A decimal literal, as it was written.
    Float(String),
    Int(i64),
    Bool(bool),
    /// The scope a procedure was made in, as a handle into an [`Env`].
    Env(usize),
    PrimFunc(Prim),
    Cons(Obj, Obj),
    Nil,
}

/// A runtime value: a shared, immutable cell, with the place in the source
/// it came from where that is known.
#[derive(Debug)]
pub struct Obj {
    pub val: Rc<ObjVal>,
    pub loc: Option<Loc>,
}

/// A runtime value as a mathematical tree, without provenance.
pub enum Value {
    Symbol(Seq<char>),
    Float(Seq<char>),
    Int(i64),
    Bool(bool),
    /// The handle of a scope.
    Env(nat),
    PrimFunc(Prim),
    Cons(Box<Value>, Box<Value>),
    Nil,
}

impl View for Obj {
    type V = Value;

    open spec fn view(&self) -> Value
        decreases self,
    {
        match *self.val {
            ObjVal::Symbol(s) => Value::Symbol(s@),
            ObjVal::Float(t) => Value::Float(t@),
            ObjVal::Int(n) => Value::Int(n),
            ObjVal::Bool(b) => Value::Bool(b),
            ObjVal::Env(e) => Value::Env(e as nat),
            ObjVal::PrimFunc(p) => Value::PrimFunc(p),
            ObjVal::Cons(x, y) => Value::Cons(Box::new(x@), Box::new(y@)),
            ObjVal::Nil => Value::Nil,
        }
    }
}

/// The view of a result that holds a runtime value.
pub open spec fn value_of(r: EvalResult<Obj>) -> EvalResult<Value> {
    match r {
        Ok(o) => Ok(o@),
        Err(e) => Err(e),
    }
}

/// Hands out another pointer to the cell behind `cell`, as `Rc::clone` does:
/// the new pointer reads the same value.
#[verifier::external_body]
pub(crate) fn share(cell: &Rc<ObjVal>) -> (r: Rc<ObjVal>)
    ensures
        r == *cell,
{
    Rc::clone(cell)
}

impl Clone for Obj {
    fn clone(&self) -> (r: Self)
        ensures
            r == *self,
    {
        Obj { val: share(&self.val), loc: clone_loc(&self.loc) }
    }
}

} // verus!
