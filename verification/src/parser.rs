//! A recursive-descent parser over the tokens of a program. A production
//! that fails leaves the cursor where it found it, so that another can be
//! tried in its place.

use crate::ast::views_of;
use crate::lexer::{lex_step, LexError, Lexer};
use crate::types::{Ast, AstView, Rule, TokView, Token, TokenView, Value};
use vstd::prelude::*;

verus! {

/// The productions of the grammar.
#[derive(Debug, Clone, Copy, PartialEq, Eq, Structural)]
pub enum Production {
    List,
    Expr,
    LParen,
    RParen,
    Int,
    Float,
    Symbol,
}

/// Why a production did not apply: which one it was, the file, the byte
/// at which the token under the cursor begins (none at the end of the
/// tokens), and the productions that failed inside it, innermost first.
#[derive(Debug)]
pub struct ParseError {
    pub production: Production,
    pub filename: String,
    pub at: Option<usize>,
    pub trace: Vec<Production>,
}

pub type ParserResult = Result<Ast, ParseError>;

/// Whether a token is what an atomic production reads.
pub open spec fn wanted(kind: Production, tok: TokView) -> bool {
    match kind {
        Production::LParen => tok is LParen,
        Production::RParen => tok is RParen,
        Production::Int => tok is Int,
        Production::Float => tok is Float,
        Production::Symbol => tok is Symbol,
        _ => false,
    }
}

/// An atomic production reads one token of its kind, and nothing else.
pub open spec fn parse_token(toks: Seq<TokenView>, i: int, kind: Production) -> Option<
    (AstView, int),
> {
    if 0 <= i < toks.len() && wanted(kind, toks[i].tok) {
        Some((AstView::Leaf(toks[i]), i + 1))
    } else {
        None
    }
}

/// An expression is a number, a symbol, or a list. The result is the tree
/// and the cursor behind it.
pub open spec fn parse_expr(toks: Seq<TokenView>, i: int) -> Option<(AstView, int)>
    decreases toks.len() - i, 1int,
{
    if !(0 <= i < toks.len()) {
        None
    } else if toks[i].tok.is_value() {
        Some((AstView::Leaf(toks[i]), i + 1))
    } else {
        parse_list(toks, i)
    }
}

/// A list is an opening parenthesis, expressions, and a closing
/// parenthesis. Its tree holds the expressions only.
pub open spec fn parse_list(toks: Seq<TokenView>, i: int) -> Option<(AstView, int)>
    decreases toks.len() - i, 0int,
{
    if 0 <= i < toks.len() && toks[i].tok is LParen {
        let (nodes, j) = parse_exprs(toks, i + 1);
        if 0 <= j < toks.len() && toks[j].tok is RParen {
            Some((AstView::Node { rule: Rule::List, nodes }, j + 1))
        } else {
            None
        }
    } else {
        None
    }
}

/// As many expressions as there are, one after the other: the trees, and
/// the cursor behind the last.
pub open spec fn parse_exprs(toks: Seq<TokenView>, i: int) -> (Seq<AstView>, int)
    decreases toks.len() - i, 2int,
{
    match parse_expr(toks, i) {
        Some((node, j)) => if i < j <= toks.len() {
            let (rest, k) = parse_exprs(toks, j);
            (seq![node] + rest, k)
        } else {
            (Seq::empty(), i)
        },
        None => (Seq::empty(), i),
    }
}

/// The productions that failed inside a list that does not apply: the
/// opening parenthesis where there is none, else the closing one.
pub open spec fn list_trace(toks: Seq<TokenView>, i: int) -> Seq<Production> {
    if parse_token(toks, i, Production::LParen) is None {
        seq![Production::LParen]
    } else {
        seq![Production::RParen]
    }
}

/// A production that applies moves the cursor forward, within the tokens,
/// and its tree holds tokens that stand for values only.
pub proof fn lemma_parse_expr_advances(toks: Seq<TokenView>, i: int)
    ensures
        parse_expr(toks, i) matches Some((tree, j)) ==> i < j <= toks.len() && tree.convertible(),
        parse_list(toks, i) matches Some((tree, j)) ==> i < j <= toks.len() && tree.convertible(),
        ({
            let (nodes, k) = parse_exprs(toks, i);
            &&& (0 <= i <= toks.len() ==> i <= k <= toks.len())
            &&& forall|n: int| 0 <= n < nodes.len() ==> (#[trigger] nodes[n]).convertible()
        }),
    decreases toks.len() - i, 3int,
{
    if 0 <= i < toks.len() {
        if toks[i].tok is LParen {
            lemma_parse_expr_advances(toks, i + 1);
        }
        match parse_expr(toks, i) {
            Some((node, j)) => {
                if i < j <= toks.len() {
                    lemma_parse_expr_advances(toks, j);
                }
            },
            None => {},
        }
    }
}

/// Trying the wrong production on a token spoils nothing: an atomic
/// production applies exactly to the tokens of its kind, and a symbol or a
/// number under the cursor is an expression whichever productions were
/// tried there before.
pub proof fn lemma_alternatives(toks: Seq<TokenView>, i: int, kind: Production)
    requires
        0 <= i < toks.len(),
    ensures
        parse_token(toks, i, kind) is Some <==> wanted(kind, toks[i].tok),
        parse_token(toks, i, kind) matches Some((tree, j)) ==> tree == AstView::Leaf(toks[i]) && j
            == i + 1,
        toks[i].tok.is_value() ==> parse_expr(toks, i) == Some((AstView::Leaf(toks[i]), i + 1)),
{
}

/// Whether the tokens are `(`, the integer literals `ns` in order, and `)`.
pub open spec fn is_int_list(toks: Seq<TokenView>, ns: Seq<i64>) -> bool {
    &&& toks.len() == ns.len() + 2
    &&& toks[0].tok is LParen
    &&& toks[toks.len() - 1].tok is RParen
    &&& forall|i: int| 1 <= i <= ns.len() ==> (#[trigger] toks[i]).tok == TokView::Int(ns[i - 1])
}

/// Inside a list of integer literals, the expressions from token `i` on
/// are the literals from there to the closing parenthesis.
proof fn lemma_int_exprs(toks: Seq<TokenView>, ns: Seq<i64>, i: int)
    requires
        is_int_list(toks, ns),
        1 <= i <= ns.len() + 1,
    ensures
        parse_exprs(toks, i) == (
            Seq::new((ns.len() + 1 - i) as nat, |k: int| AstView::Leaf(toks[i + k])),
            ns.len() as int + 1,
        ),
    decreases ns.len() + 1 - i,
{
    let leaves = Seq::new((ns.len() + 1 - i) as nat, |k: int| AstView::Leaf(toks[i + k]));
    if i == ns.len() + 1 {
        assert(toks[i].tok is RParen);
        assert(parse_list(toks, i) is None);
        assert(parse_expr(toks, i) is None);
        assert(parse_exprs(toks, i).0 =~= leaves);
    } else {
        assert(toks[i].tok == TokView::Int(ns[i - 1]));
        lemma_int_exprs(toks, ns, i + 1);
        let rest = Seq::new((ns.len() - i) as nat, |k: int| AstView::Leaf(toks[i + 1 + k]));
        assert(parse_expr(toks, i) == Some((AstView::Leaf(toks[i]), i + 1)));
        assert(parse_exprs(toks, i + 1) == (rest, ns.len() as int + 1));
        assert(seq![AstView::Leaf(toks[i])] + rest =~= leaves);
    }
}

/// Reading a parenthesised list of integer literals and taking the value of
/// the tree gives the proper list of those integers, in order, for every
/// finite sequence of integers. The parser reads all the tokens.
pub proof fn lemma_int_list_round_trip(toks: Seq<TokenView>, ns: Seq<i64>)
    requires
        is_int_list(toks, ns),
    ensures
        parse_list(toks, 0) matches Some((tree, j)) && j == toks.len() && tree.convertible()
            && tree.value() == crate::obj::list_value(ns.map_values(|n: i64| Value::Int(n))),
        crate::obj::list_value(ns.map_values(|n: i64| Value::Int(n))).is_list(),
{
    lemma_int_exprs(toks, ns, 1);
    lemma_parse_expr_advances(toks, 0);
    let nodes = parse_exprs(toks, 1).0;
    let wanted = ns.map_values(|n: i64| Value::Int(n));
    assert forall|k: int| 0 <= k < nodes.len() implies crate::ast::values_of_nodes(nodes)[k]
        == wanted[k] by {
        assert(toks[1 + k].tok == TokView::Int(ns[k]));
    }
    assert(crate::ast::values_of_nodes(nodes) =~= wanted);
    crate::obj::lemma_list_value_proper(wanted);
}

/// What the lexer still hands out from byte `at` on, white space left out,
/// on top of `acc`; the first failure of the lexer is the failure of the
/// whole.
pub open spec fn lex_rest(prog: Seq<char>, at: usize, acc: Seq<TokenView>) -> Result<
    Seq<TokenView>,
    LexError,
>
    decreases vstd::utf8::encode_utf8(prog).len() - at,
{
    let (item, next) = lex_step(prog, at);
    match item {
        None => Ok(acc),
        Some(Err(e)) => Err(e),
        Some(Ok(t)) => if at < next <= vstd::utf8::encode_utf8(prog).len() {
            lex_rest(
                prog,
                next,
                if t.tok is Space {
                    acc
                } else {
                    acc.push(t)
                },
            )
        } else {
            Ok(acc)
        },
    }
}

/// The tokens of a program, white space left out.
pub open spec fn significant_tokens(prog: Seq<char>) -> Result<Seq<TokenView>, LexError> {
    lex_rest(prog, 0, Seq::empty())
}

/// The tokens of a program, white space left out, and a cursor into them.
pub struct Parser {
    filename: String,
    toks: Vec<Token>,
    idx: usize,
}

impl Parser {
    #[verifier::type_invariant]
    spec fn inv(self) -> bool {
        self.idx <= self.toks@.len()
    }

    /// The tokens that the parser reads.
    pub closed spec fn tokens(&self) -> Seq<TokenView> {
        Seq::new(self.toks@.len(), |i: int| self.toks@[i]@)
    }

    /// The index of the token that comes next.
    pub closed spec fn cursor(&self) -> int {
        self.idx as int
    }

    /// The name of the file the tokens came from.
    pub closed spec fn file(&self) -> Seq<char> {
        self.filename@
    }

    /// The byte at which the token under the cursor begins.
    pub open spec fn position(toks: Seq<TokenView>, i: int) -> Option<usize> {
        if 0 <= i < toks.len() {
            Some(toks[i].start)
        } else {
            None
        }
    }

    /// Takes every token that is left in the lexer, but for white space,
    /// and puts the cursor on the first. Fails on the first lexeme that is
    /// no token.
    pub fn new(lexer: Lexer) -> (r: Result<Parser, LexError>)
        ensures
            match r {
                Ok(p) => {
                    &&& lex_rest(lexer.text(), lexer.cursor(), Seq::empty()) == Ok::<
                        Seq<TokenView>,
                        LexError,
                    >(p.tokens())
                    &&& p.cursor() == 0
                    &&& p.file() == lexer.file()
                },
                Err(e) => lex_rest(lexer.text(), lexer.cursor(), Seq::empty()) == Err::<
                    Seq<TokenView>,
                    LexError,
                >(e),
            },
    {
        let mut rest = lexer;
        let filename = rest.filename().clone();
        let mut toks: Vec<Token> = Vec::new();
        let ghost mut acc: Seq<TokenView> = Seq::empty();
        loop
            invariant
                rest.text() == lexer.text(),
                filename@ == lexer.file(),
                acc =~= Seq::new(toks@.len(), |i: int| toks@[i]@),
                lex_rest(lexer.text(), rest.cursor(), acc) == lex_rest(
                    lexer.text(),
                    lexer.cursor(),
                    Seq::empty(),
                ),
            decreases rest.length() - rest.cursor(),
        {
            match rest.next() {
                Some(Ok(token)) => {
                    if !token.is_space() {
                        proof {
                            acc = acc.push(token@);
                        }
                        toks.push(token);
                    }
                },
                Some(Err(e)) => {
                    return Err(e);
                },
                None => {
                    let p = Parser { filename, toks, idx: 0 };
                    assert(p.tokens() =~= acc);
                    return Ok(p);
                },
            }
        }
    }

    /// The token under the cursor, if there is one; the cursor moves behind
    /// it.
    fn next_token(&mut self) -> (r: Option<Token>)
        ensures
            final(self).tokens() == old(self).tokens(),
            final(self).file() == old(self).file(),
            match r {
                Some(t) => 0 <= old(self).cursor() < old(self).tokens().len() && t@ == old(
                    self,
                ).tokens()[old(self).cursor()] && final(self).cursor() == old(self).cursor() + 1,
                None => old(self).cursor() >= old(self).tokens().len() && final(self).cursor()
                    == old(self).cursor(),
            },
    {
        proof {
            use_type_invariant(&*self);
        }
        if self.idx >= self.toks.len() {
            None
        } else {
            let i: usize = self.idx;
            self.idx = i + 1;
            Some(self.toks[i].clone())
        }
    }

    /// Where the token under the given cursor begins.
    fn token_pos(&self, cursor: usize) -> (r: Option<usize>)
        ensures
            r == Parser::position(self.tokens(), cursor as int),
    {
        if cursor < self.toks.len() {
            Some(self.toks[cursor].start)
        } else {
            None
        }
    }

    /// Puts the cursor back and reports that `production` did not apply.
    fn err(&mut self, cursor: usize, production: Production) -> (r: ParserResult)
        requires
            cursor <= old(self).tokens().len(),
        ensures
            final(self).tokens() == old(self).tokens(),
            final(self).file() == old(self).file(),
            final(self).cursor() == cursor,
            r matches Err(e) && e.production == production && e.at == Parser::position(
                old(self).tokens(),
                cursor as int,
            ) && e.filename@ == old(self).file() && e.trace@ == Seq::<Production>::empty(),
    {
        self.idx = cursor;
        Err(
            ParseError {
                production,
                filename: self.filename.clone(),
                at: self.token_pos(cursor),
                trace: Vec::new(),
            },
        )
    }

    /// Puts the cursor back and reports that `production` did not apply
    /// because of `inner`.
    fn err_plus(&mut self, cursor: usize, inner: ParseError, production: Production) -> (r:
        ParserResult)
        requires
            cursor <= old(self).tokens().len(),
        ensures
            final(self).tokens() == old(self).tokens(),
            final(self).file() == old(self).file(),
            final(self).cursor() == cursor,
            r matches Err(e) && e.production == production && e.at == Parser::position(
                old(self).tokens(),
                cursor as int,
            ) && e.filename@ == old(self).file() && e.trace@ == inner.trace@.push(inner.production),
    {
        self.idx = cursor;
        let mut trace = inner.trace;
        trace.push(inner.production);
        Err(
            ParseError {
                production,
                filename: self.filename.clone(),
                at: self.token_pos(cursor),
                trace,
            },
        )
    }

    /// Reads one token of the given kind.
    fn token(&mut self, kind: Production) -> (r: ParserResult)
        ensures
            final(self).tokens() == old(self).tokens(),
            final(self).file() == old(self).file(),
            match parse_token(old(self).tokens(), old(self).cursor(), kind) {
                Some((tree, j)) => r matches Ok(a) && a@ == tree && final(self).cursor() == j,
                None => r matches Err(e) && final(self).cursor() == old(self).cursor()
                    && e.production == kind && e.at == Parser::position(
                    old(self).tokens(),
                    old(self).cursor(),
                ) && e.filename@ == old(self).file() && e.trace@ == Seq::<Production>::empty(),
            },
    {
        proof {
            use_type_invariant(&*self);
        }
        let idx: usize = self.idx;
        match self.next_token() {
            Some(tok) => {
                let fits: bool = match kind {
                    Production::LParen => tok.is_lparen(),
                    Production::RParen => tok.is_rparen(),
                    Production::Int => tok.is_int(),
                    Production::Float => tok.is_float(),
                    Production::Symbol => tok.is_symbol(),
                    _ => false,
                };
                if fits {
                    Ok(Ast::leaf(tok))
                } else {
                    self.err(idx, kind)
                }
            },
            None => self.err(idx, kind),
        }
    }

    /// `(`, expressions, `)`: the node of the expressions, with the rule
    /// `List`.
    pub fn list(&mut self) -> (r: ParserResult)
        ensures
            final(self).tokens() == old(self).tokens(),
            final(self).file() == old(self).file(),
            match parse_list(old(self).tokens(), old(self).cursor()) {
                Some((tree, j)) => r matches Ok(a) && a@ == tree && final(self).cursor() == j,
                None => r matches Err(e) && final(self).cursor() == old(self).cursor()
                    && e.production == Production::List && e.at == Parser::position(
                    old(self).tokens(),
                    old(self).cursor(),
                ) && e.filename@ == old(self).file() && e.trace@ == list_trace(
                    old(self).tokens(),
                    old(self).cursor(),
                ),
            },
            r matches Ok(a) ==> a@.convertible(),
        decreases old(self).tokens().len() - old(self).cursor(), 0int,
    {
        proof {
            use_type_invariant(&*self);
            lemma_parse_expr_advances(self.tokens(), self.cursor());
        }
        let idx: usize = self.idx;
        match self.lparen() {
            Ok(_) => {},
            Err(e) => {
                return self.err_plus(idx, e, Production::List);
            },
        }
        let mut xs = match self.exprs() {
            Ok(xs) => xs,
            Err(e) => {
                return self.err_plus(idx, e, Production::List);
            },
        };
        match self.rparen() {
            Ok(_) => {},
            Err(e) => {
                return self.err_plus(idx, e, Production::List);
            },
        }
        xs.replace_rule(Rule::List);
        Ok(xs)
    }

    /// A number, a symbol, or a list, whichever applies.
    pub fn expr(&mut self) -> (r: ParserResult)
        ensures
            final(self).tokens() == old(self).tokens(),
            final(self).file() == old(self).file(),
            match parse_expr(old(self).tokens(), old(self).cursor()) {
                Some((tree, j)) => r matches Ok(a) && a@ == tree && final(self).cursor() == j,
                None => r matches Err(e) && final(self).cursor() == old(self).cursor()
                    && e.production == Production::Expr && e.at == Parser::position(
                    old(self).tokens(),
                    old(self).cursor(),
                ) && e.filename@ == old(self).file() && e.trace@ == list_trace(
                    old(self).tokens(),
                    old(self).cursor(),
                ).push(Production::List),
            },
            r matches Ok(a) ==> a@.convertible(),
        decreases old(self).tokens().len() - old(self).cursor(), 1int,
    {
        proof {
            use_type_invariant(&*self);
            lemma_parse_expr_advances(self.tokens(), self.cursor());
        }
        let idx: usize = self.idx;
        match self.float() {
            Ok(n) => {
                return Ok(n);
            },
            Err(_) => {},
        }
        match self.integer() {
            Ok(n) => {
                return Ok(n);
            },
            Err(_) => {},
        }
        match self.symbol() {
            Ok(n) => {
                return Ok(n);
            },
            Err(_) => {},
        }
        match self.list() {
            Ok(n) => Ok(n),
            Err(e) => self.err_plus(idx, e, Production::Expr),
        }
    }

    /// As many expressions as there are. This never fails: the node, with
    /// the rule `Exprs`, may have no children.
    pub fn exprs(&mut self) -> (r: ParserResult)
        ensures
            final(self).tokens() == old(self).tokens(),
            final(self).file() == old(self).file(),
            r matches Ok(a) && a@ == (AstView::Node {
                rule: Rule::Exprs,
                nodes: parse_exprs(old(self).tokens(), old(self).cursor()).0,
            }) && final(self).cursor() == parse_exprs(old(self).tokens(), old(self).cursor()).1,
        decreases old(self).tokens().len() - old(self).cursor(), 2int,
    {
        proof {
            use_type_invariant(&*self);
        }
        let mut nodes: Vec<Ast> = Vec::new();
        let ghost toks = self.tokens();
        let ghost start = self.cursor();
        loop
            invariant
                self.tokens() == toks,
                self.cursor() <= toks.len(),
                self.file() == old(self).file(),
                toks == old(self).tokens(),
                start == old(self).cursor(),
                start <= self.cursor(),
                parse_exprs(toks, start) == (
                    views_of(nodes@) + parse_exprs(toks, self.cursor()).0,
                    parse_exprs(toks, self.cursor()).1,
                ),
            decreases toks.len() - self.cursor(),
        {
            let ghost before = self.cursor();
            let ghost seen = views_of(nodes@);
            proof {
                lemma_parse_expr_advances(toks, before);
                use_type_invariant(&*self);
            }
            match self.expr() {
                Ok(n) => {
                    proof {
                        let (rest, k) = parse_exprs(toks, self.cursor());
                        assert(parse_exprs(toks, before) == (seq![n@] + rest, k));
                        assert(views_of(nodes@.push(n)) =~= seen + seq![n@]);
                        assert(seen + (seq![n@] + rest) =~= (seen + seq![n@]) + rest);
                    }
                    nodes.push(n);
                },
                Err(_) => {
                    proof {
                        assert(parse_exprs(toks, before).0 =~= Seq::<AstView>::empty());
                        assert(seen + Seq::<AstView>::empty() =~= seen);
                    }
                    return Ok(Ast::node(Rule::Exprs, nodes));
                },
            }
        }
    }

    /// An opening parenthesis.
    pub fn lparen(&mut self) -> (r: ParserResult)
        ensures
            final(self).tokens() == old(self).tokens(),
            final(self).file() == old(self).file(),
            match parse_token(old(self).tokens(), old(self).cursor(), Production::LParen) {
                Some((tree, j)) => r matches Ok(a) && a@ == tree && final(self).cursor() == j,
                None => r matches Err(e) && final(self).cursor() == old(self).cursor()
                    && e.production == Production::LParen && e.at == Parser::position(
                    old(self).tokens(),
                    old(self).cursor(),
                ) && e.filename@ == old(self).file() && e.trace@ == Seq::<Production>::empty(),
            },
    {
        self.token(Production::LParen)
    }

    /// A closing parenthesis.
    pub fn rparen(&mut self) -> (r: ParserResult)
        ensures
            final(self).tokens() == old(self).tokens(),
            final(self).file() == old(self).file(),
            match parse_token(old(self).tokens(), old(self).cursor(), Production::RParen) {
                Some((tree, j)) => r matches Ok(a) && a@ == tree && final(self).cursor() == j,
                None => r matches Err(e) && final(self).cursor() == old(self).cursor()
                    && e.production == Production::RParen && e.at == Parser::position(
                    old(self).tokens(),
                    old(self).cursor(),
                ) && e.filename@ == old(self).file() && e.trace@ == Seq::<Production>::empty(),
            },
    {
        self.token(Production::RParen)
    }

    /// An integer literal.
    pub fn integer(&mut self) -> (r: ParserResult)
        ensures
            final(self).tokens() == old(self).tokens(),
            final(self).file() == old(self).file(),
            match parse_token(old(self).tokens(), old(self).cursor(), Production::Int) {
                Some((tree, j)) => r matches Ok(a) && a@ == tree && final(self).cursor() == j,
                None => r matches Err(e) && final(self).cursor() == old(self).cursor()
                    && e.production == Production::Int && e.at == Parser::position(
                    old(self).tokens(),
                    old(self).cursor(),
                ) && e.filename@ == old(self).file() && e.trace@ == Seq::<Production>::empty(),
            },
    {
        self.token(Production::Int)
    }

    /// A decimal literal.
    pub fn float(&mut self) -> (r: ParserResult)
        ensures
            final(self).tokens() == old(self).tokens(),
            final(self).file() == old(self).file(),
            match parse_token(old(self).tokens(), old(self).cursor(), Production::Float) {
                Some((tree, j)) => r matches Ok(a) && a@ == tree && final(self).cursor() == j,
                None => r matches Err(e) && final(self).cursor() == old(self).cursor()
                    && e.production == Production::Float && e.at == Parser::position(
                    old(self).tokens(),
                    old(self).cursor(),
                ) && e.filename@ == old(self).file() && e.trace@ == Seq::<Production>::empty(),
            },
    {
        self.token(Production::Float)
    }

    /// A symbol.
    pub fn symbol(&mut self) -> (r: ParserResult)
        ensures
            final(self).tokens() == old(self).tokens(),
            final(self).file() == old(self).file(),
            match parse_token(old(self).tokens(), old(self).cursor(), Production::Symbol) {
                Some((tree, j)) => r matches Ok(a) && a@ == tree && final(self).cursor() == j,
                None => r matches Err(e) && final(self).cursor() == old(self).cursor()
                    && e.production == Production::Symbol && e.at == Parser::position(
                    old(self).tokens(),
                    old(self).cursor(),
                ) && e.filename@ == old(self).file() && e.trace@ == Seq::<Production>::empty(),
            },
    {
        self.token(Production::Symbol)
    }
}

} // verus!
