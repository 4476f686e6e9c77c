//! How values, tokens and trees are written out.

use crate::lexer::{all_digits, digits_value, int_literal, LexError, DIGIT_0, DIGIT_9, MINUS};
use crate::types::{Ast, AstView, Obj, ObjVal, Rule, Tok, TokView, Token, Value};
use vstd::prelude::*;
use vstd::string::StringExecFns;
use vstd::utf8::{encode_utf8, is_ascii_chars, is_ascii_chars_encode_utf8};

verus! {

/// One decimal digit as text.
pub open spec fn digit_text(d: nat) -> Seq<char> {
    if d == 0 {
        "0"@
    } else if d == 1 {
        "1"@
    } else if d == 2 {
        "2"@
    } else if d == 3 {
        "3"@
    } else if d == 4 {
        "4"@
    } else if d == 5 {
        "5"@
    } else if d == 6 {
        "6"@
    } else if d == 7 {
        "7"@
    } else if d == 8 {
        "8"@
    } else {
        "9"@
    }
}

/// A natural number in decimal, without leading zeros.
pub open spec fn decimal_text(m: nat) -> Seq<char>
    decreases m,
{
    if m < 10 {
        digit_text(m)
    } else {
        decimal_text(m / 10) + digit_text(m % 10)
    }
}

/// An integer in decimal, with a minus sign where it is negative.
pub open spec fn int_text(n: int) -> Seq<char> {
    if n < 0 {
        "-"@ + decimal_text((-n) as nat)
    } else {
        decimal_text(n as nat)
    }
}

/// A digit as text is one character, the digit.
proof fn lemma_digit_text(d: nat)
    requires
        d < 10,
    ensures
        digit_text(d).len() == 1,
        digit_text(d)[0] as u8 == DIGIT_0 + d,
        is_ascii_chars(digit_text(d)),
{
    reveal_strlit("0");
    reveal_strlit("1");
    reveal_strlit("2");
    reveal_strlit("3");
    reveal_strlit("4");
    reveal_strlit("5");
    reveal_strlit("6");
    reveal_strlit("7");
    reveal_strlit("8");
    reveal_strlit("9");
}

/// A number in decimal is a run of digits that writes the number.
proof fn lemma_decimal_text(m: nat)
    ensures
        is_ascii_chars(decimal_text(m)),
        encode_utf8(decimal_text(m)).len() > 0,
        all_digits(encode_utf8(decimal_text(m))),
        digits_value(encode_utf8(decimal_text(m))) == m,
    decreases m,
{
    let t = decimal_text(m);
    if m < 10 {
        lemma_digit_text(m);
        is_ascii_chars_encode_utf8(t);
        let e = encode_utf8(t);
        assert(e[0] == DIGIT_0 + m);
        assert(digits_value(e.drop_last()) == 0);
    } else {
        let a = decimal_text(m / 10);
        let b = digit_text(m % 10);
        lemma_decimal_text(m / 10);
        lemma_digit_text(m % 10);
        is_ascii_chars_encode_utf8(a);
        assert(is_ascii_chars(t)) by {
            assert forall|i: int| 0 <= i < t.len() implies '\0' <= #[trigger] t[i] <= '\u{7f}' by {
                if i < a.len() {
                    assert(t[i] == a[i]);
                } else {
                    assert(t[i] == b[0]);
                }
            }
        }
        is_ascii_chars_encode_utf8(t);
        let e = encode_utf8(t);
        assert(e.drop_last() =~= encode_utf8(a)) by {
            assert forall|i: int| 0 <= i < a.len() implies e.drop_last()[i] == encode_utf8(a)[i] by {
                assert(t[i] == a[i]);
            }
        }
        assert(e.last() == DIGIT_0 + m % 10) by {
            assert(t[t.len() - 1] == b[0]);
        }
        assert forall|i: int| 0 <= i < e.len() implies DIGIT_0 <= #[trigger] e[i] <= DIGIT_9 by {
            if i < a.len() {
                assert(e[i] == e.drop_last()[i]);
            }
        }
    }
}

/// An integer that is written out and read again is the same integer.
pub proof fn lemma_int_text_reads_back(n: i64)
    ensures
        int_literal(encode_utf8(int_text(n as int))) == Ok::<i64, LexError>(n),
{
    if n >= 0 {
        lemma_decimal_text(n as nat);
    } else {
        let digits = decimal_text((-n) as nat);
        let t = "-"@ + digits;
        reveal_strlit("-");
        lemma_decimal_text((-n) as nat);
        is_ascii_chars_encode_utf8(digits);
        assert(is_ascii_chars(t)) by {
            assert forall|i: int| 0 <= i < t.len() implies '\0' <= #[trigger] t[i] <= '\u{7f}' by {
                if i > 0 {
                    assert(t[i] == digits[i - 1]);
                }
            }
        }
        is_ascii_chars_encode_utf8(t);
        let e = encode_utf8(t);
        assert(e[0] == MINUS);
        assert(e.subrange(1, e.len() as int) =~= encode_utf8(digits)) by {
            assert forall|i: int| 0 <= i < digits.len() implies e.subrange(1, e.len() as int)[i]
                == encode_utf8(digits)[i] by {
                assert(t[i + 1] == digits[i]);
            }
        }
    }
}

impl TokView {
    /// The token as it is written in a program. A span of white space is
    /// written as one blank.
    pub open spec fn text(self) -> Seq<char> {
        match self {
            TokView::Symbol(name) => name,
            TokView::Float(text) => text,
            TokView::Int(n) => int_text(n as int),
            TokView::LParen => "("@,
            TokView::RParen => ")"@,
            TokView::Dot => "."@,
            TokView::Space => " "@,
        }
    }
}

impl AstView {
    /// Whether the tree can be written out: the rule `Exprs` never shows in
    /// the part of a tree that is written.
    pub open spec fn printable(self) -> bool
        decreases self,
    {
        match self {
            AstView::Leaf(_) => true,
            AstView::Node { rule, nodes } => match rule {
                Rule::List => all_printable(nodes),
                Rule::Exprs => false,
                _ => true,
            },
        }
    }

    /// The tree as a program text: a token as it is written, a list as its
    /// elements between parentheses with one blank between two of them, the
    /// empty list as `()`, and the empty tree as nothing.
    pub open spec fn text(self) -> Seq<char>
        decreases self,
    {
        match self {
            AstView::Leaf(token) => token.tok.text(),
            AstView::Node { rule, nodes } => match rule {
                Rule::List => "("@ + joined(nodes, nodes.len()) + ")"@,
                Rule::EmptyList => "()"@,
                _ => Seq::empty(),
            },
        }
    }
}

/// Whether each tree of a sequence can be written out.
pub open spec fn all_printable(nodes: Seq<AstView>) -> bool
    decreases nodes,
{
    forall|i: int| 0 <= i < nodes.len() ==> (#[trigger] nodes[i]).printable()
}

/// The texts of the first `n` trees, with one blank between two of them.
pub open spec fn joined(nodes: Seq<AstView>, n: nat) -> Seq<char>
    decreases nodes, n,
{
    if n == 0 || n > nodes.len() {
        Seq::empty()
    } else if n == 1 {
        nodes[0].text()
    } else {
        joined(nodes, (n - 1) as nat) + " "@ + nodes[n - 1].text()
    }
}

impl Value {
    /// The value as text: a symbol behind a quote mark, a number as it is
    /// written, a truth value as `true` or `false`, a pair as
    /// `(first . second)`, the empty list as `()`; a scope and a native
    /// procedure only show that they are one.
    pub open spec fn text(self) -> Seq<char>
        decreases self,
    {
        match self {
            Value::Symbol(name) => "'"@ + name,
            Value::Float(text) => text,
            Value::Int(n) => int_text(n as int),
            Value::Bool(b) => if b {
                "true"@
            } else {
                "false"@
            },
            Value::Env(_) => "<env>"@,
            Value::PrimFunc(_) => "<fn>"@,
            Value::Cons(x, y) => "("@ + x.text() + " . "@ + y.text() + ")"@,
            Value::Nil => "()"@,
        }
    }
}

/// One decimal digit as text.
fn digit(d: u64) -> (r: &'static str)
    requires
        d < 10,
    ensures
        r@ == digit_text(d as nat),
{
    if d == 0 {
        "0"
    } else if d == 1 {
        "1"
    } else if d == 2 {
        "2"
    } else if d == 3 {
        "3"
    } else if d == 4 {
        "4"
    } else if d == 5 {
        "5"
    } else if d == 6 {
        "6"
    } else if d == 7 {
        "7"
    } else if d == 8 {
        "8"
    } else {
        "9"
    }
}

/// A natural number in decimal.
fn decimal(m: u64) -> (r: String)
    ensures
        r@ == decimal_text(m as nat),
    decreases m,
{
    if m < 10 {
        digit(m).to_owned()
    } else {
        decimal(m / 10).concat(digit(m % 10))
    }
}

/// An integer in decimal.
pub fn int_to_text(n: i64) -> (r: String)
    ensures
        r@ == int_text(n as int),
{
    if n < 0 {
        let magnitude: u64 = if n == i64::MIN {
            0x8000_0000_0000_0000
        } else {
            (-n) as u64
        };
        "-".to_owned().concat(decimal(magnitude).as_str())
    } else {
        decimal(n as u64)
    }
}

impl Tok {
    /// The token as it is written in a program.
    pub fn pretty(&self) -> (r: String)
        ensures
            r@ == self@.text(),
    {
        match self {
            Tok::Symbol(symb) => symb.name.clone(),
            Tok::Float(text) => text.clone(),
            Tok::Int(n) => int_to_text(*n),
            Tok::LParen => "(".to_owned(),
            Tok::RParen => ")".to_owned(),
            Tok::Dot => ".".to_owned(),
            Tok::Space => " ".to_owned(),
        }
    }
}

impl Token {
    /// The token as it is written in a program.
    pub fn pretty(&self) -> (r: String)
        ensures
            r@ == self.tok@.text(),
    {
        self.tok.pretty()
    }
}

impl Ast {
    /// Whether the tree can be written out.
    #[verifier::loop_isolation(false)]
    pub fn is_printable(&self) -> (b: bool)
        ensures
            b == self@.printable(),
        decreases self,
    {
        match self {
            Ast::Leaf(_) => true,
            Ast::Node { rule, nodes } => {
                proof {
                    crate::ast::lemma_node_view(*rule, *nodes);
                }
                match rule {
                    Rule::List => {
                        let ghost views = crate::ast::views_of(nodes@);
                        let mut i: usize = 0;
                        while i < nodes.len()
                            invariant
                                i <= nodes@.len(),
                                forall|j: int| 0 <= j < i ==> (#[trigger] views[j]).printable(),
                            decreases nodes@.len() - i,
                        {
                            proof {
                                vstd::std_specs::vec::axiom_vec_index_decreases(*nodes, i as int);
                                assert(views[i as int] == nodes@[i as int]@);
                            }
                            if !nodes[i].is_printable() {
                                assert(!all_printable(views));
                                return false;
                            }
                            i += 1;
                        }
                        assert(all_printable(views));
                        true
                    },
                    Rule::Exprs => false,
                    _ => true,
                }
            },
        }
    }

    /// The tree as a program text.
    #[verifier::loop_isolation(false)]
    pub fn pretty(&self) -> (r: String)
        requires
            self@.printable(),
        ensures
            r@ == self@.text(),
        decreases self,
    {
        match self {
            Ast::Leaf(tok) => tok.pretty(),
            Ast::Node { rule, nodes } => {
                proof {
                    crate::ast::lemma_node_view(*rule, *nodes);
                }
                match rule {
                    Rule::List => {
                        let ghost views = crate::ast::views_of(nodes@);
                        assert(self@ == (AstView::Node { rule: Rule::List, nodes: views }));
                        assert(all_printable(views));
                        let mut out = "(".to_owned();
                        let mut i: usize = 0;
                        while i < nodes.len()
                            invariant
                                i <= nodes@.len(),
                                out@ == "("@ + joined(views, i as nat),
                            decreases nodes@.len() - i,
                        {
                            proof {
                                vstd::std_specs::vec::axiom_vec_index_decreases(*nodes, i as int);
                                assert(views[i as int].printable());
                                assert(views[i as int] == nodes@[i as int]@);
                            }
                            let ghost before = out@;
                            if i > 0 {
                                out.append(" ");
                            }
                            let piece = nodes[i].pretty();
                            out.append(piece.as_str());
                            proof {
                                if i == 0 {
                                    assert(joined(views, 0) =~= Seq::<char>::empty());
                                    assert(out@ =~= "("@ + joined(views, 1));
                                } else {
                                    assert(out@ =~= "("@ + joined(views, (i + 1) as nat));
                                }
                            }
                            i += 1;
                        }
                        out.append(")");
                        out
                    },
                    Rule::EmptyList => "()".to_owned(),
                    _ => String::new(),
                }
            },
        }
    }
}

impl Obj {
    /// The value as text.
    pub fn to_text(&self) -> (r: String)
        ensures
            r@ == self@.text(),
        decreases self,
    {
        match &*self.val {
            ObjVal::Symbol(s) => "'".to_owned().concat(s.as_str()),
            ObjVal::Float(text) => text.clone(),
            ObjVal::Int(n) => int_to_text(*n),
            ObjVal::Bool(b) => if *b {
                "true".to_owned()
            } else {
                "false".to_owned()
            },
            ObjVal::Env(_) => "<env>".to_owned(),
            ObjVal::PrimFunc(_) => "<fn>".to_owned(),
            ObjVal::Cons(x, y) => {
                let first = x.to_text();
                let second = y.to_text();
                "(".to_owned().concat(first.as_str()).concat(" . ").concat(second.as_str()).concat(
                    ")",
                )
            },
            ObjVal::Nil => "()".to_owned(),
        }
    }
}

} // verus!
