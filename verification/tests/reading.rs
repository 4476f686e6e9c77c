use lazarus::lexer::{make_byte_token, make_token, parse_int, LexError, Lexer, Pattern};
use lazarus::parser::{Parser, Production};
use lazarus::types::{Ast, Obj, Rule, Symb, Tok, Token};

fn kinds(s: &str) -> Vec<Tok> {
    let mut lexer = Lexer::new(s, "test.scm");
    lexer.collect().into_iter().map(|t| t.unwrap().tok).collect()
}

fn lexed(s: &str) -> Vec<Result<Tok, LexError>> {
    let mut lexer = Lexer::new(s, "test.scm");
    lexer.collect().into_iter().map(|t| t.map(|token| token.tok)).collect()
}

fn name(s: &str) -> Tok {
    Tok::Symbol(Symb::new_unknown(s))
}

#[test]
fn a_decimal_literal_is_tried_before_an_integer() {
    assert_eq!(kinds("1.5"), vec![Tok::Float("1.5".to_string())]);
    assert_eq!(kinds(".5"), vec![Tok::Float(".5".to_string())]);
    assert_eq!(kinds("1.5e10"), vec![Tok::Float("1.5e10".to_string())]);
    assert_eq!(kinds("15"), vec![Tok::Int(15)]);
    assert_eq!(kinds("1."), vec![Tok::Int(1), Tok::Dot]);
}

#[test]
fn a_symbol_is_tried_first() {
    assert_eq!(kinds("abc"), vec![name("abc")]);
    assert_eq!(kinds("a1"), vec![name("a1")]);
    assert_eq!(kinds("1a"), vec![Tok::Int(1), name("a")]);
    assert_eq!(kinds("-"), vec![name("-")]);
    assert_eq!(kinds("-5"), vec![name("-5")]);
    assert_eq!(kinds("+x"), vec![name("+x")]);
    assert_eq!(kinds("null?"), vec![name("null?")]);
    assert_eq!(kinds("#t"), vec![name("#t")]);
}

#[test]
fn tokens_with_their_spans() {
    let mut lexer = Lexer::new("(ab 12\n λ)", "test.scm");
    let toks: Vec<Token> = lexer.collect().into_iter().map(|t| t.unwrap()).collect();
    let spans: Vec<(usize, usize)> = toks.iter().map(|t| (t.start, t.end)).collect();
    assert_eq!(spans, vec![(0, 1), (1, 3), (3, 4), (4, 6), (6, 8), (8, 10), (10, 11)]);
    assert_eq!(toks[0].tok, Tok::LParen);
    assert_eq!(toks[1].tok, name("ab"));
    assert_eq!(toks[2].tok, Tok::Space);
    assert_eq!(toks[3].tok, Tok::Int(12));
    assert_eq!(toks[4].tok, Tok::Space);
    assert_eq!(toks[5].tok, name("λ"));
    assert_eq!(toks[6].tok, Tok::RParen);
    match &toks[1].tok {
        Tok::Symbol(s) => {
            assert_eq!(s.filename, "test.scm");
            assert_eq!(s.pos, 1);
        }
        _ => unreachable!(),
    }
    assert!(toks[0].is_lparen() && toks[6].is_rparen());
    assert!(toks[1].is_symbol() && toks[3].is_int() && toks[2].is_space());
    assert_eq!(lexer.filename(), "test.scm");
}

#[test]
fn the_end_of_the_text() {
    let mut lexer = Lexer::new("", "test.scm");
    assert!(lexer.next().is_none());
    assert!(lexer.next().is_none());
    let mut lexer = Lexer::new("a", "test.scm");
    assert_eq!(lexer.next(), Some(Ok(Token::new(name("a"), 0, 1))));
    assert!(lexer.next().is_none());
    assert!(lexer.collect().is_empty());
}

#[test]
fn a_byte_that_begins_no_token() {
    assert_eq!(
        lexed("a,c"),
        vec![Ok(name("a")), Err(LexError::UnexpectedByte), Ok(name("c"))]
    );
    assert_eq!(lexed("\""), vec![Err(LexError::UnexpectedByte)]);
    let mut lexer = Lexer::new("a,c", "test.scm");
    assert!(lexer.next().is_some());
    assert_eq!(lexer.next(), Some(Err(LexError::UnexpectedByte)));
    assert_eq!(lexer.next(), Some(Ok(Token::new(name("c"), 2, 3))));
    assert!(lexer.next().is_none());
    assert_eq!(
        Parser::new(Lexer::new("(a , c)", "test.scm")).err(),
        Some(LexError::UnexpectedByte)
    );
}

#[test]
fn the_signs_of_comparison_begin_no_token() {
    assert_eq!(lexed("<"), vec![Err(LexError::UnexpectedByte)]);
    assert_eq!(
        lexed("a>b"),
        vec![Ok(name("a")), Err(LexError::UnexpectedByte), Ok(name("b"))]
    );
    assert_eq!(
        Parser::new(Lexer::new("(< 1 2)", "test.scm")).err(),
        Some(LexError::UnexpectedByte)
    );
}

#[test]
fn single_bytes() {
    assert_eq!(kinds("(.)"), vec![Tok::LParen, Tok::Dot, Tok::RParen]);
    assert_eq!(make_byte_token(b'(', 4), Some(Token::new(Tok::LParen, 4, 5)));
    assert_eq!(make_byte_token(b')', 0), Some(Token::new(Tok::RParen, 0, 1)));
    assert_eq!(make_byte_token(b'.', 9), Some(Token::new(Tok::Dot, 9, 10)));
    assert_eq!(make_byte_token(b',', 9), None);
    let dot = Token::new(Tok::Dot, 0, 1);
    assert!(dot.is_dot() && !dot.is_float());
}

#[test]
fn integer_literals() {
    assert_eq!(parse_int(b"0"), Ok(0));
    assert_eq!(parse_int(b"123"), Ok(123));
    assert_eq!(parse_int(b"+123"), Ok(123));
    assert_eq!(parse_int(b"-123"), Ok(-123));
    assert_eq!(parse_int(b"007"), Ok(7));
    assert_eq!(parse_int(b"9223372036854775807"), Ok(i64::MAX));
    assert_eq!(parse_int(b"-9223372036854775808"), Ok(i64::MIN));
    assert_eq!(parse_int(b"9223372036854775808"), Err(LexError::IntegerOutOfRange));
    assert_eq!(parse_int(b"-9223372036854775809"), Err(LexError::IntegerOutOfRange));
    assert_eq!(parse_int(b"99999999999999999999999999999999999999999999"), Err(LexError::IntegerOutOfRange));
    assert_eq!(parse_int(b""), Err(LexError::MalformedInteger));
    assert_eq!(parse_int(b"-"), Err(LexError::MalformedInteger));
    assert_eq!(parse_int(b"12a"), Err(LexError::MalformedInteger));
    assert_eq!(parse_int(b"1-2"), Err(LexError::MalformedInteger));
    assert_eq!(parse_int(b"99999999999999999999999999999999999999999999x"), Err(LexError::MalformedInteger));
}

#[test]
fn an_integer_that_does_not_fit() {
    let mut lexer = Lexer::new("(1 9223372036854775808 2)", "test.scm");
    let items = lexer.collect();
    assert_eq!(items.len(), 7);
    assert_eq!(items[3], Err(LexError::IntegerOutOfRange));
    assert_eq!(items[5], Ok(Token::new(Tok::Int(2), 23, 24)));
    let again = Lexer::new("(1 9223372036854775808 2)", "test.scm");
    assert_eq!(Parser::new(again).err(), Some(LexError::IntegerOutOfRange));
}

#[test]
fn tokens_from_lexemes() {
    let file = "f.scm".to_string();
    assert_eq!(
        make_token(Pattern::Symbol, "ab".to_string(), &file, 3, 5),
        Ok(Token::new(name("ab"), 3, 5))
    );
    assert_eq!(
        make_token(Pattern::Float, "1.5".to_string(), &file, 0, 3),
        Ok(Token::new(Tok::Float("1.5".to_string()), 0, 3))
    );
    assert_eq!(make_token(Pattern::Int, "-15".to_string(), &file, 0, 3), Ok(Token::new(Tok::Int(-15), 0, 3)));
    assert_eq!(make_token(Pattern::Int, "x".to_string(), &file, 0, 1), Err(LexError::MalformedInteger));
    assert_eq!(make_token(Pattern::Space, "  ".to_string(), &file, 0, 2), Ok(Token::new(Tok::Space, 0, 2)));
}

#[test]
fn a_production_that_fails_leaves_the_cursor() {
    let mut parser = Parser::new(Lexer::new("abc 1", "test.scm")).unwrap();
    let failed = parser.float().unwrap_err();
    assert_eq!(failed.production, Production::Float);
    assert_eq!(failed.at, Some(0));
    assert_eq!(failed.filename, "test.scm");
    assert!(parser.integer().is_err());
    assert!(parser.lparen().is_err());
    assert!(parser.rparen().is_err());
    assert!(parser.list().is_err());
    match parser.symbol() {
        Ok(Ast::Leaf(token)) => assert_eq!(token, Token::new(name("abc"), 0, 3)),
        other => panic!("{:?}", other),
    }
    assert!(parser.symbol().is_err());
    match parser.integer() {
        Ok(Ast::Leaf(token)) => assert_eq!(token.tok, Tok::Int(1)),
        other => panic!("{:?}", other),
    }
    let at_end = parser.symbol().unwrap_err();
    assert_eq!(at_end.at, None);
}

#[test]
fn a_list_that_fails_leaves_the_cursor() {
    let mut parser = Parser::new(Lexer::new("(1 2", "test.scm")).unwrap();
    let failed = parser.list().unwrap_err();
    assert_eq!(failed.production, Production::List);
    assert_eq!(failed.at, Some(0));
    assert_eq!(failed.trace, vec![Production::RParen]);
    let again = parser.expr().unwrap_err();
    assert_eq!(again.production, Production::Expr);
    assert_eq!(again.trace, vec![Production::RParen, Production::List]);
    assert!(parser.lparen().is_ok());
    assert!(parser.integer().is_ok());
}

#[test]
fn exprs_reads_what_there_is() {
    let mut parser = Parser::new(Lexer::new(")", "test.scm")).unwrap();
    match parser.exprs() {
        Ok(Ast::Node { rule, nodes }) => {
            assert_eq!(rule, Rule::Exprs);
            assert!(nodes.is_empty());
        }
        other => panic!("{:?}", other),
    }
    assert!(parser.rparen().is_ok());
    let mut parser = Parser::new(Lexer::new("1 (2 3) x )", "test.scm")).unwrap();
    match parser.exprs() {
        Ok(Ast::Node { rule, nodes }) => {
            assert_eq!(rule, Rule::Exprs);
            assert_eq!(nodes.len(), 3);
            assert_eq!(nodes[1].name(), "rule: List");
            assert_eq!(nodes[0].name(), "Token");
        }
        other => panic!("{:?}", other),
    }
}

#[test]
fn trees() {
    let mut parser = Parser::new(Lexer::new("(a (1 2.5) ())", "test.scm")).unwrap();
    let tree = parser.list().unwrap();
    assert!(!tree.is_symbol());
    assert!(!tree.is_self_evaluating());
    match &tree {
        Ast::Node { rule, nodes } => {
            assert_eq!(*rule, Rule::List);
            assert_eq!(nodes.len(), 3);
            assert!(nodes[0].is_symbol());
            assert!(!nodes[0].is_self_evaluating());
            match &nodes[1] {
                Ast::Node { nodes: inner, .. } => {
                    assert!(inner[0].is_self_evaluating());
                    assert!(inner[1].is_self_evaluating());
                }
                other => panic!("{:?}", other),
            }
        }
        other => panic!("{:?}", other),
    }
    let obj = tree.to_obj();
    let inner = Obj::list_from_vec(
        vec![Obj::new_int(1, None), Obj::new_float("2.5".to_string(), None)],
        None,
    );
    assert_eq!(
        obj,
        Obj::list_from_vec(vec![Obj::new_symb("a".to_string(), None), inner, Obj::nil(None)], None)
    );
    let mut node = Ast::node(Rule::Exprs, vec![Ast::leaf(Token::new(Tok::Int(1), 0, 1))]);
    node.replace_rule(Rule::List);
    assert_eq!(node.name(), "rule: List");
    assert_eq!(Ast::empty().name(), "rule: Empty");
    assert_eq!(Ast::empty().to_obj(), Obj::nil(None));
    assert_eq!(Ast::node(Rule::EmptyList, vec![]).to_obj(), Obj::nil(None));
}

#[test]
fn tokens_become_values() {
    let token = Token::new(Tok::Int(5), 2, 3);
    let obj = token.to_obj();
    assert_eq!(obj, Obj::new_int(5, None));
    let loc = obj.loc.unwrap();
    assert_eq!((loc.filename.as_str(), loc.start, loc.end), ("nofile", 2, 3));
    assert_eq!(token.loc().start, 2);
    assert_eq!(Token::new(name("x"), 0, 1).to_obj(), Obj::new_symb("x".to_string(), None));
    assert_eq!(
        Token::new(Tok::Float("1.5".to_string()), 0, 3).to_obj(),
        Obj::new_float("1.5".to_string(), None)
    );
}
