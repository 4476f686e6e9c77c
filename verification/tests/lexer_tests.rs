use lazarus::lexer::{LexError, Lexer};
use lazarus::types::{Symb, Tok, Token};
use regex::Regex;

#[test]
fn lex_some() {
    let mut lexer = Lexer::new("(())", "test.scm");
    let toks: Vec<Result<Token, LexError>> = lexer.collect();
    assert_eq!(4, toks.len());
}

#[test]
fn lex_some_unicode() {
    let mut lexer = Lexer::new("((εε))", "test.scm");
    let toks: Vec<Result<Token, LexError>> = lexer.collect();
    for t in toks.iter() {
        println!("token: {:?}", t);
    }
    assert_eq!(5, toks.len());
}

#[test]
fn lex_symbol_with_exclamation_as_second_char() {
    let mut lexer = Lexer::new("s! asdf asdf asdf", "test.scm");
    if let Some(Ok(tok)) = lexer.next() {
        assert_eq!(tok.start, 0);
        assert_eq!(
            tok.tok,
            Tok::Symbol(Symb::new("s!", "test.scm".to_owned(), 0))
        );
        assert_eq!(tok.end, 2);
    } else {
        panic!("")
    }
}

fn lex_char(s: &str) {
    let mut lexer = Lexer::new(s, "test.scm");
    if let Some(Ok(tok)) = lexer.next() {
        assert_eq!(tok.start, 0);
        assert_eq!(tok.tok, Tok::Symbol(Symb::new(s, "test.scm".to_owned(), 0)));
        assert_eq!(tok.end, s.len());
    } else {
        panic!("")
    }
}

#[test]
fn lex_add() {
    lex_char("+");
}

#[test]
fn lex_min() {
    lex_char("-");
}

#[test]
fn lex_mul() {
    lex_char("*");
}

#[test]
fn lex_div() {
    lex_char("/");
}

#[test]
fn lex_lam() {
    lex_char("λ");
}

#[test]
fn lex_eps() {
    lex_char("ε");
}

#[test]
fn lex_pound() {
    lex_char("#");
}

#[test]
fn lex_car() {
    lex_char("车");
}

#[test]
fn lex_symbol_with_exclamation() {
    let mut lexer = Lexer::new("set! asdf asdf asdf", "test.scm");
    if let Some(Ok(tok)) = lexer.next() {
        assert_eq!(tok.start, 0);
        assert_eq!(
            tok.tok,
            Tok::Symbol(Symb::new("set!", "test.scm".to_owned(), 0))
        );
        assert_eq!(tok.end, 4);
    } else {
        panic!("")
    }
}

#[test]
fn lex_symbol() {
    let mut lexer = Lexer::new("begin? asdf asdf asdf", "test.scm");
    if let Some(Ok(tok)) = lexer.next() {
        assert_eq!(tok.start, 0);
        assert_eq!(
            tok.tok,
            Tok::Symbol(Symb::new("begin?", "test.scm".to_owned(), 0))
        );
        assert_eq!(tok.end, 6);
    } else {
        panic!("")
    }
}

#[test]
fn lex_rparen() {
    let mut lexer = Lexer::new(")", "test.scm");
    if let Some(Ok(tok)) = lexer.next() {
        assert_eq!(tok.start, 0);
        assert_eq!(tok.tok, Tok::RParen);
        assert_eq!(tok.end, 1);
    } else {
        panic!("")
    }
}

#[test]
fn lex_float() {
    let mut lexer = Lexer::new("123.123 asdf", "test.scm");
    let float = lexer.next();
    println!("{:?}", float);

    if let Some(Ok(tok)) = float {
        assert_eq!(tok.start, 0);
        assert_eq!(tok.tok, Tok::Float("123.123".to_string()));
        match &tok.tok {
            Tok::Float(text) => assert_eq!(text.parse::<f64>().unwrap(), 123.123),
            _ => unreachable!(),
        }
        assert_eq!(tok.end, 7);
    } else {
        panic!("")
    }
}

#[test]
fn lex_int() {
    let mut lexer = Lexer::new("123", "test.scm");
    let int = lexer.next();
    println!("{:?}", int);

    if let Some(Ok(tok)) = int {
        assert_eq!(tok.start, 0);
        assert_eq!(tok.tok, Tok::Int(123));
        assert_eq!(tok.end, 3);
    } else {
        panic!("")
    }
}

#[test]
fn lex_paren() {
    let mut lexer = Lexer::new("(123", "test.scm");
    let paren = lexer.next();
    println!("{:?}", paren);

    if let Some(Ok(tok)) = paren {
        assert_eq!(tok.start, 0);
        assert_eq!(tok.tok, Tok::LParen);
        assert_eq!(tok.end, 1);
    } else {
        panic!("")
    }
}

#[test]
fn float_experiment() {
    let pattern = Regex::new(r"[-+]?[0-9]*\.?[0-9]+([eE][-+]?[0-9]+)?").unwrap();

    match pattern.find_at("123.123 asdf", 0) {
        Some(m) => {
            assert_eq!(m.as_str().parse::<f64>().unwrap(), 123.123);
        }
        None => {}
    }
}
