//! Turns source text into tokens, one per call.

use crate::types::{Symb, Tok, TokView, Token, TokenView};
use regex::Regex;
use vstd::prelude::*;
use vstd::utf8::{decode_utf8, encode_utf8};

verus! {

impl Token {
    pub fn new(tok: Tok, start: usize, end: usize) -> (t: Token)
        ensures
            t.tok == tok,
            t.start == start,
            t.end == end,
    {
        Token { tok, start, end }
    }

    pub fn is_float(&self) -> (b: bool)
        ensures
            b == (self.tok@ is Float),
    {
        match self.tok {
            Tok::Float(_) => true,
            _ => false,
        }
    }

    pub fn is_int(&self) -> (b: bool)
        ensures
            b == (self.tok@ is Int),
    {
        match self.tok {
            Tok::Int(_) => true,
            _ => false,
        }
    }

    pub fn is_symbol(&self) -> (b: bool)
        ensures
            b == (self.tok@ is Symbol),
    {
        match self.tok {
            Tok::Symbol(_) => true,
            _ => false,
        }
    }

    pub fn is_lparen(&self) -> (b: bool)
        ensures
            b == (self.tok@ is LParen),
    {
        match self.tok {
            Tok::LParen => true,
            _ => false,
        }
    }

    pub fn is_rparen(&self) -> (b: bool)
        ensures
            b == (self.tok@ is RParen),
    {
        match self.tok {
            Tok::RParen => true,
            _ => false,
        }
    }

    pub fn is_dot(&self) -> (b: bool)
        ensures
            b == (self.tok@ is Dot),
    {
        match self.tok {
            Tok::Dot => true,
            _ => false,
        }
    }

    pub fn is_space(&self) -> (b: bool)
        ensures
            b == (self.tok@ is Space),
    {
        match self.tok {
            Tok::Space => true,
            _ => false,
        }
    }
}

/// Why a lexeme is no token.
#[derive(Debug, Clone, Copy, PartialEq, Eq, Structural)]
pub enum LexError {
    /// The byte at the cursor begins no token.
    UnexpectedByte,
    /// The digits of an integer literal name a number outside 64 bits.
    IntegerOutOfRange,
    /// An integer literal is not an optional sign followed by digits.
    MalformedInteger,
}

/// Letters and the signs a name may hold; its first character is no digit.
pub const SYMBOL_PATTERN: &'static str = r#"[&$#/\~\*\-+\p{L}][&$#/\~\*\-+\p{L}\\!0-9?]*"#;

/// A decimal literal: it needs a point.
pub const FLOAT_PATTERN: &'static str = r"[-+]?[0-9]*\.[0-9]+([eE][-+]?[0-9]+)?";

/// An integer literal.
pub const INT_PATTERN: &'static str = r"[-+]?[0-9]+";

/// A run of white space.
pub const SPACE_PATTERN: &'static str = r"[\s\n\t]+";

/// The bytes that the lexer knows by themselves.
pub const DIGIT_0: u8 = 48;

pub const DIGIT_9: u8 = 57;

pub const PLUS: u8 = 43;

pub const MINUS: u8 = 45;

pub const LPAREN: u8 = 40;

pub const RPAREN: u8 = 41;

pub const DOT: u8 = 46;

/// Where the leftmost match of `pattern` in `haystack` lies, among those
/// that begin at byte `start` or later: the byte it begins at and the byte
/// after its last. `None` where there is no match, or where `pattern` is no
/// regular expression.
pub uninterp spec fn regex_find_at(pattern: Seq<char>, haystack: Seq<char>, start: usize) -> Option<
    (usize, usize),
>;

/// Compiles `pattern` with `regex::Regex::new` and searches `haystack` with
/// `Regex::find_at`. The contract names the offsets found, and claims what
/// the documentation of `regex::Match` promises of them: the match lies in
/// the part of the haystack that was searched, its start is not behind its
/// end, and the text handed back is the haystack between the two.
/// `find_at` panics on a `start` beyond the end of the haystack.
#[verifier::external_body]
fn find_at(pattern: &str, haystack: &str, start: usize) -> (r: Option<(usize, usize, String)>)
    requires
        start <= encode_utf8(haystack@).len(),
    ensures
        match r {
            Some((s, e, text)) => {
                &&& regex_find_at(pattern@, haystack@, start) == Some((s, e))
                &&& start <= s <= e <= encode_utf8(haystack@).len()
                &&& encode_utf8(text@) == encode_utf8(haystack@).subrange(s as int, e as int)
            },
            None => regex_find_at(pattern@, haystack@, start) is None,
        },
{
    match Regex::new(pattern) {
        Ok(re) => re.find_at(haystack, start).map(|m| (m.start(), m.end(), m.as_str().to_owned())),
        Err(_) => None,
    }
}

/// The number that a run of decimal digits writes, most significant first.
pub open spec fn digits_value(digits: Seq<u8>) -> int
    decreases digits.len(),
{
    if digits.len() == 0 {
        0
    } else {
        digits_value(digits.drop_last()) * 10 + (digits.last() - DIGIT_0)
    }
}

pub open spec fn all_digits(bytes: Seq<u8>) -> bool {
    forall|i: int| 0 <= i < bytes.len() ==> DIGIT_0 <= #[trigger] bytes[i] <= DIGIT_9
}

/// Whether the literal begins with a sign.
pub open spec fn has_sign(bytes: Seq<u8>) -> bool {
    bytes.len() > 0 && (bytes[0] == PLUS || bytes[0] == MINUS)
}

/// The digits of an integer literal, without its sign.
pub open spec fn magnitude_digits(bytes: Seq<u8>) -> Seq<u8> {
    if has_sign(bytes) {
        bytes.subrange(1, bytes.len() as int)
    } else {
        bytes
    }
}

/// Whether the bytes are an optional sign and then at least one digit.
pub open spec fn is_int_literal(bytes: Seq<u8>) -> bool {
    magnitude_digits(bytes).len() > 0 && all_digits(magnitude_digits(bytes))
}

/// The number that an integer literal writes.
pub open spec fn int_literal_value(bytes: Seq<u8>) -> int {
    if bytes.len() > 0 && bytes[0] == MINUS {
        -digits_value(magnitude_digits(bytes))
    } else {
        digits_value(magnitude_digits(bytes))
    }
}

/// What reading an integer literal gives.
pub open spec fn int_literal(bytes: Seq<u8>) -> Result<i64, LexError> {
    if !is_int_literal(bytes) {
        Err(LexError::MalformedInteger)
    } else if i64::MIN <= int_literal_value(bytes) <= i64::MAX {
        Ok(int_literal_value(bytes) as i64)
    } else {
        Err(LexError::IntegerOutOfRange)
    }
}

/// Reads an integer literal: an optional sign, then decimal digits.
pub fn parse_int(bytes: &[u8]) -> (r: Result<i64, LexError>)
    ensures
        r == int_literal(bytes@),
{
    let n: usize = bytes.len();
    let signed: bool = n > 0 && (bytes[0] == PLUS || bytes[0] == MINUS);
    let negative: bool = n > 0 && bytes[0] == MINUS;
    let first: usize = if signed {
        1
    } else {
        0
    };
    if first >= n {
        return Err(LexError::MalformedInteger);
    }
    let ghost digits = magnitude_digits(bytes@);
    let mut acc: i128 = 0;
    let mut i: usize = first;
    let mut too_large: bool = false;
    while i < n
        invariant
            first <= i <= n,
            n == bytes@.len(),
            digits == bytes@.subrange(first as int, n as int),
            digits == magnitude_digits(bytes@),
            forall|j: int| 0 <= j < i - first ==> DIGIT_0 <= #[trigger] digits[j] <= DIGIT_9,
            !too_large ==> acc == digits_value(digits.subrange(0, i - first)),
            !too_large ==> 0 <= acc <= 0x8000_0000_0000_0000,
            too_large ==> digits_value(digits.subrange(0, i - first)) > 0x8000_0000_0000_0000,
        decreases n - i,
    {
        let b: u8 = bytes[i];
        if b < DIGIT_0 || b > DIGIT_9 {
            assert(digits[i - first] == b);
            return Err(LexError::MalformedInteger);
        }
        proof {
            let longer = digits.subrange(0, i - first + 1);
            assert(longer.drop_last() =~= digits.subrange(0, i - first));
            assert(longer.last() == b);
        }
        if !too_large {
            acc = acc * 10 + (b - DIGIT_0) as i128;
            if acc > 0x8000_0000_0000_0000 {
                too_large = true;
            }
        }
        i += 1;
    }
    proof {
        assert(digits.subrange(0, n - first) =~= digits);
        assert(all_digits(digits));
    }
    if too_large {
        Err(LexError::IntegerOutOfRange)
    } else if negative {
        Ok((-acc) as i64)
    } else if acc == 0x8000_0000_0000_0000 {
        Err(LexError::IntegerOutOfRange)
    } else {
        Ok(acc as i64)
    }
}

/// The four kinds of lexeme that a pattern finds.
#[derive(Debug, Clone, Copy, PartialEq, Eq, Structural)]
pub enum Pattern {
    Symbol,
    Float,
    Int,
    Space,
}

/// Whether a match begins at the cursor and spans at least one byte.
pub open spec fn anchored(found: Option<(usize, usize)>, at: usize) -> bool {
    found matches Some((s, e)) && s == at && e > at
}

/// The byte after a match, and 0 where there is none.
pub open spec fn match_end(found: Option<(usize, usize)>) -> usize {
    match found {
        Some((_, e)) => e,
        None => 0,
    }
}

/// The text between two byte offsets of a program.
pub open spec fn text_between(prog: Seq<char>, start: usize, end: usize) -> Seq<char> {
    decode_utf8(encode_utf8(prog).subrange(start as int, end as int))
}

/// The token that a lexeme of the given kind is.
pub open spec fn token_of_lexeme(kind: Pattern, text: Seq<char>, start: usize, end: usize) -> Result<
    TokenView,
    LexError,
> {
    match kind {
        Pattern::Symbol => Ok(TokenView { tok: TokView::Symbol(text), start, end }),
        Pattern::Float => Ok(TokenView { tok: TokView::Float(text), start, end }),
        Pattern::Int => match int_literal(encode_utf8(text)) {
            Ok(n) => Ok(TokenView { tok: TokView::Int(n), start, end }),
            Err(e) => Err(e),
        },
        Pattern::Space => Ok(TokenView { tok: TokView::Space, start, end }),
    }
}

/// The token that a single byte is, if it is one: a parenthesis or a dot.
pub open spec fn token_of_byte(byte: u8, at: usize) -> Option<TokenView> {
    if byte == RPAREN {
        Some(TokenView { tok: TokView::RParen, start: at, end: (at + 1) as usize })
    } else if byte == LPAREN {
        Some(TokenView { tok: TokView::LParen, start: at, end: (at + 1) as usize })
    } else if byte == DOT {
        Some(TokenView { tok: TokView::Dot, start: at, end: (at + 1) as usize })
    } else {
        None
    }
}

/// The view of what one step of the lexer hands out.
pub open spec fn item_view(item: Option<Result<Token, LexError>>) -> Option<
    Result<TokenView, LexError>,
> {
    match item {
        Some(Ok(t)) => Some(Ok(t@)),
        Some(Err(e)) => Some(Err(e)),
        None => None,
    }
}

/// One step of the lexer on `prog` with the cursor at byte `at`: what it
/// hands out, and where the cursor stands afterwards. The patterns are
/// tried in the order symbol, decimal literal, integer literal, white
/// space; then the single byte at the cursor. A byte that begins no token
/// is a failure, and the cursor moves behind it.
pub open spec fn lex_step(prog: Seq<char>, at: usize) -> (Option<Result<TokenView, LexError>>, usize) {
    let symbol = regex_find_at(SYMBOL_PATTERN@, prog, at);
    let float = regex_find_at(FLOAT_PATTERN@, prog, at);
    let integer = regex_find_at(INT_PATTERN@, prog, at);
    let space = regex_find_at(SPACE_PATTERN@, prog, at);
    if at >= encode_utf8(prog).len() {
        (None, at)
    } else if anchored(symbol, at) {
        let end = match_end(symbol);
        (Some(token_of_lexeme(Pattern::Symbol, text_between(prog, at, end), at, end)), end)
    } else if anchored(float, at) {
        let end = match_end(float);
        (Some(token_of_lexeme(Pattern::Float, text_between(prog, at, end), at, end)), end)
    } else if anchored(integer, at) {
        let end = match_end(integer);
        (Some(token_of_lexeme(Pattern::Int, text_between(prog, at, end), at, end)), end)
    } else if anchored(space, at) {
        let end = match_end(space);
        (Some(token_of_lexeme(Pattern::Space, text_between(prog, at, end), at, end)), end)
    } else {
        match token_of_byte(encode_utf8(prog)[at as int], at) {
            Some(t) => (Some(Ok(t)), (at + 1) as usize),
            None => (Some(Err(LexError::UnexpectedByte)), (at + 1) as usize),
        }
    }
}

/// Everything the lexer hands out from byte `at` on, on top of `acc`, up
/// to the end of the text.
pub open spec fn lex_items(prog: Seq<char>, at: usize, acc: Seq<Result<TokenView, LexError>>) -> Seq<
    Result<TokenView, LexError>,
>
    decreases encode_utf8(prog).len() - at,
{
    let (item, next) = lex_step(prog, at);
    match item {
        None => acc,
        Some(x) => if at < next <= encode_utf8(prog).len() {
            lex_items(prog, next, acc.push(x))
        } else {
            acc.push(x)
        },
    }
}

/// The views of what the lexer handed out.
pub open spec fn items_view(items: Seq<Result<Token, LexError>>) -> Seq<Result<TokenView, LexError>> {
    Seq::new(
        items.len(),
        |i: int|
            match items[i] {
                Ok(t) => Ok(t@),
                Err(e) => Err(e),
            },
    )
}

/// Makes the token for a lexeme that one of the patterns found. The name
/// of a symbol and the text of a decimal literal are the lexeme itself; an
/// integer literal is read as a number.
pub fn make_token(kind: Pattern, text: String, filename: &String, start: usize, end: usize) -> (r:
    Result<Token, LexError>)
    ensures
        match r {
            Ok(t) => token_of_lexeme(kind, text@, start, end) == Ok::<TokenView, LexError>(t@),
            Err(e) => token_of_lexeme(kind, text@, start, end) == Err::<TokenView, LexError>(e),
        },
        r matches Ok(t) ==> (t.tok matches Tok::Symbol(s) ==> s.filename@ == filename@ && s.pos
            == start),
{
    match kind {
        Pattern::Symbol => {
            let sym = Symb::new(text.as_str(), filename.as_str().to_owned(), start);
            Ok(Token::new(Tok::Symbol(sym), start, end))
        },
        Pattern::Float => Ok(Token::new(Tok::Float(text), start, end)),
        Pattern::Int => match parse_int(text.as_str().as_bytes()) {
            Ok(n) => Ok(Token::new(Tok::Int(n), start, end)),
            Err(e) => Err(e),
        },
        Pattern::Space => Ok(Token::new(Tok::Space, start, end)),
    }
}

/// Makes the token for a parenthesis or a dot.
pub fn make_byte_token(byte: u8, at: usize) -> (r: Option<Token>)
    requires
        at < usize::MAX,
    ensures
        match r {
            Some(t) => token_of_byte(byte, at) == Some(t@),
            None => token_of_byte(byte, at) is None,
        },
{
    if byte == RPAREN {
        Some(Token::new(Tok::RParen, at, at + 1))
    } else if byte == LPAREN {
        Some(Token::new(Tok::LParen, at, at + 1))
    } else if byte == DOT {
        Some(Token::new(Tok::Dot, at, at + 1))
    } else {
        None
    }
}

/// A cursor over a program text that hands out its tokens one by one.
pub struct Lexer {
    idx: usize,
    byte_length: usize,
    prog: String,
    filename: String,
}

impl Lexer {
    #[verifier::type_invariant]
    spec fn inv(self) -> bool {
        self.byte_length == encode_utf8(self.prog@).len()
    }

    /// The program being read.
    pub closed spec fn text(&self) -> Seq<char> {
        self.prog@
    }

    /// The byte the next token begins at.
    pub closed spec fn cursor(&self) -> usize {
        self.idx
    }

    /// The name of the file the program came from.
    pub closed spec fn file(&self) -> Seq<char> {
        self.filename@
    }

    /// How many bytes the program has.
    pub open spec fn length(&self) -> nat {
        encode_utf8(self.text()).len()
    }

    pub fn new(input: &str, filename: &str) -> (lexer: Lexer)
        ensures
            lexer.text() == input@,
            lexer.file() == filename@,
            lexer.cursor() == 0,
    {
        Lexer {
            idx: 0,
            byte_length: input.as_bytes().len(),
            prog: input.to_owned(),
            filename: filename.to_owned(),
        }
    }

    pub fn filename(&self) -> (name: &String)
        ensures
            name@ == self.file(),
    {
        &self.filename
    }

    /// Tries one pattern at the cursor.
    fn try_pattern(&mut self, kind: Pattern, pattern: &'static str) -> (r: Option<
        Result<Token, LexError>,
    >)
        requires
            old(self).cursor() < old(self).length(),
        ensures
            final(self).text() == old(self).text(),
            final(self).file() == old(self).file(),
            final(self).cursor() <= old(self).length(),
            match regex_find_at(pattern@, old(self).text(), old(self).cursor()) {
                Some((s, e)) if s == old(self).cursor() && e > s => {
                    &&& r is Some
                    &&& final(self).cursor() == e
                    &&& item_view(r) == Some(
                        token_of_lexeme(
                            kind,
                            text_between(old(self).text(), s, e),
                            s,
                            e,
                        ),
                    )
                },
                _ => r is None && final(self).cursor() == old(self).cursor(),
            },
            r matches Some(Ok(t)) ==> (t.tok matches Tok::Symbol(s) ==> s.filename@ == old(
                self,
            ).file() && s.pos == t.start),
    {
        proof {
            use_type_invariant(&*self);
        }
        match find_at(pattern, self.prog.as_str(), self.idx) {
            Some((s, e, text)) => {
                if s == self.idx && e > s {
                    proof {
                        vstd::utf8::encode_utf8_decode_utf8(text@);
                    }
                    let item = make_token(kind, text, &self.filename, s, e);
                    self.idx = e;
                    Some(item)
                } else {
                    None
                }
            },
            None => None,
        }
    }

    /// Hands out the next token and moves the cursor behind it. `None` at
    /// the end of the text.
    pub fn next(&mut self) -> (r: Option<Result<Token, LexError>>)
        ensures
            final(self).text() == old(self).text(),
            final(self).file() == old(self).file(),
            (item_view(r), final(self).cursor()) == lex_step(old(self).text(), old(self).cursor()),
            r is Some ==> old(self).cursor() < final(self).cursor() <= old(self).length(),
            r is None <==> old(self).cursor() >= old(self).length(),
            r matches Some(Ok(t)) ==> (t.tok matches Tok::Symbol(s) ==> s.filename@ == old(
                self,
            ).file() && s.pos == t.start),
    {
        proof {
            use_type_invariant(&*self);
        }
        if self.idx >= self.byte_length {
            return None;
        }
        let symbol = self.try_pattern(Pattern::Symbol, SYMBOL_PATTERN);
        if symbol.is_some() {
            return symbol;
        }
        let float = self.try_pattern(Pattern::Float, FLOAT_PATTERN);
        if float.is_some() {
            return float;
        }
        let integer = self.try_pattern(Pattern::Int, INT_PATTERN);
        if integer.is_some() {
            return integer;
        }
        let space = self.try_pattern(Pattern::Space, SPACE_PATTERN);
        if space.is_some() {
            return space;
        }
        proof {
            use_type_invariant(&*self);
        }
        let byte: u8 = self.prog.as_str().as_bytes()[self.idx];
        let at: usize = self.idx;
        self.idx = at + 1;
        match make_byte_token(byte, at) {
            Some(t) => Some(Ok(t)),
            None => Some(Err(LexError::UnexpectedByte)),
        }
    }

    /// Hands out everything that is left, tokens and failures, up to the
    /// end of the text.
    pub fn collect(&mut self) -> (r: Vec<Result<Token, LexError>>)
        ensures
            final(self).text() == old(self).text(),
            final(self).file() == old(self).file(),
            items_view(r@) == lex_items(old(self).text(), old(self).cursor(), Seq::empty()),
    {
        let mut out: Vec<Result<Token, LexError>> = Vec::new();
        assert(items_view(out@) =~= Seq::empty());
        loop
            invariant
                self.text() == old(self).text(),
                self.file() == old(self).file(),
                lex_items(self.text(), self.cursor(), items_view(out@)) == lex_items(
                    old(self).text(),
                    old(self).cursor(),
                    Seq::empty(),
                ),
            decreases self.length() - self.cursor(),
        {
            let ghost seen = items_view(out@);
            match self.next() {
                Some(item) => {
                    out.push(item);
                    assert(items_view(out@) =~= seen.push(
                        match item {
                            Ok(t) => Ok(t@),
                            Err(e) => Err(e),
                        },
                    ));
                },
                None => {
                    return out;
                },
            }
        }
    }
}

} // verus!
