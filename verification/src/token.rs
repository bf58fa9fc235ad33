//! The token model: the kinds of lexical unit, the value a literal carries,
//! and the token itself.

use vstd::prelude::*;
use vstd::string::StringExecFns;
use crate::text::digits_text;
use crate::text::digits_to_string;

verus! {

/// The value of a number literal: the decimal digits before the point and
/// those after it, most significant first.
///
/// It stands for the rational `mantissa() / 10^scale()`.
#[derive(PartialEq, Debug)]
pub struct Decimal {
    whole: Vec<u8>,
    fraction: Vec<u8>,
}

/// What a `Decimal` holds, as sequences of digit values.
pub struct DecimalModel {
    pub whole: Seq<u8>,
    pub fraction: Seq<u8>,
}

/// Every element is a decimal digit value.
pub open spec fn all_digits(ds: Seq<u8>) -> bool {
    forall|i: int| 0 <= i < ds.len() ==> #[trigger] ds[i] <= 9
}

/// The natural number that a sequence of digits denotes, most significant
/// digit first.
pub open spec fn digits_value(ds: Seq<u8>) -> nat
    decreases ds.len(),
{
    if ds.len() == 0 {
        0
    } else {
        10 * digits_value(ds.drop_last()) + ds.last() as nat
    }
}

impl DecimalModel {
    /// A number has at least one digit before the point, and only digits.
    pub open spec fn wf(self) -> bool {
        &&& self.whole.len() >= 1
        &&& all_digits(self.whole)
        &&& all_digits(self.fraction)
    }

    /// All digits read as one natural number.
    pub open spec fn mantissa(self) -> nat {
        digits_value(self.whole + self.fraction)
    }

    /// The number of digits after the point.
    pub open spec fn scale(self) -> nat {
        self.fraction.len()
    }

    /// The number written out: the digits before the point and, where there
    /// are digits after it, a point and those digits.
    pub open spec fn text(self) -> Seq<char> {
        if self.fraction.len() == 0 {
            digits_text(self.whole)
        } else {
            digits_text(self.whole) + seq!['.'] + digits_text(self.fraction)
        }
    }
}

impl View for Decimal {
    type V = DecimalModel;

    closed spec fn view(&self) -> DecimalModel {
        DecimalModel { whole: self.whole@, fraction: self.fraction@ }
    }
}

impl Clone for Decimal {
    fn clone(&self) -> (res: Self)
        ensures
            res@ == self@,
    {
        proof {
            use_type_invariant(self);
        }
        Decimal { whole: self.whole.clone(), fraction: self.fraction.clone() }
    }
}

impl Decimal {
    #[verifier::type_invariant]
    spec fn inv(self) -> bool {
        self@.wf()
    }

    /// Makes a number from its digits; `None` unless there is a digit before
    /// the point and every element is at most 9.
    pub fn new(whole: Vec<u8>, fraction: Vec<u8>) -> (res: Option<Decimal>)
        ensures
            res is Some <==> (DecimalModel { whole: whole@, fraction: fraction@ }).wf(),
            res is Some ==> res->0@ == (DecimalModel { whole: whole@, fraction: fraction@ }),
    {
        if whole.len() >= 1 && only_digits(&whole) && only_digits(&fraction) {
            Some(Decimal { whole, fraction })
        } else {
            None
        }
    }

    /// The digits before the point.
    pub fn whole(&self) -> (res: &Vec<u8>)
        ensures
            res@ == self@.whole,
            self@.wf(),
    {
        proof {
            use_type_invariant(self);
        }
        &self.whole
    }

    /// The digits after the point.
    pub fn fraction(&self) -> (res: &Vec<u8>)
        ensures
            res@ == self@.fraction,
            self@.wf(),
    {
        proof {
            use_type_invariant(self);
        }
        &self.fraction
    }

    /// The number written out in decimal.
    pub fn to_text(&self) -> (res: String)
        ensures
            res@ == self@.text(),
    {
        let mut s = digits_to_string(&self.whole);
        if self.fraction.len() > 0 {
            s.push('.');
            let f = digits_to_string(&self.fraction);
            s.append(f.as_str());
        }
        s
    }
}

/// Whether every element is at most 9.
pub fn only_digits(ds: &Vec<u8>) -> (res: bool)
    ensures
        res == all_digits(ds@),
{
    let mut i: usize = 0;
    while i < ds.len()
        invariant
            i <= ds@.len(),
            forall|j: int| 0 <= j < i ==> #[trigger] ds@[j] <= 9,
        decreases ds@.len() - i,
    {
        if ds[i] > 9 {
            return false;
        }
        i = i + 1;
    }
    true
}

/// The kinds of token.
#[derive(PartialEq, Debug)]
pub enum TokenType {
    // Single-character tokens.
    LeftParen,
    RightParen,
    LeftBrace,
    RightBrace,
    Comma,
    Dot,
    Minus,
    Plus,
    Semicolon,
    Slash,
    Star,
    // One or two character tokens.
    Bang,
    BangEqual,
    Equal,
    EqualEqual,
    Greater,
    GreaterEqual,
    Less,
    LessEqual,
    // Literals, each with its decoded value.
    Identifier(String),
    Str(String),
    Number(Decimal),
    // Reserved words.
    And,
    Class,
    Else,
    False,
    Fun,
    For,
    If,
    Nil,
    Or,
    Print,
    Return,
    Super,
    This,
    True,
    Var,
    While,
    // End of input.
    Eof,
}

/// A kind of token with the value it carries, as plain mathematical data.
pub enum TokenKind {
    // Single-character tokens.
    LeftParen,
    RightParen,
    LeftBrace,
    RightBrace,
    Comma,
    Dot,
    Minus,
    Plus,
    Semicolon,
    Slash,
    Star,
    // One or two character tokens.
    Bang,
    BangEqual,
    Equal,
    EqualEqual,
    Greater,
    GreaterEqual,
    Less,
    LessEqual,
    // Literals, each with its decoded value.
    Identifier(Seq<char>),
    Str(Seq<char>),
    Number(DecimalModel),
    // Reserved words.
    And,
    Class,
    Else,
    False,
    Fun,
    For,
    If,
    Nil,
    Or,
    Print,
    Return,
    Super,
    This,
    True,
    Var,
    While,
    // End of input.
    Eof,
}

impl View for TokenType {
    type V = TokenKind;

    open spec fn view(&self) -> TokenKind {
        match self {
            TokenType::Identifier(s) => TokenKind::Identifier(s@),
            TokenType::Str(s) => TokenKind::Str(s@),
            TokenType::Number(n) => TokenKind::Number(n@),
            TokenType::LeftParen => TokenKind::LeftParen,
            TokenType::RightParen => TokenKind::RightParen,
            TokenType::LeftBrace => TokenKind::LeftBrace,
            TokenType::RightBrace => TokenKind::RightBrace,
            TokenType::Comma => TokenKind::Comma,
            TokenType::Dot => TokenKind::Dot,
            TokenType::Minus => TokenKind::Minus,
            TokenType::Plus => TokenKind::Plus,
            TokenType::Semicolon => TokenKind::Semicolon,
            TokenType::Slash => TokenKind::Slash,
            TokenType::Star => TokenKind::Star,
            TokenType::Bang => TokenKind::Bang,
            TokenType::BangEqual => TokenKind::BangEqual,
            TokenType::Equal => TokenKind::Equal,
            TokenType::EqualEqual => TokenKind::EqualEqual,
            TokenType::Greater => TokenKind::Greater,
            TokenType::GreaterEqual => TokenKind::GreaterEqual,
            TokenType::Less => TokenKind::Less,
            TokenType::LessEqual => TokenKind::LessEqual,
            TokenType::And => TokenKind::And,
            TokenType::Class => TokenKind::Class,
            TokenType::Else => TokenKind::Else,
            TokenType::False => TokenKind::False,
            TokenType::Fun => TokenKind::Fun,
            TokenType::For => TokenKind::For,
            TokenType::If => TokenKind::If,
            TokenType::Nil => TokenKind::Nil,
            TokenType::Or => TokenKind::Or,
            TokenType::Print => TokenKind::Print,
            TokenType::Return => TokenKind::Return,
            TokenType::Super => TokenKind::Super,
            TokenType::This => TokenKind::This,
            TokenType::True => TokenKind::True,
            TokenType::Var => TokenKind::Var,
            TokenType::While => TokenKind::While,
            TokenType::Eof => TokenKind::Eof,
        }
    }
}

impl Clone for TokenType {
    fn clone(&self) -> (res: Self)
        ensures
            res@ == self@,
    {
        match self {
            TokenType::Identifier(s) => TokenType::Identifier(s.clone()),
            TokenType::Str(s) => TokenType::Str(s.clone()),
            TokenType::Number(n) => TokenType::Number(n.clone()),
            TokenType::LeftParen => TokenType::LeftParen,
            TokenType::RightParen => TokenType::RightParen,
            TokenType::LeftBrace => TokenType::LeftBrace,
            TokenType::RightBrace => TokenType::RightBrace,
            TokenType::Comma => TokenType::Comma,
            TokenType::Dot => TokenType::Dot,
            TokenType::Minus => TokenType::Minus,
            TokenType::Plus => TokenType::Plus,
            TokenType::Semicolon => TokenType::Semicolon,
            TokenType::Slash => TokenType::Slash,
            TokenType::Star => TokenType::Star,
            TokenType::Bang => TokenType::Bang,
            TokenType::BangEqual => TokenType::BangEqual,
            TokenType::Equal => TokenType::Equal,
            TokenType::EqualEqual => TokenType::EqualEqual,
            TokenType::Greater => TokenType::Greater,
            TokenType::GreaterEqual => TokenType::GreaterEqual,
            TokenType::Less => TokenType::Less,
            TokenType::LessEqual => TokenType::LessEqual,
            TokenType::And => TokenType::And,
            TokenType::Class => TokenType::Class,
            TokenType::Else => TokenType::Else,
            TokenType::False => TokenType::False,
            TokenType::Fun => TokenType::Fun,
            TokenType::For => TokenType::For,
            TokenType::If => TokenType::If,
            TokenType::Nil => TokenType::Nil,
            TokenType::Or => TokenType::Or,
            TokenType::Print => TokenType::Print,
            TokenType::Return => TokenType::Return,
            TokenType::Super => TokenType::Super,
            TokenType::This => TokenType::This,
            TokenType::True => TokenType::True,
            TokenType::Var => TokenType::Var,
            TokenType::While => TokenType::While,
            TokenType::Eof => TokenType::Eof,
        }
    }
}

/// The text that names a kind: the characters of a punctuation mark or an
/// operator, the upper-case word of a reserved word, and for a literal its
/// class with the decoded value in parentheses.
pub open spec fn kind_text(kind: TokenKind) -> Seq<char> {
    match kind {
        TokenKind::Identifier(s) => "ID("@ + s + ")"@,
        TokenKind::Str(s) => "STRING("@ + s + ")"@,
        TokenKind::Number(n) => "NUM("@ + n.text() + ")"@,
        TokenKind::LeftParen => "("@,
        TokenKind::RightParen => ")"@,
        TokenKind::LeftBrace => "{"@,
        TokenKind::RightBrace => "}"@,
        TokenKind::Comma => ","@,
        TokenKind::Dot => "."@,
        TokenKind::Minus => "-"@,
        TokenKind::Plus => "+"@,
        TokenKind::Semicolon => ";"@,
        TokenKind::Slash => "/"@,
        TokenKind::Star => "*"@,
        TokenKind::Bang => "!"@,
        TokenKind::BangEqual => "!="@,
        TokenKind::Equal => "="@,
        TokenKind::EqualEqual => "=="@,
        TokenKind::Greater => ">"@,
        TokenKind::GreaterEqual => ">="@,
        TokenKind::Less => "<"@,
        TokenKind::LessEqual => "<="@,
        TokenKind::And => "AND"@,
        TokenKind::Class => "CLASS"@,
        TokenKind::Else => "ELSE"@,
        TokenKind::False => "FALSE"@,
        TokenKind::Fun => "FUN"@,
        TokenKind::For => "FOR"@,
        TokenKind::If => "IF"@,
        TokenKind::Nil => "NIL"@,
        TokenKind::Or => "OR"@,
        TokenKind::Print => "PRINT"@,
        TokenKind::Return => "RETURN"@,
        TokenKind::Super => "SUPER"@,
        TokenKind::This => "THIS"@,
        TokenKind::True => "TRUE"@,
        TokenKind::Var => "VAR"@,
        TokenKind::While => "WHILE"@,
        TokenKind::Eof => "EOF"@,
    }
}

/// The decoded value of a literal written out; empty for every other kind.
pub open spec fn literal_text(kind: TokenKind) -> Seq<char> {
    match kind {
        TokenKind::Identifier(s) => s,
        TokenKind::Str(s) => s,
        TokenKind::Number(n) => n.text(),
        _ => Seq::<char>::empty(),
    }
}

impl TokenKind {
    /// The numbers inside are well formed.
    pub open spec fn wf(self) -> bool {
        match self {
            TokenKind::Number(n) => n.wf(),
            _ => true,
        }
    }
}

impl TokenType {
    /// The text that names this kind.
    pub fn to_text(&self) -> (res: String)
        ensures
            res@ == kind_text(self@),
    {
        match self {
            TokenType::Identifier(s) => {
                let mut r = String::from_str("ID(");
                r.append(s.as_str());
                r.append(")");
                r
            },
            TokenType::Str(s) => {
                let mut r = String::from_str("STRING(");
                r.append(s.as_str());
                r.append(")");
                r
            },
            TokenType::Number(n) => {
                let mut r = String::from_str("NUM(");
                let t = n.to_text();
                r.append(t.as_str());
                r.append(")");
                r
            },
            TokenType::LeftParen => String::from_str("("),
            TokenType::RightParen => String::from_str(")"),
            TokenType::LeftBrace => String::from_str("{"),
            TokenType::RightBrace => String::from_str("}"),
            TokenType::Comma => String::from_str(","),
            TokenType::Dot => String::from_str("."),
            TokenType::Minus => String::from_str("-"),
            TokenType::Plus => String::from_str("+"),
            TokenType::Semicolon => String::from_str(";"),
            TokenType::Slash => String::from_str("/"),
            TokenType::Star => String::from_str("*"),
            TokenType::Bang => String::from_str("!"),
            TokenType::BangEqual => String::from_str("!="),
            TokenType::Equal => String::from_str("="),
            TokenType::EqualEqual => String::from_str("=="),
            TokenType::Greater => String::from_str(">"),
            TokenType::GreaterEqual => String::from_str(">="),
            TokenType::Less => String::from_str("<"),
            TokenType::LessEqual => String::from_str("<="),
            TokenType::And => String::from_str("AND"),
            TokenType::Class => String::from_str("CLASS"),
            TokenType::Else => String::from_str("ELSE"),
            TokenType::False => String::from_str("FALSE"),
            TokenType::Fun => String::from_str("FUN"),
            TokenType::For => String::from_str("FOR"),
            TokenType::If => String::from_str("IF"),
            TokenType::Nil => String::from_str("NIL"),
            TokenType::Or => String::from_str("OR"),
            TokenType::Print => String::from_str("PRINT"),
            TokenType::Return => String::from_str("RETURN"),
            TokenType::Super => String::from_str("SUPER"),
            TokenType::This => String::from_str("THIS"),
            TokenType::True => String::from_str("TRUE"),
            TokenType::Var => String::from_str("VAR"),
            TokenType::While => String::from_str("WHILE"),
            TokenType::Eof => String::from_str("EOF"),
        }
    }

    /// The decoded value of a literal written out; empty for every other kind.
    pub fn literal_to_text(&self) -> (res: String)
        ensures
            res@ == literal_text(self@),
    {
        match self {
            TokenType::Identifier(s) => s.clone(),
            TokenType::Str(s) => s.clone(),
            TokenType::Number(n) => n.to_text(),
            _ => String::new(),
        }
    }
}

/// One lexical unit: its kind, the text it was read from, and the line on
/// which its last character stands.
#[derive(PartialEq, Debug)]
pub struct Token {
    token_type: TokenType,
    lexeme: String,
    line: usize,
}

/// A token as plain mathematical data.
pub struct TokenModel {
    pub kind: TokenKind,
    pub lexeme: Seq<char>,
    pub line: nat,
}

impl View for Token {
    type V = TokenModel;

    closed spec fn view(&self) -> TokenModel {
        TokenModel { kind: self.token_type@, lexeme: self.lexeme@, line: self.line as nat }
    }
}

impl Clone for Token {
    fn clone(&self) -> (res: Self)
        ensures
            res@ == self@,
    {
        proof {
            use_type_invariant(self);
        }
        Token { token_type: self.token_type.clone(), lexeme: self.lexeme.clone(), line: self.line }
    }
}

/// The debugging form of a token: the kind's text, the lexeme and the
/// literal's value, separated by single spaces.
pub open spec fn token_text(t: TokenModel) -> Seq<char> {
    kind_text(t.kind) + " "@ + t.lexeme + " "@ + literal_text(t.kind)
}

impl Token {
    #[verifier::type_invariant]
    spec fn inv(self) -> bool {
        self.line >= 1
    }

    /// A token of the given kind, read from `lexeme`, on line `line`, where
    /// lines are counted from 1.
    pub fn new(token_type: TokenType, lexeme: String, line: usize) -> (res: Self)
        requires
            line >= 1,
        ensures
            res@ == (TokenModel { kind: token_type@, lexeme: lexeme@, line: line as nat }),
    {
        Self { token_type, lexeme, line }
    }

    /// The kind of the token, with the literal's value.
    pub fn token_type(&self) -> (res: &TokenType)
        ensures
            res@ == self@.kind,
    {
        &self.token_type
    }

    /// The text the token was read from.
    pub fn lexeme(&self) -> (res: &String)
        ensures
            res@ == self@.lexeme,
    {
        &self.lexeme
    }

    /// The line on which the token's last character stands.
    pub fn line(&self) -> (res: usize)
        ensures
            res as nat == self@.line,
            res >= 1,
    {
        proof {
            use_type_invariant(self);
        }
        self.line
    }

    /// The debugging form of the token.
    pub fn to_text(&self) -> (res: String)
        ensures
            res@ == token_text(self@),
    {
        let mut r = self.token_type.to_text();
        r.append(" ");
        r.append(self.lexeme.as_str());
        r.append(" ");
        let l = self.token_type.literal_to_text();
        r.append(l.as_str());
        r
    }
}

/// The views of a sequence of tokens, in order.
pub open spec fn token_views(ts: Seq<Token>) -> Seq<TokenModel> {
    Seq::new(ts.len(), |i: int| ts[i]@)
}

} // verus!
