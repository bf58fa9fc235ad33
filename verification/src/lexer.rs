//! The scanner: one left-to-right pass over a source text that yields its
//! tokens and reports its lexical errors.

use vstd::prelude::*;
use vstd::string::StringExecFns;
use crate::grammar::char_at;
use crate::grammar::digit_of;
use crate::grammar::digit_values;
use crate::grammar::digits_end;
use crate::grammar::end_of_input;
use crate::grammar::invalid_decimal_literal;
use crate::grammar::is_digit;
use crate::grammar::lemma_step_advances;
use crate::grammar::line_end;
use crate::grammar::newlines;
use crate::grammar::number_step;
use crate::grammar::quote_pos;
use crate::grammar::scan;
use crate::grammar::scan_from;
use crate::grammar::step;
use crate::grammar::string_step;
use crate::grammar::unexpected_character;
use crate::grammar::unterminated_string;
use crate::grammar::with_back;
use crate::grammar::with_front;
use crate::grammar::Step;
use crate::lox::Lox;
use crate::lox::ReportModel;
use crate::text::decode;
use crate::text::slice_to_string;
use crate::token::token_views;
use crate::token::Decimal;
use crate::token::TokenModel;
pub use crate::token::Token;
pub use crate::token::TokenType;

verus! {

/// The message for a character that starts no token.
pub fn unexpected_character_message(c: char) -> (res: String)
    ensures
        res@ == unexpected_character(c),
{
    let mut res = String::from_str("Unexpected character ");
    res.push(c);
    res.append(".");
    res
}

/// The message for a string that is still open at the end of the text.
pub fn unterminated_string_message() -> (res: String)
    ensures
        res@ == unterminated_string(),
{
    String::from_str("Unterminated string.")
}

/// The message for a number literal that has no value.
pub fn invalid_decimal_message() -> (res: String)
    ensures
        res@ == invalid_decimal_literal(),
{
    String::from_str("Invalid decimal literal.")
}

/// The value of a decimal digit; 0 for any other character.
pub fn digit_value(c: char) -> (d: u8)
    ensures
        d == digit_of(c),
{
    match c {
        '1' => 1,
        '2' => 2,
        '3' => 3,
        '4' => 4,
        '5' => 5,
        '6' => 6,
        '7' => 7,
        '8' => 8,
        '9' => 9,
        _ => 0,
    }
}

/// The digit values of the characters `chars[from..to]`.
fn digits_between(chars: &Vec<char>, from: usize, to: usize) -> (ds: Vec<u8>)
    requires
        from <= to <= chars@.len(),
    ensures
        ds@ == digit_values(chars@, from as int, to as int),
{
    let mut ds: Vec<u8> = Vec::new();
    let mut i: usize = from;
    while i < to
        invariant
            from <= i <= to <= chars@.len(),
            ds@ == digit_values(chars@, from as int, i as int),
        decreases to - i,
    {
        ds.push(digit_value(chars[i]));
        i = i + 1;
        proof {
            assert(ds@ =~= digit_values(chars@, from as int, i as int));
        }
    }
    ds
}

/// Scans one source text.
#[derive(Debug)]
pub struct Scanner {
    source: Vec<char>,
    tokens: Vec<Token>,
    start: usize,
    current: usize,
    line: usize,
    lox: Lox,
}

/// The state of a scanner as plain mathematical data.
pub struct ScannerModel {
    /// The text being scanned.
    pub source: Seq<char>,
    /// The tokens produced so far.
    pub tokens: Seq<TokenModel>,
    /// Where the lexeme being scanned starts.
    pub start: int,
    /// The next character to consume.
    pub current: int,
    /// The line on which the cursor stands, counted from 1.
    pub line: nat,
    /// The errors reported so far.
    pub errors: Seq<ReportModel>,
    /// Whether any error was reported.
    pub had_error: bool,
}

impl ScannerModel {
    /// The state before anything of `source` was scanned: both cursors at
    /// the start, on line 1, with nothing produced and nothing reported.
    pub open spec fn initial(source: Seq<char>) -> ScannerModel {
        ScannerModel {
            source,
            tokens: Seq::<TokenModel>::empty(),
            start: 0,
            current: 0,
            line: 1,
            errors: Seq::<ReportModel>::empty(),
            had_error: false,
        }
    }

    /// The cursors lie in order within the text, and the line counter starts
    /// at 1 and counts no more newlines than characters were consumed.
    pub open spec fn wf(self) -> bool {
        &&& 0 <= self.start <= self.current <= self.source.len() < usize::MAX
        &&& 1 <= self.line <= self.current + 1
    }

    /// The state after a step with outcome `st`.
    pub open spec fn after(self, st: Step) -> ScannerModel {
        ScannerModel {
            current: st.next,
            line: st.line,
            tokens: with_back(self.tokens, st.token),
            errors: with_back(self.errors, st.error),
            had_error: self.had_error || st.error is Some,
            ..self
        }
    }
}

impl View for Scanner {
    type V = ScannerModel;

    closed spec fn view(&self) -> ScannerModel {
        ScannerModel {
            source: self.source@,
            tokens: token_views(self.tokens@),
            start: self.start as int,
            current: self.current as int,
            line: self.line as nat,
            errors: self.lox.log(),
            had_error: self.lox.had_error,
        }
    }
}

impl Default for Scanner {
    /// A scanner of the empty text.
    fn default() -> (s: Self)
        ensures
            s@.wf(),
            s@ == ScannerModel::initial(Seq::<char>::empty()),
    {
        let s = Scanner {
            source: Vec::new(),
            tokens: Vec::new(),
            start: 0,
            current: 0,
            line: 1,
            lox: Lox::default(),
        };
        proof {
            assert(s@.tokens =~= Seq::<TokenModel>::empty());
        }
        s
    }
}

impl Scanner {
    /// A scanner at the start of `source`, on line 1, with nothing produced
    /// and nothing reported.
    pub fn new(source: String) -> (s: Self)
        requires
            source@.len() < usize::MAX,
        ensures
            s@.wf(),
            s@ == ScannerModel::initial(source@),
    {
        let s = Scanner {
            source: decode(source.as_str()),
            tokens: Vec::new(),
            start: 0,
            current: 0,
            line: 1,
            lox: Lox::default(),
        };
        proof {
            assert(s@.tokens =~= Seq::<TokenModel>::empty());
        }
        s
    }

    /// Scans from the cursor to the end of the text, then appends the token
    /// that marks the end of input. Returns all tokens produced so far: on a
    /// scanner that has not scanned yet, the scan of the whole text.
    ///
    /// Errors are reported and do not stop the scan.
    pub fn scan_tokens(&mut self) -> (res: Vec<Token>)
        requires
            old(self)@.wf(),
        ensures
            final(self)@.wf(),
            ({
                let before = old(self)@;
                let rest = scan_from(before.source, before.start, before.current, before.line);
                final(self)@ == (ScannerModel {
                    tokens: (before.tokens + rest.tokens).push(end_of_input(rest.line)),
                    errors: before.errors + rest.errors,
                    had_error: before.had_error || rest.errors.len() > 0,
                    start: rest.start,
                    current: before.source.len() as int,
                    line: rest.line,
                    source: before.source,
                })
            }),
            token_views(res@) == final(self)@.tokens,
            old(self)@ == ScannerModel::initial(old(self)@.source) ==> {
                let whole = scan(old(self)@.source);
                &&& token_views(res@) == whole.tokens
                &&& final(self)@.errors == whole.errors
                &&& final(self)@.had_error == (whole.errors.len() > 0)
                &&& final(self)@.line == whole.line
                &&& final(self)@.start == whole.start
            },
    {
        let ghost before = self@;
        let ghost total = scan_from(before.source, before.start, before.current, before.line);
        while !self.is_at_end()
            invariant
                self@.wf(),
                self@.source == before.source,
                ({
                    let rest = scan_from(self@.source, self@.start, self@.current, self@.line);
                    &&& self@.tokens + rest.tokens == before.tokens + total.tokens
                    &&& self@.errors + rest.errors == before.errors + total.errors
                    &&& self@.had_error || rest.errors.len() > 0 <==> before.had_error
                        || total.errors.len() > 0
                    &&& rest.line == total.line
                    &&& rest.start == total.start
                }),
            decreases self@.source.len() - self@.current,
        {
            // We are at the beginning of the next lexeme.
            self.start = self.current;
            let ghost here = self@;
            let ghost st = step(here.source, here.current, here.line);
            let ghost rest = scan_from(here.source, here.current, st.next, st.line);
            self.scan_token();
            proof {
                lemma_step_advances(here.source, here.current, here.line);
                assert(self@.tokens + rest.tokens =~= here.tokens + with_front(
                    st.token,
                    rest.tokens,
                ));
                assert(self@.errors + rest.errors =~= here.errors + with_front(
                    st.error,
                    rest.errors,
                ));
            }
        }
        let ghost at_end = self@;
        self.tokens.push(Token::new(TokenType::Eof, String::new(), self.line));
        proof {
            assert(self@.tokens =~= at_end.tokens.push(end_of_input(at_end.line)));
        }
        let res = self.tokens.clone();
        proof {
            assert(token_views(res@) =~= self@.tokens);
            if before == ScannerModel::initial(before.source) {
                assert(before.tokens + total.tokens =~= total.tokens);
                assert(before.errors + total.errors =~= total.errors);
            }
        }
        res
    }

    /// Scans the one lexeme that starts at the cursor.
    fn scan_token(&mut self)
        requires
            old(self)@.wf(),
            old(self)@.start == old(self)@.current < old(self)@.source.len(),
        ensures
            final(self)@.wf(),
            final(self)@ == old(self)@.after(
                step(old(self)@.source, old(self)@.current, old(self)@.line),
            ),
    {
        proof {
            lemma_step_advances(self@.source, self@.current, self@.line);
        }
        let c: char = self.advance();
        match c {
            '(' => self.add_token(TokenType::LeftParen),
            ')' => self.add_token(TokenType::RightParen),
            '{' => self.add_token(TokenType::LeftBrace),
            '}' => self.add_token(TokenType::RightBrace),
            ',' => self.add_token(TokenType::Comma),
            '.' => self.add_token(TokenType::Dot),
            '-' => self.add_token(TokenType::Minus),
            '+' => self.add_token(TokenType::Plus),
            ';' => self.add_token(TokenType::Semicolon),
            '*' => self.add_token(TokenType::Star),
            '!' => {
                if self.match_next('=') {
                    self.add_token(TokenType::BangEqual);
                } else {
                    self.add_token(TokenType::Bang);
                }
            },
            '=' => {
                if self.match_next('=') {
                    self.add_token(TokenType::EqualEqual);
                } else {
                    self.add_token(TokenType::Equal);
                }
            },
            '<' => {
                if self.match_next('=') {
                    self.add_token(TokenType::LessEqual);
                } else {
                    self.add_token(TokenType::Less);
                }
            },
            '>' => {
                if self.match_next('=') {
                    self.add_token(TokenType::GreaterEqual);
                } else {
                    self.add_token(TokenType::Greater);
                }
            },
            '/' => {
                if self.match_next('/') {
                    // A comment goes until the end of the line.
                    while self.peek() != '\n' && !self.is_at_end()
                        invariant
                            self@.wf(),
                            self@ == (ScannerModel { current: self@.current, ..old(self)@ }),
                            old(self)@.current + 2 <= self@.current,
                            line_end(self@.source, self@.current) == line_end(
                                self@.source,
                                old(self)@.current + 2,
                            ),
                        decreases self@.source.len() - self@.current,
                    {
                        self.advance();
                    }
                } else {
                    self.add_token(TokenType::Slash);
                }
            },
            ' ' | '\r' | '\t' => {},
            '\n' => {
                self.line = self.line + 1;
            },
            '"' => self.string(),
            c => {
                if self.is_digit(c) {
                    self.number();
                } else {
                    self.lox.error(self.line, unexpected_character_message(c));
                }
            },
        }
    }

    /// Scans the rest of a number literal whose first digit was consumed.
    fn number(&mut self)
        requires
            old(self)@.wf(),
            old(self)@.start + 1 == old(self)@.current,
            is_digit(old(self)@.source[old(self)@.start]),
        ensures
            final(self)@.wf(),
            final(self)@ == old(self)@.after(
                number_step(old(self)@.source, old(self)@.start, old(self)@.line),
            ),
    {
        while self.is_digit(self.peek())
            invariant
                self@.wf(),
                self@ == (ScannerModel { current: self@.current, ..old(self)@ }),
                old(self)@.current <= self@.current,
                digits_end(self@.source, self@.current) == digits_end(
                    self@.source,
                    old(self)@.start,
                ),
            decreases self@.source.len() - self@.current,
        {
            self.advance();
        }
        let whole_end = self.current;
        let whole = digits_between(&self.source, self.start, whole_end);
        let mut fraction: Vec<u8> = Vec::new();

        // Look for a fractional part.
        if self.peek() == '.' && self.is_digit(self.peek_next()) {
            self.advance();

            while self.is_digit(self.peek())
                invariant
                    self@.wf(),
                    self@ == (ScannerModel { current: self@.current, ..old(self)@ }),
                    whole_end + 1 <= self@.current,
                    digits_end(self@.source, self@.current) == digits_end(
                        self@.source,
                        whole_end + 1,
                    ),
                decreases self@.source.len() - self@.current,
            {
                self.advance();
            }
            fraction = digits_between(&self.source, whole_end + 1, self.current);
        }
        match Decimal::new(whole, fraction) {
            Some(value) => self.add_token(TokenType::Number(value)),
            // Not reached: a literal starts with a digit and holds digits only.
            None => self.lox.error(self.line, invalid_decimal_message()),
        }
    }

    /// Scans the rest of a string literal whose opening quote was consumed.
    fn string(&mut self)
        requires
            old(self)@.wf(),
            old(self)@.start + 1 == old(self)@.current,
        ensures
            final(self)@.wf(),
            final(self)@ == old(self)@.after(
                string_step(old(self)@.source, old(self)@.start, old(self)@.line),
            ),
    {
        while self.peek() != '"' && !self.is_at_end()
            invariant
                self@.wf(),
                self@ == (ScannerModel {
                    current: self@.current,
                    line: self@.line,
                    ..old(self)@
                }),
                old(self)@.current <= self@.current,
                quote_pos(self@.source, self@.current) == quote_pos(
                    self@.source,
                    old(self)@.current,
                ),
                self@.line == old(self)@.line + newlines(
                    self@.source,
                    old(self)@.current,
                    self@.current,
                ),
                self@.line - old(self)@.line <= self@.current - old(self)@.current,
            decreases self@.source.len() - self@.current,
        {
            if self.peek() == '\n' {
                self.line = self.line + 1;
            }
            self.advance();
        }

        if self.is_at_end() {
            self.lox.error(self.line, unterminated_string_message());
            return ;
        }
        // The closing ".

        self.advance();

        // Trim the surrounding quotes.
        let value = slice_to_string(&self.source, self.start + 1, self.current - 1);
        self.add_token(TokenType::Str(value))
    }

    /// Consumes the next character if it is `expected`.
    fn match_next(&mut self, expected: char) -> (res: bool)
        requires
            old(self)@.wf(),
        ensures
            res == (char_at(old(self)@.source, old(self)@.current) == expected && old(self)@.current
                < old(self)@.source.len()),
            final(self)@ == (ScannerModel {
                current: if res {
                    old(self)@.current + 1
                } else {
                    old(self)@.current
                },
                ..old(self)@
            }),
    {
        if self.is_at_end() {
            return false;
        }
        if self.source[self.current] != expected {
            return false;
        }
        self.current = self.current + 1;
        true
    }

    /// The next character, or the null character at the end of the text.
    fn peek(&self) -> (c: char)
        requires
            self@.wf(),
        ensures
            c == char_at(self@.source, self@.current),
    {
        if self.is_at_end() {
            return '\0';
        }
        self.source[self.current]
    }

    /// The character after the next, or the null character past the end of
    /// the text.
    fn peek_next(&self) -> (c: char)
        requires
            self@.wf(),
        ensures
            c == char_at(self@.source, self@.current + 1),
    {
        if self.current + 1 >= self.source.len() {
            return '\0';
        }
        self.source[self.current + 1]
    }

    fn is_digit(&self, c: char) -> (res: bool)
        ensures
            res == is_digit(c),
    {
        c >= '0' && c <= '9'
    }

    fn is_at_end(&self) -> (res: bool)
        ensures
            res == (self@.current >= self@.source.len()),
    {
        self.current >= self.source.len()
    }

    /// Consumes the next character and returns it.
    fn advance(&mut self) -> (c: char)
        requires
            old(self)@.current < old(self)@.source.len() <= usize::MAX,
        ensures
            c == old(self)@.source[old(self)@.current],
            final(self)@ == (ScannerModel { current: old(self)@.current + 1, ..old(self)@ }),
    {
        let ch: char = self.source[self.current];
        self.current = self.current + 1;
        ch
    }

    /// Appends the token of the given kind whose lexeme runs from the start
    /// of the lexeme to the cursor.
    fn add_token(&mut self, token_type: TokenType)
        requires
            old(self)@.wf(),
        ensures
            final(self)@ == (ScannerModel {
                tokens: old(self)@.tokens.push(
                    TokenModel {
                        kind: token_type@,
                        lexeme: old(self)@.source.subrange(old(self)@.start, old(self)@.current),
                        line: old(self)@.line,
                    },
                ),
                ..old(self)@
            }),
    {
        let text = slice_to_string(&self.source, self.start, self.current);
        self.tokens.push(Token::new(token_type, text, self.line));
        proof {
            assert(final(self)@.tokens =~= old(self)@.tokens.push(
                TokenModel {
                    kind: token_type@,
                    lexeme: old(self)@.source.subrange(old(self)@.start, old(self)@.current),
                    line: old(self)@.line,
                },
            ));
        }
    }

    /// Where the lexeme last scanned starts.
    pub fn start(&self) -> (res: usize)
        ensures
            res == self@.start,
    {
        self.start
    }

    /// The index of the next character to consume.
    pub fn current(&self) -> (res: usize)
        ensures
            res == self@.current,
    {
        self.current
    }

    /// The line on which the cursor stands.
    pub fn line(&self) -> (res: usize)
        ensures
            res == self@.line,
    {
        self.line
    }

    /// The tokens produced so far.
    pub fn tokens(&self) -> (res: &Vec<Token>)
        ensures
            token_views(res@) == self@.tokens,
    {
        &self.tokens
    }

    /// The record of the errors reported so far.
    pub fn lox(&self) -> (res: &Lox)
        ensures
            res.log() == self@.errors,
            res.had_error == self@.had_error,
    {
        &self.lox
    }
}

} // verus!
