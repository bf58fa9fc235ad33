//! The lexical grammar: what scanning a source text yields, stated over
//! sequences of characters.

use vstd::prelude::*;
use crate::lox::ReportModel;
use crate::token::DecimalModel;
use crate::token::TokenKind;
use crate::token::TokenModel;

verus! {

/// Whether `c` is one of the decimal digits `0` to `9`.
pub open spec fn is_digit(c: char) -> bool {
    '0' <= c && c <= '9'
}

/// The value of a decimal digit; 0 for any other character.
pub open spec fn digit_of(c: char) -> u8 {
    if c == '1' {
        1
    } else if c == '2' {
        2
    } else if c == '3' {
        3
    } else if c == '4' {
        4
    } else if c == '5' {
        5
    } else if c == '6' {
        6
    } else if c == '7' {
        7
    } else if c == '8' {
        8
    } else if c == '9' {
        9
    } else {
        0
    }
}

/// The character at index `i`, or the null character outside the text.
pub open spec fn char_at(src: Seq<char>, i: int) -> char {
    if 0 <= i < src.len() {
        src[i]
    } else {
        '\0'
    }
}

/// The first index at or after `pos` that holds a newline, or the end of
/// the text.
pub open spec fn line_end(src: Seq<char>, pos: int) -> int
    decreases src.len() - pos,
{
    if 0 <= pos < src.len() && src[pos] != '\n' {
        line_end(src, pos + 1)
    } else {
        pos
    }
}

/// The first index at or after `pos` that holds no digit, or the end of
/// the text.
pub open spec fn digits_end(src: Seq<char>, pos: int) -> int
    decreases src.len() - pos,
{
    if 0 <= pos < src.len() && is_digit(src[pos]) {
        digits_end(src, pos + 1)
    } else {
        pos
    }
}

/// The first index at or after `pos` that holds a double quote, or the end
/// of the text.
pub open spec fn quote_pos(src: Seq<char>, pos: int) -> int
    decreases src.len() - pos,
{
    if 0 <= pos < src.len() && src[pos] != '"' {
        quote_pos(src, pos + 1)
    } else {
        pos
    }
}

/// The number of newlines among the characters `src[from..to]`.
pub open spec fn newlines(src: Seq<char>, from: int, to: int) -> nat
    decreases to - from,
{
    if from < to {
        newlines(src, from, to - 1) + if char_at(src, to - 1) == '\n' {
            1nat
        } else {
            0nat
        }
    } else {
        0
    }
}

/// The digit values of the characters `src[from..to]`.
pub open spec fn digit_values(src: Seq<char>, from: int, to: int) -> Seq<u8> {
    Seq::new((to - from) as nat, |i: int| digit_of(char_at(src, from + i)))
}

/// The kind of a character that is a token by itself whatever follows it.
pub open spec fn fixed_kind(c: char) -> Option<TokenKind> {
    if c == '(' {
        Some(TokenKind::LeftParen)
    } else if c == ')' {
        Some(TokenKind::RightParen)
    } else if c == '{' {
        Some(TokenKind::LeftBrace)
    } else if c == '}' {
        Some(TokenKind::RightBrace)
    } else if c == ',' {
        Some(TokenKind::Comma)
    } else if c == '.' {
        Some(TokenKind::Dot)
    } else if c == '-' {
        Some(TokenKind::Minus)
    } else if c == '+' {
        Some(TokenKind::Plus)
    } else if c == ';' {
        Some(TokenKind::Semicolon)
    } else if c == '*' {
        Some(TokenKind::Star)
    } else {
        None
    }
}

/// The kind of an operator that may be followed by `=`: with it, the
/// two-character kind, alone, the one-character kind.
pub open spec fn operator_kind(c: char, with_equal: bool) -> Option<TokenKind> {
    if c == '!' {
        Some(if with_equal { TokenKind::BangEqual } else { TokenKind::Bang })
    } else if c == '=' {
        Some(if with_equal { TokenKind::EqualEqual } else { TokenKind::Equal })
    } else if c == '<' {
        Some(if with_equal { TokenKind::LessEqual } else { TokenKind::Less })
    } else if c == '>' {
        Some(if with_equal { TokenKind::GreaterEqual } else { TokenKind::Greater })
    } else {
        None
    }
}

/// The message for a character that starts no token.
pub open spec fn unexpected_character(c: char) -> Seq<char> {
    "Unexpected character "@.push(c) + "."@
}

/// The message for a string that is still open at the end of the text.
pub open spec fn unterminated_string() -> Seq<char> {
    "Unterminated string."@
}

/// The message for a number literal that has no value.
pub open spec fn invalid_decimal_literal() -> Seq<char> {
    "Invalid decimal literal."@
}

/// The outcome of one scanning step: where the cursor stands afterwards, the
/// line in effect there, and the token or the error that the step gave.
pub struct Step {
    pub next: int,
    pub line: nat,
    pub token: Option<TokenModel>,
    pub error: Option<ReportModel>,
}

/// A step that yields the token of kind `kind` read from `src[pos..next]`.
pub open spec fn emit(src: Seq<char>, pos: int, next: int, kind: TokenKind, line: nat) -> Step {
    Step {
        next,
        line,
        token: Some(TokenModel { kind, lexeme: src.subrange(pos, next), line }),
        error: None,
    }
}

/// A step that yields nothing.
pub open spec fn pass(next: int, line: nat) -> Step {
    Step { next, line, token: None, error: None }
}

/// A step that reports an error on `line` and yields no token.
pub open spec fn fail(next: int, line: nat, message: Seq<char>) -> Step {
    Step {
        next,
        line,
        token: None,
        error: Some(ReportModel { line, hint: Seq::<char>::empty(), message }),
    }
}

/// The step for a string literal whose opening quote stands at `pos`.
///
/// The literal runs to the next quote and may span lines. Its value is the
/// text between the quotes, its line that of the closing quote. Without a
/// closing quote the step consumes the rest of the text and reports an error.
pub open spec fn string_step(src: Seq<char>, pos: int, line: nat) -> Step {
    let close = quote_pos(src, pos + 1);
    let last_line = line + newlines(src, pos + 1, close);
    if close >= src.len() {
        fail(close, last_line, unterminated_string())
    } else {
        emit(src, pos, close + 1, TokenKind::Str(src.subrange(pos + 1, close)), last_line)
    }
}

/// The step for a number literal whose first digit stands at `pos`.
///
/// The literal is the longest run of digits and, where a point and a digit
/// follow it, the point and the longest run of digits after it.
pub open spec fn number_step(src: Seq<char>, pos: int, line: nat) -> Step {
    let whole_end = digits_end(src, pos);
    let whole = digit_values(src, pos, whole_end);
    if char_at(src, whole_end) == '.' && is_digit(char_at(src, whole_end + 1)) {
        let end = digits_end(src, whole_end + 1);
        let fraction = digit_values(src, whole_end + 1, end);
        emit(src, pos, end, TokenKind::Number(DecimalModel { whole, fraction }), line)
    } else {
        emit(
            src,
            pos,
            whole_end,
            TokenKind::Number(DecimalModel { whole, fraction: Seq::<u8>::empty() }),
            line,
        )
    }
}

/// The step that starts at `pos`, an index into the text, on line `line`.
pub open spec fn step(src: Seq<char>, pos: int, line: nat) -> Step {
    let c = char_at(src, pos);
    let with_equal = char_at(src, pos + 1) == '=';
    if fixed_kind(c) is Some {
        emit(src, pos, pos + 1, fixed_kind(c)->0, line)
    } else if operator_kind(c, with_equal) is Some {
        emit(src, pos, if with_equal { pos + 2 } else { pos + 1 }, operator_kind(c, with_equal)->0, line)
    } else if c == '/' {
        if char_at(src, pos + 1) == '/' {
            pass(line_end(src, pos + 2), line)
        } else {
            emit(src, pos, pos + 1, TokenKind::Slash, line)
        }
    } else if c == ' ' || c == '\r' || c == '\t' {
        pass(pos + 1, line)
    } else if c == '\n' {
        pass(pos + 1, line + 1)
    } else if c == '"' {
        string_step(src, pos, line)
    } else if is_digit(c) {
        number_step(src, pos, line)
    } else {
        fail(pos + 1, line, unexpected_character(c))
    }
}

/// `s` with the element of `o`, if there is one, in front.
pub open spec fn with_front<T>(o: Option<T>, s: Seq<T>) -> Seq<T> {
    match o {
        Some(x) => seq![x] + s,
        None => s,
    }
}

/// `s` with the element of `o`, if there is one, at the end.
pub open spec fn with_back<T>(s: Seq<T>, o: Option<T>) -> Seq<T> {
    match o {
        Some(x) => s.push(x),
        None => s,
    }
}

/// What a scan yields: the tokens and the errors in the order found, the
/// line on which the scan ended, and where its last step started.
pub struct Scan {
    pub tokens: Seq<TokenModel>,
    pub errors: Seq<ReportModel>,
    pub line: nat,
    pub start: int,
}

/// The scan of `src` from index `pos` on line `line` to the end of the text,
/// one step after the other. `start` is where the step before `pos` started.
pub open spec fn scan_from(src: Seq<char>, start: int, pos: int, line: nat) -> Scan
    decreases src.len() - pos,
    via scan_from_decreases
{
    if 0 <= pos < src.len() {
        let st = step(src, pos, line);
        let rest = scan_from(src, pos, st.next, st.line);
        Scan {
            tokens: with_front(st.token, rest.tokens),
            errors: with_front(st.error, rest.errors),
            line: rest.line,
            start: rest.start,
        }
    } else {
        Scan { tokens: Seq::<TokenModel>::empty(), errors: Seq::<ReportModel>::empty(), line, start }
    }
}

#[via_fn]
proof fn scan_from_decreases(src: Seq<char>, start: int, pos: int, line: nat) {
    if 0 <= pos < src.len() {
        lemma_step_advances(src, pos, line);
    }
}

/// The token that ends every scan.
pub open spec fn end_of_input(line: nat) -> TokenModel {
    TokenModel { kind: TokenKind::Eof, lexeme: Seq::<char>::empty(), line }
}

/// The scan of a whole text: the tokens of its steps and then the token
/// that marks the end of input, on the line where the scan ended.
pub open spec fn scan(src: Seq<char>) -> Scan {
    let body = scan_from(src, 0, 0, 1);
    Scan { tokens: body.tokens.push(end_of_input(body.line)), ..body }
}

/// A run of characters other than newlines ends at or after its start and
/// within the text.
pub proof fn lemma_line_end_bounds(src: Seq<char>, pos: int)
    requires
        0 <= pos <= src.len(),
    ensures
        pos <= line_end(src, pos) <= src.len(),
        forall|i: int| pos <= i < line_end(src, pos) ==> src[i] != '\n',
        line_end(src, pos) < src.len() ==> src[line_end(src, pos)] == '\n',
    decreases src.len() - pos,
{
    if pos < src.len() && src[pos] != '\n' {
        lemma_line_end_bounds(src, pos + 1);
    }
}

/// A run of digits ends at or after its start and within the text.
pub proof fn lemma_digits_end_bounds(src: Seq<char>, pos: int)
    requires
        0 <= pos <= src.len(),
    ensures
        pos <= digits_end(src, pos) <= src.len(),
        forall|i: int| pos <= i < digits_end(src, pos) ==> is_digit(src[i]),
        digits_end(src, pos) < src.len() ==> !is_digit(src[digits_end(src, pos)]),
    decreases src.len() - pos,
{
    if pos < src.len() && is_digit(src[pos]) {
        lemma_digits_end_bounds(src, pos + 1);
    }
}

/// The search for a quote ends at or after its start and within the text.
pub proof fn lemma_quote_pos_bounds(src: Seq<char>, pos: int)
    requires
        0 <= pos <= src.len(),
    ensures
        pos <= quote_pos(src, pos) <= src.len(),
        forall|i: int| pos <= i < quote_pos(src, pos) ==> src[i] != '"',
        quote_pos(src, pos) < src.len() ==> src[quote_pos(src, pos)] == '"',
    decreases src.len() - pos,
{
    if pos < src.len() && src[pos] != '"' {
        lemma_quote_pos_bounds(src, pos + 1);
    }
}

/// There are at most as many newlines in a range as it has characters.
pub proof fn lemma_newlines_bound(src: Seq<char>, from: int, to: int)
    requires
        from <= to,
    ensures
        newlines(src, from, to) <= to - from,
    decreases to - from,
{
    if from < to {
        lemma_newlines_bound(src, from, to - 1);
    }
}

/// Every step consumes at least one character and stays within the text,
/// and the line does not run ahead of the cursor.
pub proof fn lemma_step_advances(src: Seq<char>, pos: int, line: nat)
    requires
        0 <= pos < src.len(),
    ensures
        pos < step(src, pos, line).next <= src.len(),
        line <= step(src, pos, line).line,
        step(src, pos, line).line - line <= step(src, pos, line).next - pos,
{
    lemma_line_end_bounds(src, pos + 1);
    if pos + 2 <= src.len() {
        lemma_line_end_bounds(src, pos + 2);
    }
    lemma_digits_end_bounds(src, pos);
    lemma_quote_pos_bounds(src, pos + 1);
    lemma_newlines_bound(src, pos + 1, quote_pos(src, pos + 1));
    let whole_end = digits_end(src, pos);
    if whole_end + 1 <= src.len() {
        lemma_digits_end_bounds(src, whole_end + 1);
    }
}

} // verus!
