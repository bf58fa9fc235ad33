//! What holds of every scan.

use vstd::prelude::*;
use crate::grammar::digits_end;
use crate::grammar::end_of_input;
use crate::grammar::fixed_kind;
use crate::grammar::is_digit;
use crate::grammar::lemma_digits_end_bounds;
use crate::grammar::lemma_line_end_bounds;
use crate::grammar::lemma_quote_pos_bounds;
use crate::grammar::lemma_step_advances;
use crate::grammar::line_end;
use crate::grammar::newlines;
use crate::grammar::pass;
use crate::grammar::quote_pos;
use crate::grammar::scan;
use crate::grammar::scan_from;
use crate::grammar::step;
use crate::grammar::unterminated_string;
use crate::lox::ReportModel;
use crate::text::digits_text;
use crate::token::TokenKind;
use crate::token::TokenModel;

verus! {

/// Whether `c` is a token by itself: one of `( ) { } , . - + ; *` or `/`.
pub open spec fn is_punctuation(c: char) -> bool {
    fixed_kind(c) is Some || c == '/'
}

/// Whether the text holds punctuation only and no two slashes in a row.
pub open spec fn punctuation_only(src: Seq<char>) -> bool {
    &&& forall|i: int| 0 <= i < src.len() ==> is_punctuation(#[trigger] src[i])
    &&& forall|i: int| 0 <= i < src.len() - 1 ==> !(#[trigger] src[i] == '/' && src[i + 1] == '/')
}

/// From any index of a text of punctuation, the scan gives one token for
/// each character that is left, and no error.
pub proof fn lemma_punctuation_from(src: Seq<char>, start: int, pos: int, line: nat)
    requires
        punctuation_only(src),
        0 <= pos <= src.len(),
    ensures
        scan_from(src, start, pos, line).tokens.len() == src.len() - pos,
        scan_from(src, start, pos, line).errors.len() == 0,
        scan_from(src, start, pos, line).line == line,
    decreases src.len() - pos,
{
    if pos < src.len() {
        assert(is_punctuation(src[pos]));
        if pos + 1 < src.len() {
            assert(!(src[pos] == '/' && src[pos + 1] == '/'));
        }
        let st = step(src, pos, line);
        assert(st.next == pos + 1);
        lemma_punctuation_from(src, pos, pos + 1, line);
    }
}

/// A text that holds only single-character punctuation, and no two slashes
/// in a row, scans to one token for each character and the token that ends
/// the input, without an error.
pub proof fn lemma_punctuation_count(src: Seq<char>)
    requires
        punctuation_only(src),
    ensures
        scan(src).tokens.len() == src.len() + 1,
        scan(src).errors.len() == 0,
{
    lemma_punctuation_from(src, 0, 0, 1);
}

/// The cursor positions between which each token of a scan from `pos` was
/// read: where its step started and where it ended.
pub open spec fn spans_from(src: Seq<char>, pos: int, line: nat) -> Seq<(int, int)>
    decreases src.len() - pos,
    via spans_from_decreases
{
    if 0 <= pos < src.len() {
        let st = step(src, pos, line);
        let rest = spans_from(src, st.next, st.line);
        if st.token is Some {
            seq![(pos, st.next)] + rest
        } else {
            rest
        }
    } else {
        Seq::<(int, int)>::empty()
    }
}

#[via_fn]
proof fn spans_from_decreases(src: Seq<char>, pos: int, line: nat) {
    if 0 <= pos < src.len() {
        lemma_step_advances(src, pos, line);
    }
}

/// Every token of a scan has as its lexeme exactly the text between the
/// cursor positions of its step. The positions lie within the text, each
/// token holds at least one character, and the tokens follow each other
/// without overlap.
pub proof fn lemma_lexemes_from(src: Seq<char>, start: int, pos: int, line: nat)
    requires
        0 <= pos <= src.len(),
    ensures
        spans_from(src, pos, line).len() == scan_from(src, start, pos, line).tokens.len(),
        forall|i: int|
            0 <= i < spans_from(src, pos, line).len() ==> {
                let span = #[trigger] spans_from(src, pos, line)[i];
                &&& pos <= span.0 < span.1 <= src.len()
                &&& scan_from(src, start, pos, line).tokens[i].lexeme == src.subrange(
                    span.0,
                    span.1,
                )
            },
        forall|i: int, j: int|
            0 <= i < j < spans_from(src, pos, line).len() ==> (#[trigger] spans_from(
                src,
                pos,
                line,
            )[i]).1 <= (#[trigger] spans_from(src, pos, line)[j]).0,
    decreases src.len() - pos,
{
    if pos < src.len() {
        let st = step(src, pos, line);
        lemma_step_advances(src, pos, line);
        lemma_lexemes_from(src, pos, st.next, st.line);
        let spans = spans_from(src, pos, line);
        let rest = spans_from(src, st.next, st.line);
        let tokens = scan_from(src, start, pos, line).tokens;
        let rest_tokens = scan_from(src, pos, st.next, st.line).tokens;
        if st.token is Some {
            assert forall|i: int| 0 <= i < spans.len() implies {
                let span = #[trigger] spans[i];
                &&& pos <= span.0 < span.1 <= src.len()
                &&& tokens[i].lexeme == src.subrange(span.0, span.1)
            } by {
                if i > 0 {
                    assert(spans[i] == rest[i - 1]);
                    assert(tokens[i] == rest_tokens[i - 1]);
                }
            }
            assert forall|i: int, j: int| 0 <= i < j < spans.len() implies (#[trigger] spans[i]).1
                <= (#[trigger] spans[j]).0 by {
                assert(spans[j] == rest[j - 1]);
                if i > 0 {
                    assert(spans[i] == rest[i - 1]);
                }
            }
        }
    }
}

/// Every token of a whole scan but the last has as its lexeme exactly the
/// text between the cursor positions of its step; the last is the token that
/// ends the input, with an empty lexeme.
pub proof fn lemma_lexemes(src: Seq<char>)
    ensures
        scan(src).tokens.len() == spans_from(src, 0, 1).len() + 1,
        forall|i: int|
            0 <= i < spans_from(src, 0, 1).len() ==> {
                let span = #[trigger] spans_from(src, 0, 1)[i];
                &&& 0 <= span.0 < span.1 <= src.len()
                &&& scan(src).tokens[i].lexeme == src.subrange(span.0, span.1)
            },
        scan(src).tokens.last() == end_of_input(scan(src).line),
{
    lemma_lexemes_from(src, 0, 0, 1);
}

/// No step yields the token that ends the input, so a whole scan holds it
/// once, as its last token.
pub proof fn lemma_one_end_of_input(src: Seq<char>, start: int, pos: int, line: nat)
    requires
        0 <= pos <= src.len(),
    ensures
        forall|i: int|
            0 <= i < scan_from(src, start, pos, line).tokens.len() ==> !((#[trigger] scan_from(
                src,
                start,
                pos,
                line,
            ).tokens[i]).kind is Eof),
    decreases src.len() - pos,
{
    if pos < src.len() {
        let st = step(src, pos, line);
        lemma_step_advances(src, pos, line);
        lemma_one_end_of_input(src, pos, st.next, st.line);
        let tokens = scan_from(src, start, pos, line).tokens;
        let rest_tokens = scan_from(src, pos, st.next, st.line).tokens;
        assert forall|i: int| 0 <= i < tokens.len() implies !((#[trigger] tokens[i]).kind is Eof) by {
            if st.token is Some && i > 0 {
                assert(tokens[i] == rest_tokens[i - 1]);
            }
        }
    }
}

/// A line comment gives no token and no error whatever it holds: the step
/// at its first slash ends at the next newline, or at the end of the text,
/// on the same line, and the scan goes on from there.
pub proof fn lemma_comment_gives_nothing(src: Seq<char>, start: int, pos: int, line: nat)
    requires
        0 <= pos,
        pos + 1 < src.len(),
        src[pos] == '/',
        src[pos + 1] == '/',
    ensures
        step(src, pos, line) == pass(line_end(src, pos + 2), line),
        pos + 2 <= line_end(src, pos + 2) <= src.len(),
        forall|i: int| pos + 2 <= i < line_end(src, pos + 2) ==> src[i] != '\n',
        line_end(src, pos + 2) < src.len() ==> src[line_end(src, pos + 2)] == '\n',
        scan_from(src, start, pos, line).tokens == scan_from(
            src,
            pos,
            line_end(src, pos + 2),
            line,
        ).tokens,
        scan_from(src, start, pos, line).errors == scan_from(
            src,
            pos,
            line_end(src, pos + 2),
            line,
        ).errors,
{
    lemma_line_end_bounds(src, pos + 2);
}

/// A string literal that is closed gives one token: its value is the text
/// between the quotes, its lexeme the same text with both quotes, and its
/// line that of the closing quote.
pub proof fn lemma_closed_string(src: Seq<char>, pos: int, line: nat)
    requires
        0 <= pos < src.len(),
        src[pos] == '"',
        quote_pos(src, pos + 1) < src.len(),
    ensures
        ({
            let close = quote_pos(src, pos + 1);
            let st = step(src, pos, line);
            &&& pos < close
            &&& src[close] == '"'
            &&& forall|i: int| pos < i < close ==> src[i] != '"'
            &&& st.next == close + 1
            &&& st.line == line + newlines(src, pos + 1, close)
            &&& st.error is None
            &&& st.token == Some(
                TokenModel {
                    kind: TokenKind::Str(src.subrange(pos + 1, close)),
                    lexeme: src.subrange(pos, close + 1),
                    line: st.line,
                },
            )
            &&& st.token->0.lexeme == seq!['"'] + src.subrange(pos + 1, close) + seq!['"']
        }),
{
    lemma_quote_pos_bounds(src, pos + 1);
    let close = quote_pos(src, pos + 1);
    assert(src.subrange(pos, close + 1) =~= seq!['"'] + src.subrange(pos + 1, close) + seq!['"']);
}

/// A string literal that is still open at the end of the text gives no
/// token and one error, on the line where the text ends. The scan does not
/// halt there: it goes on from the end of the text, where nothing is left.
pub proof fn lemma_open_string(src: Seq<char>, start: int, pos: int, line: nat)
    requires
        0 <= pos < src.len(),
        src[pos] == '"',
        quote_pos(src, pos + 1) >= src.len(),
    ensures
        ({
            let st = step(src, pos, line);
            let last_line = line + newlines(src, pos + 1, src.len() as int);
            let report = ReportModel {
                line: last_line,
                hint: Seq::<char>::empty(),
                message: unterminated_string(),
            };
            &&& forall|i: int| pos < i < src.len() ==> src[i] != '"'
            &&& st.next == src.len()
            &&& st.line == last_line
            &&& st.token is None
            &&& st.error == Some(report)
            &&& scan_from(src, start, pos, line).tokens == Seq::<TokenModel>::empty()
            &&& scan_from(src, start, pos, line).errors == seq![report]
            &&& scan_from(src, start, pos, line).line == last_line
        }),
{
    lemma_quote_pos_bounds(src, pos + 1);
    let st = step(src, pos, line);
    let end = scan_from(src, pos, st.next, st.line);
    assert(end.tokens =~= Seq::<TokenModel>::empty());
    assert(scan_from(src, start, pos, line).errors =~= seq![st.error->0]);
}

/// A number literal gives one token whose value, written out, is its
/// lexeme: the digits of the value are those of the text, and the point
/// stands where the text has it.
pub proof fn lemma_number_reads_back(src: Seq<char>, pos: int, line: nat)
    requires
        0 <= pos < src.len(),
        is_digit(src[pos]),
    ensures
        ({
            let st = step(src, pos, line);
            &&& st.error is None
            &&& st.line == line
            &&& st.token is Some
            &&& st.token->0.line == line
            &&& st.token->0.kind is Number
            &&& st.token->0.kind->Number_0.wf()
            &&& st.token->0.kind->Number_0.text() == st.token->0.lexeme
            &&& st.token->0.lexeme == src.subrange(pos, st.next)
        }),
{
    lemma_digits_end_bounds(src, pos);
    let whole_end = digits_end(src, pos);
    if whole_end + 1 <= src.len() {
        lemma_digits_end_bounds(src, whole_end + 1);
    }
    let st = step(src, pos, line);
    let number = st.token->0.kind->Number_0;
    assert(digits_text(number.whole) =~= src.subrange(pos, whole_end));
    if number.fraction.len() > 0 {
        assert(digits_text(number.fraction) =~= src.subrange(whole_end + 1, st.next));
        assert(src.subrange(pos, st.next) =~= src.subrange(pos, whole_end) + seq!['.']
            + src.subrange(whole_end + 1, st.next));
    } else {
        assert(st.next == whole_end);
    }
}

/// The scan is a function of the characters of the text alone: texts that
/// hold the same characters scan to the same tokens, the same errors and the
/// same final line.
pub proof fn lemma_scan_deterministic(first: Seq<char>, second: Seq<char>)
    requires
        first.len() == second.len(),
        forall|i: int| 0 <= i < first.len() ==> first[i] == second[i],
    ensures
        scan(first) == scan(second),
{
    assert(first =~= second);
}

/// Whether a kind is an identifier or a reserved word.
pub open spec fn is_word(kind: TokenKind) -> bool {
    match kind {
        TokenKind::Identifier(_)
        | TokenKind::And
        | TokenKind::Class
        | TokenKind::Else
        | TokenKind::False
        | TokenKind::Fun
        | TokenKind::For
        | TokenKind::If
        | TokenKind::Nil
        | TokenKind::Or
        | TokenKind::Print
        | TokenKind::Return
        | TokenKind::Super
        | TokenKind::This
        | TokenKind::True
        | TokenKind::Var
        | TokenKind::While => true,
        _ => false,
    }
}

/// No step starts an identifier or a reserved word: a scan yields neither.
pub proof fn lemma_no_words(src: Seq<char>, start: int, pos: int, line: nat)
    requires
        0 <= pos <= src.len(),
    ensures
        forall|i: int|
            0 <= i < scan_from(src, start, pos, line).tokens.len() ==> !is_word(
                (#[trigger] scan_from(src, start, pos, line).tokens[i]).kind,
            ),
    decreases src.len() - pos,
{
    if pos < src.len() {
        let st = step(src, pos, line);
        lemma_step_advances(src, pos, line);
        lemma_no_words(src, pos, st.next, st.line);
        let tokens = scan_from(src, start, pos, line).tokens;
        let rest_tokens = scan_from(src, pos, st.next, st.line).tokens;
        assert forall|i: int| 0 <= i < tokens.len() implies !is_word((#[trigger] tokens[i]).kind) by {
            if st.token is Some && i > 0 {
                assert(tokens[i] == rest_tokens[i - 1]);
            }
        }
    }
}

/// Every number that a scan yields has a digit before the point and holds
/// digits only, and every token stands on a line from 1 on.
pub proof fn lemma_tokens_well_formed(src: Seq<char>, start: int, pos: int, line: nat)
    requires
        0 <= pos <= src.len(),
        line >= 1,
    ensures
        forall|i: int|
            0 <= i < scan_from(src, start, pos, line).tokens.len() ==> {
                let token = #[trigger] scan_from(src, start, pos, line).tokens[i];
                &&& token.kind.wf()
                &&& token.line >= line
            },
        scan_from(src, start, pos, line).line >= line,
    decreases src.len() - pos,
{
    if pos < src.len() {
        let st = step(src, pos, line);
        lemma_step_advances(src, pos, line);
        lemma_digits_end_bounds(src, pos);
        lemma_tokens_well_formed(src, pos, st.next, st.line);
        let tokens = scan_from(src, start, pos, line).tokens;
        let rest_tokens = scan_from(src, pos, st.next, st.line).tokens;
        assert forall|i: int| 0 <= i < tokens.len() implies {
            let token = #[trigger] tokens[i];
            &&& token.kind.wf()
            &&& token.line >= line
        } by {
            if st.token is Some && i > 0 {
                assert(tokens[i] == rest_tokens[i - 1]);
            }
        }
    }
}

} // verus!
