//! The mathematical model of the scanner: a pure function from a byte
//! source and a cursor position to the next token (with the position
//! after it) or to a lexical error (with the position where it is
//! detected). The executable scanner in [`crate::lexer`] is proved to
//! return exactly what [`lex_spec`] says, so every lemma proved here
//! holds of the running code.

use vstd::prelude::*;
use crate::token::{TokenKind, TokModel, keyword_of};

verus! {

/// The error kinds a scan can fail with. Construction-time IO
/// failures are outside the scanner: it is handed its bytes.
#[derive(Debug, Clone, Copy, PartialEq, Eq)]
pub enum LexErrorKind {
    UnterminatedComment,
    MalformedEllipsis,
    InvalidEscapeSequence,
    RawControlCharacterInLiteral,
    EmptyCharLiteral,
    UnterminatedCharLiteral,
    UnterminatedStringLiteral,
    NumericOverflow,
    UnknownCharacter,
}

/// A lexical error: its kind, and the source line it was found on.
#[derive(Debug, Clone, Copy, PartialEq, Eq)]
pub struct LexError {
    pub kind: LexErrorKind,
    pub line: usize,
}

/// Outcome of scanning one token at a position: the token's model and
/// the cursor position after it, or an error kind and the cursor
/// position at which the scan stops.
pub ghost enum Scanned {
    Tok { t: TokModel, end: int },
    Fail { kind: LexErrorKind, at: int },
}

/// A byte is whitespace exactly when its one-byte codepoint is: an
/// ASCII whitespace character, or the next-line (0x85) or
/// no-break-space (0xA0) codepoint of Latin-1.
pub open spec fn is_ws(b: u8) -> bool {
    b == 0x09 || b == 0x0a || b == 0x0b || b == 0x0c || b == 0x0d || b == 0x20
        || b == 0x85 || b == 0xa0
}

/// Decimal digit bytes `0`..`9`.
pub open spec fn is_digit(b: u8) -> bool {
    0x30 <= b && b <= 0x39
}

/// ASCII letters.
pub open spec fn is_alpha(b: u8) -> bool {
    (0x41 <= b && b <= 0x5a) || (0x61 <= b && b <= 0x7a)
}

/// A byte that may start an identifier: a letter or `_`.
pub open spec fn is_ident_start(b: u8) -> bool {
    is_alpha(b) || b == 0x5f
}

/// A byte that may continue an identifier: a letter, digit or `_`.
pub open spec fn is_ident_cont(b: u8) -> bool {
    is_alpha(b) || is_digit(b) || b == 0x5f
}

/// The escape alphabet: the one byte allowed after a backslash inside
/// a string or character literal (`a b f n r t v \ ' "`).
pub open spec fn is_valid_escape(b: u8) -> bool {
    b == 0x61 || b == 0x62 || b == 0x66 || b == 0x6e || b == 0x72 || b == 0x74
        || b == 0x76 || b == 0x5c || b == 0x27 || b == 0x22
}

/// A byte that may not appear raw (unescaped) inside a string or
/// character literal: bell, backspace, tab, newline, vertical tab,
/// form feed, carriage return, and the quote and backslash characters.
pub open spec fn is_raw_control(b: u8) -> bool {
    b == 0x07 || b == 0x08 || b == 0x09 || b == 0x0a || b == 0x0b || b == 0x0c
        || b == 0x0d || b == 0x22 || b == 0x27 || b == 0x5c
}

/// Bytes viewed as characters, one for one.
pub open spec fn chars_of(bs: Seq<u8>) -> Seq<char> {
    bs.map_values(|b: u8| b as char)
}

/// The number of newline bytes among the first `end` bytes of `s`:
/// the scanner's diagnostic line counter.
pub open spec fn count_nl(s: Seq<u8>, end: int) -> int
    decreases end,
{
    if end <= 0 {
        0
    } else {
        count_nl(s, end - 1) + if 0 <= end - 1 < s.len() && s[end - 1] == 0x0a {
            1int
        } else {
            0int
        }
    }
}

/// The first position at or after `pos` holding no decimal digit.
pub open spec fn digit_run_end(s: Seq<u8>, pos: int) -> int
    decreases s.len() - pos,
{
    if 0 <= pos < s.len() && is_digit(s[pos]) {
        digit_run_end(s, pos + 1)
    } else {
        pos
    }
}

/// The first position at or after `pos` holding no identifier byte.
pub open spec fn ident_run_end(s: Seq<u8>, pos: int) -> int
    decreases s.len() - pos,
{
    if 0 <= pos < s.len() && is_ident_cont(s[pos]) {
        ident_run_end(s, pos + 1)
    } else {
        pos
    }
}

/// The first position at or after `pos` holding a newline, or the end
/// of the source: where a line comment stops (the newline itself is
/// not part of the comment).
pub open spec fn line_end(s: Seq<u8>, pos: int) -> int
    decreases s.len() - pos,
{
    if 0 <= pos < s.len() && s[pos] != 0x0a {
        line_end(s, pos + 1)
    } else {
        pos
    }
}

/// The position just after the `*/` that closes a block comment, when
/// scanning from `pos` with `star` recording whether the previous
/// consumed byte was `*`; `None` when the comment never closes.
pub open spec fn block_close(s: Seq<u8>, star: bool, pos: int) -> Option<int>
    decreases s.len() - pos,
{
    if !(0 <= pos < s.len()) {
        None
    } else if star && s[pos] == 0x2f {
        Some(pos + 1)
    } else {
        block_close(s, s[pos] == 0x2a, pos + 1)
    }
}

/// The numeric value of a run of decimal digit bytes.
pub open spec fn dec_value(digits: Seq<u8>) -> int
    decreases digits.len(),
{
    if digits.len() == 0 {
        0
    } else {
        dec_value(digits.drop_last()) * 10 + (digits.last() - 0x30)
    }
}

/// Scanning the inside of a string literal from `pos` (just after the
/// opening quote), with `acc` the payload collected so far: escape
/// sequences are kept verbatim, a raw control byte or a bad escape is
/// an error, and the payload excludes the quotes.
pub open spec fn str_scan(s: Seq<u8>, pos: int, acc: Seq<u8>) -> Scanned
    decreases s.len() - pos,
{
    if !(0 <= pos < s.len()) {
        Scanned::Fail { kind: LexErrorKind::UnterminatedStringLiteral, at: s.len() as int }
    } else if s[pos] == 0x22 {
        Scanned::Tok { t: TokModel::StrLit(chars_of(acc)), end: pos + 1 }
    } else if s[pos] == 0x5c {
        if pos + 1 >= s.len() {
            Scanned::Fail { kind: LexErrorKind::InvalidEscapeSequence, at: s.len() as int }
        } else if is_valid_escape(s[pos + 1]) {
            str_scan(s, pos + 2, acc + seq![0x5cu8, s[pos + 1]])
        } else {
            Scanned::Fail { kind: LexErrorKind::InvalidEscapeSequence, at: pos + 1 }
        }
    } else if is_raw_control(s[pos]) {
        Scanned::Fail { kind: LexErrorKind::RawControlCharacterInLiteral, at: pos }
    } else {
        str_scan(s, pos + 1, acc.push(s[pos]))
    }
}

/// Scanning a character literal from `pos` (just after the opening
/// quote): exactly one plain character or one escape sequence, then
/// the closing quote; the payload excludes the quotes.
pub open spec fn char_scan(s: Seq<u8>, pos: int) -> Scanned {
    if pos >= s.len() {
        Scanned::Fail { kind: LexErrorKind::UnterminatedCharLiteral, at: s.len() as int }
    } else if s[pos] == 0x27 {
        Scanned::Fail { kind: LexErrorKind::EmptyCharLiteral, at: pos }
    } else if s[pos] == 0x5c {
        if pos + 1 >= s.len() {
            Scanned::Fail { kind: LexErrorKind::InvalidEscapeSequence, at: s.len() as int }
        } else if is_valid_escape(s[pos + 1]) {
            char_close(s, pos + 2, seq![0x5cu8, s[pos + 1]])
        } else {
            Scanned::Fail { kind: LexErrorKind::InvalidEscapeSequence, at: pos + 1 }
        }
    } else if is_raw_control(s[pos]) {
        Scanned::Fail { kind: LexErrorKind::RawControlCharacterInLiteral, at: pos }
    } else {
        char_close(s, pos + 1, seq![s[pos]])
    }
}

/// The closing-quote step of a character literal: at `pos` the quote
/// must follow, and `content` becomes the payload.
pub open spec fn char_close(s: Seq<u8>, pos: int, content: Seq<u8>) -> Scanned {
    if pos >= s.len() {
        Scanned::Fail { kind: LexErrorKind::UnterminatedCharLiteral, at: s.len() as int }
    } else if s[pos] == 0x27 {
        Scanned::Tok { t: TokModel::CharLit(chars_of(content)), end: pos + 1 }
    } else {
        Scanned::Fail { kind: LexErrorKind::UnterminatedCharLiteral, at: pos }
    }
}

/// Scanning a numeric literal whose first digit stands at `pos`: the
/// maximal digit run is the integer part; a following `.` makes it a
/// float literal whose fractional digit run may be empty; an integer
/// part beyond `i32` range is an overflow error.
pub open spec fn number_scan(s: Seq<u8>, pos: int) -> Scanned {
    let int_end = digit_run_end(s, pos);
    let v = dec_value(s.subrange(pos, int_end));
    if v > i32::MAX as int {
        Scanned::Fail { kind: LexErrorKind::NumericOverflow, at: int_end }
    } else if int_end < s.len() && s[int_end] == 0x2e {
        let frac_end = digit_run_end(s, int_end + 1);
        Scanned::Tok {
            t: TokModel::FloatLit(v as i32, chars_of(s.subrange(int_end + 1, frac_end))),
            end: frac_end,
        }
    } else {
        Scanned::Tok { t: TokModel::IntLit(v as i32), end: int_end }
    }
}

/// Scanning an identifier or keyword whose first byte stands at
/// `pos`: the maximal identifier run, classified by the keyword
/// table.
pub open spec fn ident_scan(s: Seq<u8>, pos: int) -> Scanned {
    let end = ident_run_end(s, pos);
    let w = chars_of(s.subrange(pos, end));
    match keyword_of(w) {
        Some(k) => Scanned::Tok { t: TokModel::Fixed(k), end },
        None => Scanned::Tok { t: TokModel::Ident(w), end },
    }
}

/// Whether position `p` holds byte `b` (false past the end).
pub open spec fn at_is(s: Seq<u8>, p: int, b: u8) -> bool {
    p < s.len() && s[p] == b
}

/// The token beginning exactly at `pos`, which is not inside
/// whitespace or a comment: maximal-munch dispatch on the leading
/// byte. At or past the end of the source the token is `EOF`, at the
/// same position, so scanning is idempotent at the end.
pub open spec fn token_at(s: Seq<u8>, pos: int) -> Scanned {
    if pos >= s.len() {
        Scanned::Tok { t: TokModel::Fixed(TokenKind::EOF), end: pos }
    } else {
        let b = s[pos];
        if b == 0x28 {
            Scanned::Tok { t: TokModel::Fixed(TokenKind::LeftParen), end: pos + 1 }
        } else if b == 0x29 {
            Scanned::Tok { t: TokModel::Fixed(TokenKind::RightParen), end: pos + 1 }
        } else if b == 0x7b {
            Scanned::Tok { t: TokModel::Fixed(TokenKind::LeftBrace), end: pos + 1 }
        } else if b == 0x7d {
            Scanned::Tok { t: TokModel::Fixed(TokenKind::RightBrace), end: pos + 1 }
        } else if b == 0x5b {
            Scanned::Tok { t: TokModel::Fixed(TokenKind::LeftBracket), end: pos + 1 }
        } else if b == 0x5d {
            Scanned::Tok { t: TokModel::Fixed(TokenKind::RightBracket), end: pos + 1 }
        } else if b == 0x7e {
            Scanned::Tok { t: TokModel::Fixed(TokenKind::BitNotOp), end: pos + 1 }
        } else if b == 0x3b {
            Scanned::Tok { t: TokModel::Fixed(TokenKind::Semicolon), end: pos + 1 }
        } else if b == 0x2c {
            Scanned::Tok { t: TokModel::Fixed(TokenKind::Comma), end: pos + 1 }
        } else if b == 0x2b {  // +
            if at_is(s, pos + 1, 0x2b) {
                Scanned::Tok { t: TokModel::Fixed(TokenKind::IncrementOp), end: pos + 2 }
            } else if at_is(s, pos + 1, 0x3d) {
                Scanned::Tok { t: TokModel::Fixed(TokenKind::PlusEqOp), end: pos + 2 }
            } else {
                Scanned::Tok { t: TokModel::Fixed(TokenKind::PlusOp), end: pos + 1 }
            }
        } else if b == 0x2d {  // -
            if at_is(s, pos + 1, 0x2d) {
                Scanned::Tok { t: TokModel::Fixed(TokenKind::DecrementOp), end: pos + 2 }
            } else if at_is(s, pos + 1, 0x3d) {
                Scanned::Tok { t: TokModel::Fixed(TokenKind::MinusEqOp), end: pos + 2 }
            } else {
                Scanned::Tok { t: TokModel::Fixed(TokenKind::MinusOp), end: pos + 1 }
            }
        } else if b == 0x2a {  // *
            if at_is(s, pos + 1, 0x3d) {
                Scanned::Tok { t: TokModel::Fixed(TokenKind::StarEqOp), end: pos + 2 }
            } else {
                Scanned::Tok { t: TokModel::Fixed(TokenKind::StarOp), end: pos + 1 }
            }
        } else if b == 0x2f {  // / (comments are consumed before this point)
            if at_is(s, pos + 1, 0x3d) {
                Scanned::Tok { t: TokModel::Fixed(TokenKind::DivEqOp), end: pos + 2 }
            } else {
                Scanned::Tok { t: TokModel::Fixed(TokenKind::DivOp), end: pos + 1 }
            }
        } else if b == 0x25 {  // %
            if at_is(s, pos + 1, 0x3d) {
                Scanned::Tok { t: TokModel::Fixed(TokenKind::ModEqOp), end: pos + 2 }
            } else {
                Scanned::Tok { t: TokModel::Fixed(TokenKind::ModOp), end: pos + 1 }
            }
        } else if b == 0x3d {  // =
            if at_is(s, pos + 1, 0x3d) {
                Scanned::Tok { t: TokModel::Fixed(TokenKind::LogicEqOp), end: pos + 2 }
            } else {
                Scanned::Tok { t: TokModel::Fixed(TokenKind::EqOp), end: pos + 1 }
            }
        } else if b == 0x3a {  // :
            if at_is(s, pos + 1, 0x3d) {
                Scanned::Tok { t: TokModel::Fixed(TokenKind::AssignOp), end: pos + 2 }
            } else {
                Scanned::Tok { t: TokModel::Fixed(TokenKind::Colon), end: pos + 1 }
            }
        } else if b == 0x26 {  // &
            if at_is(s, pos + 1, 0x26) {
                Scanned::Tok { t: TokModel::Fixed(TokenKind::LogicAndOp), end: pos + 2 }
            } else if at_is(s, pos + 1, 0x3d) {
                Scanned::Tok { t: TokModel::Fixed(TokenKind::BitAndEqOp), end: pos + 2 }
            } else if at_is(s, pos + 1, 0x5e) {
                if at_is(s, pos + 2, 0x3d) {
                    Scanned::Tok { t: TokModel::Fixed(TokenKind::BitClearEqOp), end: pos + 3 }
                } else {
                    Scanned::Tok { t: TokModel::Fixed(TokenKind::BitClearOp), end: pos + 2 }
                }
            } else {
                Scanned::Tok { t: TokModel::Fixed(TokenKind::BitAndOp), end: pos + 1 }
            }
        } else if b == 0x7c {  // |
            if at_is(s, pos + 1, 0x7c) {
                Scanned::Tok { t: TokModel::Fixed(TokenKind::LogicOrOp), end: pos + 2 }
            } else if at_is(s, pos + 1, 0x3d) {
                Scanned::Tok { t: TokModel::Fixed(TokenKind::BitOrEqOp), end: pos + 2 }
            } else {
                Scanned::Tok { t: TokModel::Fixed(TokenKind::BitOrOp), end: pos + 1 }
            }
        } else if b == 0x5e {  // ^
            if at_is(s, pos + 1, 0x3d) {
                Scanned::Tok { t: TokModel::Fixed(TokenKind::BitXorEqOp), end: pos + 2 }
            } else {
                Scanned::Tok { t: TokModel::Fixed(TokenKind::BitXorOp), end: pos + 1 }
            }
        } else if b == 0x21 {  // !
            if at_is(s, pos + 1, 0x3d) {
                Scanned::Tok { t: TokModel::Fixed(TokenKind::LogicNotEqOp), end: pos + 2 }
            } else {
                Scanned::Tok { t: TokModel::Fixed(TokenKind::LogicNotOp), end: pos + 1 }
            }
        } else if b == 0x3c {  // <
            if at_is(s, pos + 1, 0x2d) {
                Scanned::Tok { t: TokModel::Fixed(TokenKind::DirectionOp), end: pos + 2 }
            } else if at_is(s, pos + 1, 0x3c) {
                if at_is(s, pos + 2, 0x3d) {
                    Scanned::Tok { t: TokModel::Fixed(TokenKind::LShiftEqOp), end: pos + 3 }
                } else {
                    Scanned::Tok { t: TokModel::Fixed(TokenKind::LShiftOp), end: pos + 2 }
                }
            } else if at_is(s, pos + 1, 0x3d) {
                Scanned::Tok { t: TokModel::Fixed(TokenKind::LogicLessEqOp), end: pos + 2 }
            } else {
                Scanned::Tok { t: TokModel::Fixed(TokenKind::LogicLessOp), end: pos + 1 }
            }
        } else if b == 0x3e {  // > (right shift is spelled `><` in this grammar)
            if at_is(s, pos + 1, 0x3c) {
                if at_is(s, pos + 2, 0x3d) {
                    Scanned::Tok { t: TokModel::Fixed(TokenKind::RShiftEqOp), end: pos + 3 }
                } else {
                    Scanned::Tok { t: TokModel::Fixed(TokenKind::RShiftOp), end: pos + 2 }
                }
            } else if at_is(s, pos + 1, 0x3d) {
                Scanned::Tok { t: TokModel::Fixed(TokenKind::LogicGreaterEqOp), end: pos + 2 }
            } else {
                Scanned::Tok { t: TokModel::Fixed(TokenKind::LogicGreaterOp), end: pos + 1 }
            }
        } else if b == 0x2e {  // .
            if at_is(s, pos + 1, 0x2e) {
                if at_is(s, pos + 2, 0x2e) {
                    Scanned::Tok { t: TokModel::Fixed(TokenKind::Elipses), end: pos + 3 }
                } else {
                    Scanned::Fail { kind: LexErrorKind::MalformedEllipsis, at: pos + 2 }
                }
            } else if pos + 1 < s.len() && is_digit(s[pos + 1]) {
                let frac_end = digit_run_end(s, pos + 1);
                Scanned::Tok {
                    t: TokModel::FloatLit(0, chars_of(s.subrange(pos + 1, frac_end))),
                    end: frac_end,
                }
            } else {
                Scanned::Tok { t: TokModel::Fixed(TokenKind::Dot), end: pos + 1 }
            }
        } else if b == 0x22 {  // "
            str_scan(s, pos + 1, Seq::empty())
        } else if b == 0x27 {  // '
            char_scan(s, pos + 1)
        } else if is_ident_start(b) {
            ident_scan(s, pos)
        } else if is_digit(b) {
            number_scan(s, pos)
        } else {
            Scanned::Fail { kind: LexErrorKind::UnknownCharacter, at: pos }
        }
    }
}

/// Outcome of consuming whitespace and comments: the position of the
/// first meaningful byte (or the end of the source), or an
/// unterminated block comment.
pub ghost enum Trivia {
    Clean { next: int },
    Bad { at: int },
}

/// Consume whitespace, line comments and block comments from `pos`.
/// A line comment runs to the end of its line, exclusive of the
/// newline; a block comment runs to the first `*/`, and reaching the
/// end of the source inside one is an error.
pub open spec fn skip_trivia(s: Seq<u8>, pos: int) -> Trivia
    decreases s.len() - pos,
        via skip_trivia_decreases
{
    if !(0 <= pos < s.len()) {
        Trivia::Clean { next: pos }
    } else if is_ws(s[pos]) {
        skip_trivia(s, pos + 1)
    } else if s[pos] == 0x2f && at_is(s, pos + 1, 0x2f) {
        skip_trivia(s, line_end(s, pos + 2))
    } else if s[pos] == 0x2f && at_is(s, pos + 1, 0x2a) {
        match block_close(s, false, pos + 2) {
            Some(e) => skip_trivia(s, e),
            None => Trivia::Bad { at: s.len() as int },
        }
    } else {
        Trivia::Clean { next: pos }
    }
}

#[via_fn]
proof fn skip_trivia_decreases(s: Seq<u8>, pos: int) {
    if 0 <= pos < s.len() && pos + 2 <= s.len() {
        lemma_line_end_bounds(s, pos + 2);
        if block_close(s, false, pos + 2) is Some {
            lemma_block_close_bounds(s, false, pos + 2);
        }
    }
}

/// `line_end` never moves backwards and never passes the end.
pub proof fn lemma_line_end_bounds(s: Seq<u8>, pos: int)
    requires
        pos <= s.len(),
    ensures
        pos <= line_end(s, pos) <= s.len(),
    decreases s.len() - pos,
{
    if 0 <= pos < s.len() && s[pos] != 0x0a {
        lemma_line_end_bounds(s, pos + 1);
    }
}

/// A closing position found by `block_close` lies strictly past the
/// scan start and within the source.
pub proof fn lemma_block_close_bounds(s: Seq<u8>, star: bool, pos: int)
    requires
        block_close(s, star, pos) is Some,
    ensures
        pos < block_close(s, star, pos)->Some_0 <= s.len(),
    decreases s.len() - pos,
{
    if 0 <= pos < s.len() {
        if star && s[pos] == 0x2f {
        } else {
            lemma_block_close_bounds(s, s[pos] == 0x2a, pos + 1);
        }
    }
}

/// The line counter is non-negative and never exceeds the number of
/// bytes counted over.
pub proof fn lemma_count_nl_bounds(s: Seq<u8>, p: int)
    requires
        0 <= p,
    ensures
        0 <= count_nl(s, p) <= p,
    decreases p,
{
    if p > 0 {
        lemma_count_nl_bounds(s, p - 1);
    }
}

/// `digit_run_end` never moves backwards and never passes the end.
pub proof fn lemma_digit_run_end_bounds(s: Seq<u8>, pos: int)
    requires
        pos <= s.len(),
    ensures
        pos <= digit_run_end(s, pos) <= s.len(),
    decreases s.len() - pos,
{
    if 0 <= pos < s.len() && is_digit(s[pos]) {
        lemma_digit_run_end_bounds(s, pos + 1);
    }
}

/// `ident_run_end` never moves backwards and never passes the end.
pub proof fn lemma_ident_run_end_bounds(s: Seq<u8>, pos: int)
    requires
        pos <= s.len(),
    ensures
        pos <= ident_run_end(s, pos) <= s.len(),
    decreases s.len() - pos,
{
    if 0 <= pos < s.len() && is_ident_cont(s[pos]) {
        lemma_ident_run_end_bounds(s, pos + 1);
    }
}

/// Reading one more digit multiplies the value by ten and adds it.
pub proof fn lemma_dec_value_step(s: Seq<u8>, a: int, i: int)
    requires
        0 <= a <= i < s.len(),
    ensures
        dec_value(s.subrange(a, i + 1)) == dec_value(s.subrange(a, i)) * 10 + (s[i] - 0x30),
{
    assert(s.subrange(a, i + 1).drop_last() =~= s.subrange(a, i));
    assert(s.subrange(a, i + 1).last() == s[i]);
}

/// The value of a run of digit bytes is non-negative.
pub proof fn lemma_dec_value_nonneg(digits: Seq<u8>)
    requires
        forall|j: int| 0 <= j < digits.len() ==> is_digit(#[trigger] digits[j]),
    ensures
        dec_value(digits) >= 0,
    decreases digits.len(),
{
    if digits.len() > 0 {
        lemma_dec_value_nonneg(digits.drop_last());
    }
}

/// The token (or error) the scanner reports at `pos`: whitespace and
/// comments first, then maximal-munch dispatch.
pub open spec fn lex_spec(s: Seq<u8>, pos: int) -> Scanned {
    match skip_trivia(s, pos) {
        Trivia::Clean { next } => token_at(s, next),
        Trivia::Bad { at } => Scanned::Fail { kind: LexErrorKind::UnterminatedComment, at },
    }
}

/// Skipping trivia never moves backwards and never passes the end.
pub proof fn lemma_skip_trivia_bounds(s: Seq<u8>, pos: int)
    requires
        0 <= pos <= s.len(),
    ensures
        match skip_trivia(s, pos) {
            Trivia::Clean { next } => pos <= next <= s.len(),
            Trivia::Bad { at } => at == s.len(),
        },
    decreases s.len() - pos,
{
    if 0 <= pos < s.len() {
        if is_ws(s[pos]) {
            lemma_skip_trivia_bounds(s, pos + 1);
        } else if s[pos] == 0x2f && at_is(s, pos + 1, 0x2f) {
            lemma_line_end_bounds(s, pos + 2);
            lemma_skip_trivia_bounds(s, line_end(s, pos + 2));
        } else if s[pos] == 0x2f && at_is(s, pos + 1, 0x2a) {
            if block_close(s, false, pos + 2) is Some {
                lemma_block_close_bounds(s, false, pos + 2);
                lemma_skip_trivia_bounds(s, block_close(s, false, pos + 2)->Some_0);
            }
        }
    }
}

/// A string-literal scan ends within the source and strictly past
/// where it started, and an error in it is found within the source.
pub proof fn lemma_str_scan_bounds(s: Seq<u8>, pos: int, acc: Seq<u8>)
    requires
        0 <= pos,
    ensures
        match str_scan(s, pos, acc) {
            Scanned::Tok { t, end } => pos < end <= s.len(),
            Scanned::Fail { kind, at } => at <= s.len(),
        },
    decreases s.len() - pos,
{
    if 0 <= pos < s.len() {
        if s[pos] == 0x22 {
        } else if s[pos] == 0x5c {
            if pos + 1 < s.len() && is_valid_escape(s[pos + 1]) {
                lemma_str_scan_bounds(s, pos + 2, acc + seq![0x5cu8, s[pos + 1]]);
            }
        } else if !is_raw_control(s[pos]) {
            lemma_str_scan_bounds(s, pos + 1, acc.push(s[pos]));
        }
    }
}

/// The token beginning at a position inside the source ends within
/// the source and strictly past where it started, and an error is
/// found within the source; at or past the end, the token is `EOF`
/// and consumes nothing.
pub proof fn lemma_token_at_bounds(s: Seq<u8>, pos: int)
    requires
        0 <= pos,
    ensures
        match token_at(s, pos) {
            Scanned::Tok { t, end } => if pos < s.len() {
                pos < end <= s.len()
            } else {
                t == TokModel::Fixed(TokenKind::EOF) && end == pos
            },
            Scanned::Fail { kind, at } => at <= s.len(),
        },
{
    if pos < s.len() {
        let b = s[pos];
        lemma_digit_run_end_bounds(s, pos + 1);
        if b == 0x22 {
            lemma_str_scan_bounds(s, pos + 1, Seq::empty());
        } else if is_ident_start(b) {
            assert(ident_run_end(s, pos) == ident_run_end(s, pos + 1));
            lemma_ident_run_end_bounds(s, pos + 1);
        } else if is_digit(b) {
            assert(digit_run_end(s, pos) == digit_run_end(s, pos + 1));
            let int_end = digit_run_end(s, pos);
            if int_end < s.len() && s[int_end] == 0x2e {
                lemma_digit_run_end_bounds(s, int_end + 1);
            }
        }
    }
}

/// Progress: a token other than `EOF` always consumes at least one
/// byte and ends within the source, the `EOF` token stands exactly
/// at the end, and an error is found within the source. Driving the
/// scanner to `EOF` therefore always terminates.
pub proof fn lemma_lex_spec_progress(s: Seq<u8>, pos: int)
    requires
        0 <= pos <= s.len(),
    ensures
        match lex_spec(s, pos) {
            Scanned::Tok { t, end } => pos <= end <= s.len() && (t != TokModel::Fixed(
                TokenKind::EOF,
            ) ==> end > pos) && (t == TokModel::Fixed(TokenKind::EOF) ==> end == s.len()),
            Scanned::Fail { kind, at } => at <= s.len(),
        },
{
    lemma_skip_trivia_bounds(s, pos);
    if skip_trivia(s, pos) is Clean {
        let next = skip_trivia(s, pos)->Clean_next;
        lemma_token_at_bounds(s, next);
        if next < s.len() {
            if token_at(s, next) is Tok {
                let t = token_at(s, next)->Tok_t;
                lemma_token_at_not_eof(s, next);
            }
        }
    }
}

/// Inside the source, the token beginning at a position is never
/// `EOF`.
proof fn lemma_token_at_not_eof(s: Seq<u8>, pos: int)
    requires
        0 <= pos < s.len(),
        token_at(s, pos) is Tok,
    ensures
        token_at(s, pos)->Tok_t != TokModel::Fixed(TokenKind::EOF),
{
    let b = s[pos];
    if b == 0x22 {
        lemma_str_scan_not_eof(s, pos + 1, Seq::empty());
    }
}

/// A string-literal scan never reports the `EOF` token.
proof fn lemma_str_scan_not_eof(s: Seq<u8>, pos: int, acc: Seq<u8>)
    requires
        str_scan(s, pos, acc) is Tok,
    ensures
        str_scan(s, pos, acc)->Tok_t != TokModel::Fixed(TokenKind::EOF),
    decreases s.len() - pos,
{
    if 0 <= pos < s.len() {
        if s[pos] == 0x22 {
        } else if s[pos] == 0x5c {
            if pos + 1 < s.len() && is_valid_escape(s[pos + 1]) {
                lemma_str_scan_not_eof(s, pos + 2, acc + seq![0x5cu8, s[pos + 1]]);
            }
        } else if !is_raw_control(s[pos]) {
            lemma_str_scan_not_eof(s, pos + 1, acc.push(s[pos]));
        }
    }
}

} // verus!
