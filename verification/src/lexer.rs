//! The executable scanner. [`Lexer::lex`] returns one token per call
//! and is proved to return exactly what [`crate::scan::lex_spec`]
//! says of the source bytes and the cursor position.

use vstd::prelude::*;
use crate::scan;
use crate::scan::{
    LexError, LexErrorKind, Scanned, Trivia, block_close, char_scan, chars_of, count_nl,
    dec_value, digit_run_end, ident_run_end, ident_scan, is_digit, is_ident_cont,
    is_ident_start, is_raw_control, is_valid_escape, is_ws, lemma_count_nl_bounds,
    lemma_dec_value_step, lex_spec, line_end, number_scan, str_scan,
};
use crate::token::{TokenKind, abs, bytes_to_string};

verus! {

/// Whether a byte is whitespace, as [`is_ws`] classifies it.
fn is_ws_byte(b: u8) -> (r: bool)
    ensures
        r == is_ws(b),
{
    b == 0x09 || b == 0x0a || b == 0x0b || b == 0x0c || b == 0x0d || b == 0x20 || b == 0x85
        || b == 0xa0
}

/// Whether a byte is a decimal digit, as [`is_digit`] classifies it.
fn is_digit_byte(b: u8) -> (r: bool)
    ensures
        r == is_digit(b),
{
    0x30 <= b && b <= 0x39
}

/// Whether a byte may start an identifier, as [`is_ident_start`]
/// classifies it.
fn is_ident_start_byte(b: u8) -> (r: bool)
    ensures
        r == is_ident_start(b),
{
    (0x41 <= b && b <= 0x5a) || (0x61 <= b && b <= 0x7a) || b == 0x5f
}

/// Whether a byte may continue an identifier, as [`is_ident_cont`]
/// classifies it.
fn is_ident_cont_byte(b: u8) -> (r: bool)
    ensures
        r == is_ident_cont(b),
{
    (0x41 <= b && b <= 0x5a) || (0x61 <= b && b <= 0x7a) || (0x30 <= b && b <= 0x39)
        || b == 0x5f
}

/// Whether a byte belongs to the escape alphabet, as
/// [`is_valid_escape`] classifies it.
fn is_valid_escape_sequence_char(c: u8) -> (r: bool)
    ensures
        r == is_valid_escape(c),
{
    c == 0x61 || c == 0x62 || c == 0x66 || c == 0x6e || c == 0x72 || c == 0x74 || c == 0x76
        || c == 0x5c || c == 0x27 || c == 0x22
}

/// Whether a byte is a control or quote byte that may not stand raw
/// inside a literal, as [`is_raw_control`] classifies it.
fn is_escape(c: u8) -> (r: bool)
    ensures
        r == is_raw_control(c),
{
    c == 0x07 || c == 0x08 || c == 0x09 || c == 0x0a || c == 0x0b || c == 0x0c || c == 0x0d
        || c == 0x22 || c == 0x27 || c == 0x5c
}

/// A pull-based scanner over a byte source held in memory. The
/// cursor has three states by construction: before the end it points
/// at the current byte, at the end it reports end-of-input, and it
/// never conflates a byte value with the absence of one.
pub struct Lexer {
    input: Vec<u8>,
    pos: usize,
    line: usize,
}

impl Lexer {
    /// The source bytes being scanned.
    pub closed spec fn src(self) -> Seq<u8> {
        self.input@
    }

    /// The cursor: how many bytes have been consumed.
    pub closed spec fn at(self) -> int {
        self.pos as int
    }

    /// The diagnostic line counter carried by the scanner.
    pub closed spec fn line_no(self) -> int {
        self.line as int
    }

    /// Well-formed: the cursor is within the source and the line
    /// counter counts exactly the newlines already consumed.
    pub closed spec fn wf(self) -> bool {
        self.pos <= self.input.len() && self.line == count_nl(self.input@, self.pos as int)
    }

    /// A scanner at the start of the given source bytes.
    pub fn new(source: Vec<u8>) -> (r: Lexer)
        ensures
            r.wf(),
            r.src() == source@,
            r.at() == 0,
            r.line_no() == 0,
    {
        Lexer { input: source, pos: 0, line: 0 }
    }

    /// The current byte, or `None` once the source is exhausted.
    fn peek(&self) -> (r: Option<u8>)
        ensures
            r == if self.at() < self.src().len() {
                Some(self.src()[self.at()])
            } else {
                None::<u8>
            },
    {
        if self.pos < self.input.len() {
            Some(self.input[self.pos])
        } else {
            None
        }
    }

    /// The byte one past the current one, or `None` if there is none:
    /// the single extra byte of lookahead the grammar ever needs.
    fn peek_next(&self) -> (r: Option<u8>)
        requires
            self.wf(),
        ensures
            r == if self.at() + 1 < self.src().len() {
                Some(self.src()[self.at() + 1])
            } else {
                None::<u8>
            },
    {
        if self.input.len() - self.pos >= 2 {
            Some(self.input[self.pos + 1])
        } else {
            None
        }
    }

    /// Consume the current byte, counting it if it is a newline.
    fn advance(&mut self)
        requires
            old(self).wf(),
            old(self).at() < old(self).src().len(),
        ensures
            final(self).wf(),
            final(self).src() == old(self).src(),
            final(self).at() == old(self).at() + 1,
    {
        proof {
            lemma_count_nl_bounds(self.input@, self.pos as int);
        }
        if self.input[self.pos] == 0x0a {
            self.line = self.line + 1;
        }
        self.pos = self.pos + 1;
    }

    /// Consume whitespace, line comments and block comments, stopping
    /// at the first meaningful byte (or the end of the source); an
    /// unterminated block comment is the one error this step can
    /// raise.
    #[verifier::loop_isolation(false)]
    fn skip_trivia(&mut self) -> (r: Result<(), LexError>)
        requires
            old(self).wf(),
        ensures
            final(self).wf(),
            final(self).src() == old(self).src(),
            match scan::skip_trivia(old(self).src(), old(self).at()) {
                Trivia::Clean { next } => r is Ok && final(self).at() == next,
                Trivia::Bad { at } => r is Err && r->Err_0.kind
                    == LexErrorKind::UnterminatedComment && final(self).at() == at
                    && r->Err_0.line == count_nl(old(self).src(), at),
            },
    {
        let ghost s = old(self).src();
        let ghost start = old(self).at();
        loop
            invariant
                self.wf(),
                self.src() == s,
                start <= self.at() <= s.len(),
                scan::skip_trivia(s, start) == scan::skip_trivia(s, self.at()),
            decreases s.len() - self.at(),
        {
            match self.peek() {
                None => {
                    return Ok(());
                },
                Some(b) => {
                    if is_ws_byte(b) {
                        self.advance();
                    } else if b == 0x2f {
                        let ghost p = self.at();
                        match self.peek_next() {
                            Some(0x2f) => {
                                // line comment: through the end of the
                                // line, exclusive of the newline
                                self.advance();
                                self.advance();
                                loop
                                    invariant
                                        self.wf(),
                                        self.src() == s,
                                        p + 2 <= self.at() <= s.len(),
                                        line_end(s, p + 2) == line_end(s, self.at()),
                                    decreases s.len() - self.at(),
                                {
                                    match self.peek() {
                                        None => { break; },
                                        Some(c) => {
                                            if c == 0x0a {
                                                break;
                                            }
                                            self.advance();
                                        },
                                    }
                                }
                            },
                            Some(0x2a) => {
                                // block comment: through the closing `*/`
                                self.advance();
                                self.advance();
                                let mut star = false;
                                loop
                                    invariant
                                        self.wf(),
                                        self.src() == s,
                                        p + 2 <= self.at() <= s.len(),
                                        block_close(s, false, p + 2) == block_close(
                                            s,
                                            star,
                                            self.at(),
                                        ),
                                    decreases s.len() - self.at(),
                                {
                                    match self.peek() {
                                        None => {
                                            return Err(
                                                LexError {
                                                    kind: LexErrorKind::UnterminatedComment,
                                                    line: self.line,
                                                },
                                            );
                                        },
                                        Some(c) => {
                                            self.advance();
                                            if star && c == 0x2f {
                                                break;
                                            }
                                            star = c == 0x2a;
                                        },
                                    }
                                }
                            },
                            _ => {
                                return Ok(());
                            },
                        }
                    } else {
                        return Ok(());
                    }
                },
            }
        }
    }

    /// Consume the maximal digit run at the cursor and return its
    /// spelling: the fractional part of a float literal (possibly
    /// empty).
    #[verifier::loop_isolation(false)]
    fn handle_decimal(&mut self) -> (r: String)
        requires
            old(self).wf(),
        ensures
            final(self).wf(),
            final(self).src() == old(self).src(),
            final(self).at() == digit_run_end(old(self).src(), old(self).at()),
            r@ == chars_of(old(self).src().subrange(old(self).at(), final(self).at())),
    {
        let ghost s = self.src();
        let ghost start = self.at();
        let mut digs: Vec<u8> = Vec::new();
        loop
            invariant
                self.wf(),
                self.src() == s,
                start <= self.at() <= s.len(),
                digit_run_end(s, start) == digit_run_end(s, self.at()),
                digs@ == s.subrange(start, self.at()),
            decreases s.len() - self.at(),
        {
            match self.peek() {
                Some(c) => {
                    if is_digit_byte(c) {
                        digs.push(c);
                        self.advance();
                        assert(digs@ =~= s.subrange(start, self.at()));
                    } else {
                        break;
                    }
                },
                None => {
                    break;
                },
            }
        }
        bytes_to_string(&digs)
    }

    /// Scan the numeric literal whose first digit stands at the
    /// cursor, as [`number_scan`] describes it.
    #[verifier::loop_isolation(false)]
    fn handle_number(&mut self) -> (r: Result<TokenKind, LexError>)
        requires
            old(self).wf(),
            old(self).at() < old(self).src().len(),
            is_digit(old(self).src()[old(self).at()]),
        ensures
            final(self).wf(),
            final(self).src() == old(self).src(),
            match number_scan(old(self).src(), old(self).at()) {
                Scanned::Tok { t, end } => r is Ok && abs(r->Ok_0) == t
                    && final(self).at() == end,
                Scanned::Fail { kind, at } => r is Err && r->Err_0.kind == kind
                    && final(self).at() == at
                    && r->Err_0.line == count_nl(old(self).src(), at),
            },
    {
        let ghost s = self.src();
        let ghost start = self.at();
        let mut acc: u64 = 0;
        let mut over = false;
        loop
            invariant
                self.wf(),
                self.src() == s,
                start <= self.at() <= s.len(),
                digit_run_end(s, start) == digit_run_end(s, self.at()),
                !over ==> acc == dec_value(s.subrange(start, self.at())) && acc <= i32::MAX
                    as u64,
                over ==> dec_value(s.subrange(start, self.at())) > i32::MAX as int,
            decreases s.len() - self.at(),
        {
            match self.peek() {
                Some(c) => {
                    if is_digit_byte(c) {
                        proof {
                            lemma_dec_value_step(s, start, self.at());
                        }
                        if !over {
                            let cand: u64 = acc * 10 + ((c - 0x30) as u64);
                            if cand > 2147483647 {
                                over = true;
                            } else {
                                acc = cand;
                            }
                        }
                        self.advance();
                    } else {
                        break;
                    }
                },
                None => {
                    break;
                },
            }
        }
        if over {
            return Err(LexError { kind: LexErrorKind::NumericOverflow, line: self.line });
        }
        let int_val: i32 = acc as i32;
        match self.peek() {
            Some(0x2e) => {
                self.advance();
                let frac = self.handle_decimal();
                Ok(TokenKind::FloatLiteral(int_val, frac))
            },
            _ => Ok(TokenKind::IntLiteral(int_val)),
        }
    }

    /// Scan the string literal whose opening quote stands at the
    /// cursor, as [`str_scan`] describes it: escape sequences are
    /// kept verbatim and the quotes are excluded from the payload.
    #[verifier::loop_isolation(false)]
    fn handle_strings(&mut self) -> (r: Result<TokenKind, LexError>)
        requires
            old(self).wf(),
            old(self).at() < old(self).src().len(),
            old(self).src()[old(self).at()] == 0x22,
        ensures
            final(self).wf(),
            final(self).src() == old(self).src(),
            match str_scan(old(self).src(), old(self).at() + 1, Seq::empty()) {
                Scanned::Tok { t, end } => r is Ok && abs(r->Ok_0) == t
                    && final(self).at() == end,
                Scanned::Fail { kind, at } => r is Err && r->Err_0.kind == kind
                    && final(self).at() == at
                    && r->Err_0.line == count_nl(old(self).src(), at),
            },
    {
        let ghost s = self.src();
        self.advance();
        let ghost q0 = self.at();
        let mut acc: Vec<u8> = Vec::new();
        loop
            invariant
                self.wf(),
                self.src() == s,
                q0 <= self.at() <= s.len(),
                str_scan(s, q0, Seq::empty()) == str_scan(s, self.at(), acc@),
            decreases s.len() - self.at(),
        {
            match self.peek() {
                None => {
                    return Err(
                        LexError {
                            kind: LexErrorKind::UnterminatedStringLiteral,
                            line: self.line,
                        },
                    );
                },
                Some(c) => {
                    if c == 0x22 {
                        self.advance();
                        return Ok(TokenKind::StringLiteral(bytes_to_string(&acc)));
                    } else if c == 0x5c {
                        let ghost acc0 = acc@;
                        acc.push(0x5c);
                        self.advance();
                        match self.peek() {
                            None => {
                                return Err(
                                    LexError {
                                        kind: LexErrorKind::InvalidEscapeSequence,
                                        line: self.line,
                                    },
                                );
                            },
                            Some(e) => {
                                if is_valid_escape_sequence_char(e) {
                                    acc.push(e);
                                    self.advance();
                                    assert(acc@ =~= acc0 + seq![0x5cu8, e]);
                                } else {
                                    return Err(
                                        LexError {
                                            kind: LexErrorKind::InvalidEscapeSequence,
                                            line: self.line,
                                        },
                                    );
                                }
                            },
                        }
                    } else if is_escape(c) {
                        return Err(
                            LexError {
                                kind: LexErrorKind::RawControlCharacterInLiteral,
                                line: self.line,
                            },
                        );
                    } else {
                        acc.push(c);
                        self.advance();
                    }
                },
            }
        }
    }

    /// Scan the character literal whose opening quote stands at the
    /// cursor, as [`char_scan`] describes it: exactly one plain
    /// character or escape sequence, then the closing quote.
    #[verifier::loop_isolation(false)]
    fn handle_char(&mut self) -> (r: Result<TokenKind, LexError>)
        requires
            old(self).wf(),
            old(self).at() < old(self).src().len(),
            old(self).src()[old(self).at()] == 0x27,
        ensures
            final(self).wf(),
            final(self).src() == old(self).src(),
            match char_scan(old(self).src(), old(self).at() + 1) {
                Scanned::Tok { t, end } => r is Ok && abs(r->Ok_0) == t
                    && final(self).at() == end,
                Scanned::Fail { kind, at } => r is Err && r->Err_0.kind == kind
                    && final(self).at() == at
                    && r->Err_0.line == count_nl(old(self).src(), at),
            },
    {
        let ghost s = self.src();
        self.advance();
        let mut content: Vec<u8> = Vec::new();
        match self.peek() {
            None => {
                return Err(
                    LexError { kind: LexErrorKind::UnterminatedCharLiteral, line: self.line },
                );
            },
            Some(c) => {
                if c == 0x27 {
                    return Err(
                        LexError { kind: LexErrorKind::EmptyCharLiteral, line: self.line },
                    );
                } else if c == 0x5c {
                    content.push(0x5c);
                    self.advance();
                    match self.peek() {
                        None => {
                            return Err(
                                LexError {
                                    kind: LexErrorKind::InvalidEscapeSequence,
                                    line: self.line,
                                },
                            );
                        },
                        Some(e) => {
                            if is_valid_escape_sequence_char(e) {
                                content.push(e);
                                self.advance();
                                assert(content@ =~= seq![0x5cu8, e]);
                            } else {
                                return Err(
                                    LexError {
                                        kind: LexErrorKind::InvalidEscapeSequence,
                                        line: self.line,
                                    },
                                );
                            }
                        },
                    }
                } else if is_escape(c) {
                    return Err(
                        LexError {
                            kind: LexErrorKind::RawControlCharacterInLiteral,
                            line: self.line,
                        },
                    );
                } else {
                    content.push(c);
                    self.advance();
                    assert(content@ =~= seq![c]);
                }
            },
        }
        match self.peek() {
            None => {
                Err(LexError { kind: LexErrorKind::UnterminatedCharLiteral, line: self.line })
            },
            Some(q) => {
                if q == 0x27 {
                    self.advance();
                    Ok(TokenKind::CharLiteral(bytes_to_string(&content)))
                } else {
                    Err(
                        LexError {
                            kind: LexErrorKind::UnterminatedCharLiteral,
                            line: self.line,
                        },
                    )
                }
            },
        }
    }

    /// Scan the identifier whose first byte stands at the cursor and
    /// classify it by the keyword table, as [`ident_scan`] describes
    /// it.
    #[verifier::loop_isolation(false)]
    fn handle_identifers_and_keywords(&mut self) -> (r: TokenKind)
        requires
            old(self).wf(),
            old(self).at() < old(self).src().len(),
            is_ident_start(old(self).src()[old(self).at()]),
        ensures
            final(self).wf(),
            final(self).src() == old(self).src(),
            ident_scan(old(self).src(), old(self).at()) == (Scanned::Tok {
                t: abs(r),
                end: final(self).at(),
            }),
    {
        let ghost s = self.src();
        let ghost start = self.at();
        let mut word: Vec<u8> = Vec::new();
        loop
            invariant
                self.wf(),
                self.src() == s,
                start <= self.at() <= s.len(),
                ident_run_end(s, start) == ident_run_end(s, self.at()),
                word@ == s.subrange(start, self.at()),
            decreases s.len() - self.at(),
        {
            match self.peek() {
                Some(c) => {
                    if is_ident_cont_byte(c) {
                        word.push(c);
                        self.advance();
                        assert(word@ =~= s.subrange(start, self.at()));
                    } else {
                        break;
                    }
                },
                None => {
                    break;
                },
            }
        }
        let w = bytes_to_string(&word);
        if w == String::from_str("break") {
            TokenKind::BreakKeyword
        } else if w == String::from_str("default") {
            TokenKind::DefaultKeyword
        } else if w == String::from_str("func") {
            TokenKind::FuncKeyword
        } else if w == String::from_str("interface") {
            TokenKind::InterfaceKeyword
        } else if w == String::from_str("select") {
            TokenKind::SelectKeyword
        } else if w == String::from_str("case") {
            TokenKind::CaseKeyword
        } else if w == String::from_str("defer") {
            TokenKind::DeferKeyword
        } else if w == String::from_str("go") {
            TokenKind::GoKeyword
        } else if w == String::from_str("map") {
            TokenKind::MapKeyword
        } else if w == String::from_str("struct") {
            TokenKind::StructKeyword
        } else if w == String::from_str("chan") {
            TokenKind::ChanKeyword
        } else if w == String::from_str("else") {
            TokenKind::ElseKeyword
        } else if w == String::from_str("goto") {
            TokenKind::GotoKeyword
        } else if w == String::from_str("package") {
            TokenKind::PackageKeyword
        } else if w == String::from_str("switch") {
            TokenKind::SwitchKeyword
        } else if w == String::from_str("const") {
            TokenKind::ConstKeyword
        } else if w == String::from_str("fallthrough") {
            TokenKind::FallThroughKeyword
        } else if w == String::from_str("if") {
            TokenKind::IfKeyword
        } else if w == String::from_str("range") {
            TokenKind::RangeKeyword
        } else if w == String::from_str("type") {
            TokenKind::TypeKeyword
        } else if w == String::from_str("continue") {
            TokenKind::ContinueKeyword
        } else if w == String::from_str("for") {
            TokenKind::ForKeyword
        } else if w == String::from_str("import") {
            TokenKind::ImportKeyword
        } else if w == String::from_str("return") {
            TokenKind::ReturnKeyword
        } else if w == String::from_str("var") {
            TokenKind::VarKeyword
        } else {
            TokenKind::Identifier(w)
        }
    }

    /// Scan the operator family beginning with `<`: channel
    /// direction, shifts, comparison, under maximal munch.
    fn handle_less_than(&mut self) -> (r: TokenKind)
        requires
            old(self).wf(),
            old(self).at() < old(self).src().len(),
            old(self).src()[old(self).at()] == 0x3c,
        ensures
            final(self).wf(),
            final(self).src() == old(self).src(),
            scan::token_at(old(self).src(), old(self).at()) == (Scanned::Tok {
                t: abs(r),
                end: final(self).at(),
            }),
    {
        self.advance();
        match self.peek() {
            Some(0x2d) => {
                self.advance();
                TokenKind::DirectionOp
            },
            Some(0x3c) => {
                self.advance();
                match self.peek() {
                    Some(0x3d) => {
                        self.advance();
                        TokenKind::LShiftEqOp
                    },
                    _ => TokenKind::LShiftOp,
                }
            },
            Some(0x3d) => {
                self.advance();
                TokenKind::LogicLessEqOp
            },
            _ => TokenKind::LogicLessOp,
        }
    }

    /// Scan the operator family beginning with `>`: right shifts
    /// (spelled `><` in this grammar) and comparison, under maximal
    /// munch.
    fn handle_greater_than(&mut self) -> (r: TokenKind)
        requires
            old(self).wf(),
            old(self).at() < old(self).src().len(),
            old(self).src()[old(self).at()] == 0x3e,
        ensures
            final(self).wf(),
            final(self).src() == old(self).src(),
            scan::token_at(old(self).src(), old(self).at()) == (Scanned::Tok {
                t: abs(r),
                end: final(self).at(),
            }),
    {
        self.advance();
        match self.peek() {
            Some(0x3c) => {
                self.advance();
                match self.peek() {
                    Some(0x3d) => {
                        self.advance();
                        TokenKind::RShiftEqOp
                    },
                    _ => TokenKind::RShiftOp,
                }
            },
            Some(0x3d) => {
                self.advance();
                TokenKind::LogicGreaterEqOp
            },
            _ => TokenKind::LogicGreaterOp,
        }
    }

    /// Produce the next token, or the first lexical error, exactly as
    /// [`lex_spec`] describes it for the current source and cursor.
    /// At the end of the source the token is `EOF`, on every call.
    pub fn lex(&mut self) -> (r: Result<TokenKind, LexError>)
        requires
            old(self).wf(),
        ensures
            final(self).wf(),
            final(self).src() == old(self).src(),
            final(self).line_no() == count_nl(old(self).src(), final(self).at()),
            match lex_spec(old(self).src(), old(self).at()) {
                Scanned::Tok { t, end } => r is Ok && abs(r->Ok_0) == t
                    && final(self).at() == end,
                Scanned::Fail { kind, at } => r is Err && r->Err_0.kind == kind
                    && final(self).at() == at
                    && r->Err_0.line == count_nl(old(self).src(), at),
            },
    {
        let ghost s = self.src();
        match self.skip_trivia() {
            Err(e) => {
                return Err(e);
            },
            Ok(()) => {},
        }
        match self.peek() {
            None => Ok(TokenKind::EOF),
            Some(b) => match b {
                0x28 => {
                    self.advance();
                    Ok(TokenKind::LeftParen)
                },
                0x29 => {
                    self.advance();
                    Ok(TokenKind::RightParen)
                },
                0x7b => {
                    self.advance();
                    Ok(TokenKind::LeftBrace)
                },
                0x7d => {
                    self.advance();
                    Ok(TokenKind::RightBrace)
                },
                0x5b => {
                    self.advance();
                    Ok(TokenKind::LeftBracket)
                },
                0x5d => {
                    self.advance();
                    Ok(TokenKind::RightBracket)
                },
                0x7e => {
                    self.advance();
                    Ok(TokenKind::BitNotOp)
                },
                0x3b => {
                    self.advance();
                    Ok(TokenKind::Semicolon)
                },
                0x2c => {
                    self.advance();
                    Ok(TokenKind::Comma)
                },
                0x2b => {
                    self.advance();
                    match self.peek() {
                        Some(0x2b) => {
                            self.advance();
                            Ok(TokenKind::IncrementOp)
                        },
                        Some(0x3d) => {
                            self.advance();
                            Ok(TokenKind::PlusEqOp)
                        },
                        _ => Ok(TokenKind::PlusOp),
                    }
                },
                0x2d => {
                    self.advance();
                    match self.peek() {
                        Some(0x2d) => {
                            self.advance();
                            Ok(TokenKind::DecrementOp)
                        },
                        Some(0x3d) => {
                            self.advance();
                            Ok(TokenKind::MinusEqOp)
                        },
                        _ => Ok(TokenKind::MinusOp),
                    }
                },
                0x2a => {
                    self.advance();
                    match self.peek() {
                        Some(0x3d) => {
                            self.advance();
                            Ok(TokenKind::StarEqOp)
                        },
                        _ => Ok(TokenKind::StarOp),
                    }
                },
                0x2f => {
                    // any comment was consumed while skipping trivia
                    self.advance();
                    match self.peek() {
                        Some(0x3d) => {
                            self.advance();
                            Ok(TokenKind::DivEqOp)
                        },
                        _ => Ok(TokenKind::DivOp),
                    }
                },
                0x25 => {
                    self.advance();
                    match self.peek() {
                        Some(0x3d) => {
                            self.advance();
                            Ok(TokenKind::ModEqOp)
                        },
                        _ => Ok(TokenKind::ModOp),
                    }
                },
                0x3d => {
                    self.advance();
                    match self.peek() {
                        Some(0x3d) => {
                            self.advance();
                            Ok(TokenKind::LogicEqOp)
                        },
                        _ => Ok(TokenKind::EqOp),
                    }
                },
                0x3a => {
                    self.advance();
                    match self.peek() {
                        Some(0x3d) => {
                            self.advance();
                            Ok(TokenKind::AssignOp)
                        },
                        _ => Ok(TokenKind::Colon),
                    }
                },
                0x26 => {
                    self.advance();
                    match self.peek() {
                        Some(0x26) => {
                            self.advance();
                            Ok(TokenKind::LogicAndOp)
                        },
                        Some(0x3d) => {
                            self.advance();
                            Ok(TokenKind::BitAndEqOp)
                        },
                        Some(0x5e) => {
                            self.advance();
                            match self.peek() {
                                Some(0x3d) => {
                                    self.advance();
                                    Ok(TokenKind::BitClearEqOp)
                                },
                                _ => Ok(TokenKind::BitClearOp),
                            }
                        },
                        _ => Ok(TokenKind::BitAndOp),
                    }
                },
                0x7c => {
                    self.advance();
                    match self.peek() {
                        Some(0x7c) => {
                            self.advance();
                            Ok(TokenKind::LogicOrOp)
                        },
                        Some(0x3d) => {
                            self.advance();
                            Ok(TokenKind::BitOrEqOp)
                        },
                        _ => Ok(TokenKind::BitOrOp),
                    }
                },
                0x5e => {
                    self.advance();
                    match self.peek() {
                        Some(0x3d) => {
                            self.advance();
                            Ok(TokenKind::BitXorEqOp)
                        },
                        _ => Ok(TokenKind::BitXorOp),
                    }
                },
                0x21 => {
                    self.advance();
                    match self.peek() {
                        Some(0x3d) => {
                            self.advance();
                            Ok(TokenKind::LogicNotEqOp)
                        },
                        _ => Ok(TokenKind::LogicNotOp),
                    }
                },
                0x3c => Ok(self.handle_less_than()),
                0x3e => Ok(self.handle_greater_than()),
                0x2e => {
                    self.advance();
                    match self.peek() {
                        Some(0x2e) => {
                            self.advance();
                            match self.peek() {
                                Some(0x2e) => {
                                    self.advance();
                                    Ok(TokenKind::Elipses)
                                },
                                _ => Err(
                                    LexError {
                                        kind: LexErrorKind::MalformedEllipsis,
                                        line: self.line,
                                    },
                                ),
                            }
                        },
                        Some(c) => {
                            if is_digit_byte(c) {
                                // a float below one, with no leading zero
                                let frac = self.handle_decimal();
                                Ok(TokenKind::FloatLiteral(0, frac))
                            } else {
                                Ok(TokenKind::Dot)
                            }
                        },
                        None => Ok(TokenKind::Dot),
                    }
                },
                0x22 => self.handle_strings(),
                0x27 => self.handle_char(),
                _ => {
                    if is_ident_start_byte(b) {
                        Ok(self.handle_identifers_and_keywords())
                    } else if is_digit_byte(b) {
                        self.handle_number()
                    } else {
                        Err(LexError { kind: LexErrorKind::UnknownCharacter, line: self.line })
                    }
                },
            },
        }
    }
}

} // verus!
