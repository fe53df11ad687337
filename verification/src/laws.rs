//! General laws of the scanner, proved once and for all inputs from
//! the model in [`crate::scan`]. Because [`crate::lexer::Lexer::lex`]
//! is proved to follow [`lex_spec`] exactly, each law holds of the
//! running scanner as well.

use vstd::prelude::*;
use crate::scan::{
    LexErrorKind, Scanned, at_is, block_close, digit_run_end, ident_run_end, is_ws,
    lemma_block_close_bounds, lemma_digit_run_end_bounds, lemma_ident_run_end_bounds,
    lemma_lex_spec_progress, lemma_line_end_bounds, lex_spec, line_end, skip_trivia,
    str_scan, token_at, Trivia,
};
use crate::token::{TokModel, TokenKind};

verus! {

/// The source from `pos` on consists solely of whitespace and
/// comments: every byte is inside whitespace, a line comment (which
/// may run to the end of the source), or a closed block comment.
pub open spec fn trivia_only(s: Seq<u8>, pos: int) -> bool
    decreases s.len() - pos,
        via trivia_only_decreases
{
    if !(0 <= pos < s.len()) {
        true
    } else if is_ws(s[pos]) {
        trivia_only(s, pos + 1)
    } else if s[pos] == 0x2f && at_is(s, pos + 1, 0x2f) {
        trivia_only(s, line_end(s, pos + 2))
    } else if s[pos] == 0x2f && at_is(s, pos + 1, 0x2a) {
        match block_close(s, false, pos + 2) {
            Some(e) => trivia_only(s, e),
            None => false,
        }
    } else {
        false
    }
}

#[via_fn]
proof fn trivia_only_decreases(s: Seq<u8>, pos: int) {
    if 0 <= pos < s.len() && pos + 2 <= s.len() {
        lemma_line_end_bounds(s, pos + 2);
        if block_close(s, false, pos + 2) is Some {
            lemma_block_close_bounds(s, false, pos + 2);
        }
    }
}

/// On a source consisting solely of whitespace and comments, the
/// only token the scanner produces is `EOF`, reported at the end of
/// the source.
pub proof fn lemma_trivia_only_yields_eof(s: Seq<u8>, pos: int)
    requires
        0 <= pos <= s.len(),
        trivia_only(s, pos),
    ensures
        lex_spec(s, pos) == (Scanned::Tok {
            t: TokModel::Fixed(TokenKind::EOF),
            end: s.len() as int,
        }),
    decreases s.len() - pos,
{
    if 0 <= pos < s.len() {
        if is_ws(s[pos]) {
            lemma_trivia_only_yields_eof(s, pos + 1);
        } else if s[pos] == 0x2f && at_is(s, pos + 1, 0x2f) {
            lemma_line_end_bounds(s, pos + 2);
            lemma_trivia_only_yields_eof(s, line_end(s, pos + 2));
        } else {
            lemma_block_close_bounds(s, false, pos + 2);
            let e = block_close(s, false, pos + 2)->Some_0;
            lemma_trivia_only_yields_eof(s, e);
        }
    }
}

/// Maximal munch on the compound left-shift assignment: wherever the
/// three bytes `<<=` stand at the scan position, the scanner
/// produces exactly one `LShiftEqOp` token spanning all three bytes,
/// never a `LShiftOp` followed by an `EqOp`.
pub proof fn lemma_maximal_munch_left_shift_assign(s: Seq<u8>, pos: int)
    requires
        0 <= pos,
        pos + 3 <= s.len(),
        s[pos] == 0x3c,
        s[pos + 1] == 0x3c,
        s[pos + 2] == 0x3d,
    ensures
        lex_spec(s, pos) == (Scanned::Tok {
            t: TokModel::Fixed(TokenKind::LShiftEqOp),
            end: pos + 3,
        }),
{
}

/// One run of the scanner over a source, from `pos` to the end: the
/// models of the tokens produced, ending with `EOF`, or the tokens
/// produced before the first lexical error together with that error.
pub ghost enum ScanRun {
    Toks { toks: Seq<TokModel> },
    Failed { toks: Seq<TokModel>, kind: LexErrorKind, at: int },
}

/// The whole token sequence a scanner yields from `pos`. The bounds
/// test on `end` only justifies termination: a token other than
/// `EOF` always ends past its start.
pub open spec fn scan_all(s: Seq<u8>, pos: int) -> ScanRun
    decreases s.len() - pos,
{
    match lex_spec(s, pos) {
        Scanned::Tok { t, end } => {
            if t == TokModel::Fixed(TokenKind::EOF) {
                ScanRun::Toks { toks: seq![t] }
            } else if pos < end <= s.len() {
                match scan_all(s, end) {
                    ScanRun::Toks { toks } => ScanRun::Toks { toks: seq![t] + toks },
                    ScanRun::Failed { toks, kind, at } => ScanRun::Failed {
                        toks: seq![t] + toks,
                        kind,
                        at,
                    },
                }
            } else {
                ScanRun::Toks { toks: seq![t] }
            }
        },
        Scanned::Fail { kind, at } => ScanRun::Failed { toks: Seq::empty(), kind, at },
    }
}

/// A scan that raises no lexical error always reaches the
/// end-of-file token: the consumer that pulls tokens until `EOF`
/// terminates on every source.
pub proof fn lemma_scan_ends_with_eof(s: Seq<u8>, pos: int)
    requires
        0 <= pos <= s.len(),
    ensures
        match scan_all(s, pos) {
            ScanRun::Toks { toks } => toks.len() > 0 && toks.last() == TokModel::Fixed(
                TokenKind::EOF,
            ),
            ScanRun::Failed { toks, kind, at } => true,
        },
    decreases s.len() - pos,
{
    lemma_lex_spec_progress(s, pos);
    match lex_spec(s, pos) {
        Scanned::Tok { t, end } => {
            if t != TokModel::Fixed(TokenKind::EOF) {
                lemma_scan_ends_with_eof(s, end);
            }
        },
        Scanned::Fail { kind, at } => {},
    }
}

/// Scanning the same source twice, each time from a fresh start,
/// yields identical outcomes: the token sequence is a function of
/// the source bytes alone, and the scanner keeps no other state.
pub proof fn lemma_rescan_identical(s1: Seq<u8>, s2: Seq<u8>)
    requires
        s1 == s2,
    ensures
        scan_all(s1, 0) == scan_all(s2, 0),
{
}

/// Two scanners over the same source at the same position report the
/// same token or error: one scan step is deterministic.
pub proof fn lemma_scan_step_deterministic(s: Seq<u8>, pos1: int, pos2: int)
    requires
        pos1 == pos2,
    ensures
        lex_spec(s, pos1) == lex_spec(s, pos2),
{
}

/// At the end of the source the scanner is idempotent: it reports
/// `EOF` without moving, on every further call.
pub proof fn lemma_eof_idempotent(s: Seq<u8>)
    ensures
        lex_spec(s, s.len() as int) == (Scanned::Tok {
            t: TokModel::Fixed(TokenKind::EOF),
            end: s.len() as int,
        }),
{
}

/// Two equally long sources that agree on every byte from `pos` on.
pub open spec fn agree_from(s1: Seq<u8>, s2: Seq<u8>, pos: int) -> bool {
    s1.len() == s2.len() && forall|j: int| pos <= j < s1.len() ==> s1[j] == s2[j]
}

proof fn lemma_line_end_agree(s1: Seq<u8>, s2: Seq<u8>, pos: int)
    requires
        agree_from(s1, s2, pos),
    ensures
        line_end(s1, pos) == line_end(s2, pos),
    decreases s1.len() - pos,
{
    if 0 <= pos < s1.len() && s1[pos] != 0x0a {
        lemma_line_end_agree(s1, s2, pos + 1);
    }
}

proof fn lemma_block_close_agree(s1: Seq<u8>, s2: Seq<u8>, star: bool, pos: int)
    requires
        agree_from(s1, s2, pos),
    ensures
        block_close(s1, star, pos) == block_close(s2, star, pos),
    decreases s1.len() - pos,
{
    if 0 <= pos < s1.len() && !(star && s1[pos] == 0x2f) {
        lemma_block_close_agree(s1, s2, s1[pos] == 0x2a, pos + 1);
    }
}

proof fn lemma_digit_run_end_agree(s1: Seq<u8>, s2: Seq<u8>, pos: int)
    requires
        agree_from(s1, s2, pos),
    ensures
        digit_run_end(s1, pos) == digit_run_end(s2, pos),
    decreases s1.len() - pos,
{
    if 0 <= pos < s1.len() && crate::scan::is_digit(s1[pos]) {
        lemma_digit_run_end_agree(s1, s2, pos + 1);
    }
}

proof fn lemma_ident_run_end_agree(s1: Seq<u8>, s2: Seq<u8>, pos: int)
    requires
        agree_from(s1, s2, pos),
    ensures
        ident_run_end(s1, pos) == ident_run_end(s2, pos),
    decreases s1.len() - pos,
{
    if 0 <= pos < s1.len() && crate::scan::is_ident_cont(s1[pos]) {
        lemma_ident_run_end_agree(s1, s2, pos + 1);
    }
}

proof fn lemma_str_scan_agree(s1: Seq<u8>, s2: Seq<u8>, pos: int, acc: Seq<u8>)
    requires
        agree_from(s1, s2, pos),
        0 <= pos,
    ensures
        str_scan(s1, pos, acc) == str_scan(s2, pos, acc),
    decreases s1.len() - pos,
{
    if 0 <= pos < s1.len() {
        if s1[pos] == 0x22 {
        } else if s1[pos] == 0x5c {
            if pos + 1 < s1.len() && crate::scan::is_valid_escape(s1[pos + 1]) {
                lemma_str_scan_agree(s1, s2, pos + 2, acc + seq![0x5cu8, s1[pos + 1]]);
            }
        } else if !crate::scan::is_raw_control(s1[pos]) {
            lemma_str_scan_agree(s1, s2, pos + 1, acc.push(s1[pos]));
        }
    }
}

proof fn lemma_token_at_agree(s1: Seq<u8>, s2: Seq<u8>, pos: int)
    requires
        agree_from(s1, s2, pos),
        0 <= pos,
    ensures
        token_at(s1, pos) == token_at(s2, pos),
{
    if pos < s1.len() {
        let b = s1[pos];
        if b == 0x22 {
            lemma_str_scan_agree(s1, s2, pos + 1, Seq::empty());
        } else if b == 0x2e {
            if pos + 1 < s1.len() && crate::scan::is_digit(s1[pos + 1]) {
                lemma_digit_run_end_agree(s1, s2, pos + 1);
                lemma_digit_run_end_bounds(s1, pos + 1);
                assert(s1.subrange(pos + 1, digit_run_end(s1, pos + 1)) =~= s2.subrange(
                    pos + 1,
                    digit_run_end(s2, pos + 1),
                ));
            }
        } else if crate::scan::is_ident_start(b) {
            lemma_ident_run_end_agree(s1, s2, pos);
            lemma_ident_run_end_bounds(s1, pos);
            assert(s1.subrange(pos, ident_run_end(s1, pos)) =~= s2.subrange(
                pos,
                ident_run_end(s2, pos),
            ));
        } else if crate::scan::is_digit(b) {
            lemma_digit_run_end_agree(s1, s2, pos);
            lemma_digit_run_end_bounds(s1, pos);
            let e1 = digit_run_end(s1, pos);
            assert(s1.subrange(pos, e1) =~= s2.subrange(pos, e1));
            if e1 < s1.len() && s1[e1] == 0x2e {
                lemma_digit_run_end_agree(s1, s2, e1 + 1);
                lemma_digit_run_end_bounds(s1, e1 + 1);
                assert(s1.subrange(e1 + 1, digit_run_end(s1, e1 + 1)) =~= s2.subrange(
                    e1 + 1,
                    digit_run_end(s2, e1 + 1),
                ));
            }
        }
    }
}

proof fn lemma_skip_trivia_agree(s1: Seq<u8>, s2: Seq<u8>, pos: int)
    requires
        agree_from(s1, s2, pos),
        0 <= pos,
    ensures
        skip_trivia(s1, pos) == skip_trivia(s2, pos),
    decreases s1.len() - pos,
{
    if 0 <= pos < s1.len() {
        if is_ws(s1[pos]) {
            lemma_skip_trivia_agree(s1, s2, pos + 1);
        } else if s1[pos] == 0x2f && at_is(s1, pos + 1, 0x2f) {
            lemma_line_end_agree(s1, s2, pos + 2);
            lemma_line_end_bounds(s1, pos + 2);
            lemma_skip_trivia_agree(s1, s2, line_end(s1, pos + 2));
        } else if s1[pos] == 0x2f && at_is(s1, pos + 1, 0x2a) {
            lemma_block_close_agree(s1, s2, false, pos + 2);
            if block_close(s1, false, pos + 2) is Some {
                lemma_block_close_bounds(s1, false, pos + 2);
                lemma_skip_trivia_agree(s1, s2, block_close(s1, false, pos + 2)->Some_0);
            }
        }
    }
}

/// No backtracking: what the scanner reports at a position depends
/// only on the bytes from that position on. A byte once consumed is
/// never re-examined by a later call.
pub proof fn lemma_no_backtracking(s1: Seq<u8>, s2: Seq<u8>, pos: int)
    requires
        agree_from(s1, s2, pos),
        0 <= pos,
    ensures
        lex_spec(s1, pos) == lex_spec(s2, pos),
{
    lemma_skip_trivia_agree(s1, s2, pos);
    match skip_trivia(s1, pos) {
        Trivia::Clean { next } => {
            lemma_skip_trivia_ahead(s1, pos);
            lemma_token_at_agree(s1, s2, next);
        },
        Trivia::Bad { at } => {},
    }
}

/// Skipping trivia never moves the cursor backwards.
proof fn lemma_skip_trivia_ahead(s: Seq<u8>, pos: int)
    requires
        0 <= pos,
        skip_trivia(s, pos) is Clean,
    ensures
        skip_trivia(s, pos)->Clean_next >= pos,
    decreases s.len() - pos,
{
    if 0 <= pos < s.len() {
        if is_ws(s[pos]) {
            lemma_skip_trivia_ahead(s, pos + 1);
        } else if s[pos] == 0x2f && at_is(s, pos + 1, 0x2f) {
            lemma_line_end_bounds(s, pos + 2);
            lemma_skip_trivia_ahead(s, line_end(s, pos + 2));
        } else if s[pos] == 0x2f && at_is(s, pos + 1, 0x2a) {
            if block_close(s, false, pos + 2) is Some {
                lemma_block_close_bounds(s, false, pos + 2);
                lemma_skip_trivia_ahead(s, block_close(s, false, pos + 2)->Some_0);
            }
        }
    }
}

} // verus!
