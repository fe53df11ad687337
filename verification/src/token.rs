//! The closed set of token kinds the scanner produces, together with
//! their mathematical model and canonical textual rendering.

use vstd::prelude::*;
use crate::scan::chars_of;

verus! {

/// Relies on `String::push` of std: it appends exactly the given
/// character to the string.
pub assume_specification[ String::push ](s: &mut String, c: char)
    ensures
        final(s)@ == old(s)@.push(c),
;

/// The given bytes as a string, one character per byte.
pub fn bytes_to_string(v: &Vec<u8>) -> (r: String)
    ensures
        r@ == chars_of(v@),
{
    let mut r = String::new();
    let mut i: usize = 0;
    while i < v.len()
        invariant
            i <= v.len(),
            r@ == chars_of(v@.subrange(0, i as int)),
        decreases v.len() - i,
    {
        let b = v[i];
        r.push(b as char);
        i = i + 1;
        assert(chars_of(v@.subrange(0, i as int)) =~= chars_of(
            v@.subrange(0, i - 1),
        ).push(b as char));
    }
    assert(v@.subrange(0, v@.len() as int) =~= v@);
    r
}

/// One classified lexical unit. Five variants carry a payload; the
/// rest are fixed punctuation, operator, keyword and end-of-file
/// markers. A float literal is carried as plain values: its integer
/// part and its fractional digit run exactly as spelled in the source.
#[derive(Debug, Clone, PartialEq, Eq)]
pub enum TokenKind {
    // Identifiers
    Identifier(String),
    // Literals
    IntLiteral(i32),
    FloatLiteral(i32, String),
    CharLiteral(String),
    StringLiteral(String),
    // Brackets
    LeftParen,
    RightParen,
    LeftBrace,
    RightBrace,
    LeftBracket,
    RightBracket,
    // Operators
    PlusOp,
    MinusOp,
    StarOp,
    DivOp,
    ModOp,
    IncrementOp,
    DecrementOp,
    EqOp,
    AssignOp,
    BitAndOp,
    BitOrOp,
    BitXorOp,
    BitClearOp,
    BitNotOp,
    PlusEqOp,
    MinusEqOp,
    StarEqOp,
    DivEqOp,
    ModEqOp,
    BitAndEqOp,
    BitOrEqOp,
    BitXorEqOp,
    BitClearEqOp,
    LogicAndOp,
    LogicOrOp,
    LogicNotOp,
    LogicEqOp,
    LShiftOp,
    LShiftEqOp,
    RShiftOp,
    RShiftEqOp,
    LogicNotEqOp,
    LogicLessOp,
    LogicGreaterOp,
    LogicLessEqOp,
    LogicGreaterEqOp,
    DirectionOp,
    // Punctuation
    Colon,
    Semicolon,
    Dot,
    Comma,
    Elipses,
    DoubleQuote,
    SingleQuote,
    // Keywords
    BreakKeyword,
    DefaultKeyword,
    FuncKeyword,
    InterfaceKeyword,
    SelectKeyword,
    CaseKeyword,
    DeferKeyword,
    GoKeyword,
    MapKeyword,
    StructKeyword,
    ChanKeyword,
    ElseKeyword,
    GotoKeyword,
    PackageKeyword,
    SwitchKeyword,
    ConstKeyword,
    FallThroughKeyword,
    IfKeyword,
    RangeKeyword,
    TypeKeyword,
    ContinueKeyword,
    ForKeyword,
    ImportKeyword,
    ReturnKeyword,
    VarKeyword,
    // End of input
    EOF,
}

/// The mathematical model of a token: payloads are character
/// sequences and integers, payload-free tokens stand for themselves.
pub ghost enum TokModel {
    Ident(Seq<char>),
    IntLit(i32),
    FloatLit(i32, Seq<char>),
    CharLit(Seq<char>),
    StrLit(Seq<char>),
    Fixed(TokenKind),
}

/// The model of an executable token: payload strings are abstracted
/// to their character sequences.
pub open spec fn abs(t: TokenKind) -> TokModel {
    match t {
        TokenKind::Identifier(s) => TokModel::Ident(s@),
        TokenKind::IntLiteral(n) => TokModel::IntLit(n),
        TokenKind::FloatLiteral(w, f) => TokModel::FloatLit(w, f@),
        TokenKind::CharLiteral(s) => TokModel::CharLit(s@),
        TokenKind::StringLiteral(s) => TokModel::StrLit(s@),
        _ => TokModel::Fixed(t),
    }
}

/// The character for one decimal digit value.
pub open spec fn digit_char(d: int) -> char {
    ((0x30 + d) as u8) as char
}

/// The decimal spelling of a non-negative integer, most significant
/// digit first, with no leading zeroes.
pub open spec fn dec_digits(n: int) -> Seq<char>
    decreases n,
{
    if n < 10 {
        seq![digit_char(if n < 0 { 0int } else { n })]
    } else {
        dec_digits(n / 10).push(digit_char(n % 10))
    }
}

/// The decimal spelling of an integer, with a leading minus sign
/// when it is negative.
pub open spec fn int_chars(n: int) -> Seq<char> {
    if n < 0 {
        seq!['-'] + dec_digits(-n)
    } else {
        dec_digits(n)
    }
}

/// The canonical rendering of a token: payload variants render their
/// payload (a float as integer part, dot, fractional digits), fixed
/// variants their lexeme, and the end-of-file token a fixed sentinel.
pub open spec fn render(t: TokenKind) -> Seq<char> {
    match t {
        TokenKind::Identifier(s) => s@,
        TokenKind::IntLiteral(n) => int_chars(n as int),
        TokenKind::FloatLiteral(w, f) => int_chars(w as int) + seq!['.'] + f@,
        TokenKind::CharLiteral(s) => s@,
        TokenKind::StringLiteral(s) => s@,
        TokenKind::LeftParen => "("@,
        TokenKind::RightParen => ")"@,
        TokenKind::LeftBrace => "{"@,
        TokenKind::RightBrace => "}"@,
        TokenKind::LeftBracket => "["@,
        TokenKind::RightBracket => "]"@,
        TokenKind::PlusOp => "+"@,
        TokenKind::MinusOp => "-"@,
        TokenKind::StarOp => "*"@,
        TokenKind::DivOp => "/"@,
        TokenKind::ModOp => "%"@,
        TokenKind::IncrementOp => "++"@,
        TokenKind::DecrementOp => "--"@,
        TokenKind::EqOp => "="@,
        TokenKind::AssignOp => ":="@,
        TokenKind::BitAndOp => "&"@,
        TokenKind::BitOrOp => "|"@,
        TokenKind::BitXorOp => "^"@,
        TokenKind::BitClearOp => "&^"@,
        TokenKind::BitNotOp => "~"@,
        TokenKind::PlusEqOp => "+="@,
        TokenKind::MinusEqOp => "-="@,
        TokenKind::StarEqOp => "*="@,
        TokenKind::DivEqOp => "/="@,
        TokenKind::ModEqOp => "%="@,
        TokenKind::BitAndEqOp => "&="@,
        TokenKind::BitOrEqOp => "|="@,
        TokenKind::BitXorEqOp => "^="@,
        TokenKind::BitClearEqOp => "&^="@,
        TokenKind::LogicAndOp => "&&"@,
        TokenKind::LogicOrOp => "||"@,
        TokenKind::LogicNotOp => "!"@,
        TokenKind::LogicEqOp => "=="@,
        TokenKind::LShiftOp => "<<"@,
        TokenKind::LShiftEqOp => "<<="@,
        TokenKind::RShiftOp => ">>"@,
        TokenKind::RShiftEqOp => ">>="@,
        TokenKind::LogicNotEqOp => "!="@,
        TokenKind::LogicLessOp => "<"@,
        TokenKind::LogicGreaterOp => ">"@,
        TokenKind::LogicLessEqOp => "<="@,
        TokenKind::LogicGreaterEqOp => ">="@,
        TokenKind::DirectionOp => "<-"@,
        TokenKind::Colon => ":"@,
        TokenKind::Semicolon => ";"@,
        TokenKind::Dot => "."@,
        TokenKind::Comma => ","@,
        TokenKind::Elipses => "..."@,
        TokenKind::DoubleQuote => "\""@,
        TokenKind::SingleQuote => "'"@,
        TokenKind::BreakKeyword => "break"@,
        TokenKind::DefaultKeyword => "default"@,
        TokenKind::FuncKeyword => "func"@,
        TokenKind::InterfaceKeyword => "interface"@,
        TokenKind::SelectKeyword => "select"@,
        TokenKind::CaseKeyword => "case"@,
        TokenKind::DeferKeyword => "defer"@,
        TokenKind::GoKeyword => "go"@,
        TokenKind::MapKeyword => "map"@,
        TokenKind::StructKeyword => "struct"@,
        TokenKind::ChanKeyword => "chan"@,
        TokenKind::ElseKeyword => "else"@,
        TokenKind::GotoKeyword => "goto"@,
        TokenKind::PackageKeyword => "package"@,
        TokenKind::SwitchKeyword => "switch"@,
        TokenKind::ConstKeyword => "const"@,
        TokenKind::FallThroughKeyword => "fallthrough"@,
        TokenKind::IfKeyword => "if"@,
        TokenKind::RangeKeyword => "range"@,
        TokenKind::TypeKeyword => "type"@,
        TokenKind::ContinueKeyword => "continue"@,
        TokenKind::ForKeyword => "for"@,
        TokenKind::ImportKeyword => "import"@,
        TokenKind::ReturnKeyword => "return"@,
        TokenKind::VarKeyword => "var"@,
        TokenKind::EOF => "EOF"@,
    }
}

/// The decimal spelling of an integer, as [`int_chars`] describes it.
fn int_to_string(n: i32) -> (r: String)
    ensures
        r@ == int_chars(n as int),
{
    let neg = n < 0;
    let mut mag: u32 = if n < 0 {
        (-(n as i64)) as u32
    } else {
        n as u32
    };
    let ghost orig = mag as int;
    let mut digs: Vec<u8> = Vec::new();
    while mag >= 10
        invariant
            0 <= mag,
            dec_digits(orig) == dec_digits(mag as int) + chars_of(digs@),
        decreases mag,
    {
        let d: u8 = (mag % 10) as u8 + 0x30;
        let ghost digs0 = digs@;
        digs.insert(0, d);
        proof {
            assert(chars_of(digs@) =~= seq![d as char] + chars_of(digs0));
            assert(dec_digits(mag as int) == dec_digits(mag as int / 10).push(
                digit_char(mag as int % 10),
            ));
            assert(dec_digits(mag as int / 10).push(digit_char(mag as int % 10)) + chars_of(
                digs0,
            ) =~= dec_digits(mag as int / 10) + chars_of(digs@));
        }
        mag = mag / 10;
    }
    let d: u8 = mag as u8 + 0x30;
    let ghost digs0 = digs@;
    digs.insert(0, d);
    proof {
        assert(chars_of(digs@) =~= seq![d as char] + chars_of(digs0));
        assert(dec_digits(mag as int) =~= seq![digit_char(mag as int)]);
        assert(dec_digits(orig) =~= chars_of(digs@));
    }
    let s = bytes_to_string(&digs);
    if neg {
        let mut out = String::new();
        out.push('-');
        out.append(s.as_str());
        proof {
            assert(out@ =~= seq!['-'] + dec_digits(-(n as int)));
        }
        out
    } else {
        s
    }
}

impl TokenKind {
    /// The canonical textual rendering of the token, as [`render`]
    /// describes it: the payload of a payload variant, the fixed
    /// lexeme of any other.
    pub fn to_string(&self) -> (r: String)
        ensures
            r@ == render(*self),
    {
        match self {
            TokenKind::Identifier(name) => name.clone(),
            TokenKind::IntLiteral(n) => int_to_string(*n),
            TokenKind::FloatLiteral(w, f) => {
                let mut out = int_to_string(*w);
                out.push('.');
                out.append(f.as_str());
                proof {
                    assert(out@ =~= int_chars(*w as int) + seq!['.'] + f@);
                }
                out
            },
            TokenKind::CharLiteral(s) => s.clone(),
            TokenKind::StringLiteral(s) => s.clone(),
            TokenKind::LeftParen => String::from_str("("),
            TokenKind::RightParen => String::from_str(")"),
            TokenKind::LeftBrace => String::from_str("{"),
            TokenKind::RightBrace => String::from_str("}"),
            TokenKind::LeftBracket => String::from_str("["),
            TokenKind::RightBracket => String::from_str("]"),
            TokenKind::PlusOp => String::from_str("+"),
            TokenKind::MinusOp => String::from_str("-"),
            TokenKind::StarOp => String::from_str("*"),
            TokenKind::DivOp => String::from_str("/"),
            TokenKind::ModOp => String::from_str("%"),
            TokenKind::IncrementOp => String::from_str("++"),
            TokenKind::DecrementOp => String::from_str("--"),
            TokenKind::EqOp => String::from_str("="),
            TokenKind::AssignOp => String::from_str(":="),
            TokenKind::BitAndOp => String::from_str("&"),
            TokenKind::BitOrOp => String::from_str("|"),
            TokenKind::BitXorOp => String::from_str("^"),
            TokenKind::BitClearOp => String::from_str("&^"),
            TokenKind::BitNotOp => String::from_str("~"),
            TokenKind::PlusEqOp => String::from_str("+="),
            TokenKind::MinusEqOp => String::from_str("-="),
            TokenKind::StarEqOp => String::from_str("*="),
            TokenKind::DivEqOp => String::from_str("/="),
            TokenKind::ModEqOp => String::from_str("%="),
            TokenKind::BitAndEqOp => String::from_str("&="),
            TokenKind::BitOrEqOp => String::from_str("|="),
            TokenKind::BitXorEqOp => String::from_str("^="),
            TokenKind::BitClearEqOp => String::from_str("&^="),
            TokenKind::LogicAndOp => String::from_str("&&"),
            TokenKind::LogicOrOp => String::from_str("||"),
            TokenKind::LogicNotOp => String::from_str("!"),
            TokenKind::LogicEqOp => String::from_str("=="),
            TokenKind::LShiftOp => String::from_str("<<"),
            TokenKind::LShiftEqOp => String::from_str("<<="),
            TokenKind::RShiftOp => String::from_str(">>"),
            TokenKind::RShiftEqOp => String::from_str(">>="),
            TokenKind::LogicNotEqOp => String::from_str("!="),
            TokenKind::LogicLessOp => String::from_str("<"),
            TokenKind::LogicGreaterOp => String::from_str(">"),
            TokenKind::LogicLessEqOp => String::from_str("<="),
            TokenKind::LogicGreaterEqOp => String::from_str(">="),
            TokenKind::DirectionOp => String::from_str("<-"),
            TokenKind::Colon => String::from_str(":"),
            TokenKind::Semicolon => String::from_str(";"),
            TokenKind::Dot => String::from_str("."),
            TokenKind::Comma => String::from_str(","),
            TokenKind::Elipses => String::from_str("..."),
            TokenKind::DoubleQuote => String::from_str("\""),
            TokenKind::SingleQuote => String::from_str("'"),
            TokenKind::BreakKeyword => String::from_str("break"),
            TokenKind::DefaultKeyword => String::from_str("default"),
            TokenKind::FuncKeyword => String::from_str("func"),
            TokenKind::InterfaceKeyword => String::from_str("interface"),
            TokenKind::SelectKeyword => String::from_str("select"),
            TokenKind::CaseKeyword => String::from_str("case"),
            TokenKind::DeferKeyword => String::from_str("defer"),
            TokenKind::GoKeyword => String::from_str("go"),
            TokenKind::MapKeyword => String::from_str("map"),
            TokenKind::StructKeyword => String::from_str("struct"),
            TokenKind::ChanKeyword => String::from_str("chan"),
            TokenKind::ElseKeyword => String::from_str("else"),
            TokenKind::GotoKeyword => String::from_str("goto"),
            TokenKind::PackageKeyword => String::from_str("package"),
            TokenKind::SwitchKeyword => String::from_str("switch"),
            TokenKind::ConstKeyword => String::from_str("const"),
            TokenKind::FallThroughKeyword => String::from_str("fallthrough"),
            TokenKind::IfKeyword => String::from_str("if"),
            TokenKind::RangeKeyword => String::from_str("range"),
            TokenKind::TypeKeyword => String::from_str("type"),
            TokenKind::ContinueKeyword => String::from_str("continue"),
            TokenKind::ForKeyword => String::from_str("for"),
            TokenKind::ImportKeyword => String::from_str("import"),
            TokenKind::ReturnKeyword => String::from_str("return"),
            TokenKind::VarKeyword => String::from_str("var"),
            TokenKind::EOF => String::from_str("EOF"),
        }
    }
}

/// The fixed keyword table: the keyword token for a spelling, `None`
/// for every other spelling (which then becomes an identifier).
pub open spec fn keyword_of(w: Seq<char>) -> Option<TokenKind> {
    if w == "break"@ {
        Some(TokenKind::BreakKeyword)
    } else if w == "default"@ {
        Some(TokenKind::DefaultKeyword)
    } else if w == "func"@ {
        Some(TokenKind::FuncKeyword)
    } else if w == "interface"@ {
        Some(TokenKind::InterfaceKeyword)
    } else if w == "select"@ {
        Some(TokenKind::SelectKeyword)
    } else if w == "case"@ {
        Some(TokenKind::CaseKeyword)
    } else if w == "defer"@ {
        Some(TokenKind::DeferKeyword)
    } else if w == "go"@ {
        Some(TokenKind::GoKeyword)
    } else if w == "map"@ {
        Some(TokenKind::MapKeyword)
    } else if w == "struct"@ {
        Some(TokenKind::StructKeyword)
    } else if w == "chan"@ {
        Some(TokenKind::ChanKeyword)
    } else if w == "else"@ {
        Some(TokenKind::ElseKeyword)
    } else if w == "goto"@ {
        Some(TokenKind::GotoKeyword)
    } else if w == "package"@ {
        Some(TokenKind::PackageKeyword)
    } else if w == "switch"@ {
        Some(TokenKind::SwitchKeyword)
    } else if w == "const"@ {
        Some(TokenKind::ConstKeyword)
    } else if w == "fallthrough"@ {
        Some(TokenKind::FallThroughKeyword)
    } else if w == "if"@ {
        Some(TokenKind::IfKeyword)
    } else if w == "range"@ {
        Some(TokenKind::RangeKeyword)
    } else if w == "type"@ {
        Some(TokenKind::TypeKeyword)
    } else if w == "continue"@ {
        Some(TokenKind::ContinueKeyword)
    } else if w == "for"@ {
        Some(TokenKind::ForKeyword)
    } else if w == "import"@ {
        Some(TokenKind::ImportKeyword)
    } else if w == "return"@ {
        Some(TokenKind::ReturnKeyword)
    } else if w == "var"@ {
        Some(TokenKind::VarKeyword)
    } else {
        None
    }
}

} // verus!
