use golex::lexer::Lexer;
use golex::scan::LexErrorKind;
use golex::token::TokenKind;

fn lexer_for(src: &str) -> Lexer {
    Lexer::new(src.as_bytes().to_vec())
}

/// Drive a scanner to end of input, panicking on the first lexical
/// error, as the command-line front end does.
fn all_tokens(src: &str) -> Vec<TokenKind> {
    let mut lexer = lexer_for(src);
    let mut tokens = Vec::new();
    loop {
        match lexer.lex() {
            Ok(TokenKind::EOF) => {
                tokens.push(TokenKind::EOF);
                return tokens;
            }
            Ok(t) => tokens.push(t),
            Err(e) => panic!("lexical error: {:?} on line {}", e.kind, e.line),
        }
    }
}

#[test]
fn given_valid_tokens_should_output_token_strings() {
    let src = "( ) { } [ ] ~ ; , + ++ += - -- -= * *= / /= % %= = == := : \
               & && &= &^ &^= | || |= ^ ^= ! != < <- << <<= <= > >< ><= >= \
               . ... foo 42 5.5";
    let rendered: Vec<String> = all_tokens(src).iter().map(|t| t.to_string()).collect();
    let expected = vec![
        "(", ")", "{", "}", "[", "]", "~", ";", ",", "+", "++", "+=", "-", "--", "-=", "*",
        "*=", "/", "/=", "%", "%=", "=", "==", ":=", ":", "&", "&&", "&=", "&^", "&^=", "|",
        "||", "|=", "^", "^=", "!", "!=", "<", "<-", "<<", "<<=", "<=", ">", ">>", ">>=",
        ">=", ".", "...", "foo", "42", "5.5", "EOF",
    ];
    assert_eq!(rendered, expected);
}

#[test]
fn keywords_render_as_their_spelling() {
    let src = "break default func interface select case defer go map struct chan else goto \
               package switch const fallthrough if range type continue for import return var";
    let rendered: Vec<String> = all_tokens(src).iter().map(|t| t.to_string()).collect();
    let expected = vec![
        "break", "default", "func", "interface", "select", "case", "defer", "go", "map",
        "struct", "chan", "else", "goto", "package", "switch", "const", "fallthrough", "if",
        "range", "type", "continue", "for", "import", "return", "var", "EOF",
    ];
    assert_eq!(rendered, expected);
}

#[test]
fn given_valid_strings_and_chars_should_output_correct_tokens() {
    let src = "\"hello\" \"a\\nb\" 'x' '\\t'";
    let tokens = all_tokens(src);
    assert_eq!(
        tokens,
        vec![
            TokenKind::StringLiteral("hello".to_string()),
            TokenKind::StringLiteral("a\\nb".to_string()),
            TokenKind::CharLiteral("x".to_string()),
            TokenKind::CharLiteral("\\t".to_string()),
            TokenKind::EOF,
        ]
    );
}

#[test]
#[should_panic]
fn given_invalid_strings_and_chars_should_panic() {
    all_tokens("\"bad \\q escape\"");
}

#[test]
#[should_panic]
fn given_invalid_tokens_should_panic() {
    all_tokens("foo @ bar");
}

#[test]
fn whitespace_and_comments_yield_only_eof() {
    assert_eq!(all_tokens(""), vec![TokenKind::EOF]);
    assert_eq!(all_tokens("   \t \r\n  "), vec![TokenKind::EOF]);
    assert_eq!(all_tokens("// just a comment"), vec![TokenKind::EOF]);
    assert_eq!(all_tokens(" // one\n// two\n"), vec![TokenKind::EOF]);
    assert_eq!(all_tokens("/* block\n comment */"), vec![TokenKind::EOF]);
    assert_eq!(all_tokens(" \n /* a */ // b\n\t"), vec![TokenKind::EOF]);
}

#[test]
fn maximal_munch_takes_the_longest_operator() {
    assert_eq!(
        all_tokens("<<="),
        vec![TokenKind::LShiftEqOp, TokenKind::EOF]
    );
    assert_eq!(
        all_tokens("a++b"),
        vec![
            TokenKind::Identifier("a".to_string()),
            TokenKind::IncrementOp,
            TokenKind::Identifier("b".to_string()),
            TokenKind::EOF,
        ]
    );
    assert_eq!(
        all_tokens("&^="),
        vec![TokenKind::BitClearEqOp, TokenKind::EOF]
    );
}

#[test]
fn rescanning_the_same_source_yields_identical_tokens() {
    let src = "func main() { x := 1 + 2; /* done */ }";
    let first = all_tokens(src);
    let second = all_tokens(src);
    assert_eq!(first, second);
}

#[test]
fn string_literal_keeps_escape_sequences_verbatim() {
    let tokens = all_tokens("\"a\\nb\"");
    assert_eq!(
        tokens,
        vec![TokenKind::StringLiteral("a\\nb".to_string()), TokenKind::EOF]
    );
    assert_eq!(tokens[0].to_string(), "a\\nb");
    assert_eq!(tokens[0].to_string().len(), 4);
}

fn float_value(t: &TokenKind) -> f32 {
    match t {
        TokenKind::FloatLiteral(whole, frac) => {
            *whole as f32 + format!("0.{}", frac).parse::<f32>().unwrap()
        }
        other => panic!("expected a float literal, got {:?}", other),
    }
}

#[test]
fn boundary_numeric_cases() {
    assert_eq!(all_tokens("5"), vec![TokenKind::IntLiteral(5), TokenKind::EOF]);

    let five_dot = all_tokens("5.");
    assert_eq!(five_dot[0], TokenKind::FloatLiteral(5, "".to_string()));
    assert_eq!(float_value(&five_dot[0]), 5.0);

    let five_five = all_tokens("5.5");
    assert_eq!(five_five[0], TokenKind::FloatLiteral(5, "5".to_string()));
    assert_eq!(float_value(&five_five[0]), 5.5);

    let dot_five = all_tokens(".5");
    assert_eq!(dot_five[0], TokenKind::FloatLiteral(0, "5".to_string()));
    assert_eq!(float_value(&dot_five[0]), 0.5);

    let mut lexer = lexer_for("..");
    let err = lexer.lex().unwrap_err();
    assert_eq!(err.kind, LexErrorKind::MalformedEllipsis);

    assert_eq!(all_tokens("..."), vec![TokenKind::Elipses, TokenKind::EOF]);
}

#[test]
fn keyword_versus_identifier() {
    assert_eq!(all_tokens("for"), vec![TokenKind::ForKeyword, TokenKind::EOF]);
    assert_eq!(
        all_tokens("forX"),
        vec![TokenKind::Identifier("forX".to_string()), TokenKind::EOF]
    );
}

#[test]
fn end_to_end_statement_with_comment() {
    let tokens = all_tokens("x := 1 + 2 // add\n");
    assert_eq!(
        tokens,
        vec![
            TokenKind::Identifier("x".to_string()),
            TokenKind::AssignOp,
            TokenKind::IntLiteral(1),
            TokenKind::PlusOp,
            TokenKind::IntLiteral(2),
            TokenKind::EOF,
        ]
    );
}

#[test]
fn raw_tab_in_string_is_fatal() {
    let mut lexer = lexer_for("\"a\tb\" more");
    let err = lexer.lex().unwrap_err();
    assert_eq!(err.kind, LexErrorKind::RawControlCharacterInLiteral);
}

#[test]
fn eof_token_is_idempotent() {
    let mut lexer = lexer_for("x");
    assert_eq!(lexer.lex().unwrap(), TokenKind::Identifier("x".to_string()));
    assert_eq!(lexer.lex().unwrap(), TokenKind::EOF);
    assert_eq!(lexer.lex().unwrap(), TokenKind::EOF);
    assert_eq!(lexer.lex().unwrap(), TokenKind::EOF);
}

#[test]
fn each_error_kind_has_an_input_that_raises_it() {
    let cases: Vec<(&str, LexErrorKind)> = vec![
        ("/* never closed", LexErrorKind::UnterminatedComment),
        ("..", LexErrorKind::MalformedEllipsis),
        ("\"a\\qb\"", LexErrorKind::InvalidEscapeSequence),
        ("'\\q'", LexErrorKind::InvalidEscapeSequence),
        ("\"a\tb\"", LexErrorKind::RawControlCharacterInLiteral),
        ("'\t'", LexErrorKind::RawControlCharacterInLiteral),
        ("''", LexErrorKind::EmptyCharLiteral),
        ("'ab'", LexErrorKind::UnterminatedCharLiteral),
        ("'a", LexErrorKind::UnterminatedCharLiteral),
        ("\"never closed", LexErrorKind::UnterminatedStringLiteral),
        ("99999999999", LexErrorKind::NumericOverflow),
        ("@", LexErrorKind::UnknownCharacter),
    ];
    for (src, expected) in cases {
        let mut lexer = lexer_for(src);
        let mut outcome = lexer.lex();
        while let Ok(t) = outcome {
            assert!(t != TokenKind::EOF, "input {:?} scanned without error", src);
            outcome = lexer.lex();
        }
        assert_eq!(outcome.unwrap_err().kind, expected, "input {:?}", src);
    }
}

#[test]
fn errors_report_the_line_they_occur_on() {
    let mut lexer = lexer_for("a\nb\n@");
    assert_eq!(lexer.lex().unwrap(), TokenKind::Identifier("a".to_string()));
    assert_eq!(lexer.lex().unwrap(), TokenKind::Identifier("b".to_string()));
    let err = lexer.lex().unwrap_err();
    assert_eq!(err.kind, LexErrorKind::UnknownCharacter);
    assert_eq!(err.line, 2);
}

#[test]
fn integer_boundaries_scan_exactly() {
    assert_eq!(
        all_tokens("2147483647"),
        vec![TokenKind::IntLiteral(2147483647), TokenKind::EOF]
    );
    let mut lexer = lexer_for("2147483648");
    assert_eq!(
        lexer.lex().unwrap_err().kind,
        LexErrorKind::NumericOverflow
    );
    assert_eq!(
        all_tokens("007"),
        vec![TokenKind::IntLiteral(7), TokenKind::EOF]
    );
}

#[test]
fn block_comment_edges() {
    // an empty block comment closes at once
    assert_eq!(all_tokens("/**/x"), vec![
        TokenKind::Identifier("x".to_string()),
        TokenKind::EOF,
    ]);
    // the slash directly after the opening star does not close it
    let mut lexer = lexer_for("/*/");
    assert_eq!(lexer.lex().unwrap_err().kind, LexErrorKind::UnterminatedComment);
    // stray stars inside stay inside
    assert_eq!(all_tokens("/* * ** */y"), vec![
        TokenKind::Identifier("y".to_string()),
        TokenKind::EOF,
    ]);
}

#[test]
fn newlines_inside_comments_count_toward_the_line_number() {
    let mut lexer = lexer_for("/*\n\n*/@");
    let err = lexer.lex().unwrap_err();
    assert_eq!(err.kind, LexErrorKind::UnknownCharacter);
    assert_eq!(err.line, 2);

    let mut lexer = lexer_for("// c\n@");
    let err = lexer.lex().unwrap_err();
    assert_eq!(err.kind, LexErrorKind::UnknownCharacter);
    assert_eq!(err.line, 1);
}

#[test]
fn adjacent_dots_and_digits_split_by_maximal_munch() {
    assert_eq!(all_tokens("5..5"), vec![
        TokenKind::FloatLiteral(5, "".to_string()),
        TokenKind::FloatLiteral(0, "5".to_string()),
        TokenKind::EOF,
    ]);
    assert_eq!(all_tokens("5.x"), vec![
        TokenKind::FloatLiteral(5, "".to_string()),
        TokenKind::Identifier("x".to_string()),
        TokenKind::EOF,
    ]);
}

#[test]
fn identifiers_may_hold_underscores_and_digits() {
    assert_eq!(all_tokens("_x a_1"), vec![
        TokenKind::Identifier("_x".to_string()),
        TokenKind::Identifier("a_1".to_string()),
        TokenKind::EOF,
    ]);
}

#[test]
fn line_comment_at_end_of_source_needs_no_newline() {
    assert_eq!(all_tokens("x // trailing"), vec![
        TokenKind::Identifier("x".to_string()),
        TokenKind::EOF,
    ]);
}

#[test]
fn string_with_escaped_quote_and_backslash() {
    assert_eq!(all_tokens("\"a\\\"b\""), vec![
        TokenKind::StringLiteral("a\\\"b".to_string()),
        TokenKind::EOF,
    ]);
    assert_eq!(all_tokens("\"\\\\\""), vec![
        TokenKind::StringLiteral("\\\\".to_string()),
        TokenKind::EOF,
    ]);
    // a raw single quote inside a string literal is refused
    let mut lexer = lexer_for("\"a'b\"");
    assert_eq!(
        lexer.lex().unwrap_err().kind,
        LexErrorKind::RawControlCharacterInLiteral
    );
}

#[test]
fn right_shift_is_spelled_with_an_angle_pair() {
    assert_eq!(
        all_tokens("><"),
        vec![TokenKind::RShiftOp, TokenKind::EOF]
    );
    assert_eq!(
        all_tokens("><="),
        vec![TokenKind::RShiftEqOp, TokenKind::EOF]
    );
    assert_eq!(
        all_tokens("> <"),
        vec![TokenKind::LogicGreaterOp, TokenKind::LogicLessOp, TokenKind::EOF]
    );
}
