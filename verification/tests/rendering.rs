use golex::argparse::Arguments;
use golex::lexer::Lexer;
use golex::parser::Parser;
use golex::token::TokenKind;

#[test]
fn payload_tokens_render_their_payload() {
    assert_eq!(TokenKind::Identifier("forX".to_string()).to_string(), "forX");
    assert_eq!(TokenKind::IntLiteral(5).to_string(), "5");
    assert_eq!(TokenKind::IntLiteral(0).to_string(), "0");
    assert_eq!(TokenKind::IntLiteral(2147483647).to_string(), "2147483647");
    assert_eq!(TokenKind::IntLiteral(-7).to_string(), "-7");
    assert_eq!(TokenKind::IntLiteral(-2147483648).to_string(), "-2147483648");
    assert_eq!(TokenKind::FloatLiteral(5, "5".to_string()).to_string(), "5.5");
    assert_eq!(TokenKind::FloatLiteral(5, "".to_string()).to_string(), "5.");
    assert_eq!(TokenKind::FloatLiteral(0, "25".to_string()).to_string(), "0.25");
    assert_eq!(TokenKind::CharLiteral("\\n".to_string()).to_string(), "\\n");
    assert_eq!(TokenKind::StringLiteral("hi there".to_string()).to_string(), "hi there");
}

#[test]
fn fixed_tokens_render_their_lexeme() {
    assert_eq!(TokenKind::LShiftEqOp.to_string(), "<<=");
    assert_eq!(TokenKind::BitClearEqOp.to_string(), "&^=");
    assert_eq!(TokenKind::Elipses.to_string(), "...");
    assert_eq!(TokenKind::DoubleQuote.to_string(), "\"");
    assert_eq!(TokenKind::SingleQuote.to_string(), "'");
    assert_eq!(TokenKind::FallThroughKeyword.to_string(), "fallthrough");
    assert_eq!(TokenKind::EOF.to_string(), "EOF");
}

#[test]
fn parser_takes_ownership_of_its_scanner() {
    let lexer = Lexer::new("package main".as_bytes().to_vec());
    let _parser = Parser::new(lexer);
}

#[test]
fn arguments_carry_the_settled_options() {
    let args = Arguments {
        input_file: "main.go".to_string(),
        output_file: "a.s".to_string(),
        print_ast: false,
    };
    assert_eq!(args.input_file, "main.go");
    assert_eq!(args.output_file, "a.s");
    assert!(!args.print_ast);
}
