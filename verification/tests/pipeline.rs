use analyzer::lexer::tokenize;
use analyzer::parser::parse;
use analyzer::token::TokenKind;

#[test]
fn lexes_and_parses_a_small_function() {
    let source = "fn main() { let x: i32 = 1 + 2 * 3; }";
    let (tokens, lex_errors) = tokenize(source.as_bytes());
    assert!(lex_errors.is_empty());
    assert_eq!(tokens.len(), 17);
    assert_eq!(tokens[0].lexeme.as_slice(), "fn".as_bytes());
    assert!(matches!(tokens[1].kind, TokenKind::Identifier));
    let (program, syntax_errors) = parse(&tokens);
    assert!(syntax_errors.is_empty());
    assert_eq!(program.items.len(), 1);
}
