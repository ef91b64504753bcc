use analyzer::lexer::{tokenize, LexError, LexErrorKind};
use analyzer::token::{Keyword, Macro, Operator, Punctuation, Token, TokenKind};

fn lex(source: &str) -> (Vec<Token>, Vec<LexError>) {
    tokenize(source.as_bytes())
}

fn kinds(source: &str) -> Vec<TokenKind> {
    lex(source).0.iter().map(|t| t.kind).collect()
}

fn texts(source: &str) -> Vec<String> {
    lex(source).0.iter().map(|t| String::from_utf8_lossy(&t.lexeme).into_owned()).collect()
}

#[test]
fn empty_source_gives_nothing() {
    let (tokens, errors) = lex("");
    assert!(tokens.is_empty());
    assert!(errors.is_empty());
}

#[test]
fn every_keyword_is_recognised() {
    let source = "let mut const static fn return if else while for in loop break continue \
                  struct enum impl trait self Self";
    assert_eq!(
        kinds(source),
        vec![
            TokenKind::Keyword(Keyword::Let),
            TokenKind::Keyword(Keyword::Mut),
            TokenKind::Keyword(Keyword::Const),
            TokenKind::Keyword(Keyword::Static),
            TokenKind::Keyword(Keyword::Fn),
            TokenKind::Keyword(Keyword::Return),
            TokenKind::Keyword(Keyword::If),
            TokenKind::Keyword(Keyword::Else),
            TokenKind::Keyword(Keyword::While),
            TokenKind::Keyword(Keyword::For),
            TokenKind::Keyword(Keyword::In),
            TokenKind::Keyword(Keyword::Loop),
            TokenKind::Keyword(Keyword::Break),
            TokenKind::Keyword(Keyword::Continue),
            TokenKind::Keyword(Keyword::Struct),
            TokenKind::Keyword(Keyword::Enum),
            TokenKind::Keyword(Keyword::Impl),
            TokenKind::Keyword(Keyword::Trait),
            TokenKind::Keyword(Keyword::SelfValue),
            TokenKind::Keyword(Keyword::SelfType),
        ]
    );
}

#[test]
fn true_and_false_are_boolean_literals() {
    assert_eq!(
        kinds("true false"),
        vec![TokenKind::BoolLiteral(true), TokenKind::BoolLiteral(false)]
    );
}

#[test]
fn a_keyword_inside_a_longer_word_is_an_identifier() {
    assert_eq!(
        kinds("letter iffy format truest _let i32 String"),
        vec![TokenKind::Identifier; 7]
    );
    assert_eq!(texts("letter iffy"), vec!["letter", "iffy"]);
}

#[test]
fn primitive_type_names_are_ordinary_identifiers() {
    assert_eq!(kinds("i32 f64 bool char str"), vec![TokenKind::Identifier; 5]);
}

#[test]
fn a_dot_between_digits_makes_a_float() {
    assert_eq!(kinds("3.14159"), vec![TokenKind::FloatLiteral]);
    assert_eq!(texts("3.14159 42"), vec!["3.14159", "42"]);
    assert_eq!(kinds("42"), vec![TokenKind::IntLiteral]);
}

#[test]
fn a_range_of_integers_is_three_tokens() {
    assert_eq!(
        kinds("0..100"),
        vec![
            TokenKind::IntLiteral,
            TokenKind::Operator(Operator::DotDot),
            TokenKind::IntLiteral,
        ]
    );
}

#[test]
fn a_digit_run_followed_by_a_lone_dot_is_an_integer() {
    assert_eq!(
        kinds("1.x"),
        vec![TokenKind::IntLiteral, TokenKind::Operator(Operator::Dot), TokenKind::Identifier]
    );
}

#[test]
fn numbers_are_scanned_to_their_full_length() {
    assert_eq!(texts("123456 7.25"), vec!["123456", "7.25"]);
}

#[test]
fn string_literal_keeps_its_escapes() {
    let source = r#"let message = "Hello \"Rust\" world!\n";"#;
    let (tokens, errors) = lex(source);
    assert!(errors.is_empty());
    assert_eq!(tokens.len(), 5);
    assert_eq!(tokens[3].kind, TokenKind::StringLiteral);
    assert_eq!(tokens[3].lexeme.as_slice(), r#""Hello \"Rust\" world!\n""#.as_bytes());
}

#[test]
fn string_literal_with_escaped_backslash_ends_at_the_next_quote() {
    let source = r#""a\\" b"#;
    let (tokens, errors) = lex(source);
    assert!(errors.is_empty());
    assert_eq!(tokens.len(), 2);
    assert_eq!(tokens[0].lexeme.as_slice(), r#""a\\""#.as_bytes());
    assert_eq!(tokens[1].kind, TokenKind::Identifier);
}

#[test]
fn unterminated_string_is_reported_and_lexing_resumes_on_the_next_line() {
    let source = "let a = \"abc;\nlet b = 1;";
    let (tokens, errors) = lex(source);
    assert_eq!(errors.len(), 1);
    assert_eq!(errors[0].kind, LexErrorKind::UnterminatedLiteral);
    assert_eq!(errors[0].offset, 8);
    assert_eq!(errors[0].length, 5);
    assert_eq!(errors[0].line, 1);
    assert_eq!(errors[0].column, 9);
    let words: Vec<String> =
        tokens.iter().map(|t| String::from_utf8_lossy(&t.lexeme).into_owned()).collect();
    assert_eq!(words, vec!["let", "a", "=", "let", "b", "=", "1", ";"]);
    assert_eq!(tokens[3].line, 2);
    assert_eq!(tokens[3].column, 1);
}

#[test]
fn unterminated_string_at_the_end_of_the_source() {
    let (tokens, errors) = lex("\"abc");
    assert!(tokens.is_empty());
    assert_eq!(errors.len(), 1);
    assert_eq!(errors[0].kind, LexErrorKind::UnterminatedLiteral);
    assert_eq!(errors[0].length, 4);
}

#[test]
fn character_literals() {
    let (tokens, errors) = lex(r"'A' '\n' '\''");
    assert!(errors.is_empty());
    assert_eq!(kinds(r"'A' '\n' '\''"), vec![TokenKind::CharLiteral; 3]);
    assert_eq!(tokens[1].lexeme.as_slice(), r"'\n'".as_bytes());
}

#[test]
fn character_literal_outside_ascii() {
    let (tokens, errors) = lex("'ñ'");
    assert!(errors.is_empty());
    assert_eq!(tokens.len(), 1);
    assert_eq!(tokens[0].kind, TokenKind::CharLiteral);
    assert_eq!(tokens[0].lexeme.len(), 4);
}

#[test]
fn unterminated_character_literal() {
    let (tokens, errors) = lex("'ab\nx");
    assert_eq!(errors.len(), 1);
    assert_eq!(errors[0].kind, LexErrorKind::UnterminatedLiteral);
    assert_eq!(errors[0].length, 3);
    assert_eq!(tokens.len(), 1);
    assert_eq!(tokens[0].line, 2);
}

#[test]
fn print_macros_are_single_tokens() {
    assert_eq!(
        kinds("println! print! eprintln! eprint!"),
        vec![
            TokenKind::MacroName(Macro::Println),
            TokenKind::MacroName(Macro::Print),
            TokenKind::MacroName(Macro::Eprintln),
            TokenKind::MacroName(Macro::Eprint),
        ]
    );
    assert_eq!(texts("println!(x)"), vec!["println!", "(", "x", ")"]);
}

#[test]
fn other_names_before_a_bang_are_not_macros() {
    assert_eq!(
        kinds("format!"),
        vec![TokenKind::Identifier, TokenKind::Operator(Operator::Not)]
    );
    assert_eq!(kinds("println"), vec![TokenKind::Identifier]);
}

#[test]
fn the_longest_operator_wins() {
    assert_eq!(
        kinds("+ - * / % == != < <= > >= && || ! = += -= *= /= & | . .. ::"),
        vec![
            TokenKind::Operator(Operator::Plus),
            TokenKind::Operator(Operator::Minus),
            TokenKind::Operator(Operator::Star),
            TokenKind::Operator(Operator::Slash),
            TokenKind::Operator(Operator::Percent),
            TokenKind::Operator(Operator::EqEq),
            TokenKind::Operator(Operator::NotEq),
            TokenKind::Operator(Operator::Less),
            TokenKind::Operator(Operator::LessEq),
            TokenKind::Operator(Operator::Greater),
            TokenKind::Operator(Operator::GreaterEq),
            TokenKind::Operator(Operator::AndAnd),
            TokenKind::Operator(Operator::OrOr),
            TokenKind::Operator(Operator::Not),
            TokenKind::Operator(Operator::Assign),
            TokenKind::Operator(Operator::PlusAssign),
            TokenKind::Operator(Operator::MinusAssign),
            TokenKind::Operator(Operator::StarAssign),
            TokenKind::Operator(Operator::SlashAssign),
            TokenKind::Operator(Operator::Amp),
            TokenKind::Operator(Operator::Pipe),
            TokenKind::Operator(Operator::Dot),
            TokenKind::Operator(Operator::DotDot),
            TokenKind::Operator(Operator::PathSep),
        ]
    );
    assert_eq!(texts("a+=b"), vec!["a", "+=", "b"]);
    assert_eq!(texts("a===b"), vec!["a", "==", "=", "b"]);
}

#[test]
fn punctuation() {
    assert_eq!(
        kinds("( ) { } [ ] , ; : ->"),
        vec![
            TokenKind::Punctuation(Punctuation::LParen),
            TokenKind::Punctuation(Punctuation::RParen),
            TokenKind::Punctuation(Punctuation::LBrace),
            TokenKind::Punctuation(Punctuation::RBrace),
            TokenKind::Punctuation(Punctuation::LBracket),
            TokenKind::Punctuation(Punctuation::RBracket),
            TokenKind::Punctuation(Punctuation::Comma),
            TokenKind::Punctuation(Punctuation::Semicolon),
            TokenKind::Punctuation(Punctuation::Colon),
            TokenKind::Punctuation(Punctuation::Arrow),
        ]
    );
}

#[test]
fn invalid_characters_are_reported_and_skipped() {
    let source = "let a = 1;\n    @ $ ? #\nlet b = 2;";
    let (tokens, errors) = lex(source);
    assert_eq!(tokens.len(), 10);
    assert_eq!(errors.len(), 4);
    for e in errors.iter() {
        assert_eq!(e.kind, LexErrorKind::InvalidCharacter);
        assert_eq!(e.length, 1);
        assert_eq!(e.line, 2);
    }
    assert_eq!(errors[0].column, 5);
    assert_eq!(errors[1].column, 7);
    assert_eq!(errors[2].column, 9);
    assert_eq!(errors[3].column, 11);
    assert_eq!(errors[0].offset, 15);
    assert_eq!(source.as_bytes()[errors[0].offset], b'@');
    assert_eq!(source.as_bytes()[errors[3].offset], b'#');
}

#[test]
fn a_byte_outside_ascii_and_outside_any_literal_is_invalid() {
    let (tokens, errors) = lex("ñ");
    assert!(tokens.is_empty());
    assert_eq!(errors.len(), 2);
    assert_eq!(errors[0].kind, LexErrorKind::InvalidCharacter);
}

#[test]
fn comments_give_no_tokens_and_no_errors() {
    let source = "// line @ $\n/* block\n ? # */ /// doc\nlet /* inside */ x";
    let (tokens, errors) = lex(source);
    assert!(errors.is_empty());
    assert_eq!(tokens.len(), 2);
    assert_eq!(tokens[0].kind, TokenKind::Keyword(Keyword::Let));
    assert_eq!(tokens[0].line, 4);
    assert_eq!(tokens[0].column, 1);
    assert_eq!(tokens[1].column, 18);
    assert!(tokens.iter().all(|t| t.kind != TokenKind::DocComment));
}

#[test]
fn a_block_comment_that_nothing_closes_runs_to_the_end() {
    let (tokens, errors) = lex("a /* b c");
    assert!(errors.is_empty());
    assert_eq!(tokens.len(), 1);
}

#[test]
fn lines_and_columns_count_from_one() {
    let source = "fn main() {\n    let x = y;\n}";
    let (tokens, _) = lex(source);
    assert_eq!((tokens[0].line, tokens[0].column, tokens[0].offset), (1, 1, 0));
    assert_eq!((tokens[1].line, tokens[1].column, tokens[1].offset), (1, 4, 3));
    let y = &tokens[8];
    assert_eq!(y.lexeme.as_slice(), b"y");
    assert_eq!((y.line, y.column, y.offset), (2, 13, 24));
    let close = &tokens[10];
    assert_eq!((close.line, close.column), (3, 1));
    assert_eq!(tokens[0].position().line, 1);
}

#[test]
fn every_lexeme_is_the_source_text_at_its_offset() {
    let source = "fn f(a: i32) -> bool { /* c */ return a >= 10 && a != 3.5; } // x\n\"s\" 'c' @";
    let (tokens, errors) = lex(source);
    let bytes = source.as_bytes();
    let mut end = 0;
    for t in tokens.iter() {
        assert!(t.offset >= end);
        assert!(!t.lexeme.is_empty());
        assert_eq!(&bytes[t.offset..t.offset + t.lexeme.len()], t.lexeme.as_slice());
        end = t.offset + t.lexeme.len();
    }
    assert_eq!(errors.len(), 1);
    assert_eq!(errors[0].offset, source.len() - 1);
}

#[test]
fn tokens_and_errors_cover_all_but_white_space_and_comments() {
    let source = "let a = 1; // note\n$ b /* c */ += 2.5;\n";
    let (tokens, errors) = lex(source);
    let mut covered = vec![false; source.len()];
    for t in tokens.iter() {
        for k in t.offset..t.offset + t.lexeme.len() {
            assert!(!covered[k]);
            covered[k] = true;
        }
    }
    for e in errors.iter() {
        for k in e.offset..e.offset + e.length {
            assert!(!covered[k]);
            covered[k] = true;
        }
    }
    let rest: String = source
        .bytes()
        .enumerate()
        .filter(|(k, _)| !covered[*k])
        .map(|(_, b)| b as char)
        .collect();
    assert_eq!(rest, "    // note\n  /* c */  \n");
}

#[test]
fn sample_with_most_tokens_and_four_invalid_characters() {
    let source = r#"
/* 
  Comentario de bloque.
  Keywords: let, mut, const, static, fn, return, if, else, loop, while, for, in, break, continue
*/

/// Comentario de documentación.

const MAX_SIZE: i32 = 100;
static mut COUNTER: i32 = 0;

fn mi_funcion(param: i32) -> bool {
    let mut variable: bool = false;
    if variable == true {
        // no hacer nada
    } else {
        // tampoco
    }
    return variable;
}

fn main() {
    let x = (10 + 20) * 3 / 2 - 1;
    let y = 10 % 3;
    let z = x > y && y <= 1 || !false;
    let range = 0..100;
    let mut a = 10;
    a += 5;
    a -= 1;
    a *= 2;
    a /= 3;
    let mi_string = "hola\nmundo";
    let mi_char = 'c';
    let mi_float = 3.14159;
    let mi_array = [1, 2, 3];
    let mi_closure = |a: i32| a + 1;
    let mi_closure_vacia = || 1;
    let referencia = &x;
    println!("Hola");
    print!("Mundo");
    eprintln!("Error");
    eprint!("Grave");
    @ $ ? #
}
"#;
    let (tokens, errors) = lex(source);
    assert_eq!(errors.len(), 4);
    assert!(errors.iter().all(|e| e.kind == LexErrorKind::InvalidCharacter));
    assert!(errors.iter().all(|e| e.line == 43));
    assert_eq!(tokens.iter().filter(|t| t.kind == TokenKind::StringLiteral).count(), 5);
    assert_eq!(tokens.iter().filter(|t| matches!(t.kind, TokenKind::MacroName(_))).count(), 4);
    assert_eq!(tokens.iter().filter(|t| t.kind == TokenKind::FloatLiteral).count(), 1);
    assert_eq!(tokens.iter().filter(|t| t.kind == TokenKind::CharLiteral).count(), 1);
    assert_eq!(tokens.last().unwrap().kind, TokenKind::Punctuation(Punctuation::RBrace));
}

#[test]
fn keyword_and_macro_spellings() {
    assert!(analyzer::lexer::spells_keyword(b"while", Keyword::While));
    assert!(!analyzer::lexer::spells_keyword(b"whil", Keyword::While));
    assert!(analyzer::lexer::spells_macro(b"eprint", Macro::Eprint));
    assert!(!analyzer::lexer::spells_macro(b"eprint", Macro::Eprintln));
}
