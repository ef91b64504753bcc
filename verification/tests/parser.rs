use analyzer::ast::{
    AssignOp, BinaryOp, ClosureBody, Expr, ExprKind, Item, Program, Stmt, UnaryOp,
};
use analyzer::grammar::{Expected, SyntaxError, SyntaxErrorKind};
use analyzer::lexer::tokenize;
use analyzer::parser::parse;
use analyzer::token::{Keyword, Operator, Punctuation, TokenKind};
use analyzer::types::{Primitive, Type};

fn parse_source(source: &str) -> (Program, Vec<SyntaxError>) {
    let (tokens, lexical) = tokenize(source.as_bytes());
    assert!(lexical.is_empty());
    parse(&tokens)
}

/// The statements of the only function of `source`.
fn body(source: &str) -> Vec<Stmt> {
    let (program, errors) = parse_source(source);
    assert_eq!(errors, vec![]);
    let mut items = program.items;
    assert_eq!(items.len(), 1);
    match items.remove(0) {
        Item::Function(f) => f.body,
        other => panic!("not a function: {:?}", other),
    }
}

/// The expression `text`, read as the initializer of a `let`.
fn expr(text: &str) -> Expr {
    let mut stmts = body(&format!("fn f() {{ let v = {}; }}", text));
    assert_eq!(stmts.len(), 1);
    match stmts.remove(0) {
        Stmt::Let { init: Some(e), .. } => e,
        other => panic!("not a let with a value: {:?}", other),
    }
}

/// An expression written out with every operator in brackets.
fn show(e: &Expr) -> String {
    let text = |t: &Vec<u8>| String::from_utf8_lossy(t).into_owned();
    let list = |es: &Vec<Expr>| es.iter().map(show).collect::<Vec<_>>().join(", ");
    match &e.kind {
        ExprKind::IntLit(t) | ExprKind::FloatLit(t) | ExprKind::CharLit(t)
        | ExprKind::StringLit(t) | ExprKind::Identifier(t) => text(t),
        ExprKind::BoolLit(b) => format!("{}", b),
        ExprKind::Path(segments) => segments.iter().map(text).collect::<Vec<_>>().join("::"),
        ExprKind::Binary(op, l, r) => format!("({} {:?} {})", show(l), op, show(r)),
        ExprKind::Unary(op, operand) => format!("({:?} {})", op, show(operand)),
        ExprKind::Call(f, args) => format!("{}({})", show(f), list(args)),
        ExprKind::MacroCall(m, args) => format!("{:?}!({})", m, list(args)),
        ExprKind::FieldAccess(base, name) => format!("{}.{}", show(base), text(name)),
        ExprKind::StructInit(name, fields) => format!(
            "{} {{{}}}",
            text(name),
            fields
                .iter()
                .map(|f| format!("{}: {}", text(&f.name), show(&f.value)))
                .collect::<Vec<_>>()
                .join(", ")
        ),
        ExprKind::ArrayLit(es) => format!("[{}]", list(es)),
        ExprKind::ArrayRepeat(v, n) => format!("[{}; {}]", show(v), show(n)),
        ExprKind::TupleLit(es) => format!("tuple({})", list(es)),
        ExprKind::Closure(params, ret, body) => format!(
            "|{}|{} {}",
            params.iter().map(|p| text(&p.name)).collect::<Vec<_>>().join(", "),
            if ret.is_some() { " ->" } else { "" },
            match body {
                ClosureBody::Expr(e) => show(e),
                ClosureBody::Block(b) => format!("block of {}", b.len()),
            }
        ),
        ExprKind::Reference(m, target) => {
            format!("(&{}{})", if *m { "mut " } else { "" }, show(target))
        }
        ExprKind::Range(a, b) => format!("({}..{})", show(a), show(b)),
    }
}

#[test]
fn no_tokens_give_an_empty_program() {
    let (program, errors) = parse(&Vec::new());
    assert!(program.items.is_empty());
    assert!(errors.is_empty());
}

#[test]
fn multiplication_binds_tighter_than_addition() {
    assert_eq!(show(&expr("10 + 5 * 2")), "(10 Add (5 Mul 2))");
    assert_eq!(show(&expr("100 / 2 + 5 * 3 - 10")), "(((100 Div 2) Add (5 Mul 3)) Sub 10)");
}

#[test]
fn binary_operators_are_left_associative() {
    assert_eq!(show(&expr("1 - 2 - 3")), "((1 Sub 2) Sub 3)");
    assert_eq!(show(&expr("8 / 4 / 2")), "((8 Div 4) Div 2)");
    assert_eq!(show(&expr("a && b && c")), "((a And b) And c)");
    assert_eq!(show(&expr("a < b < c")), "((a Less b) Less c)");
}

#[test]
fn the_levels_of_precedence_from_loosest_to_tightest() {
    assert_eq!(
        show(&expr("a || b && c == d + e * f")),
        "(a Or (b And (c Eq (d Add (e Mul f)))))"
    );
    assert_eq!(
        show(&expr("x > y && y <= 1 || !false")),
        "(((x Greater y) And (y LessEq 1)) Or (Not false))"
    );
    assert_eq!(show(&expr("10 % 3 != 1")), "((10 Rem 3) NotEq 1)");
    assert_eq!(show(&expr("a >= b")), "(a GreaterEq b)");
}

#[test]
fn unary_operators_bind_tighter_than_any_binary_operator() {
    assert_eq!(show(&expr("-a * b")), "((Neg a) Mul b)");
    assert_eq!(show(&expr("!a == b")), "((Not a) Eq b)");
    assert_eq!(show(&expr("- -a")), "(Neg (Neg a))");
    assert_eq!(show(&expr("!f(x)")), "(Not f(x))");
}

#[test]
fn brackets_override_precedence() {
    assert_eq!(show(&expr("(15 - 3) * (8 + 2)")), "((15 Sub 3) Mul (8 Add 2))");
    assert_eq!(show(&expr("(a + 5) * 2 - 1")), "(((a Add 5) Mul 2) Sub 1)");
}

#[test]
fn a_range_is_looser_than_every_binary_operator() {
    assert_eq!(show(&expr("0..n + 1")), "(0..(n Add 1))");
}

#[test]
fn calls_paths_and_field_access() {
    assert_eq!(show(&expr("sumar(5, 3)")), "sumar(5, 3)");
    assert_eq!(show(&expr("input()")), "input()");
    assert_eq!(show(&expr("String::new()")), "String::new()");
    assert_eq!(show(&expr("io::stdin().read_line(&mut buffer)")), "io::stdin().read_line((&mut buffer))");
    assert_eq!(show(&expr("p.x + p.y")), "(p.x Add p.y)");
    assert_eq!(show(&expr("Color::Red")), "Color::Red");
    assert_eq!(show(&expr("f(a,)")), "f(a)");
}

#[test]
fn array_literal_and_array_repeat_are_distinct() {
    assert_eq!(show(&expr("[1, 2, 3]")), "[1, 2, 3]");
    assert_eq!(show(&expr("[0; 10]")), "[0; 10]");
    assert_eq!(show(&expr("[]")), "[]");
    assert_eq!(show(&expr("[7]")), "[7]");
    assert!(matches!(expr("[0; 10]").kind, ExprKind::ArrayRepeat(_, _)));
    assert!(matches!(expr("[0, 10]").kind, ExprKind::ArrayLit(_)));
}

#[test]
fn tuples_and_bracketed_expressions() {
    assert_eq!(show(&expr("(10, \"diez\", false, 3.0)")), "tuple(10, \"diez\", false, 3.0)");
    assert_eq!(show(&expr("()")), "tuple()");
    assert_eq!(show(&expr("(1)")), "1");
    assert_eq!(show(&expr("(1,)")), "tuple(1)");
}

#[test]
fn struct_literals() {
    assert_eq!(show(&expr("Point { x: 0.0, y: 0.0 }")), "Point {x: 0.0, y: 0.0}");
    assert_eq!(show(&expr("Empty {}")), "Empty {}");
}

#[test]
fn closures_in_three_forms() {
    assert_eq!(show(&expr("|| 3.14")), "|| 3.14");
    assert_eq!(show(&expr("|x, y| x + y")), "|x, y| (x Add y)");
    assert_eq!(show(&expr("|n| n * factor")), "|n| (n Mul factor)");
    let typed = expr("|x: i32, y: i32| -> i32 { return x - y; }");
    assert_eq!(show(&typed), "|x, y| -> block of 1");
    match typed.kind {
        ExprKind::Closure(params, ret, _) => {
            assert_eq!(params[0].ty, Some(Type::Primitive(Primitive::I32)));
            assert_eq!(ret, Some(Type::Primitive(Primitive::I32)));
        }
        other => panic!("not a closure: {:?}", other),
    }
    match expr("|a| a").kind {
        ExprKind::Closure(params, ret, _) => {
            assert_eq!(params[0].ty, None);
            assert_eq!(ret, None);
        }
        other => panic!("not a closure: {:?}", other),
    }
}

#[test]
fn references() {
    assert_eq!(show(&expr("&x")), "(&x)");
    assert_eq!(show(&expr("&mut edad")), "(&mut edad)");
}

#[test]
fn expressions_carry_the_place_of_their_first_token() {
    let stmts = body("fn f() {\n    let v = alpha + beta;\n}");
    match &stmts[0] {
        Stmt::Let { init: Some(e), .. } => {
            assert_eq!((e.pos.line, e.pos.column), (2, 13));
            match &e.kind {
                ExprKind::Binary(_, l, r) => {
                    assert_eq!((l.pos.line, l.pos.column), (2, 13));
                    assert_eq!((r.pos.line, r.pos.column), (2, 21));
                }
                other => panic!("not binary: {:?}", other),
            }
        }
        other => panic!("not a let: {:?}", other),
    }
}

#[test]
fn let_statements() {
    let stmts = body("fn f() { let a: i32 = 10; let mut c = true; let mut u: i32; let d: &str = \"h\"; }");
    assert_eq!(stmts.len(), 4);
    match &stmts[0] {
        Stmt::Let { name, mutable, declared, init } => {
            assert_eq!(name.as_slice(), b"a");
            assert!(!*mutable);
            assert_eq!(*declared, Some(Type::Primitive(Primitive::I32)));
            assert!(init.is_some());
        }
        other => panic!("{:?}", other),
    }
    assert!(matches!(&stmts[1], Stmt::Let { mutable: true, declared: None, init: Some(_), .. }));
    assert!(matches!(&stmts[2], Stmt::Let { mutable: true, declared: Some(_), init: None, .. }));
    match &stmts[3] {
        Stmt::Let { declared, .. } => assert_eq!(*declared, Some(Type::Primitive(Primitive::StrRef))),
        other => panic!("{:?}", other),
    }
}

#[test]
fn types() {
    let stmts = body(
        "fn f() { let a: [f64; 2]; let b: (i32, bool); let c: Point; let d: &mut String; \
         let e: (); let g: char; }",
    );
    let declared: Vec<Type> = stmts
        .into_iter()
        .map(|s| match s {
            Stmt::Let { declared: Some(t), .. } => t,
            other => panic!("{:?}", other),
        })
        .collect();
    assert_eq!(declared[0], Type::Array(Box::new(Type::Primitive(Primitive::F64)), 2));
    assert_eq!(
        declared[1],
        Type::Tuple(vec![Type::Primitive(Primitive::I32), Type::Primitive(Primitive::Bool)])
    );
    assert_eq!(declared[2], Type::Named(b"Point".to_vec()));
    assert_eq!(declared[3], Type::Reference(true, Box::new(Type::Primitive(Primitive::String))));
    assert_eq!(declared[4], Type::Primitive(Primitive::Unit));
    assert_eq!(declared[5], Type::Primitive(Primitive::Char));
}

#[test]
fn assignments_simple_and_compound() {
    let stmts = body("fn f() { a = 1; a += 5; a -= 1; a *= 2; a /= 3; }");
    let ops: Vec<AssignOp> = stmts
        .iter()
        .map(|s| match s {
            Stmt::Assign { op, .. } => *op,
            other => panic!("{:?}", other),
        })
        .collect();
    assert_eq!(
        ops,
        vec![AssignOp::Plain, AssignOp::Add, AssignOp::Sub, AssignOp::Mul, AssignOp::Div]
    );
}

#[test]
fn control_flow_statements() {
    let stmts = body(
        "fn f() { if a { b; } else if c { d; } else { e; } while i < 3 { continue; } \
         for j in 0..5 { } loop { break; } return; return 1; }",
    );
    assert_eq!(stmts.len(), 6);
    match &stmts[0] {
        Stmt::If { then_block, else_block: Some(e), .. } => {
            assert_eq!(then_block.len(), 1);
            assert_eq!(e.len(), 1);
            assert!(matches!(&e[0], Stmt::If { else_block: Some(_), .. }));
        }
        other => panic!("{:?}", other),
    }
    assert!(matches!(&stmts[1], Stmt::While { .. }));
    match &stmts[2] {
        Stmt::ForIn { var, range, body } => {
            assert_eq!(var.as_slice(), b"j");
            assert!(matches!(range.kind, ExprKind::Range(_, _)));
            assert!(body.is_empty());
        }
        other => panic!("{:?}", other),
    }
    assert!(matches!(&stmts[3], Stmt::Loop { .. }));
    assert_eq!(stmts[4], Stmt::Return(None));
    assert!(matches!(&stmts[5], Stmt::Return(Some(_))));
}

#[test]
fn a_name_before_a_brace_in_a_condition_is_not_a_struct_literal() {
    let stmts = body("fn f() { if x { y; } while ready { } }");
    match &stmts[0] {
        Stmt::If { cond, then_block, .. } => {
            assert!(matches!(cond.kind, ExprKind::Identifier(_)));
            assert_eq!(then_block.len(), 1);
        }
        other => panic!("{:?}", other),
    }
    match &stmts[1] {
        Stmt::While { cond, .. } => assert!(matches!(cond.kind, ExprKind::Identifier(_))),
        other => panic!("{:?}", other),
    }
}

#[test]
fn a_struct_literal_in_brackets_may_stand_in_a_condition() {
    let stmts = body("fn f() { if same(Empty {}) { } }");
    assert!(matches!(&stmts[0], Stmt::If { .. }));
}

#[test]
fn items_of_every_kind() {
    let source = "const MAX: u32 = 100;\nstatic APP: &str = \"x\";\nstatic mut N: i32 = 0;\n\
                  struct Point { x: i32, y: i32, }\nstruct Empty {}\n\
                  enum Status { Connected, Disconnected }\nenum EmptyEnum {}\n\
                  trait Serializable { fn to_string(&self) -> String; fn get_id() -> u32; }\n\
                  impl Serializable for Point { fn get_id() -> u32 { return 1; } }\n\
                  impl Empty { fn new() -> Self { let i = Empty {}; return i; } }\n\
                  fn with_params(count: i32, name: String) { let x = count; }";
    let (program, errors) = parse_source(source);
    assert_eq!(errors, vec![]);
    assert_eq!(program.items.len(), 11);
    assert!(matches!(&program.items[0], Item::Const { .. }));
    assert!(matches!(&program.items[1], Item::Static { mutable: false, .. }));
    assert!(matches!(&program.items[2], Item::Static { mutable: true, .. }));
    match &program.items[3] {
        Item::Struct { name, fields } => {
            assert_eq!(name.as_slice(), b"Point");
            assert_eq!(fields.len(), 2);
            assert_eq!(fields[1].name.as_slice(), b"y");
        }
        other => panic!("{:?}", other),
    }
    match &program.items[5] {
        Item::Enum { variants, .. } => assert_eq!(variants.len(), 2),
        other => panic!("{:?}", other),
    }
    match &program.items[7] {
        Item::Trait { methods, .. } => {
            assert_eq!(methods.len(), 2);
            assert_eq!(methods[0].params.len(), 1);
            assert_eq!(methods[0].params[0].name.as_slice(), b"self");
            assert_eq!(methods[1].ret, Some(Type::Named(b"u32".to_vec())));
        }
        other => panic!("{:?}", other),
    }
    match &program.items[8] {
        Item::Impl { target, trait_name, methods } => {
            assert_eq!(target.as_slice(), b"Point");
            assert_eq!(trait_name.as_deref(), Some(&b"Serializable"[..]));
            assert_eq!(methods.len(), 1);
        }
        other => panic!("{:?}", other),
    }
    match &program.items[9] {
        Item::Impl { target, trait_name, methods } => {
            assert_eq!(target.as_slice(), b"Empty");
            assert_eq!(*trait_name, None);
            assert_eq!(methods[0].sig.ret, Some(Type::Named(b"Self".to_vec())));
        }
        other => panic!("{:?}", other),
    }
    match &program.items[10] {
        Item::Function(f) => {
            assert_eq!(f.sig.name.as_slice(), b"with_params");
            assert_eq!(f.sig.params.len(), 2);
            assert_eq!(f.sig.params[1].ty, Some(Type::Primitive(Primitive::String)));
            assert_eq!(f.sig.ret, None);
        }
        other => panic!("{:?}", other),
    }
}

#[test]
fn a_missing_semicolon_is_a_missing_token() {
    let (program, errors) = parse_source("fn f() {\n    let a = 5\n    let b = 6;\n}");
    assert_eq!(errors.len(), 1);
    assert_eq!(errors[0].kind, SyntaxErrorKind::MissingToken);
    assert_eq!(
        errors[0].expected,
        Expected::Token(TokenKind::Punctuation(Punctuation::Semicolon))
    );
    assert_eq!(errors[0].found, Some(TokenKind::Keyword(Keyword::Let)));
    assert_eq!((errors[0].pos.line, errors[0].pos.column), (3, 5));
    assert_eq!(program.items.len(), 1);
}

#[test]
fn reading_goes_on_behind_a_broken_statement() {
    let (program, errors) =
        parse_source("fn f() {\n    let a = ;\n    let b = 1;\n    let = 2;\n    let c = 3;\n}");
    assert_eq!(errors.len(), 2);
    assert_eq!(errors[0].kind, SyntaxErrorKind::UnexpectedToken);
    assert_eq!(errors[0].expected, Expected::Expression);
    assert_eq!(errors[0].found, Some(TokenKind::Punctuation(Punctuation::Semicolon)));
    assert_eq!((errors[0].pos.line, errors[0].pos.column), (2, 13));
    assert_eq!(errors[1].kind, SyntaxErrorKind::MissingToken);
    assert_eq!(errors[1].expected, Expected::Identifier);
    assert_eq!(errors[1].found, Some(TokenKind::Operator(Operator::Assign)));
    match &program.items[0] {
        Item::Function(f) => {
            assert_eq!(f.body.len(), 2);
            assert!(matches!(&f.body[0], Stmt::Let { name, .. } if name.as_slice() == b"b"));
            assert!(matches!(&f.body[1], Stmt::Let { name, .. } if name.as_slice() == b"c"));
        }
        other => panic!("{:?}", other),
    }
}

#[test]
fn a_bracket_that_nothing_closes_is_an_unbalanced_delimiter() {
    let (_, errors) = parse_source("fn f() { let a = (1 + 2; }");
    assert_eq!(errors.len(), 1);
    assert_eq!(errors[0].kind, SyntaxErrorKind::UnbalancedDelimiter);
    assert_eq!(errors[0].expected, Expected::Token(TokenKind::Punctuation(Punctuation::RParen)));
    assert_eq!(errors[0].found, Some(TokenKind::Punctuation(Punctuation::Semicolon)));
}

#[test]
fn a_block_that_the_input_ends_in_is_an_unbalanced_delimiter() {
    let (program, errors) = parse_source("fn f() { let a = 1;");
    assert_eq!(errors.len(), 1);
    assert_eq!(errors[0].kind, SyntaxErrorKind::UnbalancedDelimiter);
    assert_eq!(errors[0].expected, Expected::Token(TokenKind::Punctuation(Punctuation::RBrace)));
    assert_eq!(errors[0].found, None);
    assert!(program.items.is_empty());
}

#[test]
fn what_starts_no_item_is_an_unexpected_token() {
    let (program, errors) = parse_source("let x = 1;\nfn f() { }");
    assert_eq!(errors.len(), 1);
    assert_eq!(errors[0].kind, SyntaxErrorKind::UnexpectedToken);
    assert_eq!(errors[0].expected, Expected::Item);
    assert_eq!(errors[0].found, Some(TokenKind::Keyword(Keyword::Let)));
    assert_eq!((errors[0].pos.line, errors[0].pos.column), (1, 1));
    assert_eq!(program.items.len(), 1);
}

#[test]
fn an_unknown_item_keyword_is_skipped_to_the_next_boundary() {
    let (program, errors) =
        parse_source("struct A {}\nimplement T for A {}\nfn main() { }");
    assert_eq!(errors.len(), 1);
    assert_eq!(errors[0].expected, Expected::Item);
    assert_eq!(errors[0].found, Some(TokenKind::Identifier));
    assert_eq!(errors[0].pos.line, 2);
    assert_eq!(program.items.len(), 2);
}

#[test]
fn a_program_of_errors_only_is_still_a_program() {
    let (program, errors) = parse_source(") ] ; + }");
    assert!(program.items.is_empty());
    assert_eq!(errors.len(), 2);
    assert!(errors.iter().all(|e| e.kind == SyntaxErrorKind::UnexpectedToken));
}

#[test]
fn errors_in_signatures_and_types() {
    let (_, errors) = parse_source("fn (a: i32) { }");
    assert_eq!(errors[0].kind, SyntaxErrorKind::MissingToken);
    assert_eq!(errors[0].expected, Expected::Identifier);
    let (_, errors) = parse_source("fn f(a: ) { }");
    assert_eq!(errors[0].kind, SyntaxErrorKind::UnexpectedToken);
    assert_eq!(errors[0].expected, Expected::Type);
    let (_, errors) = parse_source("fn f() { let a: [i32; x]; }");
    assert_eq!(errors[0].expected, Expected::ArraySize);
    let (_, errors) = parse_source("fn f() { let a: [i32; 99999999999999999999]; }");
    assert_eq!(errors[0].expected, Expected::ArraySize);
    let (_, errors) = parse_source("const A i32 = 1;");
    assert_eq!(errors[0].kind, SyntaxErrorKind::MissingToken);
    assert_eq!(errors[0].expected, Expected::Token(TokenKind::Punctuation(Punctuation::Colon)));
}

#[test]
fn macro_calls() {
    let stmts = body("fn f() { println!(\"Valores: x={}, y={}\", x, y); }");
    match &stmts[0] {
        Stmt::Expr(e) => assert_eq!(show(e), "Println!(\"Valores: x={}, y={}\", x, y)"),
        other => panic!("{:?}", other),
    }
    let (_, errors) = parse_source("fn f() { print! 1; }");
    assert_eq!(errors[0].kind, SyntaxErrorKind::MissingToken);
    assert_eq!(errors[0].expected, Expected::Token(TokenKind::Punctuation(Punctuation::LParen)));
}

#[test]
fn sample_of_broken_declarations() {
    let source = r#"
fn error_missing_semicolon() {
    let mut buffer = String::new()
    println!("Error: falta ;");
}

fn error_unbalanced_parens() {
    let mut buffer = String::new(;
}

fn error_no_expression() {
    let mut x = ;
}

fn error_missing_parens() {
    let mut buffer = String::new;
}
"#;
    let (program, errors) = parse_source(source);
    assert_eq!(program.items.len(), 4);
    assert_eq!(errors.len(), 3);
    assert_eq!(errors[0].kind, SyntaxErrorKind::MissingToken);
    assert_eq!(errors[0].pos.line, 4);
    assert_eq!(errors[1].kind, SyntaxErrorKind::UnexpectedToken);
    assert_eq!(errors[1].expected, Expected::Expression);
    assert_eq!(errors[1].pos.line, 8);
    assert_eq!(errors[2].kind, SyntaxErrorKind::UnexpectedToken);
    assert_eq!(errors[2].pos.line, 12);
}

#[test]
fn sample_of_the_whole_syntax() {
    let source = r#"
const MAX_CONNECTIONS: u32 = 100;
static APP_NAME: &str = "Rust Analyzer";

struct Point {
    x: i32,
    y: i32,
}
struct Empty {}

enum Status {
    Connected,
    Disconnected,
    Connecting,
}
enum EmptyEnum {}

trait Serializable {
    fn to_string(&self) -> String;
    fn get_id() -> u32;
}

impl Serializable for Point {
    fn to_string(&self) -> String {
        return "Point";
    }
    fn get_id() -> u32 {
        return 1;
    }
}

impl Empty {
    fn new() -> Self {
        let instance = Empty {};
        return instance;
    }
}

fn simple_function() {
    // Esta función no hace nada
}

fn function_with_params(count: i32, name: String) {
    let x = count;
}

fn function_with_return() -> bool {
    return true;
}

fn main() {
    let a: i32 = 10;
    let b = 20.5;
    let mut c = false;
    let mut d: String = "hello";

    let result = (a + 5) * 2 - 1;
    let is_ok = result > 20 && !c;
    let is_not_ok = a < 0 || c == true;

    let mut counter = 0;
    while counter < 3 {
        counter = counter + 1;
    }

    for i in 0..2 {
        // Contenido del for
    }

    loop {
        break;
    }
    
    let e = Empty {};

    let arr = [1, 2, 3];
    let tup = (10, "tuple", false);
    
    counter = 10;
    counter += 5;

    let data = input();
    
    return;
}
"#;
    let (program, errors) = parse_source(source);
    assert_eq!(errors, vec![]);
    assert_eq!(program.items.len(), 13);
    match program.items.last() {
        Some(Item::Function(f)) => {
            assert_eq!(f.sig.name.as_slice(), b"main");
            assert_eq!(f.body.len(), 18);
        }
        other => panic!("{:?}", other),
    }
}

#[test]
fn binary_and_unary_operator_names() {
    match expr("a % b").kind {
        ExprKind::Binary(op, _, _) => assert_eq!(op, BinaryOp::Rem),
        other => panic!("{:?}", other),
    }
    match expr("-a").kind {
        ExprKind::Unary(op, _) => assert_eq!(op, UnaryOp::Neg),
        other => panic!("{:?}", other),
    }
}
