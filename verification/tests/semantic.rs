use analyzer::checker::analyze;
use analyzer::diagnostics::{SemanticError, SemanticErrorKind};
use analyzer::lexer::tokenize;
use analyzer::parser::parse;
use analyzer::pipeline::{check_source, Diagnostic, Stage};
use analyzer::token::Position;
use analyzer::types::{Primitive, Type};

fn analyze_source(source: &str) -> Vec<SemanticError> {
    let (tokens, lexical) = tokenize(source.as_bytes());
    assert!(lexical.is_empty());
    let (program, syntax) = parse(&tokens);
    assert_eq!(syntax, vec![]);
    analyze(&program)
}

/// The semantic errors of `statements` as the body of a function.
fn in_main(statements: &str) -> Vec<SemanticError> {
    analyze_source(&format!("fn main() {{\n{}\n}}", statements))
}

fn kinds(errors: &[SemanticError]) -> Vec<SemanticErrorKind> {
    errors.iter().map(|e| e.kind()).collect()
}

fn prim(p: Primitive) -> Type {
    Type::Primitive(p)
}

fn named(name: &str) -> Type {
    Type::Named(name.as_bytes().to_vec())
}

fn at(line: usize, column: usize) -> Position {
    Position { line, column }
}

fn mismatch(expected: Type, found: Type, line: usize, column: usize) -> SemanticError {
    SemanticError::TypeMismatch { expected, found, pos: at(line, column) }
}

fn undefined(name: &str, line: usize, column: usize) -> SemanticError {
    SemanticError::UndefinedIdentifier { name: name.as_bytes().to_vec(), pos: at(line, column) }
}

#[test]
fn an_empty_program_has_no_errors() {
    assert_eq!(analyze_source(""), vec![]);
    assert_eq!(analyze_source("fn main() { }"), vec![]);
}

#[test]
fn a_name_declared_in_a_block_is_gone_behind_it() {
    let errors = in_main("if true { let local_only = 999; }\nlet try_access = local_only;");
    assert_eq!(errors, vec![undefined("local_only", 3, 18)]);
}

#[test]
fn a_name_used_inside_its_block_is_found() {
    assert_eq!(in_main("if true { let local_only = 999; let again = local_only; }"), vec![]);
}

#[test]
fn a_name_of_an_outer_scope_is_found_in_an_inner_one() {
    assert_eq!(
        in_main("let global_var = 100;\nif true { let result = global_var + 50; }"),
        vec![]
    );
}

#[test]
fn the_variable_of_a_for_loop_is_gone_behind_the_loop() {
    let errors = in_main("for i in 0..5 { let loop_var = i * 2; }\nlet after = loop_var;\nlet j = i;");
    assert_eq!(errors, vec![undefined("loop_var", 3, 13), undefined("i", 4, 9)]);
}

#[test]
fn names_of_loop_and_while_bodies_are_gone_behind_them() {
    let errors = in_main("loop { let a = 1; break; }\nwhile true { let b = 2; }\nlet c = a;\nlet d = b;");
    assert_eq!(kinds(&errors), vec![SemanticErrorKind::UndefinedIdentifier; 2]);
}

#[test]
fn shadowing_in_an_inner_scope_ends_with_that_scope() {
    let errors = in_main("let x = 1;\nif true { let x = true; let b: bool = x; }\nlet y: i32 = x;");
    assert_eq!(errors, vec![]);
}

#[test]
fn a_second_declaration_in_one_scope_replaces_the_first() {
    assert_eq!(in_main("let x = 1;\nlet x = true;\nlet b: bool = x;"), vec![]);
    let errors = in_main("let x = 1;\nlet x = true;\nlet n: i32 = x;");
    assert_eq!(errors, vec![mismatch(prim(Primitive::I32), prim(Primitive::Bool), 4, 14)]);
}

#[test]
fn undefined_names_in_expressions_and_targets() {
    let errors = in_main("let z = undefined_var;\nlet r = unknown_x * 5;\nno_existe = 42;");
    assert_eq!(
        errors,
        vec![
            undefined("undefined_var", 2, 9),
            undefined("unknown_x", 3, 9),
            undefined("no_existe", 4, 1),
        ]
    );
}

#[test]
fn an_error_is_not_repeated_by_what_uses_the_faulty_name() {
    let errors = in_main("let z = undefined_var;\nlet w: i32 = z;\nlet v: bool = z;");
    assert_eq!(errors, vec![undefined("undefined_var", 2, 9)]);
}

#[test]
fn assigning_to_an_immutable_binding() {
    let errors = in_main("let immutable_var = 1000;\nimmutable_var = 2000;");
    assert_eq!(
        errors,
        vec![SemanticError::ImmutableAssignment {
            name: b"immutable_var".to_vec(),
            pos: at(3, 1),
        }]
    );
}

#[test]
fn compound_assignment_to_an_immutable_binding() {
    let errors = in_main("let count = 1;\ncount += 5;");
    assert_eq!(kinds(&errors), vec![SemanticErrorKind::ImmutableAssignment]);
}

#[test]
fn assigning_to_a_mutable_binding() {
    assert_eq!(in_main("let mut g = 100;\ng = 200;\ng += 1;\nlet mut h = \"a\";\nh = \"b\";"), vec![]);
}

#[test]
fn constants_and_statics() {
    let source = "const MAX_POINTS: i32 = 100;\nstatic LIVES: i32 = 3;\nstatic mut COUNTER: i32 = 0;\n\
                  fn main() {\n    MAX_POINTS = 105;\n    LIVES = 4;\n    COUNTER = 1;\n    \
                  let total = MAX_POINTS + LIVES + COUNTER;\n}";
    let errors = analyze_source(source);
    assert_eq!(
        errors,
        vec![
            SemanticError::ImmutableAssignment { name: b"MAX_POINTS".to_vec(), pos: at(5, 5) },
            SemanticError::ImmutableAssignment { name: b"LIVES".to_vec(), pos: at(6, 5) },
        ]
    );
}

#[test]
fn the_value_of_a_constant_must_have_its_type() {
    let errors = analyze_source("const A: i32 = true;\nstatic B: bool = 1;\nconst C: f64 = 1.5;");
    assert_eq!(
        errors,
        vec![
            mismatch(prim(Primitive::I32), prim(Primitive::Bool), 1, 16),
            mismatch(prim(Primitive::Bool), prim(Primitive::I32), 2, 18),
        ]
    );
}

#[test]
fn a_declared_type_must_agree_with_the_value() {
    let errors = in_main("let error1: i32 = \"esto no es un i32\";");
    assert_eq!(errors, vec![mismatch(prim(Primitive::I32), prim(Primitive::StrRef), 2, 19)]);
    let errors = in_main("let error2: bool = 1;");
    assert_eq!(errors, vec![mismatch(prim(Primitive::Bool), prim(Primitive::I32), 2, 20)]);
}

#[test]
fn a_new_value_must_agree_with_the_inferred_type() {
    let errors = in_main("let mut error3 = 500;\nerror3 = true;");
    assert_eq!(errors, vec![mismatch(prim(Primitive::I32), prim(Primitive::Bool), 3, 10)]);
    let errors = in_main("let mut error4 = \"hola\";\nerror4 = 123;");
    assert_eq!(errors, vec![mismatch(prim(Primitive::StrRef), prim(Primitive::I32), 3, 10)]);
}

#[test]
fn declarations_of_every_primitive_type() {
    assert_eq!(
        in_main(
            "let a: i32 = 10;\nlet b: f64 = 20.5;\nlet c: bool = true;\nlet d: &str = \"hello\";\n\
             let e: char = 'A';\nlet f = 50;\nlet g = false;"
        ),
        vec![]
    );
}

#[test]
fn a_string_literal_is_no_string() {
    let errors = in_main("let d: String = \"hello\";");
    assert_eq!(errors, vec![mismatch(prim(Primitive::String), prim(Primitive::StrRef), 2, 17)]);
}

#[test]
fn use_before_any_assignment() {
    let errors = in_main("let invalid_uninit: i32;\nlet another_var = invalid_uninit + 5;");
    assert_eq!(
        errors,
        vec![SemanticError::UninitializedUse {
            name: b"invalid_uninit".to_vec(),
            pos: at(3, 19),
        }]
    );
}

#[test]
fn use_after_assignment() {
    assert_eq!(
        in_main("let mut valid_uninit: i32;\nvalid_uninit = 50;\nlet some_var = valid_uninit + 10;"),
        vec![]
    );
}

#[test]
fn a_compound_assignment_reads_its_target() {
    let errors = in_main("let mut n: i32;\nn += 1;");
    assert_eq!(kinds(&errors), vec![SemanticErrorKind::UninitializedUse]);
}

#[test]
fn a_binding_without_type_takes_the_type_of_its_first_value() {
    let errors = in_main("let mut late;\nlate = 5;\nlate = true;");
    assert_eq!(errors, vec![mismatch(prim(Primitive::I32), prim(Primitive::Bool), 4, 8)]);
}

#[test]
fn the_size_of_a_repeated_array() {
    assert_eq!(in_main("let array_repeat = [0; 5];"), vec![]);
    let errors = in_main("let array_repeat_error = [0; false];");
    assert_eq!(errors, vec![SemanticError::InvalidArraySize { pos: at(2, 30) }]);
    assert_eq!(kinds(&in_main("let a = [0; 1.5];")), vec![SemanticErrorKind::InvalidArraySize]);
    assert_eq!(kinds(&in_main("let a = [0; 2 + 3];")), vec![SemanticErrorKind::InvalidArraySize]);
    assert_eq!(
        kinds(&in_main("let a = [0; 99999999999999999999];")),
        vec![SemanticErrorKind::InvalidArraySize]
    );
}

#[test]
fn a_constant_may_size_a_repeated_array() {
    let source = "const N: i32 = 4;\nconst F: f64 = 4.0;\nfn main() {\n    let a = [0; N];\n    \
                  let n = 3;\n    let b = [0; n];\n    let c = [0; F];\n}";
    let errors = analyze_source(source);
    assert_eq!(
        errors,
        vec![
            SemanticError::InvalidArraySize { pos: at(6, 17) },
            SemanticError::InvalidArraySize { pos: at(7, 17) },
        ]
    );
}

#[test]
fn a_repeated_array_has_its_size_in_its_type() {
    assert_eq!(in_main("let mut a = [0; 2];\na = [1, 2];"), vec![]);
    let errors = in_main("let mut a = [0; 2];\na = [1, 2, 3];");
    assert_eq!(
        errors,
        vec![mismatch(
            Type::Array(Box::new(prim(Primitive::I32)), 2),
            Type::Array(Box::new(prim(Primitive::I32)), 3),
            3,
            5
        )]
    );
}

#[test]
fn structs_are_compared_by_name() {
    let source = "struct Vec2 {}\nstruct Color {}\nfn main() {\n    let v1 = Vec2 {};\n    \
                  let mut v2 = Vec2 {};\n    v2 = v1;\n    let c1: Color = Vec2 {};\n    \
                  let mut v3 = Vec2 {};\n    v3 = Color {};\n}";
    let errors = analyze_source(source);
    assert_eq!(
        errors,
        vec![
            mismatch(named("Color"), named("Vec2"), 7, 21),
            mismatch(named("Vec2"), named("Color"), 9, 10),
        ]
    );
}

#[test]
fn a_struct_literal_of_an_undeclared_struct() {
    let errors = in_main("let p = Nowhere { x: 1 };");
    assert_eq!(errors, vec![undefined("Nowhere", 2, 9)]);
}

#[test]
fn arrays_compare_element_type_and_size() {
    assert_eq!(in_main("let mut arr2 = [10, 20];\narr2 = [30, 40];"), vec![]);
    let errors = in_main("let mut arr3 = [1.0, 2.0];\narr3 = [1, 2];");
    assert_eq!(
        errors,
        vec![mismatch(
            Type::Array(Box::new(prim(Primitive::F64)), 2),
            Type::Array(Box::new(prim(Primitive::I32)), 2),
            3,
            8
        )]
    );
    let errors = in_main("let a: [i32; 3] = [1, 2];");
    assert_eq!(kinds(&errors), vec![SemanticErrorKind::TypeMismatch]);
}

#[test]
fn the_elements_of_an_array_must_agree() {
    let errors = in_main("let a = [1, true, 3, 2.5];");
    assert_eq!(
        errors,
        vec![
            mismatch(prim(Primitive::I32), prim(Primitive::Bool), 2, 13),
            mismatch(prim(Primitive::I32), prim(Primitive::F64), 2, 22),
        ]
    );
}

#[test]
fn tuples_compare_place_by_place_and_by_length() {
    assert_eq!(in_main("let mut t = (10, false);\nt = (20, true);"), vec![]);
    let errors = in_main("let mut tup2 = (10, false);\ntup2 = (10, \"hello\");");
    assert_eq!(
        errors,
        vec![mismatch(
            Type::Tuple(vec![prim(Primitive::I32), prim(Primitive::Bool)]),
            Type::Tuple(vec![prim(Primitive::I32), prim(Primitive::StrRef)]),
            3,
            8
        )]
    );
    let errors = in_main("let mut t = (10, false);\nt = (10, false, 1);");
    assert_eq!(kinds(&errors), vec![SemanticErrorKind::TypeMismatch]);
}

#[test]
fn arithmetic_asks_for_one_numeric_type() {
    assert_eq!(in_main("let a = 1 + 2 * 3 - 4 / 5 % 6;\nlet b = 1.5 * 2.0;"), vec![]);
    let errors = in_main("let a = 1 + 2.5;");
    assert_eq!(errors, vec![mismatch(prim(Primitive::I32), prim(Primitive::F64), 2, 13)]);
    let errors = in_main("let a = true + 1;");
    assert_eq!(errors, vec![mismatch(prim(Primitive::I32), prim(Primitive::Bool), 2, 9)]);
    let errors = in_main("let a = 1.5 - \"x\";");
    assert_eq!(errors, vec![mismatch(prim(Primitive::F64), prim(Primitive::StrRef), 2, 15)]);
}

#[test]
fn arithmetic_gives_the_type_of_its_operands() {
    assert_eq!(in_main("let a: f64 = 1.5 + 2.5;\nlet b: i32 = 7 % 2;"), vec![]);
    let errors = in_main("let a: i32 = 1.5 + 2.5;");
    assert_eq!(errors, vec![mismatch(prim(Primitive::I32), prim(Primitive::F64), 2, 14)]);
}

#[test]
fn comparison_asks_for_operands_that_agree_and_gives_bool() {
    assert_eq!(in_main("let a: bool = 1 < 2;\nlet b: bool = 'a' == 'b';\nlet c = 1.5 >= 0.5;"), vec![]);
    let errors = in_main("let a = 1 == true;");
    assert_eq!(errors, vec![mismatch(prim(Primitive::I32), prim(Primitive::Bool), 2, 14)]);
    let errors = in_main("let a: i32 = 1 < 2;");
    assert_eq!(errors, vec![mismatch(prim(Primitive::I32), prim(Primitive::Bool), 2, 14)]);
}

#[test]
fn logical_operators_ask_for_bool() {
    assert_eq!(in_main("let a = true && false || !true;"), vec![]);
    let errors = in_main("let a = 1 && true;");
    assert_eq!(errors, vec![mismatch(prim(Primitive::Bool), prim(Primitive::I32), 2, 9)]);
    let errors = in_main("let a = true || 2.5;");
    assert_eq!(errors, vec![mismatch(prim(Primitive::Bool), prim(Primitive::F64), 2, 17)]);
}

#[test]
fn unary_operators() {
    assert_eq!(in_main("let a: i32 = -5;\nlet b: f64 = -2.5;\nlet c: bool = !true;"), vec![]);
    let errors = in_main("let a = -true;");
    assert_eq!(errors, vec![mismatch(prim(Primitive::I32), prim(Primitive::Bool), 2, 10)]);
    let errors = in_main("let a = !5;");
    assert_eq!(errors, vec![mismatch(prim(Primitive::Bool), prim(Primitive::I32), 2, 10)]);
}

#[test]
fn conditions_must_be_bool() {
    let errors = in_main("if 1 { }\nwhile \"x\" { }");
    assert_eq!(
        errors,
        vec![
            mismatch(prim(Primitive::Bool), prim(Primitive::I32), 2, 4),
            mismatch(prim(Primitive::Bool), prim(Primitive::StrRef), 3, 7),
        ]
    );
}

#[test]
fn the_ends_of_a_range_must_be_integers() {
    assert_eq!(in_main("for i in 0..5 { let n: i32 = i; }"), vec![]);
    let errors = in_main("for i in 0..2.5 { }");
    assert_eq!(errors, vec![mismatch(prim(Primitive::I32), prim(Primitive::F64), 2, 13)]);
}

#[test]
fn a_call_has_the_type_that_the_function_returns() {
    let source = "fn sumar(a: i32, b: i32) -> i32 {\n    return a + b;\n}\nfn main() {\n    \
                  let r: i32 = sumar(5, 3);\n    let s: bool = sumar(1, 2);\n}";
    let errors = analyze_source(source);
    assert_eq!(errors, vec![mismatch(prim(Primitive::Bool), prim(Primitive::I32), 6, 19)]);
}

#[test]
fn a_function_may_be_called_before_it_is_declared() {
    let source = "fn main() {\n    let r = later();\n}\nfn later() -> i32 {\n    return 1;\n}";
    assert_eq!(analyze_source(source), vec![]);
}

#[test]
fn a_call_of_an_undeclared_function() {
    let errors = in_main("let data = input();");
    assert_eq!(errors, vec![undefined("input", 2, 12)]);
}

#[test]
fn parameters_are_declared_in_the_body() {
    let source = "fn f(count: i32, name: String) {\n    let x: i32 = count;\n    let y: i32 = name;\n}";
    let errors = analyze_source(source);
    assert_eq!(errors, vec![mismatch(prim(Primitive::I32), prim(Primitive::String), 3, 18)]);
}

#[test]
fn parameters_cannot_be_assigned_to() {
    let errors = analyze_source("fn f(count: i32) {\n    count = 1;\n}");
    assert_eq!(kinds(&errors), vec![SemanticErrorKind::ImmutableAssignment]);
}

#[test]
fn paths() {
    let source = "enum Color { Red, Green }\nfn main() {\n    let c: Color = Color::Red;\n    \
                  let s = String::new();\n    let n: i32 = Color::Green;\n    let x = io::stdin();\n}";
    let errors = analyze_source(source);
    assert_eq!(
        errors,
        vec![mismatch(prim(Primitive::I32), named("Color"), 5, 18), undefined("io", 6, 13)]
    );
}

#[test]
fn methods_see_their_receiver() {
    let source = "struct P { x: i32 }\nimpl P {\n    fn get(&self) -> i32 {\n        let me = self;\n        \
                  return other;\n    }\n}";
    let errors = analyze_source(source);
    assert_eq!(errors, vec![undefined("other", 5, 16)]);
}

#[test]
fn a_closure_sees_the_scopes_around_it() {
    assert_eq!(in_main("let factor = 10;\nlet multiplicar = |n| n * factor;"), vec![]);
    let errors = in_main("let error_closure_1 = || z + 1;");
    assert_eq!(errors, vec![undefined("z", 2, 26)]);
}

#[test]
fn the_parameters_of_a_closure_are_gone_behind_it() {
    let errors = in_main("let f = |a: i32| a + 1;\nlet b = a;");
    assert_eq!(errors, vec![undefined("a", 3, 9)]);
}

#[test]
fn a_closure_must_return_what_it_declares() {
    assert_eq!(in_main("let ok = |a: i32, b: i32| -> i32 {\n    return a + b;\n};"), vec![]);
    let errors = in_main("let error_closure_2 = |a: i32| -> i32 {\n    return \"no soy un i32\";\n};");
    assert_eq!(errors, vec![mismatch(prim(Primitive::I32), prim(Primitive::StrRef), 3, 12)]);
    let errors = in_main("let f = |a: i32| -> bool a + 1;");
    assert_eq!(errors, vec![mismatch(prim(Primitive::Bool), prim(Primitive::I32), 2, 26)]);
}

#[test]
fn a_closure_may_not_read_what_nothing_was_assigned_to() {
    let errors = in_main("let error_closure_3 = || {\n    let x: i32;\n    return x;\n};");
    assert_eq!(
        errors,
        vec![SemanticError::UninitializedUse { name: b"x".to_vec(), pos: at(4, 12) }]
    );
}

#[test]
fn what_a_closure_assigns_is_forgotten_behind_it() {
    let errors = in_main("let mut x: i32;\nlet f = || { x = 1; };\nlet y = x;");
    assert_eq!(kinds(&errors), vec![SemanticErrorKind::UninitializedUse]);
}

#[test]
fn what_a_function_returns_is_not_held_against_its_body() {
    let source = "fn to_string() -> String {\n    return \"Point\";\n}";
    assert_eq!(analyze_source(source), vec![]);
}

#[test]
fn analysing_twice_gives_the_same_errors() {
    let source = "struct Vec2 {}\nfn main() {\n    let a: i32 = true;\n    b = 1;\n    \
                  let c = [0; false];\n    let d: i32;\n    let e = d;\n    let f = 1;\n    f = 2;\n}";
    let (tokens, _) = tokenize(source.as_bytes());
    let (program, _) = parse(&tokens);
    let first = analyze(&program);
    let second = analyze(&program);
    assert_eq!(first.len(), 5);
    assert_eq!(first, second);
    assert_eq!(
        kinds(&first),
        vec![
            SemanticErrorKind::TypeMismatch,
            SemanticErrorKind::UndefinedIdentifier,
            SemanticErrorKind::InvalidArraySize,
            SemanticErrorKind::UninitializedUse,
            SemanticErrorKind::ImmutableAssignment,
        ]
    );
}

#[test]
fn errors_know_their_place() {
    let errors = in_main("let a: i32 = true;");
    assert_eq!(errors[0].position(), at(2, 14));
    assert_eq!(errors[0].kind(), SemanticErrorKind::TypeMismatch);
}

#[test]
fn the_stages_report_in_order() {
    let source = "fn main() {\n    let a = 1 @;\n    let b = ;\n    c = 2;\n}";
    let diagnostics = check_source(source.as_bytes());
    let stages: Vec<Stage> = diagnostics.iter().map(|d| d.stage()).collect();
    assert_eq!(stages, vec![Stage::Lexical, Stage::Syntax, Stage::Semantic]);
    assert_eq!(diagnostics[0].position(), at(2, 15));
    assert_eq!(diagnostics[1].position(), at(3, 13));
    assert_eq!(diagnostics[2].position(), at(4, 5));
    assert!(matches!(&diagnostics[2], Diagnostic::Semantic(SemanticError::UndefinedIdentifier { .. })));
}

#[test]
fn a_later_stage_runs_on_what_an_earlier_one_could_read() {
    let source = "fn broken( { }\nfn main() {\n    let x: bool = 1;\n}";
    let diagnostics = check_source(source.as_bytes());
    assert!(diagnostics.iter().any(|d| d.stage() == Stage::Syntax));
    let semantic: Vec<&Diagnostic> =
        diagnostics.iter().filter(|d| d.stage() == Stage::Semantic).collect();
    assert_eq!(semantic.len(), 1);
}

#[test]
fn sample_of_typing_rules() {
    let source = r#"
struct Vec2 {}
struct Color {}

fn main() {
    let a: i32 = 10;
    let b: f64 = 20.5;
    let c: bool = true;
    let d: &str = "hello";
    let e = 50;
    let f = false;
    let mut g = 100;
    g = 200;
    let mut h = "texto";
    h = "otro texto";

    let error1: i32 = "esto no es un i32";
    let error2: bool = 1;

    let mut error3 = 500;
    error3 = true;

    let mut error4 = "hola";
    error4 = 123;

    let v1 = Vec2 {};
    let mut v2 = Vec2 {};
    v2 = v1;

    let c1: Color = Vec2 {};
    let mut v3 = Vec2 {};
    v3 = Color {};

    let arr1 = [1, 2, 3];
    let tup1 = (10, true);
    let mut arr2 = [10, 20];
    arr2 = [30, 40];

    let mut arr3 = [1.0, 2.0];
    arr3 = [1, 2];
    
    let mut tup2 = (10, false);
    tup2 = (10, "hello");

    let immutable_var = 1000;
    immutable_var = 2000;
}
"#;
    let errors = analyze_source(source);
    let lines: Vec<(SemanticErrorKind, usize)> =
        errors.iter().map(|e| (e.kind(), e.position().line)).collect();
    assert_eq!(
        lines,
        vec![
            (SemanticErrorKind::TypeMismatch, 17),
            (SemanticErrorKind::TypeMismatch, 18),
            (SemanticErrorKind::TypeMismatch, 21),
            (SemanticErrorKind::TypeMismatch, 24),
            (SemanticErrorKind::TypeMismatch, 30),
            (SemanticErrorKind::TypeMismatch, 32),
            (SemanticErrorKind::TypeMismatch, 40),
            (SemanticErrorKind::TypeMismatch, 43),
            (SemanticErrorKind::ImmutableAssignment, 46),
        ]
    );
}

#[test]
fn sample_of_existence_and_scope() {
    let source = r#"
fn main() {
    let x: i32 = 5;
    let y = x + 10;
    let mut contador = 0;
    contador = 10;
    let global_var = 100;
    if true {
        let result = global_var + 50;
    }
    let z = undefined_var;
    let resultado = unknown_x * 5;
    no_existe = 42;
    if true {
        let local_only = 999;
    }
    let try_access = local_only;
    for i in 0..5 {
        let loop_var = i * 2;
    }
    let after_loop = loop_var;
    if true {
        let inner_var = 20;
    }
    let try_inner = inner_var;
    let accessible = 50;
    if true {
        let used = accessible + 10;
    }
}
"#;
    let errors = analyze_source(source);
    let names: Vec<(String, usize)> = errors
        .iter()
        .map(|e| match e {
            SemanticError::UndefinedIdentifier { name, pos } => {
                (String::from_utf8_lossy(name).into_owned(), pos.line)
            }
            other => panic!("{:?}", other),
        })
        .collect();
    assert_eq!(
        names,
        vec![
            ("undefined_var".to_string(), 11),
            ("unknown_x".to_string(), 12),
            ("no_existe".to_string(), 13),
            ("local_only".to_string(), 17),
            ("loop_var".to_string(), 21),
            ("inner_var".to_string(), 25),
        ]
    );
}
