use analyzer::pipeline::check_source;
use analyzer::samples::{
    calculate, function_with_params, function_with_return, mi_funcion, simple_function, sumar,
    Empty,
};

#[test]
fn calculate_doubles() {
    assert_eq!(calculate(21), 42);
    assert_eq!(calculate(0), 0);
    assert_eq!(calculate(-7), -14);
    assert_eq!(calculate(i32::MAX / 2), i32::MAX - 1);
}

#[test]
fn sumar_adds() {
    assert_eq!(sumar(5, 3), 8);
    assert_eq!(sumar(-5, 5), 0);
    assert_eq!(sumar(i32::MAX, -1), i32::MAX - 1);
}

#[test]
fn mi_funcion_returns_its_flag() {
    assert!(!mi_funcion(0));
    assert!(!mi_funcion(42));
}

#[test]
fn functions_without_result() {
    simple_function();
    function_with_params(3, String::from("name"));
    assert!(function_with_return());
    assert_eq!(Empty::new(), Empty {});
}

#[test]
fn the_same_functions_as_source_text_have_no_diagnostics() {
    let source = "fn calculate(x: i32) -> i32 {\n    return x * 2;\n}\n\
                  fn sumar(a: i32, b: i32) -> i32 {\n    return a + b;\n}\n\
                  fn mi_funcion(param: i32) -> bool {\n    let mut variable: bool = false;\n    \
                  if variable == true {\n    } else {\n    }\n    return variable;\n}\n\
                  struct Empty {}\n\
                  impl Empty {\n    fn new() -> Self {\n        let instance = Empty {};\n        \
                  return instance;\n    }\n}\n\
                  fn simple_function() {\n}\n\
                  fn function_with_params(count: i32, name: String) {\n    let x = count;\n}\n\
                  fn function_with_return() -> bool {\n    return true;\n}\n";
    assert!(check_source(source.as_bytes()).is_empty());
}
