use analyzer::diagnostics::{SemanticError, SemanticErrorKind};
use analyzer::grammar::{Expected, SyntaxErrorKind};
use analyzer::lexer::{tokenize, LexErrorKind};
use analyzer::pipeline::{check_source, Diagnostic, Stage};
use analyzer::token::{Keyword, Operator, TokenKind};

/// The line, counted from 1, of the first place where `marker` stands.
fn line_of(source: &str, marker: &str) -> usize {
    let at = source.find(marker).expect("marker");
    source[..at].matches('\n').count() + 1
}

fn of_stage(diagnostics: &[Diagnostic], stage: Stage) -> Vec<&Diagnostic> {
    diagnostics.iter().filter(|d| d.stage() == stage).collect()
}

fn semantic(diagnostics: &[Diagnostic]) -> Vec<(SemanticErrorKind, usize)> {
    diagnostics
        .iter()
        .filter_map(|d| match d {
            Diagnostic::Semantic(e) => Some((e.kind(), e.position().line)),
            _ => None,
        })
        .collect()
}

fn syntax(diagnostics: &[Diagnostic]) -> Vec<(SyntaxErrorKind, usize)> {
    diagnostics
        .iter()
        .filter_map(|d| match d {
            Diagnostic::Syntax(e) => Some((e.kind, e.pos.line)),
            _ => None,
        })
        .collect()
}

const STRUCT_AND_CALL: &str = r#"// Uso del operador de ámbito (SCOPE)
use std::vec;

// Definición de una estructura simple
struct Coordenada {
    x: i32,
    y: i32,
}

// Definición de una función con flecha (ARROW)
fn sumar(a: i32, b: i32) -> i32 {
    return a + b;
}

fn main() {
    // Declaración de variables con let, mut y const
    let inmutable = 100;
    let mut mutable = 20.5;
    const PI: f64 = 3.1416;

    // Instanciación de la estructura
    let origen: Coordenada = Coordenada { x: 0, y: 0 };

    // Operadores aritméticos y de asignación
    mutable = mutable + 10.0;
    let producto = inmutable * 2;
    let division = 100 / 5;

    // Uso de operadores de comparación y lógicos
    if producto > 150 {
        // String con secuencias de escape
        let mensaje = "El producto es mayor\ny usa el ampersand &.";
    } else {
        // Bucle simple
        loop {
            break;
        }
    }

    // Llamada a función
    let resultado_suma = sumar(5, 3);
}

"#;

#[test]
fn a_use_item_and_a_local_constant_are_outside_the_grammar() {
    let source = STRUCT_AND_CALL;
    let diagnostics = check_source(source.as_bytes());
    assert!(of_stage(&diagnostics, Stage::Lexical).is_empty());
    assert_eq!(
        syntax(&diagnostics),
        vec![
            (SyntaxErrorKind::UnexpectedToken, line_of(source, "use std::vec;")),
            (SyntaxErrorKind::UnexpectedToken, line_of(source, "const PI")),
        ]
    );
    match of_stage(&diagnostics, Stage::Syntax)[..] {
        [Diagnostic::Syntax(a), Diagnostic::Syntax(b)] => {
            assert_eq!(a.expected, Expected::Item);
            assert_eq!(a.found, Some(TokenKind::Identifier));
            assert_eq!(b.expected, Expected::Expression);
            assert_eq!(b.found, Some(TokenKind::Keyword(Keyword::Const)));
        }
        _ => panic!("two syntax errors"),
    }
    assert!(of_stage(&diagnostics, Stage::Semantic).is_empty());
}

const TYPING_AND_CLOSURES: &str = r#"// Structs para pruebas semánticas
struct Vec2 {}
struct Color {}

// Pruebas para const y static
const MAX_POINTS: i32 = 100;
static LIVES: i32 = 3;
static mut COUNTER: i32 = 0;

fn main() {
    // --- Casos Válidos ---

    // Declaración explícita correcta
    let a: i32 = 10;
    let b: f64 = 20.5;
    let c: bool = true;
    let d: &str = "hello";

    // Declaración implícita (el tipo se infiere)
    let e = 50;
    let f = false;

    // Reasignación correcta a una variable mutable
    let mut g = 100;
    g = 200;

    let mut h = "texto";
    h = "otro texto";


    // --- Casos Inválidos (el analizador semántico debería detectarlos) ---

    // Regla 1: Discrepancia de tipos en la declaración explícita
    let error1: i32 = "esto no es un i32";
    let error2: bool = 1;


    // Regla 2: Discrepancia de tipos en la reasignación
    let mut error3 = 500;
    error3 = true; // Error: se esperaba i32, se encontró bool

    let mut error4 = "hola";
    error4 = 123; // Error: se esperaba &str, se encontró i32

    
    // --- Nuevos Casos de Prueba para Structs, Arrays y Tuplas ---

    // Structs
    let v1 = Vec2 {};
    let mut v2 = Vec2 {};
    v2 = v1; // Válido

    let c1: Color = Vec2 {}; // Error: se esperaba Color, se encontró Vec2
    let mut v3 = Vec2 {};
    v3 = Color {}; // Error: se esperaba Vec2, se encontró Color

    // Arrays y Tuplas (con tipos inferidos)
    let arr1 = [1, 2, 3];
    let tup1 = (10, true);
    let mut arr2 = [10, 20];
    arr2 = [30, 40]; // Válido

    let mut arr3 = [1.0, 2.0];
    arr3 = [1, 2]; // Error: se esperaba [f64; 2], se encontró [i32; 2]
    
    let mut tup2 = (10, false);
    tup2 = (10, "hello"); // Error: se esperaba (i32, bool), se encontró (i32, &str)

    // Regla de Mutabilidad: Reasignación a variable inmutable
    let immutable_var = 1000;
    immutable_var = 2000; // Error: 'immutable_var' no es mutable.

    // --- Pruebas para const y static ---
    MAX_POINTS = 105; // Error: no se puede reasignar a una constante.
    LIVES = 4; // Error: no se puede reasignar a una variable static inmutable.
    COUNTER = 1; // Válido: COUNTER es static mut.

    // --- Pruebas para nuevos tokens ---
    let modulo_result = 10 % 3; // Válido
    
    print!("Esto es un print sin salto de línea.");
    eprint!("Esto es un eprint.");
    eprintln!("Esto es un eprintln con salto de línea.");

    // --- Pruebas para variables no inicializadas ---
    // Caso válido
    let mut valid_uninit: i32;
    valid_uninit = 50;
    let some_var = valid_uninit + 10; // Válido, se usa después de inicializar

    // Caso inválido
    let invalid_uninit: i32;
    let another_var = invalid_uninit + 5; // Error: 'invalid_uninit' no ha sido inicializada

    // --- Pruebas para la sintaxis de array [valor; tamaño] ---
    let array_repeat = [0; 5]; // Válido
    let array_repeat_error = [0; false]; // Error: el tamaño debe ser un entero

    // --- Pruebas Semánticas para Closures ---

    // Caso Válido: La closure se asigna a una variable
    let mi_closure = |a: i32, b: i32| -> i32 {
        return a + b;
    };

    // Caso Válido: Uso de variable del scope exterior
    let factor = 10;
    let multiplicar = |n| n * factor;
    // let resultado_closure = multiplicar(5); // Llamada a closure no soportada por el parser aún

    // --- Casos que DEBERÍAN producir errores semánticos (una vez implementado) ---

    // Error Semántico: Usar una variable no definida dentro de la closure
    let error_closure_1 = || z + 1; 

    // Error Semántico: Discrepancia de tipos en el cuerpo de la closure
    let error_closure_2 = |a: i32| -> i32 {
        return "no soy un i32";
    };

    // Error Semántico: Uso de variable no inicializada dentro de la closure
    let error_closure_3 = || {
        let x: i32;
        return x; // 'x' no está inicializada
    };
}
"#;

#[test]
fn every_fault_of_the_typing_sample_is_reported_once() {
    let source = TYPING_AND_CLOSURES;
    let diagnostics = check_source(source.as_bytes());
    assert!(of_stage(&diagnostics, Stage::Lexical).is_empty());
    assert!(of_stage(&diagnostics, Stage::Syntax).is_empty());
    let at = |marker: &str| line_of(source, marker);
    assert_eq!(
        semantic(&diagnostics),
        vec![
            (SemanticErrorKind::TypeMismatch, at("let error1")),
            (SemanticErrorKind::TypeMismatch, at("let error2")),
            (SemanticErrorKind::TypeMismatch, at("error3 = true")),
            (SemanticErrorKind::TypeMismatch, at("error4 = 123")),
            (SemanticErrorKind::TypeMismatch, at("let c1: Color")),
            (SemanticErrorKind::TypeMismatch, at("v3 = Color")),
            (SemanticErrorKind::TypeMismatch, at("arr3 = [1, 2]")),
            (SemanticErrorKind::TypeMismatch, at("tup2 = (10, \"hello\")")),
            (SemanticErrorKind::ImmutableAssignment, at("immutable_var = 2000")),
            (SemanticErrorKind::ImmutableAssignment, at("MAX_POINTS = 105")),
            (SemanticErrorKind::ImmutableAssignment, at("LIVES = 4")),
            (SemanticErrorKind::UninitializedUse, at("let another_var")),
            (SemanticErrorKind::InvalidArraySize, at("let array_repeat_error")),
            (SemanticErrorKind::UndefinedIdentifier, at("let error_closure_1")),
            (SemanticErrorKind::TypeMismatch, at("return \"no soy un i32\"")),
            (SemanticErrorKind::UninitializedUse, at("return x;")),
        ]
    );
}

const KEYBOARD_INPUT: &str = r#"fn main() {
    // Ejemplo 1: Lectura simple de entrada
    let mut buffer = String::new();
    println!("Ingrese un número:");
    
    // Ejemplo 2: Declaración y uso de String::new()
    let mut nombre = String::new();
    println!("Ingrese su nombre:");
    
    // Ejemplo 3: Referencia mutable a variable
    let mut edad = String::new();
    let ref_edad = &mut edad;
    
    // Ejemplo 4: Uso de String como tipo en parámetro
    procesar_entrada(&mut buffer);
    
    // Ejemplo 5: Input dentro de condicional
    let mut respuesta = String::new();
    if true {
        let mut entrada = String::new();
    }
    
    // Ejemplo 6: Input dentro de bucle
    loop {
        let mut datos = String::new();
        break;
    }
}

// Función con parámetro de referencia mutable
fn procesar_entrada(buffer: &mut String) {
    // Procesar entrada
}

// ============================================================================
// PARTE 2: CÓDIGO CON ERRORES SINTÁCTICOS - Ejemplos inválidos
// ============================================================================

// ERROR 1: Falta punto y coma en declaración
fn error_missing_semicolon() {
    let mut buffer = String::new()
    println!("Error: falta ;");
}

// ERROR 2: Paréntesis no balanceados en función
fn error_unbalanced_parens() {
    let mut buffer = String::new(;
}

// ERROR 3: Tipo no especificado correctamente
fn error_invalid_type() {
    let mut buffer: InvalidType = String::new();
}

// ERROR 4: Referencia sin variable válida
fn error_invalid_reference() {
    let ref_x = &undefined_var;
}

// ERROR 5: String::new sin paréntesis
fn error_missing_parens() {
    let mut buffer = String::new;
}

// ERROR 6: Asignación sin expresión
fn error_no_expression() {
    let mut x = ;
}

// ERROR 7: Múltiples errores juntos
fn error_multiple() {
    let mut buffer = String::new(
    let ref_x = &;
    println!("Error)
}

"#;

#[test]
fn broken_declarations_of_the_input_sample() {
    let source = KEYBOARD_INPUT;
    let diagnostics = check_source(source.as_bytes());
    let lexical = of_stage(&diagnostics, Stage::Lexical);
    assert_eq!(lexical.len(), 1);
    match lexical[0] {
        Diagnostic::Lexical(e) => {
            assert_eq!(e.kind, LexErrorKind::UnterminatedLiteral);
            assert_eq!(e.line, line_of(source, "println!(\"Error)"));
            assert_eq!(e.column, 14);
            assert_eq!(e.length, 7);
        }
        other => panic!("{:?}", other),
    }
    assert_eq!(
        syntax(&diagnostics),
        vec![
            (SyntaxErrorKind::MissingToken, line_of(source, "println!(\"Error: falta ;\")")),
            (SyntaxErrorKind::UnexpectedToken, line_of(source, "String::new(;")),
            (SyntaxErrorKind::UnexpectedToken, line_of(source, "let mut x = ;")),
            (SyntaxErrorKind::UnexpectedToken, line_of(source, "let ref_x = &;")),
            (SyntaxErrorKind::UnexpectedToken, line_of(source, "println!(\"Error)") + 1),
        ]
    );
    let found = of_stage(&diagnostics, Stage::Semantic);
    assert_eq!(found.len(), 1);
    match found[0] {
        Diagnostic::Semantic(SemanticError::UndefinedIdentifier { name, pos }) => {
            assert_eq!(name.as_slice(), b"undefined_var");
            assert_eq!(pos.line, line_of(source, "&undefined_var"));
        }
        other => panic!("{:?}", other),
    }
}

const MODULES_AND_GENERICS: &str = r#"// Módulo y uso de tipos
mod math {
    pub fn calculate(x: i32) -> i32 {
        return x * 2;
    }
}

use std::vec::Vec;

// Definición de struct y enum
struct Point {
    x: f64,
    y: f64
}

enum Option<T> {
    Some(T),
    None
}

// Implementación de trait
trait Shape {
    fn area(&self) -> f64;
}

// Función principal con control de flujo
fn main() {
    // Variables y tipos
    let mut count: i32 = 0;
    let pi: f64 = 3.14;
    const MAX_POINTS: u32 = 100;
    
    // Estructuras de control
    if count < 10 {
        count += 1;
    } else {
        count = 0;
    }

    // Loop y break
    loop {
        if count >= MAX_POINTS {
            break;
        }
        count += 1;
    }

    // Vector y Option
    let mut numbers: Vec<i32> = Vec::new();
    let maybe_number: Option<i32> = Some(42);
    
    // String con escapes
    let message = "Hello \"Rust\" world!\n";
}
"#;

#[test]
fn every_byte_of_the_token_sample_is_a_token_or_trivia() {
    let source = MODULES_AND_GENERICS;
    let (tokens, errors) = tokenize(source.as_bytes());
    assert!(errors.is_empty());
    let kinds: Vec<TokenKind> = tokens.iter().map(|t| t.kind).collect();
    let at = (0..tokens.len() - 1)
        .find(|&i| {
            tokens[i].lexeme.as_slice() == b"Vec"
                && tokens[i + 1].kind == TokenKind::Operator(Operator::Less)
        })
        .unwrap();
    assert_eq!(
        kinds[at..at + 5],
        [
            TokenKind::Identifier,
            TokenKind::Operator(Operator::Less),
            TokenKind::Identifier,
            TokenKind::Operator(Operator::Greater),
            TokenKind::Operator(Operator::Assign),
        ]
    );
    assert_eq!(tokens.iter().filter(|t| t.kind == TokenKind::StringLiteral).count(), 1);
    assert_eq!(tokens.iter().filter(|t| t.kind == TokenKind::FloatLiteral).count(), 1);
    assert_eq!(
        tokens.iter().filter(|t| t.kind == TokenKind::Keyword(Keyword::Fn)).count(),
        3
    );
    let string = tokens.iter().find(|t| t.kind == TokenKind::StringLiteral).unwrap();
    assert_eq!(string.lexeme.as_slice(), "\"Hello \\\"Rust\\\" world!\\n\"".as_bytes());
    let diagnostics = check_source(source.as_bytes());
    assert!(of_stage(&diagnostics, Stage::Lexical).is_empty());
    assert_eq!(of_stage(&diagnostics, Stage::Syntax).len(), 8);
}

const STATEMENTS_AT_TOP_LEVEL: &str = r#"// ============================================================================
// REGLA 1: ASIGNACIÓN DE VARIABLES CON TODOS LOS TIPOS
// ============================================================================

// Variables inmutables con tipo explícito
let x: i32 = 42;
let pi: f64 = 3.14159;
let is_active: bool = true;
let letra: char = 'A';

// Variables mutables
let mut count: i32 = 0;
let mut temperatura: f64 = 25.5;

// Constantes
const MAX_SIZE: u32 = 100;
const GRAVITY: f64 = 9.8;

// Variables estáticas
static COUNTER: i32 = 0;

// ============================================================================
// REGLA 2: EXPRESIONES ARITMÉTICAS CON UNO O MÁS OPERADORES
// ============================================================================

let suma = 10 + 5;
let resta = 20 - 7;
let multiplicacion = 4 * 5;
let division = 100 / 2;

// Expresiones con múltiples operadores (precedencia)
let resultado = 10 + 5 * 2;
let valor = (15 - 3) * (8 + 2);
let operacion_compleja = 100 / 2 + 5 * 3 - 10;

// ============================================================================
// REGLA 3: CONDICIONES CON UNO O MÁS CONECTORES LÓGICOS
// ============================================================================

// Condición con AND lógico
if x > 0 && y < 100 {
    println!("x es positivo AND y es menor a 100");
}

// Condición con OR lógico
if edad < 18 || edad >= 65 {
    println!("Descuento aplicable");
}

// Condición con NOT lógico
if !es_bloqueado {
    println!("Acceso permitido");
}

// Condiciones complejas con múltiples conectores
if (x > 5 && y < 10) || (z == 0) {
    println!("Condición compleja cumplida");
}

// ============================================================================
// REGLA 4: ESTRUCTURAS DE CONTROL - if (MÍNIMO 1)
// ============================================================================

// Control if-else simple (RESPONSABILIDAD DE vicbguti29)
if num > 0 {
    println!("Número positivo");
} else {
    println!("Número no positivo");
}

// TODO: while, for, loop - A CARGO DE COMPAÑERO
// TODO: if-else if-else - A CARGO DE COMPAÑERO

// ============================================================================
// REGLA 5: ESTRUCTURA DE DATOS - struct (MÍNIMO 1)
// ============================================================================

struct Persona {
    nombre: String,
    edad: u32,
    altura: f64
}

// TODO: Otras estructuras de datos - A CARGO DE COMPAÑERO

// ============================================================================
// REGLA 6: DEFINICIÓN DE FUNCIONES (MÍNIMO 1)
// ============================================================================

// Función sin parámetros y sin retorno (RESPONSABILIDAD DE vicbguti29)
fn saludar() {
    println!("Hola desde la función saludar");
}

// TODO: Funciones con parámetros y retorno - A CARGO DE COMPAÑERO
// TODO: Funciones con múltiples parámetros - A CARGO DE COMPAÑERO

// ============================================================================
// REGLA 7: IMPRESIÓN (println!) - RESPONSABILIDAD DE vicbguti29
// ============================================================================

println!("Mensaje simple");
println!("El valor de x es: {}", x);
println!("Valores: x={}, y={}", x, y);
println!("Resultado: {}", suma);

// ============================================================================
// REGLA 8: ENTRADA DE DATOS (input) - RESPONSABILIDAD DE vicbguti29
// ============================================================================

let numero = input();
let mut dato = input();

// ============================================================================
// REGLA 9: REASIGNACIÓN DE VARIABLES - RESPONSABILIDAD DE vicbguti29
// ============================================================================

x = 100;
count = 50;

// Operadores de asignación compuesta
count += 5;
temperatura -= 2.5;
multiplicador *= 2;
divisor /= 3;

// ============================================================================
// FUNCIÓN MAIN
// ============================================================================

fn main() {
    let x: i32 = 5;
    let mut y: i32 = 10;
    
    // Impresión
    println!("Iniciando programa");
    
    // Condicional con conectores lógicos
    if x > 0 && y > 0 {
        let suma = x + y;
        println!("La suma es: {}", suma);
    }
    
    // TODO: Bucles (while, for, loop) - A CARGO DE COMPAÑERO
    
    // Ingreso de datos
    let numero_ingresado = input();
    
    println!("Programa finalizado");
}
"#;

#[test]
fn statements_outside_a_function_are_syntax_errors_and_items_are_still_read() {
    let source = STATEMENTS_AT_TOP_LEVEL;
    let diagnostics = check_source(source.as_bytes());
    assert!(of_stage(&diagnostics, Stage::Lexical).is_empty());
    let found = syntax(&diagnostics);
    assert_eq!(found.len(), 37);
    assert_eq!(found[0], (SyntaxErrorKind::UnexpectedToken, line_of(source, "let x: i32 = 42;")));
    let (tokens, _) = tokenize(source.as_bytes());
    let (program, _) = analyzer::parser::parse(&tokens);
    let names: Vec<String> = program
        .items
        .iter()
        .map(|item| match item {
            analyzer::ast::Item::Const { name, .. }
            | analyzer::ast::Item::Static { name, .. }
            | analyzer::ast::Item::Struct { name, .. } => String::from_utf8_lossy(name).into_owned(),
            analyzer::ast::Item::Function(f) => String::from_utf8_lossy(&f.sig.name).into_owned(),
            other => panic!("{:?}", other),
        })
        .collect();
    assert_eq!(names, vec!["MAX_SIZE", "GRAVITY", "COUNTER", "Persona", "saludar", "main"]);
    assert_eq!(
        semantic(&diagnostics),
        vec![
            (SemanticErrorKind::TypeMismatch, line_of(source, "const MAX_SIZE")),
            (SemanticErrorKind::UndefinedIdentifier, line_of(source, "let numero_ingresado")),
        ]
    );
}
