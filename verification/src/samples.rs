//! Small functions of the analysed language, as executable Rust.
//!
//! Programs of the language define functions like these; here each stands
//! with its meaning stated.

use vstd::prelude::*;

verus! {

/// Twice `x`.
pub fn calculate(x: i32) -> (r: i32)
    requires
        i32::MIN <= 2 * x <= i32::MAX,
    ensures
        r == 2 * x,
{
    return x * 2;
}

/// The sum of `a` and `b`.
pub fn sumar(a: i32, b: i32) -> (r: i32)
    requires
        i32::MIN <= a + b <= i32::MAX,
    ensures
        r == a + b,
{
    return a + b;
}

/// Declares a flag, compares it, and returns it as it was declared: `false`,
/// whatever `param` is.
pub fn mi_funcion(param: i32) -> (r: bool)
    ensures
        !r,
{
    let variable: bool = false;
    if variable == true {
    } else {
    }
    return variable;
}

/// A struct without fields.
#[derive(Clone, Copy, Debug, PartialEq, Eq, Structural)]
pub struct Empty {}

impl Empty {
    /// The one value of the type.
    pub fn new() -> (instance: Self)
        ensures
            instance == (Empty {  }),
    {
        let instance = Empty {  };
        return instance;
    }
}

/// Does nothing.
pub fn simple_function() {
}

/// Binds its first argument to a local name and returns nothing.
pub fn function_with_params(count: i32, name: String) {
    let x: i32 = count;
}

/// Returns `true`.
pub fn function_with_return() -> (r: bool)
    ensures
        r,
{
    return true;
}

} // verus!
