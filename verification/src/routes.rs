//! The replies of the test web service's routes.

use vstd::prelude::*;

verus! {

/// The reply of `/test`.
pub fn hello() -> (r: &'static str)
    ensures
        r@ == "Hello, world!"@,
{
    "Hello, world!"
}

/// The reply of `/donkey/test`.
pub fn donkey() -> (r: &'static str)
    ensures
        r@ == "Hello, Donkey!"@,
{
    "Hello, Donkey!"
}

/// The greeting of the users module.
pub fn dog() -> (r: &'static str)
    ensures
        r@ == "Hello, dog!"@,
{
    "Hello, dog!"
}

/// The reply of `/cow`.
pub fn cow() -> (r: &'static str)
    ensures
        r@ == "Hello, cow!"@,
{
    "Hello, cow!"
}

/// The sum of two integers.
pub fn add(a: i32, b: i32) -> (sum: i32)
    requires
        i32::MIN <= a + b <= i32::MAX,
    ensures
        sum == a + b,
{
    a + b
}

} // verus!
