//! Functions that hand owned text back and forth, or look at it through a
//! borrow.

use vstd::prelude::*;
use vstd::string::*;
use vstd::utf8::encode_utf8;

verus! {

/// Creates a fresh owned string holding `"hello"` and hands its ownership to
/// the caller.
pub fn gives_ownership() -> (r: String)
    ensures
        r@ == "hello"@,
{
    let some_string = String::from_str("hello");
    some_string
}

/// The number of bytes that the UTF-8 encoding of `s` takes.
pub open spec fn byte_len(s: Seq<char>) -> nat {
    encode_utf8(s).len()
}

/// Takes ownership of a string and gives the same string back.
pub fn takes_and_gives_back(a_string: String) -> (r: String)
    ensures
        r@ == a_string@,
{
    a_string
}

/// Takes ownership of a string, measures it, and hands the string back with
/// its length in bytes.
pub fn calculate_length(s: String) -> (r: (String, usize))
    ensures
        r.0@ == s@,
        r.1 == byte_len(s@) as usize,
{
    let length = s.as_str().len();
    (s, length)
}

/// Measures a borrowed string without taking ownership of it.
pub fn calculate_length_borrow(s: &String) -> (r: usize)
    ensures
        r == byte_len(s@) as usize,
{
    s.as_str().len()
}

/// Appends `", world"` through an exclusive borrow.
pub fn change_ref(some_string: &mut String)
    ensures
        final(some_string)@ == old(some_string)@ + ", world"@,
{
    some_string.append(", world");
}

/// Returns an owned string rather than a reference to a local, so the value
/// outlives the function that made it.
pub fn no_dangle() -> (r: String)
    ensures
        r@ == "hello"@,
{
    let s = String::from_str("hello");
    s
}

/// Assigns a scalar to a second binding. Both the source and the copy stay
/// usable, and they hold the same value.
pub fn copy_scalar<T: Copy>(some_value: T) -> (r: (T, T))
    ensures
        r.0 == some_value,
        r.1 == some_value,
{
    let copy = some_value;
    (some_value, copy)
}

} // verus!
