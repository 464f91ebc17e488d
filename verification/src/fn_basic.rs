//! The basic function-pointer package: reading the name a function pointer
//! designates.

use vstd::prelude::*;

verus! {

/// A pointer to a named script function.
#[derive(Debug, PartialEq)]
pub struct FnPtr {
    /// The name of the function the pointer designates.
    pub name: String,
}

impl FnPtr {
    /// Create a function pointer to the named function.
    pub fn new(name: String) -> (r: FnPtr)
        ensures
            r.name == name,
    {
        FnPtr { name }
    }

    /// The name of the function the pointer designates.
    pub fn get_fn_name(&self) -> (r: &String)
        ensures
            *r == self.name,
    {
        &self.name
    }
}

/// Get the name of the function that a function pointer designates, leaving
/// the pointer untouched.
pub fn get_fn_name(f: &mut FnPtr) -> (r: String)
    ensures
        *final(f) == *old(f),
        r == old(f).name,
{
    f.get_fn_name().clone()
}

} // verus!
