//! The resolved unit produced by compiling an imported script: an opaque
//! namespace owned by whichever resolver cache holds it, shared read-only by
//! every importer of the same path.

use vstd::prelude::*;

use crate::ast::Program;

verus! {

/// A loadable module: the compiled form of one imported script.
#[derive(Debug, PartialEq)]
pub struct Module {
    /// The compiled program of the module's script.
    pub ast: Program,
}

impl Module {
    /// Wrap a compiled program as a module.
    pub fn new(ast: Program) -> (m: Module)
        ensures
            m.ast == ast,
    {
        Module { ast }
    }
}

} // verus!
