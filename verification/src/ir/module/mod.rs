//! Modules: the functions of one compilation unit and what they share.

pub mod name;

use crate::ir::function::Function;
use crate::ir::types::Types;
use vstd::prelude::*;

verus! {

/// What a module is compiled for.
pub struct Target {
    pub triple: String,
    pub datalayout: String,
}

/// A module: its functions and the type table that they share.
pub struct Module {
    pub name: String,
    pub source_filename: String,
    pub target: Target,
    pub functions: Vec<Function>,
    pub types: Types,
}

impl Module {
    /// A module without functions, with the primitive types.
    pub fn new() -> (module: Module)
        ensures
            module.functions@.len() == 0,
            module.types.wf(),
            module.name@.len() == 0,
            module.source_filename@.len() == 0,
            module.target.triple@.len() == 0,
            module.target.datalayout@.len() == 0,
    {
        Module {
            name: String::new(),
            source_filename: String::new(),
            target: Target { triple: String::new(), datalayout: String::new() },
            functions: Vec::new(),
            types: Types::new(),
        }
    }
}

} // verus!
