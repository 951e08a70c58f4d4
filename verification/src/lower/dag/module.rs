//! The dependency graphs of a module.

use crate::codegen::target::x86_64::X86_64;
use crate::error::Error;
use crate::ir::module::Module as IrModule;
use crate::lower::dag::function::Function;
use vstd::prelude::*;

verus! {

/// The dependency graphs of the functions of a module, in the order of the
/// functions: for each the graph, or the error that stopped its conversion.
pub struct Module<'a> {
    pub isa: &'a X86_64,
    pub base: &'a IrModule,
    pub functions: Vec<Result<Function<'a>, Error>>,
}

impl<'a> Module<'a> {
    /// The graphs of `base`, none built yet.
    pub fn new(isa: &'a X86_64, base: &'a IrModule) -> (module: Module<'a>)
        ensures
            module.isa == isa,
            module.base == base,
            module.functions@.len() == 0,
    {
        Module { isa, base, functions: Vec::new() }
    }
}

} // verus!
