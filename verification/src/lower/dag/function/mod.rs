//! The dependency graph of one function.

pub mod data;
pub mod instruction;
pub mod layout;
pub mod node;

use crate::codegen::target::x86_64::X86_64;
use crate::ir::function::basic_block::BasicBlockId;
use crate::ir::function::Function as IrFunction;
use crate::lower::dag::function::data::Data;
use crate::lower::dag::function::layout::Layout;
use rustc_hash::FxHashMap;
use vstd::prelude::*;

verus! {

/// The dependency graph of a function: its nodes and blocks, the order of
/// the blocks with the root of each, and the new name of each block of the
/// function it was built from.
pub struct Function<'a> {
    pub isa: &'a X86_64,
    pub base: &'a IrFunction,
    pub data: Data,
    pub layout: Layout,
    pub block_map: FxHashMap<usize, BasicBlockId>,
}

impl<'a> Function<'a> {
    /// The empty graph for `base`.
    pub fn new(isa: &'a X86_64, base: &'a IrFunction) -> (function: Function<'a>)
        ensures
            function.isa == isa,
            function.base == base,
            function.data.node_seq().len() == 0,
            function.data.blocks().len() == 0,
            function.layout.wf(),
            function.layout.blocks().len() == 0,
            function.block_map@ == Map::<usize, BasicBlockId>::empty(),
    {
        Function {
            isa,
            base,
            data: Data::new(),
            layout: Layout::new(),
            block_map: FxHashMap::default(),
        }
    }
}

} // verus!
