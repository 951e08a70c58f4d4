//! Basic blocks of the control-flow graph.

use crate::fx::set_insert;
use rustc_hash::FxHashSet;
use vstd::prelude::*;

verus! {

/// Index of a basic block in a function's block arena.
#[derive(Clone, Copy, Debug, PartialEq, Eq, Structural, Hash)]
pub struct BasicBlockId(pub usize);

/// A node of the control-flow graph: the blocks that may run right before
/// and right after it, by arena index.
pub struct BasicBlock {
    pub preds: FxHashSet<usize>,
    pub succs: FxHashSet<usize>,
}

impl BasicBlock {
    /// A block without edges.
    pub fn new() -> (block: BasicBlock)
        ensures
            block.preds@ == Set::<usize>::empty(),
            block.succs@ == Set::<usize>::empty(),
    {
        BasicBlock { preds: FxHashSet::default(), succs: FxHashSet::default() }
    }

    /// Records `pred` as a predecessor.
    pub fn add_pred(&mut self, pred: BasicBlockId)
        ensures
            final(self).preds@ == old(self).preds@.insert(pred.0),
            final(self).succs@ == old(self).succs@,
    {
        set_insert(&mut self.preds, pred.0);
    }

    /// Records `succ` as a successor.
    pub fn add_succ(&mut self, succ: BasicBlockId)
        ensures
            final(self).succs@ == old(self).succs@.insert(succ.0),
            final(self).preds@ == old(self).preds@,
    {
        set_insert(&mut self.succs, succ.0);
    }
}

} // verus!
