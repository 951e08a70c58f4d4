//! The order of the blocks of a dependency graph, and the root node of each.

use crate::fx::{map_get, map_insert};
use crate::ir::function::basic_block::BasicBlockId;
use crate::ir::function::layout::at;
use crate::lower::dag::function::node::NodeId;
use rustc_hash::FxHashMap;
use vstd::pervasive::unreached;
use vstd::prelude::*;

verus! {

/// The links of one block and the root of its chain.
#[derive(Clone, Copy, Debug)]
pub struct BasicBlockNode {
    prev: Option<BasicBlockId>,
    next: Option<BasicBlockId>,
    node_root: Option<NodeId>,
}

/// The program order of the blocks of a dependency graph.
pub struct Layout {
    basic_blocks: FxHashMap<usize, BasicBlockNode>,
    first_block: Option<BasicBlockId>,
    last_block: Option<BasicBlockId>,
    order: Ghost<Seq<BasicBlockId>>,
}

impl Layout {
    /// The blocks in program order.
    pub closed spec fn blocks(&self) -> Seq<BasicBlockId> {
        self.order@
    }

    /// The root node recorded for `block`; `None` for a block that has none
    /// or is not in the layout.
    pub closed spec fn root_of(&self, block: BasicBlockId) -> Option<NodeId> {
        if self.basic_blocks@.contains_key(block.0) {
            self.basic_blocks@[block.0].node_root
        } else {
            None
        }
    }

    spec fn block_linked(&self, i: int) -> bool {
        let block = self.order@[i];
        let node = self.basic_blocks@[block.0];
        &&& self.basic_blocks@.contains_key(block.0)
        &&& node.prev == at(self.order@, i - 1)
        &&& node.next == at(self.order@, i + 1)
    }

    /// The links stored in the map spell out exactly the sequence
    /// `blocks()`: no block occurs twice, every block has its links, and
    /// each link names the neighbour in the sequence.
    pub closed spec fn wf(&self) -> bool {
        &&& self.order@.no_duplicates()
        &&& self.first_block == at(self.order@, 0)
        &&& self.last_block == at(self.order@, self.order@.len() - 1)
        &&& forall|k: usize| #[trigger]
            self.basic_blocks@.contains_key(k) ==> self.order@.contains(BasicBlockId(k))
        &&& forall|i: int| 0 <= i < self.order@.len() ==> #[trigger] self.block_linked(i)
    }

    /// In a valid layout no block occurs twice, and only blocks of the
    /// layout have a root.
    pub proof fn lemma_wf_facts(&self)
        requires
            self.wf(),
        ensures
            self.blocks().no_duplicates(),
            forall|b: BasicBlockId| !self.blocks().contains(b) ==> #[trigger] self.root_of(b) is None,
    {
    }

    /// A layout without blocks.
    pub fn new() -> (layout: Layout)
        ensures
            layout.wf(),
            layout.blocks() == Seq::<BasicBlockId>::empty(),
    {
        Layout {
            basic_blocks: FxHashMap::default(),
            first_block: None,
            last_block: None,
            order: Ghost(Seq::empty()),
        }
    }

    /// Whether `block` is in the layout.
    pub fn contains_block(&self, block: BasicBlockId) -> (yes: bool)
        requires
            self.wf(),
        ensures
            yes == self.blocks().contains(block),
    {
        let found = map_get(&self.basic_blocks, block.0).is_some();
        proof {
            if self.order@.contains(block) {
                let i = choose|i: int| 0 <= i < self.order@.len() && self.order@[i] == block;
                assert(self.block_linked(i));
            }
        }
        found
    }

    fn block_node(&self, block: BasicBlockId) -> (node: BasicBlockNode)
        requires
            self.wf(),
            self.order@.contains(block),
        ensures
            self.basic_blocks@.contains_key(block.0),
            node == self.basic_blocks@[block.0],
    {
        proof {
            let i = choose|i: int| 0 <= i < self.order@.len() && self.order@[i] == block;
            assert(self.block_linked(i));
        }
        match map_get(&self.basic_blocks, block.0) {
            Some(node) => *node,
            None => unreached(),
        }
    }

    /// The first block, if there is one.
    pub fn first_block(&self) -> (block: Option<BasicBlockId>)
        requires
            self.wf(),
        ensures
            block == at(self.blocks(), 0),
    {
        self.first_block
    }

    /// The last block, if there is one.
    pub fn last_block(&self) -> (block: Option<BasicBlockId>)
        requires
            self.wf(),
        ensures
            block == at(self.blocks(), self.blocks().len() - 1),
    {
        self.last_block
    }

    /// The block that follows `block` in program order.
    pub fn next_block_of(&self, block: BasicBlockId) -> (next: Option<BasicBlockId>)
        requires
            self.wf(),
            self.blocks().contains(block),
        ensures
            next == at(self.blocks(), self.blocks().index_of(block) + 1),
    {
        let node = self.block_node(block);
        proof {
            let i = self.order@.index_of(block);
            assert(self.block_linked(i));
        }
        node.next
    }

    /// Appends `block` to the program order, without a root. A block that
    /// is already in the layout keeps its place, and nothing changes.
    pub fn append_block(&mut self, block: BasicBlockId)
        requires
            old(self).wf(),
        ensures
            final(self).wf(),
            final(self).blocks() == if old(self).blocks().contains(block) {
                old(self).blocks()
            } else {
                old(self).blocks().push(block)
            },
            forall|b: BasicBlockId| #[trigger] final(self).root_of(b) == old(self).root_of(b),
    {
        if self.contains_block(block) {
            return ;
        }
        let ghost before = *self;
        let ghost n = self.order@.len() as int;
        map_insert(
            &mut self.basic_blocks,
            block.0,
            BasicBlockNode { prev: self.last_block, next: None, node_root: None },
        );
        if let Some(last) = self.last_block {
            assert(before.block_linked(n - 1));
            let node = match map_get(&self.basic_blocks, last.0) {
                Some(node) => *node,
                None => unreached(),
            };
            map_insert(&mut self.basic_blocks, last.0, BasicBlockNode { next: Some(block), ..node });
        }
        self.last_block = Some(block);
        if self.first_block.is_none() {
            self.first_block = Some(block);
        }
        proof {
            self.order@ = before.order@.push(block);
            let order = self.order@;
            assert forall|k: usize| #[trigger]
                self.basic_blocks@.contains_key(k) implies order.contains(BasicBlockId(k)) by {
                if k == block.0 {
                    assert(order[n] == block);
                } else {
                    assert(before.basic_blocks@.contains_key(k));
                    let i = choose|i: int|
                        0 <= i < before.order@.len() && before.order@[i] == BasicBlockId(k);
                    assert(order[i] == BasicBlockId(k));
                }
            }
            assert forall|i: int| 0 <= i < order.len() implies #[trigger] self.block_linked(i) by {
                if i < n {
                    assert(before.block_linked(i));
                    assert(order[i] == before.order@[i]);
                    assert(order[i] != block);
                    if i < n - 1 {
                        assert(before.order@[i] != before.order@[n - 1]);
                    }
                }
            }
            assert forall|b: BasicBlockId| #[trigger] self.root_of(b) == before.root_of(b) by {
                if n > 0 {
                    assert(before.block_linked(n - 1));
                }
            }
        }
    }

    /// Records `root` as the root node of `block`.
    pub fn set_node_root(&mut self, root: NodeId, block: BasicBlockId)
        requires
            old(self).wf(),
            old(self).blocks().contains(block),
        ensures
            final(self).wf(),
            final(self).blocks() == old(self).blocks(),
            final(self).root_of(block) == Some(root),
            forall|b: BasicBlockId|
                b != block ==> #[trigger] final(self).root_of(b) == old(self).root_of(b),
    {
        let ghost before = *self;
        let node = self.block_node(block);
        map_insert(&mut self.basic_blocks, block.0, BasicBlockNode { node_root: Some(root), ..node });
        proof {
            assert forall|k: usize| #[trigger]
                self.basic_blocks@.contains_key(k) implies self.order@.contains(
                BasicBlockId(k),
            ) by {
                if k != block.0 {
                    assert(before.basic_blocks@.contains_key(k));
                }
            }
            assert forall|i: int| 0 <= i < self.order@.len() implies #[trigger] self.block_linked(
                i,
            ) by {
                assert(before.block_linked(i));
            }
        }
    }

    /// The root node of `block`, if one is recorded.
    pub fn node_root_of(&self, block: BasicBlockId) -> (root: Option<NodeId>)
        requires
            self.wf(),
        ensures
            root == self.root_of(block),
    {
        match map_get(&self.basic_blocks, block.0) {
            Some(node) => node.node_root,
            None => None,
        }
    }

    /// An iterator over the blocks in program order.
    pub fn block_iter<'a>(&'a self) -> (iter: BasicBlockIter<'a>)
        requires
            self.wf(),
        ensures
            iter.wf(),
            iter.layout() == self,
            iter.position() == 0,
    {
        BasicBlockIter { layout: self, cur: self.first_block, pos: Ghost(0) }
    }
}

/// A cursor over the blocks of a layout.
pub struct BasicBlockIter<'a> {
    layout: &'a Layout,
    cur: Option<BasicBlockId>,
    pos: Ghost<int>,
}

impl<'a> BasicBlockIter<'a> {
    /// The layout that is walked.
    pub closed spec fn layout(&self) -> &'a Layout {
        self.layout
    }

    /// The number of blocks handed out so far.
    pub closed spec fn position(&self) -> int {
        self.pos@
    }

    pub closed spec fn wf(&self) -> bool {
        &&& self.layout.wf()
        &&& 0 <= self.pos@ <= self.layout.blocks().len()
        &&& self.cur == at(self.layout.blocks(), self.pos@)
    }

    /// The next block in program order, or `None` after the last.
    pub fn next(&mut self) -> (block: Option<BasicBlockId>)
        requires
            old(self).wf(),
        ensures
            final(self).wf(),
            final(self).layout() == old(self).layout(),
            block == at(old(self).layout().blocks(), old(self).position()),
            final(self).position() == if block is Some {
                old(self).position() + 1
            } else {
                old(self).position()
            },
            0 <= old(self).position() <= old(self).layout().blocks().len(),
    {
        match self.cur {
            Some(cur) => {
                assert(self.layout.order@[self.pos@] == cur);
                assert(self.layout.block_linked(self.pos@));
                let node = self.layout.block_node(cur);
                self.cur = node.next;
                proof {
                    self.pos@ = self.pos@ + 1;
                }
                Some(cur)
            },
            None => None,
        }
    }
}

} // verus!
