//! The order of a function's blocks, and of each block's instructions.
//!
//! Blocks and instructions live in arenas in allocation order. The order in
//! which they run is kept apart from that, as doubly linked lists whose links
//! are stored in hash maps keyed by arena index.

use crate::fx::{map_get, map_insert};
use crate::ir::function::basic_block::BasicBlockId;
use crate::ir::function::instruction::InstructionId;
use rustc_hash::FxHashMap;
use vstd::pervasive::unreached;
use vstd::prelude::*;
use vstd::relations::injective;
use vstd::set_lib::{lemma_int_range, lemma_len_subset, set_int_range};

verus! {

/// The element of `s` at `i`, if `s` has one there.
pub open spec fn at<T>(s: Seq<T>, i: int) -> Option<T> {
    if 0 <= i < s.len() {
        Some(s[i])
    } else {
        None
    }
}

/// Blocks that are pairwise distinct are no more than there are indices.
pub proof fn lemma_distinct_blocks_bounded(s: Seq<BasicBlockId>)
    requires
        s.no_duplicates(),
    ensures
        s.len() <= usize::MAX + 1,
{
    let f = |b: BasicBlockId| b.0 as int;
    assert(injective(f));
    s.lemma_no_duplicates_injective(f);
    let ints = s.map_values(f);
    ints.unique_seq_to_set();
    let range = set_int_range(0, usize::MAX + 1);
    lemma_int_range(0, usize::MAX + 1);
    assert forall|x: int| ints.to_set().contains(x) implies range.contains(x) by {
        let i = choose|i: int| 0 <= i < ints.len() && ints[i] == x;
        assert(ints[i] == s[i].0);
    }
    lemma_len_subset(ints.to_set(), range);
}

/// The links of one block.
#[derive(Clone, Copy, Debug)]
pub struct BasicBlockNode {
    prev: Option<BasicBlockId>,
    next: Option<BasicBlockId>,
    first_inst: Option<InstructionId>,
    last_inst: Option<InstructionId>,
}

/// The links of one instruction.
#[derive(Clone, Copy, Debug)]
pub struct InstructionNode {
    prev: Option<InstructionId>,
    next: Option<InstructionId>,
}

/// The program order of a function.
pub struct Layout {
    basic_blocks: FxHashMap<usize, BasicBlockNode>,
    instructions: FxHashMap<usize, InstructionNode>,
    first_block: Option<BasicBlockId>,
    last_block: Option<BasicBlockId>,
    order: Ghost<Seq<BasicBlockId>>,
    bodies: Ghost<Map<BasicBlockId, Seq<InstructionId>>>,
    home: Ghost<Map<InstructionId, BasicBlockId>>,
}

impl Layout {
    /// The blocks in program order.
    pub closed spec fn blocks(&self) -> Seq<BasicBlockId> {
        self.order@
    }

    /// The instructions of `block` in program order; empty for a block that
    /// is not in the layout.
    pub closed spec fn insts_of(&self, block: BasicBlockId) -> Seq<InstructionId> {
        if self.bodies@.contains_key(block) {
            self.bodies@[block]
        } else {
            Seq::empty()
        }
    }

    /// The whole program order: each block with its instructions.
    pub open spec fn program(&self) -> Seq<(BasicBlockId, Seq<InstructionId>)> {
        Seq::new(
            self.blocks().len(),
            |i: int| (self.blocks()[i], self.insts_of(self.blocks()[i])),
        )
    }

    /// Whether `inst` has been placed in some block.
    pub closed spec fn is_placed(&self, inst: InstructionId) -> bool {
        self.home@.contains_key(inst)
    }

    /// The block that holds `inst`.
    pub closed spec fn block_of(&self, inst: InstructionId) -> BasicBlockId {
        self.home@[inst]
    }

    spec fn block_linked(&self, i: int) -> bool {
        let block = self.order@[i];
        let node = self.basic_blocks@[block.0];
        let body = self.bodies@[block];
        &&& self.basic_blocks@.contains_key(block.0)
        &&& self.bodies@.contains_key(block)
        &&& node.prev == at(self.order@, i - 1)
        &&& node.next == at(self.order@, i + 1)
        &&& node.first_inst == at(body, 0)
        &&& node.last_inst == at(body, body.len() - 1)
        &&& body.no_duplicates()
    }

    spec fn inst_linked(&self, block: BasicBlockId, j: int) -> bool {
        let body = self.bodies@[block];
        let inst = body[j];
        let node = self.instructions@[inst.0];
        &&& self.instructions@.contains_key(inst.0)
        &&& self.home@.contains_key(inst)
        &&& self.home@[inst] == block
        &&& node.prev == at(body, j - 1)
        &&& node.next == at(body, j + 1)
    }

    /// The links stored in the maps spell out exactly the sequences
    /// `blocks()` and `insts_of(..)`: nothing occurs twice, every block and
    /// every placed instruction has its links, and each link names the
    /// neighbour in the sequence.
    pub closed spec fn wf(&self) -> bool {
        &&& self.order@.no_duplicates()
        &&& self.first_block == at(self.order@, 0)
        &&& self.last_block == at(self.order@, self.order@.len() - 1)
        &&& forall|k: usize| #[trigger]
            self.basic_blocks@.contains_key(k) ==> self.order@.contains(BasicBlockId(k))
        &&& forall|b: BasicBlockId| #[trigger]
            self.bodies@.contains_key(b) ==> self.order@.contains(b)
        &&& forall|i: int| 0 <= i < self.order@.len() ==> #[trigger] self.block_linked(i)
        &&& forall|k: usize| #[trigger]
            self.instructions@.contains_key(k) ==> self.home@.contains_key(InstructionId(k))
        &&& forall|inst: InstructionId| #[trigger]
            self.home@.contains_key(inst) ==> self.order@.contains(self.home@[inst])
                && self.bodies@[self.home@[inst]].contains(inst)
        &&& forall|b: BasicBlockId, j: int|
            self.order@.contains(b) && 0 <= j < self.bodies@[b].len() ==> #[trigger]
            self.inst_linked(b, j)
    }

    /// In a valid layout no block occurs twice, no instruction occurs twice
    /// in a block, and an instruction is placed exactly when it occurs in the
    /// block that holds it.
    pub proof fn lemma_wf_facts(&self)
        requires
            self.wf(),
        ensures
            self.blocks().no_duplicates(),
            self.blocks().len() <= usize::MAX + 1,
            forall|b: BasicBlockId| #[trigger] self.insts_of(b).no_duplicates(),
            forall|b: BasicBlockId|
                !self.blocks().contains(b) ==> #[trigger] self.insts_of(b).len() == 0,
            forall|b: BasicBlockId, j: int|
                0 <= j < self.insts_of(b).len() ==> self.is_placed(#[trigger] self.insts_of(b)[j])
                    && self.block_of(self.insts_of(b)[j]) == b,
            forall|inst: InstructionId|
                self.is_placed(inst) ==> self.blocks().contains(#[trigger] self.block_of(inst))
                    && self.insts_of(self.block_of(inst)).contains(inst),
    {
        lemma_distinct_blocks_bounded(self.order@);
        assert forall|b: BasicBlockId| #[trigger] self.insts_of(b).no_duplicates() by {
            if self.bodies@.contains_key(b) {
                let i = choose|i: int| 0 <= i < self.order@.len() && self.order@[i] == b;
                assert(self.block_linked(i));
            }
        }
        assert forall|b: BasicBlockId, j: int| 0 <= j < self.insts_of(b).len() implies self.is_placed(
            #[trigger] self.insts_of(b)[j],
        ) && self.block_of(self.insts_of(b)[j]) == b by {
            assert(self.bodies@.contains_key(b));
            assert(self.inst_linked(b, j));
        }
        assert forall|inst: InstructionId| self.is_placed(inst) implies self.blocks().contains(
            #[trigger] self.block_of(inst),
        ) && self.insts_of(self.block_of(inst)).contains(inst) by {
            let b = self.home@[inst];
            let i = choose|i: int| 0 <= i < self.order@.len() && self.order@[i] == b;
            assert(self.block_linked(i));
        }
    }

    /// A layout without blocks.
    pub fn new() -> (layout: Layout)
        ensures
            layout.wf(),
            layout.blocks() == Seq::<BasicBlockId>::empty(),
            forall|inst: InstructionId| !layout.is_placed(inst),
    {
        Layout {
            basic_blocks: FxHashMap::default(),
            instructions: FxHashMap::default(),
            first_block: None,
            last_block: None,
            order: Ghost(Seq::empty()),
            bodies: Ghost(Map::empty()),
            home: Ghost(Map::empty()),
        }
    }

    /// Whether `block` is in the layout.
    pub fn contains_block(&self, block: BasicBlockId) -> (yes: bool)
        requires
            self.wf(),
        ensures
            yes == self.blocks().contains(block),
    {
        let found = map_get(&self.basic_blocks, block.0).is_some();
        proof {
            if self.order@.contains(block) {
                let i = choose|i: int| 0 <= i < self.order@.len() && self.order@[i] == block;
                assert(self.block_linked(i));
            }
        }
        found
    }

    /// Whether `inst` has been placed in a block.
    pub fn contains_inst(&self, inst: InstructionId) -> (yes: bool)
        requires
            self.wf(),
        ensures
            yes == self.is_placed(inst),
    {
        let found = map_get(&self.instructions, inst.0).is_some();
        proof {
            if self.home@.contains_key(inst) {
                let b = self.home@[inst];
                let j = choose|j: int| 0 <= j < self.bodies@[b].len() && self.bodies@[b][j] == inst;
                assert(self.inst_linked(b, j));
            }
        }
        found
    }

    /// The first block, if there is one.
    pub fn first_block(&self) -> (block: Option<BasicBlockId>)
        requires
            self.wf(),
        ensures
            block == at(self.blocks(), 0),
    {
        self.first_block
    }

    /// The last block, if there is one.
    pub fn last_block(&self) -> (block: Option<BasicBlockId>)
        requires
            self.wf(),
        ensures
            block == at(self.blocks(), self.blocks().len() - 1),
    {
        self.last_block
    }

    fn block_node(&self, block: BasicBlockId) -> (node: BasicBlockNode)
        requires
            self.wf(),
            self.order@.contains(block),
        ensures
            self.basic_blocks@.contains_key(block.0),
            node == self.basic_blocks@[block.0],
    {
        proof {
            let i = choose|i: int| 0 <= i < self.order@.len() && self.order@[i] == block;
            assert(self.block_linked(i));
        }
        match map_get(&self.basic_blocks, block.0) {
            Some(node) => *node,
            None => unreached(),
        }
    }

    fn inst_node(&self, inst: InstructionId) -> (node: InstructionNode)
        requires
            self.wf(),
            self.home@.contains_key(inst),
        ensures
            self.instructions@.contains_key(inst.0),
            node == self.instructions@[inst.0],
    {
        proof {
            let b = self.home@[inst];
            let j = choose|j: int| 0 <= j < self.bodies@[b].len() && self.bodies@[b][j] == inst;
            assert(self.inst_linked(b, j));
        }
        match map_get(&self.instructions, inst.0) {
            Some(node) => *node,
            None => unreached(),
        }
    }

    /// The block that follows `block` in program order.
    pub fn next_block_of(&self, block: BasicBlockId) -> (next: Option<BasicBlockId>)
        requires
            self.wf(),
            self.blocks().contains(block),
        ensures
            next == at(self.blocks(), self.blocks().index_of(block) + 1),
    {
        let node = self.block_node(block);
        proof {
            let i = self.order@.index_of(block);
            assert(self.block_linked(i));
        }
        node.next
    }

    /// The first instruction of `block`.
    pub fn first_inst_of(&self, block: BasicBlockId) -> (inst: Option<InstructionId>)
        requires
            self.wf(),
            self.blocks().contains(block),
        ensures
            inst == at(self.insts_of(block), 0),
    {
        let node = self.block_node(block);
        proof {
            let i = self.order@.index_of(block);
            assert(self.block_linked(i));
        }
        node.first_inst
    }

    /// The last instruction of `block`.
    pub fn last_inst_of(&self, block: BasicBlockId) -> (inst: Option<InstructionId>)
        requires
            self.wf(),
            self.blocks().contains(block),
        ensures
            inst == at(self.insts_of(block), self.insts_of(block).len() - 1),
    {
        let node = self.block_node(block);
        proof {
            let i = self.order@.index_of(block);
            assert(self.block_linked(i));
        }
        node.last_inst
    }

    /// Appends `block` to the program order. A block that is already in the
    /// layout keeps its place, and nothing changes.
    pub fn append_block(&mut self, block: BasicBlockId)
        requires
            old(self).wf(),
        ensures
            final(self).wf(),
            final(self).blocks() == if old(self).blocks().contains(block) {
                old(self).blocks()
            } else {
                old(self).blocks().push(block)
            },
            forall|b: BasicBlockId| #[trigger] final(self).insts_of(b) == old(self).insts_of(b),
            forall|inst: InstructionId| #[trigger]
                final(self).is_placed(inst) == old(self).is_placed(inst),
            forall|inst: InstructionId|
                old(self).is_placed(inst) ==> #[trigger] final(self).block_of(inst) == old(
                    self,
                ).block_of(inst),
    {
        if self.contains_block(block) {
            return ;
        }
        let ghost before = *self;
        let ghost n = self.order@.len() as int;
        proof {
            if self.bodies@.contains_key(block) {
                assert(self.order@.contains(block));
            }
        }
        map_insert(
            &mut self.basic_blocks,
            block.0,
            BasicBlockNode { prev: self.last_block, next: None, first_inst: None, last_inst: None },
        );
        if let Some(last) = self.last_block {
            assert(before.block_linked(n - 1));
            let node = match map_get(&self.basic_blocks, last.0) {
                Some(node) => *node,
                None => unreached(),
            };
            map_insert(
                &mut self.basic_blocks,
                last.0,
                BasicBlockNode { next: Some(block), ..node },
            );
        }
        self.last_block = Some(block);
        if self.first_block.is_none() {
            self.first_block = Some(block);
        }
        proof {
            self.order@ = before.order@.push(block);
            self.bodies@ = before.bodies@.insert(block, Seq::empty());
            let order = self.order@;
            assert forall|k: usize| #[trigger]
                self.basic_blocks@.contains_key(k) implies order.contains(BasicBlockId(k)) by {
                if k == block.0 {
                    assert(order[n] == block);
                } else {
                    assert(before.basic_blocks@.contains_key(k));
                    let i = choose|i: int|
                        0 <= i < before.order@.len() && before.order@[i] == BasicBlockId(k);
                    assert(order[i] == BasicBlockId(k));
                }
            }
            assert forall|b: BasicBlockId| #[trigger]
                self.bodies@.contains_key(b) implies order.contains(b) by {
                if b == block {
                    assert(order[n] == block);
                } else {
                    let i = choose|i: int| 0 <= i < before.order@.len() && before.order@[i] == b;
                    assert(order[i] == b);
                }
            }
            assert forall|i: int| 0 <= i < order.len() implies #[trigger] self.block_linked(i) by {
                if i < n {
                    assert(before.block_linked(i));
                    assert(order[i] == before.order@[i]);
                    assert(order[i] != block);
                    if i < n - 1 {
                        assert(before.order@[i] != before.order@[n - 1]);
                    }
                }
            }
            assert forall|inst: InstructionId| #[trigger]
                self.home@.contains_key(inst) implies order.contains(self.home@[inst])
                && self.bodies@[self.home@[inst]].contains(inst) by {
                let b = before.home@[inst];
                let i = choose|i: int| 0 <= i < before.order@.len() && before.order@[i] == b;
                assert(order[i] == b);
            }
            assert forall|b: BasicBlockId, j: int|
                order.contains(b) && 0 <= j < self.bodies@[b].len() implies #[trigger]
                self.inst_linked(b, j) by {
                if b != block {
                    let i = choose|i: int| 0 <= i < order.len() && order[i] == b;
                    assert(before.order@[i] == b);
                    assert(before.inst_linked(b, j));
                }
            }
            assert forall|b: BasicBlockId| #[trigger] self.insts_of(b) == before.insts_of(b) by {}
        }
    }

    /// Appends `inst` to the instructions of `block`. An instruction that is
    /// already placed keeps its place, and nothing changes.
    pub fn append_inst(&mut self, inst: InstructionId, block: BasicBlockId)
        requires
            old(self).wf(),
            old(self).blocks().contains(block),
        ensures
            final(self).wf(),
            final(self).blocks() == old(self).blocks(),
            final(self).insts_of(block) == if old(self).is_placed(inst) {
                old(self).insts_of(block)
            } else {
                old(self).insts_of(block).push(inst)
            },
            forall|b: BasicBlockId|
                b != block ==> #[trigger] final(self).insts_of(b) == old(self).insts_of(b),
            forall|other: InstructionId| #[trigger]
                final(self).is_placed(other) == (old(self).is_placed(other) || other == inst),
            forall|other: InstructionId|
                old(self).is_placed(other) ==> #[trigger] final(self).block_of(other) == old(
                    self,
                ).block_of(other),
            !old(self).is_placed(inst) ==> final(self).block_of(inst) == block,
    {
        if self.contains_inst(inst) {
            return ;
        }
        let ghost before = *self;
        let ghost bi = self.order@.index_of(block);
        let ghost body = self.bodies@[block];
        let ghost m = body.len() as int;
        assert(before.block_linked(bi));
        let node = self.block_node(block);
        proof {
            if body.contains(inst) {
                let j = choose|j: int| 0 <= j < body.len() && body[j] == inst;
                assert(before.inst_linked(block, j));
            }
        }
        map_insert(&mut self.instructions, inst.0, InstructionNode { prev: node.last_inst, next: None });
        if let Some(last) = node.last_inst {
            assert(before.inst_linked(block, m - 1));
            let last_node = match map_get(&self.instructions, last.0) {
                Some(last_node) => *last_node,
                None => unreached(),
            };
            map_insert(
                &mut self.instructions,
                last.0,
                InstructionNode { next: Some(inst), ..last_node },
            );
        }
        let first_inst = if node.first_inst.is_none() {
            Some(inst)
        } else {
            node.first_inst
        };
        map_insert(
            &mut self.basic_blocks,
            block.0,
            BasicBlockNode { first_inst, last_inst: Some(inst), ..node },
        );
        proof {
            let new_body = body.push(inst);
            self.bodies@ = before.bodies@.insert(block, new_body);
            self.home@ = before.home@.insert(inst, block);
            let order = self.order@;
            assert forall|k: usize| #[trigger]
                self.basic_blocks@.contains_key(k) implies order.contains(BasicBlockId(k)) by {
                if k != block.0 {
                    assert(before.basic_blocks@.contains_key(k));
                }
            }
            assert forall|i: int| 0 <= i < order.len() implies #[trigger] self.block_linked(i) by {
                assert(before.block_linked(i));
                if i == bi {
                    assert(new_body.no_duplicates());
                } else {
                    assert(order[i] != block);
                }
            }
            assert forall|k: usize| #[trigger]
                self.instructions@.contains_key(k) implies self.home@.contains_key(
                InstructionId(k),
            ) by {
                if k != inst.0 {
                    assert(before.instructions@.contains_key(k));
                }
            }
            assert forall|other: InstructionId| #[trigger]
                self.home@.contains_key(other) implies order.contains(self.home@[other])
                && self.bodies@[self.home@[other]].contains(other) by {
                if other == inst {
                    assert(new_body[m] == inst);
                } else {
                    let b = before.home@[other];
                    if b == block {
                        let j = choose|j: int| 0 <= j < body.len() && body[j] == other;
                        assert(new_body[j] == other);
                    }
                }
            }
            assert forall|b: BasicBlockId, j: int|
                order.contains(b) && 0 <= j < self.bodies@[b].len() implies #[trigger]
                self.inst_linked(b, j) by {
                if b == block {
                    if j < m {
                        assert(before.inst_linked(block, j));
                        assert(body[j] != inst);
                        if j < m - 1 {
                            assert(body[j] != body[m - 1]);
                        }
                    }
                } else {
                    assert(before.inst_linked(b, j));
                    assert(before.bodies@[b][j] != inst);
                    if m > 0 {
                        assert(before.inst_linked(block, m - 1));
                    }
                }
            }
        }
    }

    /// An iterator over the blocks in program order.
    pub fn block_iter<'a>(&'a self) -> (iter: BasicBlockIter<'a>)
        requires
            self.wf(),
        ensures
            iter.wf(),
            iter.layout() == self,
            iter.position() == 0,
    {
        BasicBlockIter { layout: self, cur: self.first_block, pos: Ghost(0) }
    }

    /// An iterator over the instructions of `block`, from either end.
    pub fn inst_iter<'a>(&'a self, block: BasicBlockId) -> (iter: InstructionIter<'a>)
        requires
            self.wf(),
            self.blocks().contains(block),
        ensures
            iter.wf(),
            iter.layout() == self,
            iter.block() == block,
            iter.front() == 0,
            iter.back() == self.insts_of(block).len(),
    {
        let head = self.first_inst_of(block);
        let tail = self.last_inst_of(block);
        InstructionIter {
            layout: self,
            head,
            tail,
            block: Ghost(block),
            lo: Ghost(0),
            hi: Ghost(self.insts_of(block).len() as int),
        }
    }
}

/// A cursor over the blocks of a layout.
pub struct BasicBlockIter<'a> {
    layout: &'a Layout,
    cur: Option<BasicBlockId>,
    pos: Ghost<int>,
}

impl<'a> BasicBlockIter<'a> {
    /// The layout that is walked.
    pub closed spec fn layout(&self) -> &'a Layout {
        self.layout
    }

    /// The number of blocks handed out so far.
    pub closed spec fn position(&self) -> int {
        self.pos@
    }

    pub closed spec fn wf(&self) -> bool {
        &&& self.layout.wf()
        &&& 0 <= self.pos@ <= self.layout.blocks().len()
        &&& self.cur == at(self.layout.blocks(), self.pos@)
    }

    /// The next block in program order, or `None` after the last.
    pub fn next(&mut self) -> (block: Option<BasicBlockId>)
        requires
            old(self).wf(),
        ensures
            final(self).wf(),
            final(self).layout() == old(self).layout(),
            block == at(old(self).layout().blocks(), old(self).position()),
            final(self).position() == if block is Some {
                old(self).position() + 1
            } else {
                old(self).position()
            },
            0 <= old(self).position() <= old(self).layout().blocks().len(),
    {
        match self.cur {
            Some(cur) => {
                assert(self.layout.order@[self.pos@] == cur);
                assert(self.layout.block_linked(self.pos@));
                let node = self.layout.block_node(cur);
                self.cur = node.next;
                proof {
                    self.pos@ = self.pos@ + 1;
                }
                Some(cur)
            },
            None => None,
        }
    }
}

/// A cursor over the instructions of one block that can be advanced from
/// the front and from the back.
pub struct InstructionIter<'a> {
    layout: &'a Layout,
    head: Option<InstructionId>,
    tail: Option<InstructionId>,
    block: Ghost<BasicBlockId>,
    lo: Ghost<int>,
    hi: Ghost<int>,
}

impl<'a> InstructionIter<'a> {
    /// The layout that is walked.
    pub closed spec fn layout(&self) -> &'a Layout {
        self.layout
    }

    /// The block whose instructions are walked.
    pub closed spec fn block(&self) -> BasicBlockId {
        self.block@
    }

    /// The number of instructions handed out from the front.
    pub closed spec fn front(&self) -> int {
        self.lo@
    }

    /// The index after the last instruction not yet handed out from the
    /// back.
    pub closed spec fn back(&self) -> int {
        self.hi@
    }

    pub closed spec fn wf(&self) -> bool {
        let body = self.layout.insts_of(self.block@);
        &&& self.layout.wf()
        &&& self.layout.blocks().contains(self.block@)
        &&& 0 <= self.lo@ <= self.hi@ <= body.len()
        &&& if self.lo@ < self.hi@ {
            self.head == Some(body[self.lo@]) && self.tail == Some(body[self.hi@ - 1])
        } else {
            self.head is None && self.tail is None
        }
    }

    /// The next instruction from the front, or `None` when none is left.
    pub fn next(&mut self) -> (inst: Option<InstructionId>)
        requires
            old(self).wf(),
        ensures
            final(self).wf(),
            final(self).layout() == old(self).layout(),
            final(self).block() == old(self).block(),
            final(self).back() == old(self).back(),
            0 <= old(self).front() <= old(self).back() <= old(self).layout().insts_of(
                old(self).block(),
            ).len(),
            inst == if old(self).front() < old(self).back() {
                Some(old(self).layout().insts_of(old(self).block())[old(self).front()])
            } else {
                None
            },
            final(self).front() == if inst is Some {
                old(self).front() + 1
            } else {
                old(self).front()
            },
    {
        match self.head {
            Some(cur) => {
                let ghost body = self.layout.bodies@[self.block@];
                assert(self.layout.inst_linked(self.block@, self.lo@));
                assert(self.layout.inst_linked(self.block@, self.hi@ - 1));
                let ghost i = choose|i: int|
                    0 <= i < self.layout.order@.len() && self.layout.order@[i] == self.block@;
                assert(self.layout.block_linked(i));
                let same = match self.tail {
                    Some(tail) => tail.0 == cur.0,
                    None => false,
                };
                if same {
                    self.head = None;
                    self.tail = None;
                } else {
                    let node = self.layout.inst_node(cur);
                    self.head = node.next;
                }
                proof {
                    self.lo@ = self.lo@ + 1;
                }
                Some(cur)
            },
            None => None,
        }
    }

    /// The next instruction from the back, or `None` when none is left.
    pub fn next_back(&mut self) -> (inst: Option<InstructionId>)
        requires
            old(self).wf(),
        ensures
            final(self).wf(),
            final(self).layout() == old(self).layout(),
            final(self).block() == old(self).block(),
            final(self).front() == old(self).front(),
            0 <= old(self).front() <= old(self).back() <= old(self).layout().insts_of(
                old(self).block(),
            ).len(),
            inst == if old(self).front() < old(self).back() {
                Some(old(self).layout().insts_of(old(self).block())[old(self).back() - 1])
            } else {
                None
            },
            final(self).back() == if inst is Some {
                old(self).back() - 1
            } else {
                old(self).back()
            },
    {
        match self.tail {
            Some(cur) => {
                let ghost body = self.layout.bodies@[self.block@];
                assert(self.layout.inst_linked(self.block@, self.lo@));
                assert(self.layout.inst_linked(self.block@, self.hi@ - 1));
                let ghost i = choose|i: int|
                    0 <= i < self.layout.order@.len() && self.layout.order@[i] == self.block@;
                assert(self.layout.block_linked(i));
                let same = match self.head {
                    Some(head) => head.0 == cur.0,
                    None => false,
                };
                if same {
                    self.head = None;
                    self.tail = None;
                } else {
                    let node = self.layout.inst_node(cur);
                    self.tail = node.prev;
                }
                proof {
                    self.hi@ = self.hi@ - 1;
                }
                Some(cur)
            },
            None => None,
        }
    }
}

} // verus!
