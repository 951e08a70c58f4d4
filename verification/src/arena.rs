//! The arenas of `id_arena` that own instructions, basic blocks and graph
//! nodes.
//!
//! An arena is append-only storage; the library names an element by its
//! index. What an arena holds is the sequence of its elements in the order
//! in which they were allocated, named here by one spec function for each
//! element type. Nothing in this file is proved: each function states what
//! the arena operation it calls does to that sequence.

use crate::ir::function::basic_block::BasicBlock;
use crate::ir::function::instruction::Instruction;
use crate::lower::dag::function::node::Node;
use crate::targets::x86_64::dag::function::node::NodeData;
use id_arena::{Arena, ArenaBehavior, DefaultArenaBehavior};
use vstd::prelude::*;

verus! {

#[verifier::external_type_specification]
#[verifier::external_body]
#[verifier::reject_recursive_types(T)]
#[verifier::reject_recursive_types(A)]
pub struct ExArena<T, A>(Arena<T, A>);

#[verifier::external_type_specification]
#[verifier::external_body]
#[verifier::reject_recursive_types(T)]
pub struct ExDefaultArenaBehavior<T>(DefaultArenaBehavior<T>);

/// The instructions that an arena holds, in allocation order.
pub uninterp spec fn instructions_of(arena: Arena<Instruction>) -> Seq<Instruction>;

/// The basic blocks that an arena holds, in allocation order.
pub uninterp spec fn blocks_of(arena: Arena<BasicBlock>) -> Seq<BasicBlock>;

/// The graph nodes that an arena holds, in allocation order.
pub uninterp spec fn nodes_of(arena: Arena<Node<NodeData>>) -> Seq<Node<NodeData>>;

/// `Arena::new`: an arena that holds nothing.
#[verifier::external_body]
pub(crate) fn instruction_arena() -> (arena: Arena<Instruction>)
    ensures
        instructions_of(arena) == Seq::<Instruction>::empty(),
{
    Arena::new()
}

/// `Arena::len`: the number of elements.
#[verifier::external_body]
pub(crate) fn instruction_count(arena: &Arena<Instruction>) -> (count: usize)
    ensures
        count == instructions_of(*arena).len(),
{
    arena.len()
}

/// `Arena::alloc`: the element is appended, and the id that comes back has
/// the index at which it now stands.
#[verifier::external_body]
pub(crate) fn alloc_instruction(arena: &mut Arena<Instruction>, item: Instruction) -> (index: usize)
    ensures
        index == instructions_of(*old(arena)).len(),
        instructions_of(*final(arena)) == instructions_of(*old(arena)).push(item),
{
    arena.alloc(item).index()
}

/// `Arena::get` with an id of this arena: the element at `index`, or `None`
/// when the arena has no such index.
#[verifier::external_body]
pub(crate) fn get_instruction(arena: &Arena<Instruction>, index: usize) -> (item: Option<
    &Instruction,
>)
    ensures
        item == if index < instructions_of(*arena).len() {
            Some(&instructions_of(*arena)[index as int])
        } else {
            None
        },
{
    let home = DefaultArenaBehavior::<Instruction>::arena_id(arena.next_id());
    arena.get(DefaultArenaBehavior::<Instruction>::new_id(home, index))
}

/// `IndexMut` of an arena with an id of this arena: a unique borrow of the
/// element at `index`; what is written through it is what the arena holds
/// there afterwards, and no other element changes.
#[verifier::external_body]
pub(crate) fn get_instruction_mut(arena: &mut Arena<Instruction>, index: usize) -> (item:
    &mut Instruction)
    requires
        index < instructions_of(*old(arena)).len(),
    ensures
        *item == instructions_of(*old(arena))[index as int],
        instructions_of(*final(arena)) == instructions_of(*old(arena)).update(
            index as int,
            *final(item),
        ),
{
    let home = DefaultArenaBehavior::<Instruction>::arena_id(arena.next_id());
    &mut arena[DefaultArenaBehavior::<Instruction>::new_id(home, index)]
}

/// `Arena::new`: an arena that holds nothing.
#[verifier::external_body]
pub(crate) fn block_arena() -> (arena: Arena<BasicBlock>)
    ensures
        blocks_of(arena) == Seq::<BasicBlock>::empty(),
{
    Arena::new()
}

/// `Arena::alloc`: the element is appended, and the id that comes back has
/// the index at which it now stands.
#[verifier::external_body]
pub(crate) fn alloc_block(arena: &mut Arena<BasicBlock>, item: BasicBlock) -> (index: usize)
    ensures
        index == blocks_of(*old(arena)).len(),
        blocks_of(*final(arena)) == blocks_of(*old(arena)).push(item),
{
    arena.alloc(item).index()
}

/// `Arena::get` with an id of this arena: the element at `index`, or `None`
/// when the arena has no such index.
#[verifier::external_body]
pub(crate) fn get_block(arena: &Arena<BasicBlock>, index: usize) -> (item: Option<&BasicBlock>)
    ensures
        item == if index < blocks_of(*arena).len() {
            Some(&blocks_of(*arena)[index as int])
        } else {
            None
        },
{
    let home = DefaultArenaBehavior::<BasicBlock>::arena_id(arena.next_id());
    arena.get(DefaultArenaBehavior::<BasicBlock>::new_id(home, index))
}

/// `IndexMut` of an arena with an id of this arena: a unique borrow of the
/// element at `index`; what is written through it is what the arena holds
/// there afterwards, and no other element changes.
#[verifier::external_body]
pub(crate) fn get_block_mut(arena: &mut Arena<BasicBlock>, index: usize) -> (item: &mut BasicBlock)
    requires
        index < blocks_of(*old(arena)).len(),
    ensures
        *item == blocks_of(*old(arena))[index as int],
        blocks_of(*final(arena)) == blocks_of(*old(arena)).update(index as int, *final(item)),
{
    let home = DefaultArenaBehavior::<BasicBlock>::arena_id(arena.next_id());
    &mut arena[DefaultArenaBehavior::<BasicBlock>::new_id(home, index)]
}

/// `Arena::new`: an arena that holds nothing.
#[verifier::external_body]
pub(crate) fn node_arena() -> (arena: Arena<Node<NodeData>>)
    ensures
        nodes_of(arena) == Seq::<Node<NodeData>>::empty(),
{
    Arena::new()
}

/// `Arena::len`: the number of elements.
#[verifier::external_body]
pub(crate) fn node_count(arena: &Arena<Node<NodeData>>) -> (count: usize)
    ensures
        count == nodes_of(*arena).len(),
{
    arena.len()
}

/// `Arena::alloc`: the element is appended, and the id that comes back has
/// the index at which it now stands.
#[verifier::external_body]
pub(crate) fn alloc_node(arena: &mut Arena<Node<NodeData>>, item: Node<NodeData>) -> (index: usize)
    ensures
        index == nodes_of(*old(arena)).len(),
        nodes_of(*final(arena)) == nodes_of(*old(arena)).push(item),
{
    arena.alloc(item).index()
}

/// `Arena::get` with an id of this arena: the element at `index`, or `None`
/// when the arena has no such index.
#[verifier::external_body]
pub(crate) fn get_node(arena: &Arena<Node<NodeData>>, index: usize) -> (item: Option<
    &Node<NodeData>,
>)
    ensures
        item == if index < nodes_of(*arena).len() {
            Some(&nodes_of(*arena)[index as int])
        } else {
            None
        },
{
    let home = DefaultArenaBehavior::<Node<NodeData>>::arena_id(arena.next_id());
    arena.get(DefaultArenaBehavior::<Node<NodeData>>::new_id(home, index))
}

/// `IndexMut` of an arena with an id of this arena: a unique borrow of the
/// element at `index`; what is written through it is what the arena holds
/// there afterwards, and no other element changes.
#[verifier::external_body]
pub(crate) fn get_node_mut(arena: &mut Arena<Node<NodeData>>, index: usize) -> (item: &mut Node<
    NodeData,
>)
    requires
        index < nodes_of(*old(arena)).len(),
    ensures
        *item == nodes_of(*old(arena))[index as int],
        nodes_of(*final(arena)) == nodes_of(*old(arena)).update(index as int, *final(item)),
{
    let home = DefaultArenaBehavior::<Node<NodeData>>::arena_id(arena.next_id());
    &mut arena[DefaultArenaBehavior::<Node<NodeData>>::new_id(home, index)]
}

} // verus!
