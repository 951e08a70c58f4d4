//! Stack slots: the local storage that `alloca` asks for.

use crate::ir::types::TypeId;
use vstd::prelude::*;

verus! {

/// A stack slot, named by its index in the function's slot table.
#[derive(Clone, Copy, Debug, PartialEq, Eq, Structural, Hash)]
pub struct SlotId(pub usize);

/// The stack slots of one function: the type stored in each.
pub struct Slots {
    tys: Vec<TypeId>,
}

impl View for Slots {
    type V = Seq<TypeId>;

    closed spec fn view(&self) -> Seq<TypeId> {
        self.tys@
    }
}

impl Slots {
    /// A table without slots.
    pub fn new() -> (slots: Slots)
        ensures
            slots@ == Seq::<TypeId>::empty(),
    {
        Slots { tys: Vec::new() }
    }

    /// The number of slots.
    pub fn len(&self) -> (n: usize)
        ensures
            n == self@.len(),
    {
        self.tys.len()
    }

    /// Allocates a slot for a value of type `ty`: the next free index.
    pub fn add_slot(&mut self, ty: TypeId) -> (slot: SlotId)
        ensures
            slot.0 == old(self)@.len(),
            final(self)@ == old(self)@.push(ty),
    {
        let slot = SlotId(self.tys.len());
        self.tys.push(ty);
        slot
    }

    /// The type stored in `slot`, if the table has it.
    pub fn type_for(&self, slot: SlotId) -> (ty: Option<TypeId>)
        ensures
            ty == if slot.0 < self@.len() {
                Some(self@[slot.0 as int])
            } else {
                None
            },
    {
        if slot.0 < self.tys.len() {
            Some(self.tys[slot.0])
        } else {
            None
        }
    }
}

} // verus!
