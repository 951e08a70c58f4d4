//! Physical and virtual registers.

use crate::ir::types::TypeId;
use vstd::prelude::*;

verus! {

/// A physical register: its class and its number within the class.
#[derive(Clone, Copy, Debug, PartialEq, Eq, Structural, Hash)]
pub struct Reg(pub u16, pub u16);

/// A virtual register, named by its index in the function's register table.
#[derive(Clone, Copy, Debug, PartialEq, Eq, Structural, Hash)]
pub struct VReg(pub usize);

/// The virtual registers of one function: the type of each.
pub struct VRegs {
    tys: Vec<TypeId>,
}

impl View for VRegs {
    type V = Seq<TypeId>;

    closed spec fn view(&self) -> Seq<TypeId> {
        self.tys@
    }
}

impl VRegs {
    /// A table without registers.
    pub fn new() -> (vregs: VRegs)
        ensures
            vregs@ == Seq::<TypeId>::empty(),
    {
        VRegs { tys: Vec::new() }
    }

    /// The number of registers.
    pub fn len(&self) -> (n: usize)
        ensures
            n == self@.len(),
    {
        self.tys.len()
    }

    /// Allocates a register of type `ty`: the next free index.
    pub fn add_vreg_data(&mut self, ty: TypeId) -> (vreg: VReg)
        ensures
            vreg.0 == old(self)@.len(),
            final(self)@ == old(self)@.push(ty),
    {
        let vreg = VReg(self.tys.len());
        self.tys.push(ty);
        vreg
    }

    /// Gives `vreg` the type `ty`. No register is added or removed. A
    /// register that the table does not have is left alone.
    pub fn change_ty(&mut self, vreg: VReg, ty: TypeId)
        ensures
            final(self)@ == if vreg.0 < old(self)@.len() {
                old(self)@.update(vreg.0 as int, ty)
            } else {
                old(self)@
            },
    {
        if vreg.0 < self.tys.len() {
            self.tys.set(vreg.0, ty);
        }
    }

    /// The type of `vreg`, if the table has it.
    pub fn type_for(&self, vreg: VReg) -> (ty: Option<TypeId>)
        ensures
            ty == if vreg.0 < self@.len() {
                Some(self@[vreg.0 as int])
            } else {
                None
            },
    {
        if vreg.0 < self.tys.len() {
            Some(self.tys[vreg.0])
        } else {
            None
        }
    }
}

} // verus!
