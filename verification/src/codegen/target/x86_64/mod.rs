//! The x86-64 target.

pub mod assembler;
pub mod instruction;
pub mod lower;
pub mod register;
pub mod shape;

use crate::ir::types::{size_of, Type, TypeId, Types};
use vstd::prelude::*;

verus! {

/// The x86-64 target.
#[derive(Clone, Copy)]
pub struct X86_64;

/// The product of two sizes where neither factor is zero is at least as
/// large as each.
proof fn lemma_product_bounds(a: nat, b: nat)
    requires
        b >= 1,
    ensures
        a * b >= a,
{
    assert(a * b >= a) by (nonlinear_arith)
        requires
            b >= 1,
            a >= 0,
    ;
}

impl X86_64 {
    /// The size in bytes of the type `ty`, as `size_of` defines it; `None`
    /// when the size does not fit in 32 bits.
    pub fn type_size(types: &Types, ty: TypeId) -> (size: Option<u32>)
        requires
            types.wf(),
        ensures
            size == if size_of(types@, ty) <= u32::MAX {
                Some(size_of(types@, ty) as u32)
            } else {
                None
            },
        decreases ty.0,
    {
        match types.get(ty) {
            None => Some(0),
            Some(Type::Void) => Some(0),
            Some(Type::Int(bits)) => Some(*bits / 8),
            Some(Type::Pointer(_)) => Some(8),
            Some(Type::Array(array)) => {
                assert(crate::ir::types::components_below(types@[ty.0 as int], ty.0 as int));
                if array.num_elements == 0 {
                    assert(size_of(types@, array.inner) * 0 == 0);
                    return Some(0);
                }
                proof {
                    lemma_product_bounds(size_of(types@, array.inner), array.num_elements as nat);
                }
                match Self::type_size(types, array.inner) {
                    None => None,
                    Some(inner) => {
                        assert((inner as int) * (array.num_elements as int) <= 0xffff_ffff
                            * 0xffff_ffff) by (nonlinear_arith)
                            requires
                                0 <= inner <= 0xffff_ffff,
                                0 <= array.num_elements <= 0xffff_ffff,
                        ;
                        let product = (inner as u64) * (array.num_elements as u64);
                        if product > u32::MAX as u64 {
                            None
                        } else {
                            Some(product as u32)
                        }
                    },
                }
            },
            Some(Type::Function(_)) => Some(0),
        }
    }
}

} // verus!
