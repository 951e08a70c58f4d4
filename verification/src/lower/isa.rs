//! What a target has to provide.

use vstd::prelude::*;

verus! {

/// A target instruction set.
pub trait TargetIsa: Copy {

}

impl TargetIsa for crate::codegen::target::x86_64::X86_64 {

}

} // verus!
