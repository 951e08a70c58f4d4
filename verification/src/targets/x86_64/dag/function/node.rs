//! What a node of an x86-64 dependency graph holds.

use crate::lower::dag::function::instruction::InstructionData;
use crate::lower::dag::function::node::{NodeData as NodeDataOf, NodeId};
use crate::text::{push_signed, signed_decimal};
use vstd::prelude::*;
use vstd::string::StringExecFns;

verus! {

/// The payload of a node.
#[derive(Debug, Clone)]
pub enum NodeData {
    /// The sentinel at which the chain of a block starts.
    Root,
    /// An operation on the values of other nodes.
    Inst(Inst),
    /// A 32-bit literal.
    Int32(i32),
}

/// An operation and the nodes that produce its operands.
#[derive(Debug, Clone)]
pub struct Inst {
    pub opcode: Opcode,
    pub args: Vec<NodeId>,
}

/// The operations of the graph.
#[derive(Debug, Clone, Copy, PartialEq, Eq, Structural)]
pub enum Opcode {
    Alloca,
    Phi,
    Load,
    Store,
    Add,
    Sub,
    Mul,
    ICmp,
    Sext,
    Zext,
    GetElementPtr,
    Call,
    Br,
    CondBr,
    Ret,
    Invalid,
}

/// The mathematical value of a `NodeData`.
pub enum NodeDataView {
    Root,
    Inst(Opcode, Seq<NodeId>),
    Int32(i32),
}

impl View for NodeData {
    type V = NodeDataView;

    open spec fn view(&self) -> NodeDataView {
        match self {
            NodeData::Root => NodeDataView::Root,
            NodeData::Inst(inst) => NodeDataView::Inst(inst.opcode, inst.args@),
            NodeData::Int32(i) => NodeDataView::Int32(*i),
        }
    }
}

impl NodeDataView {
    /// The nodes that this one depends on.
    pub open spec fn args(self) -> Seq<NodeId> {
        match self {
            NodeDataView::Inst(_, args) => args,
            _ => Seq::empty(),
        }
    }
}

impl Inst {
    pub fn new(opcode: Opcode, args: Vec<NodeId>) -> (inst: Inst)
        ensures
            inst.opcode == opcode,
            inst.args == args,
    {
        Inst { opcode, args }
    }
}

impl Opcode {
    /// The name of the operation.
    pub open spec fn name(self) -> &'static str {
        match self {
            Opcode::Alloca => "Alloca",
            Opcode::Phi => "Phi",
            Opcode::Load => "Load",
            Opcode::Store => "Store",
            Opcode::Add => "Add",
            Opcode::Sub => "Sub",
            Opcode::Mul => "Mul",
            Opcode::ICmp => "ICmp",
            Opcode::Sext => "Sext",
            Opcode::Zext => "Zext",
            Opcode::GetElementPtr => "GetElementPtr",
            Opcode::Call => "Call",
            Opcode::Br => "Br",
            Opcode::CondBr => "CondBr",
            Opcode::Ret => "Ret",
            Opcode::Invalid => "Invalid",
        }
    }

    /// The name of the operation.
    pub fn as_str(&self) -> (text: &'static str)
        ensures
            text == self.name(),
    {
        match self {
            Opcode::Alloca => "Alloca",
            Opcode::Phi => "Phi",
            Opcode::Load => "Load",
            Opcode::Store => "Store",
            Opcode::Add => "Add",
            Opcode::Sub => "Sub",
            Opcode::Mul => "Mul",
            Opcode::ICmp => "ICmp",
            Opcode::Sext => "Sext",
            Opcode::Zext => "Zext",
            Opcode::GetElementPtr => "GetElementPtr",
            Opcode::Call => "Call",
            Opcode::Br => "Br",
            Opcode::CondBr => "CondBr",
            Opcode::Ret => "Ret",
            Opcode::Invalid => "Invalid",
        }
    }
}

impl NodeDataOf for NodeData {
    open spec fn is_root(&self) -> bool {
        self@ is Root
    }

    open spec fn arg_ids(&self) -> Seq<NodeId> {
        self@.args()
    }

    /// `Root` for a root, the name of the operation for an operation, and
    /// the decimal numeral for a literal.
    open spec fn label(&self) -> Seq<char> {
        match self@ {
            NodeDataView::Root => "Root"@,
            NodeDataView::Inst(opcode, _) => opcode.name()@,
            NodeDataView::Int32(i) => signed_decimal(i as int),
        }
    }

    fn root() -> (data: Self) {
        NodeData::Root
    }

    fn dot_label(&self) -> (text: String) {
        let mut text = String::new();
        match self {
            NodeData::Root => {
                text.append("Root");
                assert(text@ =~= "Root"@);
            },
            NodeData::Inst(inst) => {
                text.append(inst.opcode.as_str());
                assert(text@ =~= inst.opcode.name()@);
            },
            NodeData::Int32(i) => {
                push_signed(&mut text, *i);
                assert(text@ =~= signed_decimal(*i as int));
            },
        }
        text
    }

    fn args(&self) -> (args: &[NodeId]) {
        match self {
            NodeData::Root => &[],
            NodeData::Inst(inst) => inst.args.as_slice(),
            NodeData::Int32(_) => &[],
        }
    }
}

impl InstructionData for NodeData {

}

} // verus!
