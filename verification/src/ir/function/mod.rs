//! Functions: an arena of blocks and instructions and the order they run in.

pub mod basic_block;
pub mod data;
pub mod instruction;
pub mod layout;

use crate::ir::function::basic_block::BasicBlockId;
use crate::ir::function::data::Data;
use crate::ir::function::layout::Layout;
use crate::ir::module::name::Name;
use crate::ir::types::{type_text, TypeId, TypeView, Types};
use crate::text::{decimal, push_decimal};
use vstd::prelude::*;
use vstd::string::StringExecFns;

verus! {

/// Whether a symbol may be replaced by another definition at link time.
#[derive(Clone, Copy, Debug, PartialEq, Eq, Structural)]
pub enum PreemptionSpecifier {
    DsoPreemptable,
    DsoLocal,
}

/// A formal parameter.
#[derive(Clone, Debug)]
pub struct Parameter {
    pub name: Name,
    pub ty: TypeId,
}

/// A function: its signature, its storage and its program order.
pub struct Function {
    pub name: String,
    pub is_var_arg: bool,
    pub result_ty: TypeId,
    pub params: Vec<Parameter>,
    pub preemption_specifier: PreemptionSpecifier,
    pub data: Data,
    pub layout: Layout,
}

impl Function {
    /// A function without parameters, blocks and instructions.
    pub fn new(name: String, result_ty: TypeId) -> (function: Function)
        ensures
            function.name == name,
            function.result_ty == result_ty,
            !function.is_var_arg,
            function.params@.len() == 0,
            function.preemption_specifier == PreemptionSpecifier::DsoPreemptable,
            function.layout.wf(),
            function.layout.blocks().len() == 0,
            function.data.insts().len() == 0,
            function.data.blocks().len() == 0,
            function.data.values@.len() == 0,
    {
        Function {
            name,
            is_var_arg: false,
            result_ty,
            params: Vec::new(),
            preemption_specifier: PreemptionSpecifier::DsoPreemptable,
            data: Data::new(),
            layout: Layout::new(),
        }
    }
}

/// The text of the parameter `param`: its type, a space, `%` and its name
/// as it is shown for debugging.
pub open spec fn param_text(table: Seq<TypeView>, param: Parameter) -> Seq<char> {
    type_text(table, param.ty) + " %"@ + param.name@.debug_text()
}

/// The texts of the first `n` of `params`, with a comma and a space after
/// each but the last of `params`.
pub open spec fn params_text(table: Seq<TypeView>, params: Seq<Parameter>, n: nat) -> Seq<char>
    decreases n,
{
    if n == 0 || n > params.len() {
        Seq::empty()
    } else {
        params_text(table, params, (n - 1) as nat) + param_text(table, params[n - 1]) + (if n
            == params.len() {
            ""@
        } else {
            ", "@
        })
    }
}

/// The text of a preemption specifier: its name.
pub open spec fn specifier_text(specifier: PreemptionSpecifier) -> Seq<char> {
    match specifier {
        PreemptionSpecifier::DsoPreemptable => "DsoPreemptable"@,
        PreemptionSpecifier::DsoLocal => "DsoLocal"@,
    }
}

/// One line for each of the first `n` of `blocks`: the block's index, shown
/// as the field `idx` of an `Id`.
pub open spec fn block_lines(blocks: Seq<BasicBlockId>, n: nat) -> Seq<char>
    decreases n,
{
    if n == 0 || n > blocks.len() {
        Seq::empty()
    } else {
        block_lines(blocks, (n - 1) as nat) + "Id { idx: "@ + decimal(blocks[n - 1].0 as nat)
            + " }\n"@
    }
}

/// The text of a function: `define`, the preemption specifier, the result
/// type, `@` and the name, the parameters in parentheses, and between
/// braces one line for each block in program order.
pub open spec fn function_text(table: Seq<TypeView>, function: &Function) -> Seq<char> {
    "define "@ + specifier_text(function.preemption_specifier) + " "@ + type_text(
        table,
        function.result_ty,
    ) + " @"@ + function.name@ + "("@ + params_text(
        table,
        function.params@,
        function.params@.len(),
    ) + ") {\n"@ + block_lines(function.layout.blocks(), function.layout.blocks().len())
        + "}\n"@
}

impl Function {
    /// The text of the function, as `function_text` defines it.
    pub fn to_string(&self, types: &Types) -> (text: String)
        requires
            types.wf(),
            self.layout.wf(),
        ensures
            text@ == function_text(types@, self),
    {
        let mut text = String::new();
        text.append("define ");
        match self.preemption_specifier {
            PreemptionSpecifier::DsoPreemptable => text.append("DsoPreemptable"),
            PreemptionSpecifier::DsoLocal => text.append("DsoLocal"),
        }
        text.append(" ");
        let result = types.to_string(self.result_ty);
        text.append(result.as_str());
        text.append(" @");
        text.append(self.name.as_str());
        text.append("(");
        let ghost head = "define "@ + specifier_text(self.preemption_specifier) + " "@ + type_text(
            types@,
            self.result_ty,
        ) + " @"@ + self.name@ + "("@;
        assert(text@ =~= head);
        let mut i: usize = 0;
        while i < self.params.len()
            invariant
                i <= self.params@.len(),
                types.wf(),
                text@ == head + params_text(types@, self.params@, i as nat),
            decreases self.params@.len() - i,
        {
            let param = self.params[i].to_string(types);
            text.append(param.as_str());
            if i + 1 != self.params.len() {
                text.append(", ");
            }
            i += 1;
            proof {
                reveal_strlit("");
            }
            assert(text@ =~= head + params_text(types@, self.params@, i as nat));
        }
        text.append(") {\n");
        let ghost upper = head + params_text(types@, self.params@, self.params@.len())
            + ") {\n"@;
        assert(text@ =~= upper);
        let ghost blocks = self.layout.blocks();
        let mut iter = self.layout.block_iter();
        loop
            invariant
                iter.wf(),
                iter.layout() == &self.layout,
                blocks == self.layout.blocks(),
                0 <= iter.position() <= blocks.len(),
                text@ == upper + block_lines(blocks, iter.position() as nat),
            ensures
                text@ == upper + block_lines(blocks, blocks.len()),
            decreases blocks.len() - iter.position(),
        {
            match iter.next() {
                Some(block) => {
                    text.append("Id { idx: ");
                    push_decimal(&mut text, block.0);
                    text.append(" }\n");
                    assert(text@ =~= upper + block_lines(blocks, iter.position() as nat));
                },
                None => {
                    break ;
                },
            }
        }
        text.append("}\n");
        assert(text@ =~= function_text(types@, self));
        text
    }
}

impl Parameter {
    /// The text of the parameter, as `param_text` defines it.
    pub fn to_string(&self, types: &Types) -> (text: String)
        requires
            types.wf(),
        ensures
            text@ == param_text(types@, *self),
    {
        let mut text = types.to_string(self.ty);
        text.append(" %");
        let name = self.name.debug_string();
        text.append(name.as_str());
        text
    }
}

} // verus!
