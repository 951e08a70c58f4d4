//! A dependency graph as text in the dot language, for looking at it.
//!
//! Every node is a record with a port for its chain, a port for the nodes
//! that depend on it, and a port for each of its arguments. The chain of
//! one block is drawn in red from its root, and the arguments of the nodes
//! on the chain in blue.

use crate::arena::node_count;
use crate::lower::dag::function::data::Data;
use crate::lower::dag::function::node::{Node, NodeData as NodeDataOf, NodeId};
use crate::targets::x86_64::dag::function::node::NodeData;
use crate::text::{decimal, push_decimal};
use vstd::prelude::*;
use vstd::string::StringExecFns;

verus! {

/// The ports of a node with `n` arguments: for each argument a bar and the
/// port, named `a` and the argument's place, with the place as its text.
pub open spec fn ports(n: nat) -> Seq<char>
    decreases n,
{
    if n == 0 {
        Seq::empty()
    } else {
        ports((n - 1) as nat) + "|<a"@ + decimal((n - 1) as nat) + ">"@ + decimal((n - 1) as nat)
    }
}

/// The line that declares the node at `index`.
pub open spec fn node_line(index: nat, node: Node<NodeData>) -> Seq<char> {
    "  id"@ + decimal(index) + " [label=\"{{<ch>ch|<dep>dep"@ + ports(node.data.arg_ids().len())
        + "}|"@ + node.data.label() + "}\"]\n"@
}

/// The lines that declare the first `n` of `nodes`.
pub open spec fn node_lines(nodes: Seq<Node<NodeData>>, n: nat) -> Seq<char>
    decreases n,
{
    if n == 0 || n > nodes.len() {
        Seq::empty()
    } else {
        node_lines(nodes, (n - 1) as nat) + node_line((n - 1) as nat, nodes[n - 1])
    }
}

/// The lines for the first `n` arguments of the node at `node`: an edge
/// from the port of each argument to the node that it names.
pub open spec fn arg_lines(node: nat, args: Seq<NodeId>, n: nat) -> Seq<char>
    decreases n,
{
    if n == 0 || n > args.len() {
        Seq::empty()
    } else {
        arg_lines(node, args, (n - 1) as nat) + "  id"@ + decimal(node) + ":a"@ + decimal(
            (n - 1) as nat,
        ) + " -> id"@ + decimal(args[n - 1].0 as nat) + ":dep [color=blue]\n"@
    }
}

/// The lines for the chain that starts at `from`: for each node that
/// follows another on the chain an edge between their chain ports, and the
/// edges of the arguments of the node that follows. The chain is followed
/// for `fuel` steps at most, and ends where a node has no follower or names
/// one that is not among `nodes`.
pub open spec fn chain_lines(nodes: Seq<Node<NodeData>>, from: nat, fuel: nat) -> Seq<char>
    decreases fuel,
{
    if fuel == 0 || from >= nodes.len() {
        Seq::empty()
    } else {
        match nodes[from as int].chain {
            None => Seq::empty(),
            Some(next) => if next.0 >= nodes.len() {
                Seq::empty()
            } else {
                "  id"@ + decimal(from) + ":ch -> id"@ + decimal(next.0 as nat)
                    + ":ch [color=red]\n"@ + arg_lines(
                    next.0 as nat,
                    nodes[next.0 as int].data.arg_ids(),
                    nodes[next.0 as int].data.arg_ids().len(),
                ) + chain_lines(nodes, next.0 as nat, (fuel - 1) as nat)
            },
        }
    }
}

/// The graph `nodes` with the chain from `root`, as a directed graph in the
/// dot language. Every node is declared; the chain is followed for as many
/// steps as there are nodes.
pub open spec fn dot_text(nodes: Seq<Node<NodeData>>, root: NodeId) -> Seq<char> {
    "digraph {\n  node [shape=record]\n"@ + node_lines(nodes, nodes.len()) + chain_lines(
        nodes,
        root.0 as nat,
        nodes.len(),
    ) + "}\n"@
}

/// Appends the ports of a node with `n` arguments.
fn push_ports(text: &mut String, n: usize)
    ensures
        final(text)@ == old(text)@ + ports(n as nat),
{
    let mut i: usize = 0;
    assert(text@ =~= old(text)@ + ports(0));
    while i < n
        invariant
            i <= n,
            text@ == old(text)@ + ports(i as nat),
        decreases n - i,
    {
        text.append("|<a");
        push_decimal(text, i);
        text.append(">");
        push_decimal(text, i);
        i += 1;
        assert(text@ =~= old(text)@ + ports(i as nat));
    }
}

/// Appends the line that declares `node`, which stands at `index`.
fn push_node_line(text: &mut String, index: usize, node: &Node<NodeData>)
    ensures
        final(text)@ == old(text)@ + node_line(index as nat, *node),
{
    text.append("  id");
    push_decimal(text, index);
    text.append(" [label=\"{{<ch>ch|<dep>dep");
    push_ports(text, node.data.args().len());
    text.append("}|");
    let label = node.data.dot_label();
    text.append(label.as_str());
    text.append("}\"]\n");
    assert(text@ =~= old(text)@ + node_line(index as nat, *node));
}

/// Appends the edges of the arguments `args` of the node at `node`.
fn push_arg_lines(text: &mut String, node: usize, args: &[NodeId])
    ensures
        final(text)@ == old(text)@ + arg_lines(node as nat, args@, args@.len()),
{
    let mut i: usize = 0;
    assert(text@ =~= old(text)@ + arg_lines(node as nat, args@, 0));
    while i < args.len()
        invariant
            i <= args@.len(),
            text@ == old(text)@ + arg_lines(node as nat, args@, i as nat),
        decreases args@.len() - i,
    {
        text.append("  id");
        push_decimal(text, node);
        text.append(":a");
        push_decimal(text, i);
        text.append(" -> id");
        push_decimal(text, args[i].0);
        text.append(":dep [color=blue]\n");
        i += 1;
        assert(text@ =~= old(text)@ + arg_lines(node as nat, args@, i as nat));
    }
}

/// The graph in `data` with the chain from `root`, in the dot language.
pub fn dot(data: &Data, root: NodeId) -> (text: String)
    ensures
        text@ == dot_text(data.node_seq(), root),
{
    let ghost nodes = data.node_seq();
    let n = node_count(&data.nodes);
    let mut text = String::new();
    text.append("digraph {\n  node [shape=record]\n");
    let ghost head = "digraph {\n  node [shape=record]\n"@;
    assert(text@ =~= head + node_lines(nodes, 0));
    let mut i: usize = 0;
    while i < n
        invariant
            i <= n,
            n == nodes.len(),
            nodes == data.node_seq(),
            text@ == head + node_lines(nodes, i as nat),
        decreases n - i,
    {
        push_node_line(&mut text, i, data.node_ref(NodeId(i)));
        i += 1;
        assert(text@ =~= head + node_lines(nodes, i as nat));
    }
    let ghost body = text@ + chain_lines(nodes, root.0 as nat, n as nat);
    let mut from = root.0;
    let mut fuel = n;
    loop
        invariant
            n == nodes.len(),
            nodes == data.node_seq(),
            body == text@ + chain_lines(nodes, from as nat, fuel as nat),
        ensures
            body == text@,
        decreases fuel,
    {
        if fuel == 0 || from >= n {
            break ;
        }
        let next = match data.node_ref(NodeId(from)).chain {
            None => {
                break ;
            },
            Some(next) => next,
        };
        if next.0 >= n {
            break ;
        }
        let ghost before = text@;
        text.append("  id");
        push_decimal(&mut text, from);
        text.append(":ch -> id");
        push_decimal(&mut text, next.0);
        text.append(":ch [color=red]\n");
        push_arg_lines(&mut text, next.0, data.node_ref(next).data.args());
        assert(before + chain_lines(nodes, from as nat, fuel as nat) =~= text@ + chain_lines(
            nodes,
            next.0 as nat,
            (fuel - 1) as nat,
        ));
        from = next.0;
        fuel -= 1;
    }
    text.append("}\n");
    assert(text@ =~= dot_text(nodes, root));
    text
}

} // verus!
