//! Copying the edges of the control-flow graph to the blocks of a
//! dependency graph, under the renaming of the blocks.

use crate::fx::{map_get, set_insert, set_items};
use crate::ir::function::basic_block::BasicBlockId;
use rustc_hash::{FxHashMap, FxHashSet};
use vstd::prelude::*;

verus! {

/// The renaming `map` is defined on all of `set`.
pub open spec fn covers(map: Map<usize, BasicBlockId>, set: Set<usize>) -> bool {
    forall|p: usize| set.contains(p) ==> #[trigger] map.contains_key(p)
}

/// The blocks that `set` names after the renaming `map`.
pub open spec fn image(map: Map<usize, BasicBlockId>, set: Set<usize>) -> Set<usize> {
    Set::new(
        |t: usize| exists|p: usize| set.contains(p) && map.contains_key(p) && (#[trigger] map[p]).0 == t,
    )
}

/// The new names of `items`, in the same order; `None` when one of them has
/// no new name.
pub fn renamed(items: &Vec<usize>, map: &FxHashMap<usize, BasicBlockId>) -> (result: Option<
    Vec<usize>,
>)
    ensures
        match result {
            Some(names) => {
                &&& names@.len() == items@.len()
                &&& forall|j: int|
                    0 <= j < items@.len() ==> map@.contains_key(#[trigger] items@[j]) && names@[j]
                        == map@[items@[j]].0
            },
            None => exists|j: int| 0 <= j < items@.len() && !map@.contains_key(#[trigger] items@[j]),
        },
{
    let mut names: Vec<usize> = Vec::new();
    let mut j: usize = 0;
    while j < items.len()
        invariant
            0 <= j <= items@.len(),
            names@.len() == j,
            forall|k: int|
                0 <= k < j ==> map@.contains_key(#[trigger] items@[k]) && names@[k]
                    == map@[items@[k]].0,
        decreases items@.len() - j,
    {
        match map_get(map, items[j]) {
            Some(name) => {
                names.push(name.0);
            },
            None => {
                assert(!map@.contains_key(items@[j as int]));
                return None;
            },
        }
        j = j + 1;
    }
    Some(names)
}

/// Inserts every element of `names` into `set`.
pub fn insert_all(set: &mut FxHashSet<usize>, names: &Vec<usize>)
    ensures
        forall|t: usize|
            final(set)@.contains(t) <==> (old(set)@.contains(t) || names@.contains(t)),
{
    let mut j: usize = 0;
    while j < names.len()
        invariant
            0 <= j <= names@.len(),
            forall|t: usize|
                set@.contains(t) <==> (old(set)@.contains(t) || exists|k: int|
                    0 <= k < j && names@[k] == t),
        decreases names@.len() - j,
    {
        let ghost before = set@;
        set_insert(set, names[j]);
        assert forall|t: usize|
            set@.contains(t) <==> (old(set)@.contains(t) || exists|k: int|
                0 <= k < j + 1 && names@[k] == t) by {
            if t == names@[j as int] {
                assert(0 <= j < j + 1 && names@[j as int] == t);
            }
            if before.contains(t) && !old(set)@.contains(t) {
                let k = choose|k: int| 0 <= k < j && names@[k] == t;
                assert(0 <= k < j + 1 && names@[k] == t);
            }
        }
        j = j + 1;
    }
}

/// Copies the edges in `from` into `into` under the renaming `map`.
/// Returns whether the renaming is defined on all of them; where it is not,
/// `into` is unchanged.
pub fn copy_edges(
    from: &FxHashSet<usize>,
    into: &mut FxHashSet<usize>,
    map: &FxHashMap<usize, BasicBlockId>,
) -> (done: bool)
    ensures
        done == covers(map@, from@),
        done ==> forall|t: usize|
            final(into)@.contains(t) <==> (old(into)@.contains(t) || image(map@, from@).contains(t)),
        !done ==> final(into)@ == old(into)@,
{
    let items = set_items(from);
    match renamed(&items, map) {
        None => {
            proof {
                let j = choose|j: int| 0 <= j < items@.len() && !map@.contains_key(items@[j]);
                assert(items@.to_set().contains(items@[j]));
            }
            false
        },
        Some(names) => {
            insert_all(into, &names);
            proof {
                assert forall|p: usize| from@.contains(p) implies #[trigger] map@.contains_key(
                    p,
                ) by {
                    assert(items@.to_set().contains(p));
                    let j = choose|j: int| 0 <= j < items@.len() && items@[j] == p;
                    assert(map@.contains_key(items@[j]));
                }
                assert forall|t: usize| names@.contains(t) <==> image(map@, from@).contains(t) by {
                    if names@.contains(t) {
                        let j = choose|j: int| 0 <= j < names@.len() && names@[j] == t;
                        assert(map@.contains_key(items@[j]));
                        assert(items@.to_set().contains(items@[j]));
                        assert(from@.contains(items@[j]) && map@[items@[j]].0 == t);
                    }
                    if image(map@, from@).contains(t) {
                        let p = choose|p: usize|
                            from@.contains(p) && map@.contains_key(p) && (#[trigger] map@[p]).0
                                == t;
                        assert(items@.to_set().contains(p));
                        let j = choose|j: int| 0 <= j < items@.len() && items@[j] == p;
                        assert(map@.contains_key(items@[j]));
                        assert(names@[j] == t);
                    }
                }
                assert forall|t: usize|
                    into@.contains(t) <==> (old(into)@.contains(t) || image(
                        map@,
                        from@,
                    ).contains(t)) by {
                    assert(names@.contains(t) <==> image(map@, from@).contains(t));
                }
            }
            true
        },
    }
}

} // verus!
