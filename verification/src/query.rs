//! The query tree: nodes with a name, leaf values and child nodes.

use vstd::prelude::*;

verus! {

/// One node of a parsed query tree.
///
/// `entries` holds the node's leaf values in their literal, written form
/// (a string value keeps its enclosing quotation marks).
#[derive(Debug, PartialEq, Eq)]
pub struct QueryNode {
    pub name: String,
    pub entries: Vec<String>,
    pub children: Vec<QueryNode>,
}

/// The number of nodes in a forest, descendants included.
pub open spec fn forest_size(nodes: Seq<QueryNode>) -> nat
    decreases nodes,
{
    if nodes.len() == 0 {
        0
    } else {
        forest_size(nodes.drop_last()) + 1 + forest_size(nodes.last().children@)
    }
}

/// The written form of a node's first leaf value, if it has one.
pub open spec fn first_entry(node: QueryNode) -> Option<Seq<char>> {
    if node.entries@.len() == 0 {
        None
    } else {
        Some(node.entries@[0]@)
    }
}

/// The nodes of a forest's first `i` trees are no more than all its nodes;
/// one tree more adds that tree's root and its descendants.
pub proof fn lemma_forest_size_take(nodes: Seq<QueryNode>, i: int)
    requires
        0 <= i <= nodes.len(),
    ensures
        forest_size(nodes.take(i)) <= forest_size(nodes),
        i < nodes.len() ==> forest_size(nodes.take(i + 1)) == forest_size(nodes.take(i)) + 1
            + forest_size(nodes[i].children@),
    decreases nodes.len(),
{
    if i < nodes.len() {
        assert(nodes.take(i + 1).drop_last() =~= nodes.take(i));
        assert(nodes.take(i + 1).last() == nodes[i]);
        assert(nodes.drop_last().take(i) =~= nodes.take(i));
        lemma_forest_size_take(nodes.drop_last(), i);
    } else {
        assert(nodes.take(i) =~= nodes);
    }
}

/// Counts the nodes of a forest, descendants included, as far as the count
/// fits the machine's integers.
pub fn count_nodes(nodes: &Vec<QueryNode>) -> (count: Option<u64>)
    ensures
        match count {
            Some(n) => n == forest_size(nodes@),
            None => forest_size(nodes@) > u64::MAX,
        },
    decreases nodes,
{
    let mut total: u64 = 0;
    let mut i: usize = 0;
    proof {
        assert(nodes@.take(0) =~= Seq::<QueryNode>::empty());
    }
    while i < nodes.len()
        invariant
            i <= nodes.len(),
            total == forest_size(nodes@.take(i as int)),
        decreases nodes.len() - i,
    {
        proof {
            lemma_forest_size_take(nodes@, i as int);
            lemma_forest_size_take(nodes@, i as int + 1);
        }
        let below: u64 = match count_nodes(&nodes[i].children) {
            Some(n) => n,
            None => {
                return None;
            },
        };
        if total == u64::MAX || below > u64::MAX - total - 1 {
            return None;
        }
        total = total + 1 + below;
        i += 1;
    }
    proof {
        assert(nodes@.take(nodes@.len() as int) =~= nodes@);
    }
    Some(total)
}

} // verus!
