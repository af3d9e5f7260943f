//! The remote page.

use vstd::prelude::*;

verus! {

/// What the page counts of a node.
#[derive(Clone, Copy, Debug, PartialEq, Eq, Structural)]
pub struct NodeState {
    pub online: bool,
    pub paired: bool,
}

/// The numbers in the banner of the page.
#[derive(Clone, Copy, Debug, PartialEq, Eq, Structural)]
pub struct RemoteCounts {
    pub nodes: usize,
    pub online: usize,
    pub paired: usize,
    pub pending: usize,
}

/// The nodes that can be reached.
pub open spec fn online_nodes(nodes: Seq<NodeState>) -> Seq<NodeState> {
    nodes.filter(|n: NodeState| n.online)
}

/// The nodes that were paired.
pub open spec fn paired_nodes(nodes: Seq<NodeState>) -> Seq<NodeState> {
    nodes.filter(|n: NodeState| n.paired)
}

/// Counts the nodes, with as many requests to pair waiting.
pub fn count_nodes(nodes: &[NodeState], pending: usize) -> (r: RemoteCounts)
    ensures
        r.nodes == nodes@.len(),
        r.online == online_nodes(nodes@).len(),
        r.paired == paired_nodes(nodes@).len(),
        r.pending == pending,
{
    let n: usize = nodes.len();
    let mut online: usize = 0;
    let mut paired: usize = 0;
    let mut i: usize = 0;
    proof {
        assert(nodes@.take(0) =~= Seq::empty());
        reveal_with_fuel(Seq::filter, 1);
    }
    while i < n
        invariant
            n == nodes@.len(),
            i <= n,
            online <= i,
            paired <= i,
            online == online_nodes(nodes@.take(i as int)).len(),
            paired == paired_nodes(nodes@.take(i as int)).len(),
        decreases n - i,
    {
        proof {
            reveal(Seq::filter);
            assert(nodes@.take(i + 1).drop_last() =~= nodes@.take(i as int));
            assert(nodes@.take(i + 1).last() == nodes@[i as int]);
        }
        if nodes[i].online {
            online += 1;
        }
        if nodes[i].paired {
            paired += 1;
        }
        i += 1;
    }
    proof {
        assert(nodes@.take(n as int) =~= nodes@);
    }
    RemoteCounts { nodes: n, online, paired, pending }
}

/// No more nodes are online, or paired, than there are.
pub proof fn law_counts_are_bounded(nodes: Seq<NodeState>)
    ensures
        online_nodes(nodes).len() <= nodes.len(),
        paired_nodes(nodes).len() <= nodes.len(),
{
    nodes.lemma_filter_len(|n: NodeState| n.online);
    nodes.lemma_filter_len(|n: NodeState| n.paired);
}

/// One more node is one more node; it counts as online exactly where it is, and as paired exactly where it
/// is. Nothing else is counted but the waiting requests.
pub proof fn law_every_node_counts_once(
    nodes: &[NodeState],
    more: &[NodeState],
    node: NodeState,
    pending: usize,
    a: RemoteCounts,
    b: RemoteCounts,
)
    requires
        more@ == nodes@.push(node),
        call_ensures(count_nodes, (nodes, pending), a),
        call_ensures(count_nodes, (more, pending), b),
    ensures
        nodes@.len() == 0 ==> a.nodes == 0 && a.online == 0 && a.paired == 0,
        b.nodes == a.nodes + 1,
        b.online - a.online == if node.online {
            1int
        } else {
            0int
        },
        b.paired - a.paired == if node.paired {
            1int
        } else {
            0int
        },
        a.pending == pending,
{
    reveal(Seq::filter);
    assert(more@.drop_last() =~= nodes@);
}

} // verus!
