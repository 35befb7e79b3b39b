//! The least-task scale-up executor: new containers go to the nodes with the fewest
//! tasks.
use vstd::prelude::*;

use crate::fn_dag::{FnId, NodeId};
use crate::mechanism::UpCmd;

verus! {

/// What the executor reads of a node.
#[derive(Clone, Copy, Debug, PartialEq, Eq, Structural)]
pub struct NodeLoad {
    pub node_id: NodeId,
    /// Active tasks on the node, over all functions.
    pub task_cnt: usize,
    /// The node already hosts a container of the function being scaled.
    pub has_fn: bool,
}

/// `a` comes no later than `b`: fewer tasks, then the lower node id.
pub open spec fn load_le(a: NodeLoad, b: NodeLoad) -> bool {
    a.task_cnt < b.task_cnt || (a.task_cnt == b.task_cnt && a.node_id <= b.node_id)
}

/// Every node without the function is among `picks`.
pub open spec fn all_free_picked(nodes: Seq<NodeLoad>, picks: Seq<usize>) -> bool {
    forall|j: int| 0 <= j < nodes.len() && !(#[trigger] nodes[j]).has_fn ==> picks.contains(j as usize)
}

/// The picks are distinct nodes without the function, each the least loaded of the
/// nodes without the function not picked before it.
pub open spec fn greedy_picks(nodes: Seq<NodeLoad>, picks: Seq<usize>) -> bool {
    &&& forall|k: int| 0 <= k < picks.len() ==> (#[trigger] picks[k]) < nodes.len() && !nodes[picks[k] as int].has_fn
    &&& forall|k: int, j: int| 0 <= k < j < picks.len() ==> (#[trigger] picks[k]) != (#[trigger] picks[j])
    &&& forall|k: int, j: int|
        0 <= k < picks.len() && 0 <= j < nodes.len() && !nodes[j].has_fn && !picks.take(k).contains(j as usize)
            ==> load_le(nodes[#[trigger] picks[k] as int], #[trigger] nodes[j])
}

/// The least loaded node without the function that is not yet picked, if any.
fn least_free(nodes: &Vec<NodeLoad>, picked: &Vec<bool>) -> (r: Option<usize>)
    requires
        picked@.len() == nodes@.len(),
    ensures
        r matches Some(b) ==> b < nodes@.len() && !nodes@[b as int].has_fn && !picked@[b as int]
            && forall|j: int| 0 <= j < nodes@.len() && !nodes@[j].has_fn && !picked@[j] ==> load_le(
                nodes@[b as int],
                #[trigger] nodes@[j],
            ),
        r is None ==> forall|j: int| 0 <= j < nodes@.len() && !(#[trigger] nodes@[j]).has_fn ==> picked@[j],
{
    let mut best: Option<usize> = None;
    let mut i: usize = 0;
    while i < nodes.len()
        invariant
            i <= nodes@.len(),
            picked@.len() == nodes@.len(),
            best matches Some(b) ==> b < i && !nodes@[b as int].has_fn && !picked@[b as int]
                && forall|j: int| 0 <= j < i && !nodes@[j].has_fn && !picked@[j] ==> load_le(
                    nodes@[b as int],
                    #[trigger] nodes@[j],
                ),
            best is None ==> forall|j: int| 0 <= j < i && !(#[trigger] nodes@[j]).has_fn ==> picked@[j],
        decreases nodes@.len() - i,
    {
        if !nodes[i].has_fn && !picked[i] {
            match best {
                None => {
                    best = Some(i);
                },
                Some(b) => {
                    let nb = nodes[b];
                    let ni = nodes[i];
                    if ni.task_cnt < nb.task_cnt || (ni.task_cnt == nb.task_cnt && ni.node_id < nb.node_id) {
                        best = Some(i);
                    }
                },
            }
        }
        i = i + 1;
    }
    best
}

/// Picks up to `need` nodes for new containers, one at a time, each the least loaded
/// of the nodes that neither host the function nor were picked already.
pub fn least_task_pick(nodes: &Vec<NodeLoad>, need: usize) -> (r: Vec<usize>)
    ensures
        r@.len() <= need,
        greedy_picks(nodes@, r@),
        r@.len() < need ==> all_free_picked(nodes@, r@),
{
    let mut picks: Vec<usize> = Vec::new();
    let mut picked: Vec<bool> = Vec::new();
    let mut i: usize = 0;
    while i < nodes.len()
        invariant
            i <= nodes@.len(),
            picked@.len() == i,
            forall|j: int| 0 <= j < i ==> !(#[trigger] picked@[j]),
        decreases nodes@.len() - i,
    {
        picked.push(false);
        i = i + 1;
    }
    let nlen = nodes.len();
    let mut round: usize = 0;
    while round < need
        invariant
            nlen == nodes@.len(),
            round <= need,
            picked@.len() == nodes@.len(),
            greedy_picks(nodes@, picks@),
            forall|j: int| 0 <= j < nodes@.len() ==> (#[trigger] picked@[j] <==> picks@.contains(j as usize)),
            picks@.len() == round || (round == need && all_free_picked(nodes@, picks@)),
            picks@.len() <= round,
        decreases need - round,
    {
        match least_free(nodes, &picked) {
            Some(b) => {
                let ghost p0 = picks@;
                let ghost pk0 = picked@;
                picks.push(b);
                picked.set(b, true);
                proof {
                    assert(!p0.contains(b));
                    assert(picks@.take(p0.len() as int) =~= p0);
                    assert forall|j: int| 0 <= j < nodes@.len() && j != b as int implies
                        (#[trigger] picks@.contains(j as usize) <==> p0.contains(j as usize)) by {
                        if p0.contains(j as usize) {
                            let k = choose|k: int| 0 <= k < p0.len() && p0[k] == j as usize;
                            assert(picks@[k] == p0[k]);
                        }
                        if picks@.contains(j as usize) {
                            let k = choose|k: int| 0 <= k < picks@.len() && picks@[k] == j as usize;
                            assert(picks@[p0.len() as int] == b);
                            assert(j as usize as int == j);
                            if k == p0.len() {
                                assert(b == j as usize);
                            }
                            assert(k < p0.len());
                            assert(p0[k] == j as usize);
                        }
                    }
                    assert forall|k: int, j: int|
                        0 <= k < picks@.len() && 0 <= j < nodes@.len() && !nodes@[j].has_fn && !picks@.take(k).contains(j as usize)
                            implies load_le(nodes@[#[trigger] picks@[k] as int], #[trigger] nodes@[j]) by {
                        if k < p0.len() {
                            assert(picks@.take(k) =~= p0.take(k));
                            assert(picks@[k] == p0[k]);
                        } else {
                            assert(picks@.take(k) =~= p0);
                            assert(!pk0[j]);
                        }
                    }
                    assert forall|j: int| 0 <= j < nodes@.len() implies (#[trigger] picked@[j] <==> picks@.contains(j as usize)) by {
                        if j == b as int {
                            assert(picks@[p0.len() as int] == b);
                        }
                    }
                    assert forall|k: int, j: int| 0 <= k < j < picks@.len() implies (#[trigger] picks@[k]) != (#[trigger] picks@[j]) by {
                        if j == p0.len() {
                            assert(picks@[k] == p0[k]);
                        } else {
                            assert(picks@[k] == p0[k]);
                            assert(picks@[j] == p0[j]);
                        }
                    }
                    assert forall|k: int| 0 <= k < picks@.len() implies (#[trigger] picks@[k]) < nodes@.len() && !nodes@[picks@[k] as int].has_fn by {
                        if k < p0.len() {
                            assert(picks@[k] == p0[k]);
                        }
                    }
                }
                round = round + 1;
            },
            None => {
                proof {
                    assert forall|j: int| 0 <= j < nodes@.len() && !(#[trigger] nodes@[j]).has_fn implies picks@.contains(j as usize) by {
                        assert(picked@[j]);
                    }
                }
                round = need;
            },
        }
    }
    picks
}

/// The least-task executor's commands to bring `fnid` up to `target_cnt` containers.
pub fn exec_scale_up(target_cnt: usize, fnid: FnId, nodes: &Vec<NodeLoad>) -> (r: Vec<UpCmd>)
    ensures
        exists|picks: Seq<usize>|
            #[trigger] greedy_picks(nodes@, picks) && picks.len() == r@.len() && (forall|k: int|
                0 <= k < r@.len() ==> r@[k] == (UpCmd { nid: nodes@[picks[k] as int].node_id, fnid }))
                && picks.len() <= need_for(nodes@, target_cnt)
                && (picks.len() < need_for(nodes@, target_cnt) ==> all_free_picked(nodes@, picks)),
{
    let mut cur: usize = 0;
    let mut i: usize = 0;
    while i < nodes.len()
        invariant
            i <= nodes@.len(),
            cur == hosting(nodes@.take(i as int)),
            cur <= i,
        decreases nodes@.len() - i,
    {
        assert(nodes@.take(i as int + 1).drop_last() =~= nodes@.take(i as int));
        if nodes[i].has_fn {
            cur = cur + 1;
        }
        i = i + 1;
    }
    assert(nodes@.take(nodes@.len() as int) =~= nodes@);
    let need = if target_cnt > cur { target_cnt - cur } else { 0 };
    let picks = least_task_pick(nodes, need);
    let mut cmds: Vec<UpCmd> = Vec::new();
    let mut k: usize = 0;
    while k < picks.len()
        invariant
            k <= picks@.len(),
            cmds@.len() == k,
            greedy_picks(nodes@, picks@),
            forall|m: int| 0 <= m < k ==> cmds@[m] == (UpCmd { nid: nodes@[picks@[m] as int].node_id, fnid }),
        decreases picks@.len() - k,
    {
        let n = nodes[picks[k]].node_id;
        cmds.push(UpCmd { nid: n, fnid });
        k = k + 1;
    }
    assert(greedy_picks(nodes@, picks@));
    cmds
}

/// How many nodes host the function.
pub open spec fn hosting(nodes: Seq<NodeLoad>) -> nat
    decreases nodes.len(),
{
    if nodes.len() == 0 {
        0
    } else {
        hosting(nodes.drop_last()) + if nodes.last().has_fn { 1nat } else { 0nat }
    }
}

/// New containers needed to reach `target`.
pub open spec fn need_for(nodes: Seq<NodeLoad>, target: usize) -> int {
    if target > hosting(nodes) {
        target - hosting(nodes)
    } else {
        0
    }
}

} // verus!
