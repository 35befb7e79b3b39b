//! Functions, function DAGs, containers and running tasks.
use vstd::pervasive::unreached;
use vstd::prelude::*;

use crate::graph::{
    graph_add_child, graph_add_edge, graph_add_node, graph_edge_count, graph_edges, graph_new,
    graph_nodes, has_edge,
    is_walk, reaches, FnDagInner, GRAPH_INDEX_LIMIT,
};
use crate::sim_env::{SimEnv, MAX_FNS};

verus! {

pub type FnId = usize;

pub type DagId = usize;

pub type NodeId = usize;

pub type ReqId = usize;

/// Fixed-point units per whole unit of CPU, memory or data (so one unit is 10^-5).
pub const SCALE: u64 = 100_000;

/// Memory a running container takes before any request: 199.0.
pub const CONTAINER_BASIC_MEM: u64 = 199 * SCALE;

/// A compute workload template. Quantities are in fixed-point units of `SCALE`.
#[derive(Clone, Copy, Debug)]
pub struct Func {
    pub fn_id: FnId,
    pub dag_id: DagId,
    pub graph_i: usize,
    /// Compute per request.
    pub cpu: u64,
    /// Mean memory while running.
    pub mem: u64,
    /// Data handed to each downstream function.
    pub out_put_size: u64,
    /// Frames a cold start takes.
    pub cold_start_time: usize,
    pub cold_start_container_mem_use: u64,
    pub cold_start_container_cpu_use: u64,
}

impl Func {
    /// Records the DAG and the graph node that this function was placed at.
    pub fn setup_after_insert_into_dag(&mut self, dag_i: DagId, graph_i: usize)
        ensures
            *final(self) == (Func { dag_id: dag_i, graph_i, ..*old(self) }),
    {
        self.dag_id = dag_i;
        self.graph_i = graph_i;
    }

    /// The functions of the graph nodes that this function's node has edges to.
    pub fn sub_fns(&self, env: &SimEnv) -> (r: Vec<FnId>)
        requires
            self.dag_id < env.dags@.len(),
            self.graph_i < env.dags@[self.dag_id as int].nodes().len(),
            env.dags@[self.dag_id as int].edge_weights_match(env.fns@),
        ensures
            forall|k: int| 0 <= k < r@.len() ==> fn_of_child(env.dags@[self.dag_id as int], self.graph_i, #[trigger] r@[k]),
            r@.len() == crate::graph::out_degree(env.dags@[self.dag_id as int].edges(), self.graph_i),
            forall|j: int|
                0 <= j < env.dags@[self.dag_id as int].edges().len() && (#[trigger] env.dags@[self.dag_id as int].edges()[j]).0
                    == self.graph_i ==> r@.contains(
                    env.dags@[self.dag_id as int].nodes()[env.dags@[self.dag_id as int].edges()[j].1 as int],
                ),
    {
        let dag = &env.dags[self.dag_id];
        proof {
            assert forall|k: int| 0 <= k < dag.edges().len() implies (#[trigger] dag.edges()[k]).0 < dag.nodes().len() && dag.edges()[k].1 < dag.nodes().len() by {}
        }
        let cs = crate::graph::graph_children(&dag.dag_inner, self.graph_i);
        let r = node_fns(dag, &cs, self.graph_i, true);
        proof {
            assert forall|k: int| 0 <= k < r@.len() implies fn_of_child(*dag, self.graph_i, #[trigger] r@[k]) by {
                assert(has_edge(dag.edges(), self.graph_i, cs@[k]));
                assert(r@[k] == dag.nodes()[cs@[k] as int]);
            }
            assert forall|j: int| 0 <= j < dag.edges().len() && (#[trigger] dag.edges()[j]).0 == self.graph_i implies r@.contains(
                dag.nodes()[dag.edges()[j].1 as int],
            ) by {
                let m = choose|m: int| 0 <= m < cs@.len() && cs@[m] == dag.edges()[j].1;
                assert(r@[m] == dag.nodes()[cs@[m] as int]);
            }
        }
        r
    }

    /// The functions of the graph nodes that have edges to this function's node.
    pub fn parent_fns(&self, env: &SimEnv) -> (r: Vec<FnId>)
        requires
            self.dag_id < env.dags@.len(),
            self.graph_i < env.dags@[self.dag_id as int].nodes().len(),
            env.dags@[self.dag_id as int].edge_weights_match(env.fns@),
        ensures
            forall|k: int| 0 <= k < r@.len() ==> fn_of_parent(env.dags@[self.dag_id as int], self.graph_i, #[trigger] r@[k]),
            r@.len() == crate::graph::in_degree(env.dags@[self.dag_id as int].edges(), self.graph_i),
            forall|j: int|
                0 <= j < env.dags@[self.dag_id as int].edges().len() && (#[trigger] env.dags@[self.dag_id as int].edges()[j]).1
                    == self.graph_i ==> r@.contains(
                    env.dags@[self.dag_id as int].nodes()[env.dags@[self.dag_id as int].edges()[j].0 as int],
                ),
    {
        let dag = &env.dags[self.dag_id];
        proof {
            assert forall|k: int| 0 <= k < dag.edges().len() implies (#[trigger] dag.edges()[k]).0 < dag.nodes().len() && dag.edges()[k].1 < dag.nodes().len() by {}
        }
        let ps = crate::graph::graph_parents(&dag.dag_inner, self.graph_i);
        let r = node_fns(dag, &ps, self.graph_i, false);
        proof {
            assert forall|k: int| 0 <= k < r@.len() implies fn_of_parent(*dag, self.graph_i, #[trigger] r@[k]) by {
                assert(has_edge(dag.edges(), ps@[k], self.graph_i));
                assert(r@[k] == dag.nodes()[ps@[k] as int]);
            }
            assert forall|j: int| 0 <= j < dag.edges().len() && (#[trigger] dag.edges()[j]).1 == self.graph_i implies r@.contains(
                dag.nodes()[dag.edges()[j].0 as int],
            ) by {
                let m = choose|m: int| 0 <= m < ps@.len() && ps@[m] == dag.edges()[j].0;
                assert(r@[m] == dag.nodes()[ps@[m] as int]);
            }
        }
        r
    }

    /// Memory given to a container of this function when it starts running.
    pub fn container_mem(&self) -> (r: u64)
        ensures
            r == CONTAINER_BASIC_MEM,
    {
        CONTAINER_BASIC_MEM
    }
}

} // verus!

verus! {

/// Some edge of `edges` ends at `v`.
pub open spec fn has_parent(edges: Seq<(usize, usize, u64)>, v: usize) -> bool {
    exists|k: int| 0 <= k < edges.len() && (#[trigger] edges[k]).1 == v
}

pub proof fn lemma_has_edge_push(edges: Seq<(usize, usize, u64)>, e: (usize, usize, u64), a: usize, b: usize)
    requires
        has_edge(edges, a, b),
    ensures
        has_edge(edges.push(e), a, b),
{
    let k = choose|k: int| 0 <= k < edges.len() && (#[trigger] edges[k]).0 == a && edges[k].1 == b;
    assert(edges.push(e)[k] == edges[k]);
}

/// A vertex with no outgoing edge reaches no other vertex.
pub proof fn lemma_sink_reaches_nothing(edges: Seq<(usize, usize, u64)>, x: usize, y: usize)
    requires
        x != y,
        forall|k: int| 0 <= k < edges.len() ==> (#[trigger] edges[k]).0 != x,
    ensures
        !reaches(edges, x, y),
{
    if reaches(edges, x, y) {
        let p = choose|p: Seq<usize>| is_walk(edges, p) && p[0] == x && p[p.len() - 1] == y;
        assert(p.len() > 1);
        assert(has_edge(edges, p[0], p[1]));
    }
}

/// A function DAG: graph nodes hold function ids, edges hold data volumes.
pub struct FnDAG {
    pub dag_i: DagId,
    pub begin_fn_g_i: usize,
    pub dag_inner: FnDagInner,
}

impl FnDAG {
    pub open spec fn nodes(&self) -> Seq<usize> {
        graph_nodes(self.dag_inner)
    }

    pub open spec fn edges(&self) -> Seq<(usize, usize, u64)> {
        graph_edges(self.dag_inner)
    }

    /// Exactly one node has no incoming edge, and it is the begin node.
    pub open spec fn single_source(&self) -> bool {
        &&& self.begin_fn_g_i < self.nodes().len()
        &&& forall|n: usize|
            n < self.nodes().len() ==> (!has_parent(self.edges(), n) <==> n == self.begin_fn_g_i)
    }

    /// Every edge joins two nodes and carries the output size of its source's function.
    pub open spec fn edge_weights_match(&self, fns: Seq<Func>) -> bool {
        forall|k: int|
            0 <= k < self.edges().len() ==> {
                let e = #[trigger] self.edges()[k];
                &&& e.0 < self.nodes().len()
                &&& e.1 < self.nodes().len()
                &&& self.nodes()[e.0 as int] < fns.len()
                &&& e.2 == fns[self.nodes()[e.0 as int] as int].out_put_size
            }
    }

    /// Node `n` holds function `base + n`, which records this DAG and node `n`.
    pub open spec fn placed_from(&self, fns: Seq<Func>, base: int) -> bool {
        forall|n: int|
            0 <= n < self.nodes().len() ==> {
                &&& #[trigger] self.nodes()[n] == base + n
                &&& base + n < fns.len()
                &&& fns[base + n].dag_id == self.dag_i
                &&& fns[base + n].graph_i == n
            }
    }

    pub fn node_count(&self) -> (r: usize)
        ensures
            r == self.nodes().len(),
    {
        crate::graph::graph_node_count(&self.dag_inner)
    }

    pub fn edge_count(&self) -> (r: usize)
        ensures
            r == self.edges().len(),
    {
        crate::graph::graph_edge_count(&self.dag_inner)
    }

    /// The function at graph node `i`, if there is such a node.
    pub fn node_fn(&self, i: usize) -> (r: Option<FnId>)
        ensures
            i < self.nodes().len() ==> r == Some(self.nodes()[i as int]),
            i >= self.nodes().len() ==> r is None,
    {
        if i < self.node_count() {
            Some(crate::graph::graph_node_weight(&self.dag_inner, i))
        } else {
            None
        }
    }

    /// Whether this DAG holds function `fnid` at the node the function records.
    pub fn contains_fn(&self, env: &SimEnv, fnid: FnId) -> (r: bool)
        requires
            fnid < env.fns@.len(),
        ensures
            r == (env.fns@[fnid as int].graph_i < self.nodes().len()
                && self.nodes()[env.fns@[fnid as int].graph_i as int] == fnid),
    {
        let gi = env.fns[fnid].graph_i;
        match self.node_fn(gi) {
            Some(f) => f == fnid,
            None => false,
        }
    }

    /// The graph nodes in a topological order: each node once, every edge pointing forward.
    pub fn new_dag_walker(&self) -> (r: Vec<usize>)
        ensures
            r@.len() == self.nodes().len(),
            forall|k: int| 0 <= k < r@.len() ==> #[trigger] r@[k] < self.nodes().len(),
            forall|k: int, j: int| 0 <= k < j < r@.len() ==> (#[trigger] r@[k]) != (#[trigger] r@[j]),
            forall|k: int, j: int| 0 <= k < j < r@.len() ==> !has_edge(self.edges(), #[trigger] r@[j], #[trigger] r@[k]),
    {
        crate::graph::graph_topo_order(&self.dag_inner)
    }

    /// The edges as `(source, target, weight)`, in the order they were added.
    pub fn edge_list(&self) -> (r: Vec<(usize, usize, u64)>)
        ensures
            r@ == self.edges(),
    {
        crate::graph::graph_edge_list(&self.dag_inner)
    }

    /// A DAG of the single function `begin_fn`.
    fn new(begin_fn: FnId, dag_i: DagId, env: &mut SimEnv) -> (r: FnDAG)
        requires
            old(env).wf(),
            begin_fn < old(env).fns@.len(),
        ensures
            final(env).wf(),
            final(env).fns@ == old(env).fns@.update(
                begin_fn as int,
                Func { dag_id: dag_i, graph_i: 0, ..old(env).fns@[begin_fn as int] },
            ),
            final(env).dags@ == old(env).dags@,
            final(env).rng == old(env).rng,
            final(env).fntype == old(env).fntype,
            final(env).dag_type == old(env).dag_type,
            r.nodes() == seq![begin_fn],
            r.edges().len() == 0,
            r.begin_fn_g_i == 0,
            r.dag_i == dag_i,
    {
        let mut dag = graph_new();
        let begin = graph_add_node(&mut dag, begin_fn);
        env.func_setup(begin_fn, dag_i, begin);
        assert(final(env).fns@ =~= old(env).fns@.update(
            begin_fn as int,
            Func { dag_id: dag_i, graph_i: 0, ..old(env).fns@[begin_fn as int] },
        ));
        FnDAG { dag_i, begin_fn_g_i: begin, dag_inner: dag }
    }

    /// A DAG of one new random function.
    pub fn instance_single_fn(dag_i: DagId, env: &mut SimEnv) -> (r: FnDAG)
        requires
            old(env).wf(),
            old(env).fns@.len() < MAX_FNS,
        ensures
            final(env).wf(),
            final(env).fns@.len() == old(env).fns@.len() + 1,
            forall|i: int| 0 <= i < old(env).fns@.len() ==> final(env).fns@[i] == old(env).fns@[i],
            crate::sim_env::rand_fn_in_range(final(env).fns@[old(env).fns@.len() as int], old(env).fntype),
            final(env).dags@ == old(env).dags@,
            final(env).fntype == old(env).fntype,
            final(env).dag_type == old(env).dag_type,
            r.dag_i == dag_i,
            r.begin_fn_g_i == 0,
            r.nodes().len() == 1,
            r.edges().len() == 0,
            r.single_source(),
            r.edge_weights_match(final(env).fns@),
            r.placed_from(final(env).fns@, old(env).fns@.len() as int),
    {
        let begin_fn = env.fn_gen_rand_fn();
        let dag = FnDAG::new(begin_fn, dag_i, env);
        dag
    }

    /// A fan-out/fan-in DAG: a begin function, `map_cnt` middle functions that each
    /// get an edge from begin and an edge to the end function, and the end function.
    /// Node 0 is begin, node 1 is end, node `2 + j` is the `j`-th middle function.
    /// With no middle function, begin has a single edge straight to end, so begin is
    /// the only source in every case.
    #[verifier::rlimit(40)]
    pub fn instance_map_reduce(dag_i: DagId, env: &mut SimEnv, map_cnt: usize) -> (r: FnDAG)
        requires
            old(env).wf(),
            old(env).fns@.len() + map_cnt + 2 <= MAX_FNS,
        ensures
            final(env).wf(),
            final(env).fns@.len() == old(env).fns@.len() + map_cnt + 2,
            forall|i: int| 0 <= i < old(env).fns@.len() ==> final(env).fns@[i] == old(env).fns@[i],
            forall|i: int|
                old(env).fns@.len() <= i < final(env).fns@.len() ==> crate::sim_env::rand_fn_in_range(
                    #[trigger] final(env).fns@[i],
                    old(env).fntype,
                ),
            final(env).dags@ == old(env).dags@,
            final(env).fntype == old(env).fntype,
            final(env).dag_type == old(env).dag_type,
            r.dag_i == dag_i,
            r.begin_fn_g_i == 0,
            r.nodes().len() == map_cnt + 2,
            r.edges().len() == if map_cnt == 0 { 1 } else { 2 * map_cnt },
            forall|k: int|
                0 <= k < r.edges().len() ==> {
                    let e = #[trigger] r.edges()[k];
                    (e.0 == 0 && (2 <= e.1 || (map_cnt == 0 && e.1 == 1))) || (2 <= e.0 && e.1 == 1)
                },
            forall|n: usize| 2 <= n < map_cnt + 2 ==> #[trigger] has_edge(r.edges(), 0, n),
            forall|n: usize| 2 <= n < map_cnt + 2 ==> #[trigger] has_edge(r.edges(), n, 1),
            map_cnt == 0 ==> has_edge(r.edges(), 0, 1),
            r.single_source(),
            r.edge_weights_match(final(env).fns@),
            r.placed_from(final(env).fns@, old(env).fns@.len() as int),
    {
        let ghost base = old(env).fns@.len() as int;
        let begin_fn = env.fn_gen_rand_fn();
        let mut dag = FnDAG::new(begin_fn, dag_i, env);
        let end_fn = env.fn_gen_rand_fn();
        let end_g_i = graph_add_node(&mut dag.dag_inner, end_fn);
        env.func_setup(end_fn, dag_i, end_g_i);
        let mut i: usize = 0;
        while i < map_cnt
            invariant
                env.wf(),
                0 <= i <= map_cnt,
                base == old(env).fns@.len(),
                base + map_cnt + 2 <= MAX_FNS,
                env.fns@.len() == base + 2 + i,
                forall|j: int| 0 <= j < base ==> env.fns@[j] == old(env).fns@[j],
                forall|j: int| base <= j < env.fns@.len() ==> crate::sim_env::rand_fn_in_range(
                    #[trigger] env.fns@[j],
                    old(env).fntype,
                ),
                env.dags@ == old(env).dags@,
                env.fntype == old(env).fntype,
                env.dag_type == old(env).dag_type,
                dag.dag_i == dag_i,
                dag.begin_fn_g_i == 0,
                begin_fn == base,
                end_g_i == 1,
                dag.nodes().len() == 2 + i,
                dag.edges().len() == 2 * i,
                forall|k: int|
                    0 <= k < dag.edges().len() ==> {
                        let e = #[trigger] dag.edges()[k];
                        (e.0 == 0 && 2 <= e.1) || (2 <= e.0 && e.1 == 1)
                    },
                forall|n: usize| 2 <= n < i + 2 ==> #[trigger] has_edge(dag.edges(), 0, n),
            forall|n: usize| 2 <= n < i + 2 ==> #[trigger] has_edge(dag.edges(), n, 1),
                dag.edge_weights_match(env.fns@),
                dag.placed_from(env.fns@, base),
            decreases map_cnt - i,
        {
            let ghost n0 = dag.nodes();
            let ghost f0 = env.fns@;
            let next = env.fn_gen_rand_fn();
            let w_begin = env.fns[begin_fn].out_put_size;
            let ghost e0 = dag.edges();
            let next_i = graph_add_child(&mut dag.dag_inner, dag.begin_fn_g_i, w_begin, next);
            env.func_setup(next, dag_i, next_i);
            let w_next = env.fns[next].out_put_size;
            let ghost e1 = dag.edges();
            proof {
                assert(dag.nodes()[next_i as int] == base + next_i);
                assert forall|m: int| 0 <= m < dag.nodes().len() implies {
                    &&& #[trigger] dag.nodes()[m] == base + m
                    &&& base + m < env.fns@.len()
                    &&& env.fns@[base + m].dag_id == dag.dag_i
                    &&& env.fns@[base + m].graph_i == m
                } by {
                    if m < next_i {
                        assert(dag.nodes()[m] == n0[m]);
                        assert(n0[m] == base + m);
                        assert(env.fns@[base + m] == f0[base + m]);
                    }
                }
                assert(dag.placed_from(env.fns@, base));
                assert forall|k: int| 0 <= k < e1.len() implies (#[trigger] e1[k]).0 != 1 by {
                    if k < e0.len() {
                        assert(e1[k] == e0[k]);
                    }
                }
                lemma_sink_reaches_nothing(e1, 1, next_i);
            }
            let ok = graph_add_edge(&mut dag.dag_inner, next_i, end_g_i, w_next);
            assert(ok);
            proof {
                let e2 = dag.edges();
                assert(e2[e0.len() as int] == (0usize, next_i, w_begin));
                assert(e2[e0.len() as int + 1] == (next_i, 1usize, w_next));
                assert forall|n: usize| 2 <= n < i + 3 implies #[trigger] has_edge(e2, 0, n) && has_edge(e2, n, 1) by {
                    if n < i + 2 {
                        lemma_has_edge_push(e0, (0usize, next_i, w_begin), 0, n);
                        lemma_has_edge_push(e0, (0usize, next_i, w_begin), n, 1);
                        lemma_has_edge_push(e1, (next_i, 1usize, w_next), 0, n);
                        lemma_has_edge_push(e1, (next_i, 1usize, w_next), n, 1);
                    } else {
                        assert(e2[e0.len() as int].0 == 0);
                    }
                    assert(has_edge(e2, 0, n));
                    assert(has_edge(e2, n, 1));
                }
                assert forall|n: usize| 2 <= n < i + 3 implies #[trigger] has_edge(e2, n, 1) by {
                    assert(has_edge(e2, 0, n));
                }
                assert forall|k: int| 0 <= k < e2.len() implies {
                    let e = #[trigger] e2[k];
                    &&& e.0 < dag.nodes().len()
                    &&& e.1 < dag.nodes().len()
                    &&& dag.nodes()[e.0 as int] < env.fns@.len()
                    &&& e.2 == env.fns@[dag.nodes()[e.0 as int] as int].out_put_size
                } by {
                    if k < e0.len() {
                        assert(e2[k] == e0[k]);
                    }
                }
            }
            i = i + 1;
        }
        if map_cnt == 0 {
            let w = env.fns[begin_fn].out_put_size;
            proof {
                lemma_sink_reaches_nothing(dag.edges(), 1, 0);
            }
            let ok = graph_add_edge(&mut dag.dag_inner, 0, end_g_i, w);
            assert(ok);
            proof {
                let es = dag.edges();
                assert(es.len() == 1);
                assert(es[0] == (0usize, 1usize, w));
                assert(has_edge(es, 0, 1));
                assert forall|k: int| 0 <= k < es.len() implies {
                    let e = #[trigger] es[k];
                    &&& e.0 < dag.nodes().len()
                    &&& e.1 < dag.nodes().len()
                    &&& dag.nodes()[e.0 as int] < env.fns@.len()
                    &&& e.2 == env.fns@[dag.nodes()[e.0 as int] as int].out_put_size
                } by {
                    assert(dag.nodes()[0] == base);
                }
                assert forall|n: usize| n < dag.nodes().len() implies (!has_parent(es, n) <==> n == dag.begin_fn_g_i) by {
                    if n == 1 {
                        assert(es[0].1 == n);
                    }
                }
            }
        }
        proof {
            let es = dag.edges();
            if map_cnt > 0 {
                assert forall|n: usize| n < dag.nodes().len() implies (!has_parent(es, n) <==> n == dag.begin_fn_g_i) by {
                    if n == 0 {
                        if has_parent(es, 0) {
                            let k = choose|k: int| 0 <= k < es.len() && (#[trigger] es[k]).1 == 0usize;
                        }
                    } else {
                        let m: usize = if n == 1 { 2 } else { n };
                        assert(has_edge(es, 0, m));
                        assert(has_edge(es, m, 1));
                        if n == 1 {
                            let k = choose|k: int| 0 <= k < es.len() && (#[trigger] es[k]).0 == m && es[k].1 == 1usize;
                            assert(es[k].1 == n);
                        } else {
                            let k = choose|k: int| 0 <= k < es.len() && (#[trigger] es[k]).0 == 0usize && es[k].1 == m;
                            assert(es[k].1 == n);
                        }
                    }
                }
            }
        }
        dag
    }

    /// Builds a DAG from a task list: one new random function per task, node `t` for
    /// task `t`, and for each dependency `d` of a task an edge from the node of `d` to
    /// the node of the task (a repeated task id names its last task). The begin node
    /// is that of the first task without dependencies.
    pub fn dag_from_csv(dag_i: DagId, env: &mut SimEnv, tasks: &Vec<DagTask>) -> (r: Result<FnDAG, DagError>)
        requires
            old(env).wf(),
            old(env).fns@.len() + tasks@.len() <= MAX_FNS,
            tasks_checked(tasks@),
        ensures
            final(env).wf(),
            final(env).fns@.len() == old(env).fns@.len() + tasks@.len(),
            forall|i: int| 0 <= i < old(env).fns@.len() ==> final(env).fns@[i] == old(env).fns@[i],
            forall|i: int|
                old(env).fns@.len() <= i < final(env).fns@.len() ==> crate::sim_env::rand_fn_in_range(
                    #[trigger] final(env).fns@[i],
                    old(env).fntype,
                ),
            final(env).dags@ == old(env).dags@,
            final(env).fntype == old(env).fntype,
            final(env).dag_type == old(env).dag_type,
            r matches Err(e) ==> e is WouldCycle || e is TooLarge,
            r matches Err(DagError::WouldCycle(a, b)) ==> tasks_cyclic(tasks@)
                && exists|t: int|
                0 <= t < tasks@.len() && (#[trigger] tasks@[t]).task_id == b && tasks@[t].dependencies@.contains(a),
            r == Err::<FnDAG, DagError>(DagError::TooLarge) ==> dep_count(tasks@) >= GRAPH_INDEX_LIMIT,
            !tasks_cyclic(tasks@) && dep_count(tasks@) < GRAPH_INDEX_LIMIT ==> r is Ok,
            r matches Ok(dag) ==> (unique_ids(tasks@) && one_free(tasks@) ==> dag.single_source()),
            r matches Ok(dag) ==> {
                &&& dag.edges().len() == dep_count(tasks@)
                &&& dag.dag_i == dag_i
                &&& dag.nodes().len() == tasks@.len()
                &&& dag.placed_from(final(env).fns@, old(env).fns@.len() as int)
                &&& dag.edge_weights_match(final(env).fns@)
                &&& dag.begin_fn_g_i < tasks@.len()
                &&& tasks@[dag.begin_fn_g_i as int].task_id == tasks@[first_free_task(tasks@) as int].task_id
                &&& forall|k: int| 0 <= k < dag.edges().len() ==> declared(tasks@, #[trigger] dag.edges()[k])
                &&& forall|t: int, j: int|
                    0 <= t < tasks@.len() && 0 <= j < tasks@[t].dependencies@.len() ==> links(
                        dag.edges(),
                        tasks@,
                        #[trigger] tasks@[t].dependencies@[j],
                        tasks@[t].task_id,
                    )
            },
    {
        let ghost base = old(env).fns@.len() as int;
        let n = tasks.len();
        let mut dag = FnDAG { dag_i, begin_fn_g_i: 0, dag_inner: graph_new() };
        let mut t: usize = 0;
        while t < n
            invariant
                env.wf(),
                0 <= t <= n,
                n == tasks@.len(),
                base == old(env).fns@.len(),
                base + n <= MAX_FNS,
                env.fns@.len() == base + t,
                forall|j: int| 0 <= j < base ==> env.fns@[j] == old(env).fns@[j],
                forall|j: int| base <= j < env.fns@.len() ==> crate::sim_env::rand_fn_in_range(
                    #[trigger] env.fns@[j],
                    old(env).fntype,
                ),
                env.dags@ == old(env).dags@,
                env.fntype == old(env).fntype,
                env.dag_type == old(env).dag_type,
                dag.dag_i == dag_i,
                dag.nodes().len() == t,
                dag.edges().len() == 0,
                dag.placed_from(env.fns@, base),
            decreases n - t,
        {
            let ghost n0 = dag.nodes();
            let ghost f0 = env.fns@;
            let fn_id = env.fn_gen_rand_fn();
            let task_node = graph_add_node(&mut dag.dag_inner, fn_id);
            env.func_setup(fn_id, dag_i, task_node);
            proof {
                assert forall|m: int| 0 <= m < dag.nodes().len() implies {
                    &&& #[trigger] dag.nodes()[m] == base + m
                    &&& base + m < env.fns@.len()
                    &&& env.fns@[base + m].dag_id == dag.dag_i
                    &&& env.fns@[base + m].graph_i == m
                } by {
                    if m < t {
                        assert(dag.nodes()[m] == n0[m]);
                        assert(n0[m] == base + m);
                        assert(env.fns@[base + m] == f0[base + m]);
                    }
                }
                assert(dag.placed_from(env.fns@, base));
            }
            t = t + 1;
        }
        let free = first_free(tasks);
        proof {
            lemma_first_free_task(tasks@);
        }
        assert(free < n);
        match find_task(tasks, tasks[free].task_id) {
            Some(b) => {
                let ghost d0 = dag;
                dag.begin_fn_g_i = b;
                assert(dag.nodes() == d0.nodes());
                assert(dag.placed_from(env.fns@, base));
            },
            None => {
                assert(tasks@[free as int].task_id == tasks[free as int].task_id);
                return unreached();
            },
        }
        assert(tasks@.take(0) =~= Seq::<DagTask>::empty());
        let mut t: usize = 0;
        while t < n
            invariant
                all_dependencies_known(tasks@),
                dag.edges().len() == dep_count(tasks@.take(t as int)),
                env.wf(),
                0 <= t <= n,
                n == tasks@.len(),
                base == old(env).fns@.len(),
                env.fns@.len() == base + n,
                forall|j: int| 0 <= j < base ==> env.fns@[j] == old(env).fns@[j],
                forall|j: int| base <= j < env.fns@.len() ==> crate::sim_env::rand_fn_in_range(
                    #[trigger] env.fns@[j],
                    old(env).fntype,
                ),
                env.dags@ == old(env).dags@,
                env.fntype == old(env).fntype,
                env.dag_type == old(env).dag_type,
                free == first_free_task(tasks@),
                free < n,
                dag.begin_fn_g_i < n,
                tasks@[dag.begin_fn_g_i as int].task_id == tasks@[free as int].task_id,
                dag.dag_i == dag_i,
                dag.nodes().len() == n,
                dag.placed_from(env.fns@, base),
                dag.edge_weights_match(env.fns@),
                forall|k: int| 0 <= k < dag.edges().len() ==> declared(tasks@, #[trigger] dag.edges()[k]),
                forall|t2: int, j: int|
                    0 <= t2 < t && 0 <= j < tasks@[t2].dependencies@.len() ==> links(
                        dag.edges(),
                        tasks@,
                        #[trigger] tasks@[t2].dependencies@[j],
                        tasks@[t2].task_id,
                    ),
            decreases n - t,
        {
            let task = &tasks[t];
            let task_node = match find_task(tasks, task.task_id) {
                Some(k) => k,
                None => {
                    assert(tasks@[t as int].task_id == task.task_id);
                    return unreached();
                },
            };
            let m = task.dependencies.len();
            let mut j: usize = 0;
            while j < m
                invariant
                    env.wf(),
                    0 <= t < n,
                    0 <= j <= m,
                    m == tasks@[t as int].dependencies@.len(),
                    *task == tasks@[t as int],
                    task_node < n,
                    tasks@[task_node as int].task_id == task.task_id,
                    n == tasks@.len(),
                    base == old(env).fns@.len(),
                    env.fns@.len() == base + n,
                    forall|j: int| 0 <= j < base ==> env.fns@[j] == old(env).fns@[j],
                    forall|j: int| base <= j < env.fns@.len() ==> crate::sim_env::rand_fn_in_range(
                        #[trigger] env.fns@[j],
                        old(env).fntype,
                    ),
                    env.dags@ == old(env).dags@,
                    env.fntype == old(env).fntype,
                    env.dag_type == old(env).dag_type,
                    free == first_free_task(tasks@),
                    free < n,
                    dag.begin_fn_g_i < n,
                    tasks@[dag.begin_fn_g_i as int].task_id == tasks@[free as int].task_id,
                    dag.dag_i == dag_i,
                    dag.nodes().len() == n,
                    dag.placed_from(env.fns@, base),
                    dag.edge_weights_match(env.fns@),
                    forall|k: int| 0 <= k < dag.edges().len() ==> declared(tasks@, #[trigger] dag.edges()[k]),
                    forall|t2: int, j2: int|
                        0 <= t2 < t && 0 <= j2 < tasks@[t2].dependencies@.len() ==> links(
                            dag.edges(),
                            tasks@,
                            #[trigger] tasks@[t2].dependencies@[j2],
                            tasks@[t2].task_id,
                        ),
                    forall|j2: int|
                        0 <= j2 < j ==> links(
                            dag.edges(),
                            tasks@,
                            #[trigger] tasks@[t as int].dependencies@[j2],
                            tasks@[t as int].task_id,
                        ),
                    all_dependencies_known(tasks@),
                    dag.edges().len() == dep_count(tasks@.take(t as int)) + j,
                decreases m - j,
            {
                let d = task.dependencies[j];
                let dep_node = match find_task(tasks, d) {
                    Some(k) => k,
                    None => {
                        proof {
                            assert(tasks@[t as int].dependencies@[j as int] == d);
                            assert(tasks@[t as int].dependencies@.contains(d));
                            assert(lists_dependency(tasks@, d));
                        }
                        return unreached();
                    },
                };
                if graph_edge_count(&dag.dag_inner) >= GRAPH_INDEX_LIMIT {
                    proof {
                        lemma_dep_count_prefix(tasks@, t as int + 1, tasks@.len() as int);
                        lemma_dep_count_step(tasks@, t as int);
                        assert(tasks@.take(tasks@.len() as int) =~= tasks@);
                    }
                    return Err(DagError::TooLarge);
                }
                let dep_fn_id = base_fn(&dag, dep_node);
                let w = env.fns[dep_fn_id].out_put_size;
                let ghost e0 = dag.edges();
                if !graph_add_edge(&mut dag.dag_inner, dep_node, task_node, w) {
                    proof {
                        assert(tasks@[t as int].dependencies@[j as int] == d);
                        lemma_walk_declared(tasks@, e0, task_node, dep_node);
                        assert(dep_edge(tasks@, dep_node, task_node));
                    }
                    return Err(DagError::WouldCycle(d, task.task_id));
                }
                proof {
                    let e1 = dag.edges();
                    let ne = (dep_node, task_node, w);
                    assert(e1[e0.len() as int] == ne);
                    assert forall|k: int| 0 <= k < e1.len() implies declared(tasks@, #[trigger] e1[k]) by {
                        if k < e0.len() {
                            assert(e1[k] == e0[k]);
                        } else {
                            assert(tasks@[t as int].dependencies@[j as int] == d);
                        }
                    }
                    assert forall|k: int| 0 <= k < e1.len() implies {
                        let e = #[trigger] e1[k];
                        &&& e.0 < dag.nodes().len()
                        &&& e.1 < dag.nodes().len()
                        &&& dag.nodes()[e.0 as int] < env.fns@.len()
                        &&& e.2 == env.fns@[dag.nodes()[e.0 as int] as int].out_put_size
                    } by {
                        if k < e0.len() {
                            assert(e1[k] == e0[k]);
                        }
                    }
                    assert forall|t2: int, j2: int|
                        0 <= t2 < t && 0 <= j2 < tasks@[t2].dependencies@.len() implies links(
                            e1,
                            tasks@,
                            #[trigger] tasks@[t2].dependencies@[j2],
                            tasks@[t2].task_id,
                        ) by {
                        lemma_links_push(e0, ne, tasks@, tasks@[t2].dependencies@[j2], tasks@[t2].task_id);
                    }
                    assert forall|j2: int| 0 <= j2 < j + 1 implies links(
                        e1,
                        tasks@,
                        #[trigger] tasks@[t as int].dependencies@[j2],
                        tasks@[t as int].task_id,
                    ) by {
                        if j2 < j {
                            lemma_links_push(e0, ne, tasks@, tasks@[t as int].dependencies@[j2], tasks@[t as int].task_id);
                        } else {
                            assert(e1[e0.len() as int] == ne);
                        }
                    }
                }
                j = j + 1;
            }
            proof {
                lemma_dep_count_step(tasks@, t as int);
            }
            t = t + 1;
        }
        assert(tasks@.take(n as int) =~= tasks@);
        proof {
            if unique_ids(tasks@) && one_free(tasks@) {
                lemma_csv_single_source(dag, tasks@);
            }
        }
        Ok(dag)
    }
}

/// The functions at the given neighbours of node `gi`: its children when `down`,
/// its parents otherwise.
fn node_fns(dag: &FnDAG, ns: &Vec<usize>, gi: usize, down: bool) -> (r: Vec<FnId>)
    requires
        edge_ends_in_range(dag.edges(), dag.nodes().len()),
        forall|k: int| 0 <= k < ns@.len() ==> if down {
            has_edge(dag.edges(), gi, #[trigger] ns@[k])
        } else {
            has_edge(dag.edges(), #[trigger] ns@[k], gi)
        },
    ensures
        r@.len() == ns@.len(),
        forall|k: int| 0 <= k < r@.len() ==> ns@[k] < dag.nodes().len() && #[trigger] r@[k] == dag.nodes()[ns@[k] as int],
{
    let mut r: Vec<FnId> = Vec::new();
    let mut i: usize = 0;
    while i < ns.len()
        invariant
            i <= ns@.len(),
            r@.len() == i,
            edge_ends_in_range(dag.edges(), dag.nodes().len()),
            forall|k: int| 0 <= k < ns@.len() ==> if down {
                has_edge(dag.edges(), gi, #[trigger] ns@[k])
            } else {
                has_edge(dag.edges(), #[trigger] ns@[k], gi)
            },
            forall|k: int| 0 <= k < i ==> ns@[k] < dag.nodes().len() && #[trigger] r@[k] == dag.nodes()[ns@[k] as int],
        decreases ns@.len() - i,
    {
        let n = ns[i];
        proof {
            assert(if down { has_edge(dag.edges(), gi, ns@[i as int]) } else { has_edge(dag.edges(), ns@[i as int], gi) });
            if down {
                let e = choose|e: int| 0 <= e < dag.edges().len() && (#[trigger] dag.edges()[e]).0 == gi && dag.edges()[e].1 == n;
                assert(dag.edges()[e].1 < dag.nodes().len());
            } else {
                let e = choose|e: int| 0 <= e < dag.edges().len() && (#[trigger] dag.edges()[e]).0 == n && dag.edges()[e].1 == gi;
                assert(dag.edges()[e].0 < dag.nodes().len());
            }
        }
        r.push(base_fn(dag, n));
        i = i + 1;
    }
    r
}

/// `f` is the function of a node that graph node `gi` has an edge to.
pub open spec fn fn_of_child(dag: FnDAG, gi: usize, f: FnId) -> bool {
    exists|c: usize| has_edge(dag.edges(), gi, c) && c < dag.nodes().len() && #[trigger] dag.nodes()[c as int] == f
}

/// `f` is the function of a node that has an edge to graph node `gi`.
pub open spec fn fn_of_parent(dag: FnDAG, gi: usize, f: FnId) -> bool {
    exists|p: usize| has_edge(dag.edges(), p, gi) && p < dag.nodes().len() && #[trigger] dag.nodes()[p as int] == f
}

/// Every edge joins two of the first `n` nodes.
pub open spec fn edge_ends_in_range(edges: Seq<(usize, usize, u64)>, n: nat) -> bool {
    forall|k: int| 0 <= k < edges.len() ==> (#[trigger] edges[k]).0 < n && edges[k].1 < n
}

/// The function at node `i` of a DAG whose node `n` holds function `base + n`.
fn base_fn(dag: &FnDAG, i: usize) -> (r: FnId)
    requires
        i < dag.nodes().len(),
    ensures
        r == dag.nodes()[i as int],
{
    crate::graph::graph_node_weight(&dag.dag_inner, i)
}

/// One record of a DAG task list.
pub struct DagTask {
    pub task_id: usize,
    pub dependencies: Vec<usize>,
}

/// Why a task list does not give a DAG.
#[derive(Clone, Copy, Debug, PartialEq, Eq, Structural)]
pub enum DagError {
    /// Every task has a dependency.
    NoBeginTask,
    /// A task depends on this id, which no task has.
    UnknownDependency(usize),
    /// The dependency of the second task on the first closes a cycle.
    WouldCycle(usize, usize),
    /// The graph would reach the largest size its indices allow.
    TooLarge,
}

pub open spec fn has_task(tasks: Seq<DagTask>, id: usize) -> bool {
    exists|t: int| 0 <= t < tasks.len() && (#[trigger] tasks[t]).task_id == id
}

pub open spec fn lists_dependency(tasks: Seq<DagTask>, d: usize) -> bool {
    exists|t: int| 0 <= t < tasks.len() && (#[trigger] tasks[t]).dependencies@.contains(d)
}

pub open spec fn all_dependencies_known(tasks: Seq<DagTask>) -> bool {
    forall|d: usize| lists_dependency(tasks, d) ==> has_task(tasks, d)
}

/// The position of the first task without dependencies, or the length if there is none.
pub open spec fn first_free_task(tasks: Seq<DagTask>) -> int
    decreases tasks.len(),
{
    if tasks.len() == 0 {
        0
    } else if tasks[0].dependencies@.len() == 0 {
        0
    } else {
        1 + first_free_task(tasks.drop_first())
    }
}

pub proof fn lemma_first_free_task(tasks: Seq<DagTask>)
    ensures
        0 <= first_free_task(tasks) <= tasks.len(),
        first_free_task(tasks) < tasks.len() ==> tasks[first_free_task(tasks)].dependencies@.len() == 0,
        forall|j: int| 0 <= j < first_free_task(tasks) ==> (#[trigger] tasks[j]).dependencies@.len() > 0,
    decreases tasks.len(),
{
    if tasks.len() > 0 && tasks[0].dependencies@.len() > 0 {
        let rest = tasks.drop_first();
        lemma_first_free_task(rest);
        assert forall|j: int| 0 <= j < first_free_task(tasks) implies (#[trigger] tasks[j]).dependencies@.len() > 0 by {
            if j > 0 {
                assert(tasks[j] == rest[j - 1]);
            }
        }
    }
}

/// Edge `e` joins two tasks, and the target task depends on the source task's id.
pub open spec fn declared(tasks: Seq<DagTask>, e: (usize, usize, u64)) -> bool {
    dep_edge(tasks, e.0, e.1)
}

/// Task `v` (or a task with its id) depends on the id of task `u`.
pub open spec fn dep_edge(tasks: Seq<DagTask>, u: usize, v: usize) -> bool {
    &&& u < tasks.len()
    &&& v < tasks.len()
    &&& exists|t: int|
        0 <= t < tasks.len() && (#[trigger] tasks[t]).task_id == tasks[v as int].task_id
            && tasks[t].dependencies@.contains(tasks[u as int].task_id)
}

/// `p` is a walk of tasks, each step from a task to one that depends on it.
pub open spec fn dep_walk(tasks: Seq<DagTask>, p: Seq<usize>) -> bool {
    &&& p.len() >= 1
    &&& forall|i: int| 0 <= i < p.len() - 1 ==> dep_edge(tasks, #[trigger] p[i], p[i + 1])
}

pub open spec fn dep_reaches(tasks: Seq<DagTask>, x: usize, y: usize) -> bool {
    exists|p: Seq<usize>| dep_walk(tasks, p) && p[0] == x && p[p.len() - 1] == y
}

/// The dependencies close a cycle: some task's dependency is reachable from it.
pub open spec fn tasks_cyclic(tasks: Seq<DagTask>) -> bool {
    exists|a: usize, b: usize| #[trigger] dep_edge(tasks, a, b) && dep_reaches(tasks, b, a)
}

/// How many dependencies the tasks list in all.
pub open spec fn dep_count(tasks: Seq<DagTask>) -> int
    decreases tasks.len(),
{
    if tasks.len() == 0 {
        0
    } else {
        dep_count(tasks.drop_last()) + tasks.last().dependencies@.len()
    }
}

pub proof fn lemma_dep_count_step(tasks: Seq<DagTask>, t: int)
    requires
        0 <= t < tasks.len(),
    ensures
        dep_count(tasks.take(t + 1)) == dep_count(tasks.take(t)) + tasks[t].dependencies@.len(),
{
    assert(tasks.take(t + 1).drop_last() =~= tasks.take(t));
}

pub proof fn lemma_dep_count_prefix(tasks: Seq<DagTask>, a: int, b: int)
    requires
        0 <= a <= b <= tasks.len(),
    ensures
        dep_count(tasks.take(a)) <= dep_count(tasks.take(b)),
    decreases b - a,
{
    if a < b {
        lemma_dep_count_step(tasks, b - 1);
        lemma_dep_count_prefix(tasks, a, b - 1);
    }
}

/// A walk along edges that are all declared dependencies is a walk of dependencies.
pub proof fn lemma_walk_declared(tasks: Seq<DagTask>, edges: Seq<(usize, usize, u64)>, x: usize, y: usize)
    requires
        reaches(edges, x, y),
        forall|k: int| 0 <= k < edges.len() ==> declared(tasks, #[trigger] edges[k]),
    ensures
        dep_reaches(tasks, x, y),
{
    let p = choose|p: Seq<usize>| is_walk(edges, p) && p[0] == x && p[p.len() - 1] == y;
    assert forall|i: int| 0 <= i < p.len() - 1 implies dep_edge(tasks, #[trigger] p[i], p[i + 1]) by {
        assert(has_edge(edges, p[i], p[i + 1]));
        let k = choose|k: int| 0 <= k < edges.len() && (#[trigger] edges[k]).0 == p[i] && edges[k].1 == p[i + 1];
        assert(declared(tasks, edges[k]));
    }
    assert(dep_walk(tasks, p));
}

/// No two tasks share an id.
pub open spec fn unique_ids(tasks: Seq<DagTask>) -> bool {
    forall|a: int, b: int| 0 <= a < b < tasks.len() ==> (#[trigger] tasks[a]).task_id != (#[trigger] tasks[b]).task_id
}

/// Exactly one task has no dependency.
pub open spec fn one_free(tasks: Seq<DagTask>) -> bool {
    forall|t: int| 0 <= t < tasks.len() && t != first_free_task(tasks) ==> (#[trigger] tasks[t]).dependencies@.len() > 0
}

/// A DAG built from a checked list of uniquely named tasks, one of them free, has the
/// begin node as its only source.
pub proof fn lemma_csv_single_source(dag: FnDAG, tasks: Seq<DagTask>)
    requires
        tasks_checked(tasks),
        unique_ids(tasks),
        one_free(tasks),
        dag.nodes().len() == tasks.len(),
        dag.begin_fn_g_i < tasks.len(),
        tasks[dag.begin_fn_g_i as int].task_id == tasks[first_free_task(tasks)].task_id,
        forall|k: int| 0 <= k < dag.edges().len() ==> declared(tasks, #[trigger] dag.edges()[k]),
        forall|t: int, j: int|
            0 <= t < tasks.len() && 0 <= j < tasks[t].dependencies@.len() ==> links(
                dag.edges(),
                tasks,
                #[trigger] tasks[t].dependencies@[j],
                tasks[t].task_id,
            ),
    ensures
        dag.single_source(),
{
    lemma_first_free_task(tasks);
    let f = first_free_task(tasks);
    let b = dag.begin_fn_g_i as int;
    if b != f {
        assert(tasks[b].task_id != tasks[f].task_id || b == f) by {
            if b < f {
                assert(tasks[b].task_id != tasks[f].task_id);
            } else if f < b {
                assert(tasks[f].task_id != tasks[b].task_id);
            }
        }
    }
    assert(b == f);
    assert forall|n: usize| n < dag.nodes().len() implies (!has_parent(dag.edges(), n) <==> n == dag.begin_fn_g_i) by {
        if n as int == b {
            if has_parent(dag.edges(), n) {
                let k = choose|k: int| 0 <= k < dag.edges().len() && (#[trigger] dag.edges()[k]).1 == n;
                assert(declared(tasks, dag.edges()[k]));
                let t = choose|t: int|
                    0 <= t < tasks.len() && (#[trigger] tasks[t]).task_id == tasks[n as int].task_id
                        && tasks[t].dependencies@.contains(tasks[dag.edges()[k].0 as int].task_id);
                if t < n as int {
                    assert(tasks[t].task_id != tasks[n as int].task_id);
                } else if n < t {
                    assert(tasks[n as int].task_id != tasks[t].task_id);
                }
                assert(t == n as int);
            }
        } else {
            assert(tasks[n as int].dependencies@.len() > 0);
            let d = tasks[n as int].dependencies@[0];
            assert(links(dag.edges(), tasks, tasks[n as int].dependencies@[0], tasks[n as int].task_id));
            let k = choose|k: int|
                0 <= k < dag.edges().len() && (#[trigger] dag.edges()[k]).0 < tasks.len() && dag.edges()[k].1 < tasks.len()
                    && tasks[dag.edges()[k].0 as int].task_id == d && tasks[dag.edges()[k].1 as int].task_id
                    == tasks[n as int].task_id;
            let m = dag.edges()[k].1 as int;
            if m < n as int {
                assert(tasks[m].task_id != tasks[n as int].task_id);
            } else if n < m {
                assert(tasks[n as int].task_id != tasks[m].task_id);
            }
            assert(dag.edges()[k].1 == n);
        }
    }
}

/// A task list that a DAG can be built from: some task has no dependency, and every
/// dependency is the id of a task.
pub open spec fn tasks_checked(tasks: Seq<DagTask>) -> bool {
    first_free_task(tasks) < tasks.len() && all_dependencies_known(tasks)
}

/// Checks a task list before a DAG is built from it: `NoBeginTask` where no task is free
/// of dependencies, else `UnknownDependency` naming the first unknown dependency.
pub fn check_tasks(tasks: &Vec<DagTask>) -> (r: Result<(), DagError>)
    ensures
        r is Ok <==> tasks_checked(tasks@),
        (r == Err::<(), DagError>(DagError::NoBeginTask)) <==> first_free_task(tasks@) == tasks@.len(),
        r matches Err(DagError::UnknownDependency(d)) ==> first_free_task(tasks@) < tasks@.len()
            && lists_dependency(tasks@, d) && !has_task(tasks@, d),
        r matches Err(e) ==> e is NoBeginTask || e is UnknownDependency,
{
    proof {
        lemma_first_free_task(tasks@);
    }
    if first_free(tasks) == tasks.len() {
        return Err(DagError::NoBeginTask);
    }
    match first_unknown(tasks) {
        Some(d) => Err(DagError::UnknownDependency(d)),
        None => Ok(()),
    }
}

/// The first dependency, in list order, that no task has.
fn first_unknown(tasks: &Vec<DagTask>) -> (r: Option<usize>)
    ensures
        r matches Some(d) ==> lists_dependency(tasks@, d) && !has_task(tasks@, d),
        r is None ==> all_dependencies_known(tasks@),
{
    let mut t: usize = 0;
    while t < tasks.len()
        invariant
            t <= tasks@.len(),
            forall|t2: int, j: int|
                0 <= t2 < t && 0 <= j < tasks@[t2].dependencies@.len() ==> has_task(
                    tasks@,
                    #[trigger] tasks@[t2].dependencies@[j],
                ),
        decreases tasks@.len() - t,
    {
        let m = tasks[t].dependencies.len();
        let mut j: usize = 0;
        while j < m
            invariant
                t < tasks@.len(),
                j <= m,
                m == tasks@[t as int].dependencies@.len(),
                forall|t2: int, j2: int|
                    0 <= t2 < t && 0 <= j2 < tasks@[t2].dependencies@.len() ==> has_task(
                        tasks@,
                        #[trigger] tasks@[t2].dependencies@[j2],
                    ),
                forall|j2: int| 0 <= j2 < j ==> has_task(tasks@, #[trigger] tasks@[t as int].dependencies@[j2]),
            decreases m - j,
        {
            let d = tasks[t].dependencies[j];
            if find_task(tasks, d).is_none() {
                proof {
                    assert(tasks@[t as int].dependencies@[j as int] == d);
                    assert(tasks@[t as int].dependencies@.contains(d));
                }
                return Some(d);
            }
            j = j + 1;
        }
        t = t + 1;
    }
    proof {
        assert forall|d: usize| lists_dependency(tasks@, d) implies has_task(tasks@, d) by {
            let t2 = choose|t2: int| 0 <= t2 < tasks@.len() && (#[trigger] tasks@[t2]).dependencies@.contains(d);
            let j2 = choose|j2: int| 0 <= j2 < tasks@[t2].dependencies@.len() && tasks@[t2].dependencies@[j2] == d;
            assert(has_task(tasks@, tasks@[t2].dependencies@[j2]));
        }
    }
    None
}

/// Some edge goes from a task with id `d` to a task with id `id`.
pub open spec fn links(edges: Seq<(usize, usize, u64)>, tasks: Seq<DagTask>, d: usize, id: usize) -> bool {
    exists|k: int|
        0 <= k < edges.len() && (#[trigger] edges[k]).0 < tasks.len() && edges[k].1 < tasks.len()
            && tasks[edges[k].0 as int].task_id == d && tasks[edges[k].1 as int].task_id == id
}

pub proof fn lemma_links_push(
    edges: Seq<(usize, usize, u64)>,
    e: (usize, usize, u64),
    tasks: Seq<DagTask>,
    d: usize,
    id: usize,
)
    requires
        links(edges, tasks, d, id),
    ensures
        links(edges.push(e), tasks, d, id),
{
    let k = choose|k: int|
        0 <= k < edges.len() && (#[trigger] edges[k]).0 < tasks.len() && edges[k].1 < tasks.len()
            && tasks[edges[k].0 as int].task_id == d && tasks[edges[k].1 as int].task_id == id;
    assert(edges.push(e)[k] == edges[k]);
}

/// The position of the last task with id `id`.
fn find_task(tasks: &Vec<DagTask>, id: usize) -> (r: Option<usize>)
    ensures
        r matches Some(k) ==> k < tasks@.len() && tasks@[k as int].task_id == id,
        r is None ==> !has_task(tasks@, id),
{
    let mut i: usize = tasks.len();
    while i > 0
        invariant
            i <= tasks@.len(),
            forall|j: int| i <= j < tasks@.len() ==> (#[trigger] tasks@[j]).task_id != id,
        decreases i,
    {
        i = i - 1;
        if tasks[i].task_id == id {
            return Some(i);
        }
    }
    None
}

/// The position of the first task without dependencies, or the length if there is none.
fn first_free(tasks: &Vec<DagTask>) -> (r: usize)
    ensures
        r == first_free_task(tasks@),
{
    let mut i: usize = 0;
    assert(tasks@.skip(0) =~= tasks@);
    while i < tasks.len()
        invariant
            i <= tasks@.len(),
            first_free_task(tasks@) == i + first_free_task(tasks@.skip(i as int)),
        decreases tasks@.len() - i,
    {
        assert(tasks@.skip(i as int).drop_first() =~= tasks@.skip(i as int + 1));
        if tasks[i].dependencies.len() == 0 {
            return i;
        }
        i = i + 1;
    }
    i
}

} // verus!
