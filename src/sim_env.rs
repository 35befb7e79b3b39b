//! The entity store: every function and DAG of a run, and the run's random source.
use vstd::prelude::*;

use crate::fn_dag::{DagError, DagId, DagTask, FnDAG, FnId, Func, NodeId, ReqId, SCALE};
use crate::container::RunningTask;
use crate::graph::{graph_node_weight, has_edge};
use crate::rand::{draw_in, lcg_next, SimRng};
use std::collections::{HashMap, HashSet};

verus! {

/// Which output sizes the random functions get.
#[derive(Clone, Copy, Debug, PartialEq, Eq, Structural)]
pub enum FnType {
    /// Compute-bound: output size drawn from `[0.1, 20.0]`.
    Cpu,
    /// Data-bound: output size drawn from `[30.0, 100.0]`.
    Data,
}

/// Which DAGs a run builds.
#[derive(Clone, Copy, Debug, PartialEq, Eq, Structural)]
pub enum DagType {
    /// 100 single-function DAGs.
    Single,
    /// 33 DAGs read from the task list.
    Dag,
    /// 20 single-function DAGs followed by 30 DAGs read from the task list.
    Mix,
}

/// The attributes that a random function is drawn within, in fixed-point units.
pub open spec fn rand_fn_in_range(f: Func, fntype: FnType) -> bool {
    &&& 10 * SCALE <= f.cpu <= 100 * SCALE
    &&& 100 * SCALE <= f.mem <= 1000 * SCALE
    &&& fntype == FnType::Cpu ==> SCALE / 10 <= f.out_put_size <= 20 * SCALE
    &&& fntype == FnType::Data ==> 30 * SCALE <= f.out_put_size <= 100 * SCALE
    &&& 50 <= f.cold_start_time <= 100
    &&& f.cold_start_container_mem_use == 100 * SCALE
    &&& SCALE / 10 <= f.cold_start_container_cpu_use <= SCALE
}

/// The function with id `id` that the generator draws from state `s0`: CPU, output
/// size, memory, cold-start CPU and cold-start time, in that order.
#[verifier::opaque]
pub open spec fn rand_fn_spec(id: usize, s0: u64, t: FnType) -> Func {
    let s1 = lcg_next(s0);
    let s2 = lcg_next(s1);
    let s3 = lcg_next(s2);
    let s4 = lcg_next(s3);
    let s5 = lcg_next(s4);
    Func {
        fn_id: id,
        dag_id: 0,
        graph_i: 0,
        cpu: draw_in(s1, (10 * SCALE) as u64, (100 * SCALE) as u64),
        out_put_size: match t {
            FnType::Cpu => draw_in(s2, (SCALE / 10) as u64, (20 * SCALE) as u64),
            FnType::Data => draw_in(s2, (30 * SCALE) as u64, (100 * SCALE) as u64),
        },
        mem: draw_in(s3, (100 * SCALE) as u64, (1000 * SCALE) as u64),
        cold_start_container_cpu_use: draw_in(s4, (SCALE / 10) as u64, SCALE),
        cold_start_time: draw_in(s5, 50, 100) as usize,
        cold_start_container_mem_use: (100 * SCALE) as u64,
    }
}

/// The generator state after drawing one function from `s0`.
pub open spec fn rng_after_fn(s0: u64) -> u64 {
    lcg_next(lcg_next(lcg_next(lcg_next(lcg_next(s0)))))
}

/// The most functions a run may hold.
pub const MAX_FNS: usize = 0x1000_0000;

pub struct SimEnv {
    pub fns: Vec<Func>,
    pub dags: Vec<FnDAG>,
    pub rng: SimRng,
    pub fntype: FnType,
    pub dag_type: DagType,
    /// The frame the run is at.
    pub frame: usize,
}

impl SimEnv {
    /// Ids are dense: the function at position `i` has id `i`.
    pub open spec fn wf(&self) -> bool {
        &&& self.fns@.len() <= MAX_FNS
        &&& forall|i: int| 0 <= i < self.fns@.len() ==> (#[trigger] self.fns@[i]).fn_id == i
    }

    pub fn new(seed: u64, fntype: FnType, dag_type: DagType) -> (r: SimEnv)
        ensures
            r.wf(),
            r.fns@.len() == 0,
            r.dags@.len() == 0,
            r.rng.state == seed,
            r.fntype == fntype,
            r.dag_type == dag_type,
            r.frame == 0,
    {
        SimEnv { fns: Vec::new(), dags: Vec::new(), rng: SimRng::new(seed), fntype, dag_type, frame: 0 }
    }

    pub fn current_frame(&self) -> (r: usize)
        ensures
            r == self.frame,
    {
        self.frame
    }

    /// Creates a function with random attributes, outside any DAG, and returns its id.
    pub fn fn_gen_rand_fn(&mut self) -> (id: FnId)
        requires
            old(self).wf(),
            old(self).fns@.len() < MAX_FNS,
        ensures
            final(self).wf(),
            id == old(self).fns@.len(),
            final(self).fns@.len() == old(self).fns@.len() + 1,
            forall|i: int| 0 <= i < id ==> final(self).fns@[i] == old(self).fns@[i],
            final(self).fns@[id as int].dag_id == 0,
            final(self).fns@[id as int].graph_i == 0,
            rand_fn_in_range(final(self).fns@[id as int], old(self).fntype),
            final(self).fns@[id as int] == rand_fn_spec(id, old(self).rng.state, old(self).fntype),
            final(self).rng.state == rng_after_fn(old(self).rng.state),
            final(self).dags@ == old(self).dags@,
            final(self).fntype == old(self).fntype,
            final(self).dag_type == old(self).dag_type,
    {
        reveal(rand_fn_spec);
        let id = self.fns.len();
        let (cpu, out_put_size) = match self.fntype {
            FnType::Cpu => {
                let c = self.rng.rand_i(10 * SCALE, 100 * SCALE);
                let o = self.rng.rand_i(SCALE / 10, 20 * SCALE);
                (c, o)
            },
            FnType::Data => {
                let c = self.rng.rand_i(10 * SCALE, 100 * SCALE);
                let o = self.rng.rand_i(30 * SCALE, 100 * SCALE);
                (c, o)
            },
        };
        let mem = self.rng.rand_i(100 * SCALE, 1000 * SCALE);
        let cold_start_container_cpu_use = self.rng.rand_i(SCALE / 10, SCALE);
        let cold_start_time = self.rng.rand_i(50, 100) as usize;
        self.fns.push(
            Func {
                fn_id: id,
                dag_id: 0,
                graph_i: 0,
                cpu,
                mem,
                out_put_size,
                cold_start_time,
                cold_start_container_mem_use: 100 * SCALE,
                cold_start_container_cpu_use,
            },
        );
        id
    }

    /// Records that function `fnid` stands at node `graph_i` of DAG `dag_i`.
    pub fn func_setup(&mut self, fnid: FnId, dag_i: DagId, graph_i: usize)
        requires
            old(self).wf(),
            fnid < old(self).fns@.len(),
        ensures
            final(self).wf(),
            final(self).fns@.len() == old(self).fns@.len(),
            final(self).fns@[fnid as int] == (Func { dag_id: dag_i, graph_i, ..old(self).fns@[fnid as int] }),
            forall|i: int| 0 <= i < old(self).fns@.len() && i != fnid ==> final(self).fns@[i] == old(self).fns@[i],
            final(self).dags@ == old(self).dags@,
            final(self).rng == old(self).rng,
            final(self).fntype == old(self).fntype,
            final(self).dag_type == old(self).dag_type,
    {
        let mut f = self.fns[fnid];
        f.setup_after_insert_into_dag(dag_i, graph_i);
        self.fns.set(fnid, f);
    }

    /// Every DAG of the store records its own position.
    pub open spec fn dags_indexed(&self) -> bool {
        forall|k: int| 0 <= k < self.dags@.len() ==> (#[trigger] self.dags@[k]).dag_i == k
    }

    /// Builds and stores `apptype.app_cnt` DAGs of the application's shape.
    pub fn gen_dags_for_apptype(&mut self, apptype: &AppConfig)
        requires
            old(self).wf(),
            old(self).dags_indexed(),
            old(self).fns@.len() + 7 * apptype.app_cnt <= MAX_FNS,
        ensures
            final(self).wf(),
            final(self).dags_indexed(),
            final(self).dags@.len() == old(self).dags@.len() + if apptype.dag_type == AppDagType::Chain {
                0
            } else {
                apptype.app_cnt as int
            },
            forall|k: int| 0 <= k < old(self).dags@.len() ==> final(self).dags@[k] == old(self).dags@[k],
            forall|k: int| 0 <= k < old(self).fns@.len() ==> final(self).fns@[k] == old(self).fns@[k],
            forall|k: int|
                old(self).dags@.len() <= k < final(self).dags@.len() ==> app_shape(#[trigger] final(self).dags@[k], apptype.dag_type),
    {
        let mut i: usize = 0;
        while i < apptype.app_cnt
            invariant
                self.wf(),
                self.dags_indexed(),
                i <= apptype.app_cnt,
                self.fns@.len() + 7 * (apptype.app_cnt - i) <= MAX_FNS,
                self.dags@.len() == old(self).dags@.len() + if apptype.dag_type == AppDagType::Chain {
                    0
                } else {
                    i as int
                },
                forall|k: int| 0 <= k < old(self).dags@.len() ==> self.dags@[k] == old(self).dags@[k],
                forall|k: int| 0 <= k < old(self).fns@.len() ==> self.fns@[k] == old(self).fns@[k],
                old(self).fns@.len() <= self.fns@.len(),
                forall|k: int|
                    old(self).dags@.len() <= k < self.dags@.len() ==> app_shape(#[trigger] self.dags@[k], apptype.dag_type),
            decreases apptype.app_cnt - i,
        {
            match apptype.dag_type {
                AppDagType::Single => {
                    let dag_i = self.dags.len();
                    let dag = FnDAG::instance_single_fn(dag_i, self);
                    self.dags.push(dag);
                },
                AppDagType::Chain => {},
                AppDagType::Branch => {
                    let mapcnt = self.rng.rand_i(2, 5) as usize;
                    let dag_i = self.dags.len();
                    let dag = FnDAG::instance_map_reduce(dag_i, self, mapcnt);
                    self.dags.push(dag);
                },
            }
            i = i + 1;
        }
    }

    /// Builds the run's DAGs as `dag_type` says, reading shaped DAGs from `tasks`.
    /// `Single` makes 100 single-function DAGs; `Dag` makes 33 DAGs from the task list;
    /// `Mix` makes 20 single-function DAGs and then 30 from the task list.
    pub fn fn_gen_fn_dags(&mut self, tasks: &Vec<DagTask>) -> (r: Result<(), DagError>)
        requires
            old(self).wf(),
            old(self).dags_indexed(),
            old(self).fns@.len() + 100 * (tasks@.len() + 1) <= MAX_FNS,
            old(self).dag_type != DagType::Single ==> crate::fn_dag::tasks_checked(tasks@),
        ensures
            final(self).wf(),
            final(self).dags_indexed(),
            forall|k: int| 0 <= k < old(self).dags@.len() ==> final(self).dags@[k] == old(self).dags@[k],
            forall|k: int| 0 <= k < old(self).fns@.len() ==> final(self).fns@[k] == old(self).fns@[k],
            old(self).dag_type == DagType::Single ==> r is Ok,
            r is Ok ==> final(self).dags@.len() == old(self).dags@.len() + dag_count(old(self).dag_type),
            r is Ok ==> forall|k: int|
                old(self).dags@.len() <= k < final(self).dags@.len() ==> built_dag(
                    #[trigger] final(self).dags@[k],
                    old(self).dag_type == DagType::Single || (old(self).dag_type == DagType::Mix && k
                        < old(self).dags@.len() + 20),
                    tasks@,
                ),
            old(self).dag_type != DagType::Single && csv_valid(tasks@) ==> r is Ok,
            final(self).fntype == old(self).fntype,
            final(self).dag_type == old(self).dag_type,
            forall|j: int|
                old(self).fns@.len() <= j < final(self).fns@.len() ==> rand_fn_in_range(
                    #[trigger] final(self).fns@[j],
                    old(self).fntype,
                ),
            r is Err ==> old(self).dag_type != DagType::Single && !csv_valid(tasks@),
    {
        match self.dag_type {
            DagType::Dag => {
                let mut i: usize = 0;
                while i < 33
                    invariant
                        self.wf(),
                        self.dags_indexed(),
                        i <= 33,
                        self.dag_type == old(self).dag_type,
                        self.fntype == old(self).fntype,
                        old(self).dag_type != DagType::Single ==> crate::fn_dag::tasks_checked(tasks@),
                        forall|j: int|
                            old(self).fns@.len() <= j < self.fns@.len() ==> rand_fn_in_range(
                                #[trigger] self.fns@[j],
                                old(self).fntype,
                            ),
                        old(self).dag_type == DagType::Dag,
                        self.fns@.len() + (33 - i) * tasks@.len() <= MAX_FNS,
                        self.dags@.len() == old(self).dags@.len() + i,
                        forall|k: int| 0 <= k < old(self).dags@.len() ==> self.dags@[k] == old(self).dags@[k],
                        forall|k: int| 0 <= k < old(self).fns@.len() ==> self.fns@[k] == old(self).fns@[k],
                        old(self).fns@.len() <= self.fns@.len(),
                        forall|k: int|
                            old(self).dags@.len() <= k < self.dags@.len() ==> built_dag(#[trigger] self.dags@[k], false, tasks@),
                    decreases 33 - i,
                {
                    let _mapcnt = self.rng.rand_i(2, 5);
                    let dag_i = self.dags.len();
                    proof {
                        let l = tasks@.len() as int;
                        let j = i as int;
                        assert((33 - j) * l == l + (32 - j) * l) by (nonlinear_arith);
                        assert((32 - j) * l >= 0) by (nonlinear_arith)
                            requires j < 33, l >= 0;
                    }
                    let dag = FnDAG::dag_from_csv(dag_i, self, tasks)?;
                    self.dags.push(dag);
                    i = i + 1;
                }
            },
            DagType::Single => {
                let mut i: usize = 0;
                while i < 100
                    invariant
                        self.wf(),
                        self.dags_indexed(),
                        i <= 100,
                        self.dag_type == old(self).dag_type,
                        self.fntype == old(self).fntype,
                        old(self).dag_type != DagType::Single ==> crate::fn_dag::tasks_checked(tasks@),
                        forall|j: int|
                            old(self).fns@.len() <= j < self.fns@.len() ==> rand_fn_in_range(
                                #[trigger] self.fns@[j],
                                old(self).fntype,
                            ),
                        self.fns@.len() + (100 - i) <= MAX_FNS,
                        self.dags@.len() == old(self).dags@.len() + i,
                        forall|k: int| 0 <= k < old(self).dags@.len() ==> self.dags@[k] == old(self).dags@[k],
                        forall|k: int| 0 <= k < old(self).fns@.len() ==> self.fns@[k] == old(self).fns@[k],
                        old(self).fns@.len() <= self.fns@.len(),
                        forall|k: int|
                            old(self).dags@.len() <= k < self.dags@.len() ==> built_dag(#[trigger] self.dags@[k], true, tasks@),
                    decreases 100 - i,
                {
                    let dag_i = self.dags.len();
                    let dag = FnDAG::instance_single_fn(dag_i, self);
                    self.dags.push(dag);
                    i = i + 1;
                }
            },
            DagType::Mix => {
                let mut i: usize = 0;
                while i < 50
                    invariant
                        self.wf(),
                        self.dags_indexed(),
                        i <= 50,
                        self.dag_type == old(self).dag_type,
                        self.fntype == old(self).fntype,
                        old(self).dag_type != DagType::Single ==> crate::fn_dag::tasks_checked(tasks@),
                        forall|j: int|
                            old(self).fns@.len() <= j < self.fns@.len() ==> rand_fn_in_range(
                                #[trigger] self.fns@[j],
                                old(self).fntype,
                            ),
                        old(self).dag_type == DagType::Mix,
                        self.fns@.len() + (50 - i) * (tasks@.len() + 1) <= MAX_FNS,
                        self.dags@.len() == old(self).dags@.len() + i,
                        forall|k: int| 0 <= k < old(self).dags@.len() ==> self.dags@[k] == old(self).dags@[k],
                        forall|k: int| 0 <= k < old(self).fns@.len() ==> self.fns@[k] == old(self).fns@[k],
                        old(self).fns@.len() <= self.fns@.len(),
                        forall|k: int|
                            old(self).dags@.len() <= k < self.dags@.len() ==> built_dag(#[trigger] self.dags@[k], k < old(self).dags@.len() + 20, tasks@),
                    decreases 50 - i,
                {
                    let dag_i = self.dags.len();
                    proof {
                        let l = tasks@.len() as int + 1;
                        let j = i as int;
                        assert((50 - j) * l == l + (49 - j) * l) by (nonlinear_arith);
                        assert((49 - j) * l >= 0) by (nonlinear_arith)
                            requires j < 50, l >= 0;
                    }
                    if i >= 20 {
                        let _mapcnt = self.rng.rand_i(2, 5);
                        let dag = FnDAG::dag_from_csv(dag_i, self, tasks)?;
                        self.dags.push(dag);
                    } else {
                        let dag = FnDAG::instance_single_fn(dag_i, self);
                        self.dags.push(dag);
                    }
                    i = i + 1;
                }
            },
        }
        Ok(())
    }
}

/// A checked task list that gives a DAG: no cycle, and fewer dependencies than the
/// graph can index.
pub open spec fn csv_valid(tasks: Seq<DagTask>) -> bool {
    &&& !crate::fn_dag::tasks_cyclic(tasks)
    &&& crate::fn_dag::dep_count(tasks) < crate::graph::GRAPH_INDEX_LIMIT
}

/// A single-function DAG (one node, no edge, its only node the source), or a DAG of the
/// task list (a node per task, an edge per dependency, the first free task as begin).
pub open spec fn built_dag(d: FnDAG, single: bool, tasks: Seq<DagTask>) -> bool {
    &&& single ==> d.nodes().len() == 1 && d.edges().len() == 0 && d.single_source()
    &&& !single ==> d.nodes().len() == tasks.len() && d.edges().len() == crate::fn_dag::dep_count(tasks)
        && d.begin_fn_g_i < tasks.len() && tasks[d.begin_fn_g_i as int].task_id == tasks[crate::fn_dag::first_free_task(
        tasks,
    ) as int].task_id
}

/// How many DAGs `fn_gen_fn_dags` builds for a DAG type.
pub open spec fn dag_count(t: DagType) -> int {
    match t {
        DagType::Single => 100,
        DagType::Dag => 33,
        DagType::Mix => 50,
    }
}

/// A single DAG has one node; a branch DAG has a begin, an end and two to five
/// middle nodes, with an edge from begin to each middle node and from each to end.
pub open spec fn app_shape(d: FnDAG, t: AppDagType) -> bool {
    &&& t == AppDagType::Single ==> d.nodes().len() == 1 && d.single_source()
    &&& t == AppDagType::Branch ==> 4 <= d.nodes().len() <= 7 && d.edges().len() == 2 * (d.nodes().len() - 2)
        && d.single_source()
}

/// The shape of an application's DAGs.
#[derive(Clone, Copy, Debug, PartialEq, Eq, Structural)]
pub enum AppDagType {
    Single,
    Chain,
    Branch,
}

/// An application kind: how many DAGs of which shape.
pub struct AppConfig {
    pub app_cnt: usize,
    pub dag_type: AppDagType,
}

/// A live execution of one DAG.
pub struct Request {
    pub req_id: ReqId,
    pub dag_i: DagId,
    /// Where each function of the request has been placed.
    pub fn_node: HashMap<FnId, NodeId>,
    /// The functions whose task has finished computing.
    pub done_fns: HashSet<FnId>,
    pub begin_frame: usize,
}

impl Request {
    pub fn get_fn_node(&self, fnid: FnId) -> (r: Option<NodeId>)
        ensures
            self.fn_node@.contains_key(fnid) ==> r == Some(self.fn_node@[fnid]),
            !self.fn_node@.contains_key(fnid) ==> r is None,
    {
        match self.fn_node.get(&fnid) {
            Some(n) => Some(*n),
            None => None,
        }
    }

    /// Records the task of `fnid` for this request: a task whose compute is done marks
    /// the function complete; any other task changes nothing.
    pub fn record_task(&mut self, fnid: FnId, task: &RunningTask)
        ensures
            task.left_calc <= 0 ==> final(self).done_fns@ == old(self).done_fns@.insert(fnid),
            task.left_calc > 0 ==> final(self).done_fns@ == old(self).done_fns@,
            final(self).req_id == old(self).req_id,
            final(self).dag_i == old(self).dag_i,
            final(self).fn_node@ == old(self).fn_node@,
            final(self).begin_frame == old(self).begin_frame,
    {
        if task.compute_done() {
            self.done_fns.insert(fnid);
        }
    }

    /// The request can retire: every function of its DAG has finished computing.
    pub fn is_done(&self, dag: &FnDAG) -> (r: bool)
        ensures
            r == forall|n: int| 0 <= n < dag.nodes().len() ==> self.done_fns@.contains(#[trigger] dag.nodes()[n]),
    {
        let cnt = crate::graph::graph_node_count(&dag.dag_inner);
        let mut i: usize = 0;
        while i < cnt
            invariant
                cnt == dag.nodes().len(),
                i <= cnt,
                forall|n: int| 0 <= n < i ==> self.done_fns@.contains(#[trigger] dag.nodes()[n]),
            decreases cnt - i,
        {
            let f = graph_node_weight(&dag.dag_inner, i);
            if !self.done_fns.contains(&f) {
                return false;
            }
            i = i + 1;
        }
        true
    }
}

/// Some entry of `need` is for `node`.
pub open spec fn covered(need: Seq<(NodeId, u64, u64)>, node: NodeId) -> bool {
    exists|k: int| 0 <= k < need.len() && (#[trigger] need[k]).0 == node
}

/// The position of the entry for `node`, if there is one.
fn find_node(need: &Vec<(NodeId, u64, u64)>, node: NodeId) -> (r: Option<usize>)
    ensures
        r matches Some(j) ==> j < need@.len() && need@[j as int].0 == node,
        r is None ==> forall|k: int| 0 <= k < need@.len() ==> (#[trigger] need@[k]).0 != node,
{
    let mut j: usize = 0;
    while j < need.len()
        invariant
            j <= need@.len(),
            forall|k: int| 0 <= k < j ==> (#[trigger] need@[k]).0 != node,
        decreases need@.len() - j,
    {
        if need[j].0 == node {
            return Some(j);
        }
        j = j + 1;
    }
    None
}

/// Node `node` hosts, for the request placed by `fn_node`, a parent of graph node `gi`.
pub open spec fn parent_on(dag: FnDAG, fn_node: Map<FnId, NodeId>, gi: usize, node: NodeId) -> bool {
    exists|p: usize|
        has_edge(dag.edges(), p, gi) && p < dag.nodes().len() && fn_node.contains_key(#[trigger] dag.nodes()[p as int])
            && fn_node[dag.nodes()[p as int]] == node
}

/// What the edge `e` into graph node `gi` adds to the data node `x` is to send: the
/// output size of its source function when that function is placed on `x`.
pub open spec fn edge_share(e: (usize, usize, u64), nodes: Seq<usize>, fns: Seq<Func>, fn_node: Map<FnId, NodeId>, gi: usize, x: NodeId) -> int {
    if e.1 == gi && e.0 < nodes.len() && fn_node.contains_key(nodes[e.0 as int]) && fn_node[nodes[e.0 as int]] == x
        && nodes[e.0 as int] < fns.len() {
        fns[nodes[e.0 as int] as int].out_put_size as int
    } else {
        0
    }
}

/// The output sizes of the parents of graph node `gi` placed on node `x`, one term per edge.
pub open spec fn placed_sum(edges: Seq<(usize, usize, u64)>, nodes: Seq<usize>, fns: Seq<Func>, fn_node: Map<FnId, NodeId>, gi: usize, x: NodeId) -> int
    decreases edges.len(),
{
    if edges.len() == 0 {
        0
    } else {
        placed_sum(edges.drop_last(), nodes, fns, fn_node, gi, x) + edge_share(edges.last(), nodes, fns, fn_node, gi, x)
    }
}

/// `v` capped at the largest `u64`.
pub open spec fn saturate(v: int) -> int {
    if v > u64::MAX {
        u64::MAX as int
    } else {
        v
    }
}

proof fn lemma_placed_sum_step(edges: Seq<(usize, usize, u64)>, nodes: Seq<usize>, fns: Seq<Func>, fn_node: Map<FnId, NodeId>, gi: usize, i: int)
    requires
        0 <= i < edges.len(),
    ensures
        forall|x: NodeId| #[trigger] placed_sum(edges.take(i + 1), nodes, fns, fn_node, gi, x) == placed_sum(
            edges.take(i),
            nodes,
            fns,
            fn_node,
            gi,
            x,
        ) + edge_share(edges[i], nodes, fns, fn_node, gi, x),
        forall|x: NodeId| 0 <= #[trigger] placed_sum(edges.take(i), nodes, fns, fn_node, gi, x),
{
    assert(edges.take(i + 1).drop_last() =~= edges.take(i));
    assert forall|x: NodeId| 0 <= #[trigger] placed_sum(edges.take(i), nodes, fns, fn_node, gi, x) by {
        lemma_placed_sum_nonneg(edges.take(i), nodes, fns, fn_node, gi, x);
    }
}

proof fn lemma_placed_sum_nonneg(edges: Seq<(usize, usize, u64)>, nodes: Seq<usize>, fns: Seq<Func>, fn_node: Map<FnId, NodeId>, gi: usize, x: NodeId)
    ensures
        0 <= placed_sum(edges, nodes, fns, fn_node, gi, x),
    decreases edges.len(),
{
    if edges.len() > 0 {
        lemma_placed_sum_nonneg(edges.drop_last(), nodes, fns, fn_node, gi, x);
    }
}

impl SimEnv {
    /// A fresh task of function `fnid` for `req`: all of the function's compute is
    /// left, and each node that hosts a parent function is to send the output of the
    /// parents placed on it (one term per edge, capped at the largest `u64`), nothing
    /// received yet. `None` while a parent has not been placed.
    pub fn fn_new_fn_running_state(&self, req: &Request, fnid: FnId) -> (r: Option<RunningTask>)
        requires
            fnid < self.fns@.len(),
            req.dag_i < self.dags@.len(),
            self.fns@[fnid as int].graph_i < self.dags@[req.dag_i as int].nodes().len(),
            self.dags@[req.dag_i as int].edge_weights_match(self.fns@),
            self.fns@[fnid as int].cpu <= i64::MAX,
        ensures
            r is None <==> exists|p: usize|
                has_edge(self.dags@[req.dag_i as int].edges(), p, self.fns@[fnid as int].graph_i)
                    && !req.fn_node@.contains_key(#[trigger] self.dags@[req.dag_i as int].nodes()[p as int]),
            r matches Some(t) ==> {
                let dag = self.dags@[req.dag_i as int];
                let gi = self.fns@[fnid as int].graph_i;
                &&& t.left_calc == self.fns@[fnid as int].cpu
                &&& forall|k: int| 0 <= k < t.data_recv@.len() ==> (#[trigger] t.data_recv@[k]).2 == 0
                &&& forall|k: int, j: int|
                    0 <= k < j < t.data_recv@.len() ==> (#[trigger] t.data_recv@[k]).0 != (#[trigger] t.data_recv@[j]).0
                &&& forall|k: int| 0 <= k < t.data_recv@.len() ==> parent_on(dag, req.fn_node@, gi, (#[trigger] t.data_recv@[k]).0)
                &&& forall|p: usize| #[trigger] has_edge(dag.edges(), p, gi) ==> covered(t.data_recv@, req.fn_node@[dag.nodes()[p as int]])
                &&& forall|k: int|
                    0 <= k < t.data_recv@.len() ==> (#[trigger] t.data_recv@[k]).1 == saturate(
                        placed_sum(dag.edges(), dag.nodes(), self.fns@, req.fn_node@, gi, t.data_recv@[k].0),
                    )
            },
    {
        let dag = &self.dags[req.dag_i];
        let gi = self.fns[fnid].graph_i;
        let es = crate::graph::graph_edge_list(&dag.dag_inner);
        let ghost nodes = dag.nodes();
        let ghost fns = self.fns@;
        let ghost fnn = req.fn_node@;
        let mut need: Vec<(NodeId, u64, u64)> = Vec::new();
        let mut i: usize = 0;
        while i < es.len()
            invariant
                i <= es@.len(),
                es@ == dag.edges(),
                nodes == dag.nodes(),
                fns == self.fns@,
                fnn == req.fn_node@,
                dag == self.dags@[req.dag_i as int],
                gi == self.fns@[fnid as int].graph_i,
                dag.edge_weights_match(self.fns@),
                forall|k: int| 0 <= k < need@.len() ==> (#[trigger] need@[k]).2 == 0,
                forall|k: int, j: int|
                    0 <= k < j < need@.len() ==> (#[trigger] need@[k]).0 != (#[trigger] need@[j]).0,
                forall|k: int| 0 <= k < need@.len() ==> parent_on(*dag, req.fn_node@, gi, (#[trigger] need@[k]).0),
                forall|j: int|
                    0 <= j < i && (#[trigger] es@[j]).1 == gi ==> fnn.contains_key(nodes[es@[j].0 as int]) && covered(
                        need@,
                        fnn[nodes[es@[j].0 as int]],
                    ),
                forall|k: int|
                    0 <= k < need@.len() ==> (#[trigger] need@[k]).1 == saturate(
                        placed_sum(es@.take(i as int), nodes, fns, fnn, gi, need@[k].0),
                    ),
                forall|x: NodeId|
                    !covered(need@, x) ==> #[trigger] placed_sum(es@.take(i as int), nodes, fns, fnn, gi, x) == 0,
            decreases es@.len() - i,
        {
            proof {
                lemma_placed_sum_step(es@, nodes, fns, fnn, gi, i as int);
            }
            let e = es[i];
            let ghost need0 = need@;
            if e.1 == gi {
                proof {
                    assert(es@[i as int] == e);
                    assert(e.0 < nodes.len());
                }
                let p = graph_node_weight(&dag.dag_inner, e.0);
                let node = match req.get_fn_node(p) {
                    Some(n) => n,
                    None => {
                        proof {
                            assert(has_edge(dag.edges(), e.0, gi));
                        }
                        return None;
                    },
                };
                let w = e.2;
                proof {
                    assert(w == self.fns@[nodes[e.0 as int] as int].out_put_size);
                    assert(has_edge(dag.edges(), e.0, gi));
                    assert(parent_on(*dag, req.fn_node@, gi, node));
                    assert forall|x: NodeId| #[trigger] edge_share(e, nodes, fns, fnn, gi, x) == if x == node { w as int } else { 0 } by {}
                }
                match find_node(&need, node) {
                    Some(j) => {
                        let (n0, v, _) = need[j];
                        let total = if v <= u64::MAX - w { v + w } else { u64::MAX };
                        need.set(j, (n0, total, 0));
                        proof {
                            assert(covered(need@, node)) by { assert(need@[j as int].0 == node); }
                            assert forall|k: int| 0 <= k < need0.len() implies #[trigger] need@[k].0 == need0[k].0 by {}
                            assert forall|k: int| 0 <= k < need@.len() implies parent_on(*dag, req.fn_node@, gi, (#[trigger] need@[k]).0) by {
                                assert(need@[k].0 == need0[k].0);
                            }
                            assert forall|k: int, j2: int|
                                0 <= k < j2 < need@.len() implies (#[trigger] need@[k]).0 != (#[trigger] need@[j2]).0 by {
                                assert(need@[k].0 == need0[k].0);
                                assert(need@[j2].0 == need0[j2].0);
                            }
                            assert forall|x: NodeId| !covered(need@, x) implies #[trigger] placed_sum(es@.take(i + 1), nodes, fns, fnn, gi, x) == 0 by {
                                if covered(need0, x) {
                                    let k = choose|k: int| 0 <= k < need0.len() && (#[trigger] need0[k]).0 == x;
                                    assert(need@[k].0 == x);
                                }
                                assert(x != node);
                            }
                        }
                    },
                    None => {
                        need.push((node, w, 0));
                        proof {
                            assert(need@[need0.len() as int].0 == node);
                            assert(covered(need@, node));
                            assert(placed_sum(es@.take(i as int), nodes, fns, fnn, gi, node) == 0);
                            assert forall|k: int| 0 <= k < need0.len() implies #[trigger] need@[k] == need0[k] by {}
                            assert forall|k: int| 0 <= k < need@.len() implies parent_on(*dag, req.fn_node@, gi, (#[trigger] need@[k]).0) by {
                                if k < need0.len() {
                                    assert(need@[k] == need0[k]);
                                }
                            }
                            assert forall|k: int, j2: int|
                                0 <= k < j2 < need@.len() implies (#[trigger] need@[k]).0 != (#[trigger] need@[j2]).0 by {
                                assert(need@[k] == need0[k]);
                                if j2 < need0.len() {
                                    assert(need@[j2] == need0[j2]);
                                }
                            }
                            assert forall|x: NodeId| !covered(need@, x) implies #[trigger] placed_sum(es@.take(i + 1), nodes, fns, fnn, gi, x) == 0 by {
                                if covered(need0, x) {
                                    let k = choose|k: int| 0 <= k < need0.len() && (#[trigger] need0[k]).0 == x;
                                    assert(need@[k].0 == x);
                                }
                                assert(x != node);
                            }
                        }
                    },
                }
                proof {
                    assert forall|k: int| 0 <= k < need@.len() implies (#[trigger] need@[k]).1 == saturate(
                        placed_sum(es@.take(i + 1), nodes, fns, fnn, gi, need@[k].0),
                    ) by {
                        let x = need@[k].0;
                        assert(placed_sum(es@.take(i + 1), nodes, fns, fnn, gi, x) == placed_sum(es@.take(i as int), nodes, fns, fnn, gi, x) + edge_share(es@[i as int], nodes, fns, fnn, gi, x));
                        if k < need0.len() {
                            assert(need0[k].0 == x);
                            assert(need0[k].1 == saturate(placed_sum(es@.take(i as int), nodes, fns, fnn, gi, x)));
                        }
                    }
                    assert forall|j: int|
                        0 <= j < i + 1 && (#[trigger] es@[j]).1 == gi implies fnn.contains_key(nodes[es@[j].0 as int]) && covered(
                            need@,
                            fnn[nodes[es@[j].0 as int]],
                        ) by {
                        if j < i {
                            let y = fnn[nodes[es@[j].0 as int]];
                            assert(covered(need0, y));
                            let k = choose|k: int| 0 <= k < need0.len() && (#[trigger] need0[k]).0 == y;
                            assert(need@[k].0 == y);
                        }
                    }
                }
            } else {
                proof {
                    assert forall|x: NodeId| #[trigger] edge_share(es@[i as int], nodes, fns, fnn, gi, x) == 0 by {}
                }
            }
            i = i + 1;
        }
        proof {
            assert(es@.take(es@.len() as int) =~= es@);
            assert forall|p: usize| #[trigger] has_edge(dag.edges(), p, gi) implies covered(need@, req.fn_node@[dag.nodes()[p as int]])
                && req.fn_node@.contains_key(dag.nodes()[p as int]) by {
                let e = choose|e: int| 0 <= e < dag.edges().len() && (#[trigger] dag.edges()[e]).0 == p && dag.edges()[e].1 == gi;
                assert(es@[e].1 == gi);
            }
        }
        Some(RunningTask { data_recv: need, left_calc: self.fns[fnid].cpu as i64 })
    }
}

} // verus!
