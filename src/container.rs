//! Containers: one running or starting instance of a function on a node.
use std::collections::HashMap;

use vstd::prelude::*;

use crate::fn_dag::{FnId, NodeId, ReqId, CONTAINER_BASIC_MEM};
use crate::mechanism::DownCmd;
use crate::sim_env::SimEnv;

verus! {

/// How many frames the done and working windows keep.
pub const DONE_CNT_WINDOW: usize = 20;

pub const WORKING_CNT_WINDOW: usize = 20;

/// A non-negative fraction `num / den`; a zero `den` stands only with a zero `num`.
#[derive(Clone, Copy, Debug, PartialEq, Eq, Structural)]
pub struct Frac {
    pub num: u128,
    pub den: u128,
}

impl Frac {
    /// `self` is the rational number `n / d`.
    pub open spec fn is(self, n: int, d: int) -> bool {
        self.den > 0 && d > 0 && self.num * d == n * self.den
    }

    pub open spec fn is_zero(self) -> bool {
        self.num == 0 && self.den > 0
    }
}

/// Per-(request, function) progress.
#[derive(Clone, Debug)]
pub struct RunningTask {
    /// For each source node: `(node, needed, received)` data, in fixed-point units.
    pub data_recv: Vec<(NodeId, u64, u64)>,
    /// Compute still to do, in fixed-point units.
    pub left_calc: i64,
}

impl RunningTask {
    /// Every channel has received all but at most one unit (10^-5) of its data.
    pub open spec fn data_recv_done_spec(&self) -> bool {
        forall|k: int|
            0 <= k < self.data_recv@.len() ==> (#[trigger] self.data_recv@[k]).1 <= self.data_recv@[k].2 + 1
    }

    pub fn data_recv_done(&self) -> (r: bool)
        ensures
            r == self.data_recv_done_spec(),
    {
        let mut i: usize = 0;
        while i < self.data_recv.len()
            invariant
                i <= self.data_recv@.len(),
                forall|k: int| 0 <= k < i ==> (#[trigger] self.data_recv@[k]).1 <= self.data_recv@[k].2 + 1,
            decreases self.data_recv@.len() - i,
        {
            let (_, need, recv) = self.data_recv[i];
            if need > recv && need - recv > 1 {
                return false;
            }
            i = i + 1;
        }
        true
    }

    pub fn compute_done(&self) -> (r: bool)
        ensures
            r == (self.left_calc <= 0),
    {
        self.left_calc <= 0
    }
}

#[derive(Clone, Copy, Debug, PartialEq, Eq, Structural)]
pub enum FnContainerState {
    Starting { left_frame: usize },
    Running,
}

/// The weighted sum `1 * s[0] + 2 * s[1] + ...`: later entries weigh more.
pub open spec fn weighted_sum(s: Seq<usize>) -> int
    decreases s.len(),
{
    if s.len() == 0 {
        0
    } else {
        weighted_sum(s.drop_last()) + s.len() * s.last()
    }
}

pub open spec fn plain_sum(s: Seq<usize>) -> int
    decreases s.len(),
{
    if s.len() == 0 {
        0
    } else {
        plain_sum(s.drop_last()) + s.last()
    }
}

/// The last `n` entries of `s`, or all of them where there are fewer.
pub open spec fn keep_last(s: Seq<usize>, n: int) -> Seq<usize> {
    if s.len() > n {
        s.skip(s.len() - n)
    } else {
        s
    }
}

pub struct FnContainer {
    pub node_id: NodeId,
    pub fn_id: FnId,
    pub req_fn_state: HashMap<ReqId, RunningTask>,
    pub born_frame: usize,
    pub used_times: usize,
    pub this_frame_used: bool,
    pub recent_frames_done_cnt: Vec<usize>,
    pub recent_frames_working_cnt: Vec<usize>,
    /// Compute used over compute allocated, last frame.
    pub cpu_use_rate: Frac,
    pub last_frame_cpu_used: u64,
    pub mem_use: u64,
    pub last_frame_mem: u64,
    pub state: FnContainerState,
}

impl FnContainer {
    pub open spec fn state_spec(&self) -> FnContainerState {
        self.state
    }

    pub open spec fn cpu_use_rate_spec(&self) -> Frac {
        self.cpu_use_rate
    }

    /// The windows stay within their length and a starting container has frames left.
    pub open spec fn wf(&self) -> bool {
        &&& self.recent_frames_done_cnt@.len() <= DONE_CNT_WINDOW
        &&& self.recent_frames_working_cnt@.len() <= WORKING_CNT_WINDOW
        &&& (self.state matches FnContainerState::Starting { left_frame } ==> left_frame >= 1)
    }

    /// A container of `fn_id` on `node_id`, born now and starting for the function's cold-start time.
    pub fn new(fn_id: FnId, node_id: NodeId, sim_env: &SimEnv) -> (r: FnContainer)
        requires
            fn_id < sim_env.fns@.len(),
            sim_env.fns@[fn_id as int].cold_start_time >= 1,
        ensures
            r.wf(),
            r.node_id == node_id,
            r.fn_id == fn_id,
            r.req_fn_state@.len() == 0,
            r.born_frame == sim_env.frame,
            r.used_times == 0,
            !r.this_frame_used,
            r.recent_frames_done_cnt@.len() == 0,
            r.recent_frames_working_cnt@.len() == 0,
            r.cpu_use_rate_spec().is_zero(),
            r.mem_use == CONTAINER_BASIC_MEM,
            r.state_spec() == (FnContainerState::Starting {
                left_frame: sim_env.fns@[fn_id as int].cold_start_time,
            }),
    {
        FnContainer {
            node_id,
            fn_id,
            req_fn_state: HashMap::new(),
            born_frame: sim_env.current_frame(),
            used_times: 0,
            this_frame_used: false,
            recent_frames_done_cnt: Vec::new(),
            recent_frames_working_cnt: Vec::new(),
            cpu_use_rate: Frac { num: 0, den: 1 },
            last_frame_cpu_used: 0,
            mem_use: CONTAINER_BASIC_MEM,
            last_frame_mem: 0,
            state: FnContainerState::Starting { left_frame: sim_env.fns[fn_id].cold_start_time },
        }
    }

    /// Memory the container takes: the cold-start footprint while starting, the basic
    /// container memory once running.
    pub fn mem_take(&self, env: &SimEnv) -> (r: u64)
        requires
            self.fn_id < env.fns@.len(),
        ensures
            self.state_spec() is Running ==> r == CONTAINER_BASIC_MEM,
            self.state_spec() is Starting ==> r == env.fns@[self.fn_id as int].cold_start_container_mem_use,
    {
        match self.state {
            FnContainerState::Starting { .. } => env.fns[self.fn_id].cold_start_container_mem_use,
            FnContainerState::Running => env.fns[self.fn_id].container_mem(),
        }
    }

    /// Same as `mem_take`.
    pub fn container_basic_mem(&self, env: &SimEnv) -> (r: u64)
        requires
            self.fn_id < env.fns@.len(),
        ensures
            self.state_spec() is Running ==> r == CONTAINER_BASIC_MEM,
            self.state_spec() is Starting ==> r == env.fns@[self.fn_id as int].cold_start_container_mem_use,
    {
        match self.state {
            FnContainerState::Starting { .. } => env.fns[self.fn_id].cold_start_container_mem_use,
            FnContainerState::Running => CONTAINER_BASIC_MEM,
        }
    }

    /// Mean of the done-count window; zero when it is empty.
    pub fn recent_handle_speed(&self) -> (r: Frac)
        requires
            self.wf(),
        ensures
            self.recent_frames_done_cnt@.len() == 0 ==> r.is_zero(),
            self.recent_frames_done_cnt@.len() > 0 ==> r.is(
                plain_sum(self.recent_frames_done_cnt@),
                self.recent_frames_done_cnt@.len() as int,
            ),
    {
        let n = self.recent_frames_done_cnt.len();
        if n == 0 {
            return Frac { num: 0, den: 1 };
        }
        let mut sum: u128 = 0;
        let mut i: usize = 0;
        while i < n
            invariant
                n == self.recent_frames_done_cnt@.len(),
                n <= DONE_CNT_WINDOW,
                i <= n,
                sum == plain_sum(self.recent_frames_done_cnt@.take(i as int)),
                sum <= i * 0x1_0000_0000_0000_0000,
            decreases n - i,
        {
            let v = self.recent_frames_done_cnt[i];
            assert(self.recent_frames_done_cnt@.take(i as int + 1).drop_last()
                =~= self.recent_frames_done_cnt@.take(i as int));
            sum = sum + v as u128;
            i = i + 1;
        }
        assert(self.recent_frames_done_cnt@.take(n as int) =~= self.recent_frames_done_cnt@);
        Frac { num: sum, den: n as u128 }
    }

    /// Weighted mean of the working-count window, the `i`-th oldest entry weighing `i`;
    /// zero when the window is empty.
    pub fn busyness(&self) -> (r: Frac)
        requires
            self.wf(),
        ensures
            self.recent_frames_working_cnt@.len() == 0 ==> r.is_zero(),
            self.recent_frames_working_cnt@.len() > 0 ==> r.is(
                weighted_sum(self.recent_frames_working_cnt@),
                self.recent_frames_working_cnt@.len() as int,
            ),
    {
        let n = self.recent_frames_working_cnt.len();
        if n == 0 {
            return Frac { num: 0, den: 1 };
        }
        let mut sum: u128 = 0;
        let mut i: usize = 0;
        while i < n
            invariant
                n == self.recent_frames_working_cnt@.len(),
                n <= WORKING_CNT_WINDOW,
                i <= n,
                sum == weighted_sum(self.recent_frames_working_cnt@.take(i as int)),
                sum <= i * i * 0x1_0000_0000_0000_0000,
            decreases n - i,
        {
            let v = self.recent_frames_working_cnt[i];
            assert(self.recent_frames_working_cnt@.take(i as int + 1).drop_last()
                =~= self.recent_frames_working_cnt@.take(i as int));
            proof {
                let ii = i as int;
                let vv = v as int;
                assert(ii * ii * 0x1_0000_0000_0000_0000 + (ii + 1) * vv <= (ii + 1) * (ii + 1) * 0x1_0000_0000_0000_0000)
                    by (nonlinear_arith)
                    requires 0 <= vv < 0x1_0000_0000_0000_0000, ii >= 0;
                assert((ii + 1) * (ii + 1) * 0x1_0000_0000_0000_0000 <= 21 * 21 * 0x1_0000_0000_0000_0000)
                    by (nonlinear_arith)
                    requires 0 <= ii < 20;
                assert(vv * (ii + 1) <= 0x1_0000_0000_0000_0000 * 21) by (nonlinear_arith)
                    requires 0 <= vv < 0x1_0000_0000_0000_0000, 0 <= ii < 20;
                assert(vv * (ii + 1) == (ii + 1) * vv) by (nonlinear_arith);
                let t1 = self.recent_frames_working_cnt@.take(ii + 1);
                assert(t1.len() == ii + 1 && t1.last() == v);
            }
            sum = sum + (v as u128) * ((i + 1) as u128);
            i = i + 1;
        }
        assert(self.recent_frames_working_cnt@.take(n as int) =~= self.recent_frames_working_cnt@);
        Frac { num: sum, den: n as u128 }
    }

    /// No working task in any of the last `frame_cnt` recorded frames (or in all of
    /// them, where fewer were recorded).
    pub fn recent_frame_is_idle(&self, frame_cnt: usize) -> (r: bool)
        ensures
            r == forall|k: int|
                0 <= k < keep_last(self.recent_frames_working_cnt@, frame_cnt as int).len() ==> #[trigger] keep_last(
                    self.recent_frames_working_cnt@,
                    frame_cnt as int,
                )[k] == 0,
    {
        let n = self.recent_frames_working_cnt.len();
        let lo: usize = if n > frame_cnt { n - frame_cnt } else { 0 };
        let ghost w = keep_last(self.recent_frames_working_cnt@, frame_cnt as int);
        assert(w =~= self.recent_frames_working_cnt@.skip(lo as int));
        let mut i: usize = n;
        while i > lo
            invariant
                lo <= i <= n,
                n == self.recent_frames_working_cnt@.len(),
                w =~= self.recent_frames_working_cnt@.skip(lo as int),
                w == keep_last(self.recent_frames_working_cnt@, frame_cnt as int),
                forall|k: int| i - lo <= k < w.len() ==> #[trigger] w[k] == 0,
            decreases i,
        {
            i = i - 1;
            if self.recent_frames_working_cnt[i] > 0 {
                assert(w[i - lo] > 0);
                assert(keep_last(self.recent_frames_working_cnt@, frame_cnt as int)[i - lo] > 0);
                return false;
            }
        }
        true
    }

    /// Appends this frame's done and working counts, dropping the oldest entries
    /// beyond each window's length.
    pub fn record_this_frame(&mut self, _sim_env: &SimEnv, done_cnt: usize, working_cnt: usize)
        requires
            old(self).wf(),
        ensures
            final(self).wf(),
            final(self).recent_frames_done_cnt@ == keep_last(
                old(self).recent_frames_done_cnt@.push(done_cnt),
                DONE_CNT_WINDOW as int,
            ),
            final(self).recent_frames_working_cnt@ == keep_last(
                old(self).recent_frames_working_cnt@.push(working_cnt),
                WORKING_CNT_WINDOW as int,
            ),
            *final(self) == (FnContainer {
                recent_frames_done_cnt: final(self).recent_frames_done_cnt,
                recent_frames_working_cnt: final(self).recent_frames_working_cnt,
                ..*old(self)
            }),
    {
        self.recent_frames_done_cnt.push(done_cnt);
        if self.recent_frames_done_cnt.len() > DONE_CNT_WINDOW {
            self.recent_frames_done_cnt.remove(0);
        }
        self.recent_frames_working_cnt.push(working_cnt);
        if self.recent_frames_working_cnt.len() > WORKING_CNT_WINDOW {
            self.recent_frames_working_cnt.remove(0);
        }
        assert(final(self).recent_frames_done_cnt@ =~= keep_last(
            old(self).recent_frames_done_cnt@.push(done_cnt),
            DONE_CNT_WINDOW as int,
        ));
        assert(final(self).recent_frames_working_cnt@ =~= keep_last(
            old(self).recent_frames_working_cnt@.push(working_cnt),
            WORKING_CNT_WINDOW as int,
        ));
    }

    /// One frame of a cold start: `Starting{k}` becomes `Starting{k - 1}`, and
    /// `Starting{1}` becomes `Running`. Returns whether the cold start finished.
    pub fn starting_left_frame_move_on(&mut self) -> (cold_started: bool)
        requires
            old(self).wf(),
            old(self).state is Starting,
        ensures
            final(self).wf(),
            old(self).state matches FnContainerState::Starting { left_frame } && ({
                &&& left_frame == 1 ==> cold_started && final(self).state == FnContainerState::Running
                &&& left_frame > 1 ==> !cold_started && final(self).state == (FnContainerState::Starting {
                    left_frame: (left_frame - 1) as usize,
                })
            }),
            *final(self) == (FnContainer { state: final(self).state, ..*old(self) }),
    {
        match self.state {
            FnContainerState::Starting { left_frame } => {
                if left_frame == 1 {
                    self.state = FnContainerState::Running;
                    true
                } else {
                    self.state = FnContainerState::Starting { left_frame: left_frame - 1 };
                    false
                }
            },
            FnContainerState::Running => false,
        }
    }

    /// Uses per frame of life; zero in the frame the container was born.
    pub fn use_freq(&self, env: &SimEnv) -> (r: Frac)
        requires
            env.frame >= self.born_frame,
        ensures
            env.frame == self.born_frame ==> r.is_zero(),
            env.frame > self.born_frame ==> r.is(self.used_times as int, env.frame - self.born_frame),
    {
        let now = env.current_frame();
        if now - self.born_frame == 0 {
            return Frac { num: 0, den: 1 };
        }
        Frac { num: self.used_times as u128, den: (now - self.born_frame) as u128 }
    }

    pub fn cpu_use_rate(&self) -> (r: Frac)
        ensures
            r == self.cpu_use_rate,
    {
        self.cpu_use_rate
    }

    /// Records `used / alloced` as the CPU use rate. An allocation under one unit (10^-5)
    /// is a scheduling fault, so `alloced` must be at least one unit.
    pub fn set_cpu_use_rate(&mut self, alloced: u64, used: u64)
        requires
            alloced >= 1,
        ensures
            final(self).cpu_use_rate.is(used as int, alloced as int),
            *final(self) == (FnContainer { cpu_use_rate: Frac { num: used as u128, den: alloced as u128 }, ..*old(self) }),
    {
        self.cpu_use_rate = Frac { num: used as u128, den: alloced as u128 };
    }

    /// Sets the container's state.
    pub fn set_state(&mut self, state: FnContainerState)
        ensures
            *final(self) == (FnContainer { state, ..*old(self) }),
    {
        self.state = state;
    }

    pub fn state(&self) -> (r: &FnContainerState)
        ensures
            *r == self.state,
    {
        &self.state
    }

    pub fn is_running(&self) -> (r: bool)
        ensures
            r == (self.state is Running),
    {
        match self.state {
            FnContainerState::Running => true,
            _ => false,
        }
    }

    /// Running with no task.
    pub fn is_idle(&self) -> (r: bool)
        ensures
            r == (self.state is Running && self.req_fn_state@.len() == 0),
    {
        match self.state {
            FnContainerState::Running => self.req_fn_state.len() == 0,
            FnContainerState::Starting { .. } => false,
        }
    }
}

/// The busyness of a container that recorded nothing is zero, and with one recorded
/// working count `v` it is `v`.
pub proof fn lemma_busyness_short_windows(s: Seq<usize>)
    ensures
        s.len() == 0 ==> weighted_sum(s) == 0,
        s.len() == 1 ==> weighted_sum(s) == s[0],
{
    if s.len() == 1 {
        assert(s.drop_last().len() == 0);
        assert(weighted_sum(s.drop_last()) == 0);
    }
}

/// Why a scale-down command was refused.
#[derive(Clone, Copy, Debug, PartialEq, Eq, Structural)]
pub enum DownCmdError {
    /// No container of the function is on the node.
    NoContainer,
    /// The container is starting or still has tasks.
    NotIdle,
}

pub open spec fn is_target(c: FnContainer, cmd: DownCmd) -> bool {
    c.node_id == cmd.nid && c.fn_id == cmd.fnid
}

/// Applies a scale-down command to the containers of a node set: the first container
/// that it names is evicted if it is idle; otherwise nothing changes and the refusal
/// says why.
pub fn apply_down_cmd(containers: &mut Vec<FnContainer>, cmd: DownCmd) -> (r: Result<(), DownCmdError>)
    ensures
        (r == Err::<(), DownCmdError>(DownCmdError::NoContainer)) <==> (forall|k: int|
            0 <= k < old(containers)@.len() ==> !is_target(#[trigger] old(containers)@[k], cmd)),
        r is Err ==> final(containers)@ == old(containers)@,
        r == Err::<(), DownCmdError>(DownCmdError::NotIdle) ==> exists|k: int|
            0 <= k < old(containers)@.len() && is_target(#[trigger] old(containers)@[k], cmd)
                && !(old(containers)@[k].state is Running && old(containers)@[k].req_fn_state@.len() == 0)
                && forall|j: int| 0 <= j < k ==> !is_target(#[trigger] old(containers)@[j], cmd),
        r is Ok ==> exists|k: int|
            0 <= k < old(containers)@.len() && is_target(#[trigger] old(containers)@[k], cmd)
                && old(containers)@[k].state is Running && old(containers)@[k].req_fn_state@.len() == 0
                && (forall|j: int| 0 <= j < k ==> !is_target(#[trigger] old(containers)@[j], cmd))
                && final(containers)@ == old(containers)@.remove(k),
{
    let mut i: usize = 0;
    while i < containers.len()
        invariant
            i <= containers@.len(),
            containers@ == old(containers)@,
            forall|j: int| 0 <= j < i ==> !is_target(#[trigger] containers@[j], cmd),
        decreases containers@.len() - i,
    {
        if containers[i].node_id == cmd.nid && containers[i].fn_id == cmd.fnid {
            if !containers[i].is_idle() {
                return Err(DownCmdError::NotIdle);
            }
            let _ = containers.remove(i);
            return Ok(());
        }
        i = i + 1;
    }
    Err(DownCmdError::NoContainer)
}

/// A task takes CPU this frame: its data has arrived and compute is left.
pub open spec fn ready(t: RunningTask) -> bool {
    t.data_recv_done_spec() && t.left_calc > 0
}

pub open spec fn ready_count(ts: Seq<RunningTask>) -> nat
    decreases ts.len(),
{
    if ts.len() == 0 {
        0
    } else {
        ready_count(ts.drop_last()) + if ready(ts.last()) { 1nat } else { 0nat }
    }
}

/// One frame of compute on a container: the allocated CPU is split equally among the
/// ready tasks, and each ready task's remaining compute goes down by its share.
/// Returns the share and the CPU used (the shares handed out).
pub fn advance_compute(tasks: &mut Vec<RunningTask>, alloced: u64) -> (r: (u64, u64))
    requires
        alloced <= i64::MAX,
    ensures
        final(tasks)@.len() == old(tasks)@.len(),
        ready_count(old(tasks)@) == 0 ==> r == (0u64, 0u64),
        ready_count(old(tasks)@) > 0 ==> r.0 == alloced as int / ready_count(old(tasks)@) as int && r.1
            == r.0 as int * ready_count(old(tasks)@) as int,
        r.1 <= alloced,
        forall|k: int|
            0 <= k < old(tasks)@.len() ==> (#[trigger] final(tasks)@[k]).data_recv == old(tasks)@[k].data_recv
                && (ready(old(tasks)@[k]) ==> final(tasks)@[k].left_calc == old(tasks)@[k].left_calc - r.0)
                && (!ready(old(tasks)@[k]) ==> final(tasks)@[k].left_calc == old(tasks)@[k].left_calc),
{
    let n = tasks.len();
    let mut cnt: u64 = 0;
    let mut i: usize = 0;
    while i < n
        invariant
            n == tasks@.len(),
            i <= n,
            cnt == ready_count(tasks@.take(i as int)),
            cnt <= i,
        decreases n - i,
    {
        assert(tasks@.take(i as int + 1).drop_last() =~= tasks@.take(i as int));
        if tasks[i].data_recv_done() && tasks[i].left_calc > 0 {
            cnt = cnt + 1;
        }
        i = i + 1;
    }
    assert(tasks@.take(n as int) =~= tasks@);
    if cnt == 0 {
        proof {
            assert forall|k: int| 0 <= k < tasks@.len() implies !ready(tasks@[k]) by {
                lemma_ready_count_zero(tasks@, k);
            }
        }
        return (0, 0);
    }
    let share = alloced / cnt;
    let ghost before = tasks@;
    let mut j: usize = 0;
    while j < n
        invariant
            n == tasks@.len(),
            n == before.len(),
            j <= n,
            share <= alloced <= i64::MAX,
            forall|k: int| j <= k < n ==> tasks@[k] == before[k],
            forall|k: int|
                0 <= k < j ==> (#[trigger] tasks@[k]).data_recv == before[k].data_recv
                    && (ready(before[k]) ==> tasks@[k].left_calc == before[k].left_calc - share)
                    && (!ready(before[k]) ==> tasks@[k].left_calc == before[k].left_calc),
        decreases n - j,
    {
        if tasks[j].data_recv_done() && tasks[j].left_calc > 0 {
            let mut t = RunningTask { data_recv: Vec::new(), left_calc: 0 };
            tasks.set_and_swap(j, &mut t);
            t.left_calc = t.left_calc - share as i64;
            tasks.set_and_swap(j, &mut t);
        }
        j = j + 1;
    }
    proof {
        assert(share * cnt <= alloced) by (nonlinear_arith)
            requires share == alloced / cnt, cnt > 0;
    }
    (share, share * cnt)
}

proof fn lemma_ready_count_zero(ts: Seq<RunningTask>, k: int)
    requires
        ready_count(ts) == 0,
        0 <= k < ts.len(),
    ensures
        !ready(ts[k]),
    decreases ts.len(),
{
    if k < ts.len() - 1 {
        assert(ts.drop_last()[k] == ts[k]);
        lemma_ready_count_zero(ts.drop_last(), k);
    }
}

/// One frame of cold starts on a set of containers: every starting container moves
/// one frame on; running ones are left alone. Returns the positions of the containers
/// that finished their cold start this frame, in order.
pub fn age_cold_starts(containers: &mut Vec<FnContainer>) -> (started: Vec<usize>)
    requires
        forall|k: int| 0 <= k < old(containers)@.len() ==> (#[trigger] old(containers)@[k]).wf(),
    ensures
        final(containers)@.len() == old(containers)@.len(),
        forall|k: int| 0 <= k < final(containers)@.len() ==> (#[trigger] final(containers)@[k]).wf(),
        forall|k: int|
            0 <= k < old(containers)@.len() ==> {
                let c0 = old(containers)@[k];
                let c1 = #[trigger] final(containers)@[k];
                &&& c1.req_fn_state@ == c0.req_fn_state@
                &&& c1.fn_id == c0.fn_id
                &&& c1.node_id == c0.node_id
                &&& c0.state == FnContainerState::Running ==> c1.state == FnContainerState::Running
                &&& (c0.state matches FnContainerState::Starting { left_frame } ==> if left_frame == 1 {
                    c1.state == FnContainerState::Running && started@.contains(k as usize)
                } else {
                    c1.state == (FnContainerState::Starting { left_frame: (left_frame - 1) as usize })
                        && !started@.contains(k as usize)
                })
                &&& c0.state is Running ==> !started@.contains(k as usize)
            },
        forall|m: int, n: int| 0 <= m < n < started@.len() ==> started@[m] < started@[n],
{
    let n = containers.len();
    let ghost before = containers@;
    let mut started: Vec<usize> = Vec::new();
    let mut i: usize = 0;
    while i < n
        invariant
            n == containers@.len(),
            n == before.len(),
            i <= n,
            forall|k: int| i <= k < n ==> containers@[k] == before[k],
            forall|k: int| 0 <= k < n ==> (#[trigger] before[k]).wf(),
            forall|k: int| 0 <= k < i ==> (#[trigger] containers@[k]).wf(),
            forall|k: int| 0 <= k < started@.len() ==> (#[trigger] started@[k]) < i,
            forall|m: int, q: int| 0 <= m < q < started@.len() ==> started@[m] < started@[q],
            forall|k: int|
                0 <= k < i ==> {
                    let c0 = before[k];
                    let c1 = #[trigger] containers@[k];
                    &&& c1.req_fn_state@ == c0.req_fn_state@
                    &&& c1.fn_id == c0.fn_id
                    &&& c1.node_id == c0.node_id
                    &&& c0.state == FnContainerState::Running ==> c1.state == FnContainerState::Running
                    &&& (c0.state matches FnContainerState::Starting { left_frame } ==> if left_frame == 1 {
                        c1.state == FnContainerState::Running && started@.contains(k as usize)
                    } else {
                        c1.state == (FnContainerState::Starting { left_frame: (left_frame - 1) as usize })
                            && !started@.contains(k as usize)
                    })
                    &&& c0.state is Running ==> !started@.contains(k as usize)
                },
        decreases n - i,
    {
        if !containers[i].is_running() {
            let mut c = FnContainer {
                node_id: 0,
                fn_id: 0,
                req_fn_state: HashMap::new(),
                born_frame: 0,
                used_times: 0,
                this_frame_used: false,
                recent_frames_done_cnt: Vec::new(),
                recent_frames_working_cnt: Vec::new(),
                cpu_use_rate: Frac { num: 0, den: 1 },
                last_frame_cpu_used: 0,
                mem_use: 0,
                last_frame_mem: 0,
                state: FnContainerState::Running,
            };
            containers.set_and_swap(i, &mut c);
            let done = c.starting_left_frame_move_on();
            containers.set_and_swap(i, &mut c);
            let ghost s0 = started@;
            if done {
                started.push(i);
            }
            proof {
                assert forall|k: int| 0 <= k < i implies (#[trigger] started@.contains(k as usize)) == s0.contains(k as usize) by {
                    if started@.contains(k as usize) {
                        let m = choose|m: int| 0 <= m < started@.len() && started@[m] == k as usize;
                        if m < s0.len() {
                            assert(s0[m] == started@[m]);
                        }
                    }
                    if s0.contains(k as usize) {
                        let m = choose|m: int| 0 <= m < s0.len() && s0[m] == k as usize;
                        assert(started@[m] == s0[m]);
                    }
                }
                if done {
                    assert(started@[s0.len() as int] == i);
                    assert(started@.contains(i));
                } else {
                    assert(!s0.contains(i)) by {
                        if s0.contains(i) {
                            let m = choose|m: int| 0 <= m < s0.len() && s0[m] == i;
                        }
                    }
                }
            }
        } else {
            proof {
                assert(!started@.contains(i)) by {
                    if started@.contains(i) {
                        let m = choose|m: int| 0 <= m < started@.len() && started@[m] == i;
                    }
                }
            }
        }
        i = i + 1;
    }
    started
}

} // verus!
