//! The mechanism: a scheduler, a scale-number policy and the scale-up and scale-down
//! executors, chosen by name from the configuration, and the commands they emit.
use vstd::prelude::*;

use crate::fn_dag::{FnId, NodeId, ReqId};
use crate::hpa::{hpa_decide, HpaScaleNum};

verus! {

/// Start a container of `fnid` on node `nid`.
#[derive(Clone, Copy, Debug, PartialEq, Eq, Structural)]
pub struct UpCmd {
    pub nid: NodeId,
    pub fnid: FnId,
}

/// Evict the container of `fnid` on node `nid`.
#[derive(Clone, Copy, Debug, PartialEq, Eq, Structural)]
pub struct DownCmd {
    pub nid: NodeId,
    pub fnid: FnId,
}

/// Run function `fnid` of request `reqid` on node `nid`.
#[derive(Clone, Copy, Debug, PartialEq, Eq, Structural)]
pub struct ScheCmd {
    pub nid: NodeId,
    pub reqid: ReqId,
    pub fnid: FnId,
    /// Memory limit, in fixed-point units.
    pub memlimit: Option<u64>,
}

#[derive(Clone, Copy, Debug, PartialEq, Eq, Structural)]
pub enum MechType {
    NoScale,
    ScaleScheSeparated,
    ScaleScheJoint,
}

#[derive(Clone, Copy, Debug, PartialEq, Eq, Structural)]
pub enum ScheKind {
    FaasFlow,
    Pass,
    Pos,
    FnSche,
}

#[derive(Clone, Copy, Debug, PartialEq, Eq, Structural)]
pub enum ScaleNumKind {
    No,
    Hpa,
    Lass,
}

#[derive(Clone, Copy, Debug, PartialEq, Eq, Structural)]
pub enum ScaleDownExecKind {
    Default,
}

#[derive(Clone, Copy, Debug, PartialEq, Eq, Structural)]
pub enum ScaleUpExecKind {
    LeastTask,
    No,
}

pub open spec fn mech_type_named(s: Seq<char>) -> Option<MechType> {
    if s == "no_scale"@ {
        Some(MechType::NoScale)
    } else if s == "scale_sche_separated"@ {
        Some(MechType::ScaleScheSeparated)
    } else if s == "scale_sche_joint"@ {
        Some(MechType::ScaleScheJoint)
    } else {
        None
    }
}

pub open spec fn sche_named(s: Seq<char>) -> Option<ScheKind> {
    if s == "faasflow"@ {
        Some(ScheKind::FaasFlow)
    } else if s == "pass"@ {
        Some(ScheKind::Pass)
    } else if s == "pos"@ {
        Some(ScheKind::Pos)
    } else if s == "fnsche"@ {
        Some(ScheKind::FnSche)
    } else {
        None
    }
}

pub open spec fn scale_num_named(s: Seq<char>) -> Option<ScaleNumKind> {
    if s == "no"@ {
        Some(ScaleNumKind::No)
    } else if s == "hpa"@ {
        Some(ScaleNumKind::Hpa)
    } else if s == "lass"@ {
        Some(ScaleNumKind::Lass)
    } else {
        None
    }
}

pub open spec fn scale_down_exec_named(s: Seq<char>) -> Option<ScaleDownExecKind> {
    if s == "default"@ {
        Some(ScaleDownExecKind::Default)
    } else {
        None
    }
}

pub open spec fn scale_up_exec_named(s: Seq<char>) -> Option<ScaleUpExecKind> {
    if s == "least_task"@ {
        Some(ScaleUpExecKind::LeastTask)
    } else if s == "no"@ {
        Some(ScaleUpExecKind::No)
    } else {
        None
    }
}

fn is_name(s: &String, lit: &str) -> (r: bool)
    ensures
        r == (s@ == lit@),
{
    let l: String = lit.to_owned();
    *s == l
}

pub fn parse_mech_type(s: &String) -> (r: Option<MechType>)
    ensures
        r == mech_type_named(s@),
{
    if is_name(s, "no_scale") {
        Some(MechType::NoScale)
    } else if is_name(s, "scale_sche_separated") {
        Some(MechType::ScaleScheSeparated)
    } else if is_name(s, "scale_sche_joint") {
        Some(MechType::ScaleScheJoint)
    } else {
        None
    }
}

pub fn parse_sche(s: &String) -> (r: Option<ScheKind>)
    ensures
        r == sche_named(s@),
{
    if is_name(s, "faasflow") {
        Some(ScheKind::FaasFlow)
    } else if is_name(s, "pass") {
        Some(ScheKind::Pass)
    } else if is_name(s, "pos") {
        Some(ScheKind::Pos)
    } else if is_name(s, "fnsche") {
        Some(ScheKind::FnSche)
    } else {
        None
    }
}

pub fn parse_scale_num(s: &String) -> (r: Option<ScaleNumKind>)
    ensures
        r == scale_num_named(s@),
{
    if is_name(s, "no") {
        Some(ScaleNumKind::No)
    } else if is_name(s, "hpa") {
        Some(ScaleNumKind::Hpa)
    } else if is_name(s, "lass") {
        Some(ScaleNumKind::Lass)
    } else {
        None
    }
}

pub fn parse_scale_down_exec(s: &String) -> (r: Option<ScaleDownExecKind>)
    ensures
        r == scale_down_exec_named(s@),
{
    if is_name(s, "default") {
        Some(ScaleDownExecKind::Default)
    } else {
        None
    }
}

/// The scale-up executor of the given name, if there is one.
pub fn new_scale_up_exec(name: &String) -> (r: Option<ScaleUpExecKind>)
    ensures
        r == scale_up_exec_named(name@),
{
    if is_name(name, "least_task") {
        Some(ScaleUpExecKind::LeastTask)
    } else if is_name(name, "no") {
        Some(ScaleUpExecKind::No)
    } else {
        None
    }
}

/// The names (and opaque attributes) of the mechanism's parts.
pub struct MechConfig {
    pub mech_type: String,
    pub sche_conf: (String, String),
    pub scale_num_conf: (String, String),
    pub scale_down_exec_conf: (String, String),
    pub scale_up_exec_conf: (String, String),
}

/// The run configuration that the mechanism is built from.
pub struct Config {
    pub mech: MechConfig,
}

/// Which part of the configuration a mechanism type does not accept.
#[derive(Clone, Copy, Debug, PartialEq, Eq, Structural)]
pub enum MechConfError {
    /// The mechanism type is unknown or has no supported composition.
    MechType,
    Sche,
    ScaleNum,
    ScaleDownExec,
    ScaleUpExec,
}

/// The parts allowed under `no_scale`: faasflow, pass or fnsche; no scale number;
/// the default scale-down executor; no scale-up executor.
pub open spec fn no_scale_allows(s: ScheKind, n: ScaleNumKind, d: ScaleDownExecKind, u: ScaleUpExecKind) -> Option<MechConfError> {
    if !(s == ScheKind::FaasFlow || s == ScheKind::Pass || s == ScheKind::FnSche) {
        Some(MechConfError::Sche)
    } else if n != ScaleNumKind::No {
        Some(MechConfError::ScaleNum)
    } else if d != ScaleDownExecKind::Default {
        Some(MechConfError::ScaleDownExec)
    } else if u != ScaleUpExecKind::No {
        Some(MechConfError::ScaleUpExec)
    } else {
        None
    }
}

/// The parts allowed under `scale_sche_joint`: pos; hpa or lass; the default
/// scale-down executor; the least-task scale-up executor.
pub open spec fn joint_allows(s: ScheKind, n: ScaleNumKind, d: ScaleDownExecKind, u: ScaleUpExecKind) -> Option<MechConfError> {
    if s != ScheKind::Pos {
        Some(MechConfError::Sche)
    } else if !(n == ScaleNumKind::Hpa || n == ScaleNumKind::Lass) {
        Some(MechConfError::ScaleNum)
    } else if d != ScaleDownExecKind::Default {
        Some(MechConfError::ScaleDownExec)
    } else if u != ScaleUpExecKind::LeastTask {
        Some(MechConfError::ScaleUpExec)
    } else {
        None
    }
}

/// What checking a configuration gives: its parts, or the first part refused.
/// Names are checked in the order mechanism type, scheduler, scale number, scale-down
/// executor, scale-up executor.
pub open spec fn mech_check(c: MechConfig) -> Result<(MechType, ScheKind, ScaleNumKind, ScaleDownExecKind, ScaleUpExecKind), MechConfError> {
    let m = mech_type_named(c.mech_type@);
    let s = sche_named(c.sche_conf.0@);
    let n = scale_num_named(c.scale_num_conf.0@);
    let d = scale_down_exec_named(c.scale_down_exec_conf.0@);
    let u = scale_up_exec_named(c.scale_up_exec_conf.0@);
    if m is None || m == Some(MechType::ScaleScheSeparated) {
        Err(MechConfError::MechType)
    } else if s is None {
        Err(MechConfError::Sche)
    } else if n is None {
        Err(MechConfError::ScaleNum)
    } else if d is None {
        Err(MechConfError::ScaleDownExec)
    } else if u is None {
        Err(MechConfError::ScaleUpExec)
    } else {
        let allowed = if m == Some(MechType::NoScale) {
            no_scale_allows(s.unwrap(), n.unwrap(), d.unwrap(), u.unwrap())
        } else {
            joint_allows(s.unwrap(), n.unwrap(), d.unwrap(), u.unwrap())
        };
        match allowed {
            Some(e) => Err(e),
            None => Ok((m.unwrap(), s.unwrap(), n.unwrap(), d.unwrap(), u.unwrap())),
        }
    }
}

fn no_scale_check(s: ScheKind, n: ScaleNumKind, d: ScaleDownExecKind, u: ScaleUpExecKind) -> (r: Option<MechConfError>)
    ensures
        r == no_scale_allows(s, n, d, u),
{
    if !(s == ScheKind::FaasFlow || s == ScheKind::Pass || s == ScheKind::FnSche) {
        Some(MechConfError::Sche)
    } else if n != ScaleNumKind::No {
        Some(MechConfError::ScaleNum)
    } else if d != ScaleDownExecKind::Default {
        Some(MechConfError::ScaleDownExec)
    } else if u != ScaleUpExecKind::No {
        Some(MechConfError::ScaleUpExec)
    } else {
        None
    }
}

fn joint_check(s: ScheKind, n: ScaleNumKind, d: ScaleDownExecKind, u: ScaleUpExecKind) -> (r: Option<MechConfError>)
    ensures
        r == joint_allows(s, n, d, u),
{
    if s != ScheKind::Pos {
        Some(MechConfError::Sche)
    } else if !(n == ScaleNumKind::Hpa || n == ScaleNumKind::Lass) {
        Some(MechConfError::ScaleNum)
    } else if d != ScaleDownExecKind::Default {
        Some(MechConfError::ScaleDownExec)
    } else if u != ScaleUpExecKind::LeastTask {
        Some(MechConfError::ScaleUpExec)
    } else {
        None
    }
}

/// A scale-number policy with its state.
pub enum ScaleNumPolicy {
    No,
    Hpa(HpaScaleNum),
    Lass,
}

/// A mechanism composed from a configuration.
pub struct MechanismImpl {
    pub mech_type: MechType,
    pub sche: ScheKind,
    pub scale_num: ScaleNumPolicy,
    pub scale_down_exec: ScaleDownExecKind,
    pub scale_up_exec: ScaleUpExecKind,
}

pub open spec fn policy_kind(p: ScaleNumPolicy) -> ScaleNumKind {
    match p {
        ScaleNumPolicy::No => ScaleNumKind::No,
        ScaleNumPolicy::Hpa(_) => ScaleNumKind::Hpa,
        ScaleNumPolicy::Lass => ScaleNumKind::Lass,
    }
}

impl Config {
    /// Checks the mechanism configuration against the allowed compositions.
    pub fn check_mech(&self) -> (r: Result<(MechType, ScheKind, ScaleNumKind, ScaleDownExecKind, ScaleUpExecKind), MechConfError>)
        ensures
            r == mech_check(self.mech),
    {
        let m = parse_mech_type(&self.mech.mech_type);
        let s = parse_sche(&self.mech.sche_conf.0);
        let n = parse_scale_num(&self.mech.scale_num_conf.0);
        let d = parse_scale_down_exec(&self.mech.scale_down_exec_conf.0);
        let u = new_scale_up_exec(&self.mech.scale_up_exec_conf.0);
        let m = match m {
            Some(MechType::ScaleScheSeparated) | None => {
                return Err(MechConfError::MechType);
            },
            Some(m) => m,
        };
        let s = match s {
            Some(s) => s,
            None => {
                return Err(MechConfError::Sche);
            },
        };
        let n = match n {
            Some(n) => n,
            None => {
                return Err(MechConfError::ScaleNum);
            },
        };
        let d = match d {
            Some(d) => d,
            None => {
                return Err(MechConfError::ScaleDownExec);
            },
        };
        let u = match u {
            Some(u) => u,
            None => {
                return Err(MechConfError::ScaleUpExec);
            },
        };
        let allowed = match m {
            MechType::NoScale => no_scale_check(s, n, d, u),
            _ => joint_check(s, n, d, u),
        };
        match allowed {
            Some(e) => Err(e),
            None => Ok((m, s, n, d, u)),
        }
    }
}

/// Builds a mechanism from a configuration; `None` where the composition is refused.
pub trait ConfigNewMec {
    /// `r` is the mechanism this configuration gives, `None` where it is refused.
    spec fn new_mec_result(&self, r: Option<MechanismImpl>) -> bool;

    fn new_mec(&self) -> (r: Option<MechanismImpl>)
        ensures
            self.new_mec_result(r),
    ;
}

impl ConfigNewMec for Config {
    open spec fn new_mec_result(&self, r: Option<MechanismImpl>) -> bool {
        &&& (mech_check(self.mech) is Err <==> r is None)
        &&& (r matches Some(mi) ==> mech_check(self.mech) == Ok::<_, MechConfError>(
            (mi.mech_type, mi.sche, policy_kind(mi.scale_num), mi.scale_down_exec, mi.scale_up_exec),
        ))
        &&& (r matches Some(mi) ==> mi.wf() && (mi.scale_num matches ScaleNumPolicy::Hpa(h)
            ==> h.fn_sche_container_count@ == Map::<FnId, usize>::empty()))
    }

    fn new_mec(&self) -> (r: Option<MechanismImpl>) {
        self.build_mec()
    }
}

impl Config {
    /// The mechanism the configuration names, or `None` where `check_mech` refuses it.
    pub fn build_mec(&self) -> (r: Option<MechanismImpl>)
        ensures
            mech_check(self.mech) is Err <==> r is None,
            r matches Some(mi) ==> mech_check(self.mech) == Ok::<_, MechConfError>(
                (mi.mech_type, mi.sche, policy_kind(mi.scale_num), mi.scale_down_exec, mi.scale_up_exec),
            ),
            r matches Some(mi) ==> mi.wf() && (mi.scale_num matches ScaleNumPolicy::Hpa(h)
                ==> h.fn_sche_container_count@ == Map::<FnId, usize>::empty()),
    {
        match self.check_mech() {
            Err(_) => None,
            Ok((m, s, n, d, u)) => {
                let scale_num = match n {
                    ScaleNumKind::No => ScaleNumPolicy::No,
                    ScaleNumKind::Hpa => ScaleNumPolicy::Hpa(HpaScaleNum::new()),
                    ScaleNumKind::Lass => ScaleNumPolicy::Lass,
                };
                Some(MechanismImpl { mech_type: m, sche: s, scale_num, scale_down_exec: d, scale_up_exec: u })
            },
        }
    }
}

/// A change of a function's container count that an executor is to carry out.
#[derive(Clone, Copy, Debug, PartialEq, Eq, Structural)]
pub enum ScaleAction {
    /// Bring `fnid` up to `target` containers.
    Up { fnid: FnId, target: usize },
    /// Remove `cnt` containers of `fnid`.
    Down { fnid: FnId, cnt: usize },
}

/// What a scale-number policy reads of one function in a frame.
pub struct FnScaleInput {
    pub fnid: FnId,
    /// The memory use rate of the node of each live container, in fixed-point units.
    pub mem_use_rates: Vec<u64>,
    pub unsche_req_cnt: usize,
}

pub open spec fn action_for(fnid: FnId, target: usize, cur: usize) -> Option<ScaleAction> {
    if target > cur {
        Some(ScaleAction::Up { fnid, target })
    } else if target < cur {
        Some(ScaleAction::Down { fnid, cnt: (cur - target) as usize })
    } else {
        None
    }
}

/// The actions for each function in turn, given the target decided for each.
pub open spec fn actions_of(inputs: Seq<FnScaleInput>, targets: Seq<usize>) -> Seq<ScaleAction>
    decreases inputs.len(),
{
    if inputs.len() == 0 || targets.len() < inputs.len() {
        Seq::empty()
    } else {
        let k = inputs.len() - 1;
        let rest = actions_of(inputs.drop_last(), targets.take(k));
        match action_for(inputs[k].fnid, targets[k], inputs[k].mem_use_rates@.len() as usize) {
            Some(a) => rest.push(a),
            None => rest,
        }
    }
}

/// The action that brings `cur` containers of `fnid` to `target`, if any.
pub fn scale_action(fnid: FnId, target: usize, cur: usize) -> (r: Option<ScaleAction>)
    ensures
        r == action_for(fnid, target, cur),
{
    if target > cur {
        Some(ScaleAction::Up { fnid, target })
    } else if target < cur {
        Some(ScaleAction::Down { fnid, cnt: cur - target })
    } else {
        None
    }
}

/// The count a map holds for `f`, zero where it holds none.
pub open spec fn count_of(m: Map<FnId, usize>, f: FnId) -> usize {
    if m.contains_key(f) {
        m[f]
    } else {
        0
    }
}

/// The counts and filter ticks an HPA policy holds; none for the other policies.
pub open spec fn hpa_view(p: ScaleNumPolicy) -> (Map<FnId, usize>, Map<FnId, usize>) {
    match p {
        ScaleNumPolicy::Hpa(h) => (h.fn_sche_container_count@, h.scale_down_policy.down_ticks@),
        _ => (Map::empty(), Map::empty()),
    }
}

/// An HPA policy's target and tolerance.
pub open spec fn hpa_params(p: ScaleNumPolicy) -> (u64, u64) {
    match p {
        ScaleNumPolicy::Hpa(h) => (h.target, h.target_tolerance),
        _ => (0, 0),
    }
}

/// HPA's state after deciding for each function of `fns` in turn, from `view`.
pub open spec fn hpa_fold(
    view: (Map<FnId, usize>, Map<FnId, usize>),
    params: (u64, u64),
    fns: Seq<FnScaleInput>,
) -> (Map<FnId, usize>, Map<FnId, usize>)
    decreases fns.len(),
{
    if fns.len() == 0 {
        view
    } else {
        let v = hpa_fold(view, params, fns.drop_last());
        let f = fns.last();
        hpa_decide(v.0, v.1, params.0, params.1, f.fnid, f.mem_use_rates@, f.unsche_req_cnt)
    }
}

/// The policy after running on each function of `fns` in turn: HPA's state is the fold
/// of its decisions; the other policies keep no state and stay as they are.
pub open spec fn policy_after(p0: ScaleNumPolicy, p1: ScaleNumPolicy, fns: Seq<FnScaleInput>) -> bool {
    &&& policy_kind(p1) == policy_kind(p0)
    &&& p0 is Hpa ==> hpa_params(p1) == hpa_params(p0) && hpa_view(p1) == hpa_fold(hpa_view(p0), hpa_params(p0), fns)
    &&& !(p0 is Hpa) ==> p1 == p0
}

/// The count decided for each function of `fns`: under HPA, the count it holds for the
/// function right after deciding for it; otherwise the function's current count.
pub open spec fn decided_targets(p0: ScaleNumPolicy, fns: Seq<FnScaleInput>) -> Seq<usize> {
    Seq::new(
        fns.len(),
        |k: int|
            if p0 is Hpa {
                count_of(hpa_fold(hpa_view(p0), hpa_params(p0), fns.take(k + 1)).0, fns[k].fnid)
            } else {
                fns[k].mem_use_rates@.len() as usize
            },
    )
}

/// The policy ran on `fns` in turn, from `p0` to `p1`, and decided `targets`.
pub open spec fn targets_follow_policy(
    p0: ScaleNumPolicy,
    p1: ScaleNumPolicy,
    fns: Seq<FnScaleInput>,
    targets: Seq<usize>,
) -> bool {
    policy_after(p0, p1, fns) && targets == decided_targets(p0, fns)
}

impl MechanismImpl {
    pub fn scale_down_exec(&self) -> (r: &ScaleDownExecKind)
        ensures
            *r == self.scale_down_exec,
    {
        &self.scale_down_exec
    }

    pub fn scale_up_exec(&self) -> (r: &ScaleUpExecKind)
        ensures
            *r == self.scale_up_exec,
    {
        &self.scale_up_exec
    }

    pub fn scale_num(&self) -> (r: &ScaleNumPolicy)
        ensures
            *r == self.scale_num,
    {
        &self.scale_num
    }

    pub open spec fn wf(&self) -> bool {
        self.scale_num matches ScaleNumPolicy::Hpa(h) ==> h.wf()
    }

    /// Runs the scale-number policy on one function and returns the count it decided:
    /// HPA's count, or the current count for the other policies.
    fn decide_target(&mut self, input: &FnScaleInput) -> (target: usize)
        requires
            old(self).wf(),
            input.mem_use_rates@.len() <= u32::MAX,
        ensures
            final(self).wf(),
            final(self).mech_type == old(self).mech_type,
            policy_kind(final(self).scale_num) == policy_kind(old(self).scale_num),
            !(old(self).scale_num is Hpa) ==> target == input.mem_use_rates@.len() && final(self).scale_num
                == old(self).scale_num,
            old(self).scale_num is Hpa ==> hpa_params(final(self).scale_num) == hpa_params(old(self).scale_num)
                && hpa_view(final(self).scale_num) == hpa_decide(
                hpa_view(old(self).scale_num).0,
                hpa_view(old(self).scale_num).1,
                hpa_params(old(self).scale_num).0,
                hpa_params(old(self).scale_num).1,
                input.fnid,
                input.mem_use_rates@,
                input.unsche_req_cnt,
            ) && target == count_of(hpa_view(final(self).scale_num).0, input.fnid),
    {
        match &mut self.scale_num {
            ScaleNumPolicy::Hpa(h) => {
                h.scale_for_fn(input.fnid, &input.mem_use_rates, input.unsche_req_cnt);
                h.fn_available_count(input.fnid)
            },
            _ => input.mem_use_rates.len(),
        }
    }

    /// Scale and schedule separately: the policy decides a count for each function, and
    /// each function whose count differs from its current one gets an action. The
    /// returned targets are the decided counts: with HPA and distinct functions, the
    /// counts the policy holds afterwards; otherwise each function's current count.
    pub fn step_scale_sche_separated(&mut self, fns: &Vec<FnScaleInput>) -> (r: (Vec<ScaleAction>, Vec<usize>))
        requires
            old(self).wf(),
            forall|k: int| 0 <= k < fns@.len() ==> (#[trigger] fns@[k]).mem_use_rates@.len() <= u32::MAX,
        ensures
            final(self).wf(),
            final(self).mech_type == old(self).mech_type,
            r.1@.len() == fns@.len(),
            r.0@ == actions_of(fns@, r.1@),
            targets_follow_policy(old(self).scale_num, final(self).scale_num, fns@, r.1@),
    {
        let mut actions: Vec<ScaleAction> = Vec::new();
        let targets = self.decide_all(fns);
        let mut i: usize = 0;
        while i < fns.len()
            invariant
                i <= fns@.len(),
                targets@.len() == fns@.len(),
                actions@ == actions_of(fns@.take(i as int), targets@.take(i as int)),
            decreases fns@.len() - i,
        {
            let input = &fns[i];
            let a = scale_action(input.fnid, targets[i], input.mem_use_rates.len());
            proof {
                let p = fns@.take(i as int + 1);
                assert(p.drop_last() =~= fns@.take(i as int));
                assert(targets@.take(i as int + 1).take(i as int) =~= targets@.take(i as int));
            }
            match a {
                Some(a) => actions.push(a),
                None => {},
            }
            i = i + 1;
        }
        assert(fns@.take(fns@.len() as int) =~= fns@);
        assert(targets@.take(fns@.len() as int) =~= targets@);
        (actions, targets)
    }

    /// Runs the policy on each function in turn and returns the counts it decided.
    fn decide_all(&mut self, fns: &Vec<FnScaleInput>) -> (targets: Vec<usize>)
        requires
            old(self).wf(),
            forall|k: int| 0 <= k < fns@.len() ==> (#[trigger] fns@[k]).mem_use_rates@.len() <= u32::MAX,
        ensures
            final(self).wf(),
            final(self).mech_type == old(self).mech_type,
            targets@.len() == fns@.len(),
            targets_follow_policy(old(self).scale_num, final(self).scale_num, fns@, targets@),
    {
        let mut targets: Vec<usize> = Vec::new();
        assert(fns@.take(0) =~= Seq::<FnScaleInput>::empty());
        assert(targets@ =~= decided_targets(old(self).scale_num, fns@.take(0)));
        let mut i: usize = 0;
        while i < fns.len()
            invariant
                self.wf(),
                self.mech_type == old(self).mech_type,
                i <= fns@.len(),
                targets@.len() == i,
                forall|k: int| 0 <= k < fns@.len() ==> (#[trigger] fns@[k]).mem_use_rates@.len() <= u32::MAX,
                targets_follow_policy(old(self).scale_num, self.scale_num, fns@.take(i as int), targets@),
            decreases fns@.len() - i,
        {
            let ghost s0 = self.scale_num;
            let ghost t0 = targets@;
            let target = self.decide_target(&fns[i]);
            targets.push(target);
            proof {
                let q = fns@.take(i as int);
                let p = fns@.take(i as int + 1);
                assert(p.drop_last() =~= q);
                assert(p.last() == fns@[i as int]);
                assert(p.take(i as int + 1) =~= p);
                assert(targets@ =~= decided_targets(old(self).scale_num, p)) by {
                    assert forall|k: int| 0 <= k < p.len() implies targets@[k] == decided_targets(old(self).scale_num, p)[k] by {
                        if k < i {
                            assert(p.take(k + 1) =~= q.take(k + 1));
                            assert(p[k] == q[k]);
                            assert(targets@[k] == t0[k]);
                        }
                    }
                }
            }
            i = i + 1;
        }
        assert(fns@.take(fns@.len() as int) =~= fns@);
        targets
    }

    /// Scale and schedule jointly: the policy is run on each function for its own state;
    /// the scheduler alone emits commands. Returns each function's decided count, as
    /// `step_scale_sche_separated` does.
    pub fn step_scale_sche_joint(&mut self, fns: &Vec<FnScaleInput>) -> (targets: Vec<usize>)
        requires
            old(self).wf(),
            forall|k: int| 0 <= k < fns@.len() ==> (#[trigger] fns@[k]).mem_use_rates@.len() <= u32::MAX,
        ensures
            final(self).wf(),
            final(self).mech_type == old(self).mech_type,
            targets@.len() == fns@.len(),
            targets_follow_policy(old(self).scale_num, final(self).scale_num, fns@, targets@),
    {
        self.decide_all(fns)
    }

    /// One frame of the mechanism's scaling: none under `no_scale`, an action per
    /// function whose count changes when scaling is separate, and none (the policy's
    /// state still moves on) when it is joint with scheduling.
    pub fn step(&mut self, fns: &Vec<FnScaleInput>) -> (r: Vec<ScaleAction>)
        requires
            old(self).wf(),
            forall|k: int| 0 <= k < fns@.len() ==> (#[trigger] fns@[k]).mem_use_rates@.len() <= u32::MAX,
        ensures
            final(self).wf(),
            old(self).mech_type != MechType::ScaleScheSeparated ==> r@.len() == 0,
            old(self).mech_type == MechType::NoScale ==> final(self).scale_num == old(self).scale_num,
            old(self).mech_type == MechType::ScaleScheSeparated ==> r@ == actions_of(
                fns@,
                decided_targets(old(self).scale_num, fns@),
            ),
            old(self).mech_type != MechType::NoScale ==> policy_after(old(self).scale_num, final(self).scale_num, fns@),
    {
        match self.mech_type {
            MechType::NoScale => Vec::new(),
            MechType::ScaleScheSeparated => {
                let (a, t) = self.step_scale_sche_separated(fns);
                assert(t@.len() == fns@.len());
                a
            },
            MechType::ScaleScheJoint => {
                let t = self.step_scale_sche_joint(fns);
                assert(t@.len() == fns@.len());
                Vec::new()
            },
        }
    }
}

} // verus!
