use serverless_sim::hpa::{CarefulScaleDownFilter, HpaScaleNum, CAREFUL_DOWN_TICKS};
use serverless_sim::fn_dag::SCALE;
use serverless_sim::mechanism::{
    new_scale_up_exec, scale_action, Config, ConfigNewMec, FnScaleInput, MechConfError, MechConfig, MechType,
    MechanismImpl, ScaleAction, ScaleDownExecKind, ScaleNumPolicy, ScaleUpExecKind, ScheKind,
};

fn conf(mech: &str, sche: &str, num: &str, down: &str, up: &str) -> Config {
    let p = |s: &str| (s.to_string(), String::new());
    Config {
        mech: MechConfig {
            mech_type: mech.to_string(),
            sche_conf: p(sche),
            scale_num_conf: p(num),
            scale_down_exec_conf: p(down),
            scale_up_exec_conf: p(up),
        },
    }
}

fn rate(x: f64) -> u64 {
    (x * SCALE as f64).round() as u64
}

#[test]
fn hpa_band_skips_scaling() {
    let mut h = HpaScaleNum::new();
    assert_eq!(h.scale_for_fn(1, &vec![rate(0.45)], 0), (0, false));
    assert_eq!(h.scale_for_fn(2, &vec![rate(0.55)], 0), (0, false));
    assert_eq!(h.scale_for_fn(3, &vec![rate(0.45), rate(0.55)], 0), (0, false));
    assert!(h.fn_sche_container_count.is_empty());
    assert_eq!(h.fn_available_count(1), 0);
}

#[test]
fn hpa_above_band_scales_up() {
    let mut h = HpaScaleNum::new();
    h.scale_for_fn(1, &vec![rate(0.7)], 0);
    assert_eq!(h.fn_available_count(1), 2);
}

#[test]
fn hpa_waiting_requests_need_a_container() {
    let mut h = HpaScaleNum::new();
    h.scale_for_fn(5, &vec![], 3);
    assert_eq!(h.fn_available_count(5), 1);
    h.scale_for_fn(6, &vec![], 0);
    assert_eq!(h.fn_available_count(6), 0);
}

#[test]
fn hpa_scale_down_is_held_back() {
    let mut h = HpaScaleNum::new();
    let rates = vec![rate(0.1), rate(0.1), rate(0.1), rate(0.1)];
    for _ in 1..CAREFUL_DOWN_TICKS {
        h.scale_for_fn(1, &rates, 0);
        assert_eq!(h.fn_available_count(1), 4);
    }
    h.scale_for_fn(1, &rates, 0);
    assert_eq!(h.fn_available_count(1), 1);
}

#[test]
fn careful_filter_passes_increases() {
    let mut f = CarefulScaleDownFilter::new();
    assert_eq!(f.filter_desired(1, 3, 2), 3);
    assert_eq!(f.filter_desired(1, 1, 2), 2);
}

#[test]
fn no_scale_with_hpa_is_refused() {
    let c = conf("no_scale", "faasflow", "hpa", "default", "no");
    assert!(c.new_mec().is_none());
    assert!(matches!(c.check_mech(), Err(MechConfError::ScaleNum)));
}

#[test]
fn separated_mode_is_refused() {
    let c = conf("scale_sche_separated", "pos", "hpa", "default", "least_task");
    assert!(c.new_mec().is_none());
    assert!(matches!(c.check_mech(), Err(MechConfError::MechType)));
}

#[test]
fn unknown_names_are_refused() {
    assert!(matches!(conf("other", "pos", "hpa", "default", "least_task").check_mech(), Err(MechConfError::MechType)));
    assert!(matches!(conf("scale_sche_joint", "gofs", "hpa", "default", "least_task").check_mech(), Err(MechConfError::Sche)));
    assert!(matches!(conf("scale_sche_joint", "pos", "hpa", "default", "no").check_mech(), Err(MechConfError::ScaleUpExec)));
    assert!(matches!(conf("no_scale", "pos", "no", "default", "no").check_mech(), Err(MechConfError::Sche)));
}

#[test]
fn allowed_compositions_build() {
    let m = conf("no_scale", "pass", "no", "default", "no").new_mec().unwrap();
    assert_eq!(m.mech_type, MechType::NoScale);
    assert_eq!(m.sche, ScheKind::Pass);
    assert_eq!(*m.scale_up_exec(), ScaleUpExecKind::No);
    assert_eq!(*m.scale_down_exec(), ScaleDownExecKind::Default);
    let m = conf("scale_sche_joint", "pos", "hpa", "default", "least_task").new_mec().unwrap();
    assert_eq!(m.mech_type, MechType::ScaleScheJoint);
    assert!(matches!(m.scale_num(), ScaleNumPolicy::Hpa(_)));
    assert_eq!(*m.scale_up_exec(), ScaleUpExecKind::LeastTask);
}

#[test]
fn scale_up_exec_by_name() {
    assert_eq!(new_scale_up_exec(&"least_task".to_string()), Some(ScaleUpExecKind::LeastTask));
    assert_eq!(new_scale_up_exec(&"no".to_string()), Some(ScaleUpExecKind::No));
    assert_eq!(new_scale_up_exec(&"x".to_string()), None);
}

#[test]
fn scale_actions_follow_target() {
    assert_eq!(scale_action(1, 3, 1), Some(ScaleAction::Up { fnid: 1, target: 3 }));
    assert_eq!(scale_action(1, 1, 3), Some(ScaleAction::Down { fnid: 1, cnt: 2 }));
    assert_eq!(scale_action(1, 2, 2), None);
}

#[test]
fn separated_step_emits_actions() {
    let mut m = MechanismImpl {
        mech_type: MechType::ScaleScheSeparated,
        sche: ScheKind::Pos,
        scale_num: ScaleNumPolicy::Hpa(HpaScaleNum::new()),
        scale_down_exec: ScaleDownExecKind::Default,
        scale_up_exec: ScaleUpExecKind::LeastTask,
    };
    let fns = vec![
        FnScaleInput { fnid: 0, mem_use_rates: vec![rate(0.7)], unsche_req_cnt: 0 },
        FnScaleInput { fnid: 1, mem_use_rates: vec![rate(0.5)], unsche_req_cnt: 0 },
        FnScaleInput { fnid: 2, mem_use_rates: vec![], unsche_req_cnt: 2 },
    ];
    let acts = m.step(&fns);
    // function 1 sits in the band, so no count was ever decided for it: its target reads as zero
    assert_eq!(
        acts,
        vec![
            ScaleAction::Up { fnid: 0, target: 2 },
            ScaleAction::Down { fnid: 1, cnt: 1 },
            ScaleAction::Up { fnid: 2, target: 1 },
        ]
    );
}

#[test]
fn joint_and_no_scale_steps_emit_nothing() {
    let mut m = conf("scale_sche_joint", "pos", "hpa", "default", "least_task").new_mec().unwrap();
    let fns = vec![FnScaleInput { fnid: 0, mem_use_rates: vec![rate(0.9)], unsche_req_cnt: 0 }];
    assert!(m.step(&fns).is_empty());
    let mut m = conf("no_scale", "fnsche", "no", "default", "no").new_mec().unwrap();
    assert!(m.step(&fns).is_empty());
}

use serverless_sim::mechanism::UpCmd;
use serverless_sim::up_exec::{exec_scale_up, least_task_pick, NodeLoad};

fn load(node_id: usize, task_cnt: usize, has_fn: bool) -> NodeLoad {
    NodeLoad { node_id, task_cnt, has_fn }
}

#[test]
fn least_task_picks_fewest_tasks_then_lowest_id() {
    let nodes = vec![load(0, 5, false), load(1, 2, false), load(2, 2, false), load(3, 0, true), load(4, 9, false)];
    assert_eq!(least_task_pick(&nodes, 3), vec![1, 2, 0]);
    assert_eq!(least_task_pick(&nodes, 10), vec![1, 2, 0, 4]);
    assert!(least_task_pick(&nodes, 0).is_empty());
}

#[test]
fn least_task_scale_up_reaches_target() {
    let nodes = vec![load(10, 3, true), load(11, 1, false), load(12, 0, false)];
    assert_eq!(
        exec_scale_up(3, 7, &nodes),
        vec![UpCmd { nid: 12, fnid: 7 }, UpCmd { nid: 11, fnid: 7 }]
    );
    assert!(exec_scale_up(1, 7, &nodes).is_empty());
}
