use std::collections::{HashMap, HashSet};

use serverless_sim::container::{apply_down_cmd, DownCmdError, FnContainer, FnContainerState, Frac, RunningTask};
use serverless_sim::fn_dag::{FnDAG, CONTAINER_BASIC_MEM, SCALE};
use serverless_sim::mechanism::DownCmd;
use serverless_sim::sim_env::{DagType, FnType, Request, SimEnv};

fn env_with_fn() -> SimEnv {
    let mut env = SimEnv::new(3, FnType::Cpu, DagType::Single);
    let dag = FnDAG::instance_single_fn(0, &mut env);
    env.dags.push(dag);
    env
}

fn running_container(env: &SimEnv) -> FnContainer {
    let mut c = FnContainer::new(0, 4, env);
    c.set_state(FnContainerState::Running);
    c
}

fn value(f: Frac) -> (u128, u128) {
    (f.num, f.den)
}

#[test]
fn new_container_is_starting() {
    let env = env_with_fn();
    let c = FnContainer::new(0, 4, &env);
    assert_eq!(*c.state(), FnContainerState::Starting { left_frame: env.fns[0].cold_start_time });
    assert!(!c.is_running());
    assert!(!c.is_idle());
    assert_eq!(c.mem_take(&env), 100 * SCALE);
    assert_eq!(c.container_basic_mem(&env), 100 * SCALE);
}

#[test]
fn cold_start_counts_down_to_running() {
    let env = env_with_fn();
    let mut c = FnContainer::new(0, 4, &env);
    let k = env.fns[0].cold_start_time;
    for step in 1..k {
        assert!(!c.starting_left_frame_move_on());
        assert_eq!(*c.state(), FnContainerState::Starting { left_frame: k - step });
    }
    assert!(c.starting_left_frame_move_on());
    assert!(c.is_running());
    assert!(c.is_idle());
    assert_eq!(c.mem_take(&env), CONTAINER_BASIC_MEM);
}

#[test]
fn idle_means_running_without_tasks() {
    let env = env_with_fn();
    let mut c = running_container(&env);
    assert!(c.is_idle());
    c.req_fn_state.insert(1, RunningTask { data_recv: vec![], left_calc: 5 });
    assert!(!c.is_idle());
    assert!(c.is_running());
}

#[test]
fn windows_keep_last_twenty() {
    let env = env_with_fn();
    let mut c = running_container(&env);
    for i in 0..25 {
        c.record_this_frame(&env, i, 2 * i);
    }
    assert_eq!(c.recent_frames_done_cnt.len(), 20);
    assert_eq!(c.recent_frames_working_cnt.len(), 20);
    assert_eq!(c.recent_frames_done_cnt[0], 5);
    assert_eq!(c.recent_frames_done_cnt[19], 24);
    assert_eq!(c.recent_frames_working_cnt[0], 10);
}

#[test]
fn busyness_of_empty_and_single_windows() {
    let env = env_with_fn();
    let mut c = running_container(&env);
    assert_eq!(c.busyness().num, 0);
    c.record_this_frame(&env, 0, 7);
    let b = c.busyness();
    assert_eq!(b.num, 7 * b.den);
}

#[test]
fn busyness_weighs_recent_frames_more() {
    let env = env_with_fn();
    let mut c = running_container(&env);
    c.record_this_frame(&env, 0, 1);
    c.record_this_frame(&env, 0, 2);
    c.record_this_frame(&env, 0, 3);
    // (1*1 + 2*2 + 3*3) / 3
    assert_eq!(value(c.busyness()), (14, 3));
}

#[test]
fn handle_speed_is_mean_done() {
    let env = env_with_fn();
    let mut c = running_container(&env);
    assert_eq!(c.recent_handle_speed().num, 0);
    c.record_this_frame(&env, 2, 0);
    c.record_this_frame(&env, 4, 0);
    assert_eq!(value(c.recent_handle_speed()), (6, 2));
}

#[test]
fn recent_idle_looks_at_last_frames() {
    let env = env_with_fn();
    let mut c = running_container(&env);
    c.record_this_frame(&env, 0, 3);
    c.record_this_frame(&env, 0, 0);
    c.record_this_frame(&env, 0, 0);
    assert!(c.recent_frame_is_idle(2));
    assert!(!c.recent_frame_is_idle(3));
    assert!(!c.recent_frame_is_idle(10));
}

#[test]
fn use_freq_at_birth_is_zero() {
    let mut env = env_with_fn();
    env.frame = 12;
    let mut c = running_container(&env);
    c.used_times = 6;
    assert_eq!(c.use_freq(&env).num, 0);
    env.frame = 15;
    assert_eq!(value(c.use_freq(&env)), (6, 3));
}

#[test]
fn cpu_use_rate_is_used_over_alloced() {
    let env = env_with_fn();
    let mut c = running_container(&env);
    c.set_cpu_use_rate(4 * SCALE, SCALE);
    assert_eq!(value(c.cpu_use_rate()), (SCALE as u128, 4 * SCALE as u128));
}

#[test]
fn data_and_compute_done() {
    let t = RunningTask { data_recv: vec![(1, 10, 9), (2, 5, 5)], left_calc: 0 };
    assert!(t.data_recv_done());
    assert!(t.compute_done());
    let t = RunningTask { data_recv: vec![(1, 10, 8)], left_calc: 1 };
    assert!(!t.data_recv_done());
    assert!(!t.compute_done());
}

#[test]
fn down_cmd_on_busy_container_fails() {
    let env = env_with_fn();
    let mut c = running_container(&env);
    c.req_fn_state.insert(1, RunningTask { data_recv: vec![], left_calc: 5 });
    let mut cs = vec![c];
    let r = apply_down_cmd(&mut cs, DownCmd { nid: 4, fnid: 0 });
    assert_eq!(r, Err(DownCmdError::NotIdle));
    assert_eq!(cs.len(), 1);
}

#[test]
fn down_cmd_on_starting_container_fails() {
    let env = env_with_fn();
    let mut cs = vec![FnContainer::new(0, 4, &env)];
    assert_eq!(apply_down_cmd(&mut cs, DownCmd { nid: 4, fnid: 0 }), Err(DownCmdError::NotIdle));
    assert_eq!(cs.len(), 1);
}

#[test]
fn down_cmd_evicts_idle_container() {
    let env = env_with_fn();
    let mut cs = vec![running_container(&env)];
    assert_eq!(apply_down_cmd(&mut cs, DownCmd { nid: 5, fnid: 0 }), Err(DownCmdError::NoContainer));
    assert_eq!(apply_down_cmd(&mut cs, DownCmd { nid: 4, fnid: 0 }), Ok(()));
    assert!(cs.is_empty());
}

#[test]
fn new_running_task_needs_parent_output() {
    let mut env = SimEnv::new(3, FnType::Cpu, DagType::Single);
    let dag = FnDAG::instance_map_reduce(0, &mut env, 2);
    env.dags.push(dag);
    let mut fn_node = HashMap::new();
    fn_node.insert(2, 7);
    let req = Request { req_id: 0, dag_i: 0, fn_node, done_fns: HashSet::new(), begin_frame: 0 };
    // the end function's parents are 2 and 3; 3 is not placed yet
    assert!(env.fn_new_fn_running_state(&req, 1).is_none());
    let mut req = req;
    req.fn_node.insert(3, 7);
    let t = env.fn_new_fn_running_state(&req, 1).unwrap();
    assert_eq!(t.left_calc, env.fns[1].cpu as i64);
    assert_eq!(t.data_recv, vec![(7, env.fns[2].out_put_size + env.fns[3].out_put_size, 0)]);
    req.fn_node.insert(0, 1);
    let t = env.fn_new_fn_running_state(&req, 2).unwrap();
    assert_eq!(t.data_recv, vec![(1, env.fns[0].out_put_size, 0)]);
}

#[test]
fn request_done_when_every_function_done() {
    let mut env = SimEnv::new(3, FnType::Cpu, DagType::Single);
    let dag = FnDAG::instance_map_reduce(0, &mut env, 1);
    let mut req = Request { req_id: 0, dag_i: 0, fn_node: HashMap::new(), done_fns: HashSet::new(), begin_frame: 0 };
    req.done_fns.insert(0);
    req.done_fns.insert(2);
    assert!(!req.is_done(&dag));
    req.done_fns.insert(1);
    assert!(req.is_done(&dag));
}

use serverless_sim::container::advance_compute;

#[test]
fn ready_tasks_share_cpu_equally() {
    let mut tasks = vec![
        RunningTask { data_recv: vec![(1, 5, 5)], left_calc: 100 },
        RunningTask { data_recv: vec![(2, 5, 5)], left_calc: 40 },
        RunningTask { data_recv: vec![(3, 5, 0)], left_calc: 50 },
        RunningTask { data_recv: vec![], left_calc: 30 },
    ];
    let (share, used) = advance_compute(&mut tasks, 90);
    assert_eq!(share, 30);
    assert_eq!(used, 90);
    assert_eq!(tasks.iter().map(|t| t.left_calc).collect::<Vec<_>>(), vec![70, 10, 50, 0]);
    assert!(tasks[3].compute_done());
}

#[test]
fn no_ready_task_uses_no_cpu() {
    let mut tasks = vec![RunningTask { data_recv: vec![(1, 9, 0)], left_calc: 10 }];
    assert_eq!(advance_compute(&mut tasks, 50), (0, 0));
    assert_eq!(tasks[0].left_calc, 10);
}

use serverless_sim::container::age_cold_starts;

#[test]
fn cold_starts_age_together() {
    let env = env_with_fn();
    let k = env.fns[0].cold_start_time;
    let mut a = FnContainer::new(0, 1, &env);
    a.set_state(FnContainerState::Starting { left_frame: 1 });
    let b = FnContainer::new(0, 2, &env);
    let c = running_container(&env);
    let mut cs = vec![a, b, c];
    let started = age_cold_starts(&mut cs);
    assert_eq!(started, vec![0]);
    assert!(cs[0].is_running());
    assert_eq!(*cs[1].state(), FnContainerState::Starting { left_frame: k - 1 });
    assert!(cs[2].is_running());
}

#[test]
fn request_retires_after_every_task_computed() {
    let mut env = SimEnv::new(3, FnType::Cpu, DagType::Single);
    let dag = FnDAG::instance_map_reduce(0, &mut env, 1);
    let mut req = Request { req_id: 0, dag_i: 0, fn_node: HashMap::new(), done_fns: HashSet::new(), begin_frame: 0 };
    req.record_task(0, &RunningTask { data_recv: vec![], left_calc: 0 });
    req.record_task(2, &RunningTask { data_recv: vec![], left_calc: -3 });
    req.record_task(1, &RunningTask { data_recv: vec![], left_calc: 4 });
    assert!(!req.is_done(&dag));
    req.record_task(1, &RunningTask { data_recv: vec![], left_calc: 0 });
    assert!(req.is_done(&dag));
}
