use serverless_sim::fn_dag::{check_tasks, DagError, DagTask, FnDAG, SCALE};
use serverless_sim::sim_env::{AppConfig, AppDagType, DagType, FnType, SimEnv};

fn task(id: usize, deps: Vec<usize>) -> DagTask {
    DagTask { task_id: id, dependencies: deps }
}

fn sources(dag: &FnDAG) -> Vec<usize> {
    let edges = dag.edge_list();
    (0..dag.node_count()).filter(|n| !edges.iter().any(|e| e.1 == *n)).collect()
}

#[test]
fn test_instance_map_reduce() {
    let mut env = SimEnv::new(1, FnType::Cpu, DagType::Dag);
    let dag_id = 1;
    let tasks = vec![task(1, vec![]), task(2, vec![1]), task(3, vec![1]), task(4, vec![2, 3])];
    let dag = FnDAG::dag_from_csv(dag_id, &mut env, &tasks).unwrap();
    assert!(dag.node_count() > 0, "DAG should have at least one node");
    assert!(dag.edge_count() > 0, "DAG should have at least one edge");
}

#[test]
fn map_reduce_counts_nodes_and_edges() {
    let mut env = SimEnv::new(7, FnType::Cpu, DagType::Single);
    let dag = FnDAG::instance_map_reduce(0, &mut env, 3);
    assert_eq!(dag.node_count(), 5);
    assert_eq!(dag.edge_count(), 6);
    assert_eq!(env.fns.len(), 5);
    assert_eq!(sources(&dag), vec![dag.begin_fn_g_i]);
}

#[test]
fn map_reduce_edge_weights_are_source_output() {
    let mut env = SimEnv::new(11, FnType::Data, DagType::Single);
    let dag = FnDAG::instance_map_reduce(4, &mut env, 4);
    for (u, v, w) in dag.edge_list() {
        let f = dag.node_fn(u).unwrap();
        assert_eq!(w, env.fns[f].out_put_size);
        assert!(v < dag.node_count());
    }
    for n in 0..dag.node_count() {
        let f = dag.node_fn(n).unwrap();
        assert_eq!(env.fns[f].dag_id, 4);
        assert_eq!(env.fns[f].graph_i, n);
        assert!(dag.contains_fn(&env, f));
    }
}

#[test]
fn map_reduce_without_middle_links_begin_to_end() {
    let mut env = SimEnv::new(3, FnType::Cpu, DagType::Single);
    let dag = FnDAG::instance_map_reduce(0, &mut env, 0);
    assert_eq!(dag.node_count(), 2);
    assert_eq!(dag.edge_count(), 1);
    assert_eq!(dag.begin_fn_g_i, 0);
    assert_eq!(dag.edge_list(), vec![(0, 1, env.fns[0].out_put_size)]);
    assert_eq!(sources(&dag), vec![0]);
}

#[test]
fn single_fn_dag_has_one_source() {
    let mut env = SimEnv::new(5, FnType::Cpu, DagType::Single);
    let dag = FnDAG::instance_single_fn(0, &mut env);
    assert_eq!(dag.node_count(), 1);
    assert_eq!(dag.edge_count(), 0);
    assert_eq!(sources(&dag), vec![0]);
}

#[test]
fn random_functions_stay_in_range() {
    let mut env = SimEnv::new(42, FnType::Cpu, DagType::Single);
    for _ in 0..50 {
        let id = env.fn_gen_rand_fn();
        let f = env.fns[id];
        assert!(f.cpu >= 10 * SCALE && f.cpu <= 100 * SCALE);
        assert!(f.mem >= 100 * SCALE && f.mem <= 1000 * SCALE);
        assert!(f.out_put_size >= SCALE / 10 && f.out_put_size <= 20 * SCALE);
        assert!(f.cold_start_time >= 50 && f.cold_start_time <= 100);
        assert_eq!(f.cold_start_container_mem_use, 100 * SCALE);
    }
}

#[test]
fn csv_single_free_task_is_begin() {
    let mut env = SimEnv::new(9, FnType::Cpu, DagType::Dag);
    let tasks = vec![task(5, vec![])];
    let dag = FnDAG::dag_from_csv(0, &mut env, &tasks).unwrap();
    assert_eq!(dag.node_count(), 1);
    assert_eq!(dag.begin_fn_g_i, 0);
    assert_eq!(dag.edge_count(), 0);
}

#[test]
fn csv_begin_is_first_free_task() {
    let mut env = SimEnv::new(9, FnType::Cpu, DagType::Dag);
    let tasks = vec![task(2, vec![]), task(1, vec![2]), task(3, vec![])];
    let dag = FnDAG::dag_from_csv(0, &mut env, &tasks).unwrap();
    assert_eq!(dag.begin_fn_g_i, 0);
    assert_eq!(tasks[dag.begin_fn_g_i].task_id, 2);
    assert_eq!(dag.edge_list().iter().map(|e| (e.0, e.1)).collect::<Vec<_>>(), vec![(0, 1)]);
}

#[test]
fn csv_without_free_task_is_refused() {
    let tasks = vec![task(1, vec![2]), task(2, vec![1])];
    assert_eq!(check_tasks(&tasks), Err(DagError::NoBeginTask));
}

#[test]
fn csv_unknown_dependency_is_named() {
    let tasks = vec![task(1, vec![]), task(2, vec![7])];
    assert_eq!(check_tasks(&tasks), Err(DagError::UnknownDependency(7)));
}

#[test]
fn csv_cycle_is_refused() {
    let mut env = SimEnv::new(9, FnType::Cpu, DagType::Dag);
    let tasks = vec![task(1, vec![]), task(2, vec![1, 3]), task(3, vec![2])];
    assert_eq!(check_tasks(&tasks), Ok(()));
    assert!(matches!(FnDAG::dag_from_csv(0, &mut env, &tasks), Err(DagError::WouldCycle(2, 3))));
}

#[test]
fn gen_dags_single_makes_hundred() {
    let mut env = SimEnv::new(1, FnType::Cpu, DagType::Single);
    env.fn_gen_fn_dags(&vec![]).unwrap();
    assert_eq!(env.dags.len(), 100);
    for (i, d) in env.dags.iter().enumerate() {
        assert_eq!(d.dag_i, i);
        assert_eq!(d.node_count(), 1);
    }
}

#[test]
fn gen_dags_mix_makes_fifty() {
    let mut env = SimEnv::new(1, FnType::Data, DagType::Mix);
    let tasks = vec![task(1, vec![]), task(2, vec![1])];
    env.fn_gen_fn_dags(&tasks).unwrap();
    assert_eq!(env.dags.len(), 50);
    assert_eq!(env.dags[19].node_count(), 1);
    assert_eq!(env.dags[20].node_count(), 2);
}

#[test]
fn gen_dags_same_seed_same_functions() {
    let tasks = vec![task(1, vec![]), task(2, vec![1]), task(3, vec![1])];
    let mut a = SimEnv::new(77, FnType::Cpu, DagType::Dag);
    let mut b = SimEnv::new(77, FnType::Cpu, DagType::Dag);
    a.fn_gen_fn_dags(&tasks).unwrap();
    b.fn_gen_fn_dags(&tasks).unwrap();
    assert_eq!(a.fns.len(), b.fns.len());
    for (x, y) in a.fns.iter().zip(b.fns.iter()) {
        assert_eq!((x.cpu, x.mem, x.out_put_size, x.cold_start_time), (y.cpu, y.mem, y.out_put_size, y.cold_start_time));
    }
}

#[test]
fn apptype_branch_builds_map_reduce() {
    let mut env = SimEnv::new(2, FnType::Cpu, DagType::Single);
    env.gen_dags_for_apptype(&AppConfig { app_cnt: 3, dag_type: AppDagType::Branch });
    assert_eq!(env.dags.len(), 3);
    for d in env.dags.iter() {
        let k = d.node_count() - 2;
        assert!(k >= 2 && k <= 5);
        assert_eq!(d.edge_count(), 2 * k);
    }
}

#[test]
fn parent_and_sub_fns_follow_edges() {
    let mut env = SimEnv::new(8, FnType::Cpu, DagType::Single);
    let dag = FnDAG::instance_map_reduce(0, &mut env, 2);
    env.dags.push(dag);
    let begin = env.fns[0];
    let end = env.fns[1];
    let mut subs = begin.sub_fns(&env);
    subs.sort();
    assert_eq!(subs, vec![2, 3]);
    let mut parents = end.parent_fns(&env);
    parents.sort();
    assert_eq!(parents, vec![2, 3]);
    assert!(env.fns[2].parent_fns(&env) == vec![0]);
}

#[test]
fn walker_gives_topological_order() {
    let mut env = SimEnv::new(4, FnType::Cpu, DagType::Dag);
    let tasks = vec![task(4, vec![2, 3]), task(1, vec![]), task(2, vec![1]), task(3, vec![1])];
    let dag = FnDAG::dag_from_csv(0, &mut env, &tasks).unwrap();
    assert_eq!(dag.begin_fn_g_i, 1);
    assert_eq!(dag.edge_count(), 4);
    let order = dag.new_dag_walker();
    assert_eq!(order.len(), 4);
    let pos = |n: usize| order.iter().position(|x| *x == n).unwrap();
    for (u, v, _) in dag.edge_list() {
        assert!(pos(u) < pos(v));
    }
}

#[test]
fn csv_unknown_dependency_comes_before_cycle() {
    let tasks = vec![task(1, vec![]), task(2, vec![3]), task(3, vec![2]), task(4, vec![8])];
    assert_eq!(check_tasks(&tasks), Err(DagError::UnknownDependency(8)));
}

#[test]
fn gen_dags_with_cyclic_tasks_fails() {
    let mut env = SimEnv::new(1, FnType::Cpu, DagType::Dag);
    let tasks = vec![task(1, vec![]), task(2, vec![3]), task(3, vec![2])];
    assert!(env.fn_gen_fn_dags(&tasks).is_err());
}

#[test]
fn end_function_has_every_middle_as_parent() {
    let mut env = SimEnv::new(8, FnType::Cpu, DagType::Single);
    let dag = FnDAG::instance_map_reduce(0, &mut env, 3);
    env.dags.push(dag);
    let end = env.fns[1];
    let mut parents = end.parent_fns(&env);
    parents.sort();
    assert_eq!(parents, vec![2, 3, 4]);
    assert!(env.fns[2].sub_fns(&env) == vec![1]);
}

#[test]
fn checked_lists_pass() {
    assert_eq!(check_tasks(&vec![task(2, vec![]), task(1, vec![2]), task(3, vec![])]), Ok(()));
    assert_eq!(check_tasks(&vec![]), Err(DagError::NoBeginTask));
}
