use rand::seq::SliceRandom;
use s_rack::synth::mixer::MonoMixerModule;
use s_rack::synth::output::OutputModule;
use s_rack::synth::{
    get_inputs, plan_execution, AudioConfig, ModuleId, SynthModule, SynthModuleType,
};
use std::collections::HashMap;

fn connect(src: &SynthModuleType, sink: &mut SynthModuleType) {
    let unconnected_idx = get_inputs(&*sink)
        .iter()
        .enumerate()
        .filter(|(_idx, input)| input.is_none())
        .map(|(idx, _)| idx)
        .next()
        .unwrap();
    sink.set_input(unconnected_idx as u8, src.id(), 0).unwrap();
}

fn connect_in(modules: &mut Vec<SynthModuleType>, src: usize, sink: usize) {
    let src_copy = modules[src].deep_clone();
    connect(&src_copy, &mut modules[sink]);
}

#[test]
fn topological_sort() {
    //     0 -> 1 -> 2 -> 3 -> o
    //      \----> 4 -----^
    //        5<->6^
    let ac = AudioConfig {
        buffer_size: 64,
        sample_rate: 44100,
        channels: 2,
    };
    let mut rng = rand::thread_rng();
    let create_mod = || SynthModuleType::MonoMixerModule(MonoMixerModule::new(&ac));
    let mut modules: Vec<SynthModuleType> = (0..7).map(|_| create_mod()).collect();
    modules.push(SynthModuleType::OutputModule(OutputModule::new(&ac)));
    let out = 7;
    connect_in(&mut modules, 0, 1);
    connect_in(&mut modules, 1, 2);
    connect_in(&mut modules, 2, 3);
    connect_in(&mut modules, 3, out);
    connect_in(&mut modules, 0, 4);
    connect_in(&mut modules, 4, 3);
    connect_in(&mut modules, 6, 4);
    connect_in(&mut modules, 5, 6);
    connect_in(&mut modules, 6, 5);
    let ids: Vec<ModuleId> = modules.iter().map(|m| m.id()).collect();
    let out_id = ids[out];
    for _ in 0..1000 {
        let mut indexes: HashMap<ModuleId, usize> = HashMap::new();
        let mut list: Vec<SynthModuleType> = modules.iter().map(|m| m.deep_clone()).collect();
        let mut plan: Vec<usize> = Vec::new();
        list.shuffle(&mut rng);
        plan_execution(out_id, &list, &mut plan);
        println!("---");
        for (idx, place) in plan.iter().enumerate() {
            indexes.insert(list[*place].id(), idx);
        }
        for (idx, mapping) in ids[0..7].iter().map(|m| indexes.get(m).unwrap()).enumerate() {
            println!("{} -> {}", idx, mapping);
        }
        println!("o -> {}", indexes.get(&out_id).unwrap());
        assert!(indexes.get(&ids[0]) < indexes.get(&ids[1]));
        assert!(indexes.get(&ids[1]) < indexes.get(&ids[2]));
        assert!(indexes.get(&ids[2]) < indexes.get(&ids[3]));
        assert!(indexes.get(&ids[3]) < indexes.get(&out_id));
        assert!(indexes.get(&ids[0]) < indexes.get(&ids[4]));
        assert!(indexes.get(&ids[4]) < indexes.get(&ids[3]));
        assert!(indexes.get(&ids[6]) < indexes.get(&ids[4]));
        assert!(indexes.get(&ids[5]) < indexes.get(&ids[6]));
    }
}

fn is_permutation(plan: &Vec<usize>, n: usize) -> bool {
    let mut seen = vec![false; n];
    for at in plan {
        if *at >= n || seen[*at] {
            return false;
        }
        seen[*at] = true;
    }
    plan.len() == n
}

#[test]
fn a_graph_without_loops_is_ordered_by_its_connections() {
    // 3 reads from 1 and 2, 1 and 2 read from 0
    let edges = vec![vec![], vec![0], vec![0], vec![1, 2]];
    assert_eq!(s_rack::synth::planner::toposort(&edges), vec![0, 1, 2, 3]);
    assert_eq!(s_rack::synth::planner::plan_graph(3, edges), vec![0, 1, 2, 3]);
    // the same graph with its nodes the other way round
    let edges = vec![vec![1, 2], vec![3], vec![3], vec![]];
    assert_eq!(s_rack::synth::planner::toposort(&edges), vec![3, 1, 2, 0]);
    // among the nodes that can go next the first goes first
    let edges = vec![vec![], vec![], vec![], vec![]];
    assert_eq!(s_rack::synth::planner::toposort(&edges), vec![0, 1, 2, 3]);
    let edges = vec![vec![3], vec![], vec![], vec![]];
    assert_eq!(s_rack::synth::planner::toposort(&edges), vec![1, 2, 3, 0]);
    assert_eq!(s_rack::synth::planner::toposort(&vec![]), Vec::<usize>::new());
    assert_eq!(s_rack::synth::planner::plan_graph(0, vec![]), Vec::<usize>::new());
}

#[test]
fn loops_are_found() {
    let edges = vec![vec![1], vec![2], vec![0], vec![3], vec![0], vec![]];
    // 0 reads from 1, 1 from 2, 2 from 0: the loop through 0 closes at 2
    assert_eq!(s_rack::synth::planner::is_loop(0, &edges), Some(2));
    assert_eq!(s_rack::synth::planner::is_loop(1, &edges), Some(0));
    assert_eq!(s_rack::synth::planner::is_loop(2, &edges), Some(1));
    // 3 reads from itself
    assert_eq!(s_rack::synth::planner::is_loop(3, &edges), Some(3));
    // 4 reads from a loop without being on one
    assert_eq!(s_rack::synth::planner::is_loop(4, &edges), None);
    assert_eq!(s_rack::synth::planner::is_loop(5, &edges), None);
}

#[test]
fn loops_are_opened_where_they_close() {
    // 0 reads from 1 and 1 from 0; 2 reads from both
    let edges = vec![vec![1], vec![0], vec![0, 1]];
    // the search starts at 2, then goes to what 2 reads from, the last first
    let kept = s_rack::synth::planner::break_cycles(2, edges.clone());
    assert_eq!(kept, vec![vec![], vec![0], vec![0, 1]]);
    assert_eq!(s_rack::synth::planner::toposort(&kept), vec![0, 1, 2]);
    // without a start the nodes are searched from the last to the first
    let kept = s_rack::synth::planner::break_cycles(7, edges.clone());
    assert_eq!(kept, vec![vec![], vec![0], vec![0, 1]]);
    let kept = s_rack::synth::planner::break_cycles(0, edges);
    assert_eq!(kept, vec![vec![1], vec![], vec![0, 1]]);
    // a node that reads from itself twice over
    let kept = s_rack::synth::planner::break_cycles(0, vec![vec![0, 0], vec![0, 1, 0]]);
    assert_eq!(kept, vec![vec![], vec![0, 0]]);
    // connections that are on no loop stay
    let edges = vec![vec![], vec![0, 0], vec![1, 0]];
    assert_eq!(s_rack::synth::planner::break_cycles(2, edges.clone()), edges);
}

#[test]
fn any_graph_gets_a_plan() {
    let mut rng = rand::thread_rng();
    for n in 0..12_usize {
        for _ in 0..50 {
            let edges: Vec<Vec<usize>> = (0..n)
                .map(|_| {
                    let mut all: Vec<usize> = (0..n).collect();
                    all.shuffle(&mut rng);
                    all.truncate(n.min(3));
                    all
                })
                .collect();
            let kept = s_rack::synth::planner::break_cycles(0, edges.clone());
            let plan = s_rack::synth::planner::plan_graph(0, edges.clone());
            assert!(is_permutation(&plan, n));
            assert_eq!(plan, s_rack::synth::planner::toposort(&kept));
            let place: Vec<usize> =
                (0..n).map(|v| plan.iter().position(|at| *at == v).unwrap()).collect();
            for v in 0..n {
                // what is kept is read after it was written
                for u in &kept[v] {
                    assert!(edges[v].contains(u));
                    assert!(place[*u] < place[v]);
                }
                assert_eq!(s_rack::synth::planner::is_loop(v, &kept), None);
                // what is not kept was on a loop
                for u in &edges[v] {
                    if !kept[v].contains(u) {
                        assert!(*u == v || reaches(&edges, *u, v));
                    }
                }
            }
        }
    }
}

fn reaches(edges: &Vec<Vec<usize>>, from: usize, to: usize) -> bool {
    let mut seen = vec![false; edges.len()];
    let mut stack = vec![from];
    while let Some(v) = stack.pop() {
        for u in &edges[v] {
            if *u == to {
                return true;
            }
            if !seen[*u] {
                seen[*u] = true;
                stack.push(*u);
            }
        }
    }
    false
}

#[test]
fn a_patch_with_loops_is_planned() {
    let ac = AudioConfig { buffer_size: 8, sample_rate: 44100, channels: 2 };
    // a mixer that reads from itself, and two that read from each other
    let mut modules: Vec<SynthModuleType> = (0..3)
        .map(|_| SynthModuleType::MonoMixerModule(MonoMixerModule::new(&ac)))
        .collect();
    modules.push(SynthModuleType::OutputModule(OutputModule::new(&ac)));
    connect_in(&mut modules, 0, 0);
    connect_in(&mut modules, 1, 2);
    connect_in(&mut modules, 2, 1);
    connect_in(&mut modules, 2, 3);
    connect_in(&mut modules, 0, 3);
    let out_id = modules[3].id();
    let mut plan = vec![9, 9];
    plan_execution(out_id, &modules, &mut plan);
    // the loop between 1 and 2 is opened where 1 reads from 2
    assert_eq!(plan, vec![0, 1, 2, 3]);
    // an output that is not in the list changes where the search starts
    plan_execution(12345, &modules, &mut plan);
    assert!(is_permutation(&plan, 4));
    // a connection to a module that is not in the list counts for nothing
    modules[1].set_input(3, 777, 0).unwrap();
    plan_execution(out_id, &modules, &mut plan);
    assert_eq!(plan, vec![0, 1, 2, 3]);
    plan_execution(out_id, &vec![], &mut plan);
    assert_eq!(plan, Vec::<usize>::new());
}
