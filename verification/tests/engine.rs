use stl_rs::engine::{low_pass_lengths, median_ranks};
use stl_rs::{Engine, Phase, Stl, StlParams, StlPlan};

fn plan_with(robust: bool, inner: usize, outer: usize) -> StlPlan {
    let mut params = StlParams::new();
    params.robust(robust).inner_loops(inner).outer_loops(outer);
    params.plan(30, 7).unwrap()
}

fn phases(plan: &StlPlan) -> Vec<Phase> {
    let mut engine = Engine::start(plan);
    let mut seen = vec![engine.phase()];
    while !engine.is_done() {
        engine = engine.step();
        seen.push(engine.phase());
        assert!(seen.len() < 10_000);
    }
    seen
}

#[test]
fn plain_run() {
    let plan = Stl::plan(30, 7).unwrap();
    assert_eq!(
        phases(&plan),
        vec![
            Phase::Initializing,
            Phase::InnerLoop,
            Phase::InnerLoop,
            Phase::InnerLoop,
            Phase::InnerLoop,
            Phase::InnerLoop,
            Phase::Done,
        ]
    );
}

#[test]
fn robust_run() {
    let plan = plan_with(true, 2, 2);
    assert_eq!(
        phases(&plan),
        vec![
            Phase::Initializing,
            Phase::InnerLoop,
            Phase::InnerLoop,
            Phase::RobustnessUpdate,
            Phase::InnerLoop,
            Phase::InnerLoop,
            Phase::RobustnessUpdate,
            Phase::InnerLoop,
            Phase::InnerLoop,
            Phase::Done,
        ]
    );
}

#[test]
fn default_robust_run_has_fifteen_updates() {
    let plan = Stl::params().robust(true).plan(30, 7).unwrap();
    let seen = phases(&plan);
    assert_eq!(seen.iter().filter(|&&p| p == Phase::InnerLoop).count(), 2 * 16);
    assert_eq!(seen.iter().filter(|&&p| p == Phase::RobustnessUpdate).count(), 15);
    assert_eq!(seen.len(), 1 + 16 * 3);
}

#[test]
fn run_length_is_the_budget() {
    for robust in [false, true] {
        for inner in 0usize..5 {
            for outer in 0usize..5 {
                let plan = plan_with(robust, inner, outer);
                let updates = if robust { outer } else { 0 };
                let seen = phases(&plan);
                assert_eq!(seen.len() - 1, (updates + 1) * (inner + 1));
                assert_eq!(
                    seen.iter().filter(|&&p| p == Phase::InnerLoop).count(),
                    (updates + 1) * inner
                );
                assert_eq!(
                    seen.iter().filter(|&&p| p == Phase::RobustnessUpdate).count(),
                    updates
                );
                assert_eq!(seen[0], Phase::Initializing);
                assert_eq!(*seen.last().unwrap(), Phase::Done);
            }
        }
    }
}

#[test]
fn run_without_inner_passes() {
    assert_eq!(phases(&plan_with(false, 0, 0)), vec![Phase::Initializing, Phase::Done]);
    assert_eq!(
        phases(&plan_with(true, 0, 2)),
        vec![
            Phase::Initializing,
            Phase::RobustnessUpdate,
            Phase::RobustnessUpdate,
            Phase::Done
        ]
    );
}

#[test]
fn outer_loops_without_robustness_are_not_run() {
    let plan = plan_with(false, 2, 3);
    let seen = phases(&plan);
    assert!(seen.iter().all(|&p| p != Phase::RobustnessUpdate));
    let mut engine = Engine::start(&plan);
    while !engine.is_done() {
        assert!(!engine.weighted());
        engine = engine.step();
    }
    assert!(!engine.weighted());
}

#[test]
fn weights_come_into_force_with_the_first_update() {
    let plan = plan_with(true, 1, 2);
    let mut engine = Engine::start(&plan);
    let mut trace = Vec::new();
    loop {
        trace.push((engine.phase(), engine.round(), engine.pass(), engine.weighted()));
        if engine.is_done() {
            break;
        }
        engine = engine.step();
    }
    assert_eq!(
        trace,
        vec![
            (Phase::Initializing, 0, 0, false),
            (Phase::InnerLoop, 0, 0, false),
            (Phase::RobustnessUpdate, 0, 0, false),
            (Phase::InnerLoop, 1, 0, true),
            (Phase::RobustnessUpdate, 1, 0, true),
            (Phase::InnerLoop, 2, 0, true),
            (Phase::Done, 2, 0, true),
        ]
    );
}

#[test]
fn pass_counter_counts_within_a_round() {
    let plan = plan_with(true, 3, 1);
    let mut engine = Engine::start(&plan).step();
    assert_eq!((engine.phase(), engine.round(), engine.pass()), (Phase::InnerLoop, 0, 0));
    engine = engine.step();
    assert_eq!((engine.phase(), engine.round(), engine.pass()), (Phase::InnerLoop, 0, 1));
    engine = engine.step();
    assert_eq!((engine.phase(), engine.round(), engine.pass()), (Phase::InnerLoop, 0, 2));
    engine = engine.step();
    assert_eq!((engine.phase(), engine.round(), engine.pass()), (Phase::RobustnessUpdate, 0, 0));
    engine = engine.step();
    assert_eq!((engine.phase(), engine.round(), engine.pass()), (Phase::InnerLoop, 1, 0));
}

#[test]
fn stepping_at_the_end_stays_at_the_end() {
    let plan = plan_with(false, 1, 0);
    let mut engine = Engine::start(&plan).step().step();
    assert!(engine.is_done());
    engine = engine.step();
    assert!(engine.is_done());
    assert_eq!(engine.round(), 0);
}

#[test]
fn low_pass_filter_lengths() {
    let plan = Stl::plan(30, 7).unwrap();
    assert_eq!(low_pass_lengths(&plan), (38, 32, 30));
    let plan = Stl::plan(4, 2).unwrap();
    assert_eq!(low_pass_lengths(&plan), (7, 6, 4));
}

#[test]
fn ranks_of_the_median() {
    assert_eq!(median_ranks(1), (0, 0));
    assert_eq!(median_ranks(2), (0, 1));
    assert_eq!(median_ranks(5), (2, 2));
    assert_eq!(median_ranks(30), (14, 15));
}
