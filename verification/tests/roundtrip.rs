use compute_roundtrip::config::RunConfig;
use compute_roundtrip::model::ModelBuffers;
use compute_roundtrip::plan::Command;
use compute_roundtrip::plan::build_plan;
use compute_roundtrip::readback::ReadbackOutcome;
use compute_roundtrip::readback::finish_readback;
use compute_roundtrip::readback::received_byte_count;
use compute_roundtrip::seed::zero_seed;
use compute_roundtrip::words::bytes_from_words;

fn dispatch_count(plan: &[Command]) -> usize {
    plan.iter().filter(|c| matches!(c, Command::Dispatch { .. })).count()
}

#[test]
fn seed_is_all_zero() {
    let data = zero_seed(1);
    assert_eq!(data, vec![0u32]);
    let data = zero_seed(5);
    assert_eq!(data.len(), 5);
    assert!(data.iter().all(|&w| w == 0));
}

#[test]
fn data_size_is_four_bytes_per_entry() {
    let cfg = RunConfig { entries: 5, iterations: 0, sync_interval: 0 };
    assert_eq!(cfg.data_size(), 20);
    let cfg = RunConfig { entries: 200_000, iterations: 10, sync_interval: 0 };
    assert_eq!(cfg.data_size(), 800_000);
}

#[test]
fn plan_copies_carry_data_size() {
    let cfg = RunConfig { entries: 200_000, iterations: 10, sync_interval: 0 };
    let plan = build_plan(&cfg);
    for cmd in &plan {
        match cmd {
            Command::SeedCopy { bytes } => assert_eq!(*bytes, 800_000),
            Command::ReadbackCopy { bytes } => assert_eq!(*bytes, 800_000),
            Command::Dispatch { groups } => assert_eq!(*groups, 200_000),
            Command::SyncWait => {}
        }
    }
}

#[test]
fn plan_shape_matches_config() {
    let cfg = RunConfig { entries: 5, iterations: 3, sync_interval: 0 };
    let plan = build_plan(&cfg);
    assert_eq!(
        plan,
        vec![
            Command::SeedCopy { bytes: 20 },
            Command::Dispatch { groups: 5 },
            Command::Dispatch { groups: 5 },
            Command::Dispatch { groups: 5 },
            Command::ReadbackCopy { bytes: 20 },
        ]
    );
}

#[test]
fn plan_sync_interval_inserts_waits() {
    let cfg = RunConfig { entries: 1, iterations: 5, sync_interval: 2 };
    let plan = build_plan(&cfg);
    assert_eq!(
        plan,
        vec![
            Command::SeedCopy { bytes: 4 },
            Command::Dispatch { groups: 1 },
            Command::Dispatch { groups: 1 },
            Command::SyncWait,
            Command::Dispatch { groups: 1 },
            Command::Dispatch { groups: 1 },
            Command::SyncWait,
            Command::Dispatch { groups: 1 },
            Command::ReadbackCopy { bytes: 4 },
        ]
    );
}

#[test]
fn five_entries_zero_iterations_reports_twenty_bytes() {
    let cfg = RunConfig { entries: 5, iterations: 0, sync_interval: 0 };
    let plan = build_plan(&cfg);
    assert_eq!(
        plan,
        vec![Command::SeedCopy { bytes: 20 }, Command::ReadbackCopy { bytes: 20 }]
    );

    // The storage buffer starts undefined; after the seed copy it must hold
    // five zero values.
    let mut model = ModelBuffers { staging: zero_seed(5), storage: vec![7, 7, 7, 7, 7] };
    model.apply_command(&plan[0], &Vec::new());
    assert_eq!(model.storage, vec![0u32; 5]);
    assert_eq!(model.storage, model.staging);
    model.apply_command(&plan[1], &Vec::new());

    let mapped = bytes_from_words(&model.staging);
    assert_eq!(mapped.len(), 20);
    match finish_readback(&cfg, Some(&mapped)) {
        ReadbackOutcome::Received { data } => {
            assert_eq!(data, vec![0u32; 5]);
            assert_eq!(received_byte_count(&data), 20);
        }
        ReadbackOutcome::MappingFailed => panic!("mapping reported failed"),
    }
}

#[test]
fn large_run_reports_eight_hundred_thousand_bytes() {
    let cfg = RunConfig { entries: 200_000, iterations: 10, sync_interval: 0 };
    let plan = build_plan(&cfg);
    assert_eq!(plan.len(), 12);
    assert_eq!(dispatch_count(&plan), 10);
    assert_eq!(plan[0], Command::SeedCopy { bytes: 800_000 });
    assert_eq!(plan[11], Command::ReadbackCopy { bytes: 800_000 });

    let mapped = vec![0u8; 800_000];
    match finish_readback(&cfg, Some(&mapped)) {
        ReadbackOutcome::Received { data } => {
            assert_eq!(data.len(), 200_000);
            assert_eq!(received_byte_count(&data), 800_000);
        }
        ReadbackOutcome::MappingFailed => panic!("mapping reported failed"),
    }
}

#[test]
fn failed_mapping_is_reported_explicitly() {
    // The configuration documented as reliably failing: the mapping never
    // succeeds, and the failure must surface as an explicit outcome.
    let cfg = RunConfig { entries: 1_000_000, iterations: 100, sync_interval: 0 };
    let outcome = finish_readback(&cfg, None);
    assert_eq!(outcome, ReadbackOutcome::MappingFailed);
}

#[test]
fn repeated_runs_report_the_same_byte_count() {
    let cfg = RunConfig { entries: 4, iterations: 3, sync_interval: 0 };
    let plan = build_plan(&cfg);

    // Two runs whose dispatches compute different things, starting from
    // different undefined storage contents.
    let effects_a: Vec<Vec<u32>> = (0..plan.len()).map(|i| vec![i as u32; 4]).collect();
    let effects_b: Vec<Vec<u32>> = (0..plan.len()).map(|i| vec![90 + i as u32; 4]).collect();

    let mut run_a = ModelBuffers { staging: zero_seed(4), storage: vec![1, 2, 3, 4] };
    run_a.run_plan(&plan, &effects_a);
    let mut run_b = ModelBuffers { staging: zero_seed(4), storage: vec![9, 9, 9, 9] };
    run_b.run_plan(&plan, &effects_b);

    let count_a = match finish_readback(&cfg, Some(&bytes_from_words(&run_a.staging))) {
        ReadbackOutcome::Received { data } => received_byte_count(&data),
        ReadbackOutcome::MappingFailed => panic!("mapping reported failed"),
    };
    let count_b = match finish_readback(&cfg, Some(&bytes_from_words(&run_b.staging))) {
        ReadbackOutcome::Received { data } => received_byte_count(&data),
        ReadbackOutcome::MappingFailed => panic!("mapping reported failed"),
    };
    assert_eq!(count_a, count_b);
    assert_eq!(count_a, 16);

    // The data the two runs hold may differ; only the count is owed.
    assert_eq!(run_a.staging, vec![3u32; 4]);
    assert_eq!(run_b.staging, vec![93u32; 4]);
}

#[test]
fn config_validity_bounds() {
    let cfg = RunConfig { entries: 0, iterations: 10, sync_interval: 0 };
    assert!(!cfg.is_valid());
    let cfg = RunConfig { entries: 1, iterations: 0, sync_interval: 0 };
    assert!(cfg.is_valid());
    let cfg = RunConfig { entries: u32::MAX as usize + 1, iterations: 0, sync_interval: 0 };
    assert!(!cfg.is_valid());
}
