use cmd_utils::chain::{Action, ChainRun};

#[test]
fn launches_left_to_right_then_collects() {
    let mut run = ChainRun::new(3);
    assert_eq!(run.next_action(), Action::Spawn { stage: 0, piped_input: false });
    run.record_spawn(true);
    assert_eq!(run.next_action(), Action::Spawn { stage: 1, piped_input: true });
    run.record_spawn(true);
    assert_eq!(run.next_action(), Action::Spawn { stage: 2, piped_input: true });
    run.record_spawn(true);
    assert_eq!(run.next_action(), Action::Collect { stage: 2 });
}

#[test]
fn single_stage_reads_nothing() {
    let mut run = ChainRun::new(1);
    assert_eq!(run.next_action(), Action::Spawn { stage: 0, piped_input: false });
    run.record_spawn(true);
    assert_eq!(run.next_action(), Action::Collect { stage: 0 });
}

#[test]
fn failed_launch_aborts_started_stages() {
    let mut run = ChainRun::new(3);
    run.record_spawn(true);
    run.record_spawn(false);
    assert_eq!(run.next_action(), Action::Abort { spawned: 1 });
}
