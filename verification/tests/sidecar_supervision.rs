use reliquaint::sidecar::{shutdown_step, teardown_order, ChildPoll, ShutdownStep, SidecarError, GRACE_PERIOD_MS};

#[test]
fn teardown_reverses_after_the_emulator() {
    assert_eq!(teardown_order(3, true), vec![2, 1, 0]);
    assert_eq!(teardown_order(3, false), vec![0, 1, 2]);
    assert!(teardown_order(0, true).is_empty());
}

#[test]
fn shutdown_waits_then_kills() {
    assert_eq!(shutdown_step(ChildPoll::Exited, 0), ShutdownStep::Done);
    assert_eq!(shutdown_step(ChildPoll::WaitError, 0), ShutdownStep::Done);
    assert_eq!(shutdown_step(ChildPoll::Running, GRACE_PERIOD_MS - 1), ShutdownStep::WaitMore);
    assert_eq!(shutdown_step(ChildPoll::Running, GRACE_PERIOD_MS), ShutdownStep::Kill);
}

#[test]
fn sidecar_error_messages() {
    let e = SidecarError::SpawnFailed { name: "fluidsynth".into(), message: "No such file".into() };
    assert_eq!(e.message(), "failed to spawn sidecar \"fluidsynth\": No such file");
    assert_eq!(SidecarError::WaitFailed { message: "x".into() }.message(), "failed to wait on primary emulator: x");
}
