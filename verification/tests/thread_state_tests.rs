use debug_session::{ThreadId, ThreadStates, ThreadStatus};

#[test]
fn status_defaults_to_running() {
    let states = ThreadStates::new();
    assert_eq!(states.thread_status(ThreadId(1)), ThreadStatus::Running);
    assert_eq!(states.thread_state(ThreadId(1)), None);
    assert!(!states.any_stopped_thread());
}

#[test]
fn override_wins_over_global() {
    let mut states = ThreadStates::new();
    states.stop_all_threads();
    states.continue_thread(ThreadId(7));
    assert_eq!(states.thread_status(ThreadId(7)), ThreadStatus::Running);
    assert_eq!(states.thread_status(ThreadId(8)), ThreadStatus::Stopped);
}

#[test]
fn global_wins_over_default() {
    let mut states = ThreadStates::new();
    states.continue_all_threads();
    assert_eq!(states.thread_status(ThreadId(3)), ThreadStatus::Running);
    states.exit_all_threads();
    assert_eq!(states.thread_status(ThreadId(3)), ThreadStatus::Exited);
    assert_eq!(states.thread_state(ThreadId(3)), Some(ThreadStatus::Exited));
}

#[test]
fn most_recent_override_wins() {
    let mut states = ThreadStates::new();
    states.stop_thread(ThreadId(5));
    assert_eq!(states.thread_status(ThreadId(5)), ThreadStatus::Stopped);
    states.process_step(ThreadId(5));
    assert_eq!(states.thread_status(ThreadId(5)), ThreadStatus::Stepping);
    states.exit_thread(ThreadId(5));
    assert_eq!(states.thread_status(ThreadId(5)), ThreadStatus::Exited);
}

#[test]
fn setting_all_threads_clears_overrides() {
    let mut states = ThreadStates::new();
    states.stop_thread(ThreadId(1));
    states.exit_thread(ThreadId(2));
    states.continue_all_threads();
    assert_eq!(states.thread_status(ThreadId(1)), ThreadStatus::Running);
    assert_eq!(states.thread_status(ThreadId(2)), ThreadStatus::Running);
}

#[test]
fn any_stopped_sees_global_and_overrides() {
    let mut states = ThreadStates::new();
    assert!(!states.any_stopped_thread());
    states.stop_thread(ThreadId(9));
    assert!(states.any_stopped_thread());
    states.continue_thread(ThreadId(9));
    assert!(!states.any_stopped_thread());
    states.stop_all_threads();
    assert!(states.any_stopped_thread());
    states.continue_all_threads();
    assert!(!states.any_stopped_thread());
}

#[test]
fn labels_name_every_status() {
    assert_eq!(ThreadStatus::Running.label(), "Running");
    assert_eq!(ThreadStatus::Stopped.label(), "Stopped");
    assert_eq!(ThreadStatus::Stepping.label(), "Stepping");
    assert_eq!(ThreadStatus::Exited.label(), "Exited");
    assert_eq!(ThreadStatus::Ended.label(), "Ended");
}

#[test]
fn thread_id_from_i64() {
    assert_eq!(ThreadId::from(42i64), ThreadId(42));
    assert_eq!(ThreadStatus::default(), ThreadStatus::Running);
}
