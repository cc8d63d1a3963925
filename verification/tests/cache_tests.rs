use debug_session::capabilities::Capabilities;
use debug_session::commands::{DapRequest, QueryCommand};
use debug_session::events::{Events, StoppedEvent};
use debug_session::session::{DebugAdapterBinary, LaunchKind, Session, SessionQuirks};

fn running_session(capabilities: Capabilities) -> Session {
    let mut session = Session::new(1, None, None, "fake-adapter".to_string(), SessionQuirks::default());
    session.mark_running(DebugAdapterBinary {
        request: LaunchKind::Launch,
        configuration: "{}".to_string(),
    });
    session.on_capabilities_loaded(capabilities);
    session
}

fn stop_all(session: &mut Session) {
    session.handle_dap_event(Events::Stopped(StoppedEvent {
        thread_id: None,
        all_threads_stopped: Some(true),
        preserve_focus_hint: None,
    }));
}

fn caps_with_modules() -> Capabilities {
    let mut capabilities = Capabilities::new();
    capabilities.supports_modules_request = Some(true);
    capabilities.supports_loaded_sources_request = Some(true);
    capabilities
}

#[test]
fn two_fetches_of_equal_commands_issue_one_request() {
    let mut session = running_session(caps_with_modules());
    stop_all(&mut session);

    let (_, first) = session.modules();
    assert_eq!(
        first,
        Some(DapRequest::Query { command: QueryCommand::Modules })
    );
    let (_, second) = session.modules();
    assert_eq!(second, None);
}

#[test]
fn dedup_applies_per_command_value() {
    let mut session = running_session(caps_with_modules());
    stop_all(&mut session);

    let (_, first) = session.variables(5);
    assert!(first.is_some());
    let (_, other_value) = session.variables(6);
    assert!(other_value.is_some());
    let (_, repeat) = session.variables(5);
    assert_eq!(repeat, None);
}

#[test]
fn completed_results_stay_deduplicated_until_invalidated() {
    let mut session = running_session(caps_with_modules());
    stop_all(&mut session);

    let (_, first) = session.loaded_sources();
    assert!(first.is_some());
    // The response lands successfully; the slot stays.
    session.handle_loaded_sources_response(Ok(Vec::new()));
    let (_, after_ok) = session.loaded_sources();
    assert_eq!(after_ok, None);

    // Invalidating the kind forces the next fetch to issue a new request.
    session.handle_dap_event(Events::LoadedSource);
    let (_, after_invalidate) = session.loaded_sources();
    assert!(after_invalidate.is_some());
}

#[test]
fn fetches_are_refused_without_a_stopped_thread() {
    let mut session = running_session(caps_with_modules());
    // No thread stopped: state queries are refused outright...
    let (_, modules_request) = session.modules();
    assert_eq!(modules_request, None);
    // ...except the thread-listing command.
    let (_, threads_request) = session.threads();
    assert_eq!(
        threads_request,
        Some(DapRequest::Query { command: QueryCommand::Threads })
    );
}

#[test]
fn fetches_are_refused_after_termination() {
    let mut session = running_session(caps_with_modules());
    stop_all(&mut session);
    session.shutdown();
    let (_, threads_request) = session.threads();
    assert_eq!(threads_request, None);
    let (_, modules_request) = session.modules();
    assert_eq!(modules_request, None);
}

#[test]
fn unsupported_commands_are_never_sent() {
    // The adapter declares no module support: the fetch resolves without
    // contacting the adapter.
    let mut session = running_session(Capabilities::new());
    stop_all(&mut session);
    let (_, request) = session.modules();
    assert_eq!(request, None);
}
