use debug_session::capabilities::Capabilities;
use debug_session::commands::{
    run_in_terminal_response, start_debugging_response, ClientResponseBody, CompletionsQuery,
    DapRequest, QueryCommand,
};
use debug_session::protocol::{DataBreakpointContext, EvaluateResponse};
use debug_session::session::{DebugAdapterBinary, LaunchKind, Session, SessionQuirks};

fn running_session(capabilities: Capabilities) -> Session {
    let mut session =
        Session::new(1, None, None, "fake-adapter".to_string(), SessionQuirks::default());
    session.mark_running(DebugAdapterBinary {
        request: LaunchKind::Launch,
        configuration: "{}".to_string(),
    });
    session.on_capabilities_loaded(capabilities);
    session
}

#[test]
fn completions_are_gated_by_capability() {
    let query = CompletionsQuery::new("pri".to_string(), 0, 3, None);
    let session = running_session(Capabilities::new());
    assert_eq!(session.completions(query), None);

    let mut capabilities = Capabilities::new();
    capabilities.supports_completions_request = Some(true);
    let session = running_session(capabilities);
    let query = CompletionsQuery::new("pri".to_string(), 0, 3, None);
    assert!(matches!(session.completions(query), Some(DapRequest::Completions { .. })));
}

#[test]
fn set_variable_is_gated_by_capability() {
    let session = running_session(Capabilities::new());
    assert_eq!(session.set_variable_value(9, "x".to_string(), "1".to_string()), None);

    let mut capabilities = Capabilities::new();
    capabilities.supports_set_variable = Some(true);
    let session = running_session(capabilities);
    assert_eq!(
        session.set_variable_value(9, "x".to_string(), "1".to_string()),
        Some(DapRequest::SetVariableValue {
            variables_reference: 9,
            name: "x".to_string(),
            value: "1".to_string(),
        })
    );
}

#[test]
fn settled_variable_writes_refresh_every_watcher() {
    let mut capabilities = Capabilities::new();
    capabilities.supports_set_variable = Some(true);
    let mut session = running_session(capabilities);
    session.handle_watcher_response(
        "x".to_string(),
        Ok(EvaluateResponse {
            result: "1".to_string(),
            variables_reference: 0,
            memory_reference: None,
            value_type: None,
        }),
    );
    let (requests, effects) = session.handle_set_variable_response(5, true);
    assert_eq!(requests.len(), 1, "one re-evaluation per watcher");
    assert!(matches!(requests[0], DapRequest::Evaluate { .. }));
    assert_eq!(effects.len(), 1);
    let (requests, effects) = session.handle_set_variable_response(5, false);
    assert_eq!(requests.len(), 0);
    assert_eq!(effects.len(), 0);
}

#[test]
fn data_breakpoint_info_is_gated_by_capability() {
    let session = running_session(Capabilities::new());
    let context = DataBreakpointContext::Expression { expression: "x".to_string(), frame_id: None };
    assert_eq!(session.data_breakpoint_info(context, None), None);

    let mut capabilities = Capabilities::new();
    capabilities.supports_data_breakpoints = Some(true);
    let session = running_session(capabilities);
    let context = DataBreakpointContext::Expression { expression: "x".to_string(), frame_id: None };
    assert!(matches!(
        session.data_breakpoint_info(context, None),
        Some(DapRequest::Query { command: QueryCommand::DataBreakpointInfo { .. } })
    ));
}

#[test]
fn restart_frame_is_gated_by_capability() {
    let session = running_session(Capabilities::new());
    assert_eq!(session.restart_stack_frame(3), None);
    let mut capabilities = Capabilities::new();
    capabilities.supports_restart_frame = Some(true);
    let session = running_session(capabilities);
    assert_eq!(
        session.restart_stack_frame(3),
        Some(DapRequest::RestartStackFrame { stack_frame_id: 3 })
    );
}

#[test]
fn sizeof_queries_ride_on_repl_evaluations() {
    let session = running_session(Capabilities::new());
    let request = session.data_access_size(Some(2), "buffer");
    match request {
        DapRequest::Evaluate { expression, frame_id, .. } => {
            assert_eq!(expression, "?${sizeof(buffer)}");
            assert_eq!(frame_id, Some(2));
        }
        other => panic!("expected an Evaluate request, got {other:?}"),
    }
    let response = EvaluateResponse {
        result: "64".to_string(),
        variables_reference: 0,
        memory_reference: None,
        value_type: None,
    };
    assert_eq!(Session::data_access_size_from_response(&response), Some(64));
    let response = EvaluateResponse {
        result: "unknown".to_string(),
        variables_reference: 0,
        memory_reference: None,
        value_type: None,
    };
    assert_eq!(Session::data_access_size_from_response(&response), None);
}

#[test]
fn memory_references_carry_the_value_type() {
    let response = EvaluateResponse {
        result: "0xdead".to_string(),
        variables_reference: 0,
        memory_reference: Some("0xdead".to_string()),
        value_type: Some("int*".to_string()),
    };
    assert_eq!(
        Session::memory_reference_from_response(&response),
        Some(("0xdead".to_string(), Some("int*".to_string())))
    );
    let response = EvaluateResponse {
        result: "3".to_string(),
        variables_reference: 0,
        memory_reference: None,
        value_type: None,
    };
    assert_eq!(Session::memory_reference_from_response(&response), None);
}

#[test]
fn client_responses_follow_the_request_sequence() {
    let response = run_in_terminal_response(7, Ok(4242));
    assert_eq!(response.seq, 8);
    assert_eq!(response.request_seq, 7);
    assert!(response.success);
    assert_eq!(response.body, ClientResponseBody::RunInTerminal { shell_process_id: 4242 });

    let response = run_in_terminal_response(7, Err("no terminal".to_string()));
    assert!(!response.success);
    assert_eq!(response.body, ClientResponseBody::Failure { message: "no terminal".to_string() });

    let response = start_debugging_response(9, true);
    assert!(response.success);
    assert_eq!(response.body, ClientResponseBody::Empty);
    assert!(!start_debugging_response(9, false).success);
}

#[test]
fn disconnect_leaves_the_debuggee_alive() {
    let session = running_session(Capabilities::new());
    assert_eq!(
        session.disconnect_client(),
        DapRequest::Disconnect {
            restart: Some(false),
            terminate_debuggee: Some(false),
            suspend_debuggee: Some(false),
        }
    );
    assert_eq!(session.pause_thread(debug_session::ThreadId(3)), DapRequest::Pause { thread_id: 3 });
}
