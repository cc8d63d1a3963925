use debug_session::breakpoints::SourceBreakpoint;
use debug_session::capabilities::Capabilities;
use debug_session::commands::{DapRequest, SetExceptionBreakpointsArgs};
use debug_session::events::{Effect, Events, SessionEvent, SessionStateEvent, StoppedEvent};
use debug_session::protocol::{EvaluateContext, EvaluateResponse, ExceptionFilter, ThreadInfo, Variable};
use debug_session::session::{DebugAdapterBinary, LaunchKind, Session, SessionQuirks};
use debug_session::{OutputToken, ThreadId, ThreadStatus};

fn new_session() -> Session {
    Session::new(1, None, None, "fake-adapter".to_string(), SessionQuirks::default())
}

fn running_session(capabilities: Capabilities) -> Session {
    let mut session = new_session();
    session.mark_running(DebugAdapterBinary {
        request: LaunchKind::Launch,
        configuration: "{\"program\": \"a.out\"}".to_string(),
    });
    session.on_capabilities_loaded(capabilities);
    session
}

fn stop_all(session: &mut Session) {
    session.handle_dap_event(Events::Stopped(StoppedEvent {
        thread_id: None,
        all_threads_stopped: Some(true),
        preserve_focus_hint: None,
    }));
}

fn breakpoint(path: &str, row: u32) -> SourceBreakpoint {
    SourceBreakpoint {
        path: path.to_string(),
        row,
        condition: None,
        hit_condition: None,
        message: None,
        enabled: true,
    }
}

#[test]
fn boot_moves_building_to_running() {
    let mut session = new_session();
    assert!(session.is_building());
    assert_eq!(session.request_initialize(), None);
    let event = session.mark_running(DebugAdapterBinary {
        request: LaunchKind::Attach,
        configuration: "{}".to_string(),
    });
    assert_eq!(event, SessionStateEvent::Running);
    assert!(!session.is_building());
    assert!(session.is_attached());
    assert!(!session.is_started());
    assert_eq!(
        session.request_initialize(),
        Some(DapRequest::Initialize { adapter_id: "fake-adapter".to_string() })
    );
}

#[test]
fn filters_are_sent_without_configuration_done_support() {
    // The adapter declares no filters and no configurationDone support:
    // exception filters must be sent even with zero enabled filters, and
    // no ConfigurationDone request follows.
    let mut session = running_session(Capabilities::new());
    let plan = session.initialize_plan(&Vec::new());
    assert_eq!(
        plan.launch,
        DapRequest::Launch { configuration: "{\"program\": \"a.out\"}".to_string() }
    );
    match plan.exception_breakpoints {
        Some(DapRequest::SetExceptionBreakpoints {
            args: SetExceptionBreakpointsArgs::Plain { filters },
        }) => assert_eq!(filters.len(), 0),
        other => panic!("expected an exception-filter request, got {other:?}"),
    }
    assert_eq!(plan.configuration_done, None);
}

#[test]
fn configuration_done_suppresses_empty_filter_requests() {
    let mut capabilities = Capabilities::new();
    capabilities.supports_configuration_done_request = Some(true);
    let mut session = running_session(capabilities);
    let plan = session.initialize_plan(&Vec::new());
    assert_eq!(plan.exception_breakpoints, None);
    assert_eq!(plan.configuration_done, Some(DapRequest::ConfigurationDone));
}

#[test]
fn declared_filters_are_sent_with_their_defaults() {
    let mut capabilities = Capabilities::new();
    capabilities.supports_configuration_done_request = Some(true);
    capabilities.exception_breakpoint_filters = Some(vec![
        ExceptionFilter { filter: "panics".to_string(), label: "Panics".to_string(), default: Some(true) },
        ExceptionFilter { filter: "thrown".to_string(), label: "Thrown".to_string(), default: None },
    ]);
    let mut session = running_session(capabilities);
    let plan = session.initialize_plan(&Vec::new());
    match plan.exception_breakpoints {
        Some(DapRequest::SetExceptionBreakpoints {
            args: SetExceptionBreakpointsArgs::Plain { filters },
        }) => assert_eq!(filters, vec!["panics".to_string()]),
        other => panic!("expected an exception-filter request, got {other:?}"),
    }
    assert_eq!(plan.configuration_done, Some(DapRequest::ConfigurationDone));
}

#[test]
fn stop_event_for_one_thread_touches_only_that_thread() {
    let mut session = running_session(Capabilities::new());
    stop_all(&mut session);
    let (_, request) = session.threads();
    assert!(request.is_some());
    session.handle_threads_response(Ok(vec![
        ThreadInfo { id: 7, name: "main".to_string() },
        ThreadInfo { id: 8, name: "worker".to_string() },
    ]));
    session.handle_dap_event(Events::Continued(debug_session::events::ContinuedEvent {
        thread_id: 7,
        all_threads_continued: Some(true),
    }));
    // Cache a variable list so the stop can be seen clearing it.
    let (_, request) = session.variables(42);
    assert!(request.is_none(), "no thread is stopped: the fetch is refused");

    let effects = session.handle_dap_event(Events::Stopped(StoppedEvent {
        thread_id: Some(7),
        all_threads_stopped: Some(false),
        preserve_focus_hint: Some(false),
    }));
    assert_eq!(session.thread_status(ThreadId(7)), ThreadStatus::Stopped);
    assert_eq!(session.thread_status(ThreadId(8)), ThreadStatus::Running);
    assert!(effects.contains(&Effect::Emit(SessionEvent::Stopped(Some(ThreadId(7))))));

    // The thread list cache was fully cleared and is fetched anew.
    let (threads, request) = session.threads();
    assert_eq!(threads.len(), 0);
    assert!(request.is_some());
    // The variable cache was fully cleared.
    let (variables, _) = session.variables(42);
    assert_eq!(variables.len(), 0);
}

#[test]
fn stopped_threads_report_their_cached_frames() {
    let mut session = running_session(Capabilities::new());
    stop_all(&mut session);
    session.threads();
    session.handle_threads_response(Ok(vec![ThreadInfo { id: 3, name: "main".to_string() }]));
    let (frames, request) = session.stack_frames(ThreadId(3));
    assert_eq!(frames.unwrap().len(), 0);
    assert!(request.is_some(), "a stopped, known thread admits a stack fetch");

    session.handle_stack_trace_response(
        ThreadId(3),
        Err("stack unwind failed".to_string()),
    );
    let (frames, _) = session.stack_frames(ThreadId(3));
    assert_eq!(frames.unwrap_err(), "stack unwind failed");
}

#[test]
fn shutdown_is_idempotent() {
    let mut capabilities = Capabilities::new();
    capabilities.supports_terminate_request = Some(true);
    let mut session = running_session(capabilities);
    let effects = session.shutdown();
    assert_eq!(effects.len(), 3);
    assert_eq!(
        effects[0],
        Effect::SendRequest(DapRequest::Terminate { restart: Some(false) })
    );
    assert_eq!(effects[1], Effect::EmitState(SessionStateEvent::Shutdown));
    assert_eq!(effects[2], Effect::KillAdapter);
    assert!(session.is_terminated());
    assert_eq!(session.thread_status(ThreadId(1)), ThreadStatus::Exited);

    // The second call is a no-op and sends no second request.
    let effects = session.shutdown();
    assert_eq!(effects.len(), 0);
}

#[test]
fn shutdown_falls_back_to_disconnect() {
    let mut session = running_session(Capabilities::new());
    let effects = session.shutdown();
    assert_eq!(
        effects[0],
        Effect::SendRequest(DapRequest::Disconnect {
            restart: Some(false),
            terminate_debuggee: Some(true),
            suspend_debuggee: Some(false),
        })
    );
}

#[test]
fn terminated_event_triggers_full_shutdown() {
    let mut session = running_session(Capabilities::new());
    let effects = session.handle_dap_event(Events::Terminated);
    assert_eq!(effects.len(), 3);
    assert!(session.is_terminated());
    assert_eq!(session.handle_dap_event(Events::Terminated).len(), 0);
}

#[test]
fn toggling_ignore_breakpoints_resends_empty_lists_for_every_path() {
    let mut session = running_session(Capabilities::new());
    assert!(!session.ignore_breakpoints());
    let all = vec![
        ("/a.rs".to_string(), vec![breakpoint("/a.rs", 1)]),
        ("/b.rs".to_string(), vec![breakpoint("/b.rs", 2), breakpoint("/b.rs", 3)]),
    ];
    let requests = session.toggle_ignore_breakpoints(&all);
    assert!(session.ignore_breakpoints());
    assert_eq!(requests.len(), 2);
    for request in &requests {
        match request {
            DapRequest::SetBreakpoints { breakpoints, .. } => assert_eq!(breakpoints.len(), 0),
            other => panic!("expected a SetBreakpoints request, got {other:?}"),
        }
    }
    // Toggling back restores the enabled lists.
    let requests = session.toggle_ignore_breakpoints(&all);
    assert!(!session.ignore_breakpoints());
    match &requests[1] {
        DapRequest::SetBreakpoints { breakpoints, .. } => assert_eq!(breakpoints.len(), 2),
        other => panic!("expected a SetBreakpoints request, got {other:?}"),
    }
}

#[test]
fn stepping_requests_follow_capabilities() {
    let mut capabilities = Capabilities::new();
    capabilities.supports_stepping_granularity = Some(true);
    capabilities.supports_single_thread_execution_requests = Some(true);
    let mut session = running_session(capabilities);
    let request = session.step_over(
        ThreadId(4),
        debug_session::protocol::SteppingGranularity::Line,
    );
    match request {
        DapRequest::Next { step } => {
            assert_eq!(step.thread_id, 4);
            assert_eq!(step.granularity, Some(debug_session::protocol::SteppingGranularity::Line));
            assert_eq!(step.single_thread, Some(true));
        }
        other => panic!("expected a Next request, got {other:?}"),
    }
    assert_eq!(session.thread_status(ThreadId(4)), ThreadStatus::Stepping);

    let mut plain = running_session(Capabilities::new());
    let request = plain.step_in(
        ThreadId(4),
        debug_session::protocol::SteppingGranularity::Instruction,
    );
    match request {
        DapRequest::StepIn { step } => assert_eq!(step.granularity, None),
        other => panic!("expected a StepIn request, got {other:?}"),
    }
}

#[test]
fn failed_steps_put_the_thread_back_to_stopped() {
    let mut session = running_session(Capabilities::new());
    session.continue_thread(ThreadId(2));
    assert_eq!(session.thread_status(ThreadId(2)), ThreadStatus::Running);
    let effects = session.on_step_response(ThreadId(2), false);
    assert_eq!(effects.len(), 0);
    assert_eq!(session.thread_status(ThreadId(2)), ThreadStatus::Stopped);
    let effects = session.on_step_response(ThreadId(2), true);
    assert_eq!(effects, vec![Effect::RemoveActivePosition]);
}

#[test]
fn evaluate_echoes_query_and_result_to_the_console() {
    let mut session = running_session(Capabilities::new());
    let request = session.evaluate("1 + 2".to_string(), Some(EvaluateContext::Repl), None, None);
    assert!(matches!(request, Some(DapRequest::Evaluate { .. })));
    session.handle_evaluate_response(Ok(EvaluateResponse {
        result: "3".to_string(),
        variables_reference: 0,
        memory_reference: None,
        value_type: None,
    }));
    let (events, token) = session.output(OutputToken(0));
    assert_eq!(token, OutputToken(2));
    assert_eq!(events[0].output, "> 1 + 2");
    assert_eq!(events[1].output, "< 3");

    session.handle_evaluate_response(Err("not available".to_string()));
    let (events, _) = session.output(OutputToken(2));
    assert_eq!(events[0].output, "not available");
}

#[test]
fn telemetry_output_is_discarded() {
    let mut session = running_session(Capabilities::new());
    session.handle_dap_event(Events::Output(debug_session::OutputEvent {
        category: Some(debug_session::OutputCategory::Telemetry),
        output: "metrics".to_string(),
        variables_reference: None,
    }));
    session.handle_dap_event(Events::Output(debug_session::OutputEvent {
        category: Some(debug_session::OutputCategory::Stdout),
        output: "hello".to_string(),
        variables_reference: None,
    }));
    let (events, token) = session.output(OutputToken(0));
    assert_eq!(token, OutputToken(1));
    assert_eq!(events.len(), 1);
    assert_eq!(events[0].output, "hello");
}

#[test]
fn watchers_are_keyed_by_expression() {
    let mut session = running_session(Capabilities::new());
    let request = session.add_watcher("x".to_string(), 1);
    assert!(matches!(request, Some(DapRequest::Evaluate { .. })));
    session.handle_watcher_response(
        "x".to_string(),
        Ok(EvaluateResponse {
            result: "10".to_string(),
            variables_reference: 0,
            memory_reference: None,
            value_type: None,
        }),
    );
    session.handle_watcher_response(
        "y".to_string(),
        Ok(EvaluateResponse {
            result: "20".to_string(),
            variables_reference: 0,
            memory_reference: None,
            value_type: None,
        }),
    );
    // A second result for the same expression replaces the value.
    session.handle_watcher_response(
        "x".to_string(),
        Ok(EvaluateResponse {
            result: "11".to_string(),
            variables_reference: 0,
            memory_reference: None,
            value_type: None,
        }),
    );
    let watchers = session.watchers();
    assert_eq!(watchers.len(), 2);
    assert_eq!(watchers[0].expression, "x");
    assert_eq!(watchers[0].value, "11");

    let refresh = session.refresh_watchers(5);
    assert_eq!(refresh.len(), 2);

    session.remove_watcher("x");
    assert_eq!(session.watchers().len(), 1);
    assert_eq!(session.watchers()[0].expression, "y");
}

#[test]
fn restart_is_idempotent_while_pending() {
    let mut capabilities = Capabilities::new();
    capabilities.supports_restart_request = Some(true);
    let mut session = running_session(capabilities);
    let effects = session.restart(None);
    assert_eq!(
        effects,
        vec![Effect::SendRequest(DapRequest::Restart { raw_arguments: None })]
    );
    assert_eq!(session.restart(None).len(), 0);
    assert_eq!(
        session.on_restart_response(false),
        vec![Effect::EmitState(SessionStateEvent::Restart)]
    );
}

#[test]
fn restart_without_support_asks_for_a_manual_rebuild() {
    let mut session = running_session(Capabilities::new());
    let effects = session.restart(None);
    assert_eq!(effects, vec![Effect::EmitState(SessionStateEvent::Restart)]);
}

#[test]
fn run_to_position_needs_a_stopped_thread() {
    let mut session = running_session(Capabilities::new());
    assert_eq!(session.run_to_position(breakpoint("/a.rs", 9), ThreadId(1)), None);
    stop_all(&mut session);
    let path = session.run_to_position(breakpoint("/a.rs", 9), ThreadId(1));
    assert_eq!(path.as_deref(), Some("/a.rs"));

    // The next stop consumes the run-to-line breakpoint and re-syncs its
    // path.
    let effects = session.handle_dap_event(Events::Stopped(StoppedEvent {
        thread_id: Some(1),
        all_threads_stopped: Some(false),
        preserve_focus_hint: None,
    }));
    assert_eq!(effects[0], Effect::SyncBreakpointsForPath { path: "/a.rs".to_string() });
}

#[test]
fn terminate_threads_without_support_shuts_down() {
    let mut capabilities = Capabilities::new();
    capabilities.supports_terminate_threads_request = Some(true);
    let mut session = running_session(capabilities);
    let effects = session.terminate_threads(Some(vec![1, 2]));
    assert_eq!(
        effects,
        vec![Effect::SendRequest(DapRequest::TerminateThreads { thread_ids: Some(vec![1, 2]) })]
    );
    assert!(!session.is_terminated());

    let mut session = running_session(Capabilities::new());
    session.terminate_threads(None);
    assert!(session.is_terminated());
}

#[test]
fn capability_events_merge_and_recompute_filters() {
    let mut capabilities = Capabilities::new();
    capabilities.exception_breakpoint_filters = Some(vec![ExceptionFilter {
        filter: "panics".to_string(),
        label: "Panics".to_string(),
        default: Some(true),
    }]);
    let mut session = running_session(capabilities);
    session.initialize_plan(&Vec::new());
    session.mark_started();
    session.toggle_exception_breakpoint("panics");
    assert!(!session.exception_breakpoints()[0].1);

    let mut delta = Capabilities::new();
    delta.supports_stepping_granularity = Some(true);
    delta.exception_breakpoint_filters = Some(vec![
        ExceptionFilter { filter: "panics".to_string(), label: "Panics".to_string(), default: Some(true) },
        ExceptionFilter { filter: "fresh".to_string(), label: "Fresh".to_string(), default: Some(true) },
    ]);
    let effects = session.handle_dap_event(Events::Capabilities(delta));
    assert_eq!(session.capabilities().supports_stepping_granularity, Some(true));
    let table = session.exception_breakpoints();
    assert_eq!(table.len(), 2);
    assert!(!table[0].1, "the toggled filter keeps its state");
    assert!(table[1].1, "the new filter starts with its declared default");
    assert_eq!(effects.len(), 1, "a started session resends the filters");
    assert!(matches!(
        effects[0],
        Effect::SendRequest(DapRequest::SetExceptionBreakpoints { .. })
    ));
}

#[test]
fn data_breakpoints_toggle_and_resend_the_whole_set() {
    let mut session = running_session(Capabilities::new());
    let context = debug_session::protocol::DataBreakpointContext::Variable {
        variables_reference: 3,
        name: "x".to_string(),
    };
    let descriptor = debug_session::protocol::DataBreakpointDescriptor {
        data_id: "watch-x".to_string(),
        access_type: None,
    };
    let request = session.create_data_breakpoint(context, "watch-x".to_string(), descriptor);
    match request {
        Some(DapRequest::SetDataBreakpoints { breakpoints }) => {
            assert_eq!(breakpoints.len(), 1);
            assert_eq!(breakpoints[0].data_id, "watch-x");
        }
        other => panic!("expected a SetDataBreakpoints request, got {other:?}"),
    }
    let request = session.toggle_data_breakpoint("watch-x");
    match request {
        Some(DapRequest::SetDataBreakpoints { breakpoints }) => assert_eq!(breakpoints.len(), 0),
        other => panic!("expected a SetDataBreakpoints request, got {other:?}"),
    }
    assert_eq!(session.data_breakpoints().len(), 1);
    assert!(!session.data_breakpoints()[0].is_enabled);
}

#[test]
fn child_sessions_are_tracked_by_id() {
    let mut session = new_session();
    session.add_child_session_id(10);
    session.add_child_session_id(11);
    session.add_child_session_id(10);
    assert_eq!(session.child_session_ids(), vec![10, 11]);
    session.remove_child_session_id(10);
    assert_eq!(session.child_session_ids(), vec![11]);
    assert_eq!(session.parent_id(), None);
    assert_eq!(session.session_id(), 1);
}

#[test]
fn on_app_quit_prefers_terminating_the_debuggee() {
    let mut capabilities = Capabilities::new();
    capabilities.support_terminate_debuggee = Some(true);
    let session = running_session(capabilities);
    assert_eq!(
        session.on_app_quit(),
        Some(DapRequest::Terminate { restart: Some(false) })
    );
    let session = running_session(Capabilities::new());
    assert!(matches!(
        session.on_app_quit(),
        Some(DapRequest::Disconnect { .. })
    ));
    assert_eq!(new_session().on_app_quit(), None);
}

#[test]
fn scopes_and_variables_flow_through_the_frame_cache() {
    let mut session = running_session(Capabilities::new());
    stop_all(&mut session);
    session.threads();
    session.handle_threads_response(Ok(vec![ThreadInfo { id: 1, name: "main".to_string() }]));
    session.stack_frames(ThreadId(1));
    session.handle_stack_trace_response(
        ThreadId(1),
        Ok(vec![debug_session::protocol::FrameInfo {
            id: 100,
            name: "main".to_string(),
            line: 3,
            column: 1,
            presentation_hint: None,
        }]),
    );
    let (_, request) = session.scopes(100);
    assert!(request.is_some());
    let (requests, _) = session.handle_scopes_response(
        100,
        Ok(vec![debug_session::protocol::Scope {
            name: "Locals".to_string(),
            variables_reference: 77,
        }]),
    );
    assert_eq!(requests.len(), 1, "each scope admits one variables fetch");
    session.handle_variables_response(
        77,
        Ok(vec![Variable { name: "x".to_string(), value: "1".to_string(), variables_reference: 0 }]),
    );
    let collected = session.variables_by_stack_frame_id(100, false, true);
    assert_eq!(collected.len(), 1);
    assert_eq!(collected[0].name, "x");
    let globals_only = session.variables_by_stack_frame_id(100, true, false);
    assert_eq!(globals_only.len(), 0);
}

#[test]
fn placeholder_frames_never_enter_the_frame_cache() {
    let mut session = running_session(Capabilities::new());
    stop_all(&mut session);
    session.threads();
    session.handle_threads_response(Ok(vec![ThreadInfo { id: 1, name: "main".to_string() }]));
    session.stack_frames(ThreadId(1));
    session.handle_stack_trace_response(
        ThreadId(1),
        Ok(vec![
            debug_session::protocol::FrameInfo {
                id: 0,
                name: "await point".to_string(),
                line: 0,
                column: 0,
                presentation_hint: Some(debug_session::protocol::FramePresentationHint::Label),
            },
            debug_session::protocol::FrameInfo {
                id: 9,
                name: "real".to_string(),
                line: 12,
                column: 4,
                presentation_hint: None,
            },
        ]),
    );
    // The placeholder frame's colliding id 0 was not cached; the real one
    // was.
    let (scopes, _) = session.scopes(9);
    assert_eq!(scopes.len(), 0);
    let (frames, _) = session.stack_frames(ThreadId(1));
    assert_eq!(frames.unwrap().len(), 2, "the thread still reports both frames");
}
