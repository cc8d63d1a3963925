use debug_session::breakpoints::{
    attribute_verifications, bulk_sync_requests, exception_breakpoints_payload,
    initial_exception_filters, recompute_exception_filters, set_breakpoints_request,
    summarize_failures, BreakpointSessionState, BreakpointVerification, SourceBreakpoint,
};
use debug_session::commands::{DapRequest, SetExceptionBreakpointsArgs};
use debug_session::protocol::ExceptionFilter;

fn breakpoint(path: &str, row: u32, enabled: bool) -> SourceBreakpoint {
    SourceBreakpoint {
        path: path.to_string(),
        row,
        condition: None,
        hit_condition: None,
        message: None,
        enabled,
    }
}

fn filter(id: &str, default: Option<bool>) -> ExceptionFilter {
    ExceptionFilter { filter: id.to_string(), label: id.to_string(), default }
}

#[test]
fn verification_results_attribute_positionally() {
    let sent = vec![
        breakpoint("/src/main.rs", 0, true),
        breakpoint("/src/main.rs", 4, true),
        breakpoint("/src/main.rs", 9, true),
    ];
    let results = vec![
        BreakpointVerification { id: Some(11), verified: true },
        BreakpointVerification { id: Some(12), verified: false },
        BreakpointVerification { id: Some(13), verified: true },
    ];
    let attributed = attribute_verifications(&sent, &results);
    assert_eq!(attributed.len(), 3);
    for i in 0..3 {
        assert_eq!(attributed[i].0, sent[i]);
    }
    assert_eq!(attributed[0].1, BreakpointSessionState { id: 11, verified: true });
    assert_eq!(attributed[1].1, BreakpointSessionState { id: 12, verified: false });
    assert_eq!(attributed[2].1, BreakpointSessionState { id: 13, verified: true });
}

#[test]
fn results_without_ids_are_dropped_but_order_is_kept() {
    let sent = vec![breakpoint("/a", 1, true), breakpoint("/a", 2, true), breakpoint("/a", 3, true)];
    let results = vec![
        BreakpointVerification { id: Some(1), verified: true },
        BreakpointVerification { id: None, verified: true },
        BreakpointVerification { id: Some(3), verified: false },
    ];
    let attributed = attribute_verifications(&sent, &results);
    assert_eq!(attributed.len(), 2);
    assert_eq!(attributed[0].0.row, 1);
    assert_eq!(attributed[1].0.row, 3);
}

#[test]
fn extra_results_are_ignored() {
    let sent = vec![breakpoint("/a", 1, true)];
    let results = vec![
        BreakpointVerification { id: Some(1), verified: true },
        BreakpointVerification { id: Some(2), verified: true },
    ];
    assert_eq!(attribute_verifications(&sent, &results).len(), 1);
}

#[test]
fn only_enabled_breakpoints_are_sent() {
    let store = vec![
        breakpoint("/src/lib.rs", 2, true),
        breakpoint("/src/lib.rs", 5, false),
        breakpoint("/src/lib.rs", 8, true),
    ];
    let request = set_breakpoints_request("/src/lib.rs", Some(false), &store, &None);
    match request {
        DapRequest::SetBreakpoints { source, source_modified, breakpoints } => {
            assert_eq!(source.path.as_deref(), Some("/src/lib.rs"));
            assert_eq!(source.name.as_deref(), Some("lib.rs"));
            assert_eq!(source_modified, Some(false));
            assert_eq!(breakpoints.len(), 2);
            // Wire lines are one-based.
            assert_eq!(breakpoints[0].line, 3);
            assert_eq!(breakpoints[1].line, 9);
        }
        other => panic!("expected a SetBreakpoints request, got {other:?}"),
    }
}

#[test]
fn run_to_line_breakpoint_joins_its_own_path_only() {
    let store = vec![breakpoint("/a.rs", 1, true)];
    let tmp = Some(breakpoint("/a.rs", 30, true));
    let request = set_breakpoints_request("/a.rs", Some(true), &store, &tmp);
    match request {
        DapRequest::SetBreakpoints { breakpoints, .. } => {
            assert_eq!(breakpoints.len(), 2);
            assert_eq!(breakpoints[1].line, 31);
        }
        other => panic!("expected a SetBreakpoints request, got {other:?}"),
    }
    let elsewhere = Some(breakpoint("/b.rs", 30, true));
    let request = set_breakpoints_request("/a.rs", Some(true), &store, &elsewhere);
    match request {
        DapRequest::SetBreakpoints { breakpoints, .. } => assert_eq!(breakpoints.len(), 1),
        other => panic!("expected a SetBreakpoints request, got {other:?}"),
    }
}

#[test]
fn bulk_sync_covers_every_path() {
    let all = vec![
        ("/a.rs".to_string(), vec![breakpoint("/a.rs", 1, true), breakpoint("/a.rs", 2, false)]),
        ("/b.rs".to_string(), vec![breakpoint("/b.rs", 7, true)]),
    ];
    let requests = bulk_sync_requests(&all, false);
    assert_eq!(requests.len(), 2);
    match &requests[0] {
        DapRequest::SetBreakpoints { source, breakpoints, .. } => {
            assert_eq!(source.path.as_deref(), Some("/a.rs"));
            assert_eq!(breakpoints.len(), 1);
        }
        other => panic!("expected a SetBreakpoints request, got {other:?}"),
    }

    let ignoring = bulk_sync_requests(&all, true);
    assert_eq!(ignoring.len(), 2);
    for request in &ignoring {
        match request {
            DapRequest::SetBreakpoints { breakpoints, .. } => assert_eq!(breakpoints.len(), 0),
            other => panic!("expected a SetBreakpoints request, got {other:?}"),
        }
    }
}

#[test]
fn failures_aggregate_into_one_summary() {
    assert_eq!(summarize_failures(&Vec::new()), None);
    let failed = vec!["/a.rs".to_string(), "/b.rs".to_string(), "/c.rs".to_string()];
    let summary = summarize_failures(&failed).unwrap();
    assert_eq!(summary.first_path, "/a.rs");
    assert_eq!(summary.other_failures, 2);
}

#[test]
fn initial_filters_use_saved_defaults_then_declared_defaults() {
    let declared = vec![
        filter("panics", Some(true)),
        filter("errors", None),
        filter("thrown", Some(false)),
    ];
    let saved = vec![("thrown".to_string(), true)];
    let table = initial_exception_filters(&declared, &saved);
    assert_eq!(table.len(), 3);
    assert!(table[0].1);
    assert!(!table[1].1);
    assert!(table[2].1);
}

#[test]
fn recompute_keeps_state_drops_removed_adds_new() {
    let current = vec![(filter("panics", Some(true)), false), (filter("gone", None), true)];
    let declared = vec![filter("panics", Some(true)), filter("fresh", Some(true))];
    let table = recompute_exception_filters(&current, &declared);
    assert_eq!(table.len(), 2);
    assert_eq!(table[0].0.filter, "panics");
    assert!(!table[0].1, "kept filters keep their toggled state");
    assert_eq!(table[1].0.filter, "fresh");
    assert!(table[1].1, "new filters start with their declared default");
}

#[test]
fn payload_shape_follows_filter_option_support() {
    let table = vec![
        (filter("panics", Some(true)), true),
        (filter("errors", None), false),
        (filter("thrown", None), true),
    ];
    match exception_breakpoints_payload(&table, false) {
        SetExceptionBreakpointsArgs::Plain { filters } => {
            assert_eq!(filters, vec!["panics".to_string(), "thrown".to_string()]);
        }
        other => panic!("expected a plain id list, got {other:?}"),
    }
    match exception_breakpoints_payload(&table, true) {
        SetExceptionBreakpointsArgs::WithOptions { filter_ids } => {
            assert_eq!(filter_ids, vec!["panics".to_string(), "thrown".to_string()]);
        }
        other => panic!("expected filter options, got {other:?}"),
    }
}
