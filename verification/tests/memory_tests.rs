use debug_session::capabilities::Capabilities;
use debug_session::commands::{DapRequest, QueryCommand};
use debug_session::events::{Events, StoppedEvent};
use debug_session::memory::PAGE_SIZE;
use debug_session::session::{DebugAdapterBinary, LaunchKind, Session, SessionQuirks};

fn running_session() -> Session {
    let mut session =
        Session::new(1, None, None, "fake-adapter".to_string(), SessionQuirks::default());
    session.mark_running(DebugAdapterBinary {
        request: LaunchKind::Launch,
        configuration: "{}".to_string(),
    });
    let mut capabilities = Capabilities::new();
    capabilities.supports_read_memory_request = Some(true);
    capabilities.supports_write_memory_request = Some(true);
    session.on_capabilities_loaded(capabilities);
    session.handle_dap_event(Events::Stopped(StoppedEvent {
        thread_id: None,
        all_threads_stopped: Some(true),
        preserve_focus_hint: None,
    }));
    session
}

const PAGE: u64 = PAGE_SIZE;

#[test]
fn uncached_pages_are_requested_page_by_page() {
    let mut session = running_session();
    let (bytes, requests) = session.read_memory(PAGE, 3 * PAGE - 1);
    // Nothing cached yet: the full range is explicit gaps, never truncated.
    assert_eq!(bytes.len(), 2 * PAGE as usize);
    assert!(bytes.iter().all(|cell| cell.is_none()));
    assert_eq!(requests.len(), 2);
    assert_eq!(
        requests[0],
        DapRequest::Query { command: QueryCommand::ReadMemory { address: PAGE, count: PAGE } }
    );
    assert_eq!(
        requests[1],
        DapRequest::Query { command: QueryCommand::ReadMemory { address: 2 * PAGE, count: PAGE } }
    );

    // A second read of the same range issues nothing new: the page reads
    // are still in flight.
    let (_, again) = session.read_memory(PAGE, 3 * PAGE - 1);
    assert_eq!(again.len(), 0);
}

#[test]
fn partially_unreadable_range_keeps_explicit_gaps() {
    let mut session = running_session();
    let (_, requests) = session.read_memory(PAGE, 3 * PAGE - 1);
    assert_eq!(requests.len(), 2);

    // Page 1 resolves fully.
    let follow_up = session.handle_memory_read_response(PAGE, Ok((vec![1u8; PAGE as usize], None)));
    assert_eq!(follow_up, None);
    // Page 2: only the first half is readable, the rest is reported
    // unreadable in the same response.
    let follow_up = session.handle_memory_read_response(
        2 * PAGE,
        Ok((vec![2u8; PAGE as usize / 2], Some(PAGE / 2))),
    );
    assert_eq!(follow_up, None);

    let (bytes, requests) = session.read_memory(PAGE, 3 * PAGE - 1);
    assert_eq!(requests.len(), 0);
    assert_eq!(bytes.len(), 2 * PAGE as usize, "the range is never silently truncated");
    let half = PAGE as usize / 2;
    assert!(bytes[..PAGE as usize].iter().all(|cell| *cell == Some(1)));
    assert!(bytes[PAGE as usize..PAGE as usize + half].iter().all(|cell| *cell == Some(2)));
    assert!(bytes[PAGE as usize + half..].iter().all(|cell| cell.is_none()));
}

#[test]
fn short_reads_request_the_unresolved_remainder() {
    let mut session = running_session();
    let (_, requests) = session.read_memory(0, 9);
    assert_eq!(requests.len(), 1);

    // The adapter returns only 16 bytes of the page: the build asks for
    // the next unresolved sub-range.
    let follow_up = session.handle_memory_read_response(0, Ok((vec![7u8; 16], None)));
    assert_eq!(
        follow_up,
        Some(DapRequest::Query {
            command: QueryCommand::ReadMemory { address: 16, count: PAGE - 16 }
        })
    );

    // The remainder fails: the rest of the page stays unknown and the
    // page completes.
    let follow_up = session.handle_memory_read_response(16, Err("unreadable".to_string()));
    assert_eq!(follow_up, None);

    let (bytes, requests) = session.read_memory(0, 31);
    assert_eq!(requests.len(), 0);
    assert!(bytes[..16].iter().all(|cell| *cell == Some(7)));
    assert!(bytes[16..].iter().all(|cell| cell.is_none()));
}

#[test]
fn responses_without_a_pending_build_are_dropped() {
    let mut session = running_session();
    let follow_up = session.handle_memory_read_response(PAGE, Ok((vec![1u8; 8], None)));
    assert_eq!(follow_up, None);
    let (bytes, _) = session.read_memory(PAGE, PAGE + 7);
    assert!(bytes.iter().all(|cell| cell.is_none()));
}

#[test]
fn writes_carry_standard_base64_and_drop_the_caches() {
    let mut session = running_session();
    let request = session.write_memory(64, &vec![1u8, 2, 3]);
    assert_eq!(
        request,
        DapRequest::WriteMemory { address: 64, data_base64: "AQID".to_string() }
    );
    let request = session.write_memory(0, &vec![]);
    match request {
        DapRequest::WriteMemory { data_base64, .. } => assert_eq!(data_base64, ""),
        other => panic!("expected a WriteMemory request, got {other:?}"),
    }

    // Fill one page, then settle a write: the page cache must be dropped.
    let (_, requests) = session.read_memory(0, 0);
    assert_eq!(requests.len(), 1);
    session.handle_memory_read_response(0, Ok((vec![9u8; PAGE as usize], None)));
    let (bytes, _) = session.read_memory(0, 0);
    assert_eq!(bytes[0], Some(9));
    session.handle_write_memory_response();
    let (bytes, requests) = session.read_memory(0, 0);
    assert_eq!(bytes[0], None);
    assert_eq!(requests.len(), 1, "the dropped page is fetched anew");
}
