//! The session facade: current state of a single debug adapter and the
//! ways to mutate it.
//!
//! A session is created in the building state before any transport exists,
//! becomes running once a connection is up, and carries an orthogonal
//! terminated flag that is set at most once: after that, state-mutating
//! operations are no-ops and outbound commands are refused except the
//! terminate or disconnect request itself. All operations are plain state
//! transitions that hand back the requests and notifications the caller
//! must carry out.

use crate::breakpoints::{
    bulk_sync_requests, enabled_data_breakpoints, exception_breakpoints_payload,
    initial_exception_filters, recompute_exception_filters, set_breakpoints_request,
    spec_current_enabled, spec_enabled_data_breakpoints, spec_enabled_filter_ids,
    spec_initial_enabled, spec_sent_breakpoints, spec_wire_breakpoint, BreakpointUpdatedReason,
    SourceBreakpoint,
};
use crate::cache::{
    fetch_issues, fetch_result_keys, not_generic, not_key, not_of_kind, spec_has_kind,
    RequestCache,
};
use crate::capabilities::Capabilities;
use crate::commands::{
    base64_of, encode_base64, start_debugging_response, ClientResponse, ClientResponseBody,
    CommandKind, CompletionsQuery, DapRequest, QueryCommand, QueryKey,
    SetExceptionBreakpointsArgs, StepArgs,
};
use crate::events::{
    ContinuedEvent, Effect, Events, ModuleEvent, ModuleEventReason, SessionEvent,
    SessionStateEvent, StartDebuggingRequest, StoppedEvent, ThreadEventReason,
};
use crate::memory::{
    known_cells, page_aligned, spec_page_base, unknown_cells, Memory, MemoryPageBuilder,
    PAGE_SIZE,
};
use crate::output::{
    visible_since, OutputBuffer, OutputCategory, OutputEvent, OutputToken,
    MAX_TRACKED_OUTPUT_EVENTS,
};
use crate::protocol::{
    client_source, DataBreakpointContext, DataBreakpointDescriptor, DataBreakpointState,
    EvaluateContext, EvaluateResponse, ExceptionFilter, FrameInfo, FramePresentationHint,
    LocationInfo, Module, Scope, Source, SteppingGranularity, ThreadInfo, Variable, Watcher,
};
use crate::strings::{ci_contains, ci_contains_str, prefixed, str_eq};
use crate::thread_states::ThreadStates;
use crate::thread_status::{ThreadId, ThreadStatus};
use vstd::prelude::*;

verus! {

broadcast use vstd::std_specs::hash::group_hash_axioms;

/// Behavioral quirks of a specific adapter.
#[derive(Clone, Copy, Debug, PartialEq, Eq, Default, Structural)]
pub struct SessionQuirks {
    pub compact: bool,
    pub prefer_thread_name: bool,
}

/// Whether the session launches a new debuggee or attaches to a running
/// one.
#[derive(Debug, Copy, Clone, PartialEq, Eq, Structural)]
pub enum LaunchKind {
    Launch,
    Attach,
}

/// What this session starts its adapter with: the request kind and the raw
/// configuration text.
#[derive(Debug, PartialEq)]
pub struct DebugAdapterBinary {
    pub request: LaunchKind,
    pub configuration: String,
}

impl Clone for DebugAdapterBinary {
    fn clone(&self) -> (res: Self)
        ensures
            res == *self,
    {
        DebugAdapterBinary { request: self.request, configuration: self.configuration.clone() }
    }
}

/// The connected half of a session's life.
pub struct RunningMode {
    binary: DebugAdapterBinary,
    tmp_breakpoint: Option<SourceBreakpoint>,
    is_started: bool,
    has_ever_stopped: bool,
}

/// A session is first building (no transport yet), then running.
pub enum SessionState {
    Building,
    Running(RunningMode),
}

/// One thread with its cached stack frames, or the error the last stack
/// fetch ended in -- mutually exclusive with a successful frame list.
#[derive(Debug, PartialEq)]
pub struct Thread {
    pub dap: ThreadInfo,
    pub stack_frames: Vec<StackFrame>,
    pub stack_frames_error: Option<String>,
}

impl From<ThreadInfo> for Thread {
    fn from(dap: ThreadInfo) -> (r: Self)
        ensures
            r.dap == dap,
            r.stack_frames@.len() == 0,
            r.stack_frames_error is None,
    {
        Thread { dap, stack_frames: Vec::new(), stack_frames_error: None }
    }
}

impl vstd::std_specs::convert::FromSpecImpl<ThreadInfo> for Thread {
    open spec fn obeys_from_spec() -> bool {
        false
    }

    open spec fn from_spec(dap: ThreadInfo) -> Self {
        vstd::pervasive::arbitrary()
    }
}

/// A stack frame plus its lazily fetched scopes.
#[derive(Debug, PartialEq)]
pub struct StackFrame {
    pub dap: FrameInfo,
    pub scopes: Vec<Scope>,
}

impl From<FrameInfo> for StackFrame {
    fn from(dap: FrameInfo) -> (r: Self)
        ensures
            r.dap == dap,
            r.scopes@.len() == 0,
    {
        StackFrame { dap, scopes: Vec::new() }
    }
}

impl vstd::std_specs::convert::FromSpecImpl<FrameInfo> for StackFrame {
    open spec fn obeys_from_spec() -> bool {
        false
    }

    open spec fn from_spec(dap: FrameInfo) -> Self {
        vstd::pervasive::arbitrary()
    }
}

/// Current state of a single debug adapter session.
pub struct Session {
    mode: SessionState,
    id: u64,
    label: Option<String>,
    adapter: String,
    capabilities: Capabilities,
    child_session_ids: Vec<u64>,
    parent_id: Option<u64>,
    modules: Vec<Module>,
    loaded_sources: Vec<Source>,
    output: OutputBuffer,
    threads: Vec<Thread>,
    thread_states: ThreadStates,
    watchers: Vec<Watcher>,
    variables: std::collections::HashMap<u64, Vec<Variable>>,
    stack_frames: std::collections::HashMap<u64, StackFrame>,
    locations: std::collections::HashMap<u64, LocationInfo>,
    is_session_terminated: bool,
    requests: RequestCache,
    ignore_breakpoints: bool,
    exception_breakpoints: Vec<(ExceptionFilter, bool)>,
    data_breakpoints: Vec<DataBreakpointState>,
    restart_pending: bool,
    memory: Memory,
    pending_pages: Vec<MemoryPageBuilder>,
    quirks: SessionQuirks,
}

proof fn lemma_wf_from_parts(a: Session, b: Session)
    requires
        a.wf(),
        b.output == a.output,
        b.memory == a.memory,
        b.pending_pages@ == a.pending_pages@,
    ensures
        b.wf(),
{
    assert forall|i: int| 0 <= i < b.pending_pages@.len() implies (
    #[trigger] b.pending_pages@[i]).wf() && !b.pending_pages@[i].complete() by {
        assert(b.pending_pages@[i] == a.pending_pages@[i]);
    }
}

proof fn lemma_wf_from_parts_output(a: Session, b: Session)
    requires
        a.wf(),
        b.output.wf(),
        b.memory == a.memory,
        b.pending_pages@ == a.pending_pages@,
    ensures
        b.wf(),
{
    assert forall|i: int| 0 <= i < b.pending_pages@.len() implies (
    #[trigger] b.pending_pages@[i]).wf() && !b.pending_pages@[i].complete() by {
        assert(b.pending_pages@[i] == a.pending_pages@[i]);
    }
}

proof fn lemma_wf_from_parts_memory(a: Session, b: Session)
    requires
        a.wf(),
        b.output.wf(),
        b.memory.wf(),
        b.pending_pages@ == a.pending_pages@,
    ensures
        b.wf(),
{
    assert forall|i: int| 0 <= i < b.pending_pages@.len() implies (
    #[trigger] b.pending_pages@[i]).wf() && !b.pending_pages@[i].complete() by {
        assert(b.pending_pages@[i] == a.pending_pages@[i]);
    }
}

impl Session {
    /// Well-formed: the output buffer, the memory cache and every pending
    /// page build are internally consistent.
    pub closed spec fn wf(self) -> bool {
        &&& self.output.wf()
        &&& self.memory.wf()
        &&& forall|i: int|
            0 <= i < self.pending_pages@.len() ==> (#[trigger] self.pending_pages@[i]).wf()
                && !self.pending_pages@[i].complete()
    }

    /// Whether the terminated flag is set.
    pub closed spec fn terminated(self) -> bool {
        self.is_session_terminated
    }

    /// Whether the session is still building (no transport yet).
    pub closed spec fn building(self) -> bool {
        self.mode is Building
    }

    /// Whether the session has a running adapter connection.
    pub open spec fn running(self) -> bool {
        !self.building()
    }

    /// Whether the start sequence has completed.
    pub closed spec fn started(self) -> bool {
        match self.mode {
            SessionState::Running(ref running) => running.is_started,
            SessionState::Building => false,
        }
    }

    /// Whether this session ever stopped.
    pub closed spec fn ever_stopped(self) -> bool {
        match self.mode {
            SessionState::Running(ref running) => running.has_ever_stopped,
            SessionState::Building => false,
        }
    }

    /// The ephemeral run-to-line breakpoint, when one is pending.
    pub closed spec fn tmp_breakpoint(self) -> Option<SourceBreakpoint> {
        match self.mode {
            SessionState::Running(ref running) => running.tmp_breakpoint,
            SessionState::Building => None,
        }
    }

    /// The binary the running session was started with.
    pub closed spec fn binary_spec(self) -> Option<DebugAdapterBinary> {
        match self.mode {
            SessionState::Running(ref running) => Some(running.binary),
            SessionState::Building => None,
        }
    }

    /// The negotiated capability set.
    pub closed spec fn caps(self) -> Capabilities {
        self.capabilities
    }

    /// The thread run-state tracker.
    pub closed spec fn states(self) -> ThreadStates {
        self.thread_states
    }

    /// The identities held by the request cache.
    pub closed spec fn cache_keys(self) -> Seq<QueryKey> {
        self.requests.keys()
    }

    /// Every output event ever appended.
    pub closed spec fn output_history(self) -> Seq<OutputEvent> {
        self.output.history()
    }

    /// The cached thread list.
    pub closed spec fn threads_spec(self) -> Seq<Thread> {
        self.threads@
    }

    /// The cached variables by variable reference.
    pub closed spec fn variables_spec(self) -> Map<u64, Vec<Variable>> {
        self.variables@
    }

    /// The cached stack frames by frame id.
    pub closed spec fn frames_spec(self) -> Map<u64, StackFrame> {
        self.stack_frames@
    }

    /// The cached locations by reference.
    pub closed spec fn locations_spec(self) -> Map<u64, LocationInfo> {
        self.locations@
    }

    /// The memory page cache.
    pub closed spec fn memory_spec(self) -> Memory {
        self.memory
    }

    /// The exception-filter table: each declared filter with its enabled
    /// flag.
    pub closed spec fn exception_filters_spec(self) -> Seq<(ExceptionFilter, bool)> {
        self.exception_breakpoints@
    }

    /// The data-breakpoint table.
    pub closed spec fn data_breakpoints_spec(self) -> Seq<DataBreakpointState> {
        self.data_breakpoints@
    }

    /// The watcher table.
    pub closed spec fn watchers_spec(self) -> Seq<Watcher> {
        self.watchers@
    }

    /// The cached module list.
    pub closed spec fn modules_spec(self) -> Seq<Module> {
        self.modules@
    }

    /// The cached loaded-sources list.
    pub closed spec fn loaded_sources_spec(self) -> Seq<Source> {
        self.loaded_sources@
    }

    /// Whether breakpoint-store updates are currently ignored.
    pub closed spec fn ignores_breakpoints(self) -> bool {
        self.ignore_breakpoints
    }

    /// Whether a restart is already pending.
    pub closed spec fn restart_is_pending(self) -> bool {
        self.restart_pending
    }

    /// The child session ids.
    pub closed spec fn children_spec(self) -> Seq<u64> {
        self.child_session_ids@
    }

    /// Creates a session in the building state: nothing cached, nothing
    /// terminated, breakpoints honored.
    pub fn new(
        session_id: u64,
        parent_id: Option<u64>,
        label: Option<String>,
        adapter: String,
        quirks: SessionQuirks,
    ) -> (r: Session)
        ensures
            r.wf(),
            r.building(),
            !r.terminated(),
            !r.started(),
            !r.ever_stopped(),
            !r.ignores_breakpoints(),
            !r.restart_is_pending(),
            r.states().global() is None,
            r.states().overrides() == Map::<i64, ThreadStatus>::empty(),
            r.cache_keys().len() == 0,
            r.output_history().len() == 0,
            r.threads_spec().len() == 0,
            r.exception_filters_spec().len() == 0,
            r.data_breakpoints_spec().len() == 0,
            r.watchers_spec().len() == 0,
            r.modules_spec().len() == 0,
            r.loaded_sources_spec().len() == 0,
            r.children_spec().len() == 0,
            r.memory_spec().pages_map().dom() == Set::<u64>::empty(),
            r.session_id_spec() == session_id,
            r.parent_id_spec() == parent_id,
            r.quirks_spec() == quirks,
            r.caps() == Capabilities::spec_new(),
    {
        Session {
            mode: SessionState::Building,
            id: session_id,
            label,
            adapter,
            capabilities: Capabilities::new(),
            child_session_ids: Vec::new(),
            parent_id,
            modules: Vec::new(),
            loaded_sources: Vec::new(),
            output: OutputBuffer::new(),
            threads: Vec::new(),
            thread_states: ThreadStates::new(),
            watchers: Vec::new(),
            variables: std::collections::HashMap::new(),
            stack_frames: std::collections::HashMap::new(),
            locations: std::collections::HashMap::new(),
            is_session_terminated: false,
            requests: RequestCache::new(),
            ignore_breakpoints: false,
            exception_breakpoints: Vec::new(),
            data_breakpoints: Vec::new(),
            restart_pending: false,
            memory: Memory::new(),
            pending_pages: Vec::new(),
            quirks,
        }
    }

    /// This session's id.
    pub closed spec fn session_id_spec(self) -> u64 {
        self.id
    }

    /// The parent session's id, for child sessions of multi-target
    /// debugging.
    pub closed spec fn parent_id_spec(self) -> Option<u64> {
        self.parent_id
    }

    /// The adapter's quirks.
    pub closed spec fn quirks_spec(self) -> SessionQuirks {
        self.quirks
    }

    pub fn session_id(&self) -> (r: u64)
        ensures
            r == self.session_id_spec(),
    {
        self.id
    }

    pub fn parent_id(&self) -> (r: Option<u64>)
        ensures
            r == self.parent_id_spec(),
    {
        self.parent_id
    }

    pub fn quirks(&self) -> (r: SessionQuirks)
        ensures
            r == self.quirks_spec(),
    {
        self.quirks
    }

    pub fn is_terminated(&self) -> (r: bool)
        ensures
            r == self.terminated(),
    {
        self.is_session_terminated
    }

    pub fn is_building(&self) -> (r: bool)
        ensures
            r == self.building(),
    {
        matches!(self.mode, SessionState::Building)
    }

    pub fn is_started(&self) -> (r: bool)
        ensures
            r == self.started(),
    {
        match &self.mode {
            SessionState::Building => false,
            SessionState::Running(running) => running.is_started,
        }
    }

    pub fn has_ever_stopped(&self) -> (r: bool)
        ensures
            r == self.ever_stopped(),
    {
        match &self.mode {
            SessionState::Building => false,
            SessionState::Running(running) => running.has_ever_stopped,
        }
    }

    pub fn is_attached(&self) -> (r: bool)
        ensures
            r == (self.binary_spec() matches Some(b) && b.request == LaunchKind::Attach),
    {
        match &self.mode {
            SessionState::Building => false,
            SessionState::Running(running) => matches!(running.binary.request, LaunchKind::Attach),
        }
    }

    pub fn binary(&self) -> (r: Option<&DebugAdapterBinary>)
        ensures
            match r {
                Some(b) => self.binary_spec() == Some(*b),
                None => self.binary_spec() is None,
            },
    {
        match &self.mode {
            SessionState::Building => None,
            SessionState::Running(running) => Some(&running.binary),
        }
    }

    pub fn capabilities(&self) -> (r: &Capabilities)
        ensures
            *r == self.caps(),
    {
        &self.capabilities
    }

    pub fn label(&self) -> (r: Option<String>)
        ensures
            match (r, self.label_spec()) {
                (Some(a), Some(b)) => a == b,
                (None, None) => true,
                _ => false,
            },
    {
        match &self.label {
            Some(l) => Some(l.clone()),
            None => None,
        }
    }

    /// The human-readable label this session was created with.
    pub closed spec fn label_spec(self) -> Option<String> {
        self.label
    }

    /// The adapter's name.
    pub closed spec fn adapter_spec(self) -> String {
        self.adapter
    }

    pub fn adapter(&self) -> (r: String)
        ensures
            r == self.adapter_spec(),
    {
        self.adapter.clone()
    }

    pub fn ignore_breakpoints(&self) -> (r: bool)
        ensures
            r == self.ignores_breakpoints(),
    {
        self.ignore_breakpoints
    }

    /// Reports whether breakpoint updates are being ignored, under the
    /// name callers use for display.
    pub fn breakpoints_enabled(&self) -> (r: bool)
        ensures
            r == self.ignores_breakpoints(),
    {
        self.ignore_breakpoints
    }

    pub fn child_session_ids(&self) -> (r: Vec<u64>)
        ensures
            r@ == self.children_spec(),
    {
        let mut r: Vec<u64> = Vec::new();
        let mut i: usize = 0;
        while i < self.child_session_ids.len()
            invariant
                i <= self.child_session_ids@.len(),
                r@ == self.child_session_ids@.take(i as int),
            decreases self.child_session_ids@.len() - i,
        {
            r.push(self.child_session_ids[i]);
            proof {
                assert(r@ =~= self.child_session_ids@.take(i + 1));
            }
            i += 1;
        }
        proof {
            assert(self.child_session_ids@.take(self.child_session_ids@.len() as int)
                =~= self.child_session_ids@);
        }
        r
    }

    #[verifier::loop_isolation(false)]
    pub fn add_child_session_id(&mut self, session_id: u64)
        requires
            old(self).wf(),
        ensures
            final(self).wf(),
            final(self).children_spec() == if old(self).children_spec().contains(session_id) {
                old(self).children_spec()
            } else {
                old(self).children_spec().push(session_id)
            },
            unchanged_but_children(*old(self), *final(self)),
    {
        let mut i: usize = 0;
        while i < self.child_session_ids.len()
            invariant
                i <= self.child_session_ids@.len(),
                forall|j: int| 0 <= j < i ==> self.child_session_ids@[j] != session_id,
            decreases self.child_session_ids@.len() - i,
        {
            if self.child_session_ids[i] == session_id {
                assert(old(self).children_spec().contains(session_id));
                proof {
                    lemma_wf_from_parts(*old(self), *self);
                }
                return ;
            }
            i += 1;
        }
        assert(!self.child_session_ids@.contains(session_id));
        self.child_session_ids.push(session_id);
        proof {
            lemma_wf_from_parts(*old(self), *self);
        }
    }

    #[verifier::loop_isolation(false)]
    pub fn remove_child_session_id(&mut self, session_id: u64)
        requires
            old(self).wf(),
        ensures
            final(self).wf(),
            final(self).children_spec() == old(self).children_spec().filter(
                |c: u64| c != session_id,
            ),
            unchanged_but_children(*old(self), *final(self)),
    {
        let mut kept: Vec<u64> = Vec::new();
        let mut i: usize = 0;
        proof {
            reveal(Seq::filter);
            assert(kept@ =~= self.child_session_ids@.take(0).filter(|c: u64| c != session_id));
        }
        while i < self.child_session_ids.len()
            invariant
                i <= self.child_session_ids@.len(),
                kept@ == self.child_session_ids@.take(i as int).filter(|c: u64| c != session_id),
            decreases self.child_session_ids@.len() - i,
        {
            proof {
                reveal(Seq::filter);
                assert(self.child_session_ids@.take(i + 1).drop_last()
                    =~= self.child_session_ids@.take(i as int));
            }
            if self.child_session_ids[i] != session_id {
                kept.push(self.child_session_ids[i]);
            }
            i += 1;
        }
        proof {
            assert(self.child_session_ids@.take(self.child_session_ids@.len() as int)
                =~= self.child_session_ids@);
        }
        self.child_session_ids = kept;
        proof {
            lemma_wf_from_parts(*old(self), *self);
        }
    }
}

/// Everything observable about a session except its output history.
pub open spec fn eq_but_output(a: Session, b: Session) -> bool {
    &&& b.terminated() == a.terminated()
    &&& b.building() == a.building()
    &&& b.started() == a.started()
    &&& b.ever_stopped() == a.ever_stopped()
    &&& b.tmp_breakpoint() == a.tmp_breakpoint()
    &&& b.binary_spec() == a.binary_spec()
    &&& b.caps() == a.caps()
    &&& b.states() == a.states()
    &&& b.cache_keys() == a.cache_keys()
    &&& b.threads_spec() == a.threads_spec()
    &&& b.variables_spec() == a.variables_spec()
    &&& b.frames_spec() == a.frames_spec()
    &&& b.locations_spec() == a.locations_spec()
    &&& b.memory_spec() == a.memory_spec()
    &&& b.exception_filters_spec() == a.exception_filters_spec()
    &&& b.data_breakpoints_spec() == a.data_breakpoints_spec()
    &&& b.watchers_spec() == a.watchers_spec()
    &&& b.modules_spec() == a.modules_spec()
    &&& b.loaded_sources_spec() == a.loaded_sources_spec()
    &&& b.ignores_breakpoints() == a.ignores_breakpoints()
    &&& b.restart_is_pending() == a.restart_is_pending()
    &&& b.children_spec() == a.children_spec()
    &&& b.session_id_spec() == a.session_id_spec()
    &&& b.parent_id_spec() == a.parent_id_spec()
    &&& b.quirks_spec() == a.quirks_spec()
}

/// The parts of a session that child-id bookkeeping leaves untouched.
pub open spec fn unchanged_but_children(a: Session, b: Session) -> bool {
    &&& b.terminated() == a.terminated()
    &&& b.building() == a.building()
    &&& b.started() == a.started()
    &&& b.states() == a.states()
    &&& b.cache_keys() == a.cache_keys()
    &&& b.output_history() == a.output_history()
}


/// The sequencing plan computed once the adapter is initialized: the
/// launch-or-attach request, the exception-filter request when one is owed,
/// and the configuration-done request when the adapter supports it.
#[derive(Debug, PartialEq)]
pub struct InitializePlan {
    pub launch: DapRequest,
    pub exception_breakpoints: Option<DapRequest>,
    pub configuration_done: Option<DapRequest>,
}

/// The request shutdown sends: `terminate` when the adapter supports it,
/// else `disconnect` with the debuggee terminated.
pub open spec fn spec_shutdown_request(caps: Capabilities) -> DapRequest {
    if caps.supports_terminate_request == Some(true) {
        DapRequest::Terminate { restart: Some(false) }
    } else {
        DapRequest::Disconnect {
            restart: Some(false),
            terminate_debuggee: Some(true),
            suspend_debuggee: Some(false),
        }
    }
}

/// Whether the start sequence owes the adapter a `setExceptionBreakpoints`
/// request: it does whenever exception filters were declared, and also
/// whenever the adapter does not support the configuration-done handshake
/// -- even with zero enabled filters.
pub open spec fn spec_must_send_exception_breakpoints(caps: Capabilities) -> bool {
    (caps.exception_breakpoint_filters matches Some(f) && f@.len() > 0)
        || caps.supports_configuration_done_request != Some(true)
}

impl Session {
    /// Moves a building session to running with the given binary. The
    /// transition is one-directional; the caller announces the returned
    /// lifecycle event.
    pub fn mark_running(&mut self, binary: DebugAdapterBinary) -> (r: SessionStateEvent)
        requires
            old(self).wf(),
        ensures
            final(self).wf(),
            final(self).running(),
            !final(self).started(),
            !final(self).ever_stopped(),
            final(self).tmp_breakpoint() is None,
            final(self).binary_spec() == Some(binary),
            final(self).terminated() == old(self).terminated(),
            final(self).caps() == old(self).caps(),
            final(self).states() == old(self).states(),
            final(self).cache_keys() == old(self).cache_keys(),
            final(self).output_history() == old(self).output_history(),
            r == SessionStateEvent::Running,
    {
        self.mode = SessionState::Running(
            RunningMode {
                binary,
                tmp_breakpoint: None,
                is_started: false,
                has_ever_stopped: false,
            },
        );
        proof {
            lemma_wf_from_parts(*old(self), *self);
        }
        SessionStateEvent::Running
    }

    /// The `initialize` request for this session's adapter, owed only once
    /// a connection is running.
    pub fn request_initialize(&self) -> (r: Option<DapRequest>)
        ensures
            self.building() ==> r is None,
            self.running() ==> r == Some(
                DapRequest::Initialize { adapter_id: self.adapter_spec() },
            ),
    {
        match &self.mode {
            SessionState::Building => None,
            SessionState::Running(_) => Some(
                DapRequest::Initialize { adapter_id: self.adapter.clone() },
            ),
        }
    }

    /// Installs the capability set the initialize response carried; the
    /// caller announces the returned notification.
    pub fn on_capabilities_loaded(&mut self, capabilities: Capabilities) -> (r: SessionEvent)
        requires
            old(self).wf(),
        ensures
            final(self).wf(),
            final(self).caps() == capabilities,
            final(self).terminated() == old(self).terminated(),
            final(self).building() == old(self).building(),
            final(self).started() == old(self).started(),
            final(self).states() == old(self).states(),
            final(self).cache_keys() == old(self).cache_keys(),
            final(self).output_history() == old(self).output_history(),
            r == SessionEvent::CapabilitiesLoaded,
    {
        self.capabilities = capabilities;
        proof {
            lemma_wf_from_parts(*old(self), *self);
        }
        SessionEvent::CapabilitiesLoaded
    }

    /// Computes the start sequencing once capabilities are known: the
    /// launch or attach request per the binary, the exception-filter
    /// request exactly when one is owed (installing the filter table from
    /// declared filters and saved defaults), and `configurationDone`
    /// exactly when the adapter supports it.
    pub fn initialize_plan(&mut self, saved_defaults: &Vec<(String, bool)>) -> (r: InitializePlan)
        requires
            old(self).wf(),
            old(self).running(),
        ensures
            final(self).wf(),
            final(self).caps() == old(self).caps(),
            final(self).terminated() == old(self).terminated(),
            final(self).building() == old(self).building(),
            final(self).states() == old(self).states(),
            final(self).cache_keys() == old(self).cache_keys(),
            final(self).output_history() == old(self).output_history(),
            old(self).binary_spec() matches Some(b) && r.launch == (match b.request {
                LaunchKind::Launch => DapRequest::Launch { configuration: b.configuration },
                LaunchKind::Attach => DapRequest::Attach { configuration: b.configuration },
            }),
            r.exception_breakpoints is Some <==> spec_must_send_exception_breakpoints(
                old(self).caps(),
            ),
            spec_must_send_exception_breakpoints(old(self).caps()) ==> ({
                let declared = match old(self).caps().exception_breakpoint_filters {
                    Some(filters) => filters@,
                    None => Seq::<ExceptionFilter>::empty(),
                };
                let saved = saved_defaults@.map_values(|p: (String, bool)| (p.0@, p.1));
                &&& final(self).exception_filters_spec().len() == declared.len()
                &&& forall|i: int|
                    0 <= i < declared.len() ==> #[trigger] final(self).exception_filters_spec()[i]
                        == (declared[i], spec_initial_enabled(declared[i], saved))
                &&& (r.exception_breakpoints matches Some(
                    DapRequest::SetExceptionBreakpoints { args },
                ) && match args {
                    SetExceptionBreakpointsArgs::WithOptions { filter_ids } => old(self)
                        .caps().supports_exception_filter_options == Some(true) && filter_ids@
                        .map_values(|t: String| t@) == spec_enabled_filter_ids(
                        final(self).exception_filters_spec(),
                    ),
                    SetExceptionBreakpointsArgs::Plain { filters } => old(self)
                        .caps().supports_exception_filter_options != Some(true) && filters@
                        .map_values(|t: String| t@) == spec_enabled_filter_ids(
                        final(self).exception_filters_spec(),
                    ),
                })
            }),
            !spec_must_send_exception_breakpoints(old(self).caps()) ==> final(self)
                .exception_filters_spec() == old(self).exception_filters_spec(),
            r.configuration_done == if old(self).caps().supports_configuration_done_request
                == Some(true) {
                Some(DapRequest::ConfigurationDone)
            } else {
                None::<DapRequest>
            },
    {
        let launch = match &self.mode {
            SessionState::Running(running) => {
                match running.binary.request {
                    LaunchKind::Launch => DapRequest::Launch {
                        configuration: running.binary.configuration.clone(),
                    },
                    LaunchKind::Attach => DapRequest::Attach {
                        configuration: running.binary.configuration.clone(),
                    },
                }
            },
            SessionState::Building => {
                proof {
                    assert(false);
                }
                DapRequest::ConfigurationDone
            },
        };
        let configuration_done_supported = matches!(
            self.capabilities.supports_configuration_done_request,
            Some(true),
        );
        let has_filters = match &self.capabilities.exception_breakpoint_filters {
            Some(filters) => filters.len() > 0,
            None => false,
        };
        let must_send = has_filters || !configuration_done_supported;
        let exception_breakpoints = if must_send {
            let empty_declared: Vec<ExceptionFilter> = Vec::new();
            let table = match &self.capabilities.exception_breakpoint_filters {
                Some(declared) => initial_exception_filters(declared, saved_defaults),
                None => initial_exception_filters(&empty_declared, saved_defaults),
            };
            self.exception_breakpoints = table;
            let supports_options = matches!(
                self.capabilities.supports_exception_filter_options,
                Some(true),
            );
            let args = exception_breakpoints_payload(&self.exception_breakpoints, supports_options);
            Some(DapRequest::SetExceptionBreakpoints { args })
        } else {
            None
        };
        let configuration_done = if configuration_done_supported {
            Some(DapRequest::ConfigurationDone)
        } else {
            None
        };
        proof {
            lemma_wf_from_parts(*old(self), *self);
        }
        InitializePlan { launch, exception_breakpoints, configuration_done }
    }

    /// Marks the start sequence complete, successful or not.
    pub fn mark_started(&mut self)
        requires
            old(self).wf(),
        ensures
            final(self).wf(),
            old(self).running() ==> final(self).started(),
            old(self).building() ==> *final(self) == *old(self),
            final(self).terminated() == old(self).terminated(),
            final(self).building() == old(self).building(),
            final(self).states() == old(self).states(),
            final(self).cache_keys() == old(self).cache_keys(),
            final(self).output_history() == old(self).output_history(),
    {
        match &mut self.mode {
            SessionState::Running(running) => {
                running.is_started = true;
            },
            SessionState::Building => {},
        }
        proof {
            lemma_wf_from_parts(*old(self), *self);
        }
    }

    /// Shuts the session down: idempotent, a no-op when already
    /// terminated. Otherwise sets the terminal flag, forces all threads to
    /// exited, selects `terminate` or `disconnect` per capability, and has
    /// the caller kill the adapter process once the request settles.
    pub fn shutdown(&mut self) -> (effects: Vec<Effect>)
        requires
            old(self).wf(),
        ensures
            final(self).wf(),
            final(self).terminated(),
            old(self).terminated() ==> *final(self) == *old(self) && effects@.len() == 0,
            !old(self).terminated() ==> {
                &&& final(self).states().global() == Some(ThreadStatus::Exited)
                &&& final(self).states().overrides() == Map::<i64, ThreadStatus>::empty()
                &&& final(self).building() == old(self).building()
                &&& final(self).output_history() == old(self).output_history()
            },
            !old(self).terminated() && old(self).running() ==> {
                &&& effects@.len() == 3
                &&& effects@[0] == Effect::SendRequest(spec_shutdown_request(old(self).caps()))
                &&& effects@[1] == Effect::EmitState(SessionStateEvent::Shutdown)
                &&& effects@[2] == Effect::KillAdapter
            },
            !old(self).terminated() && old(self).building() ==> effects@.len() == 1 && effects@[0]
                == Effect::EmitState(SessionStateEvent::Shutdown),
    {
        if self.is_session_terminated {
            return Vec::new();
        }
        self.is_session_terminated = true;
        self.thread_states.exit_all_threads();
        let mut effects: Vec<Effect> = Vec::new();
        match &self.mode {
            SessionState::Running(_) => {
                let request = if matches!(
                    self.capabilities.supports_terminate_request,
                    Some(true),
                ) {
                    DapRequest::Terminate { restart: Some(false) }
                } else {
                    DapRequest::Disconnect {
                        restart: Some(false),
                        terminate_debuggee: Some(true),
                        suspend_debuggee: Some(false),
                    }
                };
                effects.push(Effect::SendRequest(request));
                effects.push(Effect::EmitState(SessionStateEvent::Shutdown));
                effects.push(Effect::KillAdapter);
            },
            SessionState::Building => {
                effects.push(Effect::EmitState(SessionStateEvent::Shutdown));
            },
        }
        proof {
            lemma_wf_from_parts(*old(self), *self);
        }
        effects
    }

    /// Starts a restart: idempotent while one is already pending or no
    /// adapter is running. Uses the adapter's native restart request when
    /// supported and the session is not terminated; otherwise signals the
    /// caller to rebuild the session manually.
    pub fn restart(&mut self, raw_arguments: Option<String>) -> (effects: Vec<Effect>)
        requires
            old(self).wf(),
        ensures
            final(self).wf(),
            old(self).restart_is_pending() || old(self).building() ==> *final(self) == *old(self)
                && effects@.len() == 0,
            !(old(self).restart_is_pending() || old(self).building()) ==> {
                &&& final(self).restart_is_pending()
                &&& final(self).terminated() == old(self).terminated()
                &&& if old(self).caps().supports_restart_request == Some(true)
                    && !old(self).terminated() {
                    effects@.len() == 1 && effects@[0] == Effect::SendRequest(
                        DapRequest::Restart { raw_arguments },
                    )
                } else {
                    effects@.len() == 1 && effects@[0] == Effect::EmitState(
                        SessionStateEvent::Restart,
                    )
                }
            },
    {
        if self.restart_pending || self.is_building() {
            return Vec::new();
        }
        self.restart_pending = true;
        let mut effects: Vec<Effect> = Vec::new();
        let supports_dap_restart = matches!(
            self.capabilities.supports_restart_request,
            Some(true),
        ) && !self.is_session_terminated;
        if supports_dap_restart {
            effects.push(Effect::SendRequest(DapRequest::Restart { raw_arguments }));
        } else {
            effects.push(Effect::EmitState(SessionStateEvent::Restart));
        }
        proof {
            lemma_wf_from_parts(*old(self), *self);
        }
        effects
    }

    /// Falls back to a manual restart when the adapter's native restart
    /// request failed.
    pub fn on_restart_response(&mut self, success: bool) -> (effects: Vec<Effect>)
        requires
            old(self).wf(),
        ensures
            final(self).wf(),
            *final(self) == *old(self),
            success ==> effects@.len() == 0,
            !success ==> effects@.len() == 1 && effects@[0] == Effect::EmitState(
                SessionStateEvent::Restart,
            ),
    {
        let mut effects: Vec<Effect> = Vec::new();
        if !success {
            effects.push(Effect::EmitState(SessionStateEvent::Restart));
        }
        effects
    }

    /// The best-effort request sent when the application quits: terminate
    /// the debuggee when the adapter supports that, else disconnect while
    /// terminating it. No request is owed while no adapter is connected.
    pub fn on_app_quit(&self) -> (r: Option<DapRequest>)
        ensures
            self.building() ==> r is None,
            self.running() ==> r == Some(
                if self.caps().support_terminate_debuggee == Some(true) {
                    DapRequest::Terminate { restart: Some(false) }
                } else {
                    DapRequest::Disconnect {
                        restart: Some(false),
                        terminate_debuggee: Some(true),
                        suspend_debuggee: Some(false),
                    }
                },
            ),
    {
        match &self.mode {
            SessionState::Building => None,
            SessionState::Running(_) => {
                if matches!(self.capabilities.support_terminate_debuggee, Some(true)) {
                    Some(DapRequest::Terminate { restart: Some(false) })
                } else {
                    Some(
                        DapRequest::Disconnect {
                            restart: Some(false),
                            terminate_debuggee: Some(true),
                            suspend_debuggee: Some(false),
                        },
                    )
                }
            },
        }
    }

    /// Disconnects the client without terminating the debuggee.
    pub fn disconnect_client(&self) -> (r: DapRequest)
        ensures
            r == (DapRequest::Disconnect {
                restart: Some(false),
                terminate_debuggee: Some(false),
                suspend_debuggee: Some(false),
            }),
    {
        DapRequest::Disconnect {
            restart: Some(false),
            terminate_debuggee: Some(false),
            suspend_debuggee: Some(false),
        }
    }

    /// Terminates the given threads when the adapter supports that; with
    /// no such support the whole session shuts down instead.
    pub fn terminate_threads(&mut self, thread_ids: Option<Vec<i64>>) -> (effects: Vec<Effect>)
        requires
            old(self).wf(),
        ensures
            final(self).wf(),
            old(self).caps().supports_terminate_threads_request == Some(true) ==> *final(self)
                == *old(self) && effects@.len() == 1 && effects@[0] == Effect::SendRequest(
                DapRequest::TerminateThreads { thread_ids },
            ),
            old(self).caps().supports_terminate_threads_request != Some(true) ==> final(self)
                .terminated(),
    {
        if matches!(self.capabilities.supports_terminate_threads_request, Some(true)) {
            let mut effects: Vec<Effect> = Vec::new();
            effects.push(Effect::SendRequest(DapRequest::TerminateThreads { thread_ids }));
            effects
        } else {
            self.shutdown()
        }
    }

    /// Asks the adapter to pause one thread.
    pub fn pause_thread(&self, thread_id: ThreadId) -> (r: DapRequest)
        ensures
            r == (DapRequest::Pause { thread_id: thread_id.0 }),
    {
        DapRequest::Pause { thread_id: thread_id.0 }
    }

    /// Asks the adapter to restart one stack frame, when supported.
    pub fn restart_stack_frame(&self, stack_frame_id: u64) -> (r: Option<DapRequest>)
        ensures
            r == if self.caps().supports_restart_frame == Some(true) {
                Some(DapRequest::RestartStackFrame { stack_frame_id })
            } else {
                None::<DapRequest>
            },
    {
        if matches!(self.capabilities.supports_restart_frame, Some(true)) {
            Some(DapRequest::RestartStackFrame { stack_frame_id })
        } else {
            None
        }
    }
}


/// The cached thread list paired with each thread's current status.
pub open spec fn spec_thread_snapshot(threads: Seq<Thread>, ts: ThreadStates) -> Seq<
    (ThreadInfo, ThreadStatus),
> {
    Seq::new(threads.len(), |i: int| (threads[i].dap, ts.status_of(threads[i].dap.id)))
}

/// The stepping arguments for one thread under the given capability set:
/// granularity is forwarded only when the adapter supports it, and
/// single-thread execution is requested per the adapter's declared
/// support.
pub open spec fn spec_step_args(
    caps: Capabilities,
    thread_id: i64,
    granularity: SteppingGranularity,
) -> StepArgs {
    StepArgs {
        thread_id,
        granularity: if caps.supports_stepping_granularity == Some(true) {
            Some(granularity)
        } else {
            None
        },
        single_thread: caps.supports_single_thread_execution_requests,
    }
}

impl Session {
    pub fn any_stopped_thread(&self) -> (r: bool)
        ensures
            r == self.states().some_stopped(),
    {
        self.thread_states.any_stopped_thread()
    }

    pub fn thread_status(&self, thread_id: ThreadId) -> (r: ThreadStatus)
        ensures
            r == self.states().status_of(thread_id.0),
    {
        self.thread_states.thread_status(thread_id)
    }

    pub fn thread_state(&self, thread_id: ThreadId) -> (r: Option<ThreadStatus>)
        ensures
            r == self.states().state_of(thread_id.0),
    {
        self.thread_states.thread_state(thread_id)
    }

    /// Resumes one thread: records it running and yields the continue
    /// request.
    pub fn continue_thread(&mut self, thread_id: ThreadId) -> (r: DapRequest)
        requires
            old(self).wf(),
        ensures
            final(self).wf(),
            final(self).states().overrides() == old(self).states().overrides().insert(
                thread_id.0,
                ThreadStatus::Running,
            ),
            final(self).states().global() == old(self).states().global(),
            r == (DapRequest::Continue {
                thread_id: thread_id.0,
                single_thread: old(self).caps().supports_single_thread_execution_requests,
            }),
            final(self).terminated() == old(self).terminated(),
            final(self).cache_keys() == old(self).cache_keys(),
            final(self).output_history() == old(self).output_history(),
    {
        self.thread_states.continue_thread(thread_id);
        proof {
            lemma_wf_from_parts(*old(self), *self);
        }
        DapRequest::Continue {
            thread_id: thread_id.0,
            single_thread: self.capabilities.supports_single_thread_execution_requests,
        }
    }

    fn step_args(&self, thread_id: ThreadId, granularity: SteppingGranularity) -> (r: StepArgs)
        ensures
            r == spec_step_args(self.caps(), thread_id.0, granularity),
    {
        StepArgs {
            thread_id: thread_id.0,
            granularity: if matches!(self.capabilities.supports_stepping_granularity, Some(true)) {
                Some(granularity)
            } else {
                None
            },
            single_thread: self.capabilities.supports_single_thread_execution_requests,
        }
    }

    fn process_step(&mut self, thread_id: ThreadId)
        requires
            old(self).wf(),
        ensures
            final(self).wf(),
            final(self).states().overrides() == old(self).states().overrides().insert(
                thread_id.0,
                ThreadStatus::Stepping,
            ),
            final(self).states().global() == old(self).states().global(),
            final(self).terminated() == old(self).terminated(),
            final(self).caps() == old(self).caps(),
            final(self).cache_keys() == old(self).cache_keys(),
            final(self).output_history() == old(self).output_history(),
    {
        self.thread_states.process_step(thread_id);
        proof {
            lemma_wf_from_parts(*old(self), *self);
        }
    }

    /// Steps one thread over the current line.
    pub fn step_over(&mut self, thread_id: ThreadId, granularity: SteppingGranularity) -> (r:
        DapRequest)
        requires
            old(self).wf(),
        ensures
            final(self).wf(),
            final(self).states().overrides() == old(self).states().overrides().insert(
                thread_id.0,
                ThreadStatus::Stepping,
            ),
            final(self).states().global() == old(self).states().global(),
            r == (DapRequest::Next {
                step: spec_step_args(old(self).caps(), thread_id.0, granularity),
            }),
    {
        let step = self.step_args(thread_id, granularity);
        self.process_step(thread_id);
        DapRequest::Next { step }
    }

    /// Steps one thread into the current call.
    pub fn step_in(&mut self, thread_id: ThreadId, granularity: SteppingGranularity) -> (r:
        DapRequest)
        requires
            old(self).wf(),
        ensures
            final(self).wf(),
            final(self).states().overrides() == old(self).states().overrides().insert(
                thread_id.0,
                ThreadStatus::Stepping,
            ),
            final(self).states().global() == old(self).states().global(),
            r == (DapRequest::StepIn {
                step: spec_step_args(old(self).caps(), thread_id.0, granularity),
            }),
    {
        let step = self.step_args(thread_id, granularity);
        self.process_step(thread_id);
        DapRequest::StepIn { step }
    }

    /// Steps one thread out of the current call.
    pub fn step_out(&mut self, thread_id: ThreadId, granularity: SteppingGranularity) -> (r:
        DapRequest)
        requires
            old(self).wf(),
        ensures
            final(self).wf(),
            final(self).states().overrides() == old(self).states().overrides().insert(
                thread_id.0,
                ThreadStatus::Stepping,
            ),
            final(self).states().global() == old(self).states().global(),
            r == (DapRequest::StepOut {
                step: spec_step_args(old(self).caps(), thread_id.0, granularity),
            }),
    {
        let step = self.step_args(thread_id, granularity);
        self.process_step(thread_id);
        DapRequest::StepOut { step }
    }

    /// Steps one thread backwards.
    pub fn step_back(&mut self, thread_id: ThreadId, granularity: SteppingGranularity) -> (r:
        DapRequest)
        requires
            old(self).wf(),
        ensures
            final(self).wf(),
            final(self).states().overrides() == old(self).states().overrides().insert(
                thread_id.0,
                ThreadStatus::Stepping,
            ),
            final(self).states().global() == old(self).states().global(),
            r == (DapRequest::StepBack {
                step: spec_step_args(old(self).caps(), thread_id.0, granularity),
            }),
    {
        let step = self.step_args(thread_id, granularity);
        self.process_step(thread_id);
        DapRequest::StepBack { step }
    }

    /// Settles a continue or stepping request: on success the active
    /// execution position is cleared; on failure the thread is put back to
    /// stopped.
    pub fn on_step_response(&mut self, thread_id: ThreadId, success: bool) -> (effects: Vec<
        Effect,
    >)
        requires
            old(self).wf(),
        ensures
            final(self).wf(),
            success ==> *final(self) == *old(self) && effects@.len() == 1 && effects@[0]
                == Effect::RemoveActivePosition,
            !success ==> {
                &&& final(self).states().overrides() == old(self).states().overrides().insert(
                    thread_id.0,
                    ThreadStatus::Stopped,
                )
                &&& final(self).states().global() == old(self).states().global()
                &&& effects@.len() == 0
            },
    {
        let mut effects: Vec<Effect> = Vec::new();
        if success {
            effects.push(Effect::RemoveActivePosition);
        } else {
            self.thread_states.stop_thread(thread_id);
            proof {
                lemma_wf_from_parts(*old(self), *self);
            }
        }
        effects
    }

    /// The best currently cached thread list, each with its status, plus
    /// the request of the background refresh when one must be issued.
    #[verifier::loop_isolation(false)]
    pub fn threads(&mut self) -> (r: (Vec<(ThreadInfo, ThreadStatus)>, Option<DapRequest>))
        requires
            old(self).wf(),
        ensures
            final(self).wf(),
            r.0@ == spec_thread_snapshot(old(self).threads_spec(), old(self).states()),
            final(self).cache_keys() == fetch_result_keys(
                old(self).cache_keys(),
                QueryKey::Threads,
                old(self).states().some_stopped(),
                old(self).terminated(),
            ),
            r.1 == if fetch_issues(
                old(self).cache_keys(),
                QueryKey::Threads,
                old(self).states().some_stopped(),
                old(self).terminated(),
            ) {
                Some(DapRequest::Query { command: QueryCommand::Threads })
            } else {
                None::<DapRequest>
            },
            final(self).threads_spec() == old(self).threads_spec(),
            final(self).states() == old(self).states(),
            final(self).terminated() == old(self).terminated(),
            final(self).output_history() == old(self).output_history(),
    {
        let any_stopped = self.thread_states.any_stopped_thread();
        let issue = self.requests.fetch(
            QueryCommand::Threads,
            any_stopped,
            self.is_session_terminated,
        );
        let request = if issue {
            Some(DapRequest::Query { command: QueryCommand::Threads })
        } else {
            None
        };
        let mut snapshot: Vec<(ThreadInfo, ThreadStatus)> = Vec::new();
        let mut i: usize = 0;
        proof {
            assert(snapshot@ =~= spec_thread_snapshot(self.threads@, self.thread_states).take(0));
        }
        while i < self.threads.len()
            invariant
                i <= self.threads@.len(),
                snapshot@ == spec_thread_snapshot(self.threads@, self.thread_states).take(i as int),
            decreases self.threads@.len() - i,
        {
            let status = self.thread_states.thread_status(ThreadId(self.threads[i].dap.id));
            let info = self.threads[i].dap.clone();
            snapshot.push((info, status));
            proof {
                assert(snapshot@ =~= spec_thread_snapshot(self.threads@, self.thread_states).take(
                    i + 1,
                ));
            }
            i += 1;
        }
        proof {
            assert(spec_thread_snapshot(self.threads@, self.thread_states).take(
                self.threads@.len() as int,
            ) =~= spec_thread_snapshot(self.threads@, self.thread_states));
        }
        proof {
            lemma_wf_from_parts(*old(self), *self);
        }
        (snapshot, request)
    }

    /// Installs a thread-list response: on success the thread list is
    /// replaced (fresh threads, no cached frames) and cached stack traces
    /// are dropped; a failure changes nothing.
    #[verifier::loop_isolation(false)]
    pub fn handle_threads_response(&mut self, result: Result<Vec<ThreadInfo>, String>) -> (effects:
        Vec<Effect>)
        requires
            old(self).wf(),
        ensures
            final(self).wf(),
            result matches Ok(infos) ==> {
                &&& final(self).threads_spec().len() == infos@.len()
                &&& forall|i: int|
                    0 <= i < infos@.len() ==> (#[trigger] final(self).threads_spec()[i]).dap
                        == infos@[i] && final(self).threads_spec()[i].stack_frames@.len() == 0
                        && final(self).threads_spec()[i].stack_frames_error is None
                &&& final(self).cache_keys() == old(self).cache_keys().filter(
                    not_of_kind(CommandKind::StackTrace),
                )
                &&& effects@.len() == 1 && effects@[0] == Effect::Emit(SessionEvent::Threads)
            },
            result is Err ==> *final(self) == *old(self) && effects@.len() == 0,
            final(self).states() == old(self).states(),
            final(self).terminated() == old(self).terminated(),
            final(self).output_history() == old(self).output_history(),
    {
        let mut effects: Vec<Effect> = Vec::new();
        match result {
            Ok(infos) => {
                let mut threads: Vec<Thread> = Vec::new();
                let mut i: usize = 0;
                while i < infos.len()
                    invariant
                        i <= infos@.len(),
                        threads@.len() == i,
                        forall|j: int|
                            0 <= j < i ==> (#[trigger] threads@[j]).dap == infos@[j]
                                && threads@[j].stack_frames@.len() == 0
                                && threads@[j].stack_frames_error is None,
                    decreases infos@.len() - i,
                {
                    threads.push(Thread::from(infos[i].clone()));
                    i += 1;
                }
                self.threads = threads;
                self.requests.invalidate_kind(CommandKind::StackTrace);
                effects.push(Effect::Emit(SessionEvent::Threads));
            },
            Err(_) => {
                return effects;
            },
        }
        proof {
            lemma_wf_from_parts(*old(self), *self);
        }
        effects
    }
}


impl Session {
    fn clone_modules(&self) -> (r: Vec<Module>)
        ensures
            r@ == self.modules_spec(),
    {
        let mut r: Vec<Module> = Vec::new();
        let mut i: usize = 0;
        proof {
            assert(r@ =~= self.modules@.take(0));
        }
        while i < self.modules.len()
            invariant
                i <= self.modules@.len(),
                r@ == self.modules@.take(i as int),
            decreases self.modules@.len() - i,
        {
            r.push(self.modules[i].clone());
            proof {
                assert(r@ =~= self.modules@.take(i + 1));
            }
            i += 1;
        }
        proof {
            assert(self.modules@.take(self.modules@.len() as int) =~= self.modules@);
        }
        r
    }

    /// The best currently cached module list, plus the request of the
    /// background refresh when one must be issued and the adapter supports
    /// the command.
    pub fn modules(&mut self) -> (r: (Vec<Module>, Option<DapRequest>))
        requires
            old(self).wf(),
        ensures
            final(self).wf(),
            r.0@ == old(self).modules_spec(),
            final(self).cache_keys() == fetch_result_keys(
                old(self).cache_keys(),
                QueryKey::Modules,
                old(self).states().some_stopped(),
                old(self).terminated(),
            ),
            r.1 == if fetch_issues(
                old(self).cache_keys(),
                QueryKey::Modules,
                old(self).states().some_stopped(),
                old(self).terminated(),
            ) && old(self).caps().supports_modules_request == Some(true) {
                Some(DapRequest::Query { command: QueryCommand::Modules })
            } else {
                None::<DapRequest>
            },
            final(self).modules_spec() == old(self).modules_spec(),
            final(self).states() == old(self).states(),
            final(self).terminated() == old(self).terminated(),
            final(self).output_history() == old(self).output_history(),
    {
        let any_stopped = self.thread_states.any_stopped_thread();
        let issue = self.requests.fetch(
            QueryCommand::Modules,
            any_stopped,
            self.is_session_terminated,
        );
        let supported = matches!(self.capabilities.supports_modules_request, Some(true));
        let request = if issue && supported {
            Some(DapRequest::Query { command: QueryCommand::Modules })
        } else {
            None
        };
        let snapshot = self.clone_modules();
        proof {
            lemma_wf_from_parts(*old(self), *self);
        }
        (snapshot, request)
    }

    /// Installs a module-list response; a failure changes nothing.
    pub fn handle_modules_response(&mut self, result: Result<Vec<Module>, String>) -> (effects:
        Vec<Effect>)
        requires
            old(self).wf(),
        ensures
            final(self).wf(),
            result matches Ok(modules) ==> final(self).modules_spec() == modules@ && effects@.len()
                == 1 && effects@[0] == Effect::Emit(SessionEvent::Modules),
            result is Err ==> *final(self) == *old(self) && effects@.len() == 0,
            final(self).cache_keys() == old(self).cache_keys(),
            final(self).states() == old(self).states(),
            final(self).terminated() == old(self).terminated(),
            final(self).output_history() == old(self).output_history(),
    {
        let mut effects: Vec<Effect> = Vec::new();
        match result {
            Ok(modules) => {
                self.modules = modules;
                effects.push(Effect::Emit(SessionEvent::Modules));
                proof {
                    lemma_wf_from_parts(*old(self), *self);
                }
            },
            Err(_) => {},
        }
        effects
    }

    fn clone_sources(&self) -> (r: Vec<Source>)
        ensures
            r@ == self.loaded_sources_spec(),
    {
        let mut r: Vec<Source> = Vec::new();
        let mut i: usize = 0;
        proof {
            assert(r@ =~= self.loaded_sources@.take(0));
        }
        while i < self.loaded_sources.len()
            invariant
                i <= self.loaded_sources@.len(),
                r@ == self.loaded_sources@.take(i as int),
            decreases self.loaded_sources@.len() - i,
        {
            let source = &self.loaded_sources[i];
            let name = match &source.name {
                Some(n) => Some(n.clone()),
                None => None,
            };
            let path = match &source.path {
                Some(p) => Some(p.clone()),
                None => None,
            };
            r.push(Source { name, path });
            proof {
                assert(r@ =~= self.loaded_sources@.take(i + 1));
            }
            i += 1;
        }
        proof {
            assert(self.loaded_sources@.take(self.loaded_sources@.len() as int)
                =~= self.loaded_sources@);
        }
        r
    }

    /// The best currently cached loaded-sources list, plus the request of
    /// the background refresh when one must be issued and the adapter
    /// supports the command.
    pub fn loaded_sources(&mut self) -> (r: (Vec<Source>, Option<DapRequest>))
        requires
            old(self).wf(),
        ensures
            final(self).wf(),
            r.0@ == old(self).loaded_sources_spec(),
            final(self).cache_keys() == fetch_result_keys(
                old(self).cache_keys(),
                QueryKey::LoadedSources,
                old(self).states().some_stopped(),
                old(self).terminated(),
            ),
            r.1 == if fetch_issues(
                old(self).cache_keys(),
                QueryKey::LoadedSources,
                old(self).states().some_stopped(),
                old(self).terminated(),
            ) && old(self).caps().supports_loaded_sources_request == Some(true) {
                Some(DapRequest::Query { command: QueryCommand::LoadedSources })
            } else {
                None::<DapRequest>
            },
            final(self).loaded_sources_spec() == old(self).loaded_sources_spec(),
            final(self).states() == old(self).states(),
            final(self).terminated() == old(self).terminated(),
            final(self).output_history() == old(self).output_history(),
    {
        let any_stopped = self.thread_states.any_stopped_thread();
        let issue = self.requests.fetch(
            QueryCommand::LoadedSources,
            any_stopped,
            self.is_session_terminated,
        );
        let supported = matches!(self.capabilities.supports_loaded_sources_request, Some(true));
        let request = if issue && supported {
            Some(DapRequest::Query { command: QueryCommand::LoadedSources })
        } else {
            None
        };
        let snapshot = self.clone_sources();
        proof {
            lemma_wf_from_parts(*old(self), *self);
        }
        (snapshot, request)
    }

    /// Installs a loaded-sources response; a failure changes nothing.
    pub fn handle_loaded_sources_response(
        &mut self,
        result: Result<Vec<Source>, String>,
    ) -> (effects: Vec<Effect>)
        requires
            old(self).wf(),
        ensures
            final(self).wf(),
            result matches Ok(sources) ==> final(self).loaded_sources_spec() == sources@
                && effects@.len() == 1 && effects@[0] == Effect::Emit(SessionEvent::LoadedSources),
            result is Err ==> *final(self) == *old(self) && effects@.len() == 0,
            final(self).cache_keys() == old(self).cache_keys(),
            final(self).states() == old(self).states(),
            final(self).terminated() == old(self).terminated(),
            final(self).output_history() == old(self).output_history(),
    {
        let mut effects: Vec<Effect> = Vec::new();
        match result {
            Ok(sources) => {
                self.loaded_sources = sources;
                effects.push(Effect::Emit(SessionEvent::LoadedSources));
                proof {
                    lemma_wf_from_parts(*old(self), *self);
                }
            },
            Err(_) => {},
        }
        effects
    }

    fn clone_variables(vars: &Vec<Variable>) -> (r: Vec<Variable>)
        ensures
            r@ == vars@,
    {
        let mut r: Vec<Variable> = Vec::new();
        let mut i: usize = 0;
        proof {
            assert(r@ =~= vars@.take(0));
        }
        while i < vars.len()
            invariant
                i <= vars@.len(),
                r@ == vars@.take(i as int),
            decreases vars@.len() - i,
        {
            r.push(vars[i].clone());
            proof {
                assert(r@ =~= vars@.take(i + 1));
            }
            i += 1;
        }
        proof {
            assert(vars@.take(vars@.len() as int) =~= vars@);
        }
        r
    }

    /// The best currently cached variables of one variable reference, plus
    /// the request of the background refresh when one must be issued.
    pub fn variables(&mut self, variables_reference: u64) -> (r: (Vec<Variable>, Option<
        DapRequest,
    >))
        requires
            old(self).wf(),
        ensures
            final(self).wf(),
            old(self).variables_spec().dom().contains(variables_reference) ==> r.0@ == old(self).variables_spec()[variables_reference]@,
            !old(self).variables_spec().dom().contains(variables_reference) ==> r.0@.len() == 0,
            final(self).cache_keys() == fetch_result_keys(
                old(self).cache_keys(),
                QueryKey::Variables { variables_reference },
                old(self).states().some_stopped(),
                old(self).terminated(),
            ),
            r.1 == if fetch_issues(
                old(self).cache_keys(),
                QueryKey::Variables { variables_reference },
                old(self).states().some_stopped(),
                old(self).terminated(),
            ) {
                Some(
                    DapRequest::Query { command: QueryCommand::Variables { variables_reference } },
                )
            } else {
                None::<DapRequest>
            },
            final(self).variables_spec() == old(self).variables_spec(),
            final(self).states() == old(self).states(),
            final(self).terminated() == old(self).terminated(),
            final(self).output_history() == old(self).output_history(),
    {
        let any_stopped = self.thread_states.any_stopped_thread();
        let issue = self.requests.fetch(
            QueryCommand::Variables { variables_reference },
            any_stopped,
            self.is_session_terminated,
        );
        let request = if issue {
            Some(DapRequest::Query { command: QueryCommand::Variables { variables_reference } })
        } else {
            None
        };
        let value = match self.variables.get(&variables_reference) {
            Some(vars) => Self::clone_variables(vars),
            None => Vec::new(),
        };
        proof {
            lemma_wf_from_parts(*old(self), *self);
        }
        (value, request)
    }

    /// Installs a variables response for one reference; a failure changes
    /// nothing.
    pub fn handle_variables_response(
        &mut self,
        variables_reference: u64,
        result: Result<Vec<Variable>, String>,
    ) -> (effects: Vec<Effect>)
        requires
            old(self).wf(),
        ensures
            final(self).wf(),
            result matches Ok(vars) ==> {
                &&& final(self).variables_spec() == old(self).variables_spec().insert(
                    variables_reference,
                    vars,
                )
                &&& effects@.len() == 2
                &&& effects@[0] == Effect::Emit(SessionEvent::Variables)
                &&& effects@[1] == Effect::Emit(SessionEvent::InvalidateInlineValue)
            },
            result is Err ==> *final(self) == *old(self) && effects@.len() == 0,
            final(self).cache_keys() == old(self).cache_keys(),
            final(self).states() == old(self).states(),
            final(self).terminated() == old(self).terminated(),
            final(self).output_history() == old(self).output_history(),
    {
        let mut effects: Vec<Effect> = Vec::new();
        match result {
            Ok(vars) => {
                self.variables.insert(variables_reference, vars);
                effects.push(Effect::Emit(SessionEvent::Variables));
                effects.push(Effect::Emit(SessionEvent::InvalidateInlineValue));
                proof {
                    lemma_wf_from_parts(*old(self), *self);
                }
            },
            Err(_) => {},
        }
        effects
    }

    /// The best currently cached location of one reference, plus the
    /// request of the background refresh when one must be issued.
    pub fn location(&mut self, reference: u64) -> (r: (Option<LocationInfo>, Option<DapRequest>))
        requires
            old(self).wf(),
        ensures
            final(self).wf(),
            r.0 == if old(self).locations_spec().dom().contains(reference) {
                Some(old(self).locations_spec()[reference])
            } else {
                None::<LocationInfo>
            },
            final(self).cache_keys() == fetch_result_keys(
                old(self).cache_keys(),
                QueryKey::Locations { reference },
                old(self).states().some_stopped(),
                old(self).terminated(),
            ),
            r.1 == if fetch_issues(
                old(self).cache_keys(),
                QueryKey::Locations { reference },
                old(self).states().some_stopped(),
                old(self).terminated(),
            ) {
                Some(DapRequest::Query { command: QueryCommand::Locations { reference } })
            } else {
                None::<DapRequest>
            },
            final(self).locations_spec() == old(self).locations_spec(),
            final(self).states() == old(self).states(),
            final(self).terminated() == old(self).terminated(),
            final(self).output_history() == old(self).output_history(),
    {
        let any_stopped = self.thread_states.any_stopped_thread();
        let issue = self.requests.fetch(
            QueryCommand::Locations { reference },
            any_stopped,
            self.is_session_terminated,
        );
        let request = if issue {
            Some(DapRequest::Query { command: QueryCommand::Locations { reference } })
        } else {
            None
        };
        let value = match self.locations.get(&reference) {
            Some(location) => Some(location.clone()),
            None => None,
        };
        proof {
            lemma_wf_from_parts(*old(self), *self);
        }
        (value, request)
    }

    /// Installs a locations response for one reference; a failure changes
    /// nothing.
    pub fn handle_location_response(
        &mut self,
        reference: u64,
        result: Result<LocationInfo, String>,
    )
        requires
            old(self).wf(),
        ensures
            final(self).wf(),
            result matches Ok(location) ==> final(self).locations_spec() == old(self).locations_spec().insert(reference, location),
            result is Err ==> *final(self) == *old(self),
            final(self).cache_keys() == old(self).cache_keys(),
            final(self).states() == old(self).states(),
            final(self).terminated() == old(self).terminated(),
            final(self).output_history() == old(self).output_history(),
    {
        match result {
            Ok(location) => {
                self.locations.insert(reference, location);
                proof {
                    lemma_wf_from_parts(*old(self), *self);
                }
            },
            Err(_) => {},
        }
    }

    /// Asks the adapter to complete an expression, when supported.
    pub fn completions(&self, query: CompletionsQuery) -> (r: Option<DapRequest>)
        ensures
            self.caps().supports_completions_request == Some(true) ==> r == Some(
                DapRequest::Completions { query },
            ),
            self.caps().supports_completions_request != Some(true) ==> r is None,
    {
        if matches!(self.capabilities.supports_completions_request, Some(true)) {
            Some(DapRequest::Completions { query })
        } else {
            None
        }
    }

    /// Asks the adapter how a data breakpoint could watch the given
    /// context, when data breakpoints are supported.
    pub fn data_breakpoint_info(
        &self,
        context: DataBreakpointContext,
        mode: Option<String>,
    ) -> (r: Option<DapRequest>)
        ensures
            self.caps().supports_data_breakpoints == Some(true) ==> (r matches Some(
                DapRequest::Query { command: QueryCommand::DataBreakpointInfo { context: c, mode: m } },
            ) && c == context && m == mode),
            self.caps().supports_data_breakpoints != Some(true) ==> r is None,
    {
        if matches!(self.capabilities.supports_data_breakpoints, Some(true)) {
            Some(
                DapRequest::Query {
                    command: QueryCommand::DataBreakpointInfo { context, mode },
                },
            )
        } else {
            None
        }
    }

    /// Sets a variable's value, when the adapter supports that.
    pub fn set_variable_value(
        &self,
        variables_reference: u64,
        name: String,
        value: String,
    ) -> (r: Option<DapRequest>)
        ensures
            self.caps().supports_set_variable == Some(true) ==> (r matches Some(
                DapRequest::SetVariableValue { variables_reference: vr, name: n, value: v },
            ) && vr == variables_reference && n == name && v == value),
            self.caps().supports_set_variable != Some(true) ==> r is None,
    {
        if matches!(self.capabilities.supports_set_variable, Some(true)) {
            Some(DapRequest::SetVariableValue { variables_reference, name, value })
        } else {
            None
        }
    }

    /// Writes bytes to debuggee memory: yields the write request with the
    /// bytes in standard base64; the memory and variable caches are
    /// dropped once the write settles.
    pub fn write_memory(&self, address: u64, data: &Vec<u8>) -> (r: DapRequest)
        ensures
            r matches DapRequest::WriteMemory { address: a, data_base64 } && a == address
                && data_base64@ == base64_of(data@),
    {
        DapRequest::WriteMemory { address, data_base64: encode_base64(data.as_slice()) }
    }

    /// Settles a memory write: whatever the outcome, every cached page and
    /// every cached memory read and variable list is dropped, since the
    /// write may have changed any of them.
    pub fn handle_write_memory_response(&mut self) -> (effects: Vec<Effect>)
        requires
            old(self).wf(),
        ensures
            final(self).wf(),
            final(self).memory_spec().pages_map().dom() == Set::<u64>::empty(),
            final(self).cache_keys() == old(self).cache_keys().filter(
                not_of_kind(CommandKind::ReadMemory),
            ).filter(not_of_kind(CommandKind::Variables)),
            effects@.len() == 1 && effects@[0] == Effect::Emit(SessionEvent::Variables),
            final(self).states() == old(self).states(),
            final(self).terminated() == old(self).terminated(),
            final(self).output_history() == old(self).output_history(),
    {
        self.memory.clear();
        self.requests.invalidate_kind(CommandKind::ReadMemory);
        self.requests.invalidate_kind(CommandKind::Variables);
        let mut effects: Vec<Effect> = Vec::new();
        effects.push(Effect::Emit(SessionEvent::Variables));
        proof {
            lemma_wf_from_parts_memory(*old(self), *self);
        }
        effects
    }
}


/// The index of the first thread with the given id, if any.
pub open spec fn spec_thread_lookup(threads: Seq<Thread>, id: i64) -> Option<int>
    decreases threads.len(),
{
    if threads.len() == 0 {
        None
    } else if threads[0].dap.id == id {
        Some(0int)
    } else {
        match spec_thread_lookup(threads.drop_first(), id) {
            Some(i) => Some(i + 1),
            None => None,
        }
    }
}

proof fn lemma_thread_lookup_at(threads: Seq<Thread>, id: i64, k: int)
    requires
        0 <= k < threads.len(),
        threads[k].dap.id == id,
        forall|j: int| 0 <= j < k ==> threads[j].dap.id != id,
    ensures
        spec_thread_lookup(threads, id) == Some(k),
    decreases threads.len(),
{
    if k > 0 {
        lemma_thread_lookup_at(threads.drop_first(), id, k - 1);
    }
}

proof fn lemma_thread_lookup_none(threads: Seq<Thread>, id: i64)
    requires
        forall|j: int| 0 <= j < threads.len() ==> threads[j].dap.id != id,
    ensures
        spec_thread_lookup(threads, id) is None,
    decreases threads.len(),
{
    if threads.len() > 0 {
        lemma_thread_lookup_none(threads.drop_first(), id);
    }
}

/// Whether two frame lists carry the same frames (same frame data and
/// scopes).
pub open spec fn frames_like(a: Seq<StackFrame>, b: Seq<StackFrame>) -> bool {
    a.len() == b.len() && forall|i: int|
        0 <= i < a.len() ==> (#[trigger] a[i]).dap == b[i].dap && a[i].scopes@ == b[i].scopes@
}

/// A placeholder frame some adapters emit to delineate await points; it
/// always uses frame id 0, which collides with real frames, so it is
/// never cached by id.
pub open spec fn spec_fake_frame(f: FrameInfo) -> bool {
    f.id == 0 && f.line == 0 && f.column == 0 && f.presentation_hint == Some(
        FramePresentationHint::Label,
    )
}

/// Whether the first `n` frames contain a cacheable (non-placeholder)
/// frame with this id.
pub open spec fn spec_kept_frame_upto(frames: Seq<FrameInfo>, id: u64, n: int) -> bool
    decreases n,
{
    if n <= 0 {
        false
    } else if !spec_fake_frame(frames[n - 1]) && frames[n - 1].id == id {
        true
    } else {
        spec_kept_frame_upto(frames, id, n - 1)
    }
}

/// The last cacheable frame with this id among the first `n` frames.
pub open spec fn spec_latest_kept_frame(frames: Seq<FrameInfo>, id: u64, n: int) -> FrameInfo
    decreases n,
{
    if n <= 0 {
        vstd::pervasive::arbitrary()
    } else if !spec_fake_frame(frames[n - 1]) && frames[n - 1].id == id {
        frames[n - 1]
    } else {
        spec_latest_kept_frame(frames, id, n - 1)
    }
}

impl Clone for StackFrame {
    fn clone(&self) -> (res: Self)
        ensures
            res.dap == self.dap,
            res.scopes@ == self.scopes@,
    {
        let mut scopes: Vec<Scope> = Vec::new();
        let mut i: usize = 0;
        proof {
            assert(scopes@ =~= self.scopes@.take(0));
        }
        while i < self.scopes.len()
            invariant
                i <= self.scopes@.len(),
                scopes@ == self.scopes@.take(i as int),
            decreases self.scopes@.len() - i,
        {
            scopes.push(self.scopes[i].clone());
            proof {
                assert(scopes@ =~= self.scopes@.take(i + 1));
            }
            i += 1;
        }
        proof {
            assert(self.scopes@.take(self.scopes@.len() as int) =~= self.scopes@);
        }
        StackFrame { dap: self.dap.clone(), scopes }
    }
}

impl Session {
    fn find_thread(&self, id: i64) -> (r: Option<usize>)
        ensures
            r matches Some(i) ==> i < self.threads_spec().len() && spec_thread_lookup(
                self.threads_spec(),
                id,
            ) == Some(i as int),
            r is None ==> spec_thread_lookup(self.threads_spec(), id) is None,
    {
        let mut i: usize = 0;
        while i < self.threads.len()
            invariant
                i <= self.threads@.len(),
                forall|j: int| 0 <= j < i ==> self.threads@[j].dap.id != id,
            decreases self.threads@.len() - i,
        {
            if self.threads[i].dap.id == id {
                proof {
                    lemma_thread_lookup_at(self.threads@, id, i as int);
                }
                return Some(i);
            }
            i += 1;
        }
        proof {
            lemma_thread_lookup_none(self.threads@, id);
        }
        None
    }

    /// The best currently cached stack frames of one thread -- or the
    /// error its last stack fetch ended in -- plus the request of the
    /// background refresh. A refresh is attempted only for a stopped
    /// thread that is still part of a fetched thread list.
    #[verifier::loop_isolation(false)]
    pub fn stack_frames(&mut self, thread_id: ThreadId) -> (r: (
        Result<Vec<StackFrame>, String>,
        Option<DapRequest>,
    ))
        requires
            old(self).wf(),
        ensures
            final(self).wf(),
            ({
                let gate = old(self).states().status_of(thread_id.0) == ThreadStatus::Stopped
                    && old(self).cache_keys().contains(QueryKey::Threads) && spec_thread_lookup(
                    old(self).threads_spec(),
                    thread_id.0,
                ) is Some;
                &&& final(self).cache_keys() == if gate {
                    fetch_result_keys(
                        old(self).cache_keys(),
                        QueryKey::StackTrace { thread_id: thread_id.0 },
                        old(self).states().some_stopped(),
                        old(self).terminated(),
                    )
                } else {
                    old(self).cache_keys()
                }
                &&& r.1 == if gate && fetch_issues(
                    old(self).cache_keys(),
                    QueryKey::StackTrace { thread_id: thread_id.0 },
                    old(self).states().some_stopped(),
                    old(self).terminated(),
                ) {
                    Some(
                        DapRequest::Query {
                            command: QueryCommand::StackTrace { thread_id: thread_id.0 },
                        },
                    )
                } else {
                    None::<DapRequest>
                }
            }),
            match spec_thread_lookup(old(self).threads_spec(), thread_id.0) {
                Some(ti) => match old(self).threads_spec()[ti].stack_frames_error {
                    Some(error) => r.0 == Err::<Vec<StackFrame>, String>(error),
                    None => r.0 matches Ok(frames) && frames_like(
                        frames@,
                        old(self).threads_spec()[ti].stack_frames@,
                    ),
                },
                None => r.0 matches Ok(frames) && frames@.len() == 0,
            },
            final(self).threads_spec() == old(self).threads_spec(),
            final(self).states() == old(self).states(),
            final(self).terminated() == old(self).terminated(),
            final(self).output_history() == old(self).output_history(),
    {
        let stopped = matches!(
            self.thread_states.thread_status(thread_id),
            ThreadStatus::Stopped,
        );
        let found = self.find_thread(thread_id.0);
        let gate = stopped && self.requests.contains(&QueryCommand::Threads) && found.is_some();
        let request = if gate {
            let any_stopped = self.thread_states.any_stopped_thread();
            let issue = self.requests.fetch(
                QueryCommand::StackTrace { thread_id: thread_id.0 },
                any_stopped,
                self.is_session_terminated,
            );
            if issue {
                Some(
                    DapRequest::Query {
                        command: QueryCommand::StackTrace { thread_id: thread_id.0 },
                    },
                )
            } else {
                None
            }
        } else {
            None
        };
        let value = match found {
            Some(ti) => {
                let thread = &self.threads[ti];
                match &thread.stack_frames_error {
                    Some(error) => Err(error.clone()),
                    None => {
                        let mut frames: Vec<StackFrame> = Vec::new();
                        let mut i: usize = 0;
                        while i < thread.stack_frames.len()
                            invariant
                                i <= thread.stack_frames@.len(),
                                frames@.len() == i,
                                forall|j: int|
                                    0 <= j < i ==> (#[trigger] frames@[j]).dap
                                        == thread.stack_frames@[j].dap && frames@[j].scopes@
                                        == thread.stack_frames@[j].scopes@,
                            decreases thread.stack_frames@.len() - i,
                        {
                            frames.push(thread.stack_frames[i].clone());
                            i += 1;
                        }
                        Ok(frames)
                    },
                }
            },
            None => Ok(Vec::new()),
        };
        proof {
            lemma_wf_from_parts(*old(self), *self);
        }
        (value, request)
    }

    /// Installs a stack-trace response for one thread: the thread's frame
    /// list is replaced on success or its error recorded on failure,
    /// cacheable frames are upserted into the frame cache by id (adapter
    /// placeholder frames with the colliding id 0 are dropped), and cached
    /// scopes and variables are invalidated either way.
    #[verifier::loop_isolation(false)]
    pub fn handle_stack_trace_response(
        &mut self,
        thread_id: ThreadId,
        result: Result<Vec<FrameInfo>, String>,
    ) -> (effects: Vec<Effect>)
        requires
            old(self).wf(),
        ensures
            final(self).wf(),
            effects@.len() == 1 && effects@[0] == Effect::Emit(SessionEvent::StackTrace),
            final(self).cache_keys() == old(self).cache_keys().filter(
                not_of_kind(CommandKind::Scopes),
            ).filter(not_of_kind(CommandKind::Variables)),
            final(self).threads_spec().len() == old(self).threads_spec().len(),
            forall|j: int|
                0 <= j < old(self).threads_spec().len() && spec_thread_lookup(
                    old(self).threads_spec(),
                    thread_id.0,
                ) != Some(j) ==> final(self).threads_spec()[j] == old(self).threads_spec()[j],
            spec_thread_lookup(old(self).threads_spec(), thread_id.0) matches Some(ti) ==> {
                let entry = final(self).threads_spec()[ti];
                &&& entry.dap == old(self).threads_spec()[ti].dap
                &&& match result {
                    Ok(frames) => {
                        &&& entry.stack_frames_error is None
                        &&& entry.stack_frames@.len() == frames@.len()
                        &&& forall|j: int|
                            0 <= j < frames@.len() ==> (#[trigger] entry.stack_frames@[j]).dap
                                == frames@[j] && entry.stack_frames@[j].scopes@.len() == 0
                    },
                    Err(error) => entry.stack_frames@.len() == 0 && entry.stack_frames_error
                        == Some(error),
                }
            },
            result matches Ok(frames) ==> {
                &&& forall|id: u64|
                    #[trigger] spec_kept_frame_upto(frames@, id, frames@.len() as int) ==> final(self).frames_spec().dom().contains(id) && final(self).frames_spec()[id].dap
                        == spec_latest_kept_frame(frames@, id, frames@.len() as int) && final(self).frames_spec()[id].scopes@.len() == 0
                &&& forall|id: u64|
                    !(#[trigger] spec_kept_frame_upto(frames@, id, frames@.len() as int)) ==> (
                    final(self).frames_spec().dom().contains(id) == old(self).frames_spec().dom().contains(id)) && (old(self).frames_spec().dom().contains(id) ==> final(self).frames_spec()[id] == old(self).frames_spec()[id])
            },
            result is Err ==> final(self).frames_spec() == old(self).frames_spec(),
            final(self).states() == old(self).states(),
            final(self).terminated() == old(self).terminated(),
            final(self).output_history() == old(self).output_history(),
    {
        let found = self.find_thread(thread_id.0);
        match &result {
            Ok(frames) => {
                if let Some(ti) = found {
                    let thread = self.threads.remove(ti);
                    let mut new_frames: Vec<StackFrame> = Vec::new();
                    let mut i: usize = 0;
                    while i < frames.len()
                        invariant
                            i <= frames@.len(),
                            new_frames@.len() == i,
                            forall|j: int|
                                0 <= j < i ==> (#[trigger] new_frames@[j]).dap == frames@[j]
                                    && new_frames@[j].scopes@.len() == 0,
                        decreases frames@.len() - i,
                    {
                        new_frames.push(StackFrame::from(frames[i].clone()));
                        i += 1;
                    }
                    self.threads.insert(
                        ti,
                        Thread {
                            dap: thread.dap,
                            stack_frames: new_frames,
                            stack_frames_error: None,
                        },
                    );
                    proof {
                        assert(self.threads@ =~= old(self).threads@.update(
                            ti as int,
                            self.threads@[ti as int],
                        ));
                    }
                }
                let ghost frames_seq = frames@;
                let ghost threads_now = self.threads@;
                let ghost requests_now = self.requests;
                let mut i: usize = 0;
                while i < frames.len()
                    invariant
                        i <= frames_seq.len(),
                        frames@ == frames_seq,
                        self.output == old(self).output,
                        self.memory == old(self).memory,
                        self.pending_pages@ == old(self).pending_pages@,
                        self.thread_states == old(self).thread_states,
                        self.is_session_terminated == old(self).is_session_terminated,
                        self.mode == old(self).mode,
                        self.threads@ == threads_now,
                        self.requests == requests_now,
                        forall|id: u64|
                            #[trigger] spec_kept_frame_upto(frames_seq, id, i as int)
                                ==> self.stack_frames@.dom().contains(id)
                                && self.stack_frames@[id].dap == spec_latest_kept_frame(
                                frames_seq,
                                id,
                                i as int,
                            ) && self.stack_frames@[id].scopes@.len() == 0,
                        forall|id: u64|
                            !(#[trigger] spec_kept_frame_upto(frames_seq, id, i as int)) ==> (
                            self.stack_frames@.dom().contains(id) == old(self).stack_frames@.dom().contains(id)) && (old(self).stack_frames@.dom().contains(id) ==> self.stack_frames@[id] == old(self).stack_frames@[id]),
                    decreases frames_seq.len() - i,
                {
                    let frame = &frames[i];
                    let fake = frame.id == 0 && frame.line == 0 && frame.column == 0 && matches!(
                        frame.presentation_hint,
                        Some(FramePresentationHint::Label),
                    );
                    if !fake {
                        self.stack_frames.insert(frame.id, StackFrame::from(frame.clone()));
                    }
                    proof {
                        assert forall|id: u64| #[trigger] spec_kept_frame_upto(
                            frames_seq,
                            id,
                            i + 1,
                        ) implies self.stack_frames@.dom().contains(id)
                            && self.stack_frames@[id].dap == spec_latest_kept_frame(
                            frames_seq,
                            id,
                            i + 1,
                        ) && self.stack_frames@[id].scopes@.len() == 0 by {
                            if !(!spec_fake_frame(frames_seq[i as int]) && frames_seq[i as int].id
                                == id) {
                                assert(spec_kept_frame_upto(frames_seq, id, i as int));
                                assert(spec_latest_kept_frame(frames_seq, id, i + 1)
                                    == spec_latest_kept_frame(frames_seq, id, i as int));
                            }
                        }
                        assert forall|id: u64| !(#[trigger] spec_kept_frame_upto(
                            frames_seq,
                            id,
                            i + 1,
                        )) implies (self.stack_frames@.dom().contains(id) == old(self).stack_frames@.dom().contains(id)) && (old(self).stack_frames@.dom().contains(id) ==> self.stack_frames@[id] == old(self).stack_frames@[id]) by {
                            assert(!spec_kept_frame_upto(frames_seq, id, i as int));
                            assert(!(!spec_fake_frame(frames_seq[i as int])
                                && frames_seq[i as int].id == id));
                        }
                    }
                    i += 1;
                }
            },
            Err(error) => {
                if let Some(ti) = found {
                    let thread = self.threads.remove(ti);
                    self.threads.insert(
                        ti,
                        Thread {
                            dap: thread.dap,
                            stack_frames: Vec::new(),
                            stack_frames_error: Some(error.clone()),
                        },
                    );
                    proof {
                        assert(self.threads@ =~= old(self).threads@.update(
                            ti as int,
                            self.threads@[ti as int],
                        ));
                    }
                }
            },
        }
        self.requests.invalidate_kind(CommandKind::Scopes);
        self.requests.invalidate_kind(CommandKind::Variables);
        let mut effects: Vec<Effect> = Vec::new();
        effects.push(Effect::Emit(SessionEvent::StackTrace));
        proof {
            lemma_wf_from_parts(*old(self), *self);
        }
        effects
    }
}


/// The cache keys after the per-scope variable fetches of one scopes
/// response, in scope order.
pub open spec fn spec_keys_after_scope_fetches(
    keys: Seq<QueryKey>,
    scopes: Seq<Scope>,
    n: int,
    any_stopped: bool,
    terminated: bool,
) -> Seq<QueryKey>
    decreases n,
{
    if n <= 0 {
        keys
    } else {
        fetch_result_keys(
            spec_keys_after_scope_fetches(keys, scopes, n - 1, any_stopped, terminated),
            QueryKey::Variables { variables_reference: scopes[n - 1].variables_reference },
            any_stopped,
            terminated,
        )
    }
}

/// The variable references actually fetched by one scopes response, in
/// scope order.
pub open spec fn spec_scope_fetch_refs(
    keys: Seq<QueryKey>,
    scopes: Seq<Scope>,
    n: int,
    any_stopped: bool,
    terminated: bool,
) -> Seq<u64>
    decreases n,
{
    if n <= 0 {
        Seq::empty()
    } else {
        let rest = spec_scope_fetch_refs(keys, scopes, n - 1, any_stopped, terminated);
        if fetch_issues(
            spec_keys_after_scope_fetches(keys, scopes, n - 1, any_stopped, terminated),
            QueryKey::Variables { variables_reference: scopes[n - 1].variables_reference },
            any_stopped,
            terminated,
        ) {
            rest.push(scopes[n - 1].variables_reference)
        } else {
            rest
        }
    }
}

/// Whether a scope is selected by a locals/globals query: its name
/// contains "local" or "global", matched case-insensitively.
pub open spec fn spec_scope_selected(scope: Scope, globals: bool, locals: bool) -> bool {
    (locals && ci_contains(scope.name@, "local"@)) || (globals && ci_contains(
        scope.name@,
        "global"@,
    ))
}

/// The variables of the selected scopes of one frame, flattened in scope
/// order; scopes without a cached variable list contribute nothing.
pub open spec fn spec_collected_variables(
    scopes: Seq<Scope>,
    vars: Map<u64, Vec<Variable>>,
    globals: bool,
    locals: bool,
    n: int,
) -> Seq<Variable>
    decreases n,
{
    if n <= 0 {
        Seq::empty()
    } else {
        let rest = spec_collected_variables(scopes, vars, globals, locals, n - 1);
        let scope = scopes[n - 1];
        if spec_scope_selected(scope, globals, locals) && vars.dom().contains(
            scope.variables_reference,
        ) {
            rest + vars[scope.variables_reference]@
        } else {
            rest
        }
    }
}

/// The index of the first watcher with the given expression, if any.
pub open spec fn spec_watcher_lookup(watchers: Seq<Watcher>, expression: Seq<char>) -> Option<int>
    decreases watchers.len(),
{
    if watchers.len() == 0 {
        None
    } else if watchers[0].expression@ == expression {
        Some(0int)
    } else {
        match spec_watcher_lookup(watchers.drop_first(), expression) {
            Some(i) => Some(i + 1),
            None => None,
        }
    }
}

proof fn lemma_watcher_lookup_at(watchers: Seq<Watcher>, expression: Seq<char>, k: int)
    requires
        0 <= k < watchers.len(),
        watchers[k].expression@ == expression,
        forall|j: int| 0 <= j < k ==> watchers[j].expression@ != expression,
    ensures
        spec_watcher_lookup(watchers, expression) == Some(k),
    decreases watchers.len(),
{
    if k > 0 {
        lemma_watcher_lookup_at(watchers.drop_first(), expression, k - 1);
    }
}

proof fn lemma_watcher_lookup_none(watchers: Seq<Watcher>, expression: Seq<char>)
    requires
        forall|j: int| 0 <= j < watchers.len() ==> watchers[j].expression@ != expression,
    ensures
        spec_watcher_lookup(watchers, expression) is None,
    decreases watchers.len(),
{
    if watchers.len() > 0 {
        lemma_watcher_lookup_none(watchers.drop_first(), expression);
    }
}

/// Keeps the watchers whose expression differs from `name`.
pub open spec fn watcher_not_named(name: Seq<char>) -> spec_fn(Watcher) -> bool {
    |w: Watcher| w.expression@ != name
}

impl Session {
    fn find_watcher(watchers: &Vec<Watcher>, expression: &str) -> (r: Option<usize>)
        ensures
            r matches Some(k) ==> k < watchers@.len() && spec_watcher_lookup(
                watchers@,
                expression@,
            ) == Some(k as int),
            r is None ==> spec_watcher_lookup(watchers@, expression@) is None,
    {
        let mut i: usize = 0;
        while i < watchers.len()
            invariant
                i <= watchers@.len(),
                forall|j: int| 0 <= j < i ==> watchers@[j].expression@ != expression@,
            decreases watchers@.len() - i,
        {
            if str_eq(watchers[i].expression.as_str(), expression) {
                proof {
                    lemma_watcher_lookup_at(watchers@, expression@, i as int);
                }
                return Some(i);
            }
            i += 1;
        }
        proof {
            lemma_watcher_lookup_none(watchers@, expression@);
        }
        None
    }

    /// The best currently cached scopes of one stack frame, plus the
    /// request of the background refresh. A refresh is attempted only once
    /// threads and stack traces have been requested.
    pub fn scopes(&mut self, frame_id: u64) -> (r: (Vec<Scope>, Option<DapRequest>))
        requires
            old(self).wf(),
        ensures
            final(self).wf(),
            old(self).frames_spec().dom().contains(frame_id) ==> r.0@ == old(self).frames_spec()[frame_id].scopes@,
            !old(self).frames_spec().dom().contains(frame_id) ==> r.0@.len() == 0,
            ({
                let gate = old(self).cache_keys().contains(QueryKey::Threads) && spec_has_kind(
                    old(self).cache_keys(),
                    CommandKind::StackTrace,
                );
                &&& final(self).cache_keys() == if gate {
                    fetch_result_keys(
                        old(self).cache_keys(),
                        QueryKey::Scopes { frame_id },
                        old(self).states().some_stopped(),
                        old(self).terminated(),
                    )
                } else {
                    old(self).cache_keys()
                }
                &&& r.1 == if gate && fetch_issues(
                    old(self).cache_keys(),
                    QueryKey::Scopes { frame_id },
                    old(self).states().some_stopped(),
                    old(self).terminated(),
                ) {
                    Some(DapRequest::Query { command: QueryCommand::Scopes { frame_id } })
                } else {
                    None::<DapRequest>
                }
            }),
            final(self).frames_spec() == old(self).frames_spec(),
            final(self).states() == old(self).states(),
            final(self).terminated() == old(self).terminated(),
            final(self).output_history() == old(self).output_history(),
    {
        let gate = self.requests.contains(&QueryCommand::Threads) && self.requests.has_kind(
            CommandKind::StackTrace,
        );
        let request = if gate {
            let any_stopped = self.thread_states.any_stopped_thread();
            let issue = self.requests.fetch(
                QueryCommand::Scopes { frame_id },
                any_stopped,
                self.is_session_terminated,
            );
            if issue {
                Some(DapRequest::Query { command: QueryCommand::Scopes { frame_id } })
            } else {
                None
            }
        } else {
            None
        };
        let value = match self.stack_frames.get(&frame_id) {
            Some(frame) => frame.clone().scopes,
            None => Vec::new(),
        };
        proof {
            lemma_wf_from_parts(*old(self), *self);
        }
        (value, request)
    }

    /// Installs a scopes response for one frame: the frame's scopes are
    /// recorded and a variables fetch is admitted for each scope; a
    /// failure changes nothing.
    #[verifier::loop_isolation(false)]
    pub fn handle_scopes_response(&mut self, frame_id: u64, result: Result<Vec<Scope>, String>) -> (r: (
        Vec<DapRequest>,
        Vec<Effect>,
    ))
        requires
            old(self).wf(),
        ensures
            final(self).wf(),
            result matches Ok(scopes) ==> {
                let any_stopped = old(self).states().some_stopped();
                let terminated = old(self).terminated();
                &&& final(self).cache_keys() == spec_keys_after_scope_fetches(
                    old(self).cache_keys(),
                    scopes@,
                    scopes@.len() as int,
                    any_stopped,
                    terminated,
                )
                &&& r.0@.len() == spec_scope_fetch_refs(
                    old(self).cache_keys(),
                    scopes@,
                    scopes@.len() as int,
                    any_stopped,
                    terminated,
                ).len()
                &&& forall|j: int|
                    0 <= j < r.0@.len() ==> #[trigger] r.0@[j] == (DapRequest::Query {
                        command: QueryCommand::Variables {
                            variables_reference: spec_scope_fetch_refs(
                                old(self).cache_keys(),
                                scopes@,
                                scopes@.len() as int,
                                any_stopped,
                                terminated,
                            )[j],
                        },
                    })
                &&& old(self).frames_spec().dom().contains(frame_id) ==> {
                    &&& final(self).frames_spec().dom() == old(self).frames_spec().dom()
                    &&& final(self).frames_spec()[frame_id].dap == old(self).frames_spec()[frame_id].dap
                    &&& final(self).frames_spec()[frame_id].scopes@ == scopes@
                    &&& forall|k: u64|
                        k != frame_id && #[trigger] old(self).frames_spec().dom().contains(k)
                            ==> final(self).frames_spec()[k] == old(self).frames_spec()[k]
                }
                &&& !old(self).frames_spec().dom().contains(frame_id) ==> final(self).frames_spec()
                    == old(self).frames_spec()
                &&& r.1@.len() == 1 && r.1@[0] == Effect::Emit(SessionEvent::Variables)
            },
            result is Err ==> *final(self) == *old(self) && r.0@.len() == 0 && r.1@.len() == 0,
            final(self).states() == old(self).states(),
            final(self).terminated() == old(self).terminated(),
            final(self).output_history() == old(self).output_history(),
    {
        let mut requests: Vec<DapRequest> = Vec::new();
        let mut effects: Vec<Effect> = Vec::new();
        match result {
            Ok(scopes) => {
                let any_stopped = self.thread_states.any_stopped_thread();
                let terminated = self.is_session_terminated;
                let ghost keys0 = self.requests.keys();
                let ghost scopes_seq = scopes@;
                let mut i: usize = 0;
                while i < scopes.len()
                    invariant
                        i <= scopes_seq.len(),
                        scopes@ == scopes_seq,
                        any_stopped == old(self).thread_states.some_stopped(),
                        terminated == old(self).is_session_terminated,
                        keys0 == old(self).requests.keys(),
                        self.requests.keys() == spec_keys_after_scope_fetches(
                            keys0,
                            scopes_seq,
                            i as int,
                            any_stopped,
                            terminated,
                        ),
                        requests@.len() == spec_scope_fetch_refs(
                            keys0,
                            scopes_seq,
                            i as int,
                            any_stopped,
                            terminated,
                        ).len(),
                        forall|j: int|
                            0 <= j < requests@.len() ==> #[trigger] requests@[j]
                                == (DapRequest::Query {
                                command: QueryCommand::Variables {
                                    variables_reference: spec_scope_fetch_refs(
                                        keys0,
                                        scopes_seq,
                                        i as int,
                                        any_stopped,
                                        terminated,
                                    )[j],
                                },
                            }),
                        self.output == old(self).output,
                        self.memory == old(self).memory,
                        self.pending_pages@ == old(self).pending_pages@,
                        self.thread_states == old(self).thread_states,
                        self.is_session_terminated == old(self).is_session_terminated,
                        self.mode == old(self).mode,
                        self.threads@ == old(self).threads@,
                        self.stack_frames@ == old(self).stack_frames@,
                    decreases scopes_seq.len() - i,
                {
                    let variables_reference = scopes[i].variables_reference;
                    let issue = self.requests.fetch(
                        QueryCommand::Variables { variables_reference },
                        any_stopped,
                        terminated,
                    );
                    if issue {
                        requests.push(
                            DapRequest::Query {
                                command: QueryCommand::Variables { variables_reference },
                            },
                        );
                    }
                    i += 1;
                }
                let updated = match self.stack_frames.get(&frame_id) {
                    Some(frame) => Some(frame.dap.clone()),
                    None => None,
                };
                if let Some(dap) = updated {
                    self.stack_frames.insert(frame_id, StackFrame { dap, scopes });
                }
                effects.push(Effect::Emit(SessionEvent::Variables));
            },
            Err(_) => {},
        }
        proof {
            lemma_wf_from_parts(*old(self), *self);
        }
        (requests, effects)
    }

    /// The cached variables of one frame's local or global scopes,
    /// flattened in scope order.
    #[verifier::loop_isolation(false)]
    pub fn variables_by_stack_frame_id(
        &self,
        stack_frame_id: u64,
        globals: bool,
        locals: bool,
    ) -> (r: Vec<Variable>)
        ensures
            self.frames_spec().dom().contains(stack_frame_id) ==> r@ == spec_collected_variables(
                self.frames_spec()[stack_frame_id].scopes@,
                self.variables_spec(),
                globals,
                locals,
                self.frames_spec()[stack_frame_id].scopes@.len() as int,
            ),
            !self.frames_spec().dom().contains(stack_frame_id) ==> r@.len() == 0,
    {
        let mut r: Vec<Variable> = Vec::new();
        let frame = match self.stack_frames.get(&stack_frame_id) {
            Some(frame) => frame,
            None => {
                return r;
            },
        };
        let ghost scopes_seq = frame.scopes@;
        let mut i: usize = 0;
        proof {
            assert(r@ =~= spec_collected_variables(
                scopes_seq,
                self.variables@,
                globals,
                locals,
                0,
            ));
        }
        while i < frame.scopes.len()
            invariant
                i <= scopes_seq.len(),
                frame.scopes@ == scopes_seq,
                r@ == spec_collected_variables(
                    scopes_seq,
                    self.variables@,
                    globals,
                    locals,
                    i as int,
                ),
            decreases scopes_seq.len() - i,
        {
            let scope = &frame.scopes[i];
            let selected = (locals && ci_contains_str(scope.name.as_str(), "local")) || (globals
                && ci_contains_str(scope.name.as_str(), "global"));
            if selected {
                if let Some(vars) = self.variables.get(&scope.variables_reference) {
                    let ghost before = r@;
                    let mut j: usize = 0;
                    while j < vars.len()
                        invariant
                            j <= vars@.len(),
                            r@ == before + vars@.take(j as int),
                        decreases vars@.len() - j,
                    {
                        r.push(vars[j].clone());
                        proof {
                            assert(r@ =~= before + vars@.take(j + 1));
                        }
                        j += 1;
                    }
                    proof {
                        assert(before + vars@.take(vars@.len() as int) =~= before + vars@);
                    }
                }
            }
            i += 1;
        }
        r
    }

    fn clone_watchers(&self) -> (r: Vec<Watcher>)
        ensures
            r@ == self.watchers_spec(),
    {
        let mut r: Vec<Watcher> = Vec::new();
        let mut i: usize = 0;
        proof {
            assert(r@ =~= self.watchers@.take(0));
        }
        while i < self.watchers.len()
            invariant
                i <= self.watchers@.len(),
                r@ == self.watchers@.take(i as int),
            decreases self.watchers@.len() - i,
        {
            r.push(self.watchers[i].clone());
            proof {
                assert(r@ =~= self.watchers@.take(i + 1));
            }
            i += 1;
        }
        proof {
            assert(self.watchers@.take(self.watchers@.len() as int) =~= self.watchers@);
        }
        r
    }

    /// The watcher table.
    pub fn watchers(&self) -> (r: Vec<Watcher>)
        ensures
            r@ == self.watchers_spec(),
    {
        self.clone_watchers()
    }

    /// Evaluates an expression in watch context so its result can be
    /// recorded as a watcher; owed only while an adapter is running.
    pub fn add_watcher(&self, expression: String, frame_id: u64) -> (r: Option<DapRequest>)
        ensures
            self.building() ==> r is None,
            self.running() ==> (r matches Some(
                DapRequest::Evaluate { expression: e, context, frame_id: f, source },
            ) && e == expression && context == Some(EvaluateContext::Watch) && f == Some(frame_id)
                && source is None),
    {
        match &self.mode {
            SessionState::Building => None,
            SessionState::Running(_) => Some(
                DapRequest::Evaluate {
                    expression,
                    context: Some(EvaluateContext::Watch),
                    frame_id: Some(frame_id),
                    source: None,
                },
            ),
        }
    }

    /// Records a watch evaluation: the watcher keyed by this expression is
    /// added or updated with the result; a failure changes nothing.
    #[verifier::loop_isolation(false)]
    pub fn handle_watcher_response(
        &mut self,
        expression: String,
        result: Result<EvaluateResponse, String>,
    ) -> (effects: Vec<Effect>)
        requires
            old(self).wf(),
        ensures
            final(self).wf(),
            result matches Ok(response) ==> {
                &&& effects@.len() == 1 && effects@[0] == Effect::Emit(SessionEvent::Watchers)
                &&& match spec_watcher_lookup(old(self).watchers_spec(), expression@) {
                    Some(i) => {
                        &&& final(self).watchers_spec().len() == old(self).watchers_spec().len()
                        &&& forall|j: int|
                            0 <= j < old(self).watchers_spec().len() && j != i ==> final(self).watchers_spec()[j] == old(self).watchers_spec()[j]
                        &&& final(self).watchers_spec()[i].expression == expression
                        &&& final(self).watchers_spec()[i].value == response.result
                        &&& final(self).watchers_spec()[i].variables_reference
                            == response.variables_reference
                    },
                    None => {
                        &&& final(self).watchers_spec().len() == old(self).watchers_spec().len()
                            + 1
                        &&& final(self).watchers_spec().take(old(self).watchers_spec().len() as int)
                            == old(self).watchers_spec()
                        &&& final(self).watchers_spec().last().expression == expression
                        &&& final(self).watchers_spec().last().value == response.result
                        &&& final(self).watchers_spec().last().variables_reference
                            == response.variables_reference
                    },
                }
            },
            result is Err ==> *final(self) == *old(self) && effects@.len() == 0,
            final(self).cache_keys() == old(self).cache_keys(),
            final(self).states() == old(self).states(),
            final(self).terminated() == old(self).terminated(),
            final(self).output_history() == old(self).output_history(),
    {
        let mut effects: Vec<Effect> = Vec::new();
        match result {
            Ok(response) => {
                let watcher = Watcher {
                    expression,
                    value: response.result,
                    variables_reference: response.variables_reference,
                };
                let found = Self::find_watcher(&self.watchers, watcher.expression.as_str());
                match found {
                    Some(k) => {
                        self.watchers.remove(k);
                        self.watchers.insert(k, watcher);
                        proof {
                            assert(self.watchers@ =~= old(self).watchers@.update(
                                k as int,
                                self.watchers@[k as int],
                            ));
                        }
                    },
                    None => {
                        self.watchers.push(watcher);
                        proof {
                            assert(self.watchers@.take(old(self).watchers@.len() as int)
                                =~= old(self).watchers@);
                        }
                    },
                }
                effects.push(Effect::Emit(SessionEvent::Watchers));
                proof {
                    lemma_wf_from_parts(*old(self), *self);
                }
            },
            Err(_) => {},
        }
        effects
    }

    /// Re-evaluates every watcher against a frame, yielding one watch
    /// evaluation per watcher in table order.
    #[verifier::loop_isolation(false)]
    pub fn refresh_watchers(&self, frame_id: u64) -> (r: Vec<DapRequest>)
        ensures
            r@.len() == self.watchers_spec().len(),
            forall|i: int|
                0 <= i < r@.len() ==> #[trigger] r@[i] == (DapRequest::Evaluate {
                    expression: self.watchers_spec()[i].expression,
                    context: Some(EvaluateContext::Watch),
                    frame_id: Some(frame_id),
                    source: None,
                }),
    {
        let mut r: Vec<DapRequest> = Vec::new();
        let mut i: usize = 0;
        while i < self.watchers.len()
            invariant
                i <= self.watchers@.len(),
                r@.len() == i,
                forall|j: int|
                    0 <= j < i ==> #[trigger] r@[j] == (DapRequest::Evaluate {
                        expression: self.watchers@[j].expression,
                        context: Some(EvaluateContext::Watch),
                        frame_id: Some(frame_id),
                        source: None,
                    }),
            decreases self.watchers@.len() - i,
        {
            let expression = self.watchers[i].expression.clone();
            r.push(
                DapRequest::Evaluate {
                    expression,
                    context: Some(EvaluateContext::Watch),
                    frame_id: Some(frame_id),
                    source: None,
                },
            );
            i += 1;
        }
        r
    }

    /// Removes the watcher keyed by this expression, if present.
    pub fn remove_watcher(&mut self, expression: &str)
        requires
            old(self).wf(),
        ensures
            final(self).wf(),
            final(self).watchers_spec() == old(self).watchers_spec().filter(
                watcher_not_named(expression@),
            ),
            final(self).cache_keys() == old(self).cache_keys(),
            final(self).states() == old(self).states(),
            final(self).terminated() == old(self).terminated(),
            final(self).output_history() == old(self).output_history(),
    {
        let ghost pred = watcher_not_named(expression@);
        let mut kept: Vec<Watcher> = Vec::new();
        let mut i: usize = 0;
        proof {
            reveal(Seq::filter);
            assert(kept@ =~= self.watchers@.take(0).filter(pred));
        }
        while i < self.watchers.len()
            invariant
                i <= self.watchers@.len(),
                self == old(self),
                pred == watcher_not_named(expression@),
                kept@ == self.watchers@.take(i as int).filter(pred),
            decreases self.watchers@.len() - i,
        {
            proof {
                reveal(Seq::filter);
                assert(self.watchers@.take(i + 1).drop_last() =~= self.watchers@.take(i as int));
            }
            if !str_eq(self.watchers[i].expression.as_str(), expression) {
                kept.push(self.watchers[i].clone());
            }
            i += 1;
        }
        proof {
            assert(self.watchers@.take(self.watchers@.len() as int) =~= self.watchers@);
        }
        self.watchers = kept;
        proof {
            lemma_wf_from_parts(*old(self), *self);
        }
    }
}


impl Session {
    /// Appends one output event to the bounded output ring, advancing the
    /// output token by exactly one. Oldest events fall out silently once
    /// the ring is full.
    pub fn push_output(&mut self, event: OutputEvent)
        requires
            old(self).wf(),
            old(self).output_history().len() < usize::MAX,
        ensures
            final(self).wf(),
            final(self).output_history() == old(self).output_history().push(event),
            eq_but_output(*old(self), *final(self)),
    {
        self.output.push(event);
        proof {
            lemma_wf_from_parts_output(*old(self), *self);
        }
    }

    /// Whether output was appended after `last_update` was handed out.
    pub fn has_new_output(&self, last_update: OutputToken) -> (r: bool)
        requires
            self.wf(),
        ensures
            r == (last_update.0 < self.output_history().len()),
    {
        self.output.has_new_output(last_update)
    }

    /// The output events appended after `since`, as far as the ring still
    /// holds them, oldest first, together with the current token.
    pub fn output(&self, since: OutputToken) -> (r: (Vec<OutputEvent>, OutputToken))
        requires
            self.wf(),
        ensures
            r.0@ == visible_since(
                self.output_history(),
                MAX_TRACKED_OUTPUT_EVENTS as nat,
                since.0 as nat,
            ),
            r.1.0 == self.output_history().len(),
    {
        self.output.output(since)
    }

    /// The current output token.
    pub fn current_output_token(&self) -> (t: OutputToken)
        requires
            self.wf(),
        ensures
            t.0 == self.output_history().len(),
    {
        self.output.token()
    }

    /// Evaluates an expression: the echoed expression goes to the console
    /// ring first, and the evaluation request is owed while an adapter is
    /// running.
    pub fn evaluate(
        &mut self,
        expression: String,
        context: Option<EvaluateContext>,
        frame_id: Option<u64>,
        source: Option<Source>,
    ) -> (r: Option<DapRequest>)
        requires
            old(self).wf(),
            old(self).output_history().len() < usize::MAX,
        ensures
            final(self).wf(),
            final(self).output_history().len() == old(self).output_history().len() + 1,
            final(self).output_history() == old(self).output_history().push(
                final(self).output_history().last(),
            ),
            final(self).output_history().last().output@ == "> "@ + expression@,
            final(self).output_history().last().category is None,
            final(self).output_history().last().variables_reference is None,
            old(self).building() ==> r is None,
            old(self).running() ==> (r matches Some(
                DapRequest::Evaluate { expression: e, context: c, frame_id: f, source: s },
            ) && e == expression && c == context && f == frame_id && s == source),
            final(self).cache_keys() == old(self).cache_keys(),
            final(self).states() == old(self).states(),
            final(self).terminated() == old(self).terminated(),
    {
        let echoed = OutputEvent {
            category: None,
            output: prefixed("> ", expression.as_str()),
            variables_reference: None,
        };
        self.push_output(echoed);
        match &self.mode {
            SessionState::Building => None,
            SessionState::Running(_) => Some(
                DapRequest::Evaluate { expression, context, frame_id, source },
            ),
        }
    }

    /// Settles an evaluation: memory may have changed, so the page cache
    /// and cached memory reads are dropped, and the result -- or the error
    /// -- is echoed to the console ring.
    pub fn handle_evaluate_response(&mut self, result: Result<EvaluateResponse, String>)
        requires
            old(self).wf(),
            old(self).output_history().len() < usize::MAX,
        ensures
            final(self).wf(),
            final(self).memory_spec().pages_map().dom() == Set::<u64>::empty(),
            final(self).cache_keys() == old(self).cache_keys().filter(
                not_of_kind(CommandKind::ReadMemory),
            ),
            final(self).output_history().len() == old(self).output_history().len() + 1,
            final(self).output_history() == old(self).output_history().push(
                final(self).output_history().last(),
            ),
            match result {
                Ok(response) => final(self).output_history().last().output@ == "< "@
                    + response.result@ && final(self).output_history().last().variables_reference
                    == Some(response.variables_reference),
                Err(error) => final(self).output_history().last().output == error && final(self).output_history().last().variables_reference is None,
            },
            final(self).states() == old(self).states(),
            final(self).terminated() == old(self).terminated(),
    {
        self.memory.clear();
        self.requests.invalidate_kind(CommandKind::ReadMemory);
        let event = match result {
            Ok(response) => OutputEvent {
                category: None,
                output: prefixed("< ", response.result.as_str()),
                variables_reference: Some(response.variables_reference),
            },
            Err(error) => OutputEvent {
                category: None,
                output: error,
                variables_reference: None,
            },
        };
        self.output.push(event);
        proof {
            lemma_wf_from_parts_memory(*old(self), *self);
        }
    }

    /// Asks the adapter for the byte size of what an expression points to,
    /// through an evaluation of the adapter's sizeof syntax in REPL
    /// context.
    pub fn data_access_size(&self, frame_id: Option<u64>, evaluate_name: &str) -> (r: DapRequest)
        ensures
            r matches DapRequest::Evaluate { expression, context, frame_id: f, source } && {
                &&& expression@ == "?${sizeof("@ + evaluate_name@ + ")}"@
                &&& context == Some(EvaluateContext::Repl)
                &&& f == frame_id
                &&& source is None
            },
    {
        let mut expression = prefixed("?${sizeof(", evaluate_name);
        expression.append(")}");
        DapRequest::Evaluate {
            expression,
            context: Some(EvaluateContext::Repl),
            frame_id,
            source: None,
        }
    }

    /// The byte size an evaluation of the sizeof syntax came back with:
    /// the result parsed as a decimal number.
    pub fn data_access_size_from_response(response: &EvaluateResponse) -> (r: Option<u64>)
        ensures
            r == crate::strings::spec_parse_u64(response.result@),
    {
        crate::strings::parse_u64(response.result.as_str())
    }

    /// Asks the adapter for the memory reference of an expression, through
    /// an evaluation in REPL context.
    pub fn memory_reference_of_expr(&self, frame_id: Option<u64>, expression: String) -> (r:
        DapRequest)
        ensures
            r == (DapRequest::Evaluate {
                expression,
                context: Some(EvaluateContext::Repl),
                frame_id,
                source: None,
            }),
    {
        DapRequest::Evaluate {
            expression,
            context: Some(EvaluateContext::Repl),
            frame_id,
            source: None,
        }
    }

    /// The memory reference an evaluation came back with, when one did,
    /// paired with the value's type.
    pub fn memory_reference_from_response(response: &EvaluateResponse) -> (r: Option<
        (String, Option<String>),
    >)
        ensures
            match response.memory_reference {
                Some(reference) => r matches Some((m, t)) && m == reference && t
                    == response.value_type,
                None => r is None,
            },
    {
        match &response.memory_reference {
            Some(reference) => {
                let value_type = match &response.value_type {
                    Some(t) => Some(t.clone()),
                    None => None,
                };
                Some((reference.clone(), value_type))
            },
            None => None,
        }
    }

    /// Settles a set-variable request: variables and memory may have
    /// changed, so their caches are dropped and every watcher is
    /// re-evaluated against the frame; a failure changes nothing.
    pub fn handle_set_variable_response(&mut self, stack_frame_id: u64, success: bool) -> (r: (
        Vec<DapRequest>,
        Vec<Effect>,
    ))
        requires
            old(self).wf(),
        ensures
            final(self).wf(),
            !success ==> *final(self) == *old(self) && r.0@.len() == 0 && r.1@.len() == 0,
            success ==> {
                &&& final(self).memory_spec().pages_map().dom() == Set::<u64>::empty()
                &&& final(self).cache_keys() == old(self).cache_keys().filter(
                    not_of_kind(CommandKind::Variables),
                ).filter(not_of_kind(CommandKind::ReadMemory))
                &&& r.0@.len() == old(self).watchers_spec().len()
                &&& forall|i: int|
                    0 <= i < r.0@.len() ==> #[trigger] r.0@[i] == (DapRequest::Evaluate {
                        expression: old(self).watchers_spec()[i].expression,
                        context: Some(EvaluateContext::Watch),
                        frame_id: Some(stack_frame_id),
                        source: None,
                    })
                &&& r.1@.len() == 1 && r.1@[0] == Effect::Emit(SessionEvent::Variables)
            },
            final(self).states() == old(self).states(),
            final(self).terminated() == old(self).terminated(),
            final(self).output_history() == old(self).output_history(),
    {
        if !success {
            return (Vec::new(), Vec::new());
        }
        self.requests.invalidate_kind(CommandKind::Variables);
        self.requests.invalidate_kind(CommandKind::ReadMemory);
        self.memory.clear();
        let requests = self.refresh_watchers(stack_frame_id);
        let mut effects: Vec<Effect> = Vec::new();
        effects.push(Effect::Emit(SessionEvent::Variables));
        proof {
            lemma_wf_from_parts_memory(*old(self), *self);
        }
        (requests, effects)
    }

    /// Marks the pending run-to-line breakpoint for one stopped thread and
    /// names the path whose breakpoints must be re-sent; once that send
    /// settles the caller continues the thread. Nothing happens unless the
    /// thread is known stopped and an adapter is running.
    pub fn run_to_position(
        &mut self,
        breakpoint: SourceBreakpoint,
        active_thread_id: ThreadId,
    ) -> (r: Option<String>)
        requires
            old(self).wf(),
        ensures
            final(self).wf(),
            old(self).building() || old(self).states().state_of(active_thread_id.0) != Some(
                ThreadStatus::Stopped,
            ) ==> *final(self) == *old(self) && r is None,
            old(self).running() && old(self).states().state_of(active_thread_id.0) == Some(
                ThreadStatus::Stopped,
            ) ==> {
                &&& final(self).tmp_breakpoint() == Some(breakpoint)
                &&& r matches Some(path) && path == breakpoint.path
                &&& final(self).states() == old(self).states()
                &&& final(self).cache_keys() == old(self).cache_keys()
                &&& final(self).terminated() == old(self).terminated()
                &&& final(self).output_history() == old(self).output_history()
            },
    {
        let stopped = matches!(
            self.thread_states.thread_state(active_thread_id),
            Some(ThreadStatus::Stopped),
        );
        match &mut self.mode {
            SessionState::Running(running) => {
                if !stopped {
                    return None;
                }
                let path = breakpoint.path.clone();
                running.tmp_breakpoint = Some(breakpoint);
                proof {
                    lemma_wf_from_parts(*old(self), *self);
                }
                Some(path)
            },
            SessionState::Building => None,
        }
    }
}


/// The index of the first exception filter with the given id, if any.
pub open spec fn spec_filter_lookup(
    entries: Seq<(ExceptionFilter, bool)>,
    id: Seq<char>,
) -> Option<int>
    decreases entries.len(),
{
    if entries.len() == 0 {
        None
    } else if entries[0].0.filter@ == id {
        Some(0int)
    } else {
        match spec_filter_lookup(entries.drop_first(), id) {
            Some(i) => Some(i + 1),
            None => None,
        }
    }
}

proof fn lemma_filter_lookup_at(entries: Seq<(ExceptionFilter, bool)>, id: Seq<char>, k: int)
    requires
        0 <= k < entries.len(),
        entries[k].0.filter@ == id,
        forall|j: int| 0 <= j < k ==> entries[j].0.filter@ != id,
    ensures
        spec_filter_lookup(entries, id) == Some(k),
    decreases entries.len(),
{
    if k > 0 {
        lemma_filter_lookup_at(entries.drop_first(), id, k - 1);
    }
}

proof fn lemma_filter_lookup_none(entries: Seq<(ExceptionFilter, bool)>, id: Seq<char>)
    requires
        forall|j: int| 0 <= j < entries.len() ==> entries[j].0.filter@ != id,
    ensures
        spec_filter_lookup(entries, id) is None,
    decreases entries.len(),
{
    if entries.len() > 0 {
        lemma_filter_lookup_none(entries.drop_first(), id);
    }
}

/// The index of the first data breakpoint with the given data id, if any.
pub open spec fn spec_data_bp_lookup(data: Seq<DataBreakpointState>, id: Seq<char>) -> Option<int>
    decreases data.len(),
{
    if data.len() == 0 {
        None
    } else if data[0].dap.data_id@ == id {
        Some(0int)
    } else {
        match spec_data_bp_lookup(data.drop_first(), id) {
            Some(i) => Some(i + 1),
            None => None,
        }
    }
}

proof fn lemma_data_bp_lookup_at(data: Seq<DataBreakpointState>, id: Seq<char>, k: int)
    requires
        0 <= k < data.len(),
        data[k].dap.data_id@ == id,
        forall|j: int| 0 <= j < k ==> data[j].dap.data_id@ != id,
    ensures
        spec_data_bp_lookup(data, id) == Some(k),
    decreases data.len(),
{
    if k > 0 {
        lemma_data_bp_lookup_at(data.drop_first(), id, k - 1);
    }
}

proof fn lemma_data_bp_lookup_none(data: Seq<DataBreakpointState>, id: Seq<char>)
    requires
        forall|j: int| 0 <= j < data.len() ==> data[j].dap.data_id@ != id,
    ensures
        spec_data_bp_lookup(data, id) is None,
    decreases data.len(),
{
    if data.len() > 0 {
        lemma_data_bp_lookup_none(data.drop_first(), id);
    }
}

impl Session {
    fn clone_exception_filters(&self) -> (r: Vec<(ExceptionFilter, bool)>)
        ensures
            r@ == self.exception_filters_spec(),
    {
        let mut r: Vec<(ExceptionFilter, bool)> = Vec::new();
        let mut i: usize = 0;
        proof {
            assert(r@ =~= self.exception_breakpoints@.take(0));
        }
        while i < self.exception_breakpoints.len()
            invariant
                i <= self.exception_breakpoints@.len(),
                r@ == self.exception_breakpoints@.take(i as int),
            decreases self.exception_breakpoints@.len() - i,
        {
            let (filter, enabled) = &self.exception_breakpoints[i];
            r.push((filter.clone(), *enabled));
            proof {
                assert(r@ =~= self.exception_breakpoints@.take(i + 1));
            }
            i += 1;
        }
        proof {
            assert(self.exception_breakpoints@.take(self.exception_breakpoints@.len() as int)
                =~= self.exception_breakpoints@);
        }
        r
    }

    /// The exception-filter table: each declared filter with its enabled
    /// flag.
    pub fn exception_breakpoints(&self) -> (r: Vec<(ExceptionFilter, bool)>)
        ensures
            r@ == self.exception_filters_spec(),
    {
        self.clone_exception_filters()
    }

    fn clone_data_breakpoints(&self) -> (r: Vec<DataBreakpointState>)
        ensures
            r@ == self.data_breakpoints_spec(),
    {
        let mut r: Vec<DataBreakpointState> = Vec::new();
        let mut i: usize = 0;
        proof {
            assert(r@ =~= self.data_breakpoints@.take(0));
        }
        while i < self.data_breakpoints.len()
            invariant
                i <= self.data_breakpoints@.len(),
                r@ == self.data_breakpoints@.take(i as int),
            decreases self.data_breakpoints@.len() - i,
        {
            r.push(self.data_breakpoints[i].clone());
            proof {
                assert(r@ =~= self.data_breakpoints@.take(i + 1));
            }
            i += 1;
        }
        proof {
            assert(self.data_breakpoints@.take(self.data_breakpoints@.len() as int)
                =~= self.data_breakpoints@);
        }
        r
    }

    /// The data-breakpoint table.
    pub fn data_breakpoints(&self) -> (r: Vec<DataBreakpointState>)
        ensures
            r@ == self.data_breakpoints_spec(),
    {
        self.clone_data_breakpoints()
    }

    /// The `setExceptionBreakpoints` request for the current enabled
    /// filters, owed only while an adapter is running.
    pub fn send_exception_breakpoints(&self) -> (r: Option<DapRequest>)
        ensures
            self.building() ==> r is None,
            self.running() ==> (r matches Some(DapRequest::SetExceptionBreakpoints { args })
                && match args {
                SetExceptionBreakpointsArgs::WithOptions { filter_ids } => self
                    .caps().supports_exception_filter_options == Some(true) && filter_ids@
                    .map_values(|s: String| s@) == spec_enabled_filter_ids(
                    self.exception_filters_spec(),
                ),
                SetExceptionBreakpointsArgs::Plain { filters } => self
                    .caps().supports_exception_filter_options != Some(true) && filters@.map_values(
                    |s: String| s@,
                ) == spec_enabled_filter_ids(self.exception_filters_spec()),
            }),
    {
        match &self.mode {
            SessionState::Building => None,
            SessionState::Running(_) => {
                let supports_options = matches!(
                    self.capabilities.supports_exception_filter_options,
                    Some(true),
                );
                let args = exception_breakpoints_payload(
                    &self.exception_breakpoints,
                    supports_options,
                );
                Some(DapRequest::SetExceptionBreakpoints { args })
            },
        }
    }

    /// Toggles one exception filter by id and, when an adapter is
    /// running, resends the full enabled set.
    #[verifier::loop_isolation(false)]
    pub fn toggle_exception_breakpoint(&mut self, id: &str) -> (r: Option<DapRequest>)
        requires
            old(self).wf(),
        ensures
            final(self).wf(),
            spec_filter_lookup(old(self).exception_filters_spec(), id@) is None ==> *final(self)
                == *old(self) && r is None,
            spec_filter_lookup(old(self).exception_filters_spec(), id@) matches Some(i) ==> {
                &&& final(self).exception_filters_spec().len() == old(self).exception_filters_spec().len()
                &&& forall|j: int|
                    0 <= j < old(self).exception_filters_spec().len() && j != i ==> final(self).exception_filters_spec()[j] == old(self).exception_filters_spec()[j]
                &&& final(self).exception_filters_spec()[i].0 == old(self).exception_filters_spec()[i].0
                &&& final(self).exception_filters_spec()[i].1 == !old(self).exception_filters_spec()[i].1
                &&& old(self).building() ==> r is None
                &&& old(self).running() ==> r is Some
                &&& final(self).states() == old(self).states()
                &&& final(self).cache_keys() == old(self).cache_keys()
                &&& final(self).terminated() == old(self).terminated()
                &&& final(self).output_history() == old(self).output_history()
            },
    {
        match Self::find_exception_filter(&self.exception_breakpoints, id) {
            Some(i) => {
                let (filter, enabled) = self.exception_breakpoints.remove(i);
                self.exception_breakpoints.insert(i, (filter, !enabled));
                proof {
                    assert(self.exception_breakpoints@ =~= old(self).exception_breakpoints@.update(
                        i as int,
                        self.exception_breakpoints@[i as int],
                    ));
                    lemma_wf_from_parts(*old(self), *self);
                }
                self.send_exception_breakpoints()
            },
            None => None,
        }
    }

    fn find_data_breakpoint(data: &Vec<DataBreakpointState>, id: &str) -> (r: Option<usize>)
        ensures
            r matches Some(k) ==> k < data@.len() && spec_data_bp_lookup(data@, id@) == Some(
                k as int,
            ),
            r is None ==> spec_data_bp_lookup(data@, id@) is None,
    {
        let mut i: usize = 0;
        while i < data.len()
            invariant
                i <= data@.len(),
                forall|j: int| 0 <= j < i ==> data@[j].dap.data_id@ != id@,
            decreases data@.len() - i,
        {
            if str_eq(data[i].dap.data_id.as_str(), id) {
                proof {
                    lemma_data_bp_lookup_at(data@, id@, i as int);
                }
                return Some(i);
            }
            i += 1;
        }
        proof {
            lemma_data_bp_lookup_none(data@, id@);
        }
        None
    }

    fn find_exception_filter(entries: &Vec<(ExceptionFilter, bool)>, id: &str) -> (r: Option<
        usize,
    >)
        ensures
            r matches Some(k) ==> k < entries@.len() && spec_filter_lookup(entries@, id@) == Some(
                k as int,
            ),
            r is None ==> spec_filter_lookup(entries@, id@) is None,
    {
        let mut i: usize = 0;
        while i < entries.len()
            invariant
                i <= entries@.len(),
                forall|j: int| 0 <= j < i ==> entries@[j].0.filter@ != id@,
            decreases entries@.len() - i,
        {
            if str_eq(entries[i].0.filter.as_str(), id) {
                proof {
                    lemma_filter_lookup_at(entries@, id@, i as int);
                }
                return Some(i);
            }
            i += 1;
        }
        proof {
            lemma_filter_lookup_none(entries@, id@);
        }
        None
    }

    /// The `setDataBreakpoints` request for the full current enabled set,
    /// owed only while an adapter is running. There is no incremental
    /// protocol for partial updates.
    pub fn send_data_breakpoints(&self) -> (r: Option<DapRequest>)
        ensures
            self.building() ==> r is None,
            self.running() ==> (r matches Some(DapRequest::SetDataBreakpoints { breakpoints })
                && breakpoints@ == spec_enabled_data_breakpoints(self.data_breakpoints_spec())),
    {
        match &self.mode {
            SessionState::Building => None,
            SessionState::Running(_) => {
                let breakpoints = enabled_data_breakpoints(&self.data_breakpoints);
                Some(DapRequest::SetDataBreakpoints { breakpoints })
            },
        }
    }

    /// Toggles one data breakpoint by its opaque id and, when an adapter
    /// is running, resends the full current enabled set as one request.
    #[verifier::loop_isolation(false)]
    pub fn toggle_data_breakpoint(&mut self, id: &str) -> (r: Option<DapRequest>)
        requires
            old(self).wf(),
        ensures
            final(self).wf(),
            spec_data_bp_lookup(old(self).data_breakpoints_spec(), id@) is None ==> *final(self)
                == *old(self) && r is None,
            spec_data_bp_lookup(old(self).data_breakpoints_spec(), id@) matches Some(i) ==> {
                &&& final(self).data_breakpoints_spec().len() == old(self).data_breakpoints_spec().len()
                &&& forall|j: int|
                    0 <= j < old(self).data_breakpoints_spec().len() && j != i ==> final(self).data_breakpoints_spec()[j] == old(self).data_breakpoints_spec()[j]
                &&& final(self).data_breakpoints_spec()[i].dap == old(self).data_breakpoints_spec()[i].dap
                &&& final(self).data_breakpoints_spec()[i].context == old(self).data_breakpoints_spec()[i].context
                &&& final(self).data_breakpoints_spec()[i].is_enabled == !old(self).data_breakpoints_spec()[i].is_enabled
                &&& old(self).building() ==> r is None
                &&& old(self).running() ==> (r matches Some(
                    DapRequest::SetDataBreakpoints { breakpoints },
                ) && breakpoints@ == spec_enabled_data_breakpoints(
                    final(self).data_breakpoints_spec(),
                ))
                &&& final(self).states() == old(self).states()
                &&& final(self).cache_keys() == old(self).cache_keys()
                &&& final(self).terminated() == old(self).terminated()
                &&& final(self).output_history() == old(self).output_history()
            },
    {
        match Self::find_data_breakpoint(&self.data_breakpoints, id) {
            Some(i) => {
                let entry = self.data_breakpoints.remove(i);
                let toggled = DataBreakpointState {
                    dap: entry.dap,
                    is_enabled: !entry.is_enabled,
                    context: entry.context,
                };
                self.data_breakpoints.insert(i, toggled);
                proof {
                    assert(self.data_breakpoints@ =~= old(self).data_breakpoints@.update(
                        i as int,
                        self.data_breakpoints@[i as int],
                    ));
                    lemma_wf_from_parts(*old(self), *self);
                }
                self.send_data_breakpoints()
            },
            None => None,
        }
    }

    /// Creates a data breakpoint under an opaque id -- or removes it when
    /// one with that id already exists -- and, when an adapter is
    /// running, resends the full current enabled set.
    #[verifier::loop_isolation(false)]
    pub fn create_data_breakpoint(
        &mut self,
        context: DataBreakpointContext,
        data_id: String,
        dap: DataBreakpointDescriptor,
    ) -> (r: Option<DapRequest>)
        requires
            old(self).wf(),
        ensures
            final(self).wf(),
            spec_data_bp_lookup(old(self).data_breakpoints_spec(), data_id@) matches Some(i)
                ==> final(self).data_breakpoints_spec() == old(self).data_breakpoints_spec().remove(i),
            spec_data_bp_lookup(old(self).data_breakpoints_spec(), data_id@) is None ==> {
                &&& final(self).data_breakpoints_spec().len() == old(self).data_breakpoints_spec().len() + 1
                &&& final(self).data_breakpoints_spec().take(
                    old(self).data_breakpoints_spec().len() as int,
                ) == old(self).data_breakpoints_spec()
                &&& final(self).data_breakpoints_spec().last().dap == dap
                &&& final(self).data_breakpoints_spec().last().is_enabled
                &&& final(self).data_breakpoints_spec().last().context == context
            },
            old(self).building() ==> r is None,
            old(self).running() ==> (r matches Some(DapRequest::SetDataBreakpoints { breakpoints })
                && breakpoints@ == spec_enabled_data_breakpoints(
                final(self).data_breakpoints_spec(),
            )),
            final(self).states() == old(self).states(),
            final(self).cache_keys() == old(self).cache_keys(),
            final(self).terminated() == old(self).terminated(),
            final(self).output_history() == old(self).output_history(),
    {
        let mut i: usize = 0;
        let mut removed = false;
        while i < self.data_breakpoints.len() && !removed
            invariant
                i <= self.data_breakpoints@.len(),
                !removed ==> self.data_breakpoints@ == old(self).data_breakpoints@,
                !removed ==> forall|j: int|
                    0 <= j < i ==> self.data_breakpoints@[j].dap.data_id@ != data_id@,
                removed ==> i < old(self).data_breakpoints@.len() && spec_data_bp_lookup(
                    old(self).data_breakpoints@,
                    data_id@,
                ) == Some(i as int) && self.data_breakpoints@ == old(self).data_breakpoints@.remove(i as int),
                self.output == old(self).output,
                self.memory == old(self).memory,
                self.pending_pages@ == old(self).pending_pages@,
                self.mode == old(self).mode,
                self.thread_states == old(self).thread_states,
                self.requests == old(self).requests,
                self.is_session_terminated == old(self).is_session_terminated,
            decreases self.data_breakpoints@.len() - i,
        {
            if str_eq(self.data_breakpoints[i].dap.data_id.as_str(), data_id.as_str()) {
                proof {
                    lemma_data_bp_lookup_at(self.data_breakpoints@, data_id@, i as int);
                }
                self.data_breakpoints.remove(i);
                removed = true;
            } else {
                i += 1;
            }
        }
        if !removed {
            proof {
                lemma_data_bp_lookup_none(self.data_breakpoints@, data_id@);
            }
            self.data_breakpoints.push(
                DataBreakpointState { dap, is_enabled: true, context },
            );
            proof {
                assert(self.data_breakpoints@.take(old(self).data_breakpoints@.len() as int)
                    =~= old(self).data_breakpoints@);
            }
        }
        proof {
            lemma_wf_from_parts(*old(self), *self);
        }
        self.send_data_breakpoints()
    }

    /// The `setBreakpoints` request for one modified path: the store's
    /// enabled breakpoints for it plus any pending run-to-line breakpoint
    /// of the same path, in store order. Owed only while an adapter is
    /// running.
    pub fn send_breakpoints_from_path(
        &self,
        path: &str,
        reason: BreakpointUpdatedReason,
        store_breakpoints: &Vec<SourceBreakpoint>,
    ) -> (r: Option<DapRequest>)
        ensures
            self.building() ==> r is None,
            self.running() ==> (r matches Some(
                DapRequest::SetBreakpoints { source, source_modified, breakpoints },
            ) && {
                &&& source.path matches Some(p) && p@ == path@
                &&& source_modified == Some(reason == BreakpointUpdatedReason::FileSaved)
                &&& breakpoints@.len() == spec_sent_breakpoints(
                    store_breakpoints@,
                    self.tmp_breakpoint(),
                    path@,
                ).len()
                &&& forall|i: int|
                    0 <= i < breakpoints@.len() ==> breakpoints@[i] == spec_wire_breakpoint(
                        #[trigger] spec_sent_breakpoints(
                            store_breakpoints@,
                            self.tmp_breakpoint(),
                            path@,
                        )[i],
                    )
            }),
    {
        match &self.mode {
            SessionState::Building => None,
            SessionState::Running(running) => {
                let source_modified = matches!(reason, BreakpointUpdatedReason::FileSaved);
                Some(
                    set_breakpoints_request(
                        path,
                        Some(source_modified),
                        store_breakpoints,
                        &running.tmp_breakpoint,
                    ),
                )
            },
        }
    }

    /// The `setBreakpoints` requests that clear every breakpoint of the
    /// given paths.
    #[verifier::loop_isolation(false)]
    pub fn unset_breakpoints_from_paths(&self, paths: &Vec<String>) -> (r: Vec<DapRequest>)
        ensures
            r@.len() == paths@.len(),
            forall|i: int|
                0 <= i < r@.len() ==> (#[trigger] r@[i] matches DapRequest::SetBreakpoints {
                    source,
                    source_modified,
                    breakpoints,
                } && (source.path matches Some(p) && p@ == paths@[i]@) && source_modified is None
                    && breakpoints@.len() == 0),
    {
        let mut r: Vec<DapRequest> = Vec::new();
        let mut i: usize = 0;
        while i < paths.len()
            invariant
                i <= paths@.len(),
                r@.len() == i,
                forall|j: int|
                    0 <= j < i ==> (#[trigger] r@[j] matches DapRequest::SetBreakpoints {
                        source,
                        source_modified,
                        breakpoints,
                    } && (source.path matches Some(p) && p@ == paths@[j]@) && source_modified
                        is None && breakpoints@.len() == 0),
            decreases paths@.len() - i,
        {
            r.push(
                DapRequest::SetBreakpoints {
                    source: client_source(paths[i].as_str()),
                    source_modified: None,
                    breakpoints: Vec::new(),
                },
            );
            i += 1;
        }
        r
    }

    /// Sets whether this session ignores breakpoints. A change while an
    /// adapter is running resends every known path's breakpoints: the
    /// enabled ones when they are honored again, an empty list per path
    /// when they are now ignored.
    pub fn set_ignore_breakpoints(
        &mut self,
        ignore: bool,
        all_breakpoints: &Vec<(String, Vec<SourceBreakpoint>)>,
    ) -> (r: Vec<DapRequest>)
        requires
            old(self).wf(),
            old(self).running() || ignore == old(self).ignores_breakpoints(),
        ensures
            final(self).wf(),
            old(self).ignores_breakpoints() == ignore ==> *final(self) == *old(self) && r@.len()
                == 0,
            old(self).ignores_breakpoints() != ignore ==> {
                &&& final(self).ignores_breakpoints() == ignore
                &&& r@.len() == all_breakpoints@.len()
                &&& forall|i: int|
                    0 <= i < r@.len() ==> (#[trigger] r@[i] matches DapRequest::SetBreakpoints {
                        source,
                        source_modified,
                        breakpoints,
                    } && {
                        &&& source.path matches Some(p) && p@ == all_breakpoints@[i].0@
                        &&& source_modified == Some(false)
                        &&& breakpoints@.len() == (if ignore {
                            0int
                        } else {
                            spec_sent_breakpoints(
                                all_breakpoints@[i].1@,
                                None::<SourceBreakpoint>,
                                all_breakpoints@[i].0@,
                            ).len() as int
                        })
                        &&& !ignore ==> forall|k: int|
                            0 <= k < breakpoints@.len() ==> breakpoints@[k] == spec_wire_breakpoint(
                                #[trigger] spec_sent_breakpoints(
                                    all_breakpoints@[i].1@,
                                    None::<SourceBreakpoint>,
                                    all_breakpoints@[i].0@,
                                )[k],
                            )
                    })
                &&& final(self).states() == old(self).states()
                &&& final(self).cache_keys() == old(self).cache_keys()
                &&& final(self).terminated() == old(self).terminated()
                &&& final(self).output_history() == old(self).output_history()
            },
    {
        if self.ignore_breakpoints == ignore {
            return Vec::new();
        }
        self.ignore_breakpoints = ignore;
        proof {
            lemma_wf_from_parts(*old(self), *self);
        }
        bulk_sync_requests(all_breakpoints, ignore)
    }

    /// Flips whether this session ignores breakpoints, resending every
    /// known path's breakpoints accordingly.
    pub fn toggle_ignore_breakpoints(
        &mut self,
        all_breakpoints: &Vec<(String, Vec<SourceBreakpoint>)>,
    ) -> (r: Vec<DapRequest>)
        requires
            old(self).wf(),
            old(self).running(),
        ensures
            final(self).wf(),
            final(self).ignores_breakpoints() == !old(self).ignores_breakpoints(),
            r@.len() == all_breakpoints@.len(),
            forall|i: int|
                0 <= i < r@.len() ==> (#[trigger] r@[i] matches DapRequest::SetBreakpoints {
                    source,
                    source_modified,
                    breakpoints,
                } && {
                    &&& source.path matches Some(p) && p@ == all_breakpoints@[i].0@
                    &&& source_modified == Some(false)
                    &&& breakpoints@.len() == (if !old(self).ignores_breakpoints() {
                        0int
                    } else {
                        spec_sent_breakpoints(
                            all_breakpoints@[i].1@,
                            None::<SourceBreakpoint>,
                            all_breakpoints@[i].0@,
                        ).len() as int
                    })
                }),
            final(self).states() == old(self).states(),
            final(self).cache_keys() == old(self).cache_keys(),
            final(self).terminated() == old(self).terminated(),
            final(self).output_history() == old(self).output_history(),
    {
        let ignore = !self.ignore_breakpoints;
        self.set_ignore_breakpoints(ignore, all_breakpoints)
    }
}


/// How many pages the inclusive address range covers.
pub open spec fn spec_page_count(start: u64, end: u64) -> int {
    (spec_page_base(end) - spec_page_base(start)) as int / PAGE_SIZE as int + 1
}

/// The page addresses of the first `n` pages of a range that the cache
/// does not hold, in address order.
pub open spec fn spec_missing_pages(mem: Memory, first: u64, n: int) -> Seq<u64>
    decreases n,
{
    if n <= 0 {
        Seq::empty()
    } else {
        let rest = spec_missing_pages(mem, first, n - 1);
        let base = (first + (n - 1) * PAGE_SIZE) as u64;
        if mem.pages_map().dom().contains(base) {
            rest
        } else {
            rest.push(base)
        }
    }
}

/// The cache keys after full-page fetches for the first `n` missing
/// pages, in order.
pub open spec fn spec_keys_after_page_fetches(
    keys: Seq<QueryKey>,
    missing: Seq<u64>,
    n: int,
    any_stopped: bool,
    terminated: bool,
) -> Seq<QueryKey>
    decreases n,
{
    if n <= 0 {
        keys
    } else {
        fetch_result_keys(
            spec_keys_after_page_fetches(keys, missing, n - 1, any_stopped, terminated),
            QueryKey::ReadMemory { address: missing[n - 1], count: PAGE_SIZE },
            any_stopped,
            terminated,
        )
    }
}

/// The page addresses whose full-page read is actually issued: admitted
/// by the cache and supported by the adapter, in order.
pub open spec fn spec_page_fetch_refs(
    keys: Seq<QueryKey>,
    missing: Seq<u64>,
    n: int,
    any_stopped: bool,
    terminated: bool,
    supported: bool,
) -> Seq<u64>
    decreases n,
{
    if n <= 0 {
        Seq::empty()
    } else {
        let rest = spec_page_fetch_refs(keys, missing, n - 1, any_stopped, terminated, supported);
        if fetch_issues(
            spec_keys_after_page_fetches(keys, missing, n - 1, any_stopped, terminated),
            QueryKey::ReadMemory { address: missing[n - 1], count: PAGE_SIZE },
            any_stopped,
            terminated,
        ) && supported {
            rest.push(missing[n - 1])
        } else {
            rest
        }
    }
}

/// The index of the first pending page build for the given page address,
/// if any.
pub open spec fn spec_builder_lookup(pending: Seq<MemoryPageBuilder>, base: u64) -> Option<int>
    decreases pending.len(),
{
    if pending.len() == 0 {
        None
    } else if pending[0].base_spec() == base {
        Some(0int)
    } else {
        match spec_builder_lookup(pending.drop_first(), base) {
            Some(i) => Some(i + 1),
            None => None,
        }
    }
}

proof fn lemma_builder_lookup_at(pending: Seq<MemoryPageBuilder>, base: u64, k: int)
    requires
        0 <= k < pending.len(),
        pending[k].base_spec() == base,
        forall|j: int| 0 <= j < k ==> pending[j].base_spec() != base,
    ensures
        spec_builder_lookup(pending, base) == Some(k),
    decreases pending.len(),
{
    if k > 0 {
        lemma_builder_lookup_at(pending.drop_first(), base, k - 1);
    }
}

proof fn lemma_builder_lookup_none(pending: Seq<MemoryPageBuilder>, base: u64)
    requires
        forall|j: int| 0 <= j < pending.len() ==> pending[j].base_spec() != base,
    ensures
        spec_builder_lookup(pending, base) is None,
    decreases pending.len(),
{
    if pending.len() > 0 {
        lemma_builder_lookup_none(pending.drop_first(), base);
    }
}

/// The cells a page build holds after one read response is folded in: the
/// returned bytes in address order, then any span reported unreadable; on
/// a failed read the whole remainder of the page counts as unreadable.
pub open spec fn spec_filled_after_response(
    filled: Seq<Option<u8>>,
    result: Result<(Vec<u8>, Option<u64>), String>,
) -> Seq<Option<u8>> {
    match result {
        Ok((bytes, unreadable)) => {
            let with_known = filled + known_cells(
                bytes@.take(
                    if bytes@.len() <= PAGE_SIZE - filled.len() {
                        bytes@.len() as int
                    } else {
                        PAGE_SIZE - filled.len()
                    },
                ),
            );
            match unreadable {
                Some(count) => with_known + unknown_cells(
                    if count <= PAGE_SIZE - with_known.len() {
                        count as int
                    } else {
                        PAGE_SIZE - with_known.len()
                    },
                ),
                None => with_known,
            }
        },
        Err(_) => filled + unknown_cells(PAGE_SIZE - filled.len()),
    }
}

impl Session {
    /// Reads an inclusive address range: the result stitches together
    /// whichever pages are cached right now, one entry per address with an
    /// explicit gap for every unknown byte -- the range is never silently
    /// truncated. For each uncached page, in address order, an admitted,
    /// supported full-page read is issued and a page build begins.
    #[verifier::loop_isolation(false)]
    pub fn read_memory(&mut self, start: u64, end: u64) -> (r: (Vec<Option<u8>>, Vec<DapRequest>))
        requires
            old(self).wf(),
            start <= end,
            end - start < usize::MAX,
        ensures
            final(self).wf(),
            r.0@.len() == end - start + 1,
            forall|i: int|
                0 <= i < r.0@.len() ==> r.0@[i] == old(self).memory_spec().spec_byte(
                    (start + i) as u64,
                ),
            ({
                let missing = spec_missing_pages(
                    old(self).memory_spec(),
                    spec_page_base(start),
                    spec_page_count(start, end),
                );
                let any_stopped = old(self).states().some_stopped();
                let terminated = old(self).terminated();
                let supported = old(self).caps().supports_read_memory_request == Some(true);
                let refs = spec_page_fetch_refs(
                    old(self).cache_keys(),
                    missing,
                    missing.len() as int,
                    any_stopped,
                    terminated,
                    supported,
                );
                &&& final(self).cache_keys() == spec_keys_after_page_fetches(
                    old(self).cache_keys(),
                    missing,
                    missing.len() as int,
                    any_stopped,
                    terminated,
                )
                &&& r.1@.len() == refs.len()
                &&& forall|j: int|
                    0 <= j < refs.len() ==> #[trigger] r.1@[j] == (DapRequest::Query {
                        command: QueryCommand::ReadMemory { address: refs[j], count: PAGE_SIZE },
                    })
                &&& final(self).pending_spec().len() == old(self).pending_spec().len()
                    + refs.len()
                &&& final(self).pending_spec().take(old(self).pending_spec().len() as int) == old(self).pending_spec()
                &&& forall|j: int|
                    0 <= j < refs.len() ==> (#[trigger] final(self).pending_spec()[old(self).pending_spec().len() + j]).base_spec() == refs[j] && final(self).pending_spec()[old(self).pending_spec().len() + j].filled().len() == 0
            }),
            final(self).memory_spec() == old(self).memory_spec(),
            final(self).states() == old(self).states(),
            final(self).terminated() == old(self).terminated(),
            final(self).output_history() == old(self).output_history(),
    {
        let supported = matches!(self.capabilities.supports_read_memory_request, Some(true));
        let any_stopped = self.thread_states.any_stopped_thread();
        let first = crate::memory::page_base(start);
        let last = crate::memory::page_base(end);
        let ghost count = spec_page_count(start, end);
        proof {
            assert((last - first) as int % PAGE_SIZE as int == 0) by (nonlinear_arith)
                requires
                    page_aligned(first),
                    page_aligned(last),
                    first <= last,
                    PAGE_SIZE == 4096,
            ;
        }
        let pages = ((last - first) / PAGE_SIZE + 1) as usize;
        proof {
            assert(pages == count) by (nonlinear_arith)
                requires
                    pages == ((last - first) as int / PAGE_SIZE as int + 1),
                    count == (last as int - first as int) / PAGE_SIZE as int + 1,
                    first <= last,
                    PAGE_SIZE == 4096,
            ;
        }
        let mut missing: Vec<u64> = Vec::new();
        let mut i: usize = 0;
        proof {
            assert(missing@ =~= spec_missing_pages(self.memory, first as u64, 0));
        }
        while i < pages
            invariant
                i <= pages,
                missing@ == spec_missing_pages(self.memory, first, i as int),
                forall|j: int|
                    0 <= j < missing@.len() ==> page_aligned(#[trigger] missing@[j]) && first
                        <= missing@[j] <= last && !self.memory.pages_map().dom().contains(
                        missing@[j],
                    ),
            decreases pages - i,
        {
            proof {
                assert(first + i * PAGE_SIZE <= last && page_aligned(
                    (first + i * PAGE_SIZE) as u64,
                )) by (nonlinear_arith)
                    requires
                        0 <= i < pages,
                        pages == (last - first) as int / PAGE_SIZE as int + 1,
                        page_aligned(first),
                        page_aligned(last),
                        first <= last,
                        (last - first) as int % PAGE_SIZE as int == 0,
                        PAGE_SIZE == 4096,
                ;
            }
            let base = first + (i as u64) * PAGE_SIZE;
            if !self.memory.has_page(base) {
                missing.push(base);
            }
            i += 1;
        }
        let mut requests: Vec<DapRequest> = Vec::new();
        let ghost keys0 = self.requests.keys();
        let ghost pending0 = self.pending_pages@;
        let ghost missing_seq = missing@;
        let mut k: usize = 0;
        proof {
            assert(self.pending_pages@.take(pending0.len() as int) =~= pending0);
        }
        while k < missing.len()
            invariant
                k <= missing_seq.len(),
                missing@ == missing_seq,
                supported == (old(self).capabilities.supports_read_memory_request == Some(true)),
                any_stopped == old(self).thread_states.some_stopped(),
                keys0 == old(self).requests.keys(),
                pending0 == old(self).pending_pages@,
                forall|j: int| 0 <= j < missing_seq.len() ==> page_aligned(#[trigger] missing_seq[j]),
                self.requests.keys() == spec_keys_after_page_fetches(
                    keys0,
                    missing_seq,
                    k as int,
                    any_stopped,
                    self.is_session_terminated,
                ),
                requests@.len() == spec_page_fetch_refs(
                    keys0,
                    missing_seq,
                    k as int,
                    any_stopped,
                    self.is_session_terminated,
                    supported,
                ).len(),
                forall|j: int|
                    0 <= j < requests@.len() ==> #[trigger] requests@[j] == (DapRequest::Query {
                        command: QueryCommand::ReadMemory {
                            address: spec_page_fetch_refs(
                                keys0,
                                missing_seq,
                                k as int,
                                any_stopped,
                                self.is_session_terminated,
                                supported,
                            )[j],
                            count: PAGE_SIZE,
                        },
                    }),
                self.pending_pages@.len() == pending0.len() + requests@.len(),
                self.pending_pages@.take(pending0.len() as int) == pending0,
                forall|j: int|
                    0 <= j < requests@.len() ==> (#[trigger] self.pending_pages@[pending0.len()
                        + j]).base_spec() == spec_page_fetch_refs(
                        keys0,
                        missing_seq,
                        k as int,
                        any_stopped,
                        self.is_session_terminated,
                        supported,
                    )[j] && self.pending_pages@[pending0.len() + j].filled().len() == 0,
                self.wf(),
                self.memory == old(self).memory,
                self.output == old(self).output,
                self.thread_states == old(self).thread_states,
                self.is_session_terminated == old(self).is_session_terminated,
                self.mode == old(self).mode,
            decreases missing_seq.len() - k,
        {
            let base = missing[k];
            let issue = self.requests.fetch(
                QueryCommand::ReadMemory { address: base, count: PAGE_SIZE },
                any_stopped,
                self.is_session_terminated,
            );
            if issue && supported {
                self.pending_pages.push(MemoryPageBuilder::new(base));
                requests.push(
                    DapRequest::Query {
                        command: QueryCommand::ReadMemory { address: base, count: PAGE_SIZE },
                    },
                );
                proof {
                    assert(self.pending_pages@.take(pending0.len() as int) =~= pending0);
                }
            }
            k += 1;
        }
        let stitched = self.memory.read_range(start, end);
        (stitched, requests)
    }

    /// Folds one memory-read response into its pending page build. The
    /// returned bytes extend the page in address order and a reported
    /// unreadable span stays unknown; a failed read marks the whole
    /// remainder unreadable. An incomplete page yields the follow-up read
    /// of the next unresolved sub-range; a completed page enters the page
    /// cache. A response with no pending build is dropped.
    #[verifier::loop_isolation(false)]
    pub fn handle_memory_read_response(
        &mut self,
        address: u64,
        result: Result<(Vec<u8>, Option<u64>), String>,
    ) -> (r: Option<DapRequest>)
        requires
            old(self).wf(),
        ensures
            final(self).wf(),
            spec_builder_lookup(old(self).pending_spec(), spec_page_base(address)) is None ==> (
            *final(self) == *old(self) && r is None),
            spec_builder_lookup(old(self).pending_spec(), spec_page_base(address)) matches Some(bi)
                ==> ({
                let builder = old(self).pending_spec()[bi];
                let fill = spec_filled_after_response(builder.filled(), result);
                &&& fill.len() == PAGE_SIZE ==> {
                    &&& final(self).memory_spec().pages_map() == old(self).memory_spec().pages_map().insert(builder.base_spec(), final(self).memory_spec().pages_map()[builder.base_spec()])
                    &&& final(self).memory_spec().pages_map()[builder.base_spec()].cells_seq()
                        == fill
                    &&& final(self).pending_spec() == old(self).pending_spec().remove(bi)
                    &&& r is None
                    &&& final(self).cache_keys() == old(self).cache_keys()
                }
                &&& fill.len() < PAGE_SIZE ==> {
                    &&& final(self).memory_spec() == old(self).memory_spec()
                    &&& final(self).pending_spec().len() == old(self).pending_spec().len()
                    &&& final(self).pending_spec().last().base_spec() == builder.base_spec()
                    &&& final(self).pending_spec().last().filled() == fill
                    &&& final(self).cache_keys() == fetch_result_keys(
                        old(self).cache_keys(),
                        QueryKey::ReadMemory {
                            address: (builder.base_spec() + fill.len()) as u64,
                            count: (PAGE_SIZE - fill.len()) as u64,
                        },
                        old(self).states().some_stopped(),
                        old(self).terminated(),
                    )
                    &&& r == if fetch_issues(
                        old(self).cache_keys(),
                        QueryKey::ReadMemory {
                            address: (builder.base_spec() + fill.len()) as u64,
                            count: (PAGE_SIZE - fill.len()) as u64,
                        },
                        old(self).states().some_stopped(),
                        old(self).terminated(),
                    ) && old(self).caps().supports_read_memory_request == Some(true) {
                        Some(
                            DapRequest::Query {
                                command: QueryCommand::ReadMemory {
                                    address: (builder.base_spec() + fill.len()) as u64,
                                    count: (PAGE_SIZE - fill.len()) as u64,
                                },
                            },
                        )
                    } else {
                        None::<DapRequest>
                    }
                }
                &&& final(self).states() == old(self).states()
                &&& final(self).terminated() == old(self).terminated()
                &&& final(self).output_history() == old(self).output_history()
            }),
    {
        let base = crate::memory::page_base(address);
        let mut bi: usize = 0;
        let mut found = false;
        while bi < self.pending_pages.len()
            invariant
                bi <= self.pending_pages@.len(),
                !found,
                self == old(self),
                forall|j: int| 0 <= j < bi ==> self.pending_pages@[j].base_spec() != base,
            decreases self.pending_pages@.len() - bi,
        {
            if self.pending_pages[bi].base_address() == base {
                proof {
                    lemma_builder_lookup_at(self.pending_pages@, base, bi as int);
                }
                let mut builder = self.pending_pages.remove(bi);
                match &result {
                    Ok((bytes, unreadable)) => {
                        builder.known(bytes);
                        if let Some(count) = unreadable {
                            builder.unknown(*count);
                        }
                    },
                    Err(_) => {
                        match builder.next_request() {
                            Some(remainder) => {
                                builder.unknown(remainder.count);
                            },
                            None => {},
                        }
                    },
                }
                match builder.next_request() {
                    None => {
                        let (page_base, page) = builder.build();
                        self.memory.insert_page(page_base, page);
                        proof {
                            assert forall|j: int|
                                0 <= j < self.pending_pages@.len() implies (
                            #[trigger] self.pending_pages@[j]).wf()
                                && !self.pending_pages@[j].complete() by {
                                if j < bi {
                                    assert(self.pending_pages@[j] == old(self).pending_pages@[j]);
                                } else {
                                    assert(self.pending_pages@[j] == old(self).pending_pages@[j
                                        + 1]);
                                }
                            }
                            assert(self.wf());
                        }
                        return None;
                    },
                    Some(request) => {
                        self.pending_pages.push(builder);
                        let any_stopped = self.thread_states.any_stopped_thread();
                        let issue = self.requests.fetch(
                            QueryCommand::ReadMemory {
                                address: request.address,
                                count: request.count,
                            },
                            any_stopped,
                            self.is_session_terminated,
                        );
                        let supported = matches!(
                            self.capabilities.supports_read_memory_request,
                            Some(true),
                        );
                        proof {
                            assert forall|j: int|
                                0 <= j < self.pending_pages@.len() implies (
                            #[trigger] self.pending_pages@[j]).wf()
                                && !self.pending_pages@[j].complete() by {
                                if j < bi {
                                    assert(self.pending_pages@[j] == old(self).pending_pages@[j]);
                                } else if j < self.pending_pages@.len() - 1 {
                                    assert(self.pending_pages@[j] == old(self).pending_pages@[j
                                        + 1]);
                                }
                            }
                            assert(self.wf());
                        }
                        if issue && supported {
                            return Some(
                                DapRequest::Query {
                                    command: QueryCommand::ReadMemory {
                                        address: request.address,
                                        count: request.count,
                                    },
                                },
                            );
                        } else {
                            return None;
                        }
                    },
                }
            }
            bi += 1;
        }
        proof {
            lemma_builder_lookup_none(self.pending_pages@, base);
        }
        None
    }

    /// The pending page builds.
    pub closed spec fn pending_spec(self) -> Seq<MemoryPageBuilder> {
        self.pending_pages@
    }
}


/// The index of the first module with the given id, if any.
pub open spec fn spec_module_lookup(modules: Seq<Module>, id: u64) -> Option<int>
    decreases modules.len(),
{
    if modules.len() == 0 {
        None
    } else if modules[0].id == id {
        Some(0int)
    } else {
        match spec_module_lookup(modules.drop_first(), id) {
            Some(i) => Some(i + 1),
            None => None,
        }
    }
}

proof fn lemma_module_lookup_at(modules: Seq<Module>, id: u64, k: int)
    requires
        0 <= k < modules.len(),
        modules[k].id == id,
        forall|j: int| 0 <= j < k ==> modules[j].id != id,
    ensures
        spec_module_lookup(modules, id) == Some(k),
    decreases modules.len(),
{
    if k > 0 {
        lemma_module_lookup_at(modules.drop_first(), id, k - 1);
    }
}

proof fn lemma_module_lookup_none(modules: Seq<Module>, id: u64)
    requires
        forall|j: int| 0 <= j < modules.len() ==> modules[j].id != id,
    ensures
        spec_module_lookup(modules, id) is None,
    decreases modules.len(),
{
    if modules.len() > 0 {
        lemma_module_lookup_none(modules.drop_first(), id);
    }
}

/// Keeps the modules whose id differs from `id`.
pub open spec fn module_not_id(id: u64) -> spec_fn(Module) -> bool {
    |m: Module| m.id != id
}

/// The cache keys left after the stop-event invalidation: stale stack
/// traces dropped globally or per thread, then the generic sweep.
pub open spec fn spec_keys_after_stop(
    keys: Seq<QueryKey>,
    thread_id: Option<i64>,
    all_threads: bool,
) -> Seq<QueryKey> {
    let keys1 = if all_threads || thread_id is None {
        keys.filter(not_of_kind(CommandKind::StackTrace))
    } else {
        keys
    };
    let keys2 = match thread_id {
        Some(t) => keys1.filter(not_key(QueryKey::StackTrace { thread_id: t })),
        None => keys1,
    };
    keys2.filter(not_generic())
}

impl Session {
    fn mark_stopped(&mut self)
        requires
            old(self).wf(),
        ensures
            final(self).wf(),
            old(self).running() ==> final(self).ever_stopped(),
            old(self).building() ==> *final(self) == *old(self),
            final(self).building() == old(self).building(),
            final(self).started() == old(self).started(),
            final(self).tmp_breakpoint() == old(self).tmp_breakpoint(),
            final(self).binary_spec() == old(self).binary_spec(),
            final(self).terminated() == old(self).terminated(),
            final(self).caps() == old(self).caps(),
            final(self).states() == old(self).states(),
            final(self).cache_keys() == old(self).cache_keys(),
            final(self).output_history() == old(self).output_history(),
            final(self).threads_spec() == old(self).threads_spec(),
            final(self).variables_spec() == old(self).variables_spec(),
            final(self).memory_spec() == old(self).memory_spec(),
            final(self).exception_filters_spec() == old(self).exception_filters_spec(),
            final(self).ignores_breakpoints() == old(self).ignores_breakpoints(),
    {
        match &mut self.mode {
            SessionState::Running(running) => {
                running.has_ever_stopped = true;
            },
            SessionState::Building => {},
        }
        proof {
            lemma_wf_from_parts(*old(self), *self);
        }
    }

    fn take_tmp_breakpoint(&mut self) -> (r: Option<SourceBreakpoint>)
        requires
            old(self).wf(),
        ensures
            final(self).wf(),
            r == old(self).tmp_breakpoint(),
            final(self).tmp_breakpoint() is None,
            final(self).building() == old(self).building(),
            final(self).started() == old(self).started(),
            final(self).ever_stopped() == old(self).ever_stopped(),
            final(self).binary_spec() == old(self).binary_spec(),
            final(self).terminated() == old(self).terminated(),
            final(self).caps() == old(self).caps(),
            final(self).states() == old(self).states(),
            final(self).cache_keys() == old(self).cache_keys(),
            final(self).output_history() == old(self).output_history(),
            final(self).threads_spec() == old(self).threads_spec(),
            final(self).variables_spec() == old(self).variables_spec(),
            final(self).memory_spec() == old(self).memory_spec(),
            final(self).exception_filters_spec() == old(self).exception_filters_spec(),
            final(self).ignores_breakpoints() == old(self).ignores_breakpoints(),
    {
        let mut taken: Option<SourceBreakpoint> = None;
        match &mut self.mode {
            SessionState::Running(running) => {
                taken = running.tmp_breakpoint.take();
            },
            SessionState::Building => {},
        }
        proof {
            lemma_wf_from_parts(*old(self), *self);
        }
        taken
    }

    /// The generic invalidation sweep: drops the caches any event or
    /// action could have made stale, and the whole page cache with them.
    fn invalidate_generic(&mut self)
        requires
            old(self).wf(),
        ensures
            final(self).wf(),
            final(self).cache_keys() == old(self).cache_keys().filter(not_generic()),
            final(self).memory_spec().pages_map().dom() == Set::<u64>::empty(),
            final(self).states() == old(self).states(),
            final(self).terminated() == old(self).terminated(),
            final(self).output_history() == old(self).output_history(),
            final(self).threads_spec() == old(self).threads_spec(),
            final(self).variables_spec() == old(self).variables_spec(),
            final(self).building() == old(self).building(),
            final(self).started() == old(self).started(),
            final(self).ever_stopped() == old(self).ever_stopped(),
            final(self).tmp_breakpoint() == old(self).tmp_breakpoint(),
            final(self).caps() == old(self).caps(),
            final(self).exception_filters_spec() == old(self).exception_filters_spec(),
            final(self).ignores_breakpoints() == old(self).ignores_breakpoints(),
    {
        self.requests.invalidate_generic();
        self.memory.clear();
        proof {
            lemma_wf_from_parts_memory(*old(self), *self);
        }
    }

    /// Handles a stop notification: the session is marked ever-stopped,
    /// any pending run-to-line breakpoint is consumed and its path queued
    /// for a re-send, the named thread -- or every thread -- becomes
    /// stopped, stale stack traces are invalidated, the generic sweep
    /// runs, and the cached thread list and variables are cleared.
    pub fn handle_stopped_event(&mut self, event: StoppedEvent) -> (effects: Vec<Effect>)
        requires
            old(self).wf(),
        ensures
            final(self).wf(),
            old(self).running() ==> final(self).ever_stopped(),
            final(self).tmp_breakpoint() is None,
            ({
                let all = event.all_threads_stopped == Some(true) || event.thread_id is None;
                &&& all ==> final(self).states().global() == Some(ThreadStatus::Stopped)
                &&& all && event.thread_id is None ==> final(self).states().overrides()
                    == Map::<i64, ThreadStatus>::empty()
                &&& event.thread_id matches Some(t) ==> final(self).states().overrides() == (if all {
                    Map::<i64, ThreadStatus>::empty()
                } else {
                    old(self).states().overrides()
                }).insert(t, ThreadStatus::Stopped)
                &&& !all ==> final(self).states().global() == old(self).states().global()
                &&& final(self).cache_keys() == spec_keys_after_stop(
                    old(self).cache_keys(),
                    event.thread_id,
                    all,
                )
            }),
            final(self).threads_spec().len() == 0,
            final(self).variables_spec() == Map::<u64, Vec<Variable>>::empty(),
            final(self).memory_spec().pages_map().dom() == Set::<u64>::empty(),
            effects@ == (match old(self).tmp_breakpoint() {
                Some(bp) => seq![
                    Effect::SyncBreakpointsForPath { path: bp.path },
                    Effect::Emit(
                        SessionEvent::Stopped(
                            if event.preserve_focus_hint == Some(true) {
                                None
                            } else {
                                match event.thread_id {
                                    Some(t) => Some(ThreadId(t)),
                                    None => None,
                                }
                            },
                        ),
                    ),
                    Effect::Emit(SessionEvent::InvalidateInlineValue),
                ],
                None => seq![
                    Effect::Emit(
                        SessionEvent::Stopped(
                            if event.preserve_focus_hint == Some(true) {
                                None
                            } else {
                                match event.thread_id {
                                    Some(t) => Some(ThreadId(t)),
                                    None => None,
                                }
                            },
                        ),
                    ),
                    Effect::Emit(SessionEvent::InvalidateInlineValue),
                ],
            }),
            final(self).terminated() == old(self).terminated(),
            final(self).output_history() == old(self).output_history(),
            final(self).exception_filters_spec() == old(self).exception_filters_spec(),
            final(self).ignores_breakpoints() == old(self).ignores_breakpoints(),
    {
        self.mark_stopped();
        let mut effects: Vec<Effect> = Vec::new();
        match self.take_tmp_breakpoint() {
            Some(breakpoint) => {
                effects.push(Effect::SyncBreakpointsForPath { path: breakpoint.path });
            },
            None => {},
        }
        let ghost mid = *self;
        let all = matches!(event.all_threads_stopped, Some(true)) || event.thread_id.is_none();
        if all {
            self.thread_states.stop_all_threads();
            self.requests.invalidate_kind(CommandKind::StackTrace);
        }
        if let Some(t) = event.thread_id {
            self.thread_states.stop_thread(ThreadId(t));
            self.requests.invalidate(&QueryCommand::StackTrace { thread_id: t });
        }
        self.threads = Vec::new();
        self.variables.clear();
        proof {
            lemma_wf_from_parts(mid, *self);
        }
        self.invalidate_generic();
        let focus = if matches!(event.preserve_focus_hint, Some(true)) {
            None
        } else {
            match event.thread_id {
                Some(t) => Some(ThreadId(t)),
                None => None,
            }
        };
        effects.push(Effect::Emit(SessionEvent::Stopped(focus)));
        effects.push(Effect::Emit(SessionEvent::InvalidateInlineValue));
        effects
    }
}


impl Session {
    fn handle_continued_event(&mut self, event: ContinuedEvent) -> (effects: Vec<Effect>)
        requires
            old(self).wf(),
        ensures
            final(self).wf(),
            event.all_threads_continued == Some(true) ==> {
                &&& final(self).states().global() == Some(ThreadStatus::Running)
                &&& final(self).states().overrides() == Map::<i64, ThreadStatus>::empty()
                &&& effects@ =~= seq![Effect::RemoveActivePosition]
            },
            event.all_threads_continued != Some(true) ==> {
                &&& final(self).states().global() == old(self).states().global()
                &&& final(self).states().overrides() == old(self).states().overrides().insert(
                    event.thread_id,
                    ThreadStatus::Running,
                )
                &&& effects@.len() == 0
            },
            final(self).cache_keys() == old(self).cache_keys().filter(not_generic()),
            final(self).memory_spec().pages_map().dom() == Set::<u64>::empty(),
            final(self).terminated() == old(self).terminated(),
            final(self).output_history() == old(self).output_history(),
            final(self).threads_spec() == old(self).threads_spec(),
            final(self).variables_spec() == old(self).variables_spec(),
            final(self).exception_filters_spec() == old(self).exception_filters_spec(),
            final(self).ignores_breakpoints() == old(self).ignores_breakpoints(),
    {
        let mut effects: Vec<Effect> = Vec::new();
        if matches!(event.all_threads_continued, Some(true)) {
            self.thread_states.continue_all_threads();
            effects.push(Effect::RemoveActivePosition);
        } else {
            self.thread_states.continue_thread(ThreadId(event.thread_id));
        }
        proof {
            lemma_wf_from_parts(*old(self), *self);
            assert(effects@ =~= if event.all_threads_continued == Some(true) {
                seq![Effect::RemoveActivePosition]
            } else {
                Seq::<Effect>::empty()
            });
        }
        self.invalidate_generic();
        effects
    }

    #[verifier::loop_isolation(false)]
    fn handle_module_event(&mut self, event: ModuleEvent)
        requires
            old(self).wf(),
        ensures
            final(self).wf(),
            event.reason == ModuleEventReason::New ==> final(self).modules_spec() == old(self).modules_spec().push(event.module),
            event.reason == ModuleEventReason::Changed ==> match spec_module_lookup(
                old(self).modules_spec(),
                event.module.id,
            ) {
                Some(i) => final(self).modules_spec() == old(self).modules_spec().update(
                    i,
                    event.module,
                ),
                None => final(self).modules_spec() == old(self).modules_spec(),
            },
            event.reason == ModuleEventReason::Removed ==> final(self).modules_spec() == old(self).modules_spec().filter(module_not_id(event.module.id)),
            final(self).cache_keys() == old(self).cache_keys(),
            final(self).states() == old(self).states(),
            final(self).terminated() == old(self).terminated(),
            final(self).output_history() == old(self).output_history(),
    {
        match event.reason {
            ModuleEventReason::New => {
                self.modules.push(event.module);
            },
            ModuleEventReason::Changed => {
                let mut i: usize = 0;
                while i < self.modules.len()
                    invariant
                        i <= self.modules@.len(),
                        self == old(self),
                        forall|j: int| 0 <= j < i ==> self.modules@[j].id != event.module.id,
                    decreases self.modules@.len() - i,
                {
                    if self.modules[i].id == event.module.id {
                        proof {
                            lemma_module_lookup_at(self.modules@, event.module.id, i as int);
                        }
                        self.modules.remove(i);
                        self.modules.insert(i, event.module);
                        proof {
                            assert(self.modules@ =~= old(self).modules@.update(
                                i as int,
                                event.module,
                            ));
                            lemma_wf_from_parts(*old(self), *self);
                        }
                        return ;
                    }
                    i += 1;
                }
                proof {
                    lemma_module_lookup_none(self.modules@, event.module.id);
                }
            },
            ModuleEventReason::Removed => {
                let ghost pred = module_not_id(event.module.id);
                let mut kept: Vec<Module> = Vec::new();
                let mut i: usize = 0;
                proof {
                    reveal(Seq::filter);
                    assert(kept@ =~= self.modules@.take(0).filter(pred));
                }
                while i < self.modules.len()
                    invariant
                        i <= self.modules@.len(),
                        self == old(self),
                        pred == module_not_id(event.module.id),
                        kept@ == self.modules@.take(i as int).filter(pred),
                    decreases self.modules@.len() - i,
                {
                    proof {
                        reveal(Seq::filter);
                        assert(self.modules@.take(i + 1).drop_last() =~= self.modules@.take(
                            i as int,
                        ));
                    }
                    if self.modules[i].id != event.module.id {
                        kept.push(self.modules[i].clone());
                    }
                    i += 1;
                }
                proof {
                    assert(self.modules@.take(self.modules@.len() as int) =~= self.modules@);
                }
                self.modules = kept;
            },
        }
        proof {
            lemma_wf_from_parts(*old(self), *self);
        }
    }

    /// Feeds one inbound adapter event through the dispatcher, mutating
    /// session state per the event and yielding the effects the caller
    /// must carry out, in order. Events arrive strictly in order, one at a
    /// time.
    pub fn handle_dap_event(&mut self, event: Events) -> (effects: Vec<Effect>)
        requires
            old(self).wf(),
            old(self).output_history().len() < usize::MAX,
        ensures
            final(self).wf(),
            event matches Events::Stopped(e) ==> {
                let all = e.all_threads_stopped == Some(true) || e.thread_id is None;
                &&& (old(self).running() ==> final(self).ever_stopped())
                &&& final(self).tmp_breakpoint() is None
                &&& (all ==> final(self).states().global() == Some(ThreadStatus::Stopped))
                &&& (e.thread_id matches Some(t) ==> final(self).states().overrides() == (if all {
                    Map::<i64, ThreadStatus>::empty()
                } else {
                    old(self).states().overrides()
                }).insert(t, ThreadStatus::Stopped))
                &&& (!all ==> final(self).states().global() == old(self).states().global())
                &&& final(self).cache_keys() == spec_keys_after_stop(
                    old(self).cache_keys(),
                    e.thread_id,
                    all,
                )
                &&& final(self).threads_spec().len() == 0
                &&& final(self).variables_spec() == Map::<u64, Vec<Variable>>::empty()
                &&& final(self).memory_spec().pages_map().dom() == Set::<u64>::empty()
                &&& effects@.len() == (if old(self).tmp_breakpoint() is Some {
                    3int
                } else {
                    2int
                })
                &&& (old(self).tmp_breakpoint() matches Some(bp) ==> effects@[0]
                    == (Effect::SyncBreakpointsForPath { path: bp.path }))
                &&& effects@.last() == Effect::Emit(SessionEvent::InvalidateInlineValue)
                &&& effects@[effects@.len() - 2] == Effect::Emit(
                    SessionEvent::Stopped(
                        if e.preserve_focus_hint == Some(true) {
                            None
                        } else {
                            match e.thread_id {
                                Some(t) => Some(ThreadId(t)),
                                None => None,
                            }
                        },
                    ),
                )
            },
            event matches Events::Continued(e) ==> {
                &&& (e.all_threads_continued == Some(true) ==> final(self).states().global()
                    == Some(ThreadStatus::Running) && final(self).states().overrides()
                    == Map::<i64, ThreadStatus>::empty() && effects@ =~= seq![
                    Effect::RemoveActivePosition,
                ])
                &&& (e.all_threads_continued != Some(true) ==> final(self).states().overrides()
                    == old(self).states().overrides().insert(e.thread_id, ThreadStatus::Running)
                    && final(self).states().global() == old(self).states().global()
                    && effects@.len() == 0)
                &&& final(self).cache_keys() == old(self).cache_keys().filter(not_generic())
                &&& final(self).memory_spec().pages_map().dom() == Set::<u64>::empty()
            },
            event is Exited ==> *final(self) == *old(self) && effects@ =~= seq![
                Effect::RemoveActivePosition,
            ],
            event is Terminated ==> {
                &&& final(self).terminated()
                &&& (old(self).terminated() ==> *final(self) == *old(self) && effects@.len() == 0)
                &&& (!old(self).terminated() && old(self).running() ==> effects@.len() == 3
                    && effects@[0] == Effect::SendRequest(spec_shutdown_request(old(self).caps()))
                    && effects@[1] == Effect::EmitState(SessionStateEvent::Shutdown)
                    && effects@[2] == Effect::KillAdapter)
                &&& (!old(self).terminated() && old(self).building() ==> effects@.len() == 1
                    && effects@[0] == Effect::EmitState(SessionStateEvent::Shutdown))
            },
            event matches Events::Thread(e) ==> {
                &&& (e.reason == ThreadEventReason::Started ==> final(self).states().overrides()
                    == old(self).states().overrides().insert(e.thread_id, ThreadStatus::Running))
                &&& (e.reason == ThreadEventReason::Exited ==> final(self).states().overrides()
                    == old(self).states().overrides().insert(e.thread_id, ThreadStatus::Exited))
                &&& (e.reason == ThreadEventReason::Other ==> final(self).states() == old(self).states())
                &&& final(self).states().global() == old(self).states().global()
                &&& final(self).cache_keys() == old(self).cache_keys().filter(
                    not_key(QueryKey::Threads),
                )
                &&& effects@.len() == 0
            },
            event matches Events::Output(e) ==> {
                &&& (e.category == Some(OutputCategory::Telemetry) ==> *final(self) == *old(self))
                &&& (e.category != Some(OutputCategory::Telemetry) ==> final(self).output_history() == old(self).output_history().push(e))
                &&& effects@.len() == 0
            },
            event matches Events::Breakpoint(e) ==> *final(self) == *old(self) && effects@ =~= seq![
                Effect::UpdateSessionBreakpoint { reason: e.reason, breakpoint: e.breakpoint },
            ],
            event matches Events::Module(e) ==> {
                &&& (e.reason == ModuleEventReason::New ==> final(self).modules_spec() == old(self).modules_spec().push(e.module))
                &&& (e.reason == ModuleEventReason::Removed ==> final(self).modules_spec() == old(self).modules_spec().filter(module_not_id(e.module.id)))
                &&& effects@.len() == 0
            },
            event is LoadedSource ==> final(self).cache_keys() == old(self).cache_keys().filter(
                not_key(QueryKey::LoadedSources),
            ) && effects@.len() == 0,
            event matches Events::Capabilities(delta) ==> {
                let merged = Capabilities::spec_merged(old(self).caps(), delta);
                let declared = match merged.exception_breakpoint_filters {
                    Some(filters) => filters@,
                    None => Seq::<ExceptionFilter>::empty(),
                };
                &&& final(self).caps() == merged
                &&& final(self).exception_filters_spec().len() == declared.len()
                &&& forall|i: int|
                    0 <= i < declared.len() ==> #[trigger] final(self).exception_filters_spec()[i]
                        == (
                    declared[i],
                    match spec_current_enabled(
                        old(self).exception_filters_spec(),
                        declared[i].filter@,
                    ) {
                        Some(enabled) => enabled,
                        None => match declared[i].default {
                            Some(d) => d,
                            None => false,
                        },
                    },
                    )
                &&& (old(self).started() ==> effects@.len() == 1 && effects@[0] matches
                    Effect::SendRequest(DapRequest::SetExceptionBreakpoints { .. }))
                &&& (!old(self).started() ==> effects@.len() == 0)
            },
            event is Memory || event is Process || event is ProgressStart || event
                is ProgressUpdate || event is ProgressEnd || event is Invalidated || event
                is Other ==> *final(self) == *old(self) && effects@.len() == 0,
    {
        match event {
            Events::Stopped(e) => self.handle_stopped_event(e),
            Events::Continued(e) => self.handle_continued_event(e),
            Events::Exited => {
                let mut effects: Vec<Effect> = Vec::new();
                effects.push(Effect::RemoveActivePosition);
                proof {
                    assert(effects@ =~= seq![Effect::RemoveActivePosition]);
                }
                effects
            },
            Events::Terminated => self.shutdown(),
            Events::Thread(e) => {
                match e.reason {
                    ThreadEventReason::Started => {
                        self.thread_states.continue_thread(ThreadId(e.thread_id));
                    },
                    ThreadEventReason::Exited => {
                        self.thread_states.exit_thread(ThreadId(e.thread_id));
                    },
                    ThreadEventReason::Other => {},
                }
                proof {
                    lemma_wf_from_parts(*old(self), *self);
                }
                self.requests.invalidate(&QueryCommand::Threads);
                Vec::new()
            },
            Events::Output(e) => {
                if !matches!(e.category, Some(OutputCategory::Telemetry)) {
                    self.push_output(e);
                }
                Vec::new()
            },
            Events::Breakpoint(e) => {
                let mut effects: Vec<Effect> = Vec::new();
                effects.push(
                    Effect::UpdateSessionBreakpoint { reason: e.reason, breakpoint: e.breakpoint },
                );
                proof {
                    assert(effects@ =~= seq![
                        Effect::UpdateSessionBreakpoint {
                            reason: e.reason,
                            breakpoint: e.breakpoint,
                        },
                    ]);
                }
                effects
            },
            Events::Module(e) => {
                self.handle_module_event(e);
                Vec::new()
            },
            Events::LoadedSource => {
                self.requests.invalidate(&QueryCommand::LoadedSources);
                proof {
                    lemma_wf_from_parts(*old(self), *self);
                }
                Vec::new()
            },
            Events::Capabilities(delta) => {
                self.capabilities.merge(delta);
                let empty_declared: Vec<ExceptionFilter> = Vec::new();
                let table = match &self.capabilities.exception_breakpoint_filters {
                    Some(declared) => recompute_exception_filters(
                        &self.exception_breakpoints,
                        declared,
                    ),
                    None => recompute_exception_filters(&self.exception_breakpoints, &empty_declared),
                };
                self.exception_breakpoints = table;
                proof {
                    lemma_wf_from_parts(*old(self), *self);
                }
                let mut effects: Vec<Effect> = Vec::new();
                if self.is_started() {
                    match self.send_exception_breakpoints() {
                        Some(request) => {
                            effects.push(Effect::SendRequest(request));
                        },
                        None => {},
                    }
                }
                effects
            },
            Events::Memory => Vec::new(),
            Events::Process => Vec::new(),
            Events::ProgressStart => Vec::new(),
            Events::ProgressUpdate => Vec::new(),
            Events::ProgressEnd => Vec::new(),
            Events::Invalidated => Vec::new(),
            Events::Other => Vec::new(),
        }
    }
}


impl Session {
    /// Reacts to a breakpoint-store update for one path: the path's
    /// breakpoints are re-sent unless this session ignores breakpoints --
    /// the per-session guard that keeps local and remote sessions from
    /// feeding each other's updates back.
    pub fn on_breakpoints_updated(
        &self,
        path: &str,
        reason: BreakpointUpdatedReason,
        store_breakpoints: &Vec<SourceBreakpoint>,
    ) -> (r: Option<DapRequest>)
        ensures
            self.ignores_breakpoints() || self.building() ==> r is None,
            !self.ignores_breakpoints() && self.running() ==> (r matches Some(
                DapRequest::SetBreakpoints { source, source_modified, breakpoints },
            ) && {
                &&& source.path matches Some(p) && p@ == path@
                &&& source_modified == Some(reason == BreakpointUpdatedReason::FileSaved)
                &&& breakpoints@.len() == spec_sent_breakpoints(
                    store_breakpoints@,
                    self.tmp_breakpoint(),
                    path@,
                ).len()
            }),
    {
        if self.ignore_breakpoints {
            return None;
        }
        self.send_breakpoints_from_path(path, reason, store_breakpoints)
    }

    /// Reacts to the store clearing whole paths: every named path gets an
    /// empty breakpoint list, unless this session ignores breakpoints.
    pub fn on_breakpoints_cleared(&self, paths: &Vec<String>) -> (r: Vec<DapRequest>)
        ensures
            self.ignores_breakpoints() ==> r@.len() == 0,
            !self.ignores_breakpoints() ==> {
                &&& r@.len() == paths@.len()
                &&& forall|i: int|
                    0 <= i < r@.len() ==> (#[trigger] r@[i] matches DapRequest::SetBreakpoints {
                        source,
                        source_modified,
                        breakpoints,
                    } && (source.path matches Some(p) && p@ == paths@[i]@) && source_modified
                        is None && breakpoints@.len() == 0)
            },
    {
        if self.ignore_breakpoints {
            return Vec::new();
        }
        self.unset_breakpoints_from_paths(paths)
    }
}


impl Session {
    /// Answers the adapter's start-debugging client request: parsed
    /// arguments spawn a child session and the response reports success
    /// exactly when they parsed.
    pub fn handle_start_debugging_request(
        &self,
        request_seq: u64,
        arguments: Option<StartDebuggingRequest>,
    ) -> (r: (Vec<Effect>, ClientResponse))
        requires
            request_seq < u64::MAX,
        ensures
            arguments matches Some(request) ==> r.0@ =~= seq![
                Effect::EmitState(SessionStateEvent::SpawnChildSession { request }),
            ] && r.1.success,
            arguments is None ==> r.0@.len() == 0 && !r.1.success,
            r.1.request_seq == request_seq,
            r.1.seq == request_seq + 1,
            r.1.body == ClientResponseBody::Empty,
    {
        let mut effects: Vec<Effect> = Vec::new();
        let parsed = arguments.is_some();
        match arguments {
            Some(request) => {
                effects.push(Effect::EmitState(SessionStateEvent::SpawnChildSession { request }));
            },
            None => {},
        }
        (effects, start_debugging_response(request_seq, parsed))
    }
}


impl Session {
    /// The initialize retry policy: after a failed capability request the
    /// same request is resent exactly when the transport can still be
    /// reconnected and an adapter connection exists. The caller performs
    /// one reconnect before each resend; it should bound the attempts,
    /// since a persistently failing adapter would otherwise retry forever.
    pub fn should_retry_initialize(&self, supports_reconnect: bool) -> (r: bool)
        ensures
            r == (supports_reconnect && self.running()),
    {
        supports_reconnect && !self.is_building()
    }
}

} // verus!
