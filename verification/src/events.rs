//! Inbound adapter events and the effects the engine asks its caller to
//! carry out.
//!
//! The message pump feeds events in strictly in arrival order, one at a
//! time; each event yields a list of effects -- requests to send, store
//! updates, notifications -- that the caller performs in order.

use crate::breakpoints::BreakpointVerification;
use crate::capabilities::Capabilities;
use crate::commands::DapRequest;
use crate::output::OutputEvent;
use crate::protocol::Module;
use crate::thread_status::ThreadId;
use vstd::prelude::*;

verus! {

/// A stop notification from the adapter.
#[derive(Debug, Copy, Clone, PartialEq, Eq, Structural)]
pub struct StoppedEvent {
    pub thread_id: Option<i64>,
    pub all_threads_stopped: Option<bool>,
    pub preserve_focus_hint: Option<bool>,
}

/// A continue notification from the adapter.
#[derive(Debug, Copy, Clone, PartialEq, Eq, Structural)]
pub struct ContinuedEvent {
    pub thread_id: i64,
    pub all_threads_continued: Option<bool>,
}

/// Why a thread event fired.
#[derive(Debug, Copy, Clone, PartialEq, Eq, Structural)]
pub enum ThreadEventReason {
    Started,
    Exited,
    Other,
}

/// A thread lifecycle notification.
#[derive(Debug, Copy, Clone, PartialEq, Eq, Structural)]
pub struct ThreadEvent {
    pub reason: ThreadEventReason,
    pub thread_id: i64,
}

/// Why a module event fired.
#[derive(Debug, Copy, Clone, PartialEq, Eq, Structural)]
pub enum ModuleEventReason {
    New,
    Changed,
    Removed,
}

/// A module list notification.
#[derive(Debug, PartialEq)]
pub struct ModuleEvent {
    pub reason: ModuleEventReason,
    pub module: Module,
}

/// Why a breakpoint event fired.
#[derive(Debug, Copy, Clone, PartialEq, Eq, Structural)]
pub enum BreakpointEventReason {
    Changed,
    New,
    Removed,
    Other,
}

/// A breakpoint verification update pushed by the adapter.
#[derive(Debug, Copy, Clone, PartialEq, Eq, Structural)]
pub struct BreakpointEvent {
    pub reason: BreakpointEventReason,
    pub breakpoint: BreakpointVerification,
}

/// One inbound protocol event.
#[derive(Debug, PartialEq)]
pub enum Events {
    Stopped(StoppedEvent),
    Continued(ContinuedEvent),
    Exited,
    Terminated,
    Thread(ThreadEvent),
    Output(OutputEvent),
    Breakpoint(BreakpointEvent),
    Module(ModuleEvent),
    LoadedSource,
    Capabilities(Capabilities),
    Memory,
    Process,
    ProgressStart,
    ProgressUpdate,
    ProgressEnd,
    Invalidated,
    Other,
}

/// A notification to observers of session data.
#[derive(Debug, PartialEq)]
pub enum SessionEvent {
    Modules,
    LoadedSources,
    Stopped(Option<ThreadId>),
    StackTrace,
    Variables,
    Watchers,
    Threads,
    InvalidateInlineValue,
    CapabilitiesLoaded,
    RunInTerminal,
    DataBreakpointInfo,
    ConsoleOutput,
}

/// The request a parent session relays when the adapter asks to start a
/// child debug session.
#[derive(Debug, PartialEq)]
pub struct StartDebuggingRequest {
    /// The raw configuration text to start the child with.
    pub configuration: String,
}

/// A notification about the session's own lifecycle.
#[derive(Debug, PartialEq)]
pub enum SessionStateEvent {
    Running,
    Shutdown,
    Restart,
    SpawnChildSession { request: StartDebuggingRequest },
}

/// One action the caller must carry out on the engine's behalf, in order.
#[derive(Debug, PartialEq)]
pub enum Effect {
    /// Send a protocol request to the adapter.
    SendRequest(DapRequest),
    /// Re-send this path's breakpoints from the store (used after a stop
    /// consumed the ephemeral run-to-line breakpoint).
    SyncBreakpointsForPath { path: String },
    /// Forward a verification update to the breakpoint store.
    UpdateSessionBreakpoint { reason: BreakpointEventReason, breakpoint: BreakpointVerification },
    /// Clear the active execution position in the breakpoint store.
    RemoveActivePosition,
    /// Forcibly end the adapter process once in-flight work settles.
    KillAdapter,
    /// Notify observers of changed session data.
    Emit(SessionEvent),
    /// Notify observers of a session lifecycle change.
    EmitState(SessionStateEvent),
}

} // verus!
