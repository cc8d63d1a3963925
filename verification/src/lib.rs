//! A verified protocol engine for a single debug-adapter session.
//!
//! The engine owns session lifecycle, per-thread run state, breakpoint
//! reconciliation, exception-filter negotiation, paged memory access with
//! partial-failure recovery, and de-duplication of cacheable requests with
//! event-driven invalidation. It is written sans-I/O: every operation is a
//! plain state transition that returns the protocol requests and
//! notifications its caller must carry out, and inbound adapter events are
//! fed in one at a time.

pub mod breakpoints;
pub mod cache;
pub mod capabilities;
pub mod commands;
pub mod events;
pub mod memory;
pub mod output;
pub mod protocol;
pub mod session;
pub mod strings;
pub mod thread_states;
pub mod thread_status;
pub mod types;

pub use breakpoints::{BreakpointSessionState, BreakpointVerification, SourceBreakpoint};
pub use capabilities::Capabilities;
pub use commands::{CommandKind, CompletionsQuery, DapRequest, QueryCommand};
pub use events::{Effect, Events, SessionEvent, SessionStateEvent, StoppedEvent};
pub use output::{
    OutputBuffer, OutputCategory, OutputEvent, OutputToken, MAX_TRACKED_OUTPUT_EVENTS,
};
pub use protocol::{client_source, DataBreakpointState, Source, Watcher};
pub use session::{
    DebugAdapterBinary, LaunchKind, Session, SessionQuirks, SessionState, StackFrame, Thread,
};
pub use thread_states::ThreadStates;
pub use thread_status::{ThreadId, ThreadStatus};
pub use types::{should_redact, CodeLabel, CodeLabelSpan, CodeLabelSpanLiteral, Command};
