//! Outbound protocol requests, as plain values.
//!
//! The engine never performs I/O: operations return one of these request
//! values and the caller carries it to the transport. Cacheable read
//! commands are the separate [`QueryCommand`] type, which the request cache
//! keys on by value.

use crate::protocol::{
    DataBreakpointContext, DataBreakpointDescriptor, EvaluateContext, Source, SteppingGranularity,
};
use vstd::prelude::*;

verus! {

/// A query whose expression the adapter completes.
#[derive(Debug, PartialEq)]
pub struct CompletionsQuery {
    pub query: String,
    pub column: u64,
    pub line: Option<u64>,
    pub frame_id: Option<u64>,
}

impl CompletionsQuery {
    /// Builds a completion query for a buffer's text and a cursor position
    /// already resolved to a row and column.
    pub fn new(query: String, row: u64, column: u64, frame_id: Option<u64>) -> (r: Self)
        ensures
            r.query == query,
            r.column == column,
            r.line == Some(row),
            r.frame_id == frame_id,
    {
        CompletionsQuery { query, column, frame_id, line: Some(row) }
    }
}

/// One breakpoint of a `SetBreakpoints` request.
#[derive(Debug, PartialEq)]
pub struct SourceBreakpointSpec {
    /// One-based line of the breakpoint.
    pub line: u64,
    pub condition: Option<String>,
    pub hit_condition: Option<String>,
    pub log_message: Option<String>,
}

/// The payload of a `SetExceptionBreakpoints` request: a plain id list, or
/// id-carrying filter options for adapters that support them.
#[derive(Debug, PartialEq)]
pub enum SetExceptionBreakpointsArgs {
    Plain { filters: Vec<String> },
    WithOptions { filter_ids: Vec<String> },
}

/// Arguments shared by the four stepping requests.
#[derive(Debug, PartialEq)]
pub struct StepArgs {
    pub thread_id: i64,
    pub granularity: Option<SteppingGranularity>,
    pub single_thread: Option<bool>,
}

/// The kind tag of a cacheable read command.
#[derive(Copy, Clone, Debug, PartialEq, Eq, Structural)]
pub enum CommandKind {
    Threads,
    StackTrace,
    Scopes,
    Variables,
    Modules,
    LoadedSources,
    Locations,
    ReadMemory,
    DataBreakpointInfo,
}

/// A cacheable read command, keyed by value in the request cache.
#[derive(Debug, PartialEq)]
pub enum QueryCommand {
    Threads,
    StackTrace { thread_id: i64 },
    Scopes { frame_id: u64 },
    Variables { variables_reference: u64 },
    Modules,
    LoadedSources,
    Locations { reference: u64 },
    ReadMemory { address: u64, count: u64 },
    DataBreakpointInfo { context: DataBreakpointContext, mode: Option<String> },
}

/// Mathematical identity of a data-breakpoint context.
pub enum ContextKey {
    Variable { variables_reference: u64, name: Seq<char> },
    Expression { expression: Seq<char>, frame_id: Option<u64> },
}

/// Mathematical identity of a cacheable command: the value the cache
/// de-duplicates on.
pub enum QueryKey {
    Threads,
    StackTrace { thread_id: i64 },
    Scopes { frame_id: u64 },
    Variables { variables_reference: u64 },
    Modules,
    LoadedSources,
    Locations { reference: u64 },
    ReadMemory { address: u64, count: u64 },
    DataBreakpointInfo { context: ContextKey, mode: Option<Seq<char>> },
}

impl View for DataBreakpointContext {
    type V = ContextKey;

    open spec fn view(&self) -> ContextKey {
        match self {
            DataBreakpointContext::Variable { variables_reference, name } => {
                ContextKey::Variable { variables_reference: *variables_reference, name: name@ }
            },
            DataBreakpointContext::Expression { expression, frame_id } => {
                ContextKey::Expression { expression: expression@, frame_id: *frame_id }
            },
        }
    }
}

impl View for QueryCommand {
    type V = QueryKey;

    open spec fn view(&self) -> QueryKey {
        match self {
            QueryCommand::Threads => QueryKey::Threads,
            QueryCommand::StackTrace { thread_id } => QueryKey::StackTrace {
                thread_id: *thread_id,
            },
            QueryCommand::Scopes { frame_id } => QueryKey::Scopes { frame_id: *frame_id },
            QueryCommand::Variables { variables_reference } => QueryKey::Variables {
                variables_reference: *variables_reference,
            },
            QueryCommand::Modules => QueryKey::Modules,
            QueryCommand::LoadedSources => QueryKey::LoadedSources,
            QueryCommand::Locations { reference } => QueryKey::Locations {
                reference: *reference,
            },
            QueryCommand::ReadMemory { address, count } => QueryKey::ReadMemory {
                address: *address,
                count: *count,
            },
            QueryCommand::DataBreakpointInfo { context, mode } => QueryKey::DataBreakpointInfo {
                context: context@,
                mode: match mode {
                    Some(m) => Some(m@),
                    None => None,
                },
            },
        }
    }
}

/// The kind tag of a command identity.
pub open spec fn key_kind(k: QueryKey) -> CommandKind {
    match k {
        QueryKey::Threads => CommandKind::Threads,
        QueryKey::StackTrace { .. } => CommandKind::StackTrace,
        QueryKey::Scopes { .. } => CommandKind::Scopes,
        QueryKey::Variables { .. } => CommandKind::Variables,
        QueryKey::Modules => CommandKind::Modules,
        QueryKey::LoadedSources => CommandKind::LoadedSources,
        QueryKey::Locations { .. } => CommandKind::Locations,
        QueryKey::ReadMemory { .. } => CommandKind::ReadMemory,
        QueryKey::DataBreakpointInfo { .. } => CommandKind::DataBreakpointInfo,
    }
}

impl QueryCommand {
    /// The command's kind tag.
    pub fn kind(&self) -> (k: CommandKind)
        ensures
            k == key_kind(self@),
    {
        match self {
            QueryCommand::Threads => CommandKind::Threads,
            QueryCommand::StackTrace { .. } => CommandKind::StackTrace,
            QueryCommand::Scopes { .. } => CommandKind::Scopes,
            QueryCommand::Variables { .. } => CommandKind::Variables,
            QueryCommand::Modules => CommandKind::Modules,
            QueryCommand::LoadedSources => CommandKind::LoadedSources,
            QueryCommand::Locations { .. } => CommandKind::Locations,
            QueryCommand::ReadMemory { .. } => CommandKind::ReadMemory,
            QueryCommand::DataBreakpointInfo { .. } => CommandKind::DataBreakpointInfo,
        }
    }
}

impl Clone for QueryCommand {
    fn clone(&self) -> (res: Self)
        ensures
            res == *self,
    {
        match self {
            QueryCommand::Threads => QueryCommand::Threads,
            QueryCommand::StackTrace { thread_id } => QueryCommand::StackTrace {
                thread_id: *thread_id,
            },
            QueryCommand::Scopes { frame_id } => QueryCommand::Scopes { frame_id: *frame_id },
            QueryCommand::Variables { variables_reference } => QueryCommand::Variables {
                variables_reference: *variables_reference,
            },
            QueryCommand::Modules => QueryCommand::Modules,
            QueryCommand::LoadedSources => QueryCommand::LoadedSources,
            QueryCommand::Locations { reference } => QueryCommand::Locations {
                reference: *reference,
            },
            QueryCommand::ReadMemory { address, count } => QueryCommand::ReadMemory {
                address: *address,
                count: *count,
            },
            QueryCommand::DataBreakpointInfo { context, mode } => {
                let mode = match mode {
                    Some(m) => Some(m.clone()),
                    None => None,
                };
                QueryCommand::DataBreakpointInfo { context: context.clone(), mode }
            },
        }
    }
}

fn option_string_eq(a: &Option<String>, b: &Option<String>) -> (r: bool)
    ensures
        r == match (a, b) {
            (Some(x), Some(y)) => x@ == y@,
            (None, None) => true,
            _ => false,
        },
{
    match (a, b) {
        (Some(x), Some(y)) => *x == *y,
        (None, None) => true,
        _ => false,
    }
}

fn context_eq(a: &DataBreakpointContext, b: &DataBreakpointContext) -> (r: bool)
    ensures
        r == (a@ == b@),
{
    match (a, b) {
        (
            DataBreakpointContext::Variable { variables_reference: ar, name: an },
            DataBreakpointContext::Variable { variables_reference: br, name: bn },
        ) => *ar == *br && *an == *bn,
        (
            DataBreakpointContext::Expression { expression: ae, frame_id: af },
            DataBreakpointContext::Expression { expression: be, frame_id: bf },
        ) => *ae == *be && *af == *bf,
        _ => false,
    }
}

/// Value equality of two cacheable commands: the test the cache's identity
/// lookup uses.
pub fn query_eq(a: &QueryCommand, b: &QueryCommand) -> (r: bool)
    ensures
        r == (a@ == b@),
{
    match (a, b) {
        (QueryCommand::Threads, QueryCommand::Threads) => true,
        (
            QueryCommand::StackTrace { thread_id: at },
            QueryCommand::StackTrace { thread_id: bt },
        ) => *at == *bt,
        (QueryCommand::Scopes { frame_id: af }, QueryCommand::Scopes { frame_id: bf }) => *af
            == *bf,
        (
            QueryCommand::Variables { variables_reference: av },
            QueryCommand::Variables { variables_reference: bv },
        ) => *av == *bv,
        (QueryCommand::Modules, QueryCommand::Modules) => true,
        (QueryCommand::LoadedSources, QueryCommand::LoadedSources) => true,
        (QueryCommand::Locations { reference: ar }, QueryCommand::Locations { reference: br }) => {
            *ar == *br
        },
        (
            QueryCommand::ReadMemory { address: aa, count: ac },
            QueryCommand::ReadMemory { address: ba, count: bc },
        ) => *aa == *ba && *ac == *bc,
        (
            QueryCommand::DataBreakpointInfo { context: ac, mode: am },
            QueryCommand::DataBreakpointInfo { context: bc, mode: bm },
        ) => context_eq(ac, bc) && option_string_eq(am, bm),
        _ => false,
    }
}

/// One outbound protocol request.
#[derive(Debug, PartialEq)]
pub enum DapRequest {
    Initialize { adapter_id: String },
    Launch { configuration: String },
    Attach { configuration: String },
    ConfigurationDone,
    SetBreakpoints {
        source: Source,
        source_modified: Option<bool>,
        breakpoints: Vec<SourceBreakpointSpec>,
    },
    SetExceptionBreakpoints { args: SetExceptionBreakpointsArgs },
    SetDataBreakpoints { breakpoints: Vec<DataBreakpointDescriptor> },
    Continue { thread_id: i64, single_thread: Option<bool> },
    Next { step: StepArgs },
    StepIn { step: StepArgs },
    StepOut { step: StepArgs },
    StepBack { step: StepArgs },
    Pause { thread_id: i64 },
    RestartStackFrame { stack_frame_id: u64 },
    Restart { raw_arguments: Option<String> },
    Terminate { restart: Option<bool> },
    Disconnect {
        restart: Option<bool>,
        terminate_debuggee: Option<bool>,
        suspend_debuggee: Option<bool>,
    },
    TerminateThreads { thread_ids: Option<Vec<i64>> },
    SetVariableValue { variables_reference: u64, name: String, value: String },
    Evaluate {
        expression: String,
        context: Option<EvaluateContext>,
        frame_id: Option<u64>,
        source: Option<Source>,
    },
    WriteMemory { address: u64, data_base64: String },
    Completions { query: CompletionsQuery },
    Query { command: QueryCommand },
}

/// The body of a response this engine sends back to a client request the
/// adapter made of it.
#[derive(Debug, PartialEq)]
pub enum ClientResponseBody {
    /// The shell process id a run-in-terminal request ended with.
    RunInTerminal { shell_process_id: u64 },
    /// The message of a failed client request.
    Failure { message: String },
    /// No body.
    Empty,
}

/// A response to a client request, ready for the transport: the wire
/// sequence number of a response is one past the request's.
#[derive(Debug, PartialEq)]
pub struct ClientResponse {
    pub seq: u64,
    pub request_seq: u64,
    pub success: bool,
    pub body: ClientResponseBody,
}

/// Builds the response to the adapter's run-in-terminal request: the shell
/// process id on success, the failure message otherwise.
pub fn run_in_terminal_response(request_seq: u64, result: Result<u32, String>) -> (r:
    ClientResponse)
    requires
        request_seq < u64::MAX,
    ensures
        r.request_seq == request_seq,
        r.seq == request_seq + 1,
        match result {
            Ok(pid) => r.success && r.body == (ClientResponseBody::RunInTerminal {
                shell_process_id: pid as u64,
            }),
            Err(message) => !r.success && r.body == (ClientResponseBody::Failure { message }),
        },
{
    match result {
        Ok(pid) => ClientResponse {
            seq: request_seq + 1,
            request_seq,
            success: true,
            body: ClientResponseBody::RunInTerminal { shell_process_id: pid as u64 },
        },
        Err(message) => ClientResponse {
            seq: request_seq + 1,
            request_seq,
            success: false,
            body: ClientResponseBody::Failure { message },
        },
    }
}

/// Builds the response to the adapter's start-debugging request: success
/// exactly when the request's arguments parsed.
pub fn start_debugging_response(request_seq: u64, parsed: bool) -> (r: ClientResponse)
    requires
        request_seq < u64::MAX,
    ensures
        r.request_seq == request_seq,
        r.seq == request_seq + 1,
        r.success == parsed,
        r.body == ClientResponseBody::Empty,
{
    ClientResponse { seq: request_seq + 1, request_seq, success: parsed, body: ClientResponseBody::Empty }
}

/// The text that standard base64 encoding, with padding, produces for a
/// byte sequence.
pub uninterp spec fn base64_of(bytes: Seq<u8>) -> Seq<char>;

/// Relies on base64::engine::general_purpose::STANDARD.encode: standard
/// base64 with padding, four output characters for every three input bytes.
#[verifier::external_body]
pub(crate) fn encode_base64(data: &[u8]) -> (r: String)
    ensures
        r@ == base64_of(data@),
        r@.len() == 4 * ((data@.len() + 2) / 3),
{
    base64::Engine::encode(&base64::engine::general_purpose::STANDARD, data)
}

} // verus!
