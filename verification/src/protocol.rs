//! Models of the protocol values this engine reads and produces.
//!
//! Each type holds, as plain values, exactly the fields the engine's logic
//! consults; the transport layer owns the full wire shape.

use vstd::prelude::*;
use vstd::string::StrSliceExecFns;

verus! {

/// A source descriptor sent with breakpoint requests.
#[derive(Debug, PartialEq)]
pub struct Source {
    /// The short name shown for the source, when one can be derived.
    pub name: Option<String>,
    /// The absolute path of the source.
    pub path: Option<String>,
}

/// Offset of the first character of the last path component: the position
/// right after the last `/`, or 0 when the path has no `/`.
pub open spec fn basename_start(path: Seq<char>) -> int
    decreases path.len(),
{
    if path.len() == 0 {
        0
    } else if path[path.len() - 1] == '/' {
        path.len() as int
    } else {
        basename_start(path.drop_last())
    }
}

proof fn lemma_basename_start_at(path: Seq<char>, k: int)
    requires
        0 <= k <= path.len(),
        forall|j: int| k <= j < path.len() ==> path[j] != '/',
        k > 0 ==> path[k - 1] == '/',
    ensures
        basename_start(path) == k,
    decreases path.len(),
{
    if path.len() == 0 {
    } else if path[path.len() - 1] == '/' {
        assert(k == path.len());
    } else {
        assert(k < path.len());
        lemma_basename_start_at(path.drop_last(), k);
    }
}

/// The file-name component of `path`: what follows the last `/`, when that
/// is not empty.
pub open spec fn spec_file_name(path: Seq<char>) -> Option<Seq<char>> {
    let tail = path.skip(basename_start(path));
    if tail.len() > 0 {
        Some(tail)
    } else {
        None
    }
}

/// Builds the source descriptor sent to the adapter for an absolute path:
/// the path itself, plus its file name when one can be derived.
#[verifier::loop_isolation(false)]
pub fn client_source(abs_path: &str) -> (r: Source)
    ensures
        r.path matches Some(p) && p@ == abs_path@,
        match r.name {
            Some(name) => spec_file_name(abs_path@) == Some(name@),
            None => spec_file_name(abs_path@) is None,
        },
{
    let n = abs_path.unicode_len();
    let mut start: usize = n;
    while start > 0
        invariant
            start <= n,
            forall|j: int| start <= j < n ==> abs_path@[j] != '/',
        decreases start,
    {
        if abs_path.get_char(start - 1) == '/' {
            break ;
        }
        start -= 1;
    }
    proof {
        lemma_basename_start_at(abs_path@, start as int);
    }
    let name = if start < n {
        let tail = abs_path.substring_char(start, n);
        proof {
            assert(tail@ =~= abs_path@.skip(start as int));
        }
        Some(tail.to_owned())
    } else {
        proof {
            assert(abs_path@.skip(start as int).len() == 0);
        }
        None
    };
    Source { name, path: Some(abs_path.to_owned()) }
}

/// Identity of one debuggee thread as the adapter reported it.
#[derive(Debug, PartialEq)]
pub struct ThreadInfo {
    pub id: i64,
    pub name: String,
}

impl Clone for ThreadInfo {
    fn clone(&self) -> (res: Self)
        ensures
            res == *self,
    {
        ThreadInfo { id: self.id, name: self.name.clone() }
    }
}

/// How a stack frame asks to be presented.
#[derive(Copy, Clone, Debug, PartialEq, Eq, Structural)]
pub enum FramePresentationHint {
    Normal,
    Label,
    Subtle,
}

/// One stack frame as the adapter reported it.
#[derive(Debug, PartialEq)]
pub struct FrameInfo {
    pub id: u64,
    pub name: String,
    pub line: u64,
    pub column: u64,
    pub presentation_hint: Option<FramePresentationHint>,
}

impl Clone for FrameInfo {
    fn clone(&self) -> (res: Self)
        ensures
            res == *self,
    {
        FrameInfo {
            id: self.id,
            name: self.name.clone(),
            line: self.line,
            column: self.column,
            presentation_hint: self.presentation_hint,
        }
    }
}

/// A variable scope of one stack frame.
#[derive(Debug, PartialEq)]
pub struct Scope {
    pub name: String,
    pub variables_reference: u64,
}

impl Clone for Scope {
    fn clone(&self) -> (res: Self)
        ensures
            res == *self,
    {
        Scope { name: self.name.clone(), variables_reference: self.variables_reference }
    }
}

/// One variable of a scope or of a structured parent variable.
#[derive(Debug, PartialEq)]
pub struct Variable {
    pub name: String,
    pub value: String,
    pub variables_reference: u64,
}

impl Clone for Variable {
    fn clone(&self) -> (res: Self)
        ensures
            res == *self,
    {
        Variable {
            name: self.name.clone(),
            value: self.value.clone(),
            variables_reference: self.variables_reference,
        }
    }
}

/// A loaded module as the adapter reported it.
#[derive(Debug, PartialEq)]
pub struct Module {
    pub id: u64,
    pub name: String,
}

impl Clone for Module {
    fn clone(&self) -> (res: Self)
        ensures
            res == *self,
    {
        Module { id: self.id, name: self.name.clone() }
    }
}

/// A resolved source location for a location reference.
#[derive(Debug, PartialEq)]
pub struct LocationInfo {
    pub line: u64,
    pub column: Option<u64>,
}

impl Clone for LocationInfo {
    fn clone(&self) -> (res: Self)
        ensures
            res == *self,
    {
        LocationInfo { line: self.line, column: self.column }
    }
}

/// An exception-breakpoint filter the adapter declared.
#[derive(Debug, PartialEq)]
pub struct ExceptionFilter {
    /// The filter's id, unique among the adapter's declared filters.
    pub filter: String,
    /// The label shown for the filter.
    pub label: String,
    /// Whether the adapter wants the filter enabled by default.
    pub default: Option<bool>,
}

impl Clone for ExceptionFilter {
    fn clone(&self) -> (res: Self)
        ensures
            res == *self,
    {
        ExceptionFilter {
            filter: self.filter.clone(),
            label: self.label.clone(),
            default: self.default,
        }
    }
}

/// Step size of a stepping request.
#[derive(Copy, Clone, Debug, PartialEq, Eq, Structural)]
pub enum SteppingGranularity {
    Statement,
    Line,
    Instruction,
}

/// The context in which an expression is evaluated.
#[derive(Copy, Clone, Debug, PartialEq, Eq, Structural)]
pub enum EvaluateContext {
    Watch,
    Repl,
    Hover,
    Clipboard,
    Variables,
}

/// The adapter's answer to an evaluation request.
#[derive(Debug, PartialEq)]
pub struct EvaluateResponse {
    pub result: String,
    pub variables_reference: u64,
    pub memory_reference: Option<String>,
    pub value_type: Option<String>,
}

impl Clone for EvaluateResponse {
    fn clone(&self) -> (res: Self)
        ensures
            res == *self,
    {
        let memory_reference = match &self.memory_reference {
            Some(r) => Some(r.clone()),
            None => None,
        };
        let value_type = match &self.value_type {
            Some(t) => Some(t.clone()),
            None => None,
        };
        EvaluateResponse {
            result: self.result.clone(),
            variables_reference: self.variables_reference,
            memory_reference,
            value_type,
        }
    }
}

/// A watched expression with the value it last evaluated to.
#[derive(Debug, PartialEq)]
pub struct Watcher {
    /// The watched expression; unique per session.
    pub expression: String,
    /// The value of the last evaluation.
    pub value: String,
    /// Reference into the variable tree for structured results.
    pub variables_reference: u64,
}

impl Clone for Watcher {
    fn clone(&self) -> (res: Self)
        ensures
            res == *self,
    {
        Watcher {
            expression: self.expression.clone(),
            value: self.value.clone(),
            variables_reference: self.variables_reference,
        }
    }
}

/// What a data breakpoint watches.
#[derive(Debug, PartialEq)]
pub enum DataBreakpointContext {
    Variable { variables_reference: u64, name: String },
    Expression { expression: String, frame_id: Option<u64> },
}

impl Clone for DataBreakpointContext {
    fn clone(&self) -> (res: Self)
        ensures
            res == *self,
    {
        match self {
            DataBreakpointContext::Variable { variables_reference, name } => {
                DataBreakpointContext::Variable {
                    variables_reference: *variables_reference,
                    name: name.clone(),
                }
            },
            DataBreakpointContext::Expression { expression, frame_id } => {
                DataBreakpointContext::Expression {
                    expression: expression.clone(),
                    frame_id: *frame_id,
                }
            },
        }
    }
}

/// The access kind a data breakpoint fires on.
#[derive(Copy, Clone, Debug, PartialEq, Eq, Structural)]
pub enum DataBreakpointAccessType {
    Read,
    Write,
    ReadWrite,
}

/// The adapter's descriptor of an established data breakpoint.
#[derive(Debug, PartialEq)]
pub struct DataBreakpointDescriptor {
    /// Opaque id under which the adapter knows the watched data.
    pub data_id: String,
    pub access_type: Option<DataBreakpointAccessType>,
}

impl Clone for DataBreakpointDescriptor {
    fn clone(&self) -> (res: Self)
        ensures
            res == *self,
    {
        DataBreakpointDescriptor {
            data_id: self.data_id.clone(),
            access_type: self.access_type,
        }
    }
}

/// An adapter-side data breakpoint together with its local enabled flag.
#[derive(Debug, PartialEq)]
pub struct DataBreakpointState {
    /// The adapter's descriptor of the breakpoint.
    pub dap: DataBreakpointDescriptor,
    /// Whether this session currently wants the breakpoint armed.
    pub is_enabled: bool,
    /// What the breakpoint watches.
    pub context: DataBreakpointContext,
}

impl Clone for DataBreakpointState {
    fn clone(&self) -> (res: Self)
        ensures
            res == *self,
    {
        DataBreakpointState {
            dap: self.dap.clone(),
            is_enabled: self.is_enabled,
            context: self.context.clone(),
        }
    }
}

} // verus!
