//! Thread identity and run-state values.

use vstd::prelude::*;

verus! {

/// Adapter-assigned identifier of one debuggee thread; unique within a
/// session's thread list.
#[derive(Debug, Copy, Clone, Hash, PartialEq, PartialOrd, Ord, Eq, Structural)]
pub struct ThreadId(pub i64);

impl From<i64> for ThreadId {
    fn from(id: i64) -> (r: Self)
        ensures
            r == ThreadId(id),
    {
        ThreadId(id)
    }
}

impl vstd::std_specs::convert::FromSpecImpl<i64> for ThreadId {
    open spec fn obeys_from_spec() -> bool {
        true
    }

    open spec fn from_spec(id: i64) -> Self {
        ThreadId(id)
    }
}

/// Status of a single debuggee thread as tracked by the session.
#[derive(Copy, Clone, Debug, Default, PartialEq, Eq, Structural)]
pub enum ThreadStatus {
    #[default]
    Running,
    Stopped,
    Stepping,
    Exited,
    Ended,
}

impl ThreadStatus {
    pub fn label(&self) -> (r: &'static str)
        ensures
            *self is Running ==> r@ == "Running"@,
            *self is Stopped ==> r@ == "Stopped"@,
            *self is Stepping ==> r@ == "Stepping"@,
            *self is Exited ==> r@ == "Exited"@,
            *self is Ended ==> r@ == "Ended"@,
    {
        match self {
            ThreadStatus::Running => "Running",
            ThreadStatus::Stopped => "Stopped",
            ThreadStatus::Stepping => "Stepping",
            ThreadStatus::Exited => "Exited",
            ThreadStatus::Ended => "Ended",
        }
    }
}

} // verus!
