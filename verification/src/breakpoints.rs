//! Breakpoint reconciliation with the adapter.
//!
//! Source breakpoints live in an external store; this module computes the
//! requests that bring the adapter in line with the store (per path or in
//! bulk), attributes the adapter's verification results positionally back
//! to the breakpoints that were sent, negotiates exception filters, and
//! assembles data-breakpoint updates.

use crate::commands::{DapRequest, SetExceptionBreakpointsArgs, SourceBreakpointSpec};
use crate::strings::str_eq;
use crate::protocol::{
    client_source, DataBreakpointDescriptor, DataBreakpointState, ExceptionFilter,
};
use vstd::prelude::*;

verus! {

/// Why a path's breakpoints are being re-sent.
#[derive(Debug, Copy, Clone, PartialEq, Eq, Structural)]
pub enum BreakpointUpdatedReason {
    Toggled,
    FileSaved,
}

/// One breakpoint as the external store holds it.
#[derive(Debug, PartialEq)]
pub struct SourceBreakpoint {
    /// Absolute path of the file the breakpoint is in.
    pub path: String,
    /// Zero-based row of the breakpoint.
    pub row: u32,
    pub condition: Option<String>,
    pub hit_condition: Option<String>,
    /// Log message for logpoints.
    pub message: Option<String>,
    /// Whether the store has the breakpoint enabled.
    pub enabled: bool,
}

fn clone_opt_string(s: &Option<String>) -> (r: Option<String>)
    ensures
        r == *s,
{
    match s {
        Some(v) => Some(v.clone()),
        None => None,
    }
}

impl Clone for SourceBreakpoint {
    fn clone(&self) -> (res: Self)
        ensures
            res == *self,
    {
        SourceBreakpoint {
            path: self.path.clone(),
            row: self.row,
            condition: clone_opt_string(&self.condition),
            hit_condition: clone_opt_string(&self.hit_condition),
            message: clone_opt_string(&self.message),
            enabled: self.enabled,
        }
    }
}

/// The wire form of one stored breakpoint: lines on the wire are one-based.
pub open spec fn spec_wire_breakpoint(bp: SourceBreakpoint) -> SourceBreakpointSpec {
    SourceBreakpointSpec {
        line: (bp.row + 1) as u64,
        condition: bp.condition,
        hit_condition: bp.hit_condition,
        log_message: bp.message,
    }
}

fn wire_breakpoint(bp: &SourceBreakpoint) -> (r: SourceBreakpointSpec)
    ensures
        r == spec_wire_breakpoint(*bp),
{
    SourceBreakpointSpec {
        line: bp.row as u64 + 1u64,
        condition: clone_opt_string(&bp.condition),
        hit_condition: clone_opt_string(&bp.hit_condition),
        log_message: clone_opt_string(&bp.message),
    }
}

/// The breakpoints sent to the adapter for a path: the store's enabled
/// breakpoints in order, plus the ephemeral run-to-line breakpoint when it
/// belongs to this path.
pub open spec fn spec_sent_breakpoints(
    store: Seq<SourceBreakpoint>,
    tmp: Option<SourceBreakpoint>,
    path: Seq<char>,
) -> Seq<SourceBreakpoint> {
    let enabled = store.filter(|b: SourceBreakpoint| b.enabled);
    match tmp {
        Some(t) => if t.path@ == path {
            enabled.push(t)
        } else {
            enabled
        },
        None => enabled,
    }
}

/// Computes the one `SetBreakpoints` request for a path: the filtered
/// (enabled-only) store breakpoints plus any run-to-line breakpoint of this
/// path, positionally in store order, in wire form.
#[verifier::loop_isolation(false)]
pub fn set_breakpoints_request(
    path: &str,
    source_modified: Option<bool>,
    store_breakpoints: &Vec<SourceBreakpoint>,
    tmp_breakpoint: &Option<SourceBreakpoint>,
) -> (r: DapRequest)
    ensures
        r matches DapRequest::SetBreakpoints { source, source_modified: sm, breakpoints } && {
            &&& source.path matches Some(p) && p@ == path@
            &&& sm == source_modified
            &&& breakpoints@.len() == spec_sent_breakpoints(
                store_breakpoints@,
                *tmp_breakpoint,
                path@,
            ).len()
            &&& forall|i: int|
                0 <= i < breakpoints@.len() ==> breakpoints@[i] == spec_wire_breakpoint(
                    #[trigger] spec_sent_breakpoints(store_breakpoints@, *tmp_breakpoint, path@)[i],
                )
        },
{
    broadcast use vstd::seq_lib::group_seq_properties;

    let ghost pred = |b: SourceBreakpoint| b.enabled;
    let mut sent: Vec<SourceBreakpoint> = Vec::new();
    let mut i: usize = 0;
    proof {
        reveal(Seq::filter);
        assert(sent@ =~= store_breakpoints@.take(0).filter(pred));
    }
    while i < store_breakpoints.len()
        invariant
            i <= store_breakpoints@.len(),
            sent@ == store_breakpoints@.take(i as int).filter(pred),
        decreases store_breakpoints@.len() - i,
    {
        proof {
            reveal(Seq::filter);
            assert(store_breakpoints@.take(i + 1).drop_last() =~= store_breakpoints@.take(
                i as int,
            ));
        }
        if store_breakpoints[i].enabled {
            sent.push(store_breakpoints[i].clone());
        }
        i += 1;
    }
    proof {
        assert(store_breakpoints@.take(store_breakpoints@.len() as int) =~= store_breakpoints@);
    }
    if let Some(tmp) = tmp_breakpoint {
        if str_eq(tmp.path.as_str(), path) {
            sent.push(tmp.clone());
        }
    }
    let ghost sent_spec = spec_sent_breakpoints(store_breakpoints@, *tmp_breakpoint, path@);
    assert(sent@ == sent_spec);
    let mut breakpoints: Vec<SourceBreakpointSpec> = Vec::new();
    let mut j: usize = 0;
    while j < sent.len()
        invariant
            j <= sent@.len(),
            breakpoints@.len() == j,
            forall|k: int|
                0 <= k < j ==> breakpoints@[k] == spec_wire_breakpoint(#[trigger] sent@[k]),
        decreases sent@.len() - j,
    {
        breakpoints.push(wire_breakpoint(&sent[j]));
        j += 1;
    }
    DapRequest::SetBreakpoints { source: client_source(path), source_modified, breakpoints }
}

/// A per-breakpoint verification result from a `SetBreakpoints` response.
#[derive(Debug, Copy, Clone, PartialEq, Eq, Structural)]
pub struct BreakpointVerification {
    /// The adapter-assigned breakpoint id, when one was assigned.
    pub id: Option<u64>,
    /// Whether the adapter verified the breakpoint.
    pub verified: bool,
}

/// What the store records for one verified breakpoint.
#[derive(Debug, Copy, Clone, PartialEq, Eq, Structural)]
pub struct BreakpointSessionState {
    pub id: u64,
    pub verified: bool,
}

/// The attribution of verification results to sent breakpoints: result `i`
/// belongs to breakpoint `i`; pairs whose result carries no id are dropped.
pub open spec fn spec_attributed(
    raw: Seq<SourceBreakpoint>,
    results: Seq<BreakpointVerification>,
    n: int,
) -> Seq<(SourceBreakpoint, BreakpointSessionState)>
    decreases n,
{
    if n <= 0 {
        Seq::empty()
    } else {
        let rest = spec_attributed(raw, results, n - 1);
        match results[n - 1].id {
            Some(id) => rest.push(
                (raw[n - 1], BreakpointSessionState { id, verified: results[n - 1].verified }),
            ),
            None => rest,
        }
    }
}

/// The number of positions attributed: one per result while a sent
/// breakpoint stands at the same position.
pub open spec fn spec_attributed_len(
    raw: Seq<SourceBreakpoint>,
    results: Seq<BreakpointVerification>,
) -> int {
    if raw.len() <= results.len() {
        raw.len() as int
    } else {
        results.len() as int
    }
}

/// Zips the adapter's verification results positionally against the
/// filtered (enabled-only) breakpoint list that was sent: result `i` is
/// attributed to breakpoint `i`. Results without an assigned id yield no
/// record.
#[verifier::loop_isolation(false)]
pub fn attribute_verifications(
    raw: &Vec<SourceBreakpoint>,
    results: &Vec<BreakpointVerification>,
) -> (r: Vec<(SourceBreakpoint, BreakpointSessionState)>)
    ensures
        r@ == spec_attributed(raw@, results@, spec_attributed_len(raw@, results@)),
{
    let n = if raw.len() <= results.len() {
        raw.len()
    } else {
        results.len()
    };
    let mut r: Vec<(SourceBreakpoint, BreakpointSessionState)> = Vec::new();
    let mut i: usize = 0;
    proof {
        assert(r@ =~= spec_attributed(raw@, results@, 0));
    }
    while i < n
        invariant
            i <= n,
            n == spec_attributed_len(raw@, results@),
            r@ == spec_attributed(raw@, results@, i as int),
        decreases n - i,
    {
        if let Some(id) = results[i].id {
            r.push((raw[i].clone(), BreakpointSessionState { id, verified: results[i].verified }));
        }
        i += 1;
    }
    r
}

/// Law: when every verification result carries an id, attribution is the
/// exact positional zip -- record `i` pairs sent breakpoint `i` with result
/// `i`, for as many positions as both lists share, in order.
pub proof fn lemma_attribution_positional(
    raw: Seq<SourceBreakpoint>,
    results: Seq<BreakpointVerification>,
    n: int,
)
    requires
        0 <= n <= raw.len(),
        n <= results.len(),
        forall|i: int| 0 <= i < n ==> (#[trigger] results[i].id) is Some,
    ensures
        spec_attributed(raw, results, n).len() == n,
        forall|i: int|
            0 <= i < n ==> #[trigger] spec_attributed(raw, results, n)[i] == (
            raw[i],
            BreakpointSessionState { id: results[i].id->0, verified: results[i].verified },
            ),
    decreases n,
{
    if n > 0 {
        lemma_attribution_positional(raw, results, n - 1);
    }
}

/// The `SetBreakpoints` requests of one bulk sync: one request per known
/// path, in order; each carries the path's enabled breakpoints, or an
/// empty list when breakpoints are ignored.
#[verifier::loop_isolation(false)]
pub fn bulk_sync_requests(
    all_breakpoints: &Vec<(String, Vec<SourceBreakpoint>)>,
    ignore_breakpoints: bool,
) -> (r: Vec<DapRequest>)
    ensures
        r@.len() == all_breakpoints@.len(),
        forall|i: int|
            0 <= i < r@.len() ==> (#[trigger] r@[i] matches DapRequest::SetBreakpoints {
                source,
                source_modified,
                breakpoints,
            } && {
                &&& source.path matches Some(p) && p@ == all_breakpoints@[i].0@
                &&& source_modified == Some(false)
                &&& breakpoints@.len() == (if ignore_breakpoints {
                    0int
                } else {
                    spec_sent_breakpoints(
                        all_breakpoints@[i].1@,
                        None::<SourceBreakpoint>,
                        all_breakpoints@[i].0@,
                    ).len() as int
                })
                &&& !ignore_breakpoints ==> forall|k: int|
                    0 <= k < breakpoints@.len() ==> breakpoints@[k] == spec_wire_breakpoint(
                        #[trigger] spec_sent_breakpoints(
                            all_breakpoints@[i].1@,
                            None::<SourceBreakpoint>,
                            all_breakpoints@[i].0@,
                        )[k],
                    )
            }),
{
    let mut r: Vec<DapRequest> = Vec::new();
    let mut i: usize = 0;
    while i < all_breakpoints.len()
        invariant
            i <= all_breakpoints@.len(),
            r@.len() == i,
            forall|j: int|
                0 <= j < i ==> (#[trigger] r@[j] matches DapRequest::SetBreakpoints {
                    source,
                    source_modified,
                    breakpoints,
                } && {
                    &&& source.path matches Some(p) && p@ == all_breakpoints@[j].0@
                    &&& source_modified == Some(false)
                    &&& breakpoints@.len() == (if ignore_breakpoints {
                        0int
                    } else {
                        spec_sent_breakpoints(
                            all_breakpoints@[j].1@,
                            None::<SourceBreakpoint>,
                            all_breakpoints@[j].0@,
                        ).len() as int
                    })
                    &&& !ignore_breakpoints ==> forall|k: int|
                        0 <= k < breakpoints@.len() ==> breakpoints@[k] == spec_wire_breakpoint(
                            #[trigger] spec_sent_breakpoints(
                                all_breakpoints@[j].1@,
                                None::<SourceBreakpoint>,
                                all_breakpoints@[j].0@,
                            )[k],
                        )
                }),
        decreases all_breakpoints@.len() - i,
    {
        let (path, bps) = &all_breakpoints[i];
        let request = if ignore_breakpoints {
            proof {
                reveal(Seq::filter);
            }
            DapRequest::SetBreakpoints {
                source: client_source(path.as_str()),
                source_modified: Some(false),
                breakpoints: Vec::new(),
            }
        } else {
            set_breakpoints_request(path.as_str(), Some(false), bps, &None)
        };
        r.push(request);
        i += 1;
    }
    r
}

/// The summary of a bulk sync's failures: the first failed path and how
/// many other paths failed besides it. One notification carries the whole
/// summary instead of one notification per failed path.
#[derive(Debug, PartialEq)]
pub struct BreakpointSyncFailure {
    pub first_path: String,
    pub other_failures: usize,
}

/// Aggregates the failed paths of one bulk sync into at most one summary.
pub fn summarize_failures(failed_paths: &Vec<String>) -> (r: Option<BreakpointSyncFailure>)
    ensures
        failed_paths@.len() == 0 <==> r is None,
        r matches Some(f) ==> f.first_path@ == failed_paths@[0]@ && f.other_failures
            == failed_paths@.len() - 1,
{
    if failed_paths.len() == 0 {
        None
    } else {
        Some(
            BreakpointSyncFailure {
                first_path: failed_paths[0].clone(),
                other_failures: failed_paths.len() - 1,
            },
        )
    }
}

/// The saved per-adapter default for a filter id, when one exists.
pub open spec fn spec_saved_default(saved: Seq<(Seq<char>, bool)>, id: Seq<char>) -> Option<bool>
    decreases saved.len(),
{
    if saved.len() == 0 {
        None
    } else if saved[0].0 == id {
        Some(saved[0].1)
    } else {
        spec_saved_default(saved.drop_first(), id)
    }
}

/// The enabled state a declared filter starts with: any adapter-specific
/// saved default, else the filter's own declared default, else disabled.
pub open spec fn spec_initial_enabled(
    filter: ExceptionFilter,
    saved: Seq<(Seq<char>, bool)>,
) -> bool {
    match spec_saved_default(saved, filter.filter@) {
        Some(enabled) => enabled,
        None => match filter.default {
            Some(d) => d,
            None => false,
        },
    }
}

fn saved_default(saved: &Vec<(String, bool)>, id: &str) -> (r: Option<bool>)
    ensures
        r == spec_saved_default(
            saved@.map_values(|p: (String, bool)| (p.0@, p.1)),
            id@,
        ),
{
    let ghost mapped = saved@.map_values(|p: (String, bool)| (p.0@, p.1));
    let mut i: usize = 0;
    proof {
        assert(mapped.skip(0) =~= mapped);
    }
    while i < saved.len()
        invariant
            i <= saved@.len(),
            mapped == saved@.map_values(|p: (String, bool)| (p.0@, p.1)),
            spec_saved_default(mapped, id@) == spec_saved_default(
                mapped.skip(i as int),
                id@,
            ),
        decreases saved@.len() - i,
    {
        proof {
            assert(mapped.skip(i as int).drop_first() =~= mapped.skip(i + 1));
        }
        if str_eq(saved[i].0.as_str(), id) {
            assert(mapped.skip(i as int)[0] == (id@, saved@[i as int].1));
            return Some(saved[i].1);
        }
        assert(mapped.skip(i as int)[0].0 != id@);
        i += 1;
    }
    proof {
        assert(mapped.skip(saved@.len() as int) =~= Seq::<(Seq<char>, bool)>::empty());
    }
    None
}

/// Computes the initial exception-filter table from the adapter's declared
/// filters: each filter keeps its declared order and starts enabled per
/// any saved adapter default, else its own declared default.
#[verifier::loop_isolation(false)]
pub fn initial_exception_filters(
    declared: &Vec<ExceptionFilter>,
    saved: &Vec<(String, bool)>,
) -> (r: Vec<(ExceptionFilter, bool)>)
    ensures
        r@.len() == declared@.len(),
        forall|i: int|
            0 <= i < r@.len() ==> #[trigger] r@[i] == (
            declared@[i],
            spec_initial_enabled(
                declared@[i],
                saved@.map_values(|p: (String, bool)| (p.0@, p.1)),
            ),
            ),
{
    let mut r: Vec<(ExceptionFilter, bool)> = Vec::new();
    let mut i: usize = 0;
    while i < declared.len()
        invariant
            i <= declared@.len(),
            r@.len() == i,
            forall|j: int|
                0 <= j < i ==> #[trigger] r@[j] == (
                declared@[j],
                spec_initial_enabled(
                    declared@[j],
                    saved@.map_values(|p: (String, bool)| (p.0@, p.1)),
                ),
                ),
        decreases declared@.len() - i,
    {
        let filter = &declared[i];
        let enabled = match saved_default(saved, filter.filter.as_str()) {
            Some(enabled) => enabled,
            None => match filter.default {
                Some(d) => d,
                None => false,
            },
        };
        r.push((filter.clone(), enabled));
        i += 1;
    }
    r
}

/// The enabled state a filter id has in the current table, when present.
pub open spec fn spec_current_enabled(
    current: Seq<(ExceptionFilter, bool)>,
    id: Seq<char>,
) -> Option<bool>
    decreases current.len(),
{
    if current.len() == 0 {
        None
    } else if current[0].0.filter@ == id {
        Some(current[0].1)
    } else {
        spec_current_enabled(current.drop_first(), id)
    }
}

fn current_enabled(current: &Vec<(ExceptionFilter, bool)>, id: &str) -> (r: Option<bool>)
    ensures
        r == spec_current_enabled(current@, id@),
{
    let mut i: usize = 0;
    proof {
        assert(current@.skip(0) =~= current@);
    }
    while i < current.len()
        invariant
            i <= current@.len(),
            spec_current_enabled(current@, id@) == spec_current_enabled(
                current@.skip(i as int),
                id@,
            ),
        decreases current@.len() - i,
    {
        proof {
            assert(current@.skip(i as int).drop_first() =~= current@.skip(i + 1));
            assert(current@.skip(i as int)[0] == current@[i as int]);
        }
        if str_eq(current[i].0.filter.as_str(), id) {
            return Some(current[i].1);
        }
        i += 1;
    }
    proof {
        assert(current@.skip(current@.len() as int) =~= Seq::<(ExceptionFilter, bool)>::empty());
    }
    None
}

/// Recomputes the exception-filter table against a newly declared filter
/// list: entries for removed filters are dropped, kept filters keep their
/// enabled state, and new filters start with their declared default.
#[verifier::loop_isolation(false)]
pub fn recompute_exception_filters(
    current: &Vec<(ExceptionFilter, bool)>,
    declared: &Vec<ExceptionFilter>,
) -> (r: Vec<(ExceptionFilter, bool)>)
    ensures
        r@.len() == declared@.len(),
        forall|i: int|
            0 <= i < r@.len() ==> #[trigger] r@[i] == (
            declared@[i],
            match spec_current_enabled(current@, declared@[i].filter@) {
                Some(enabled) => enabled,
                None => match declared@[i].default {
                    Some(d) => d,
                    None => false,
                },
            },
            ),
{
    let mut r: Vec<(ExceptionFilter, bool)> = Vec::new();
    let mut i: usize = 0;
    while i < declared.len()
        invariant
            i <= declared@.len(),
            r@.len() == i,
            forall|j: int|
                0 <= j < i ==> #[trigger] r@[j] == (
                declared@[j],
                match spec_current_enabled(current@, declared@[j].filter@) {
                    Some(enabled) => enabled,
                    None => match declared@[j].default {
                        Some(d) => d,
                        None => false,
                    },
                },
                ),
        decreases declared@.len() - i,
    {
        let filter = &declared[i];
        let enabled = match current_enabled(current, filter.filter.as_str()) {
            Some(enabled) => enabled,
            None => match filter.default {
                Some(d) => d,
                None => false,
            },
        };
        r.push((filter.clone(), enabled));
        i += 1;
    }
    r
}

/// The ids of the enabled filters, in table order.
pub open spec fn spec_enabled_filter_ids(current: Seq<(ExceptionFilter, bool)>) -> Seq<Seq<char>>
    decreases current.len(),
{
    if current.len() == 0 {
        Seq::empty()
    } else {
        let rest = spec_enabled_filter_ids(current.drop_last());
        if current.last().1 {
            rest.push(current.last().0.filter@)
        } else {
            rest
        }
    }
}

/// Assembles the `SetExceptionBreakpoints` payload for the enabled
/// filters: filter options when the adapter supports them, else a plain id
/// list. Sent even when no filter is enabled.
#[verifier::loop_isolation(false)]
pub fn exception_breakpoints_payload(
    current: &Vec<(ExceptionFilter, bool)>,
    supports_filter_options: bool,
) -> (r: SetExceptionBreakpointsArgs)
    ensures
        supports_filter_options ==> (r matches SetExceptionBreakpointsArgs::WithOptions {
            filter_ids,
        } && filter_ids@.map_values(|s: String| s@) == spec_enabled_filter_ids(current@)),
        !supports_filter_options ==> (r matches SetExceptionBreakpointsArgs::Plain { filters }
            && filters@.map_values(|s: String| s@) == spec_enabled_filter_ids(current@)),
{
    let mut ids: Vec<String> = Vec::new();
    let mut i: usize = 0;
    proof {
        assert(ids@.map_values(|s: String| s@) =~= spec_enabled_filter_ids(current@.take(0)));
    }
    while i < current.len()
        invariant
            i <= current@.len(),
            ids@.map_values(|s: String| s@) == spec_enabled_filter_ids(current@.take(i as int)),
        decreases current@.len() - i,
    {
        proof {
            assert(current@.take(i + 1).drop_last() =~= current@.take(i as int));
            assert(current@.take(i + 1).last() == current@[i as int]);
        }
        if current[i].1 {
            let ghost prior = ids@.map_values(|s: String| s@);
            ids.push(current[i].0.filter.clone());
            proof {
                assert(ids@.map_values(|s: String| s@) =~= prior.push(
                    current@[i as int].0.filter@,
                ));
            }
        }
        i += 1;
    }
    proof {
        assert(current@.take(current@.len() as int) =~= current@);
    }
    if supports_filter_options {
        SetExceptionBreakpointsArgs::WithOptions { filter_ids: ids }
    } else {
        SetExceptionBreakpointsArgs::Plain { filters: ids }
    }
}

/// The descriptors of the enabled data breakpoints, in table order.
pub open spec fn spec_enabled_data_breakpoints(data: Seq<DataBreakpointState>) -> Seq<
    DataBreakpointDescriptor,
>
    decreases data.len(),
{
    if data.len() == 0 {
        Seq::empty()
    } else {
        let rest = spec_enabled_data_breakpoints(data.drop_last());
        if data.last().is_enabled {
            rest.push(data.last().dap)
        } else {
            rest
        }
    }
}

/// The full current enabled set of data breakpoints: toggling any entry
/// resends all of them as one request.
#[verifier::loop_isolation(false)]
pub fn enabled_data_breakpoints(data: &Vec<DataBreakpointState>) -> (r: Vec<
    DataBreakpointDescriptor,
>)
    ensures
        r@ == spec_enabled_data_breakpoints(data@),
{
    let mut r: Vec<DataBreakpointDescriptor> = Vec::new();
    let mut i: usize = 0;
    proof {
        assert(r@ =~= spec_enabled_data_breakpoints(data@.take(0)));
    }
    while i < data.len()
        invariant
            i <= data@.len(),
            r@ == spec_enabled_data_breakpoints(data@.take(i as int)),
        decreases data@.len() - i,
    {
        proof {
            assert(data@.take(i + 1).drop_last() =~= data@.take(i as int));
            assert(data@.take(i + 1).last() == data@[i as int]);
        }
        if data[i].is_enabled {
            r.push(data[i].dap.clone());
        }
        i += 1;
    }
    proof {
        assert(data@.take(data@.len() as int) =~= data@);
    }
    r
}

} // verus!
