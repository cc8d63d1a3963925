//! Negotiated adapter feature flags.
//!
//! Capabilities arrive with the initialize response and may later be
//! extended by capability events; deltas are merged field by field, a field
//! of the delta replacing the known value only when the delta actually
//! carries it.

use crate::protocol::ExceptionFilter;
use vstd::prelude::*;

verus! {

/// The optional feature flags of the adapter that this engine consults,
/// plus the adapter's declared exception-breakpoint filters.
#[derive(Debug, PartialEq)]
pub struct Capabilities {
    pub supports_configuration_done_request: Option<bool>,
    pub supports_exception_filter_options: Option<bool>,
    pub supports_single_thread_execution_requests: Option<bool>,
    pub supports_stepping_granularity: Option<bool>,
    pub supports_restart_request: Option<bool>,
    pub supports_terminate_request: Option<bool>,
    pub support_terminate_debuggee: Option<bool>,
    pub supports_terminate_threads_request: Option<bool>,
    pub supports_set_variable: Option<bool>,
    pub supports_modules_request: Option<bool>,
    pub supports_loaded_sources_request: Option<bool>,
    pub supports_read_memory_request: Option<bool>,
    pub supports_write_memory_request: Option<bool>,
    pub supports_data_breakpoints: Option<bool>,
    pub supports_completions_request: Option<bool>,
    pub supports_restart_frame: Option<bool>,
    pub supports_step_back: Option<bool>,
    pub exception_breakpoint_filters: Option<Vec<ExceptionFilter>>,
}

/// The delta's value when it carries one, else the previously known value.
pub open spec fn merged_flag(delta: Option<bool>, known: Option<bool>) -> Option<bool> {
    if delta is Some {
        delta
    } else {
        known
    }
}

fn merge_flag(delta: Option<bool>, known: Option<bool>) -> (r: Option<bool>)
    ensures
        r == merged_flag(delta, known),
{
    match delta {
        Some(v) => Some(v),
        None => known,
    }
}

impl Capabilities {
    /// The empty capability set: nothing is known yet.
    pub open spec fn spec_new() -> Capabilities {
        Capabilities {
            supports_configuration_done_request: None,
            supports_exception_filter_options: None,
            supports_single_thread_execution_requests: None,
            supports_stepping_granularity: None,
            supports_restart_request: None,
            supports_terminate_request: None,
            support_terminate_debuggee: None,
            supports_terminate_threads_request: None,
            supports_set_variable: None,
            supports_modules_request: None,
            supports_loaded_sources_request: None,
            supports_read_memory_request: None,
            supports_write_memory_request: None,
            supports_data_breakpoints: None,
            supports_completions_request: None,
            supports_restart_frame: None,
            supports_step_back: None,
            exception_breakpoint_filters: None,
        }
    }

    /// An empty capability set: nothing is known yet.
    pub fn new() -> (r: Self)
        ensures
            r == Self::spec_new(),
    {
        Capabilities {
            supports_configuration_done_request: None,
            supports_exception_filter_options: None,
            supports_single_thread_execution_requests: None,
            supports_stepping_granularity: None,
            supports_restart_request: None,
            supports_terminate_request: None,
            support_terminate_debuggee: None,
            supports_terminate_threads_request: None,
            supports_set_variable: None,
            supports_modules_request: None,
            supports_loaded_sources_request: None,
            supports_read_memory_request: None,
            supports_write_memory_request: None,
            supports_data_breakpoints: None,
            supports_completions_request: None,
            supports_restart_frame: None,
            supports_step_back: None,
            exception_breakpoint_filters: None,
        }
    }

    /// The merge of a delta into a known capability set, field by field.
    pub open spec fn spec_merged(known: Capabilities, delta: Capabilities) -> Capabilities {
        Capabilities {
            supports_configuration_done_request: merged_flag(
                delta.supports_configuration_done_request,
                known.supports_configuration_done_request,
            ),
            supports_exception_filter_options: merged_flag(
                delta.supports_exception_filter_options,
                known.supports_exception_filter_options,
            ),
            supports_single_thread_execution_requests: merged_flag(
                delta.supports_single_thread_execution_requests,
                known.supports_single_thread_execution_requests,
            ),
            supports_stepping_granularity: merged_flag(
                delta.supports_stepping_granularity,
                known.supports_stepping_granularity,
            ),
            supports_restart_request: merged_flag(
                delta.supports_restart_request,
                known.supports_restart_request,
            ),
            supports_terminate_request: merged_flag(
                delta.supports_terminate_request,
                known.supports_terminate_request,
            ),
            support_terminate_debuggee: merged_flag(
                delta.support_terminate_debuggee,
                known.support_terminate_debuggee,
            ),
            supports_terminate_threads_request: merged_flag(
                delta.supports_terminate_threads_request,
                known.supports_terminate_threads_request,
            ),
            supports_set_variable: merged_flag(
                delta.supports_set_variable,
                known.supports_set_variable,
            ),
            supports_modules_request: merged_flag(
                delta.supports_modules_request,
                known.supports_modules_request,
            ),
            supports_loaded_sources_request: merged_flag(
                delta.supports_loaded_sources_request,
                known.supports_loaded_sources_request,
            ),
            supports_read_memory_request: merged_flag(
                delta.supports_read_memory_request,
                known.supports_read_memory_request,
            ),
            supports_write_memory_request: merged_flag(
                delta.supports_write_memory_request,
                known.supports_write_memory_request,
            ),
            supports_data_breakpoints: merged_flag(
                delta.supports_data_breakpoints,
                known.supports_data_breakpoints,
            ),
            supports_completions_request: merged_flag(
                delta.supports_completions_request,
                known.supports_completions_request,
            ),
            supports_restart_frame: merged_flag(
                delta.supports_restart_frame,
                known.supports_restart_frame,
            ),
            supports_step_back: merged_flag(delta.supports_step_back, known.supports_step_back),
            exception_breakpoint_filters: if delta.exception_breakpoint_filters is Some {
                delta.exception_breakpoint_filters
            } else {
                known.exception_breakpoint_filters
            },
        }
    }

    /// Merges a capability delta into the known set. Every field the delta
    /// carries replaces the known value; every field it leaves out keeps
    /// the previously known value, so known support is never silently
    /// dropped.
    pub fn merge(&mut self, delta: Capabilities)
        ensures
            *final(self) == Self::spec_merged(*old(self), delta),
            final(self).supports_configuration_done_request == merged_flag(
                delta.supports_configuration_done_request,
                old(self).supports_configuration_done_request,
            ),
            final(self).supports_exception_filter_options == merged_flag(
                delta.supports_exception_filter_options,
                old(self).supports_exception_filter_options,
            ),
            final(self).supports_single_thread_execution_requests == merged_flag(
                delta.supports_single_thread_execution_requests,
                old(self).supports_single_thread_execution_requests,
            ),
            final(self).supports_stepping_granularity == merged_flag(
                delta.supports_stepping_granularity,
                old(self).supports_stepping_granularity,
            ),
            final(self).supports_restart_request == merged_flag(
                delta.supports_restart_request,
                old(self).supports_restart_request,
            ),
            final(self).supports_terminate_request == merged_flag(
                delta.supports_terminate_request,
                old(self).supports_terminate_request,
            ),
            final(self).support_terminate_debuggee == merged_flag(
                delta.support_terminate_debuggee,
                old(self).support_terminate_debuggee,
            ),
            final(self).supports_terminate_threads_request == merged_flag(
                delta.supports_terminate_threads_request,
                old(self).supports_terminate_threads_request,
            ),
            final(self).supports_set_variable == merged_flag(
                delta.supports_set_variable,
                old(self).supports_set_variable,
            ),
            final(self).supports_modules_request == merged_flag(
                delta.supports_modules_request,
                old(self).supports_modules_request,
            ),
            final(self).supports_loaded_sources_request == merged_flag(
                delta.supports_loaded_sources_request,
                old(self).supports_loaded_sources_request,
            ),
            final(self).supports_read_memory_request == merged_flag(
                delta.supports_read_memory_request,
                old(self).supports_read_memory_request,
            ),
            final(self).supports_write_memory_request == merged_flag(
                delta.supports_write_memory_request,
                old(self).supports_write_memory_request,
            ),
            final(self).supports_data_breakpoints == merged_flag(
                delta.supports_data_breakpoints,
                old(self).supports_data_breakpoints,
            ),
            final(self).supports_completions_request == merged_flag(
                delta.supports_completions_request,
                old(self).supports_completions_request,
            ),
            final(self).supports_restart_frame == merged_flag(
                delta.supports_restart_frame,
                old(self).supports_restart_frame,
            ),
            final(self).supports_step_back == merged_flag(
                delta.supports_step_back,
                old(self).supports_step_back,
            ),
            delta.exception_breakpoint_filters matches Some(f) ==> final(self)
                .exception_breakpoint_filters == Some(f),
            delta.exception_breakpoint_filters is None ==> final(self).exception_breakpoint_filters
                == old(self).exception_breakpoint_filters,
    {
        self.supports_configuration_done_request = merge_flag(
            delta.supports_configuration_done_request,
            self.supports_configuration_done_request,
        );
        self.supports_exception_filter_options = merge_flag(
            delta.supports_exception_filter_options,
            self.supports_exception_filter_options,
        );
        self.supports_single_thread_execution_requests = merge_flag(
            delta.supports_single_thread_execution_requests,
            self.supports_single_thread_execution_requests,
        );
        self.supports_stepping_granularity = merge_flag(
            delta.supports_stepping_granularity,
            self.supports_stepping_granularity,
        );
        self.supports_restart_request = merge_flag(
            delta.supports_restart_request,
            self.supports_restart_request,
        );
        self.supports_terminate_request = merge_flag(
            delta.supports_terminate_request,
            self.supports_terminate_request,
        );
        self.support_terminate_debuggee = merge_flag(
            delta.support_terminate_debuggee,
            self.support_terminate_debuggee,
        );
        self.supports_terminate_threads_request = merge_flag(
            delta.supports_terminate_threads_request,
            self.supports_terminate_threads_request,
        );
        self.supports_set_variable = merge_flag(
            delta.supports_set_variable,
            self.supports_set_variable,
        );
        self.supports_modules_request = merge_flag(
            delta.supports_modules_request,
            self.supports_modules_request,
        );
        self.supports_loaded_sources_request = merge_flag(
            delta.supports_loaded_sources_request,
            self.supports_loaded_sources_request,
        );
        self.supports_read_memory_request = merge_flag(
            delta.supports_read_memory_request,
            self.supports_read_memory_request,
        );
        self.supports_write_memory_request = merge_flag(
            delta.supports_write_memory_request,
            self.supports_write_memory_request,
        );
        self.supports_data_breakpoints = merge_flag(
            delta.supports_data_breakpoints,
            self.supports_data_breakpoints,
        );
        self.supports_completions_request = merge_flag(
            delta.supports_completions_request,
            self.supports_completions_request,
        );
        self.supports_restart_frame = merge_flag(
            delta.supports_restart_frame,
            self.supports_restart_frame,
        );
        self.supports_step_back = merge_flag(delta.supports_step_back, self.supports_step_back);
        if let Some(filters) = delta.exception_breakpoint_filters {
            self.exception_breakpoint_filters = Some(filters);
        }
    }
}

} // verus!
