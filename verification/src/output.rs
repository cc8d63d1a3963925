//! Bounded buffer of adapter output events.
//!
//! Output events are kept in a fixed-capacity ring; a monotonically
//! increasing token counts every event ever appended. When capacity is
//! exceeded the oldest events are dropped silently while the token keeps
//! counting, so "events since token T" queries clamp to what is still held
//! instead of under- or overflowing.

use vstd::prelude::*;

verus! {

/// How many output events a session keeps at most.
pub const MAX_TRACKED_OUTPUT_EVENTS: usize = 5000;

/// Classification the adapter gave an output event.
#[derive(Copy, Clone, Debug, PartialEq, Eq, Structural)]
pub enum OutputCategory {
    Console,
    Important,
    Stdout,
    Stderr,
    Telemetry,
    Unknown,
}

/// One output event, reduced to the fields this engine reads.
#[derive(Debug, PartialEq)]
pub struct OutputEvent {
    pub category: Option<OutputCategory>,
    pub output: String,
    pub variables_reference: Option<u64>,
}

impl Clone for OutputEvent {
    fn clone(&self) -> (res: Self)
        ensures
            res == *self,
    {
        OutputEvent {
            category: self.category,
            output: self.output.clone(),
            variables_reference: self.variables_reference,
        }
    }
}

/// An "as of" point in a session's output stream: the number of events that
/// had been appended when the token was handed out.
#[derive(Copy, Clone, Default, Debug, PartialEq, PartialOrd, Eq, Ord, Structural)]
pub struct OutputToken(pub usize);

/// Fixed-capacity ring of output events, oldest first.
#[verifier::external_body]
pub struct OutputRing {
    inner: circular_buffer::HeapCircularBuffer<OutputEvent>,
}

/// The events held by a ring, front (oldest) to back (newest).
pub uninterp spec fn ring_of(r: OutputRing) -> Seq<OutputEvent>;

/// The capacity a ring was created with.
pub uninterp spec fn ring_capacity_of(r: OutputRing) -> nat;

/// Relies on circular_buffer::HeapCircularBuffer::with_capacity: creates an
/// empty buffer that holds at most `capacity` elements.
#[verifier::external_body]
fn ring_new(capacity: usize) -> (r: OutputRing)
    ensures
        ring_of(r).len() == 0,
        ring_capacity_of(r) == capacity,
{
    OutputRing { inner: circular_buffer::HeapCircularBuffer::with_capacity(capacity) }
}

/// Relies on circular_buffer::CircularBuffer::push_back: appends at the back
/// and, once the buffer is full, also drops the front element.
#[verifier::external_body]
fn ring_push_back(r: &mut OutputRing, event: OutputEvent)
    requires
        ring_capacity_of(*old(r)) > 0,
        ring_of(*old(r)).len() <= ring_capacity_of(*old(r)),
    ensures
        ring_capacity_of(*final(r)) == ring_capacity_of(*old(r)),
        ring_of(*final(r)) == if ring_of(*old(r)).len() < ring_capacity_of(*old(r)) {
            ring_of(*old(r)).push(event)
        } else {
            ring_of(*old(r)).drop_first().push(event)
        },
{
    r.inner.push_back(event);
}

/// Relies on circular_buffer::CircularBuffer::range: yields the elements in
/// positions `from..len`, front to back.
#[verifier::external_body]
fn ring_tail(r: &OutputRing, from: usize) -> (v: Vec<OutputEvent>)
    requires
        from <= ring_of(*r).len(),
    ensures
        v@ == ring_of(*r).skip(from as int),
{
    r.inner.range(from..).cloned().collect()
}

/// Relies on circular_buffer::CircularBuffer::len.
#[verifier::external_body]
fn ring_len(r: &OutputRing) -> (n: usize)
    ensures
        n == ring_of(*r).len(),
{
    r.inner.len()
}

/// The events of `history` that a consumer holding token `since` is owed:
/// everything appended after `since` that is still within the last
/// `capacity` events. A `since` beyond the end yields nothing.
pub open spec fn visible_since(history: Seq<OutputEvent>, capacity: nat, since: nat) -> Seq<
    OutputEvent,
> {
    let start = if since > history.len() {
        history.len() as int
    } else if history.len() - since > capacity {
        history.len() - capacity
    } else {
        since as int
    };
    history.skip(start)
}

/// The bounded output buffer plus its monotonically increasing token.
pub struct OutputBuffer {
    ring: OutputRing,
    token: usize,
    history: Ghost<Seq<OutputEvent>>,
}

impl OutputBuffer {
    /// Every output event ever appended, in order.
    pub closed spec fn history(self) -> Seq<OutputEvent> {
        self.history@
    }

    /// Well-formed: the token counts the history, and the ring holds exactly
    /// the last `MAX_TRACKED_OUTPUT_EVENTS` events of the history.
    pub closed spec fn wf(self) -> bool {
        &&& ring_capacity_of(self.ring) == MAX_TRACKED_OUTPUT_EVENTS
        &&& self.token == self.history@.len()
        &&& ring_of(self.ring).len() == if self.history@.len() <= MAX_TRACKED_OUTPUT_EVENTS {
            self.history@.len() as int
        } else {
            MAX_TRACKED_OUTPUT_EVENTS as int
        }
        &&& ring_of(self.ring) == self.history@.skip(
            self.history@.len() - ring_of(self.ring).len(),
        )
    }

    pub fn new() -> (r: Self)
        ensures
            r.wf(),
            r.history().len() == 0,
    {
        let r = OutputBuffer {
            ring: ring_new(MAX_TRACKED_OUTPUT_EVENTS),
            token: 0,
            history: Ghost(Seq::empty()),
        };
        proof {
            assert(ring_of(r.ring) =~= r.history@.skip(
                r.history@.len() - ring_of(r.ring).len(),
            ));
        }
        r
    }

    /// The current token: the total number of events appended so far.
    pub fn token(&self) -> (t: OutputToken)
        requires
            self.wf(),
        ensures
            t.0 == self.history().len(),
    {
        OutputToken(self.token)
    }

    /// Appends one event, advancing the token by exactly one.
    pub fn push(&mut self, event: OutputEvent)
        requires
            old(self).wf(),
            old(self).history().len() < usize::MAX,
        ensures
            final(self).wf(),
            final(self).history() == old(self).history().push(event),
    {
        ring_push_back(&mut self.ring, event);
        self.token = self.token + 1;
        proof {
            self.history@ = self.history@.push(event);
            assert(ring_of(self.ring) =~= self.history@.skip(
                self.history@.len() - ring_of(self.ring).len(),
            ));
        }
    }

    /// Whether events were appended after `last_update` was handed out.
    pub fn has_new_output(&self, last_update: OutputToken) -> (r: bool)
        requires
            self.wf(),
        ensures
            r == (last_update.0 < self.history().len()),
    {
        last_update.0 < self.token
    }

    /// The events appended after `since`, as far as they are still held,
    /// oldest first, together with the current token.
    pub fn output(&self, since: OutputToken) -> (r: (Vec<OutputEvent>, OutputToken))
        requires
            self.wf(),
        ensures
            r.0@ == visible_since(
                self.history(),
                MAX_TRACKED_OUTPUT_EVENTS as nat,
                since.0 as nat,
            ),
            r.1.0 == self.history().len(),
    {
        let len = ring_len(&self.ring);
        let events_since = if since.0 <= self.token {
            self.token - since.0
        } else {
            0
        };
        let clamped = if events_since <= len {
            events_since
        } else {
            len
        };
        let events = ring_tail(&self.ring, len - clamped);
        proof {
            assert(events@ =~= visible_since(
                self.history(),
                MAX_TRACKED_OUTPUT_EVENTS as nat,
                since.0 as nat,
            ));
        }
        (events, OutputToken(self.token))
    }
}

/// Law: an `output(since)` query returns a suffix of the full event history
/// that starts at or after position `since` -- so no event appended at or
/// before `since` is ever returned -- and it misses none appended after
/// `since` as long as the number of events appended since then still fits
/// the buffer's capacity.
pub proof fn lemma_output_completeness(history: Seq<OutputEvent>, since: nat)
    ensures
        since <= history.len() && history.len() - since <= MAX_TRACKED_OUTPUT_EVENTS
            ==> visible_since(history, MAX_TRACKED_OUTPUT_EVENTS as nat, since) == history.skip(
            since as int,
        ),
        visible_since(history, MAX_TRACKED_OUTPUT_EVENTS as nat, since) == history.skip(
            history.len() - visible_since(history, MAX_TRACKED_OUTPUT_EVENTS as nat, since).len(),
        ),
        visible_since(history, MAX_TRACKED_OUTPUT_EVENTS as nat, since).len() > 0 ==> history.len()
            - visible_since(history, MAX_TRACKED_OUTPUT_EVENTS as nat, since).len() >= since,
{
    let cap = MAX_TRACKED_OUTPUT_EVENTS as nat;
    let v = visible_since(history, cap, since);
    assert(v == history.skip(history.len() - v.len()));
}

} // verus!
