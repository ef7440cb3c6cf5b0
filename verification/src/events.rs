//! The multicast host-event stream and the per-subscriber bridge state.
//!
//! A native event source publishes frame ticks and pointer releases into a
//! bounded multicast window.  Every subscriber owns a private cursor (an
//! absolute position in the stream, attached at subscription time) and a
//! one-slot latch.  Polling advances the cursor past frame ticks, latches
//! the first pointer release found, and reports lag when the bounded window
//! has already dropped events the cursor still pointed at.

use vstd::prelude::*;

verus! {

/// A pointer-release payload: a value type with no identity.
#[derive(Clone, Copy, Debug, PartialEq, Eq)]
pub struct PointerEvent {
    pub x: i32,
    pub y: i32,
}

/// One event on the multicast host stream.
#[derive(Clone, Copy, Debug, PartialEq, Eq)]
pub enum HostEvent {
    /// A pointer release at the given coordinates.
    PointerEvent { x: i32, y: i32 },
    /// A frame tick, published at a fixed cadence.
    Frame,
}

/// Per-subscriber bridge state: a private cursor into the multicast stream
/// and a one-slot latch.  The cursor is an absolute stream position; the
/// latch holds at most one unread pointer event and is cleared on read.
#[derive(Clone, Copy, Debug, PartialEq, Eq)]
pub struct HostPointerEvent {
    pub cursor: u64,
    pub latch: Option<PointerEvent>,
}

/// A native window input, reduced to the fields the broker reads.
#[derive(Clone, Copy, Debug, PartialEq, Eq)]
pub enum WindowInput {
    /// The left mouse button was released at the given position.
    MouseLeftReleased { x: i32, y: i32 },
    /// The pointer moved; the broker publishes nothing for it.
    CursorMoved { x: i32, y: i32 },
    /// The window was resized; the broker publishes nothing for it.
    Resized { width: u32, height: u32 },
    /// The window was asked to close; the broker publishes nothing for it.
    CloseRequested,
    /// Any other input.
    Other,
}

/// The payload of a pointer event; frame ticks carry none.
pub open spec fn pointer_of(e: HostEvent) -> PointerEvent {
    match e {
        HostEvent::PointerEvent { x, y } => PointerEvent { x, y },
        HostEvent::Frame => PointerEvent { x: 0, y: 0 },
    }
}

/// The event, if any, that a native input makes the event source publish:
/// only a left-button release becomes a pointer event.
pub fn host_event_for(input: WindowInput) -> (r: Option<HostEvent>)
    ensures
        match input {
            WindowInput::MouseLeftReleased { x, y } => r == Option::Some(
                (HostEvent::PointerEvent { x, y }),
            ),
            _ => r is None,
        },
{
    match input {
        WindowInput::MouseLeftReleased { x, y } => Option::Some(
            HostEvent::PointerEvent { x, y },
        ),
        _ => Option::None,
    }
}

/// The position of the first pointer release at or after `i` in the retained
/// window, if any.
pub open spec fn first_pointer_at(log: Seq<HostEvent>, i: int) -> Option<int>
    decreases log.len() - i,
{
    if i < 0 || i >= log.len() {
        Option::None
    } else if log[i] is PointerEvent {
        Option::Some(i)
    } else {
        first_pointer_at(log, i + 1)
    }
}

/// The retained window after publishing one event: the event is appended,
/// and when the window is full the oldest retained event is dropped.
pub open spec fn publish_log(log: Seq<HostEvent>, cap: nat, e: HostEvent) -> Seq<HostEvent> {
    if log.len() < cap {
        log.push(e)
    } else {
        log.skip(1).push(e)
    }
}

/// The absolute position of the first retained event after publishing one.
pub open spec fn publish_base(log: Seq<HostEvent>, base: nat, cap: nat) -> nat {
    if log.len() < cap {
        base
    } else {
        base + 1
    }
}

/// A found pointer release lies in the window, at or after the start of the
/// scan, and is indeed a pointer release.
pub proof fn lemma_first_pointer_in_range(log: Seq<HostEvent>, i: int)
    requires
        first_pointer_at(log, i) is Some,
    ensures
        i <= first_pointer_at(log, i)->Some_0 < log.len(),
        log[first_pointer_at(log, i)->Some_0] is PointerEvent,
    decreases log.len() - i,
{
    if 0 <= i < log.len() && !(log[i] is PointerEvent) {
        lemma_first_pointer_in_range(log, i + 1);
    }
}

/// When every event at or after `i` is a frame tick, no pointer release is
/// found.
pub proof fn lemma_frames_only_no_pointer(log: Seq<HostEvent>, i: int)
    requires
        forall|k: int| i <= k < log.len() ==> (#[trigger] log[k]) is Frame,
    ensures
        first_pointer_at(log, i) is None,
    decreases log.len() - i,
{
    if 0 <= i < log.len() {
        lemma_frames_only_no_pointer(log, i + 1);
    }
}

/// The bounded multicast window: the retained suffix of the published
/// stream, the absolute position of its first event, and its capacity.
pub struct EventStream {
    events: Vec<HostEvent>,
    base: u64,
    capacity: usize,
}

impl EventStream {
    /// The retained events, oldest first.
    pub closed spec fn log(self) -> Seq<HostEvent> {
        self.events@
    }

    /// The absolute position of the first retained event.
    pub closed spec fn first_idx(self) -> nat {
        self.base as nat
    }

    /// How many events the window retains at most.
    pub closed spec fn cap(self) -> nat {
        self.capacity as nat
    }

    /// The absolute position the next published event will get.
    pub open spec fn end_idx(self) -> nat {
        self.first_idx() + self.log().len()
    }

    /// The window is well formed: it retains at most `cap` events, retains
    /// room for at least one, and its absolute positions fit in a cursor.
    pub open spec fn wf(self) -> bool {
        &&& self.cap() >= 1
        &&& self.cap() <= usize::MAX
        &&& self.log().len() <= self.cap()
        &&& self.end_idx() <= u64::MAX
    }

    /// An empty stream whose window retains at most `capacity` events.
    pub fn new(capacity: usize) -> (s: EventStream)
        requires
            capacity >= 1,
        ensures
            s.wf(),
            s.log() == Seq::<HostEvent>::empty(),
            s.first_idx() == 0,
            s.cap() == capacity,
    {
        EventStream { events: Vec::new(), base: 0, capacity }
    }

    /// The absolute position of the first retained event, for resynchronising
    /// a lagged cursor.
    pub fn first_index(&self) -> (r: u64)
        ensures
            r == self.first_idx(),
    {
        self.base
    }

    /// The absolute position the next published event will get; a cursor
    /// attached here sees exactly the events published from now on.
    pub fn next_index(&self) -> (r: u64)
        requires
            self.wf(),
        ensures
            r == self.end_idx(),
    {
        self.base + self.events.len() as u64
    }

    /// Publishes one event: appends it to the window, dropping the oldest
    /// retained event when the window is full.
    pub fn publish(&mut self, e: HostEvent)
        requires
            old(self).wf(),
            old(self).end_idx() < u64::MAX,
        ensures
            final(self).wf(),
            final(self).cap() == old(self).cap(),
            final(self).log() == publish_log(old(self).log(), old(self).cap(), e),
            final(self).first_idx() == publish_base(
                old(self).log(),
                old(self).first_idx(),
                old(self).cap(),
            ),
            final(self).end_idx() == old(self).end_idx() + 1,
    {
        if self.events.len() == self.capacity {
            self.events.remove(0);
            self.base = self.base + 1;
            proof {
                assert(self.events@ =~= old(self).log().skip(1));
            }
        }
        self.events.push(e);
    }

    /// Scans the retained window from relative position `start` for the
    /// first pointer release; frame ticks are passed over.
    pub fn poll_from(&self, start: usize) -> (r: Option<(usize, PointerEvent)>)
        ensures
            match first_pointer_at(self.log(), start as int) {
                Option::Some(j) => (r matches Some(pair) && pair.0 == j && self.log()[j]
                    == (HostEvent::PointerEvent { x: pair.1.x, y: pair.1.y })),
                Option::None => r is None,
            },
    {
        let n = self.events.len();
        let mut i: usize = start;
        while i < n
            invariant
                n == self.log().len(),
                start <= i,
                first_pointer_at(self.log(), start as int) == first_pointer_at(
                    self.log(),
                    i as int,
                ),
            decreases n - i,
        {
            match &self.events[i] {
                HostEvent::PointerEvent { x, y } => {
                    return Option::Some((i, PointerEvent { x: *x, y: *y }));
                },
                HostEvent::Frame => {},
            }
            i = i + 1;
        }
        Option::None
    }
}

} // verus!
