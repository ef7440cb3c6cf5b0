//! The host dispatch layer: maps each capability-interface operation onto
//! the capability table, the graphics state machine and the subscription
//! bridge.
//!
//! The host state owns the table and the multicast stream for the whole
//! process lifetime; guest operations are serialized, so each method takes
//! the state exclusively.

use vstd::prelude::*;
use crate::error::BrokerError;
use crate::events::{
    EventStream, HostEvent, HostPointerEvent, PointerEvent, first_pointer_at,
    lemma_first_pointer_in_range, pointer_of, publish_base, publish_log,
};
use crate::graphics::{
    BackendChoice, ConfigureContextDesc, FrameAcquire, GraphicsContext, GraphicsContextBuffer,
    GraphicsContextKind, Surface, buffer_outcome, configured_kind,
};
use crate::table::{
    Entry, Table, lemma_remove_subtree_vacant, live, owner_at, remove_descendants,
    remove_subtree, value_at,
};

verus! {

/// A host-owned value behind a capability handle.
#[derive(Clone, Copy, Debug, PartialEq, Eq)]
pub enum ResourceValue {
    /// A graphics context.
    Context(GraphicsContext),
    /// A frame target, child of the context that produced it.
    Buffer(GraphicsContextBuffer),
    /// A pointer-event subscription: its cursor and latch.
    PointerUp(HostPointerEvent),
    /// A readiness token handed out by `subscribe`, child of its
    /// subscription.
    Pollable,
}

/// Outcome of polling a subscription for readiness.
#[derive(Clone, Copy, Debug, PartialEq, Eq)]
pub enum PollOutcome {
    /// A pointer release was latched; `get` will return it.
    Ready,
    /// No pointer release has arrived yet; the cursor advanced past every
    /// retained frame tick.
    Pending,
    /// The subscription was released; the wait resolves with no event value
    /// instead of parking forever.
    Cancelled,
}

/// Handle `i` resolves to a graphics context.
pub open spec fn is_context(t: Seq<Option<Entry<ResourceValue>>>, i: int) -> bool {
    live(t, i) && value_at(t, i) is Context
}

/// The backend state of the context behind handle `i`.
pub open spec fn kind_of(t: Seq<Option<Entry<ResourceValue>>>, i: int) -> Option<
    GraphicsContextKind,
> {
    value_at(t, i)->Context_0.kind
}

/// Handle `i` resolves to a pointer-event subscription.
pub open spec fn is_pointer_up(t: Seq<Option<Entry<ResourceValue>>>, i: int) -> bool {
    live(t, i) && value_at(t, i) is PointerUp
}

/// The subscription state behind handle `i`.
pub open spec fn sub_of(t: Seq<Option<Entry<ResourceValue>>>, i: int) -> HostPointerEvent {
    value_at(t, i)->PointerUp_0
}

/// The table after replacing the subscription state behind handle `i`,
/// keeping the entry's owner.
pub open spec fn sub_updated(
    t: Seq<Option<Entry<ResourceValue>>>,
    i: int,
    sub: HostPointerEvent,
) -> Seq<Option<Entry<ResourceValue>>> {
    t.update(
        i,
        Option::Some(Entry { value: ResourceValue::PointerUp(sub), owner: owner_at(t, i) }),
    )
}

/// Every subscription's cursor lies at or before the end of the stream.
pub open spec fn cursors_bounded(t: Seq<Option<Entry<ResourceValue>>>, end: nat) -> bool {
    forall|i: int|
        live(t, i) && (#[trigger] value_at(t, i)) is PointerUp ==> value_at(t, i)
            ->PointerUp_0.cursor <= end
}

/// The host state: the capability table, the multicast event stream, and a
/// counter giving fresh identities to pixel buffers.
pub struct HostState {
    pub table: Table<ResourceValue>,
    pub stream: EventStream,
    pub next_buffer_serial: u64,
}

impl HostState {
    /// The whole host state is well formed.
    pub open spec fn wf(self) -> bool {
        &&& self.table.wf()
        &&& self.stream.wf()
        &&& cursors_bounded(self.table@, self.stream.end_idx())
    }

    /// A fresh host state: an empty table and an empty stream whose window
    /// retains at most `capacity` events.
    pub fn new(capacity: usize) -> (s: HostState)
        requires
            capacity >= 1,
        ensures
            s.wf(),
            s.table@ == Seq::<Option<Entry<ResourceValue>>>::empty(),
            s.stream.log() == Seq::<HostEvent>::empty(),
            s.stream.first_idx() == 0,
            s.stream.cap() == capacity,
            s.next_buffer_serial == 0,
    {
        HostState { table: Table::new(), stream: EventStream::new(capacity), next_buffer_serial: 0 }
    }

    /// Publishes one event on the multicast stream on behalf of the event
    /// source.  Every subscriber whose cursor has not lagged out of the
    /// window will observe it, in publish order.
    pub fn publish(&mut self, e: HostEvent)
        requires
            old(self).wf(),
            old(self).stream.end_idx() < u64::MAX,
        ensures
            final(self).wf(),
            final(self).table == old(self).table,
            final(self).next_buffer_serial == old(self).next_buffer_serial,
            final(self).stream.cap() == old(self).stream.cap(),
            final(self).stream.log() == publish_log(old(self).stream.log(), old(self).stream.cap(), e),
            final(self).stream.first_idx() == publish_base(
                old(self).stream.log(),
                old(self).stream.first_idx(),
                old(self).stream.cap(),
            ),
            final(self).stream.end_idx() == old(self).stream.end_idx() + 1,
    {
        self.stream.publish(e);
        proof {
            assert forall|i: int|
                live(self.table@, i) && (#[trigger] value_at(self.table@, i)) is PointerUp implies
                value_at(self.table@, i)->PointerUp_0.cursor <= self.stream.end_idx() by {
                assert(value_at(old(self).table@, i)->PointerUp_0.cursor
                    <= old(self).stream.end_idx());
            }
        }
    }

    /// Creates a graphics context in the unconfigured state and returns its
    /// owning handle.
    pub fn new_context(&mut self) -> (h: usize)
        requires
            old(self).wf(),
        ensures
            final(self).wf(),
            h == old(self).table@.len(),
            final(self).table@ == old(self).table@.push(
                Option::Some(
                    (Entry {
                        value: ResourceValue::Context((GraphicsContext { kind: Option::None })),
                        owner: Option::None,
                    }),
                ),
            ),
            final(self).stream == old(self).stream,
            final(self).next_buffer_serial == old(self).next_buffer_serial,
    {
        let h = self.table.insert(
            ResourceValue::Context(GraphicsContext { kind: Option::None }),
        );
        proof {
            assert forall|i: int|
                live(self.table@, i) && (#[trigger] value_at(self.table@, i)) is PointerUp implies
                value_at(self.table@, i)->PointerUp_0.cursor <= self.stream.end_idx() by {
                if 0 <= i < old(self).table@.len() {
                    assert(self.table@[i] == old(self).table@[i]);
                    assert(value_at(old(self).table@, i)->PointerUp_0.cursor
                        <= old(self).stream.end_idx());
                }
            }
        }
        h
    }

    /// Configures a context: selects the backend the descriptor names,
    /// replacing any previous backend state, and invalidates every
    /// outstanding buffer child so no stale buffer can resolve against the
    /// new backend.  Fails with `NoSuchHandle` when the handle does not
    /// resolve to a context.
    pub fn configure(&mut self, context: usize, desc: ConfigureContextDesc) -> (r: Result<
        (),
        BrokerError,
    >)
        requires
            old(self).wf(),
            old(self).next_buffer_serial < u64::MAX,
        ensures
            final(self).wf(),
            final(self).stream == old(self).stream,
            is_context(old(self).table@, context as int) ==> (r == Ok::<(), BrokerError>(())
                && final(self).table@ == remove_descendants(
                old(self).table@,
                context as int,
            ).update(
                context as int,
                Option::Some(
                    (Entry {
                        value: ResourceValue::Context(
                            (GraphicsContext {
                                kind: Option::Some(
                                    configured_kind(desc, old(self).next_buffer_serial),
                                ),
                            }),
                        ),
                        owner: owner_at(old(self).table@, context as int),
                    }),
                ),
            ) && final(self).next_buffer_serial == old(self).next_buffer_serial + (
            if desc.backend is SimpleBuffer {
                1int
            } else {
                0int
            })),
            !is_context(old(self).table@, context as int) ==> (r == Err::<(), BrokerError>(
                BrokerError::NoSuchHandle,
            ) && final(self).table@ == old(self).table@
                && final(self).next_buffer_serial == old(self).next_buffer_serial),
    {
        match self.table.get(context) {
            Result::Ok(ResourceValue::Context(_)) => {},
            Result::Ok(_) => {
                return Err(BrokerError::NoSuchHandle);
            },
            Result::Err(e) => {
                return Err(e);
            },
        }
        let ghost t0 = self.table@;
        self.table.remove_children(context);
        let kind = match desc.backend {
            BackendChoice::Webgpu { surface } => GraphicsContextKind::Webgpu(surface),
            BackendChoice::SimpleBuffer => {
                let serial = self.next_buffer_serial;
                self.next_buffer_serial = serial + 1;
                GraphicsContextKind::SimpleBuffer(
                    Surface {
                        width: desc.width,
                        height: desc.height,
                        present_mode: desc.present_mode,
                        buffer: serial,
                    },
                )
            },
        };
        let set_result = self.table.set(
            context,
            ResourceValue::Context(GraphicsContext { kind: Option::Some(kind) }),
        );
        proof {
            assert(self.table@[context as int] is Some);
            assert(set_result is Ok);
            assert forall|i: int|
                live(self.table@, i) && (#[trigger] value_at(self.table@, i)) is PointerUp implies
                value_at(self.table@, i)->PointerUp_0.cursor <= self.stream.end_idx() by {
                if i != context as int {
                    assert(self.table@[i] == remove_descendants(t0, context as int)[i]);
                    assert(self.table@[i] == t0[i]);
                    assert(value_at(t0, i)->PointerUp_0.cursor <= old(self).stream.end_idx());
                }
            }
        }
        Ok(())
    }

    /// Which native surface, if any, the host must acquire a texture from
    /// before asking for the current buffer: the GPU backend names its
    /// surface, the pixel-buffer backend needs no acquisition.  Fails with
    /// `NoSuchHandle` when the handle does not resolve to a context and
    /// with `Unconfigured` when no backend is selected yet.
    pub fn surface_to_acquire(&self, context: usize) -> (r: Result<Option<u64>, BrokerError>)
        ensures
            !is_context(self.table@, context as int) ==> r == Err::<Option<u64>, BrokerError>(
                BrokerError::NoSuchHandle,
            ),
            is_context(self.table@, context as int) ==> match kind_of(self.table@, context as int) {
                Option::None => r == Err::<Option<u64>, BrokerError>(BrokerError::Unconfigured),
                Option::Some(GraphicsContextKind::Webgpu(surface)) => r == Ok::<
                    Option<u64>,
                    BrokerError,
                >(Option::Some(surface)),
                Option::Some(GraphicsContextKind::SimpleBuffer(_)) => r == Ok::<
                    Option<u64>,
                    BrokerError,
                >(Option::None),
            },
    {
        match self.table.get(context) {
            Result::Ok(ResourceValue::Context(ctx)) => match ctx.kind {
                Option::None => Err(BrokerError::Unconfigured),
                Option::Some(GraphicsContextKind::Webgpu(surface)) => Ok(Option::Some(surface)),
                Option::Some(GraphicsContextKind::SimpleBuffer(_)) => Ok(Option::None),
            },
            Result::Ok(_) => Err(BrokerError::NoSuchHandle),
            Result::Err(e) => Err(e),
        }
    }

    /// Acquires the current frame target of a configured context and
    /// inserts it into the table as a child of the context, tagged by its
    /// backend.  `acquired` is the outcome of native texture acquisition
    /// and is consulted only by the GPU backend; the pixel-buffer backend
    /// always succeeds with its single mutable buffer.  Fails with
    /// `NoSuchHandle` for a stale handle, `Unconfigured` before a backend
    /// is selected, and `SurfaceLost`/`SurfaceTimeout` when native
    /// acquisition failed.
    pub fn get_current_buffer(&mut self, context: usize, acquired: FrameAcquire) -> (r: Result<
        usize,
        BrokerError,
    >)
        requires
            old(self).wf(),
        ensures
            final(self).wf(),
            final(self).stream == old(self).stream,
            final(self).next_buffer_serial == old(self).next_buffer_serial,
            !is_context(old(self).table@, context as int) ==> (r == Err::<usize, BrokerError>(
                BrokerError::NoSuchHandle,
            ) && final(self).table@ == old(self).table@),
            is_context(old(self).table@, context as int) ==> match buffer_outcome(
                kind_of(old(self).table@, context as int),
                acquired,
            ) {
                Result::Ok(buf) => (r matches Ok(h) && h == old(self).table@.len()
                    && final(self).table@ == old(self).table@.push(
                    Option::Some(
                        (Entry {
                            value: ResourceValue::Buffer(buf),
                            owner: Option::Some(context),
                        }),
                    ),
                )),
                Result::Err(e) => (r == Err::<usize, BrokerError>(e)
                    && final(self).table@ == old(self).table@),
            },
    {
        let kind = match self.table.get(context) {
            Result::Ok(ResourceValue::Context(ctx)) => ctx.kind,
            Result::Ok(_) => {
                return Err(BrokerError::NoSuchHandle);
            },
            Result::Err(e) => {
                return Err(e);
            },
        };
        let next_frame = match kind {
            Option::None => {
                return Err(BrokerError::Unconfigured);
            },
            Option::Some(GraphicsContextKind::Webgpu(surface)) => match acquired {
                FrameAcquire::Texture(texture) => GraphicsContextBuffer::Webgpu(
                    crate::graphics::WebgpuTexture { texture, surface },
                ),
                FrameAcquire::Lost => {
                    return Err(BrokerError::SurfaceLost);
                },
                FrameAcquire::Timeout => {
                    return Err(BrokerError::SurfaceTimeout);
                },
            },
            Option::Some(GraphicsContextKind::SimpleBuffer(surface)) => {
                let buf = surface.current_mutable_buffer();
                GraphicsContextBuffer::SimpleBuffer(buf)
            },
        };
        let r = self.table.insert_child(ResourceValue::Buffer(next_frame), context);
        let h = match r {
            Result::Ok(h) => h,
            Result::Err(e) => {
                return Err(e);
            },
        };
        proof {
            assert forall|i: int|
                live(self.table@, i) && (#[trigger] value_at(self.table@, i)) is PointerUp implies
                value_at(self.table@, i)->PointerUp_0.cursor <= self.stream.end_idx() by {
                if 0 <= i < old(self).table@.len() {
                    assert(self.table@[i] == old(self).table@[i]);
                    assert(value_at(old(self).table@, i)->PointerUp_0.cursor
                        <= old(self).stream.end_idx());
                }
            }
        }
        Ok(h)
    }

    /// Creates a pointer-event subscription and returns its owning handle.
    /// The cursor is attached at the current end of the stream, so every
    /// event published from now on is observed, whether or not a wait is
    /// active when it arrives; the latch starts cleared.
    pub fn up(&mut self) -> (h: usize)
        requires
            old(self).wf(),
        ensures
            final(self).wf(),
            h == old(self).table@.len(),
            final(self).table@ == old(self).table@.push(
                Option::Some(
                    (Entry {
                        value: ResourceValue::PointerUp(
                            (HostPointerEvent {
                                cursor: old(self).stream.end_idx() as u64,
                                latch: Option::None,
                            }),
                        ),
                        owner: Option::None,
                    }),
                ),
            ),
            final(self).stream == old(self).stream,
            final(self).next_buffer_serial == old(self).next_buffer_serial,
    {
        let cursor = self.stream.next_index();
        let h = self.table.insert(
            ResourceValue::PointerUp(HostPointerEvent { cursor, latch: Option::None }),
        );
        proof {
            assert forall|i: int|
                live(self.table@, i) && (#[trigger] value_at(self.table@, i)) is PointerUp implies
                value_at(self.table@, i)->PointerUp_0.cursor <= self.stream.end_idx() by {
                if 0 <= i < old(self).table@.len() {
                    assert(self.table@[i] == old(self).table@[i]);
                    assert(value_at(old(self).table@, i)->PointerUp_0.cursor
                        <= old(self).stream.end_idx());
                }
            }
        }
        h
    }

    /// Hands out a readiness token for a subscription, inserted as a child
    /// of the subscription handle so releasing the subscription invalidates
    /// the token too.  Fails with `NoSuchHandle` when the handle does not
    /// resolve to a subscription.
    pub fn subscribe(&mut self, pointer_up: usize) -> (r: Result<usize, BrokerError>)
        requires
            old(self).wf(),
        ensures
            final(self).wf(),
            final(self).stream == old(self).stream,
            final(self).next_buffer_serial == old(self).next_buffer_serial,
            is_pointer_up(old(self).table@, pointer_up as int) ==> (r matches Ok(h) && h == old(self).table@.len() && final(self).table@ == old(self).table@.push(
                Option::Some(
                    (Entry { value: ResourceValue::Pollable, owner: Option::Some(pointer_up) }),
                ),
            )),
            !is_pointer_up(old(self).table@, pointer_up as int) ==> (r == Err::<usize, BrokerError>(
                BrokerError::NoSuchHandle,
            ) && final(self).table@ == old(self).table@),
    {
        match self.table.get(pointer_up) {
            Result::Ok(ResourceValue::PointerUp(_)) => {},
            Result::Ok(_) => {
                return Err(BrokerError::NoSuchHandle);
            },
            Result::Err(e) => {
                return Err(e);
            },
        }
        let r = self.table.insert_child(ResourceValue::Pollable, pointer_up);
        let h = match r {
            Result::Ok(h) => h,
            Result::Err(e) => {
                return Err(e);
            },
        };
        proof {
            assert forall|i: int|
                live(self.table@, i) && (#[trigger] value_at(self.table@, i)) is PointerUp implies
                value_at(self.table@, i)->PointerUp_0.cursor <= self.stream.end_idx() by {
                if 0 <= i < old(self).table@.len() {
                    assert(self.table@[i] == old(self).table@[i]);
                    assert(value_at(old(self).table@, i)->PointerUp_0.cursor
                        <= old(self).stream.end_idx());
                }
            }
        }
        Ok(h)
    }

    /// Takes the latched pointer event of a subscription: returns the
    /// latch's value and clears it, so exactly one read consumes each
    /// latched event and a second `get` returns `None` until a new pointer
    /// release is latched.  Fails with `NoSuchHandle` when the handle does
    /// not resolve to a subscription.
    pub fn get(&mut self, pointer_up: usize) -> (r: Result<Option<PointerEvent>, BrokerError>)
        requires
            old(self).wf(),
        ensures
            final(self).wf(),
            final(self).stream == old(self).stream,
            final(self).next_buffer_serial == old(self).next_buffer_serial,
            is_pointer_up(old(self).table@, pointer_up as int) ==> (r == Ok::<
                Option<PointerEvent>,
                BrokerError,
            >(sub_of(old(self).table@, pointer_up as int).latch) && final(self).table@ == old(self).table@.update(
                pointer_up as int,
                Option::Some(
                    (Entry {
                        value: ResourceValue::PointerUp(
                            (HostPointerEvent {
                                cursor: sub_of(old(self).table@, pointer_up as int).cursor,
                                latch: Option::None,
                            }),
                        ),
                        owner: owner_at(old(self).table@, pointer_up as int),
                    }),
                ),
            )),
            !is_pointer_up(old(self).table@, pointer_up as int) ==> (r == Err::<
                Option<PointerEvent>,
                BrokerError,
            >(BrokerError::NoSuchHandle) && final(self).table@ == old(self).table@),
    {
        let sub = match self.table.get(pointer_up) {
            Result::Ok(ResourceValue::PointerUp(s)) => s,
            Result::Ok(_) => {
                return Err(BrokerError::NoSuchHandle);
            },
            Result::Err(e) => {
                return Err(e);
            },
        };
        let taken = sub.latch;
        let cleared = HostPointerEvent { cursor: sub.cursor, latch: Option::None };
        let set_result = self.table.set(pointer_up, ResourceValue::PointerUp(cleared));
        proof {
            assert(set_result is Ok);
            self.lemma_sub_update_keeps_bound(*old(self), pointer_up, cleared);
        }
        Ok(taken)
    }

    /// Polls a subscription for readiness, on behalf of a waiting task.
    ///
    /// A released subscription resolves at once with `Cancelled`, so no
    /// task stays parked after `release`.  A cursor that lagged out of the
    /// bounded window is resynchronised to the oldest retained event and
    /// the loss is reported as `SubscriptionLag`.  Otherwise the cursor
    /// walks the retained events in publish order: frame ticks are passed
    /// over and never satisfy the wait; the first pointer release is
    /// latched, the cursor moves just past it, and the wait resolves
    /// `Ready`.  With no pointer release retained the cursor parks at the
    /// end of the stream and the wait stays `Pending`.
    pub fn ready(&mut self, pointer_up: usize) -> (r: Result<PollOutcome, BrokerError>)
        requires
            old(self).wf(),
        ensures
            final(self).wf(),
            final(self).stream == old(self).stream,
            final(self).next_buffer_serial == old(self).next_buffer_serial,
            !live(old(self).table@, pointer_up as int) ==> (r == Ok::<PollOutcome, BrokerError>(
                PollOutcome::Cancelled,
            ) && final(self).table@ == old(self).table@),
            live(old(self).table@, pointer_up as int) && !is_pointer_up(
                old(self).table@,
                pointer_up as int,
            ) ==> (r == Err::<PollOutcome, BrokerError>(BrokerError::NoSuchHandle) && final(self).table@ == old(self).table@),
            is_pointer_up(old(self).table@, pointer_up as int) ==> ({
                let sub = sub_of(old(self).table@, pointer_up as int);
                let log = old(self).stream.log();
                let base = old(self).stream.first_idx();
                if sub.cursor < base {
                    r == Err::<PollOutcome, BrokerError>(BrokerError::SubscriptionLag) && final(self).table@ == sub_updated(
                        old(self).table@,
                        pointer_up as int,
                        (HostPointerEvent { cursor: base as u64, latch: sub.latch }),
                    )
                } else {
                    match first_pointer_at(log, sub.cursor - base) {
                        Option::Some(j) => r == Ok::<PollOutcome, BrokerError>(PollOutcome::Ready)
                            && final(self).table@ == sub_updated(
                            old(self).table@,
                            pointer_up as int,
                            (HostPointerEvent {
                                cursor: (base + j + 1) as u64,
                                latch: Option::Some(pointer_of(log[j])),
                            }),
                        ),
                        Option::None => r == Ok::<PollOutcome, BrokerError>(PollOutcome::Pending)
                            && final(self).table@ == sub_updated(
                            old(self).table@,
                            pointer_up as int,
                            (HostPointerEvent {
                                cursor: old(self).stream.end_idx() as u64,
                                latch: sub.latch,
                            }),
                        ),
                    }
                }
            }),
    {
        let sub = match self.table.get(pointer_up) {
            Result::Ok(ResourceValue::PointerUp(s)) => s,
            Result::Ok(_) => {
                return Err(BrokerError::NoSuchHandle);
            },
            Result::Err(_) => {
                return Ok(PollOutcome::Cancelled);
            },
        };
        let base = self.stream.first_index();
        if sub.cursor < base {
            let resynced = HostPointerEvent { cursor: base, latch: sub.latch };
            let set_result = self.table.set(pointer_up, ResourceValue::PointerUp(resynced));
            proof {
                assert(set_result is Ok);
                self.lemma_sub_update_keeps_bound(*old(self), pointer_up, resynced);
            }
            return Err(BrokerError::SubscriptionLag);
        }
        proof {
            assert(value_at(self.table@, pointer_up as int)->PointerUp_0.cursor
                <= self.stream.end_idx());
        }
        let rel = (sub.cursor - base) as usize;
        match self.stream.poll_from(rel) {
            Option::Some((j, ev)) => {
                proof {
                    lemma_first_pointer_in_range(self.stream.log(), rel as int);
                }
                let advanced = HostPointerEvent {
                    cursor: base + j as u64 + 1,
                    latch: Option::Some(ev),
                };
                let set_result = self.table.set(pointer_up, ResourceValue::PointerUp(advanced));
                proof {
                    assert(set_result is Ok);
                    self.lemma_sub_update_keeps_bound(*old(self), pointer_up, advanced);
                }
                Ok(PollOutcome::Ready)
            },
            Option::None => {
                let parked = HostPointerEvent { cursor: self.stream.next_index(), latch: sub.latch };
                let set_result = self.table.set(pointer_up, ResourceValue::PointerUp(parked));
                proof {
                    assert(set_result is Ok);
                    self.lemma_sub_update_keeps_bound(*old(self), pointer_up, parked);
                }
                Ok(PollOutcome::Pending)
            },
        }
    }

    /// Updating one subscription whose new cursor is within the stream
    /// keeps every cursor within the stream.
    proof fn lemma_sub_update_keeps_bound(
        self,
        pre: HostState,
        pointer_up: usize,
        sub: HostPointerEvent,
    )
        requires
            pre.wf(),
            is_pointer_up(pre.table@, pointer_up as int),
            self.stream == pre.stream,
            sub.cursor <= pre.stream.end_idx(),
            self.table@ == sub_updated(pre.table@, pointer_up as int, sub),
        ensures
            cursors_bounded(self.table@, self.stream.end_idx()),
    {
        assert forall|i: int|
            live(self.table@, i) && (#[trigger] value_at(self.table@, i)) is PointerUp implies
            value_at(self.table@, i)->PointerUp_0.cursor <= self.stream.end_idx() by {
            if i != pointer_up as int {
                assert(self.table@[i] == pre.table@[i]);
                assert(value_at(pre.table@, i)->PointerUp_0.cursor <= pre.stream.end_idx());
            }
        }
    }

    /// The uniform drop of the dispatch layer: removes the entry behind an
    /// owning handle and, transitively, every entry it owns.  Releasing a
    /// handle that no longer resolves is a no-op, not an error, so release
    /// is idempotent and releasing a child after its parent is harmless.
    pub fn release(&mut self, handle: usize)
        requires
            old(self).wf(),
        ensures
            final(self).wf(),
            final(self).stream == old(self).stream,
            final(self).next_buffer_serial == old(self).next_buffer_serial,
            final(self).table@ == remove_subtree(old(self).table@, handle as int),
            !live(old(self).table@, handle as int) ==> final(self).table@ == old(self).table@,
    {
        if self.table.contains(handle) {
            let _ = self.table.remove(handle);
            proof {
                assert forall|i: int|
                    live(self.table@, i) && (#[trigger] value_at(self.table@, i)) is PointerUp
                    implies value_at(self.table@, i)->PointerUp_0.cursor
                    <= self.stream.end_idx() by {
                    assert(self.table@[i] == old(self).table@[i]);
                    assert(value_at(old(self).table@, i)->PointerUp_0.cursor
                        <= old(self).stream.end_idx());
                }
            }
        } else {
            proof {
                lemma_remove_subtree_vacant(self.table@, handle as int);
            }
        }
    }
}

} // verus!
