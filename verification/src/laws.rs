//! The broker's global laws, stated and proved over the same models that
//! the operations' contracts use.

use vstd::prelude::*;
use crate::error::BrokerError;
use crate::events::{
    HostEvent, HostPointerEvent, PointerEvent, first_pointer_at, lemma_frames_only_no_pointer,
    pointer_of, publish_base, publish_log,
};
use crate::graphics::{FrameAcquire, GraphicsContextBuffer, buffer_outcome};
use crate::host::ResourceValue;
use crate::table::{
    Entry, descends, lemma_remove_subtree_owners_ok, lemma_remove_subtree_vacant, live,
    owners_ok, remove_subtree,
};

verus! {

/// Ownership invariant: dropping a handle removes, with it, every entry
/// that descends from it, so any subsequent operation on such a
/// descendant's handle no longer resolves it.  In particular a buffer
/// obtained from a context no longer resolves once the context is dropped.
pub proof fn lemma_drop_parent_invalidates_descendants<V>(
    t: Seq<Option<Entry<V>>>,
    parent: int,
    child: int,
)
    requires
        descends(t, child, parent),
    ensures
        !live(remove_subtree(t, parent), child),
{
}

/// A freshly inserted child entry descends from its parent, so the
/// ownership invariant applies to every buffer handle that
/// `get_current_buffer` hands out.
pub proof fn lemma_child_descends<V>(t: Seq<Option<Entry<V>>>, parent: usize, value: V)
    requires
        parent < t.len(),
    ensures
        descends(
            t.push(Option::Some((Entry { value, owner: Option::Some(parent) }))),
            t.len() as int,
            parent as int,
        ),
{
    let t2 = t.push(Option::Some(Entry { value, owner: Option::Some(parent) }));
    assert(t2[t.len() as int]->Some_0.owner == Option::Some(parent));
    assert(descends(t2, parent as int, parent as int));
}

/// Ownership invariant, end to end: a buffer inserted as a child of a
/// context — exactly what `get_current_buffer` does — no longer resolves
/// once the context is removed, whatever value it held.
pub proof fn lemma_ownership_invariant<V>(t: Seq<Option<Entry<V>>>, context: usize, value: V)
    requires
        context < t.len(),
    ensures
        ({
            let with_buffer = t.push(Option::Some((Entry { value, owner: Option::Some(context) })));
            !live(remove_subtree(with_buffer, context as int), t.len() as int)
        }),
{
    let with_buffer = t.push(Option::Some(Entry { value, owner: Option::Some(context) }));
    lemma_child_descends(t, context, value);
    lemma_drop_parent_invalidates_descendants(with_buffer, context as int, t.len() as int);
}

/// Stale-handle invariant, first half: once an entry is removed, its own
/// handle no longer resolves, so resolving it afterwards fails.
pub proof fn lemma_removed_handle_stale<V>(t: Seq<Option<Entry<V>>>, h: int)
    ensures
        !live(remove_subtree(t, h), h),
{
    assert(descends(t, h, h));
}

/// Stale-handle invariant, second half: removing an already removed handle
/// changes nothing — release is idempotent, a no-op rather than a new
/// failure.
pub proof fn lemma_release_idempotent<V>(t: Seq<Option<Entry<V>>>, h: int)
    requires
        owners_ok(t),
    ensures
        remove_subtree(remove_subtree(t, h), h) == remove_subtree(t, h),
{
    lemma_removed_handle_stale(t, h);
    lemma_remove_subtree_owners_ok(t, h);
    lemma_remove_subtree_vacant(remove_subtree(t, h), h);
}

/// Unconfigured guard: a context that was created by `new` and never
/// configured has no backend selected, so asking it for the current buffer
/// fails with `Unconfigured`, whatever the native acquisition would have
/// returned.
pub proof fn lemma_unconfigured_guard(acquired: FrameAcquire)
    ensures
        buffer_outcome(Option::None, acquired) == Err::<GraphicsContextBuffer, BrokerError>(
            BrokerError::Unconfigured,
        ),
{
}

/// No loss from attach: a subscription's cursor is attached at the current
/// end of the stream when it is created, so a pointer release published
/// afterwards — even before any wait is active, and even when publishing
/// it evicts the oldest retained event — is found by the next poll, as the
/// first pointer release at or after the cursor.
pub proof fn lemma_no_loss_from_attach(
    log: Seq<HostEvent>,
    base: nat,
    cap: nat,
    cursor: u64,
    x: i32,
    y: i32,
)
    requires
        1 <= cap,
        log.len() <= cap,
        cursor == base + log.len(),
    ensures
        ({
            let e = (HostEvent::PointerEvent { x, y });
            let log2 = publish_log(log, cap, e);
            let base2 = publish_base(log, base, cap);
            &&& base2 <= cursor
            &&& first_pointer_at(log2, cursor - base2) == Option::Some((log2.len() - 1) as int)
            &&& log2[log2.len() - 1] == e
            &&& pointer_of(log2[log2.len() - 1]) == (PointerEvent { x, y })
        }),
{
    let e = HostEvent::PointerEvent { x, y };
    let log2 = publish_log(log, cap, e);
    if log.len() < cap {
        assert(log2[log2.len() - 1] == e);
    } else {
        assert(log2 == log.skip(1).push(e));
        assert(log2[log2.len() - 1] == e);
    }
}

/// Fan-out: two subscriptions attached before a pointer release is
/// published are independent multicast consumers — polling either finds
/// that same release at the same stream position, and each latches its own
/// copy of the same value.  Each latch is then cleared by its own `get`,
/// whose contract says a second `get` yields nothing until a new release
/// is latched.
pub proof fn lemma_fan_out(
    log: Seq<HostEvent>,
    base: nat,
    cap: nat,
    s1: HostPointerEvent,
    s2: HostPointerEvent,
    x: i32,
    y: i32,
)
    requires
        1 <= cap,
        log.len() <= cap,
        s1.cursor == base + log.len(),
        s2.cursor == base + log.len(),
    ensures
        ({
            let log2 = publish_log(log, cap, (HostEvent::PointerEvent { x, y }));
            let base2 = publish_base(log, base, cap);
            let j1 = first_pointer_at(log2, s1.cursor - base2);
            let j2 = first_pointer_at(log2, s2.cursor - base2);
            &&& j1 is Some
            &&& j1 == j2
            &&& pointer_of(log2[j1->Some_0]) == (PointerEvent { x, y })
        }),
{
    lemma_no_loss_from_attach(log, base, cap, s1.cursor, x, y);
    lemma_no_loss_from_attach(log, base, cap, s2.cursor, x, y);
}

/// Frame filtering: when everything retained at or after a subscription's
/// cursor is a frame tick, polling finds no pointer release — the wait
/// stays pending, the cursor advances past the ticks, and the latch is
/// left as it was, so an empty latch still yields nothing.
pub proof fn lemma_frame_filtering(log: Seq<HostEvent>, base: nat, sub: HostPointerEvent)
    requires
        base <= sub.cursor,
        forall|k: int| sub.cursor - base <= k < log.len() ==> (#[trigger] log[k]) is Frame,
    ensures
        first_pointer_at(log, sub.cursor - base) is None,
{
    lemma_frames_only_no_pointer(log, sub.cursor - base);
}

/// Cancellation: releasing a subscription removes its table entry, so a
/// poll made on behalf of an outstanding wait no longer resolves the
/// handle and returns `Cancelled` (see `HostState::ready`) instead of
/// parking the task forever, with no event value implied.
pub proof fn lemma_release_cancels_wait(t: Seq<Option<Entry<ResourceValue>>>, h: int)
    ensures
        !live(remove_subtree(t, h), h),
{
    lemma_removed_handle_stale(t, h);
}

} // verus!
