//! The capability table: an arena of slots mapping opaque handles to
//! host-owned values, with parent/child ownership.
//!
//! A handle is the index of the slot it was inserted into.  Slots are never
//! reused: a removed slot stays `None` forever, so handle identity is unique
//! for the lifetime of the table and a stale handle can never resolve to a
//! different value.  Each entry may record an owner; removing an entry
//! transitively removes every entry it owns, directly or through a chain of
//! owners.

use vstd::prelude::*;
use crate::error::BrokerError;

verus! {

/// One table entry: a value and the handle that owns it, if any.
///
/// An owner is always a handle that was inserted earlier, so owner chains
/// strictly decrease and the ownership relation forms a forest.
#[derive(Clone, Copy, Debug)]
pub struct Entry<V> {
    pub value: V,
    pub owner: Option<usize>,
}

/// The capability table.  Invariant [`Table::wf`]: every recorded owner is a
/// smaller index whose slot is still occupied.
pub struct Table<V> {
    slots: Vec<Option<Entry<V>>>,
}

impl<V> View for Table<V> {
    type V = Seq<Option<Entry<V>>>;

    closed spec fn view(&self) -> Seq<Option<Entry<V>>> {
        self.slots@
    }
}

/// Slot `i` exists and is occupied.
pub open spec fn live<V>(t: Seq<Option<Entry<V>>>, i: int) -> bool {
    0 <= i < t.len() && t[i] is Some
}

/// The value stored at an occupied slot.
pub open spec fn value_at<V>(t: Seq<Option<Entry<V>>>, i: int) -> V {
    t[i]->Some_0.value
}

/// The owner recorded at an occupied slot.
pub open spec fn owner_at<V>(t: Seq<Option<Entry<V>>>, i: int) -> Option<usize> {
    t[i]->Some_0.owner
}

/// Every occupied slot's owner, if any, is an earlier slot that is itself
/// occupied.
pub open spec fn owners_ok<V>(t: Seq<Option<Entry<V>>>) -> bool {
    forall|i: int|
        0 <= i < t.len() && (#[trigger] t[i]) is Some ==> match t[i]->Some_0.owner {
            Option::Some(p) => p < i && live(t, p as int),
            Option::None => true,
        }
}

/// Slot `k` is `root` itself, or an occupied slot whose owner chain reaches
/// `root`.  Owner chains strictly decrease, so this is well founded.
pub open spec fn descends<V>(t: Seq<Option<Entry<V>>>, k: int, root: int) -> bool
    decreases k,
{
    if k == root {
        true
    } else if 0 <= k < t.len() && t[k] is Some {
        match t[k]->Some_0.owner {
            Option::Some(p) => if p < k {
                descends(t, p as int, root)
            } else {
                false
            },
            Option::None => false,
        }
    } else {
        false
    }
}

/// The table after removing `root` and everything that descends from it.
pub open spec fn remove_subtree<V>(t: Seq<Option<Entry<V>>>, root: int) -> Seq<Option<Entry<V>>> {
    Seq::new(t.len(), |k: int| if descends(t, k, root) { Option::None } else { t[k] })
}

/// The table after removing everything that descends from `root` except
/// `root` itself.
pub open spec fn remove_descendants<V>(t: Seq<Option<Entry<V>>>, root: int) -> Seq<
    Option<Entry<V>>,
> {
    Seq::new(
        t.len(),
        |k: int| if k != root && descends(t, k, root) { Option::None } else { t[k] },
    )
}

/// A strict descendant lies above its root: owner chains only decrease.
pub proof fn lemma_descends_above<V>(t: Seq<Option<Entry<V>>>, k: int, root: int)
    requires
        descends(t, k, root),
        k != root,
    ensures
        root < k,
    decreases k,
{
    let p = t[k]->Some_0.owner->Some_0 as int;
    if p != root {
        lemma_descends_above(t, p, root);
    }
}

/// Nothing strictly descends from a vacant root: the first link of the chain
/// would be an occupied slot owned by `root`, and owners are occupied.
pub proof fn lemma_descends_needs_live_root<V>(t: Seq<Option<Entry<V>>>, k: int, root: int)
    requires
        owners_ok(t),
        descends(t, k, root),
        k != root,
    ensures
        live(t, root),
    decreases k,
{
    let p = t[k]->Some_0.owner->Some_0 as int;
    if p == root {
        assert(live(t, p));
    } else {
        lemma_descends_needs_live_root(t, p, root);
    }
}

/// Removing a vacant root changes nothing.
pub proof fn lemma_remove_subtree_vacant<V>(t: Seq<Option<Entry<V>>>, root: int)
    requires
        owners_ok(t),
        !live(t, root),
    ensures
        remove_subtree(t, root) =~= t,
{
    assert forall|k: int| 0 <= k < t.len() implies remove_subtree(t, root)[k] == t[k] by {
        if descends(t, k, root) && k != root {
            lemma_descends_needs_live_root(t, k, root);
        }
    }
}

/// Removing a subtree keeps the owner invariant: a surviving entry's owner
/// also survives, else the entry itself would descend from the root.
pub proof fn lemma_remove_subtree_owners_ok<V>(t: Seq<Option<Entry<V>>>, root: int)
    requires
        owners_ok(t),
    ensures
        owners_ok(remove_subtree(t, root)),
{
    let t2 = remove_subtree(t, root);
    assert forall|i: int|
        0 <= i < t2.len() && (#[trigger] t2[i]) is Some implies match t2[i]->Some_0.owner {
        Option::Some(p) => p < i && live(t2, p as int),
        Option::None => true,
    } by {
        assert(t2[i] == t[i]);
        match t[i]->Some_0.owner {
            Option::Some(p) => {
                assert(live(t, p as int));
                assert(!descends(t, p as int, root));
            },
            Option::None => {},
        }
    }
}

/// The same, for removing only the descendants of a root.
pub proof fn lemma_remove_descendants_owners_ok<V>(t: Seq<Option<Entry<V>>>, root: int)
    requires
        owners_ok(t),
    ensures
        owners_ok(remove_descendants(t, root)),
{
    let t2 = remove_descendants(t, root);
    assert forall|i: int|
        0 <= i < t2.len() && (#[trigger] t2[i]) is Some implies match t2[i]->Some_0.owner {
        Option::Some(p) => p < i && live(t2, p as int),
        Option::None => true,
    } by {
        assert(t2[i] == t[i]);
        match t[i]->Some_0.owner {
            Option::Some(p) => {
                assert(live(t, p as int));
                if p == root {
                    assert(descends(t, p as int, root));
                    assert(descends(t, i, root));
                    lemma_descends_above(t, i, root);
                } else if descends(t, p as int, root) {
                    lemma_descends_above(t, p as int, root);
                    assert(descends(t, i, root));
                }
            },
            Option::None => {},
        }
    }
}

impl<V> Table<V> {
    /// The whole table is well formed.
    pub open spec fn wf(self) -> bool {
        owners_ok(self@)
    }

    /// Handle `i` currently resolves.
    pub open spec fn has(self, i: int) -> bool {
        live(self@, i)
    }

    /// An empty table.
    pub fn new() -> (t: Table<V>)
        ensures
            t.wf(),
            t@ == Seq::<Option<Entry<V>>>::empty(),
    {
        Table { slots: Vec::new() }
    }

    /// Whether a handle currently resolves.
    pub fn contains(&self, id: usize) -> (r: bool)
        ensures
            r == self.has(id as int),
    {
        id < self.slots.len() && self.slots[id].is_some()
    }

    /// Inserts a value with no owner; always succeeds and returns a fresh
    /// handle.
    pub fn insert(&mut self, value: V) -> (id: usize)
        requires
            old(self).wf(),
        ensures
            final(self).wf(),
            id == old(self)@.len(),
            final(self)@ == old(self)@.push(Option::Some((Entry { value, owner: Option::None }))),
    {
        let id = self.slots.len();
        self.slots.push(Option::Some(Entry { value, owner: Option::None }));
        proof {
            assert forall|i: int|
                0 <= i < self@.len() && (#[trigger] self@[i]) is Some implies match self@[i]
                ->Some_0.owner {
                Option::Some(p) => p < i && live(self@, p as int),
                Option::None => true,
            } by {
                if i < old(self)@.len() {
                    assert(self@[i] == old(self)@[i]);
                }
            }
        }
        id
    }

    /// Inserts a value owned by `parent`; fails when `parent` does not
    /// resolve, else returns a fresh handle recorded as owned by `parent`.
    pub fn insert_child(&mut self, value: V, parent: usize) -> (r: Result<usize, BrokerError>)
        requires
            old(self).wf(),
        ensures
            final(self).wf(),
            old(self).has(parent as int) ==> (r matches Ok(id) && id == old(self)@.len()
                && final(self)@ == old(self)@.push(
                Option::Some((Entry { value, owner: Option::Some(parent) })),
            )),
            !old(self).has(parent as int) ==> r == Err::<usize, BrokerError>(
                BrokerError::NoSuchHandle,
            ) && final(self)@ == old(self)@,
    {
        if !self.contains(parent) {
            return Err(BrokerError::NoSuchHandle);
        }
        let id = self.slots.len();
        self.slots.push(Option::Some(Entry { value, owner: Option::Some(parent) }));
        proof {
            assert forall|i: int|
                0 <= i < self@.len() && (#[trigger] self@[i]) is Some implies match self@[i]
                ->Some_0.owner {
                Option::Some(p) => p < i && live(self@, p as int),
                Option::None => true,
            } by {
                if i < old(self)@.len() {
                    assert(self@[i] == old(self)@[i]);
                }
                assert(self@[parent as int] == old(self)@[parent as int]);
            }
        }
        Ok(id)
    }

    /// Resolves a handle to a copy of its value; fails with `NoSuchHandle`
    /// when the handle is stale or unknown.
    pub fn get(&self, id: usize) -> (r: Result<V, BrokerError>) where V: Copy
        ensures
            self.has(id as int) ==> r == Ok::<V, BrokerError>(value_at(self@, id as int)),
            !self.has(id as int) ==> r == Err::<V, BrokerError>(BrokerError::NoSuchHandle),
    {
        if id < self.slots.len() {
            match &self.slots[id] {
                Option::Some(e) => Ok(e.value),
                Option::None => Err(BrokerError::NoSuchHandle),
            }
        } else {
            Err(BrokerError::NoSuchHandle)
        }
    }

    /// Removes every entry transitively owned by `root`, leaving `root`
    /// itself in place.  Does nothing when `root` has no descendants or does
    /// not resolve.
    ///
    /// One ascending pass suffices: an entry's owner has a smaller index, so
    /// by the time slot `j` is visited, the fate of its owner is settled.
    pub fn remove_children(&mut self, root: usize)
        requires
            old(self).wf(),
        ensures
            final(self).wf(),
            final(self)@ == remove_descendants(old(self)@, root as int),
    {
        proof {
            lemma_remove_descendants_owners_ok(old(self)@, root as int);
        }
        let ghost t0 = self@;
        let ghost rd = remove_descendants(t0, root as int);
        let n = self.slots.len();
        if root >= n {
            proof {
                assert forall|k: int| 0 <= k < t0.len() implies rd[k] == t0[k] by {
                    if k != root && descends(t0, k, root as int) {
                        lemma_descends_needs_live_root(t0, k, root as int);
                    }
                }
                assert(self@ =~= rd);
            }
            return ;
        }
        let mut j: usize = root + 1;
        proof {
            assert forall|k: int| 0 <= k < j implies self@[k] == rd[k] by {
                if k != root && descends(t0, k, root as int) {
                    lemma_descends_above(t0, k, root as int);
                }
            }
        }
        while j < n
            invariant
                n == t0.len(),
                self@.len() == t0.len(),
                root < j <= n,
                owners_ok(t0),
                rd == remove_descendants(t0, root as int),
                forall|k: int| 0 <= k < j ==> self@[k] == rd[k],
                forall|k: int| j <= k < n ==> self@[k] == t0[k],
            decreases n - j,
        {
            let owner_opt: Option<usize> = match &self.slots[j] {
                Option::Some(e) => e.owner,
                Option::None => Option::None,
            };
            let kill: bool = match owner_opt {
                Option::Some(p) => {
                    proof {
                        assert(t0[j as int] is Some);
                        assert(p < j);
                    }
                    p == root || self.slots[p].is_none()
                },
                Option::None => false,
            };
            proof {
                let ji = j as int;
                let ri = root as int;
                match owner_opt {
                    Option::Some(p) => {
                        let pi = p as int;
                        assert(live(t0, pi));
                        if p == root {
                            assert(descends(t0, pi, ri));
                            assert(descends(t0, ji, ri));
                        } else {
                            assert(self@[pi] == rd[pi]);
                            if descends(t0, pi, ri) {
                                assert(rd[pi] is None);
                                assert(descends(t0, ji, ri));
                            } else {
                                assert(rd[pi] == t0[pi]);
                                assert(rd[pi] is Some);
                                assert(!descends(t0, ji, ri));
                            }
                        }
                    },
                    Option::None => {
                        if t0[j as int] is Some {
                            assert(!descends(t0, ji, ri));
                        } else {
                            if descends(t0, ji, ri) {
                                assert(ji == ri);
                            }
                            assert(!descends(t0, ji, ri));
                        }
                    },
                }
                assert(kill == descends(t0, ji, ri));
            }
            if kill {
                self.slots[j] = Option::None;
            }
            j += 1;
        }
        proof {
            assert(self@ =~= rd);
        }
    }

    /// Removes an entry and, transitively, every entry it owns, returning
    /// the removed value; fails with `NoSuchHandle` when the handle is stale
    /// or unknown.  Descendant handles held elsewhere no longer resolve
    /// afterwards.
    pub fn remove(&mut self, id: usize) -> (r: Result<V, BrokerError>) where V: Copy
        requires
            old(self).wf(),
        ensures
            final(self).wf(),
            old(self).has(id as int) ==> (r == Ok::<V, BrokerError>(
                value_at(old(self)@, id as int),
            ) && final(self)@ == remove_subtree(old(self)@, id as int)),
            !old(self).has(id as int) ==> (r == Err::<V, BrokerError>(BrokerError::NoSuchHandle)
                && final(self)@ == old(self)@),
    {
        if id >= self.slots.len() {
            return Err(BrokerError::NoSuchHandle);
        }
        let value = match &self.slots[id] {
            Option::Some(e) => e.value,
            Option::None => {
                return Err(BrokerError::NoSuchHandle);
            },
        };
        let ghost t0 = self@;
        self.remove_children(id);
        self.slots[id] = Option::None;
        proof {
            lemma_remove_subtree_owners_ok(t0, id as int);
            assert(descends(t0, id as int, id as int));
            assert forall|k: int| 0 <= k < t0.len() implies self@[k] == remove_subtree(
                t0,
                id as int,
            )[k] by {}
            assert(self@ =~= remove_subtree(t0, id as int));
        }
        Ok(value)
    }

    /// Replaces the value behind a handle, keeping its owner; fails with
    /// `NoSuchHandle` when the handle is stale or unknown.
    pub fn set(&mut self, id: usize, value: V) -> (r: Result<(), BrokerError>)
        requires
            old(self).wf(),
        ensures
            final(self).wf(),
            old(self).has(id as int) ==> r == Ok::<(), BrokerError>(()) && final(self)@ == old(
                self,
            )@.update(
                id as int,
                Option::Some((Entry { value, owner: owner_at(old(self)@, id as int) })),
            ),
            !old(self).has(id as int) ==> r == Err::<(), BrokerError>(BrokerError::NoSuchHandle)
                && final(self)@ == old(self)@,
    {
        if id < self.slots.len() {
            let owner = match &self.slots[id] {
                Option::Some(e) => e.owner,
                Option::None => {
                    return Err(BrokerError::NoSuchHandle);
                },
            };
            self.slots[id] = Option::Some(Entry { value, owner });
            proof {
                assert forall|i: int|
                    0 <= i < self@.len() && (#[trigger] self@[i]) is Some implies match self@[i]
                    ->Some_0.owner {
                    Option::Some(p) => p < i && live(self@, p as int),
                    Option::None => true,
                } by {
                    assert(old(self)@[i] is Some);
                    assert(self@[i]->Some_0.owner == old(self)@[i]->Some_0.owner);
                }
            }
            Ok(())
        } else {
            Err(BrokerError::NoSuchHandle)
        }
    }
}

} // verus!
