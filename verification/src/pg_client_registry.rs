//! Which connection a database handle was given, and which pool slot it
//! holds. A caller that shares one of these between threads puts it behind a
//! lock: every method is one critical section.

use std::collections::HashMap;

use vstd::prelude::*;

verus! {

broadcast use vstd::std_specs::hash::group_hash_axioms;

/// The connection each database handle was given.
pub struct ConnectionRegistry {
    map: HashMap<usize, usize>,
}

impl View for ConnectionRegistry {
    type V = Map<usize, usize>;

    closed spec fn view(&self) -> Map<usize, usize> {
        self.map@
    }
}

/// `drained` lists what `m` maps its keys to, each key once, in some order.
pub open spec fn lists_values(drained: Seq<usize>, m: Map<usize, usize>) -> bool {
    exists|keys: Seq<usize>|
        {
            &&& #[trigger] keys.no_duplicates()
            &&& keys.to_set() == m.dom()
            &&& drained == keys.map_values(|k: usize| m[k])
        }
}

impl ConnectionRegistry {
    pub fn new() -> (r: Self)
        ensures
            r@ == Map::<usize, usize>::empty(),
    {
        Self { map: HashMap::new() }
    }

    /// Gives `db_handle` the connection `conn_ptr`, in place of any it had.
    pub fn register(&mut self, db_handle: usize, conn_ptr: usize)
        ensures
            final(self)@ == old(self)@.insert(db_handle, conn_ptr),
    {
        self.map.insert(db_handle, conn_ptr);
    }

    /// Forgets `db_handle`, returning the connection it had.
    pub fn unregister(&mut self, db_handle: usize) -> (conn: Option<usize>)
        ensures
            final(self)@ == old(self)@.remove(db_handle),
            conn == old(self)@.get(db_handle),
    {
        self.map.remove(&db_handle)
    }

    /// The connection of `db_handle`.
    pub fn find(&self, db_handle: usize) -> (conn: Option<usize>)
        ensures
            conn == self@.get(db_handle),
    {
        match self.map.get(&db_handle) {
            Some(conn) => Some(*conn),
            None => None,
        }
    }

    /// Whether some handle was given `conn_ptr`.
    pub fn contains_conn(&self, conn_ptr: usize) -> (found: bool)
        ensures
            found == self@.values().contains(conn_ptr),
    {
        for conn in it: self.map.values()
            invariant
                forall|i: int| 0 <= i < it.index() ==> *it.seq()[i] != conn_ptr,
                it.seq().unref().to_set() == self@.values(),
        {
            if *conn == conn_ptr {
                return true;
            }
        }
        false
    }

    /// Some connection in the registry that satisfies `predicate`. Which one
    /// comes back when several do is left open.
    pub fn find_any(&self, predicate: impl Fn(usize) -> bool) -> (conn: Option<usize>)
        requires
            forall|c: usize| #[trigger]
                self@.values().contains(c) ==> call_requires(predicate, (c,)),
        ensures
            match conn {
                Some(c) => self@.values().contains(c) && call_ensures(predicate, (c,), true),
                None => forall|c: usize| #[trigger]
                    self@.values().contains(c) ==> call_ensures(predicate, (c,), false),
            },
    {
        for conn in it: self.map.values()
            invariant
                forall|c: usize| #[trigger]
                    self@.values().contains(c) ==> call_requires(predicate, (c,)),
                forall|i: int|
                    0 <= i < it.index() ==> call_ensures(predicate, (*#[trigger] it.seq()[i],), false),
                it.seq().unref().to_set() == self@.values(),
        {
            assert(it.seq().unref().contains(*conn)) by {
                assert(it.seq().unref()[it.index()] == *conn);
            }
            assert(self@.values().contains(*conn));
            if predicate(*conn) {
                return Some(*conn);
            }
        }
        None
    }

    /// Some connection in the registry that serves the library database.
    pub fn find_any_library(&self, is_library: impl Fn(usize) -> bool) -> (conn: Option<usize>)
        requires
            forall|c: usize| #[trigger]
                self@.values().contains(c) ==> call_requires(is_library, (c,)),
        ensures
            match conn {
                Some(c) => self@.values().contains(c) && call_ensures(is_library, (c,), true),
                None => forall|c: usize| #[trigger]
                    self@.values().contains(c) ==> call_ensures(is_library, (c,), false),
            },
    {
        self.find_any(is_library)
    }

    pub fn clear(&mut self)
        ensures
            final(self)@ == Map::<usize, usize>::empty(),
    {
        self.map.clear();
    }

    /// Empties the registry, returning the connection of every handle: one
    /// that several handles share comes back once for each of them. The order
    /// is left open.
    pub fn drain_all(&mut self) -> (drained: Vec<usize>)
        ensures
            final(self)@ == Map::<usize, usize>::empty(),
            lists_values(drained@, old(self)@),
    {
        let mut drained: Vec<usize> = Vec::new();
        let ghost before = self@;
        let ghost mut keys: Seq<usize> = Seq::empty();
        for key in it: self.map.keys()
            invariant
                before == self@,
                it.seq().unref().to_set() == before.dom(),
                it.seq().no_duplicates(),
                keys == it.seq().unref().take(it.index() as int),
                keys.no_duplicates(),
                it.index() == it.seq().len() ==> keys.to_set() == before.dom(),
                drained@ == keys.map_values(|k: usize| before[k]),
        {
            let found = self.map.get(key);
            proof {
                assert(it.seq().unref()[it.index()] == *key);
                assert(it.seq().unref().contains(*key));
                assert(before.dom().contains(*key));
                assert(it.seq().unref().take(it.index() + 1) =~= keys.push(*key));
                keys = keys.push(*key);
                assert(it.index() + 1 == it.seq().len() ==> keys =~= it.seq().unref());
            }
            drained.push(*found.unwrap());
            assert(drained@ =~= keys.map_values(|k: usize| before[k]));
        }
        self.map.clear();
        drained
    }

    /// How many handles are registered.
    pub fn len(&self) -> (n: usize)
        ensures
            n == self@.len(),
    {
        self.map.len()
    }
}

/// The pool slot each database handle holds.
pub struct DbToPool {
    map: HashMap<usize, usize>,
}

impl View for DbToPool {
    type V = Map<usize, usize>;

    closed spec fn view(&self) -> Map<usize, usize> {
        self.map@
    }
}

/// The handles that hold `slot`.
pub open spec fn handles_on(m: Map<usize, usize>, slot: usize) -> Set<usize> {
    m.dom().filter(|h: usize| m[h] == slot)
}

impl DbToPool {
    pub fn new() -> (r: Self)
        ensures
            r@ == Map::<usize, usize>::empty(),
    {
        Self { map: HashMap::new() }
    }

    /// Lets `db_handle` hold `slot_index`, in place of any slot it held.
    pub fn assign(&mut self, db_handle: usize, slot_index: usize)
        ensures
            final(self)@ == old(self)@.insert(db_handle, slot_index),
    {
        self.map.insert(db_handle, slot_index);
    }

    /// Ends the hold of `db_handle`, returning the slot it held.
    pub fn release(&mut self, db_handle: usize) -> (slot: Option<usize>)
        ensures
            final(self)@ == old(self)@.remove(db_handle),
            slot == old(self)@.get(db_handle),
    {
        self.map.remove(&db_handle)
    }

    /// The slot that `db_handle` holds.
    pub fn find(&self, db_handle: usize) -> (slot: Option<usize>)
        ensures
            slot == self@.get(db_handle),
    {
        match self.map.get(&db_handle) {
            Some(slot) => Some(*slot),
            None => None,
        }
    }

    /// How many database handles still hold `slot_index`.
    ///
    /// This is the pool's reference count, and the only sound answer to "is
    /// anyone still using this slot?": whatever the slot's idle time says, and
    /// whatever became of the thread that first opened it.
    pub fn references(&self, slot_index: usize) -> (n: usize)
        ensures
            n == handles_on(self@, slot_index).len(),
    {
        let total = self.map.len();
        let mut n: usize = 0;
        let ghost mut counted: Set<usize> = Set::empty();
        for key in it: self.map.keys()
            invariant
                it.seq().unref().to_set() == self@.dom(),
                it.seq().no_duplicates(),
                it.seq().len() == self@.dom().len(),
                n <= it.index(),
                n == counted.len(),
                counted.finite(),
                forall|h: usize| #[trigger]
                    counted.contains(h) <==> it.seq().unref().take(it.index() as int).contains(h)
                        && self@[h] == slot_index,
                it.index() == it.seq().len() ==> counted == handles_on(self@, slot_index),
                total == self@.dom().len(),
        {
            let found = self.map.get(key);
            proof {
                assert(it.seq().unref()[it.index()] == *key);
                assert(it.seq().unref().contains(*key));
                assert(self@.dom().contains(*key));
                assert(it.seq().unref().take(it.index() + 1) =~= it.seq().unref().take(
                    it.index() as int,
                ).push(*key));
                assert(!it.seq().unref().take(it.index() as int).contains(*key));
            }
            if *found.unwrap() == slot_index {
                n = n + 1;
                proof {
                    counted = counted.insert(*key);
                }
            }
            proof {
                let seen = it.seq().unref().take(it.index() as int);
                assert forall|h: usize| #[trigger]
                    counted.contains(h) <==> seen.push(*key).contains(h) && self@[h]
                        == slot_index by {
                    if seen.contains(h) {
                        let i = choose|i: int| 0 <= i < seen.len() && seen[i] == h;
                        assert(seen.push(*key)[i] == h);
                    }
                    assert(seen.push(*key)[seen.len() as int] == *key);
                }
                assert(it.index() + 1 == it.seq().len() ==> it.seq().unref().take(
                    it.index() + 1,
                ) =~= it.seq().unref());
                assert(it.index() + 1 == it.seq().len() ==> counted =~= handles_on(
                    self@,
                    slot_index,
                ));
            }
        }
        n
    }

    pub fn clear(&mut self)
        ensures
            final(self)@ == Map::<usize, usize>::empty(),
    {
        self.map.clear();
    }

    /// How many handles hold a slot.
    pub fn len(&self) -> (n: usize)
        ensures
            n == self@.len(),
    {
        self.map.len()
    }
}

/// What a handle was last given is what it finds, and no other handle is
/// affected.
pub proof fn law_find_returns_what_was_registered(
    m: Map<usize, usize>,
    handle: usize,
    value: usize,
    other: usize,
)
    ensures
        m.insert(handle, value).get(handle) == Some(value),
        other != handle ==> m.insert(handle, value).get(other) == m.get(other),
{
}

/// A handle that was unregistered or released finds nothing, and no other
/// handle is affected.
pub proof fn law_removed_handle_finds_nothing(m: Map<usize, usize>, handle: usize, other: usize)
    ensures
        m.remove(handle).get(handle) is None,
        other != handle ==> m.remove(handle).get(other) == m.get(other),
{
}

/// There are only so many handles: every set of them is finite.
pub proof fn lemma_handles_are_finite(handles: Set<usize>)
    ensures
        handles.finite(),
{
    broadcast use vstd::set_lib::full_set_properties;

    assert(handles.subset_of(Set::<usize>::full()));
    vstd::set_lib::lemma_set_subset_finite(Set::<usize>::full(), handles);
}

/// A slot has a reference exactly as long as some handle holds it.
pub proof fn law_referenced_iff_held(m: Map<usize, usize>, slot: usize)
    ensures
        handles_on(m, slot).len() > 0 <==> exists|h: usize| #[trigger]
            m.contains_key(h) && m[h] == slot,
{
    lemma_handles_are_finite(handles_on(m, slot));
    if handles_on(m, slot).len() > 0 {
        let h = handles_on(m, slot).choose();
        assert(handles_on(m, slot).contains(h));
        assert(m.contains_key(h));
    }
    if exists|h: usize| #[trigger] m.contains_key(h) && m[h] == slot {
        let h = choose|h: usize| #[trigger] m.contains_key(h) && m[h] == slot;
        assert(handles_on(m, slot).contains(h));
        assert(handles_on(m, slot).remove(h).len() + 1 == handles_on(m, slot).len());
    }
}

/// A handle that held no slot adds one reference to the slot it is assigned,
/// and none to any other.
pub proof fn law_assign_adds_one_reference(
    m: Map<usize, usize>,
    handle: usize,
    slot: usize,
    other: usize,
)
    requires
        !m.contains_key(handle),
    ensures
        handles_on(m.insert(handle, slot), slot).len() == handles_on(m, slot).len() + 1,
        other != slot ==> handles_on(m.insert(handle, slot), other).len() == handles_on(
            m,
            other,
        ).len(),
{
    lemma_handles_are_finite(handles_on(m, slot));
    assert(handles_on(m.insert(handle, slot), slot) =~= handles_on(m, slot).insert(handle));
    if other != slot {
        assert(handles_on(m.insert(handle, slot), other) =~= handles_on(m, other));
    }
}

/// A handle that is released takes one reference from the slot it held, and
/// none from any other.
pub proof fn law_release_drops_one_reference(m: Map<usize, usize>, handle: usize, other: usize)
    requires
        m.contains_key(handle),
    ensures
        handles_on(m.remove(handle), m[handle]).len() + 1 == handles_on(m, m[handle]).len(),
        other != m[handle] ==> handles_on(m.remove(handle), other).len() == handles_on(
            m,
            other,
        ).len(),
{
    lemma_handles_are_finite(handles_on(m, m[handle]));
    assert(handles_on(m, m[handle]).contains(handle));
    assert(handles_on(m.remove(handle), m[handle]) =~= handles_on(m, m[handle]).remove(handle));
    if other != m[handle] {
        assert(handles_on(m.remove(handle), other) =~= handles_on(m, other));
    }
}

/// The references of the first `slots` slots together.
pub open spec fn total_references(m: Map<usize, usize>, slots: int) -> nat
    decreases slots,
{
    if slots <= 0 {
        0
    } else {
        total_references(m, slots - 1) + handles_on(m, (slots - 1) as usize).len()
    }
}

/// The handles that hold one of the first `slots` slots.
pub open spec fn handles_below(m: Map<usize, usize>, slots: int) -> Set<usize> {
    m.dom().filter(|h: usize| m[h] < slots)
}

proof fn lemma_total_references(m: Map<usize, usize>, slots: int)
    requires
        0 <= slots <= usize::MAX + 1,
    ensures
        total_references(m, slots) == handles_below(m, slots).len(),
    decreases slots,
{
    if slots == 0 {
        assert(handles_below(m, slots) =~= Set::empty());
    } else {
        let last = (slots - 1) as usize;
        let before = handles_below(m, slots - 1);
        let there = handles_on(m, last);
        lemma_total_references(m, slots - 1);
        lemma_handles_are_finite(before);
        lemma_handles_are_finite(there);
        assert(handles_below(m, slots) =~= before + there);
        vstd::set_lib::lemma_set_disjoint_lens(before, there);
    }
}

/// Every handle that holds a slot is counted for one slot and one only: the
/// references of all slots together are as many as the handles.
pub proof fn law_references_add_up(m: Map<usize, usize>)
    ensures
        total_references(m, usize::MAX + 1) == m.len(),
        forall|a: usize, b: usize|
            a != b ==> (#[trigger] handles_on(m, a)).disjoint(#[trigger] handles_on(m, b)),
{
    lemma_total_references(m, usize::MAX + 1);
    assert(handles_below(m, usize::MAX + 1) =~= m.dom());
}

/// The same for a pool of `slots` slots, none of whose handles holds another.
pub proof fn law_references_of_a_pool_add_up(m: Map<usize, usize>, slots: int)
    requires
        0 <= slots <= usize::MAX + 1,
        forall|h: usize| #[trigger] m.contains_key(h) ==> m[h] < slots,
    ensures
        total_references(m, slots) == m.len(),
{
    lemma_total_references(m, slots);
    assert(handles_below(m, slots) =~= m.dom());
}

/// A handle finds the connection that it was last given until it is taken out,
/// and what is given back then is that connection; other handles are not
/// concerned.
pub proof fn law_registered_connection_is_found(
    registering: &mut ConnectionRegistry,
    after: &ConnectionRegistry,
    removing: &mut ConnectionRegistry,
    removed: &ConnectionRegistry,
    db: usize,
    other: usize,
    conn: usize,
    found: Option<usize>,
    others: Option<usize>,
    taken: Option<usize>,
    gone: Option<usize>,
    holds: bool,
)
    requires
        call_ensures(ConnectionRegistry::register, (registering, db, conn), ()),
        *after == *final(registering),
        call_ensures(ConnectionRegistry::find, (after, db), found),
        call_ensures(ConnectionRegistry::find, (after, other), others),
        call_ensures(ConnectionRegistry::contains_conn, (after, conn), holds),
        *old(removing) == *final(registering),
        call_ensures(ConnectionRegistry::unregister, (removing, db), taken),
        *removed == *final(removing),
        call_ensures(ConnectionRegistry::find, (removed, db), gone),
    ensures
        found == Some(conn),
        taken == Some(conn),
        gone is None,
        holds,
        other != db ==> (others == if old(registering)@.contains_key(other) {
            Some(old(registering)@[other])
        } else {
            None
        }),
        other != db ==> final(removing)@.contains_key(other) == old(registering)@.contains_key(other),
{
    assert(after@.contains_key(db) && after@[db] == conn);
    assert(after@.values().contains(conn));
}

/// A registry that was emptied has given back one connection for each handle, and
/// finds none after that.
pub proof fn law_emptied_registry_gave_all_back(
    registry: &mut ConnectionRegistry,
    drained: Vec<usize>,
    after: &ConnectionRegistry,
    db: usize,
    found: Option<usize>,
    left: usize,
)
    requires
        call_ensures(ConnectionRegistry::drain_all, (registry,), drained),
        *after == *final(registry),
        call_ensures(ConnectionRegistry::find, (after, db), found),
        call_ensures(ConnectionRegistry::len, (after,), left),
    ensures
        found is None,
        left == 0,
        drained@.len() == old(registry)@.dom().len(),
        old(registry)@.contains_key(db) ==> drained@.contains(old(registry)@[db]),
        forall|i: int|
            0 <= i < drained@.len() ==> old(registry)@.values().contains(#[trigger] drained@[i]),
{
    let m = old(registry)@;
    let keys = choose|keys: Seq<usize>|
        {
            &&& #[trigger] keys.no_duplicates()
            &&& keys.to_set() == m.dom()
            &&& drained@ == keys.map_values(|k: usize| m[k])
        };
    keys.unique_seq_to_set();
    if m.contains_key(db) {
        assert(keys.to_set().contains(db));
        let i = choose|i: int| 0 <= i < keys.len() && keys[i] == db;
        assert(drained@[i] == m[db]);
    }
    assert forall|i: int| 0 <= i < drained@.len() implies m.values().contains(
        #[trigger] drained@[i],
    ) by {
        assert(keys.to_set().contains(keys[i]));
        assert(m.contains_key(keys[i]));
    }
}

/// A handle holds the slot that it was last assigned until it is released, and no
/// other handle is concerned; a slot is held as often as handles hold it.
pub proof fn law_assigned_slot_is_held(
    assigning: &mut DbToPool,
    after: &DbToPool,
    releasing: &mut DbToPool,
    released: &DbToPool,
    db: usize,
    slot: usize,
    held: Option<usize>,
    given_back: Option<usize>,
    gone: Option<usize>,
    references: usize,
    fewer: usize,
)
    requires
        call_ensures(DbToPool::assign, (assigning, db, slot), ()),
        *after == *final(assigning),
        call_ensures(DbToPool::find, (after, db), held),
        call_ensures(DbToPool::references, (after, slot), references),
        *old(releasing) == *final(assigning),
        call_ensures(DbToPool::release, (releasing, db), given_back),
        *released == *final(releasing),
        call_ensures(DbToPool::find, (released, db), gone),
        call_ensures(DbToPool::references, (released, slot), fewer),
    ensures
        held == Some(slot),
        given_back == Some(slot),
        gone is None,
        references == fewer + 1,
{
    law_release_drops_one_reference(after@, db, slot);
}

} // verus!
