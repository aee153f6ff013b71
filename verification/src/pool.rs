//! The slots of the connection pool and what may be done with one in which
//! state. A caller that shares a pool between threads makes each method one
//! atomic step.

use std::collections::HashSet;

use vstd::prelude::*;

use crate::ffi_types;
use crate::ffi_types::{ConnTable, PgConnection};
use crate::pg_client_registry;
use crate::pg_client_registry::{ConnectionRegistry, DbToPool};

verus! {

broadcast use vstd::std_specs::hash::group_hash_axioms;

/// Nobody uses the slot. It may still have a connection from before.
pub const SLOT_FREE: u32 = 0;

/// A thread has claimed the slot and is about to use or fill it.
pub const SLOT_RESERVED: u32 = 1;

/// The slot's connection is in use by the thread that owns the slot.
pub const SLOT_READY: u32 = 2;

/// The slot's connection is being opened again.
pub const SLOT_RECONNECTING: u32 = 3;

/// Opening the slot's connection failed.
pub const SLOT_ERROR: u32 = 4;

/// One slot of the pool.
pub struct PoolSlot {
    pub state: u32,
    /// The slot's connection, zero for none.
    pub conn: usize,
    /// The thread that uses the slot, zero for none.
    pub owner_thread: u64,
    /// How often the slot's connection was taken away.
    pub generation: u32,
    /// When the slot was last used, in seconds.
    pub last_used: i64,
}

/// A slot as the pool starts with it.
pub open spec fn fresh_slot() -> PoolSlot {
    PoolSlot { state: SLOT_FREE, conn: 0, owner_thread: 0, generation: 0, last_used: 0 }
}

/// `slot` in another state.
pub open spec fn in_state(slot: PoolSlot, state: u32) -> PoolSlot {
    PoolSlot { state, ..slot }
}

/// `slot` after it was to go from one state to another: it goes only if it was
/// in the first.
pub open spec fn moved(slot: PoolSlot, from: u32, to: u32) -> PoolSlot {
    if slot.state == from {
        in_state(slot, to)
    } else {
        slot
    }
}

impl PoolSlot {
    pub fn new() -> (slot: Self)
        ensures
            slot == fresh_slot(),
    {
        PoolSlot { state: SLOT_FREE, conn: 0, owner_thread: 0, generation: 0, last_used: 0 }
    }

    /// Claims a free slot.
    pub fn try_claim_free(&mut self) -> (claimed: bool)
        ensures
            claimed == (old(self).state == SLOT_FREE),
            *final(self) == moved(*old(self), SLOT_FREE, SLOT_RESERVED),
    {
        if self.state == SLOT_FREE {
            self.state = SLOT_RESERVED;
            return true;
        }
        false
    }

    /// Claims a free slot whose connection is still the one the caller saw. A
    /// slot that was emptied or filled in between stays free.
    pub fn try_claim_free_with_conn(&mut self, expected: usize) -> (claimed: bool)
        ensures
            claimed == (old(self).state == SLOT_FREE && old(self).conn == expected),
            *final(self) == (if claimed {
                in_state(*old(self), SLOT_RESERVED)
            } else {
                *old(self)
            }),
    {
        if !self.try_claim_free() {
            return false;
        }
        if self.conn != expected {
            self.state = SLOT_FREE;
            return false;
        }
        true
    }

    /// Records that the slot's connection can be used.
    pub fn mark_ready(&mut self)
        ensures
            *final(self) == in_state(*old(self), SLOT_READY),
    {
        self.state = SLOT_READY;
    }

    /// Records that opening the slot's connection failed.
    pub fn mark_error(&mut self)
        ensures
            *final(self) == in_state(*old(self), SLOT_ERROR),
    {
        self.state = SLOT_ERROR;
    }

    /// Starts opening the connection of a ready slot again.
    pub fn try_begin_reconnect(&mut self) -> (begun: bool)
        ensures
            begun == (old(self).state == SLOT_READY),
            *final(self) == moved(*old(self), SLOT_READY, SLOT_RECONNECTING),
    {
        if self.state == SLOT_READY {
            self.state = SLOT_RECONNECTING;
            return true;
        }
        false
    }

    /// Claims a slot whose connection could not be opened.
    pub fn try_reclaim_error(&mut self) -> (reclaimed: bool)
        ensures
            reclaimed == (old(self).state == SLOT_ERROR),
            *final(self) == moved(*old(self), SLOT_ERROR, SLOT_RESERVED),
    {
        if self.state == SLOT_ERROR {
            self.state = SLOT_RESERVED;
            return true;
        }
        false
    }

    /// Frees a ready slot that its thread has abandoned.
    pub fn try_reclaim_zombie(&mut self) -> (reclaimed: bool)
        ensures
            reclaimed == (old(self).state == SLOT_READY),
            *final(self) == moved(*old(self), SLOT_READY, SLOT_FREE),
    {
        if self.state == SLOT_READY {
            self.state = SLOT_FREE;
            return true;
        }
        false
    }

    /// Gives the slot back: it is free and nobody's.
    pub fn release(&mut self)
        ensures
            *final(self) == (PoolSlot { state: SLOT_FREE, owner_thread: 0, ..*old(self) }),
    {
        self.owner_thread = 0;
        self.state = SLOT_FREE;
    }
}

/// How many of `n` attempts to claim a slot succeed, one after the other and
/// with nothing else happening to the slot.
pub open spec fn claims_won(slot: PoolSlot, n: nat) -> nat
    decreases n,
{
    if n == 0 {
        0
    } else {
        (if slot.state == SLOT_FREE {
            1nat
        } else {
            0nat
        }) + claims_won(moved(slot, SLOT_FREE, SLOT_RESERVED), (n - 1) as nat)
    }
}

/// Of any number of threads that try to claim a free slot, one wins.
pub proof fn law_only_one_claim_wins(slot: PoolSlot, n: nat)
    requires
        slot.state == SLOT_FREE,
        n >= 1,
    ensures
        claims_won(slot, n) == 1,
{
    lemma_no_claim_wins(moved(slot, SLOT_FREE, SLOT_RESERVED), (n - 1) as nat);
}

proof fn lemma_no_claim_wins(slot: PoolSlot, n: nat)
    requires
        slot.state != SLOT_FREE,
    ensures
        claims_won(slot, n) == 0,
    decreases n,
{
    if n > 0 {
        lemma_no_claim_wins(slot, (n - 1) as nat);
    }
}

/// How long the pool waits, in seconds, before it looks for idle connections
/// again.
pub const REAP_INTERVAL_SECS: i64 = 60;

/// How long a connection may go unused, in seconds, unless the operator says
/// otherwise.
pub const IDLE_TIMEOUT_SECS: i64 = 300;

/// The pool: its slots, who holds them, and which connections are its own.
pub struct PoolManager {
    /// All the slots the pool may grow to.
    pub slots: Vec<PoolSlot>,
    /// How many of them the pool was set up with.
    pub configured_size: usize,
    /// The connection of each database handle.
    pub registry: ConnectionRegistry,
    /// The slot of each database handle.
    pub db_to_pool: DbToPool,
    /// The connections that the pool opened and has not given up.
    pub live_connections: HashSet<usize>,
    /// How long a connection may go unused, in seconds.
    pub idle_timeout_secs: i64,
    /// When idle connections were last looked for, in seconds.
    pub last_reap_time: i64,
}

/// Slot `i` has the connection `conn`.
pub open spec fn slot_has(slots: Seq<PoolSlot>, i: int, conn: usize) -> bool {
    0 <= i < slots.len() && slots[i].conn == conn
}

/// `i` is the first slot that has the connection `conn`.
pub open spec fn first_slot_with(slots: Seq<PoolSlot>, conn: usize, i: int) -> bool {
    slot_has(slots, i, conn) && forall|k: int| #[trigger] slot_has(slots, k, conn) ==> i <= k
}

/// Some slot has the connection `conn`, which is not null.
pub open spec fn some_slot_has(slots: Seq<PoolSlot>, conn: usize) -> bool {
    conn != 0 && exists|i: int| slot_has(slots, i, conn)
}

/// Some slot that is ready has the connection `conn`, which is not null.
pub open spec fn some_ready_slot_has(slots: Seq<PoolSlot>, conn: usize) -> bool {
    conn != 0 && exists|i: int| #[trigger]
        slot_has(slots, i, conn) && slots[i].state == SLOT_READY
}

impl PoolManager {
    /// A pool set up with `size` connections that may grow to `max` slots, all
    /// of them free.
    pub fn new(size: usize, max: usize) -> (pm: Self)
        ensures
            pm.configured_size == size,
            pm.slots@ == Seq::new(max as nat, |i: int| fresh_slot()),
            pm.registry@ == Map::<usize, usize>::empty(),
            pm.db_to_pool@ == Map::<usize, usize>::empty(),
            pm.live_connections@ == Set::<usize>::empty(),
            pm.idle_timeout_secs == IDLE_TIMEOUT_SECS,
            pm.last_reap_time == 0,
    {
        let mut slots: Vec<PoolSlot> = Vec::new();
        let mut i: usize = 0;
        while i < max
            invariant
                i <= max,
                slots@ == Seq::new(i as nat, |i: int| fresh_slot()),
            decreases max - i,
        {
            slots.push(PoolSlot::new());
            i = i + 1;
            assert(slots@ =~= Seq::new(i as nat, |i: int| fresh_slot()));
        }
        PoolManager {
            slots,
            configured_size: size,
            registry: ConnectionRegistry::new(),
            db_to_pool: DbToPool::new(),
            live_connections: HashSet::new(),
            idle_timeout_secs: IDLE_TIMEOUT_SECS,
            last_reap_time: 0,
        }
    }

    /// How many connections the pool was set up with.
    pub fn pool_size(&self) -> (size: usize)
        ensures
            size == self.configured_size,
    {
        self.configured_size
    }

    /// The first slot with this connection.
    fn find_slot(&self, conn: usize) -> (slot: Option<usize>)
        ensures
            match slot {
                Some(i) => first_slot_with(self.slots@, conn, i as int),
                None => forall|i: int| !slot_has(self.slots@, i, conn),
            },
    {
        let mut i: usize = 0;
        while i < self.slots.len()
            invariant
                i <= self.slots@.len(),
                forall|k: int| 0 <= k < i ==> !#[trigger] slot_has(self.slots@, k, conn),
            decreases self.slots@.len() - i,
        {
            if self.slots[i].conn == conn {
                return Some(i);
            }
            i = i + 1;
        }
        None
    }

    /// Whether a connection is that of a ready slot.
    pub fn validate_connection(&self, conn: usize) -> (valid: bool)
        ensures
            valid == some_ready_slot_has(self.slots@, conn),
    {
        if conn == 0 {
            return false;
        }
        let mut i: usize = 0;
        while i < self.slots.len()
            invariant
                conn != 0,
                i <= self.slots@.len(),
                forall|k: int|
                    0 <= k < i ==> !(#[trigger] slot_has(self.slots@, k, conn)
                        && self.slots@[k].state == SLOT_READY),
            decreases self.slots@.len() - i,
        {
            if self.slots[i].conn == conn && self.slots[i].state == SLOT_READY {
                assert(slot_has(self.slots@, i as int, conn));
                return true;
            }
            i = i + 1;
        }
        false
    }

    /// Ends the streaming of a connection that some slot has, whatever the
    /// slot's state. Returns whether some slot has it.
    pub fn clear_streaming_active(&self, conns: &mut ConnTable, conn: usize) -> (cleared: bool)
        requires
            some_slot_has(self.slots@, conn) ==> old(conns)@.contains_key(conn),
        ensures
            cleared == some_slot_has(self.slots@, conn),
            final(conns)@ == (if cleared {
                old(conns)@.insert(
                    conn,
                    PgConnection { streaming_active: 0, ..old(conns)@[conn] },
                )
            } else {
                old(conns)@
            }),
    {
        if conn == 0 {
            return false;
        }
        match self.find_slot(conn) {
            Some(i) => {
                assert(slot_has(self.slots@, i as int, conn));
                let mut c = conns.take(conn);
                c.streaming_active = 0;
                conns.put_back(conn, c);
                assert(conns@ =~= old(conns)@.insert(
                    conn,
                    PgConnection { streaming_active: 0, ..old(conns)@[conn] },
                ));
                true
            },
            None => false,
        }
    }

    /// Records a connection that the pool has opened.
    pub fn note_live_pool_connection(&mut self, conn: usize)
        ensures
            final(self).live_connections@ == old(self).live_connections@.insert(conn),
            *final(self) == (PoolManager {
                live_connections: final(self).live_connections,
                ..*old(self)
            }),
    {
        self.live_connections.insert(conn);
    }

    /// Forgets a connection that the pool has given up.
    pub fn forget_live_pool_connection(&mut self, conn: usize)
        ensures
            final(self).live_connections@ == old(self).live_connections@.remove(conn),
            *final(self) == (PoolManager {
                live_connections: final(self).live_connections,
                ..*old(self)
            }),
    {
        self.live_connections.remove(&conn);
    }

    /// Whether the pool opened this connection and has not given it up.
    pub fn is_live_pool_connection(&self, conn: usize) -> (live: bool)
        ensures
            live == self.live_connections@.contains(conn),
    {
        self.live_connections.contains(&conn)
    }

    /// Whether the connection is known: the pool's own, or one that a database
    /// handle was given.
    pub fn is_tracked_connection(&self, conn: usize) -> (known: bool)
        ensures
            known == (self.live_connections@.contains(conn) || self.registry@.values().contains(
                conn,
            )),
    {
        self.is_live_pool_connection(conn) || self.registry.contains_conn(conn)
    }

    /// Records that a connection was used at `now`, in the first slot that has
    /// it. A connection that no slot has changes nothing.
    pub fn touch_connection(&mut self, conn: usize, now: i64)
        ensures
            final(self).slots@.len() == old(self).slots@.len(),
            forall|i: int|
                0 <= i < old(self).slots@.len() ==> #[trigger] final(self).slots@[i] == (if conn
                    != 0 && first_slot_with(old(self).slots@, conn, i) {
                    PoolSlot { last_used: now, ..old(self).slots@[i] }
                } else {
                    old(self).slots@[i]
                }),
            *final(self) == (PoolManager { slots: final(self).slots, ..*old(self) }),
    {
        if conn == 0 {
            return;
        }
        match self.find_slot(conn) {
            Some(i) => {
                self.slots[i].last_used = now;
            },
            None => {},
        }
    }

    /// Whether a database handle still holds a slot.
    pub fn slot_is_referenced(&self, slot_index: usize) -> (referenced: bool)
        ensures
            referenced == (pg_client_registry::handles_on(self.db_to_pool@, slot_index).len() > 0),
    {
        self.db_to_pool.references(slot_index) > 0
    }
}

/// Whether it is time to look for idle connections: a matter of time alone,
/// not of whether a thread needs a slot.
pub fn maintenance_due(pm: &PoolManager, now: i64) -> (due: bool)
    ensures
        due == (now - pm.last_reap_time >= REAP_INTERVAL_SECS),
{
    now as i128 - pm.last_reap_time as i128 >= REAP_INTERVAL_SECS as i128
}

/// A connection that has been given up: it says of itself that it cannot be
/// used, and has no libpq handle.
pub open spec fn retired(c: PgConnection) -> PgConnection {
    PgConnection { is_pg_active: 0, conn: 0, ..c }
}

/// Retires a connection of the pool. The connection stays allocated for those
/// who still point at it. Returns the libpq handle that is to be closed, zero
/// for none.
pub fn destroy_pool_connection(conns: &mut ConnTable, conn: usize) -> (closing: usize)
    requires
        ffi_types::valid_handle(old(conns)@, conn),
    ensures
        conn == 0 ==> closing == 0 && final(conns)@ == old(conns)@,
        conn != 0 ==> {
            &&& closing == old(conns)@[conn].conn
            &&& final(conns)@ == old(conns)@.insert(conn, retired(old(conns)@[conn]))
        },
{
    if conn == 0 {
        return 0;
    }
    let mut c = conns.take(conn);
    let closing = c.conn;
    c.is_pg_active = 0;
    c.conn = 0;
    conns.put_back(conn, c);
    assert(conns@ =~= old(conns)@.insert(conn, retired(old(conns)@[conn])));
    closing
}

/// Retiring a connection twice is retiring it once: the second time there is
/// no handle to close and nothing changes.
pub proof fn law_retiring_is_idempotent(c: PgConnection)
    ensures
        retired(retired(c)) == retired(c),
        retired(c).conn == 0,
        retired(c).ref_count == c.ref_count,
{
}

} // verus!
