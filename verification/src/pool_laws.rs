//! What holds of the pool and its slots whenever their methods are called, one
//! after the other.

use vstd::prelude::*;

use crate::ffi_types;
use crate::ffi_types::{ConnTable, PgConnection};
use crate::pg_client_registry;
use crate::pg_client_registry::{ConnectionRegistry, DbToPool};
use crate::pool;
use crate::pool::{
    destroy_pool_connection, maintenance_due, PoolManager, PoolSlot, SLOT_ERROR, SLOT_FREE,
    SLOT_READY, SLOT_RECONNECTING, SLOT_RESERVED,
};
use crate::pool_shrink;

verus! {

/// The two slots differ in their state alone.
pub open spec fn same_but_state(a: PoolSlot, b: PoolSlot) -> bool {
    &&& a.conn == b.conn
    &&& a.owner_thread == b.owner_thread
    &&& a.generation == b.generation
    &&& a.last_used == b.last_used
}

/// A slot is in one of five states, and no two of them are one.
pub proof fn law_states_of_a_slot_differ()
    ensures
        seq![SLOT_FREE, SLOT_RESERVED, SLOT_READY, SLOT_RECONNECTING, SLOT_ERROR].no_duplicates(),
{
    let all = seq![SLOT_FREE, SLOT_RESERVED, SLOT_READY, SLOT_RECONNECTING, SLOT_ERROR];
    assert(all[0] == 0 && all[1] == 1 && all[2] == 2 && all[3] == 3 && all[4] == 4);
}

/// A new slot can be claimed: it is free, and has no connection and no owner.
pub proof fn law_new_slot_can_be_claimed(new: PoolSlot, slot: &mut PoolSlot, claimed: bool)
    requires
        call_ensures(PoolSlot::new, (), new),
        *old(slot) == new,
        call_ensures(PoolSlot::try_claim_free, (slot,), claimed),
    ensures
        claimed,
        new.conn == 0,
        new.owner_thread == 0,
        final(slot).state == SLOT_RESERVED,
        same_but_state(*final(slot), new),
{
}

/// A slot that was given back is nobody's, keeps its connection and can be
/// claimed.
pub proof fn law_slot_given_back_can_be_claimed(
    slot: &mut PoolSlot,
    next: &mut PoolSlot,
    claimed: bool,
)
    requires
        call_ensures(PoolSlot::release, (slot,), ()),
        *old(next) == *final(slot),
        call_ensures(PoolSlot::try_claim_free, (next,), claimed),
    ensures
        claimed,
        final(slot).state == SLOT_FREE,
        final(slot).owner_thread == 0,
        final(slot).conn == old(slot).conn,
        final(slot).generation == old(slot).generation,
        final(slot).last_used == old(slot).last_used,
        final(next).state == SLOT_RESERVED,
        same_but_state(*final(next), *final(slot)),
{
}

/// A slot that is claimed cannot be claimed again, in either way, and a claim
/// that fails changes nothing.
pub proof fn law_claimed_slot_is_taken(
    slot: &mut PoolSlot,
    claimed: bool,
    next: &mut PoolSlot,
    again: bool,
    other: &mut PoolSlot,
    expected: usize,
    once_more: bool,
)
    requires
        call_ensures(PoolSlot::try_claim_free, (slot,), claimed),
        *old(next) == *final(slot),
        call_ensures(PoolSlot::try_claim_free, (next,), again),
        *old(other) == *final(slot),
        call_ensures(PoolSlot::try_claim_free_with_conn, (other, expected), once_more),
    ensures
        claimed <==> old(slot).state == SLOT_FREE,
        !claimed ==> *final(slot) == *old(slot),
        claimed ==> !again && !once_more,
        !again ==> *final(next) == *old(next),
        !once_more ==> *final(other) == *old(other),
{
}

/// A claim for a connection wins exactly where the slot is free and still has
/// that connection; it changes the state and nothing else, or nothing at all.
pub proof fn law_claim_for_a_connection_sees_that_one(
    slot: &mut PoolSlot,
    expected: usize,
    claimed: bool,
)
    requires
        call_ensures(PoolSlot::try_claim_free_with_conn, (slot, expected), claimed),
    ensures
        claimed <==> old(slot).state == SLOT_FREE && old(slot).conn == expected,
        claimed ==> final(slot).state == SLOT_RESERVED,
        same_but_state(*final(slot), *old(slot)),
        !claimed ==> final(slot).state == old(slot).state,
{
}

/// A slot that is ready can be opened again, once; and one whose connection
/// could not be opened can be claimed, once.
pub proof fn law_slot_is_reopened_once(
    ready: &mut PoolSlot,
    reopening: &mut PoolSlot,
    begun: bool,
    reopened: &mut PoolSlot,
    again: bool,
    failed: &mut PoolSlot,
    claiming: &mut PoolSlot,
    claimed: bool,
    waiting: &mut PoolSlot,
    once_more: bool,
)
    requires
        call_ensures(PoolSlot::mark_ready, (ready,), ()),
        *old(reopening) == *final(ready),
        call_ensures(PoolSlot::try_begin_reconnect, (reopening,), begun),
        *old(reopened) == *final(reopening),
        call_ensures(PoolSlot::try_begin_reconnect, (reopened,), again),
        call_ensures(PoolSlot::mark_error, (failed,), ()),
        *old(claiming) == *final(failed),
        call_ensures(PoolSlot::try_reclaim_error, (claiming,), claimed),
        *old(waiting) == *final(claiming),
        call_ensures(PoolSlot::try_reclaim_error, (waiting,), once_more),
    ensures
        begun && !again,
        claimed && !once_more,
        final(ready).state == SLOT_READY,
        final(reopening).state == SLOT_RECONNECTING,
        final(failed).state == SLOT_ERROR,
        final(claiming).state == SLOT_RESERVED,
        same_but_state(*final(ready), *old(ready)),
        same_but_state(*final(reopening), *old(ready)),
        *final(reopened) == *old(reopened),
        same_but_state(*final(failed), *old(failed)),
        same_but_state(*final(claiming), *old(failed)),
        *final(waiting) == *old(waiting),
{
}

/// A slot that its thread has abandoned is freed with its connection, if it is
/// ready, and can be claimed.
pub proof fn law_abandoned_slot_is_freed(
    slot: &mut PoolSlot,
    freed: bool,
    next: &mut PoolSlot,
    claimed: bool,
)
    requires
        call_ensures(PoolSlot::try_reclaim_zombie, (slot,), freed),
        *old(next) == *final(slot),
        call_ensures(PoolSlot::try_claim_free_with_conn, (next, old(slot).conn), claimed),
    ensures
        freed <==> old(slot).state == SLOT_READY,
        freed ==> claimed,
        !freed ==> *final(slot) == *old(slot),
        same_but_state(*final(slot), *old(slot)),
{
}

/// The pool knows a connection as its own from when it notes it until it forgets
/// it, and nothing else of the pool changes; other connections are not
/// concerned.
pub proof fn law_live_connections_are_remembered(
    pm: &mut PoolManager,
    noted: &PoolManager,
    forgetting: &mut PoolManager,
    forgotten: &PoolManager,
    conn: usize,
    other: usize,
    live: bool,
    other_live: bool,
    still_live: bool,
)
    requires
        call_ensures(PoolManager::note_live_pool_connection, (pm, conn), ()),
        *noted == *final(pm),
        call_ensures(PoolManager::is_live_pool_connection, (noted, conn), live),
        call_ensures(PoolManager::is_live_pool_connection, (noted, other), other_live),
        *old(forgetting) == *final(pm),
        call_ensures(PoolManager::forget_live_pool_connection, (forgetting, conn), ()),
        *forgotten == *final(forgetting),
        call_ensures(PoolManager::is_live_pool_connection, (forgotten, conn), still_live),
    ensures
        live,
        !still_live,
        other != conn ==> other_live == old(pm).live_connections@.contains(other),
        final(pm).slots == old(pm).slots,
        final(pm).registry == old(pm).registry,
        final(pm).db_to_pool == old(pm).db_to_pool,
        final(forgetting).slots == old(pm).slots,
{
}

/// A connection is known if the pool opened it or a database handle was given
/// it; one that was just registered is.
pub proof fn law_registered_connection_is_known(
    registry: &mut ConnectionRegistry,
    pm: &PoolManager,
    db: usize,
    conn: usize,
    known: bool,
)
    requires
        call_ensures(ConnectionRegistry::register, (registry, db, conn), ()),
        pm.registry == *final(registry),
        call_ensures(PoolManager::is_tracked_connection, (pm, conn), known),
    ensures
        known,
{
    assert(pm.registry@.contains_key(db));
    assert(pm.registry@[db] == conn);
}

/// A connection is valid exactly while some slot has it and is ready, and null
/// never is.
pub proof fn law_valid_connection_has_a_ready_slot(pm: &PoolManager, conn: usize, i: int, valid: bool)
    requires
        call_ensures(PoolManager::validate_connection, (pm, conn), valid),
    ensures
        conn == 0 ==> !valid,
        conn != 0 && 0 <= i < pm.slots@.len() && pm.slots@[i].conn == conn && pm.slots@[i].state
            == SLOT_READY ==> valid,
        (forall|k: int|
            0 <= k < pm.slots@.len() && pm.slots@[k].conn == conn ==> (#[trigger]
            pm.slots@[k]).state != SLOT_READY) ==> !valid,
{
    if conn != 0 && 0 <= i < pm.slots@.len() && pm.slots@[i].conn == conn && pm.slots@[i].state
        == SLOT_READY {
        assert(pool::slot_has(pm.slots@, i, conn));
        assert(pool::some_ready_slot_has(pm.slots@, conn));
    }
}

/// Using a connection counts for the slot that has it, and for no other: from
/// then on it was last used at that time, and nothing else changes.
pub proof fn law_use_of_a_connection_is_recorded(
    pm: &mut PoolManager,
    conn: usize,
    now: i64,
    i: int,
    k: int,
)
    requires
        call_ensures(PoolManager::touch_connection, (pm, conn, now), ()),
        conn != 0,
        0 <= i < old(pm).slots@.len(),
        old(pm).slots@[i].conn == conn,
        forall|j: int| 0 <= j < i ==> (#[trigger] old(pm).slots@[j]).conn != conn,
        0 <= k < old(pm).slots@.len(),
        k != i,
    ensures
        final(pm).slots@.len() == old(pm).slots@.len(),
        final(pm).slots@[i].last_used == now,
        final(pm).slots@[i].state == old(pm).slots@[i].state,
        same_but_state(
            PoolSlot { last_used: old(pm).slots@[i].last_used, ..final(pm).slots@[i] },
            old(pm).slots@[i],
        ),
        final(pm).slots@[k] == old(pm).slots@[k],
        final(pm).live_connections == old(pm).live_connections,
        final(pm).last_reap_time == old(pm).last_reap_time,
{
    let slots = old(pm).slots@;
    assert(pool::slot_has(slots, i, conn));
    assert forall|j: int| #[trigger] pool::slot_has(slots, j, conn) implies i <= j by {
        if j < i {
            assert(slots[j].conn != conn);
        }
    }
    assert(pool::first_slot_with(slots, conn, i));
    assert(!pool::first_slot_with(slots, conn, k)) by {
        if pool::first_slot_with(slots, conn, k) {
            assert(k <= i);
            assert(i <= k);
        }
    }
    assert(final(pm).slots@[i].last_used == now);
}

/// A connection that no slot has, and null, are used without a trace.
pub proof fn law_use_of_a_strange_connection_changes_nothing(
    pm: &mut PoolManager,
    conn: usize,
    now: i64,
)
    requires
        call_ensures(PoolManager::touch_connection, (pm, conn, now), ()),
        conn == 0 || forall|i: int|
            0 <= i < old(pm).slots@.len() ==> (#[trigger] old(pm).slots@[i]).conn != conn,
    ensures
        final(pm).slots@ == old(pm).slots@,
{
    let slots = old(pm).slots@;
    assert forall|i: int| 0 <= i < slots.len() implies final(pm).slots@[i] == slots[i] by {
        assert(!(conn != 0 && pool::first_slot_with(slots, conn, i)));
    }
    assert(final(pm).slots@ =~= slots);
}

/// The streaming of a connection that a slot has is ended, whatever the slot's
/// state, and nothing else of any connection changes; a connection that no slot
/// has is left alone.
pub proof fn law_streaming_is_ended(
    pm: &PoolManager,
    conns: &mut ConnTable,
    conn: usize,
    other: usize,
    cleared: bool,
    i: int,
)
    requires
        call_ensures(PoolManager::clear_streaming_active, (pm, conns, conn), cleared),
    ensures
        conn != 0 && 0 <= i < pm.slots@.len() && pm.slots@[i].conn == conn ==> {
            &&& cleared
            &&& final(conns)@.contains_key(conn)
            &&& final(conns)@[conn].streaming_active == 0
            &&& (PgConnection {
                streaming_active: old(conns)@[conn].streaming_active,
                ..final(conns)@[conn]
            }) == old(conns)@[conn]
        },
        other != conn ==> final(conns)@.contains_key(other) == old(conns)@.contains_key(other)
            && final(conns)@[other] == old(conns)@[other],
        conn == 0 || (forall|k: int|
            0 <= k < pm.slots@.len() ==> (#[trigger] pm.slots@[k]).conn != conn) ==> !cleared
            && final(conns)@ == old(conns)@,
{
    if conn != 0 && 0 <= i < pm.slots@.len() && pm.slots@[i].conn == conn {
        assert(pool::slot_has(pm.slots@, i, conn));
    }
    if forall|k: int| 0 <= k < pm.slots@.len() ==> (#[trigger] pm.slots@[k]).conn != conn {
        assert forall|k: int| !pool::slot_has(pm.slots@, k, conn) by {
            if 0 <= k < pm.slots@.len() {
                assert(pm.slots@[k].conn != conn);
            }
        }
    }
}

/// A connection that is given up stays allocated, has no libpq handle and says
/// that it cannot be used; its last error and its count stay. Its handle is to be
/// closed, once: giving it up again closes nothing and changes nothing.
pub proof fn law_connection_is_closed_once(
    conns: &mut ConnTable,
    after: &mut ConnTable,
    conn: usize,
    other: usize,
    closing: usize,
    again: usize,
)
    requires
        conn != 0,
        old(conns)@.contains_key(conn),
        call_ensures(destroy_pool_connection, (conns, conn), closing),
        *old(after) == *final(conns),
        call_ensures(destroy_pool_connection, (after, conn), again),
    ensures
        closing == old(conns)@[conn].conn,
        final(conns)@.contains_key(conn),
        final(conns)@[conn].conn == 0,
        final(conns)@[conn].is_pg_active == 0,
        (PgConnection {
            conn: old(conns)@[conn].conn,
            is_pg_active: old(conns)@[conn].is_pg_active,
            ..final(conns)@[conn]
        }) == old(conns)@[conn],
        other != conn ==> final(conns)@.contains_key(other) == old(conns)@.contains_key(other)
            && final(conns)@[other] == old(conns)@[other],
        again == 0,
        final(after)@ == final(conns)@,
        !pool_shrink::usable(final(conns)@[conn]),
{
    assert(final(after)@ =~= final(conns)@);
}

/// A new pool has as many slots as it may grow to, each of them free and empty;
/// it knows no connection and no handle, and a connection may go unused for five
/// minutes.
pub proof fn law_new_pool_is_empty(size: usize, max: usize, pm: PoolManager, i: int)
    requires
        call_ensures(PoolManager::new, (size, max), pm),
        0 <= i < max,
    ensures
        pm.slots@.len() == max,
        pm.slots@[i].state == SLOT_FREE,
        pm.slots@[i].conn == 0,
        pm.slots@[i].owner_thread == 0,
        pm.configured_size == size,
        pm.live_connections@.len() == 0,
        pm.idle_timeout_secs == 300,
        forall|conns: Map<usize, PgConnection>| #[trigger]
            pool_shrink::slots_hold_apart(pm.slots@, conns),
{
}

/// Maintenance is due a minute after the last, and not before.
pub proof fn law_maintenance_is_due_each_minute(pm: &PoolManager, now: i64, due: bool)
    requires
        call_ensures(maintenance_due, (pm, now), due),
    ensures
        due <==> now - pm.last_reap_time >= 60,
        due <==> pool_shrink::is_due(*pm, now),
{
}

/// A slot is referenced exactly as long as some database handle was assigned to
/// it and not released.
pub proof fn law_slot_is_referenced_until_released(
    assigning: &mut DbToPool,
    releasing: &mut DbToPool,
    before: &PoolManager,
    after: &PoolManager,
    db: usize,
    slot: usize,
    held: Option<usize>,
    referenced: bool,
    still: bool,
)
    requires
        forall|h: usize|
            old(assigning)@.contains_key(h) ==> #[trigger] old(assigning)@[h] != slot,
        call_ensures(DbToPool::assign, (assigning, db, slot), ()),
        before.db_to_pool == *final(assigning),
        call_ensures(PoolManager::slot_is_referenced, (before, slot), referenced),
        *old(releasing) == *final(assigning),
        call_ensures(DbToPool::release, (releasing, db), held),
        after.db_to_pool == *final(releasing),
        call_ensures(PoolManager::slot_is_referenced, (after, slot), still),
    ensures
        referenced,
        held == Some(slot),
        !still,
{
    pg_client_registry::law_referenced_iff_held(before.db_to_pool@, slot);
    pg_client_registry::law_referenced_iff_held(after.db_to_pool@, slot);
    assert(before.db_to_pool@.contains_key(db) && before.db_to_pool@[db] == slot);
}

/// What is reaped is what went unused for too long: a connection that was used
/// within the timeout keeps its slot, whoever calls.
pub proof fn law_reaping_spares_recent_connections(
    pm: &mut PoolManager,
    conns: &mut ConnTable,
    now: i64,
    handles: Vec<usize>,
    i: int,
)
    requires
        pool_shrink::slots_hold_apart(old(pm).slots@, old(conns)@),
        call_ensures(PoolManager::reap_idle, (pm, conns, now), handles),
        0 <= i < old(pm).slots@.len(),
        now - old(pm).slots@[i].last_used <= old(pm).idle_timeout_secs,
    ensures
        final(pm).slots@[i] == old(pm).slots@[i],
        old(pm).slots@[i].conn != 0 ==> {
            let c = old(pm).slots@[i].conn;
            &&& final(conns)@.contains_key(c)
            &&& final(conns)@[c] == old(conns)@[c]
            &&& (forall|d: usize| d != c && old(conns)@.contains_key(d) ==> #[trigger]
                old(conns)@[d].conn != old(conns)@[c].conn) ==> !handles@.contains(
                old(conns)@[c].conn,
            )
        },
{
    pool_shrink::law_reaping_within_the_timeout(*old(pm), old(conns)@, now, i);
}

/// The same holds of maintenance.
pub proof fn law_maintenance_spares_recent_connections(
    pm: &mut PoolManager,
    conns: &mut ConnTable,
    now: i64,
    handles: Vec<usize>,
    i: int,
)
    requires
        pool_shrink::slots_hold_apart(old(pm).slots@, old(conns)@),
        call_ensures(PoolManager::maintain, (pm, conns, now), handles),
        0 <= i < old(pm).slots@.len(),
        now - old(pm).slots@[i].last_used <= old(pm).idle_timeout_secs,
    ensures
        final(pm).slots@[i] == old(pm).slots@[i],
        old(pm).slots@[i].conn != 0 ==> {
            let c = old(pm).slots@[i].conn;
            &&& final(conns)@.contains_key(c)
            &&& final(conns)@[c] == old(conns)@[c]
            &&& (forall|d: usize| d != c && old(conns)@.contains_key(d) ==> #[trigger]
                old(conns)@[d].conn != old(conns)@[c].conn) ==> !handles@.contains(
                old(conns)@[c].conn,
            )
        },
{
    pool_shrink::law_connection_within_the_timeout_is_kept(
        *old(pm),
        *final(pm),
        old(conns)@,
        now,
        i,
    );
}

/// A thread that has a usable connection is handed it and no other, if libpq
/// finds it in order; the connection is as it was, and was used now.
pub proof fn law_thread_is_handed_its_own(
    pm: &mut PoolManager,
    conns: &mut ConnTable,
    thread: u64,
    status_ok: bool,
    now: i64,
    acquired: (Option<usize>, Vec<usize>),
    i: int,
)
    requires
        pool_shrink::slots_hold_apart(old(pm).slots@, old(conns)@),
        call_ensures(PoolManager::acquire_own, (pm, conns, thread, status_ok, now), acquired),
        0 <= i < old(pm).slots@.len(),
        old(pm).slots@[i].owner_thread == thread,
        old(pm).slots@[i].state == SLOT_READY,
        old(pm).slots@[i].conn != 0,
        old(conns)@[old(pm).slots@[i].conn].is_pg_active != 0,
        old(conns)@[old(pm).slots@[i].conn].conn != 0,
        old(conns)@[old(pm).slots@[i].conn].streaming_active == 0,
        forall|k: int|
            0 <= k < i ==> (#[trigger] old(pm).slots@[k]).owner_thread != thread,
    ensures
        status_ok ==> {
            &&& acquired.0 == Some(old(pm).slots@[i].conn)
            &&& final(conns)@.contains_key(old(pm).slots@[i].conn)
            &&& final(conns)@[old(pm).slots@[i].conn] == old(conns)@[old(pm).slots@[i].conn]
            &&& final(pm).slots@[i].last_used == now
            &&& final(pm).slots@[i].conn == old(pm).slots@[i].conn
            &&& final(pm).slots@[i].state == SLOT_READY
            &&& final(pm).slots@[i].owner_thread == thread
        },
        !status_ok ==> acquired.0 is None,
{
    let slots = old(pm).slots@;
    let table = old(conns)@;
    assert(pool_shrink::is_own(slots, table, thread, i));
    assert forall|k: int| #[trigger] pool_shrink::is_own(slots, table, thread, k) implies i
        <= k by {
        if k < i {
            assert(slots[k].owner_thread != thread);
        }
    }
    assert(pool_shrink::is_first_own(slots, table, thread, i));
}

/// The connection that a thread is said to have is that of the first of its ready
/// slots whose connection is open and free of streams; without such a slot it is
/// said to have none.
pub proof fn law_own_connection_is_found(
    pm: &PoolManager,
    conns: &ConnTable,
    thread: u64,
    conn: Option<usize>,
    i: int,
)
    requires
        pool_shrink::slots_hold_apart(pm.slots@, conns@),
        call_ensures(PoolManager::own_connection, (pm, conns, thread), conn),
        0 <= i < pm.slots@.len(),
    ensures
        pm.slots@[i].owner_thread == thread && pm.slots@[i].state == SLOT_READY
            && pm.slots@[i].conn != 0 && conns@[pm.slots@[i].conn].is_pg_active != 0
            && conns@[pm.slots@[i].conn].conn != 0 && conns@[pm.slots@[i].conn].streaming_active
            == 0 && (forall|k: int|
            0 <= k < i ==> (#[trigger] pm.slots@[k]).owner_thread != thread) ==> conn == Some(
            pm.slots@[i].conn,
        ),
        (forall|k: int|
            0 <= k < pm.slots@.len() ==> (#[trigger] pm.slots@[k]).owner_thread != thread)
            ==> conn is None,
{
    let slots = pm.slots@;
    let table = conns@;
    if forall|k: int| 0 <= k < i ==> (#[trigger] slots[k]).owner_thread != thread {
        assert forall|k: int| #[trigger] pool_shrink::is_own(slots, table, thread, k) implies i
            <= k by {
            if k < i {
                assert(slots[k].owner_thread != thread);
            }
        }
        if pool_shrink::is_own(slots, table, thread, i) {
            assert(pool_shrink::is_first_own(slots, table, thread, i));
            assert(conn is Some);
            let k = choose|k: int| #[trigger]
                pool_shrink::is_first_own(slots, table, thread, k) && slots[k].conn == conn->0;
            assert(k == i);
        }
    }
    if forall|k: int| 0 <= k < slots.len() ==> (#[trigger] slots[k]).owner_thread != thread {
        assert forall|k: int| !pool_shrink::is_own(slots, table, thread, k) by {
            if 0 <= k < slots.len() {
                assert(slots[k].owner_thread != thread);
            }
        }
    }
}

/// A pool has the size that it was set up with, whatever it may grow to.
pub proof fn law_pool_has_its_size(size: usize, max: usize, pm: &PoolManager, is: usize)
    requires
        call_ensures(PoolManager::new, (size, max), *pm),
        call_ensures(PoolManager::pool_size, (pm,), is),
    ensures
        is == size,
{
}

/// A registry that was cleared finds nothing, and neither does the list of slots.
pub proof fn law_cleared_registry_finds_nothing(
    registry: &mut ConnectionRegistry,
    cleared: &ConnectionRegistry,
    holds: &mut DbToPool,
    released: &DbToPool,
    db: usize,
    found: Option<usize>,
    n: usize,
    held: Option<usize>,
    m: usize,
)
    requires
        call_ensures(ConnectionRegistry::clear, (registry,), ()),
        *cleared == *final(registry),
        call_ensures(ConnectionRegistry::find, (cleared, db), found),
        call_ensures(ConnectionRegistry::len, (cleared,), n),
        call_ensures(DbToPool::clear, (holds,), ()),
        *released == *final(holds),
        call_ensures(DbToPool::find, (released, db), held),
        call_ensures(DbToPool::len, (released,), m),
    ensures
        found is None,
        n == 0,
        held is None,
        m == 0,
{
}

} // verus!
