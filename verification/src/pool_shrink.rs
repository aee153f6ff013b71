//! How the pool gives up connections that nobody uses. It is a matter of time
//! alone: a pool in which every thread has its slot shrinks as well.

use vstd::multiset::Multiset;
use vstd::prelude::*;

use crate::conn_ownership;
use crate::ffi_types;
use crate::ffi_types::{conn_unref, ConnTable, Handles, PgConnection};
use crate::pg_client_registry;
use crate::pool;
use crate::pool::{
    destroy_pool_connection, maintenance_due, PoolManager, PoolSlot, SLOT_FREE, SLOT_READY,
};

verus! {

broadcast use vstd::std_specs::hash::group_hash_axioms;

/// What decides whether a slot is emptied: who refers to the slots, the
/// connections, the time, and how long a connection may go unused.
pub ghost struct Sweep {
    pub refs: Map<usize, usize>,
    pub conns: Map<usize, PgConnection>,
    pub now: int,
    pub timeout: int,
}

/// The sweep of a pool at `now`. A timeout below zero counts as zero.
pub open spec fn sweep_of(pm: PoolManager, conns: Map<usize, PgConnection>, now: i64) -> Sweep {
    Sweep {
        refs: pm.db_to_pool@,
        conns,
        now: now as int,
        timeout: if pm.idle_timeout_secs < 0 {
            0
        } else {
            pm.idle_timeout_secs as int
        },
    }
}

/// Slot `i` is emptied: it has a connection that went unused for longer than
/// it may and that no statement streams from, no thread is about to use or open
/// it, and no database handle refers to the slot.
pub open spec fn is_swept(slots: Seq<PoolSlot>, sweep: Sweep, i: int) -> bool {
    &&& 0 <= i < slots.len()
    &&& slots[i].conn != 0
    &&& sweep.conns[slots[i].conn].streaming_active == 0
    &&& slots[i].state == SLOT_FREE || slots[i].state == SLOT_READY
    &&& sweep.now - slots[i].last_used > sweep.timeout
    &&& pg_client_registry::handles_on(sweep.refs, i as usize).len() == 0
}

/// A slot whose connection was taken away.
pub open spec fn emptied(slot: PoolSlot) -> PoolSlot {
    PoolSlot {
        state: SLOT_FREE,
        conn: 0,
        owner_thread: 0,
        generation: if slot.generation == u32::MAX {
            0
        } else {
            (slot.generation + 1) as u32
        },
        ..slot
    }
}

/// The slots after a sweep.
pub open spec fn swept_slots(slots: Seq<PoolSlot>, sweep: Sweep) -> Seq<PoolSlot> {
    Seq::new(
        slots.len(),
        |i: int|
            if is_swept(slots, sweep, i) {
                emptied(slots[i])
            } else {
                slots[i]
            },
    )
}

/// The connections after the pool gave up `conn`: it is retired, and the
/// pool's reference to it is gone.
pub open spec fn given_up(conns: Map<usize, PgConnection>, conn: usize) -> Map<
    usize,
    PgConnection,
> {
    ffi_types::after_unref(conns.insert(conn, pool::retired(conns[conn])), conn)
}

/// The connections after the first `k` slots were swept.
pub open spec fn swept_conns(
    conns: Map<usize, PgConnection>,
    slots: Seq<PoolSlot>,
    sweep: Sweep,
    k: int,
) -> Map<usize, PgConnection>
    decreases k,
{
    if k <= 0 {
        conns
    } else {
        let before = swept_conns(conns, slots, sweep, k - 1);
        if is_swept(slots, sweep, k - 1) {
            given_up(before, slots[k - 1].conn)
        } else {
            before
        }
    }
}

/// The libpq handles that are to be closed after the first `k` slots were
/// swept.
pub open spec fn closing(
    conns: Map<usize, PgConnection>,
    slots: Seq<PoolSlot>,
    sweep: Sweep,
    k: int,
) -> Seq<usize>
    decreases k,
{
    if k <= 0 {
        Seq::empty()
    } else {
        let before = closing(conns, slots, sweep, k - 1);
        let handle = conns[slots[k - 1].conn].conn;
        if is_swept(slots, sweep, k - 1) && handle != 0 {
            before.push(handle)
        } else {
            before
        }
    }
}

/// A slot that is emptied has the connection `conn`.
pub open spec fn is_given_up(slots: Seq<PoolSlot>, sweep: Sweep, conn: usize, i: int) -> bool {
    is_swept(slots, sweep, i) && slots[i].conn == conn
}

/// Every connection of a slot is allocated, and no two slots have the same.
pub open spec fn slots_hold_apart(slots: Seq<PoolSlot>, conns: Map<usize, PgConnection>) -> bool {
    &&& forall|i: int|
        0 <= i < slots.len() && #[trigger] slots[i].conn != 0 ==> conns.contains_key(slots[i].conn)
    &&& forall|i: int, j: int|
        0 <= i < j < slots.len() && #[trigger] slots[i].conn != 0 ==> slots[i].conn
            != #[trigger] slots[j].conn
}

/// Whether a statement streams from a connection.
fn is_streaming(conns: &ConnTable, conn: usize) -> (b: bool)
    requires
        conns@.contains_key(conn),
    ensures
        b == (conns@[conn].streaming_active != 0),
{
    match conns.get(conn) {
        Some(c) => c.streaming_active != 0,
        None => false,
    }
}

/// Whether a connection can be used: it is open and no statement streams from
/// it.
fn is_usable(conns: &ConnTable, conn: usize) -> (b: bool)
    requires
        conns@.contains_key(conn),
    ensures
        b == usable(conns@[conn]),
{
    match conns.get(conn) {
        Some(c) => c.is_pg_active != 0 && c.conn != 0 && c.streaming_active == 0,
        None => false,
    }
}

impl PoolManager {
    /// Gives up the connections that nobody uses. Returns the libpq handles
    /// that are to be closed.
    pub fn reap_idle(&mut self, conns: &mut ConnTable, now: i64) -> (handles: Vec<usize>)
        requires
            slots_hold_apart(old(self).slots@, old(conns)@),
        ensures
            slots_hold_apart(final(self).slots@, final(conns)@),
            ({
                let sweep = sweep_of(*old(self), old(conns)@, now);
                let slots = old(self).slots@;
                &&& final(self).slots@ == swept_slots(slots, sweep)
                &&& final(conns)@ == swept_conns(old(conns)@, slots, sweep, slots.len() as int)
                &&& handles@ == closing(old(conns)@, slots, sweep, slots.len() as int)
                &&& forall|c: usize| #[trigger]
                    final(self).live_connections@.contains(c) <==> old(
                        self,
                    ).live_connections@.contains(c) && !exists|i: int|
                        is_given_up(slots, sweep, c, i)
            }),
            *final(self) == (PoolManager {
                slots: final(self).slots,
                live_connections: final(self).live_connections,
                ..*old(self)
            }),
    {
        let ghost slots = self.slots@;
        let ghost table = conns@;
        let ghost live = self.live_connections@;
        let ghost sweep = sweep_of(*self, conns@, now);
        let timeout: i128 = if self.idle_timeout_secs < 0 {
            0
        } else {
            self.idle_timeout_secs as i128
        };
        let n = self.slots.len();
        let mut handles: Vec<usize> = Vec::new();
        let mut i: usize = 0;
        while i < n
            invariant
                n == slots.len(),
                i <= n,
                slots == old(self).slots@,
                table == old(conns)@,
                live == old(self).live_connections@,
                sweep == sweep_of(*old(self), old(conns)@, now),
                timeout == sweep.timeout,
                slots_hold_apart(slots, table),
                self.slots@.len() == n,
                forall|k: int|
                    0 <= k < i ==> #[trigger] self.slots@[k] == swept_slots(slots, sweep)[k],
                forall|k: int| i <= k < n ==> #[trigger] self.slots@[k] == slots[k],
                conns@ == swept_conns(table, slots, sweep, i as int),
                forall|k: int|
                    0 <= k < n && #[trigger] slots[k].conn != 0 && (k >= i || !is_swept(
                        slots,
                        sweep,
                        k,
                    )) ==> conns@.contains_key(slots[k].conn) && conns@[slots[k].conn]
                        == table[slots[k].conn],
                handles@ == closing(table, slots, sweep, i as int),
                forall|c: usize| #[trigger]
                    self.live_connections@.contains(c) <==> live.contains(c) && !exists|k: int|
                        k < i && #[trigger] is_given_up(slots, sweep, c, k),
                *self == (PoolManager {
                    slots: self.slots,
                    live_connections: self.live_connections,
                    ..*old(self)
                }),
            decreases n - i,
        {
            let conn = self.slots[i].conn;
            let state = self.slots[i].state;
            let unused = now as i128 - self.slots[i].last_used as i128;
            assert(conn != 0 ==> slots[i as int].conn != 0);
            if conn != 0 && !is_streaming(conns, conn) && (state == SLOT_FREE || state
                == SLOT_READY) && unused > timeout && !self.slot_is_referenced(i) {
                assert(is_swept(slots, sweep, i as int));
                assert(slots[i as int].conn != 0);
                let handle = destroy_pool_connection(conns, conn);
                conn_unref(conns, conn);
                if handle != 0 {
                    handles.push(handle);
                }
                self.forget_live_pool_connection(conn);
                self.slots[i].state = SLOT_FREE;
                self.slots[i].conn = 0;
                self.slots[i].owner_thread = 0;
                self.slots[i].generation = self.slots[i].generation.wrapping_add(1);
                assert(is_given_up(slots, sweep, conn, i as int));
            } else {
                assert(!is_swept(slots, sweep, i as int));
            }
            i = i + 1;
        }
        assert(self.slots@ =~= swept_slots(slots, sweep));
        assert(slots_hold_apart(self.slots@, conns@)) by {
            assert forall|k: int| 0 <= k < n && #[trigger] self.slots@[k].conn
                != 0 implies conns@.contains_key(self.slots@[k].conn) by {
                assert(slots[k].conn != 0);
            }
            assert forall|k: int, j: int|
                0 <= k < j < n && #[trigger] self.slots@[k].conn != 0 implies self.slots@[k].conn
                != #[trigger] self.slots@[j].conn by {
                assert(slots[k].conn != 0);
                assert(slots[k].conn != slots[j].conn);
            }
        }
        handles
    }

    /// The slot in which a thread has a usable connection.
    fn find_own_slot(&self, conns: &ConnTable, thread: u64) -> (slot: Option<usize>)
        requires
            slots_hold_apart(self.slots@, conns@),
        ensures
            match slot {
                Some(i) => is_own(self.slots@, conns@, thread, i as int) && forall|k: int|
                    0 <= k < i ==> !#[trigger] is_own(self.slots@, conns@, thread, k),
                None => forall|k: int| !#[trigger] is_own(self.slots@, conns@, thread, k),
            },
    {
        let n = self.slots.len();
        let mut i: usize = 0;
        while i < n
            invariant
                slots_hold_apart(self.slots@, conns@),
                n == self.slots@.len(),
                i <= n,
                forall|k: int| 0 <= k < i ==> !#[trigger] is_own(self.slots@, conns@, thread, k),
            decreases n - i,
        {
            let conn = self.slots[i].conn;
            assert(conn != 0 ==> self.slots@[i as int].conn != 0);
            if self.slots[i].state == SLOT_READY && conn != 0 && self.slots[i].owner_thread
                == thread && is_usable(conns, conn) {
                return Some(i);
            }
            i = i + 1;
        }
        None
    }

    /// Gives up the connections that nobody uses, if it is time to. Returns the
    /// libpq handles that are to be closed.
    pub fn maintain(&mut self, conns: &mut ConnTable, now: i64) -> (handles: Vec<usize>)
        requires
            slots_hold_apart(old(self).slots@, old(conns)@),
        ensures
            slots_hold_apart(final(self).slots@, final(conns)@),
            is_maintained(*old(self), *final(self), old(conns)@, now),
            handles@ == maintained_handles(*old(self), old(conns)@, now),
            final(conns)@ == maintained_conns(*old(self), old(conns)@, now),
    {
        if !maintenance_due(self, now) {
            return Vec::new();
        }
        let handles = self.reap_idle(conns, now);
        self.last_reap_time = now;
        handles
    }

    /// The connection that a thread has already and that can be used, as far as
    /// the shim knows. Whether libpq finds it in order is for the caller to ask.
    pub fn own_connection(&self, conns: &ConnTable, thread: u64) -> (conn: Option<usize>)
        requires
            slots_hold_apart(self.slots@, conns@),
        ensures
            is_own_connection(self.slots@, conns@, thread, conn),
    {
        match self.find_own_slot(conns, thread) {
            Some(i) => {
                assert(is_first_own(self.slots@, conns@, thread, i as int));
                Some(self.slots[i].conn)
            },
            None => None,
        }
    }

    /// Hands a thread the connection that it has already, if it has one that can
    /// be used, and keeps the pool in shape on the way. `status_ok` says whether
    /// libpq finds the connection of [`PoolManager::own_connection`] in order;
    /// one that it does not is not handed out, and neither is one that a
    /// statement streams from. Returns also the libpq handles that are to be
    /// closed.
    pub fn acquire_own(
        &mut self,
        conns: &mut ConnTable,
        thread: u64,
        status_ok: bool,
        now: i64,
    ) -> (acquired: (Option<usize>, Vec<usize>))
        requires
            slots_hold_apart(old(self).slots@, old(conns)@),
        ensures
            slots_hold_apart(final(self).slots@, final(conns)@),
            exists|between: PoolManager|
                {
                    &&& between.slots@ == with_own_used(
                        *old(self),
                        old(conns)@,
                        thread,
                        status_ok,
                        now,
                    )
                    &&& between == (PoolManager { slots: between.slots, ..*old(self) })
                    &&& #[trigger] is_maintained(between, *final(self), old(conns)@, now)
                    &&& acquired.1@ == maintained_handles(between, old(conns)@, now)
                    &&& final(conns)@ == maintained_conns(between, old(conns)@, now)
                },
            acquired.0 is Some <==> status_ok && exists|i: int|
                is_own(old(self).slots@, old(conns)@, thread, i),
            acquired.0 matches Some(c) ==> {
                &&& exists|i: int|
                    {
                        &&& #[trigger] is_first_own(old(self).slots@, old(conns)@, thread, i)
                        &&& old(self).slots@[i].conn == c
                        &&& final(self).slots@[i] == (PoolSlot {
                            last_used: now,
                            ..old(self).slots@[i]
                        })
                    }
                &&& final(conns)@.contains_key(c)
                &&& final(conns)@[c] == old(conns)@[c]
                &&& usable(final(conns)@[c])
            },
    {
        let ghost slots = self.slots@;
        let own = if status_ok {
            self.find_own_slot(conns, thread)
        } else {
            None
        };
        let found = match own {
            Some(i) => {
                assert(is_first_own(slots, conns@, thread, i as int));
                self.slots[i].last_used = now;
                Some(self.slots[i].conn)
            },
            None => None,
        };
        let ghost between = *self;
        assert(between.slots@ =~= with_own_used(*old(self), old(conns)@, thread, status_ok, now));
        assert(forall|i: int| 0 <= i < slots.len() ==> between.slots@[i].conn == slots[i].conn);
        let handles = self.maintain(conns, now);
        assert(is_maintained(between, *self, old(conns)@, now));
        proof {
            if found is Some {
                let i = own->0 as int;
                let sweep = sweep_of(between, old(conns)@, now);
                let c = slots[i].conn;
                assert(is_first_own(slots, old(conns)@, thread, i));
                assert(between.slots@[i].last_used == now);
                assert(between.slots@[i].conn != 0);
                assert forall|k: int| !is_given_up(between.slots@, sweep, c, k) by {
                    if is_given_up(between.slots@, sweep, c, k) {
                        assert(between.slots@[k].conn != 0);
                    }
                }
                law_sweep_spares_other_connections(
                    old(conns)@,
                    between.slots@,
                    sweep,
                    slots.len() as int,
                    c,
                );
            }
        }
        (found, handles)
    }
}

/// A connection that can be handed out: it is open and no statement streams
/// from it.
pub open spec fn usable(c: PgConnection) -> bool {
    c.is_pg_active != 0 && c.conn != 0 && c.streaming_active == 0
}

/// In slot `i` the thread has a usable connection.
pub open spec fn is_own(
    slots: Seq<PoolSlot>,
    conns: Map<usize, PgConnection>,
    thread: u64,
    i: int,
) -> bool {
    &&& 0 <= i < slots.len()
    &&& slots[i].state == SLOT_READY
    &&& slots[i].conn != 0
    &&& slots[i].owner_thread == thread
    &&& usable(conns[slots[i].conn])
}

/// Slot `i` is the first in which the thread has a usable connection.
pub open spec fn is_first_own(
    slots: Seq<PoolSlot>,
    conns: Map<usize, PgConnection>,
    thread: u64,
    i: int,
) -> bool {
    is_own(slots, conns, thread, i) && forall|k: int| #[trigger]
        is_own(slots, conns, thread, k) ==> i <= k
}

/// `conn` is the connection of the first slot in which the thread has a usable
/// one; nothing where it has none.
pub open spec fn is_own_connection(
    slots: Seq<PoolSlot>,
    conns: Map<usize, PgConnection>,
    thread: u64,
    conn: Option<usize>,
) -> bool {
    match conn {
        Some(c) => exists|i: int| #[trigger]
            is_first_own(slots, conns, thread, i) && slots[i].conn == c,
        None => forall|i: int| !#[trigger] is_own(slots, conns, thread, i),
    }
}

/// The slots, with the thread's own marked as used at `now`, where it is handed
/// out.
pub open spec fn with_own_used(
    pm: PoolManager,
    conns: Map<usize, PgConnection>,
    thread: u64,
    status_ok: bool,
    now: i64,
) -> Seq<PoolSlot> {
    Seq::new(
        pm.slots@.len(),
        |i: int|
            if status_ok && is_first_own(pm.slots@, conns, thread, i) {
                PoolSlot { last_used: now, ..pm.slots@[i] }
            } else {
                pm.slots@[i]
            },
    )
}

/// It is time to look for idle connections.
pub open spec fn is_due(pm: PoolManager, now: i64) -> bool {
    now - pm.last_reap_time >= pool::REAP_INTERVAL_SECS
}

/// What maintenance at `now` makes of the pool.
pub open spec fn is_maintained(
    before: PoolManager,
    after: PoolManager,
    conns: Map<usize, PgConnection>,
    now: i64,
) -> bool {
    if is_due(before, now) {
        let sweep = sweep_of(before, conns, now);
        let slots = before.slots@;
        &&& after.slots@ == swept_slots(slots, sweep)
        &&& forall|c: usize| #[trigger]
            after.live_connections@.contains(c) <==> before.live_connections@.contains(c)
                && !exists|i: int| is_given_up(slots, sweep, c, i)
        &&& after == (PoolManager {
            slots: after.slots,
            live_connections: after.live_connections,
            last_reap_time: now,
            ..before
        })
    } else {
        after == before
    }
}

/// What maintenance at `now` leaves of the connections.
pub open spec fn maintained_conns(
    pm: PoolManager,
    conns: Map<usize, PgConnection>,
    now: i64,
) -> Map<usize, PgConnection> {
    if is_due(pm, now) {
        swept_conns(conns, pm.slots@, sweep_of(pm, conns, now), pm.slots@.len() as int)
    } else {
        conns
    }
}

/// The libpq handles that are to be closed after maintenance at `now`.
pub open spec fn maintained_handles(
    pm: PoolManager,
    conns: Map<usize, PgConnection>,
    now: i64,
) -> Seq<usize> {
    if is_due(pm, now) {
        closing(conns, pm.slots@, sweep_of(pm, conns, now), pm.slots@.len() as int)
    } else {
        Seq::empty()
    }
}

/// A sweep does nothing to a connection that no slot gives up.
pub proof fn law_sweep_spares_other_connections(
    conns: Map<usize, PgConnection>,
    slots: Seq<PoolSlot>,
    sweep: Sweep,
    k: int,
    c: usize,
)
    requires
        forall|i: int| !#[trigger] is_given_up(slots, sweep, c, i),
    ensures
        swept_conns(conns, slots, sweep, k).contains_key(c) == conns.contains_key(c),
        swept_conns(conns, slots, sweep, k)[c] == conns[c],
    decreases k,
{
    if k > 0 {
        law_sweep_spares_other_connections(conns, slots, sweep, k - 1, c);
        assert(!is_given_up(slots, sweep, c, k - 1));
    }
}

/// A slot that a database handle refers to keeps its connection, however long
/// it went unused.
pub proof fn law_referenced_slot_is_kept(slots: Seq<PoolSlot>, sweep: Sweep, db: usize, i: usize)
    requires
        i < slots.len(),
        sweep.refs.contains_key(db),
        sweep.refs[db] == i,
    ensures
        swept_slots(slots, sweep)[i as int] == slots[i as int],
{
    pg_client_registry::law_referenced_iff_held(sweep.refs, i);
}

/// A slot that a thread has just used keeps its connection.
pub proof fn law_slot_in_use_is_kept(slots: Seq<PoolSlot>, sweep: Sweep, i: int)
    requires
        0 <= i < slots.len(),
        slots[i].last_used >= sweep.now,
        sweep.timeout >= 0,
    ensures
        swept_slots(slots, sweep)[i] == slots[i],
{
}

/// A connection that a statement streams from is neither handed out nor given
/// up.
pub proof fn law_stream_is_left_alone(
    slots: Seq<PoolSlot>,
    sweep: Sweep,
    thread: u64,
    i: int,
)
    requires
        0 <= i < slots.len(),
        sweep.conns[slots[i].conn].streaming_active != 0,
    ensures
        !is_own(slots, sweep.conns, thread, i),
        swept_slots(slots, sweep)[i] == slots[i],
{
}

/// Once a sweep is over no slot is left to be swept.
pub proof fn law_sweeping_again_changes_nothing(slots: Seq<PoolSlot>, sweep: Sweep)
    ensures
        swept_slots(swept_slots(slots, sweep), sweep) == swept_slots(slots, sweep),
{
    let once = swept_slots(slots, sweep);
    assert forall|i: int| 0 <= i < slots.len() implies !is_swept(once, sweep, i) by {}
    assert(swept_slots(once, sweep) =~= once);
}

/// A connection that the pool gives up lives on for the statements that still
/// point at it: the counts go on saying who does.
pub proof fn law_giving_up_keeps_counts(
    conns: Map<usize, PgConnection>,
    held: Multiset<usize>,
    stmts: Seq<Handles>,
    conn: usize,
)
    requires
        conn_ownership::counts_agree(conns, held, stmts),
        held.count(conn) > 0,
        conn != 0,
    ensures
        conn_ownership::counts_agree(given_up(conns, conn), held.remove(conn), stmts),
        conn_ownership::holders(held.remove(conn), stmts, conn) > 0 ==> {
            &&& given_up(conns, conn).contains_key(conn)
            &&& given_up(conns, conn)[conn].is_pg_active == 0
            &&& given_up(conns, conn)[conn].conn == 0
        },
{
    conn_ownership::law_pool_unref_keeps_counts(conns, held, stmts, conn);
    let marked = conns.insert(conn, pool::retired(conns[conn]));
    assert(conn_ownership::counts_agree(marked, held, stmts)) by {
        assert forall|c: usize| #[trigger] marked.contains_key(c) implies marked[c].ref_count
            == conn_ownership::holders(held, stmts, c) && marked[c].ref_count >= 1 by {
            assert(conns.contains_key(c));
        }
        assert forall|c: usize|
            c != 0 && #[trigger] conn_ownership::holders(held, stmts, c)
                > 0 implies marked.contains_key(c) by {
            assert(conns.contains_key(c));
        }
    }
    conn_ownership::law_pool_unref_keeps_counts(marked, held, stmts, conn);
}

/// A handle that is to be closed is that of a connection whose slot is emptied.
proof fn lemma_closing(
    conns: Map<usize, PgConnection>,
    slots: Seq<PoolSlot>,
    sweep: Sweep,
    k: int,
    handle: usize,
)
    requires
        0 <= k <= slots.len(),
    ensures
        closing(conns, slots, sweep, k).contains(handle) <==> handle != 0 && exists|j: int|
            0 <= j < k && #[trigger] is_swept(slots, sweep, j) && conns[slots[j].conn].conn
                == handle,
    decreases k,
{
    if k > 0 {
        lemma_closing(conns, slots, sweep, k - 1, handle);
        let before = closing(conns, slots, sweep, k - 1);
        let now = closing(conns, slots, sweep, k);
        let h = conns[slots[k - 1].conn].conn;
        if is_swept(slots, sweep, k - 1) && h != 0 {
            assert(now.last() == h);
            if before.contains(handle) {
                let j = choose|j: int| 0 <= j < before.len() && before[j] == handle;
                assert(now[j] == handle);
            }
            if now.contains(handle) {
                let j = choose|j: int| 0 <= j < now.len() && now[j] == handle;
                assert(j < before.len() ==> before[j] == handle);
            }
        }
    }
}

/// A connection that went unused for no longer than the pool allows is not
/// reaped: its slot and the connection stay as they are, and its libpq handle,
/// which no other connection has, is not among those to be closed.
pub proof fn law_reaping_within_the_timeout(
    pm: PoolManager,
    conns: Map<usize, PgConnection>,
    now: i64,
    i: int,
)
    requires
        slots_hold_apart(pm.slots@, conns),
        0 <= i < pm.slots@.len(),
        now - pm.slots@[i].last_used <= pm.idle_timeout_secs,
    ensures
        swept_slots(pm.slots@, sweep_of(pm, conns, now))[i] == pm.slots@[i],
        pm.slots@[i].conn != 0 ==> {
            let c = pm.slots@[i].conn;
            let sweep = sweep_of(pm, conns, now);
            let n = pm.slots@.len() as int;
            let reaped = swept_conns(conns, pm.slots@, sweep, n);
            &&& reaped.contains_key(c) && reaped[c] == conns[c]
            &&& forall|k: int| !#[trigger] is_given_up(pm.slots@, sweep, c, k)
            &&& (forall|d: usize| d != c && conns.contains_key(d) ==> #[trigger] conns[d].conn
                != conns[c].conn) ==> !closing(conns, pm.slots@, sweep, n).contains(conns[c].conn)
        },
{
    let slots = pm.slots@;
    let sweep = sweep_of(pm, conns, now);
    let c = slots[i].conn;
    assert(!is_swept(slots, sweep, i));
    if c != 0 {
        assert forall|k: int| !#[trigger] is_given_up(slots, sweep, c, k) by {
            if is_given_up(slots, sweep, c, k) {
                assert(slots[k].conn != 0);
                assert(slots[i].conn != 0);
            }
        }
        law_sweep_spares_other_connections(conns, slots, sweep, slots.len() as int, c);
        lemma_closing(conns, slots, sweep, slots.len() as int, conns[c].conn);
        if forall|d: usize| d != c && conns.contains_key(d) ==> #[trigger] conns[d].conn
            != conns[c].conn {
            assert forall|j: int|
                0 <= j < slots.len() && #[trigger] is_swept(
                    slots,
                    sweep,
                    j,
                ) implies conns[slots[j].conn].conn != conns[c].conn by {
                assert(!is_given_up(slots, sweep, c, j));
                assert(slots[j].conn != 0);
            }
        }
    }
}

/// Neither is it given up by maintenance.
pub proof fn law_connection_within_the_timeout_is_kept(
    pm: PoolManager,
    after: PoolManager,
    conns: Map<usize, PgConnection>,
    now: i64,
    i: int,
)
    requires
        slots_hold_apart(pm.slots@, conns),
        0 <= i < pm.slots@.len(),
        now - pm.slots@[i].last_used <= pm.idle_timeout_secs,
        is_maintained(pm, after, conns, now),
    ensures
        after.slots@[i] == pm.slots@[i],
        pm.slots@[i].conn != 0 ==> {
            let c = pm.slots@[i].conn;
            let maintained = maintained_conns(pm, conns, now);
            &&& maintained.contains_key(c) && maintained[c] == conns[c]
            &&& after.live_connections@.contains(c) == pm.live_connections@.contains(c)
            &&& (forall|d: usize| d != c && conns.contains_key(d) ==> #[trigger] conns[d].conn
                != conns[c].conn) ==> !maintained_handles(pm, conns, now).contains(conns[c].conn)
        },
{
    law_reaping_within_the_timeout(pm, conns, now, i);
    if pm.slots@[i].conn != 0 {
        assert(pm.slots@[i].conn != 0 ==> conns.contains_key(pm.slots@[i].conn));
    }
}

/// A connection that went unused for longer than the pool allows, on a slot that
/// no thread is about to use and no handle refers to, and that no statement
/// streams from, is given up when maintenance is due: the slot is free, has no
/// connection and no owner, and what was known of it is out of date; its libpq
/// handle is to be closed; and the connection is gone, or, where statements
/// still point at it, closed and counted once less.
pub proof fn law_connection_beyond_the_timeout_is_given_up(
    pm: PoolManager,
    after: PoolManager,
    conns: Map<usize, PgConnection>,
    now: i64,
    i: usize,
)
    requires
        slots_hold_apart(pm.slots@, conns),
        i < pm.slots@.len(),
        pm.slots@[i as int].conn != 0,
        pm.slots@[i as int].state == SLOT_FREE || pm.slots@[i as int].state == SLOT_READY,
        now - pm.slots@[i as int].last_used > pm.idle_timeout_secs,
        now > pm.slots@[i as int].last_used,
        conns[pm.slots@[i as int].conn].streaming_active == 0,
        forall|db: usize|
            pm.db_to_pool@.contains_key(db) ==> #[trigger] pm.db_to_pool@[db] != i,
        now - pm.last_reap_time >= 60,
        is_maintained(pm, after, conns, now),
    ensures
        after.slots@[i as int].state == SLOT_FREE,
        after.slots@[i as int].conn == 0,
        after.slots@[i as int].owner_thread == 0,
        after.slots@[i as int].last_used == pm.slots@[i as int].last_used,
        after.slots@[i as int].generation != pm.slots@[i as int].generation,
        ({
            let c = pm.slots@[i as int].conn;
            let left = maintained_conns(pm, conns, now);
            &&& !after.live_connections@.contains(c)
            &&& conns[c].conn != 0 ==> maintained_handles(pm, conns, now).contains(conns[c].conn)
            &&& conns[c].ref_count == 1 ==> !left.contains_key(c)
            &&& conns[c].ref_count > 1 ==> {
                &&& left.contains_key(c)
                &&& left[c].is_pg_active == 0
                &&& left[c].conn == 0
                &&& left[c].ref_count == conns[c].ref_count - 1
                &&& left[c].last_error == conns[c].last_error
            }
        }),
        after.last_reap_time == now,
        after.idle_timeout_secs == pm.idle_timeout_secs,
        after.db_to_pool == pm.db_to_pool,
{
    let slots = pm.slots@;
    let sweep = sweep_of(pm, conns, now);
    let n = slots.len() as int;
    let c = slots[i as int].conn;
    if pg_client_registry::handles_on(sweep.refs, i).len() != 0 {
        pg_client_registry::law_referenced_iff_held(sweep.refs, i);
    }
    assert(is_swept(slots, sweep, i as int));
    assert(is_given_up(slots, sweep, c, i as int));
    lemma_closing(conns, slots, sweep, n, conns[c].conn);
    lemma_given_up_once(conns, slots, sweep, n, i as int);
}

/// What is left of the connection of a slot that is emptied, once the sweep is
/// past it.
proof fn lemma_given_up_once(
    conns: Map<usize, PgConnection>,
    slots: Seq<PoolSlot>,
    sweep: Sweep,
    k: int,
    i: int,
)
    requires
        slots_hold_apart(slots, conns),
        0 <= k <= slots.len(),
        is_swept(slots, sweep, i),
    ensures
        ({
            let c = slots[i].conn;
            let left = swept_conns(conns, slots, sweep, k);
            if k <= i {
                left.contains_key(c) && left[c] == conns[c]
            } else {
                &&& left.contains_key(c) == given_up(conns, c).contains_key(c)
                &&& left.contains_key(c) ==> left[c] == given_up(conns, c)[c]
            }
        }),
    decreases k,
{
    let c = slots[i].conn;
    if k > 0 {
        lemma_given_up_once(conns, slots, sweep, k - 1, i);
        let before = swept_conns(conns, slots, sweep, k - 1);
        if k - 1 == i {
            assert(slots[i].conn != 0);
        } else if is_swept(slots, sweep, k - 1) {
            assert(slots[k - 1].conn != 0);
            assert(slots[i].conn != 0);
            assert(slots[k - 1].conn != c);
        }
    } else {
        assert(slots[i].conn != 0);
    }
}

/// Within a minute of the last maintenance nothing is looked at; maintenance
/// that is due looks at every slot, and the next is a minute away.
pub proof fn law_maintenance_waits_a_minute(
    pm: PoolManager,
    after: PoolManager,
    conns: Map<usize, PgConnection>,
    now: i64,
)
    requires
        is_maintained(pm, after, conns, now),
    ensures
        now - pm.last_reap_time < 60 ==> {
            &&& after == pm
            &&& maintained_conns(pm, conns, now) == conns
            &&& maintained_handles(pm, conns, now).len() == 0
        },
        now - pm.last_reap_time >= 60 ==> {
            &&& after.last_reap_time == now
            &&& after.slots@.len() == pm.slots@.len()
        },
        after.db_to_pool == pm.db_to_pool,
        after.idle_timeout_secs == pm.idle_timeout_secs,
{
}

/// A slot keeps its connection or loses it; it never gets another, and neither
/// do other connections lose theirs: a connection that no slot has is left as
/// it is.
pub proof fn law_maintenance_touches_only_slots_connections(
    pm: PoolManager,
    after: PoolManager,
    conns: Map<usize, PgConnection>,
    now: i64,
    c: usize,
)
    requires
        is_maintained(pm, after, conns, now),
        forall|i: int| 0 <= i < pm.slots@.len() ==> #[trigger] pm.slots@[i].conn != c,
    ensures
        maintained_conns(pm, conns, now).contains_key(c) == conns.contains_key(c),
        maintained_conns(pm, conns, now)[c] == conns[c],
        after.live_connections@.contains(c) == pm.live_connections@.contains(c),
        forall|i: int|
            0 <= i < pm.slots@.len() ==> #[trigger] after.slots@[i].conn == 0
                || after.slots@[i] == pm.slots@[i],
{
    let sweep = sweep_of(pm, conns, now);
    law_sweep_spares_other_connections(conns, pm.slots@, sweep, pm.slots@.len() as int, c);
}

/// The connection that a thread is handed is its own: its slot is the thread's
/// and ready, and it is open and free of streams; and being handed it counts as
/// using it, so that it is not given up in the same moment.
pub proof fn law_own_connection_is_the_threads(
    pm: PoolManager,
    conns: Map<usize, PgConnection>,
    thread: u64,
    now: i64,
    i: int,
)
    requires
        is_first_own(pm.slots@, conns, thread, i),
    ensures
        0 <= i < pm.slots@.len(),
        pm.slots@[i].owner_thread == thread,
        pm.slots@[i].state == SLOT_READY,
        pm.slots@[i].conn != 0,
        conns[pm.slots@[i].conn].is_pg_active != 0,
        conns[pm.slots@[i].conn].conn != 0,
        conns[pm.slots@[i].conn].streaming_active == 0,
        forall|k: int|
            #![trigger pm.slots@[k]]
            0 <= k < i ==> !(pm.slots@[k].owner_thread == thread && pm.slots@[k].state
                == SLOT_READY && pm.slots@[k].conn != 0
                && conns[pm.slots@[k].conn].is_pg_active != 0 && conns[pm.slots@[k].conn].conn
                != 0 && conns[pm.slots@[k].conn].streaming_active == 0),
        ({
            let used = with_own_used(pm, conns, thread, true, now);
            &&& used.len() == pm.slots@.len()
            &&& used[i].last_used == now
            &&& PoolSlot { last_used: pm.slots@[i].last_used, ..used[i] } == pm.slots@[i]
            &&& forall|k: int| 0 <= k < used.len() && k != i ==> used[k] == pm.slots@[k]
        }),
        with_own_used(pm, conns, thread, false, now) == pm.slots@,
{
    assert(forall|k: int| 0 <= k < i ==> !#[trigger] is_own(pm.slots@, conns, thread, k));
    assert forall|k: int|
        #![trigger pm.slots@[k]]
        0 <= k < i implies !(pm.slots@[k].owner_thread == thread && pm.slots@[k].state
        == SLOT_READY && pm.slots@[k].conn != 0 && conns[pm.slots@[k].conn].is_pg_active != 0
        && conns[pm.slots@[k].conn].conn != 0 && conns[pm.slots@[k].conn].streaming_active == 0) by {
        assert(!is_own(pm.slots@, conns, thread, k));
    }
    assert(with_own_used(pm, conns, thread, false, now) =~= pm.slots@);
}

/// A thread whose slot is ready, with an open connection that no statement
/// streams from, has one to be handed.
pub proof fn law_ready_slot_is_found(
    pm: PoolManager,
    conns: Map<usize, PgConnection>,
    thread: u64,
    i: int,
)
    requires
        0 <= i < pm.slots@.len(),
        pm.slots@[i].owner_thread == thread,
        pm.slots@[i].state == SLOT_READY,
        pm.slots@[i].conn != 0,
        conns[pm.slots@[i].conn].is_pg_active != 0,
        conns[pm.slots@[i].conn].conn != 0,
        conns[pm.slots@[i].conn].streaming_active == 0,
    ensures
        is_own(pm.slots@, conns, thread, i),
{
}

/// A connection that is in use at this moment is kept, whatever the timeout.
pub proof fn law_connection_used_now_is_kept(
    pm: PoolManager,
    after: PoolManager,
    conns: Map<usize, PgConnection>,
    now: i64,
    i: int,
)
    requires
        0 <= i < pm.slots@.len(),
        now <= pm.slots@[i].last_used,
        is_maintained(pm, after, conns, now),
    ensures
        after.slots@[i] == pm.slots@[i],
        swept_slots(pm.slots@, sweep_of(pm, conns, now))[i] == pm.slots@[i],
{
}

/// A connection that a thread is about to use or open, or that could not be
/// opened, is kept, however long it went unused; and so is one that a database
/// handle's slot has, and one that a statement streams from.
pub proof fn law_busy_connection_is_kept(
    pm: PoolManager,
    after: PoolManager,
    conns: Map<usize, PgConnection>,
    now: i64,
    i: usize,
    db: usize,
)
    requires
        i < pm.slots@.len(),
        is_maintained(pm, after, conns, now),
        pm.slots@[i as int].state != SLOT_FREE && pm.slots@[i as int].state != SLOT_READY
            || pm.db_to_pool@.contains_key(db) && pm.db_to_pool@[db] == i
            || conns[pm.slots@[i as int].conn].streaming_active != 0 || pm.slots@[i as int].conn
            == 0,
    ensures
        after.slots@[i as int] == pm.slots@[i as int],
        swept_slots(pm.slots@, sweep_of(pm, conns, now))[i as int] == pm.slots@[i as int],
{
    let sweep = sweep_of(pm, conns, now);
    if pm.db_to_pool@.contains_key(db) && pm.db_to_pool@[db] == i {
        law_referenced_slot_is_kept(pm.slots@, sweep, db, i);
    }
}

} // verus!
