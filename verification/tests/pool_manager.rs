use plex_pg_core::ffi_types::{conn_ref, conn_refs, ConnTable, PgConnection};
use plex_pg_core::pool::{
    destroy_pool_connection, maintenance_due, PoolManager, SLOT_FREE, SLOT_READY, SLOT_RESERVED,
};

fn fake_pg_connection() -> PgConnection {
    PgConnection {
        conn: 0,
        shadow_db: 0,
        db_path: [0; 1024],
        is_pg_active: 0,
        last_changes: 0,
        last_insert_rowid: 0,
        last_generator_metadata_id: 0,
        last_error: [0; 1024],
        last_error_code: 0,
        streaming_active: 0,
        ref_count: 0,
    }
}

#[test]
fn destroying_a_pool_connection_retires_the_struct_rather_than_freeing_it() {
    // Statements still point at the connection, and the application holds a
    // pointer into its last error. Retiring it keeps those pointers good and
    // says, truthfully, that the connection is not usable.
    let mut conns = ConnTable::new();
    let handle = 0x5000_usize;
    let mut conn = fake_pg_connection();
    conn.is_pg_active = 1;
    conns.insert(handle, conn);

    destroy_pool_connection(&mut conns, handle);

    assert_eq!(
        conns.get(handle).unwrap().is_pg_active,
        0,
        "a retired connection has to report itself unusable"
    );
    assert!(
        conns.get(handle).unwrap().conn == 0,
        "the libpq handle is gone even though the struct remains"
    );

    // Idempotent: the reaper and an error path can both reach the same
    // connection, and the second one must not do anything worse than nothing.
    destroy_pool_connection(&mut conns, handle);
    assert_eq!(conns.get(handle).unwrap().is_pg_active, 0);
}

#[test]
fn pool_manager_creates_slots() {
    let pm = PoolManager::new(10, 64);
    assert_eq!(pm.pool_size(), 10);
    // slots.len() tracks runtime max for auto-grow support
    assert_eq!(pm.slots.len(), 64);
    for slot in &pm.slots {
        assert_eq!(slot.state, SLOT_FREE);
    }
}

#[test]
fn pool_manager_validate_connection_found() {
    let mut pm = PoolManager::new(5, 64);
    let fake_conn = 0xBEEF_usize;
    pm.slots[2].conn = fake_conn;
    pm.slots[2].state = SLOT_READY;
    assert!(pm.validate_connection(fake_conn));
}

#[test]
fn pool_manager_validate_connection_not_found() {
    let pm = PoolManager::new(5, 64);
    let fake_conn = 0xBEEF_usize;
    assert!(!pm.validate_connection(fake_conn));
}

#[test]
fn pool_manager_validate_connection_not_ready() {
    let mut pm = PoolManager::new(5, 64);
    let fake_conn = 0xBEEF_usize;
    pm.slots[2].conn = fake_conn;
    pm.slots[2].state = SLOT_FREE; // not READY
    assert!(!pm.validate_connection(fake_conn));
}

#[test]
fn pool_manager_clear_streaming_active_returns_false_for_unknown_conn() {
    let pm = PoolManager::new(5, 64);
    let mut conns = ConnTable::new();
    assert!(!pm.clear_streaming_active(&mut conns, 0xBEEF_usize));
}

#[test]
fn pool_manager_clear_streaming_active_releases_non_ready_slot() {
    let mut pm = PoolManager::new(5, 64);
    let mut conns = ConnTable::new();
    let fake_conn = 0x5000_usize;
    let mut conn = fake_pg_connection();
    conn.streaming_active = 1;
    conns.insert(fake_conn, conn);
    pm.slots[1].conn = fake_conn;
    pm.slots[1].state = SLOT_RESERVED;

    assert!(pm.clear_streaming_active(&mut conns, fake_conn));
    assert_eq!(conns.get(fake_conn).unwrap().streaming_active, 0);
}

#[test]
fn pool_manager_clear_streaming_active_releases_ready_slot() {
    let mut pm = PoolManager::new(5, 64);
    let mut conns = ConnTable::new();
    let fake_conn = 0x5000_usize;
    let mut conn = fake_pg_connection();
    conn.streaming_active = 1;
    conns.insert(fake_conn, conn);
    pm.slots[2].conn = fake_conn;
    pm.slots[2].state = SLOT_READY;

    assert!(pm.clear_streaming_active(&mut conns, fake_conn));
    assert_eq!(conns.get(fake_conn).unwrap().streaming_active, 0);
}

#[test]
fn pool_manager_clear_streaming_active_null_returns_false() {
    let pm = PoolManager::new(5, 64);
    let mut conns = ConnTable::new();
    assert!(!pm.clear_streaming_active(&mut conns, 0));
}

#[test]
fn pool_manager_live_pool_connection_registry_tracks_membership() {
    let mut pm = PoolManager::new(5, 64);
    let fake_conn = 0xBEEF_usize;
    assert!(!pm.is_live_pool_connection(fake_conn));
    pm.note_live_pool_connection(fake_conn);
    assert!(pm.is_live_pool_connection(fake_conn));
    pm.forget_live_pool_connection(fake_conn);
    assert!(!pm.is_live_pool_connection(fake_conn));
}

#[test]
fn pool_manager_is_live_pool_connection_rejects_unknown_conn() {
    let pm = PoolManager::new(5, 64);
    assert!(!pm.is_live_pool_connection(0xBEEF_usize));
}

#[test]
fn pool_manager_is_tracked_connection_accepts_live_pool_conn() {
    let mut pm = PoolManager::new(5, 64);
    let fake_conn = 0xBEEF_usize;
    pm.note_live_pool_connection(fake_conn);
    assert!(pm.is_tracked_connection(fake_conn));
}

#[test]
fn pool_manager_is_tracked_connection_accepts_registered_conn() {
    let mut pm = PoolManager::new(5, 64);
    let fake_conn = 0xBEEF_usize;
    pm.registry.register(0x100, fake_conn);
    assert!(pm.is_tracked_connection(fake_conn));
}

#[test]
fn pool_manager_is_tracked_connection_rejects_unknown_conn() {
    let pm = PoolManager::new(5, 64);
    assert!(!pm.is_tracked_connection(0xBEEF_usize));
}

#[test]
fn pool_manager_touch_connection() {
    let mut pm = PoolManager::new(5, 64);
    let fake_conn = 0xBEEF_usize;
    pm.slots[1].conn = fake_conn;
    pm.slots[1].last_used = 100;

    pm.touch_connection(fake_conn, 999);
    assert_eq!(pm.slots[1].last_used, 999);
}

#[test]
fn pool_manager_touch_unknown_conn_is_noop() {
    let mut pm = PoolManager::new(5, 64);
    pm.touch_connection(0xBEEF_usize, 999);
    // Should not panic or modify anything
}

#[test]
fn pool_manager_slot_held_by_a_database_handle_is_referenced() {
    // Neither its idle time nor the fate of the thread that opened it says that
    // a slot is abandoned: the application keeps its handles for the life of the
    // process, while the threads that used them come and go.
    let mut pm = PoolManager::new(5, 64);
    assert!(!pm.slot_is_referenced(3));

    pm.db_to_pool.assign(0x100, 3);
    assert!(pm.slot_is_referenced(3), "a handle holds this slot");
    assert!(!pm.slot_is_referenced(4), "and only this slot");

    pm.db_to_pool.release(0x100);
    assert!(
        !pm.slot_is_referenced(3),
        "once Plex closes the handle the slot is genuinely free"
    );
}

#[test]
fn destroying_returns_the_handle_to_close_once() {
    let mut conns = ConnTable::new();
    let mut conn = fake_pg_connection();
    conn.conn = 0x7000;
    conns.insert(0x5000, conn);
    assert_eq!(destroy_pool_connection(&mut conns, 0x5000), 0x7000);
    assert_eq!(destroy_pool_connection(&mut conns, 0x5000), 0);
    assert_eq!(destroy_pool_connection(&mut conns, 0), 0);
}

#[test]
fn touching_marks_the_first_slot_with_the_connection() {
    let mut pm = PoolManager::new(5, 8);
    pm.slots[3].conn = 0xBEEF;
    pm.slots[5].conn = 0xBEEF;
    pm.touch_connection(0xBEEF, 7);
    assert_eq!(pm.slots[3].last_used, 7);
    assert_eq!(pm.slots[5].last_used, 0);
    pm.touch_connection(0, 9);
    assert_eq!(pm.slots[0].last_used, 0);
}

#[test]
fn an_idle_unreferenced_connection_is_destroyed_even_when_no_thread_needs_a_slot() {
    // Maintenance is a matter of time, not of demand: in a pool where every
    // thread has its slot nothing else would ever give a connection up.
    let mut pm = PoolManager::new(3, 64);
    pm.idle_timeout_secs = 300;
    let mut conns = ConnTable::new();
    let now = 1_700_000_000;
    let me = 0x1111;

    // This thread already has a good connection.
    let my_conn = 0x5000;
    let mut conn = fake_pg_connection();
    conn.is_pg_active = 1;
    conn.conn = 0x7000;
    conns.insert(my_conn, conn);
    conn_ref(&mut conns, my_conn);
    pm.slots[0].conn = my_conn;
    pm.slots[0].state = SLOT_READY;
    pm.slots[0].owner_thread = me;
    pm.slots[0].last_used = now;

    // Another thread's connection: no handle refers to it, idle past the
    // timeout, and the minute is up.
    let idle_conn = 0x6000;
    let mut conn = fake_pg_connection();
    conn.is_pg_active = 1;
    conn.conn = 0x8000;
    conns.insert(idle_conn, conn);
    conn_ref(&mut conns, idle_conn);
    pm.slots[1].conn = idle_conn;
    pm.slots[1].state = SLOT_READY;
    pm.slots[1].owner_thread = 0xDEAD_0001;
    pm.slots[1].last_used = now - 400;
    assert!(!pm.slot_is_referenced(1));
    pm.last_reap_time = now - 61;

    let (got, closing) = pm.acquire_own(&mut conns, me, true, now);
    assert_eq!(
        got,
        Some(my_conn),
        "the fast path handed back this thread's own connection"
    );
    assert_eq!(pm.slots[0].state, SLOT_READY);

    assert!(
        pm.slots[1].conn == 0,
        "the idle connection was destroyed although no thread needed a slot"
    );
    assert_eq!(pm.slots[1].state, SLOT_FREE);
    assert_eq!(pm.slots[1].generation, 1);
    assert!(
        pm.last_reap_time >= now,
        "the reaper ran on the fast path"
    );
    assert_eq!(closing, vec![0x8000]);
    assert!(conns.get(idle_conn).is_none());
    assert_eq!(conn_refs(&conns, my_conn), 1);
}

#[test]
fn a_connection_given_up_lives_on_for_its_statements() {
    let mut pm = PoolManager::new(1, 2);
    let mut conns = ConnTable::new();
    conns.insert(0x5000, fake_pg_connection());
    conn_ref(&mut conns, 0x5000);
    conn_ref(&mut conns, 0x5000);
    pm.slots[1].conn = 0x5000;
    pm.note_live_pool_connection(0x5000);
    let closing = pm.reap_idle(&mut conns, 1_000);
    assert_eq!(closing, vec![]);
    assert_eq!(pm.slots[1].conn, 0);
    assert!(!pm.is_live_pool_connection(0x5000));
    assert_eq!(conn_refs(&conns, 0x5000), 1);
    assert_eq!(conns.get(0x5000).unwrap().is_pg_active, 0);
    assert_eq!(pm.reap_idle(&mut conns, 1_000), vec![]);
}

#[test]
fn a_slot_that_is_held_or_in_use_is_kept() {
    let mut pm = PoolManager::new(3, 3);
    let mut conns = ConnTable::new();
    conns.insert(0x5000, fake_pg_connection());
    conns.insert(0x6000, fake_pg_connection());
    conns.insert(0x7000, fake_pg_connection());
    pm.slots[0].conn = 0x5000;
    pm.db_to_pool.assign(0x100, 0);
    pm.slots[1].conn = 0x6000;
    pm.slots[1].last_used = 1_000;
    pm.slots[2].conn = 0x7000;
    pm.slots[2].state = SLOT_RESERVED;
    assert_eq!(pm.maintain(&mut conns, 1_000), vec![]);
    assert_eq!(pm.slots[0].conn, 0x5000);
    assert_eq!(pm.slots[1].conn, 0x6000);
    assert_eq!(pm.slots[2].conn, 0x7000);
    assert_eq!(pm.last_reap_time, 1_000);
    assert_eq!(pm.maintain(&mut conns, 1_059), vec![]);
    assert_eq!(pm.last_reap_time, 1_000);
}

#[test]
fn a_thread_gets_no_connection_that_cannot_be_used() {
    let mut pm = PoolManager::new(1, 2);
    let mut conns = ConnTable::new();
    let mut conn = fake_pg_connection();
    conn.is_pg_active = 1;
    conn.conn = 0x7000;
    conn.streaming_active = 1;
    conns.insert(0x5000, conn);
    conn_ref(&mut conns, 0x5000);
    pm.slots[0].conn = 0x5000;
    pm.slots[0].state = SLOT_READY;
    pm.slots[0].owner_thread = 0x1111;
    // Neither handed out nor given up while a statement streams from it.
    let (got, closing) = pm.acquire_own(&mut conns, 0x1111, true, 10_000);
    assert_eq!(got, None);
    assert_eq!(closing, vec![]);
    assert_eq!(pm.slots[0].conn, 0x5000);
    assert_eq!(pm.slots[0].last_used, 0);

    assert!(pm.clear_streaming_active(&mut conns, 0x5000));
    let (got, _) = pm.acquire_own(&mut conns, 0x1111, true, 10_001);
    assert_eq!(got, Some(0x5000));
    assert_eq!(pm.slots[0].last_used, 10_001);

    destroy_pool_connection(&mut conns, 0x5000);
    let (got, _) = pm.acquire_own(&mut conns, 0x1111, true, 10_002);
    assert_eq!(got, None);
}

#[test]
fn a_connection_that_libpq_finds_broken_is_not_handed_out() {
    let mut pm = PoolManager::new(1, 1);
    let mut conns = ConnTable::new();
    let mut conn = fake_pg_connection();
    conn.is_pg_active = 1;
    conn.conn = 0x7000;
    conns.insert(0x5000, conn);
    conn_ref(&mut conns, 0x5000);
    pm.slots[0].conn = 0x5000;
    pm.slots[0].state = SLOT_READY;
    pm.slots[0].owner_thread = 0x1111;
    assert_eq!(pm.own_connection(&conns, 0x1111), Some(0x5000));
    assert_eq!(pm.own_connection(&conns, 0x2222), None);
    let (got, _) = pm.acquire_own(&mut conns, 0x1111, false, 10);
    assert_eq!(got, None);
    assert_eq!(pm.slots[0].last_used, 0);
    let (got, _) = pm.acquire_own(&mut conns, 0x1111, true, 10);
    assert_eq!(got, Some(0x5000));
    assert_eq!(pm.slots[0].last_used, 10);
}

#[test]
fn a_connection_that_is_handed_out_is_not_given_up() {
    let mut pm = PoolManager::new(1, 1);
    pm.idle_timeout_secs = -1;
    let mut conns = ConnTable::new();
    let mut conn = fake_pg_connection();
    conn.is_pg_active = 1;
    conn.conn = 0x7000;
    conns.insert(0x5000, conn);
    conn_ref(&mut conns, 0x5000);
    pm.slots[0].conn = 0x5000;
    pm.slots[0].state = SLOT_READY;
    pm.slots[0].owner_thread = 0x1111;
    let (got, closing) = pm.acquire_own(&mut conns, 0x1111, true, 1_000);
    assert_eq!(got, Some(0x5000));
    assert_eq!(closing, vec![]);
    assert!(conns.get(0x5000).is_some());
    assert_eq!(pm.slots[0].conn, 0x5000);
    assert_eq!(pm.last_reap_time, 1_000);
    // A second later nobody has asked for it.
    assert_eq!(pm.reap_idle(&mut conns, 1_001), vec![0x7000]);
}

#[test]
fn a_thread_without_a_connection_gets_none() {
    let mut pm = PoolManager::new(3, 3);
    let mut conns = ConnTable::new();
    let (got, closing) = pm.acquire_own(&mut conns, 0x1111, true, 10);
    assert_eq!(got, None);
    assert_eq!(closing, vec![]);
}

#[test]
fn maintenance_is_a_matter_of_time() {
    // Due once the reaper's interval has passed since it last ran, and not
    // before, so the fast path pays one load per acquire.
    let mut pm = PoolManager::new(3, 64);
    pm.last_reap_time = 1_000;
    assert!(!maintenance_due(&pm, 1_000 + 59));
    assert!(maintenance_due(&pm, 1_000 + 60));
    assert!(maintenance_due(&pm, 1_000 + 3_600));
    pm.last_reap_time = i64::MIN;
    assert!(maintenance_due(&pm, i64::MAX));
}
