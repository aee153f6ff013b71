use plex_pg_core::pg_client_registry::{ConnectionRegistry, DbToPool};

#[test]
fn db_to_pool_assign_and_find() {
    let mut dtp = DbToPool::new();
    dtp.assign(0x100, 5);
    assert_eq!(dtp.find(0x100), Some(5));
}

#[test]
fn db_to_pool_find_missing_returns_none() {
    let dtp = DbToPool::new();
    assert_eq!(dtp.find(0x100), None);
}

#[test]
fn db_to_pool_release_removes() {
    let mut dtp = DbToPool::new();
    dtp.assign(0x100, 5);
    assert_eq!(dtp.release(0x100), Some(5));
    assert_eq!(dtp.find(0x100), None);
}

#[test]
fn db_to_pool_multiple_handles_same_slot() {
    // Multiple sqlite3* handles can share a pool slot
    let mut dtp = DbToPool::new();
    dtp.assign(0x100, 5);
    dtp.assign(0x200, 5);
    assert_eq!(dtp.find(0x100), Some(5));
    assert_eq!(dtp.find(0x200), Some(5));
}

#[test]
fn db_to_pool_counts_handles_still_holding_a_slot() {
    // Whether anyone still refers to a slot: a handle Plex has not closed is a reference,
    // however long the slot has been idle and whatever became of the thread
    // that opened it.
    let mut dtp = DbToPool::new();
    assert_eq!(dtp.references(5), 0);

    dtp.assign(0x100, 5);
    dtp.assign(0x200, 5);
    dtp.assign(0x300, 7);
    assert_eq!(dtp.references(5), 2, "two handles are holding slot 5");
    assert_eq!(dtp.references(7), 1);

    dtp.release(0x100);
    assert_eq!(dtp.references(5), 1, "closing one handle leaves the other");

    dtp.release(0x200);
    assert_eq!(
        dtp.references(5),
        0,
        "the last handle closing frees the slot"
    );
}

#[test]
fn db_to_pool_clear() {
    let mut dtp = DbToPool::new();
    dtp.assign(0x100, 5);
    dtp.assign(0x200, 7);
    dtp.clear();
    assert_eq!(dtp.len(), 0);
}

#[test]
fn assigning_a_handle_anew_moves_its_reference() {
    let mut dtp = DbToPool::new();
    dtp.assign(0x100, 5);
    dtp.assign(0x100, 7);
    assert_eq!(dtp.references(5), 0);
    assert_eq!(dtp.references(7), 1);
    assert_eq!(dtp.len(), 1);
    assert_eq!(dtp.release(0x200), None);
}

#[test]
fn registry_finds_what_was_registered() {
    let mut registry = ConnectionRegistry::new();
    assert_eq!(registry.find(0x100), None);
    registry.register(0x100, 0xBEEF);
    registry.register(0x200, 0xCAFE);
    assert_eq!(registry.find(0x100), Some(0xBEEF));
    assert_eq!(registry.find(0x200), Some(0xCAFE));
    assert!(registry.contains_conn(0xCAFE));
    assert!(!registry.contains_conn(0xDEAD));
    assert_eq!(registry.len(), 2);
    registry.register(0x100, 0xF00D);
    assert_eq!(registry.find(0x100), Some(0xF00D));
    assert_eq!(registry.len(), 2);
}

#[test]
fn registry_forgets_what_was_unregistered() {
    let mut registry = ConnectionRegistry::new();
    registry.register(0x100, 0xBEEF);
    registry.register(0x200, 0xCAFE);
    assert_eq!(registry.unregister(0x100), Some(0xBEEF));
    assert_eq!(registry.unregister(0x100), None);
    assert_eq!(registry.find(0x100), None);
    assert_eq!(registry.find(0x200), Some(0xCAFE));
    registry.clear();
    assert_eq!(registry.len(), 0);
}

#[test]
fn registry_finds_any_connection_that_will_do() {
    let mut registry = ConnectionRegistry::new();
    assert_eq!(registry.find_any(|_conn: usize| true), None);
    registry.register(0x100, 0xBEEF);
    registry.register(0x200, 0xCAFE);
    assert_eq!(registry.find_any(|conn: usize| conn == 0xCAFE), Some(0xCAFE));
    assert_eq!(registry.find_any(|conn: usize| conn == 0xDEAD), None);
    assert_eq!(registry.find_any_library(|conn: usize| conn == 0xBEEF), Some(0xBEEF));
}

#[test]
fn registry_drains_every_connection_once() {
    let mut registry = ConnectionRegistry::new();
    registry.register(0x100, 0xBEEF);
    registry.register(0x200, 0xCAFE);
    let mut drained = registry.drain_all();
    drained.sort();
    assert_eq!(drained, vec![0xBEEF, 0xCAFE]);
    assert_eq!(registry.len(), 0);
}

#[test]
fn references_of_all_slots_add_up() {
    let mut dtp = DbToPool::new();
    dtp.assign(0x100, 0);
    dtp.assign(0x200, 2);
    dtp.assign(0x300, 2);
    dtp.assign(0x400, 3);
    dtp.assign(0x100, 3);
    dtp.release(0x300);
    let total: usize = (0..4).map(|slot| dtp.references(slot)).sum();
    assert_eq!(total, 3);
    assert_eq!(total, dtp.len());
}
