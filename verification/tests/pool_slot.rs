use plex_pg_core::pool::{
    PoolSlot, SLOT_ERROR, SLOT_FREE, SLOT_READY, SLOT_RECONNECTING, SLOT_RESERVED,
};

#[test]
fn pool_slot_initial_state_is_free() {
    let slot = PoolSlot::new();
    assert_eq!(slot.state, SLOT_FREE);
    assert!(slot.conn == 0);
    assert_eq!(slot.owner_thread, 0);
    assert_eq!(slot.generation, 0);
}

#[test]
fn pool_slot_claim_free_succeeds() {
    let mut slot = PoolSlot::new();
    assert!(slot.try_claim_free());
    assert_eq!(slot.state, SLOT_RESERVED);
}

#[test]
fn pool_slot_claim_free_fails_when_reserved() {
    let mut slot = PoolSlot::new();
    assert!(slot.try_claim_free());
    // Second claim must fail
    assert!(!slot.try_claim_free());
}

#[test]
fn pool_slot_claim_free_fails_when_ready() {
    let mut slot = PoolSlot::new();
    slot.state = SLOT_READY;
    assert!(!slot.try_claim_free());
}

#[test]
fn pool_slot_mark_ready_after_reserve() {
    let mut slot = PoolSlot::new();
    assert!(slot.try_claim_free());
    slot.mark_ready();
    assert_eq!(slot.state, SLOT_READY);
}

#[test]
fn pool_slot_mark_error_after_reserve() {
    let mut slot = PoolSlot::new();
    assert!(slot.try_claim_free());
    slot.mark_error();
    assert_eq!(slot.state, SLOT_ERROR);
}

#[test]
fn pool_slot_begin_reconnect_from_ready() {
    let mut slot = PoolSlot::new();
    slot.state = SLOT_READY;
    assert!(slot.try_begin_reconnect());
    assert_eq!(slot.state, SLOT_RECONNECTING);
}

#[test]
fn pool_slot_begin_reconnect_fails_from_free() {
    let mut slot = PoolSlot::new();
    assert!(!slot.try_begin_reconnect());
}

#[test]
fn pool_slot_reclaim_error_succeeds() {
    let mut slot = PoolSlot::new();
    slot.state = SLOT_ERROR;
    assert!(slot.try_reclaim_error());
    assert_eq!(slot.state, SLOT_RESERVED);
}

#[test]
fn pool_slot_reclaim_error_fails_from_ready() {
    let mut slot = PoolSlot::new();
    slot.state = SLOT_READY;
    assert!(!slot.try_reclaim_error());
}

#[test]
fn pool_slot_reclaim_zombie_from_ready() {
    let mut slot = PoolSlot::new();
    slot.state = SLOT_READY;
    assert!(slot.try_reclaim_zombie());
    assert_eq!(slot.state, SLOT_FREE);
}

#[test]
fn pool_slot_reclaim_zombie_fails_from_free() {
    let mut slot = PoolSlot::new();
    assert!(!slot.try_reclaim_zombie());
}

#[test]
fn pool_slot_release_clears_owner_and_state() {
    let mut slot = PoolSlot::new();
    slot.state = SLOT_READY;
    slot.owner_thread = 12345;
    slot.release();
    assert_eq!(slot.state, SLOT_FREE);
    assert_eq!(slot.owner_thread, 0);
}

#[test]
fn pool_slot_full_lifecycle() {
    // FREE → RESERVED → READY → RECONNECTING → READY → FREE
    let mut slot = PoolSlot::new();
    assert!(slot.try_claim_free()); // FREE → RESERVED
    slot.mark_ready(); // RESERVED → READY
    assert!(slot.try_begin_reconnect()); // READY → RECONNECTING
    slot.mark_ready(); // RECONNECTING → READY
    slot.release(); // READY → FREE
    assert_eq!(slot.state, SLOT_FREE);
}

#[test]
fn pool_slot_error_recovery_lifecycle() {
    // FREE → RESERVED → ERROR → RESERVED → READY → FREE
    let mut slot = PoolSlot::new();
    assert!(slot.try_claim_free()); // FREE → RESERVED
    slot.mark_error(); // RESERVED → ERROR
    assert!(slot.try_reclaim_error()); // ERROR → RESERVED
    slot.mark_ready(); // RESERVED → READY
    slot.release(); // READY → FREE
    assert_eq!(slot.state, SLOT_FREE);
}

/// Drive a slot through exactly what `reap_idle` does to it.
fn simulate_reaper_emptying(slot: &mut PoolSlot) {
    assert!(slot.try_claim_free());
    slot.generation += 1;
    slot.conn = 0;
    slot.owner_thread = 0;
    slot.state = SLOT_FREE;
}

#[test]
fn claim_with_conn_rejects_a_slot_the_reaper_emptied() {
    let mut slot = PoolSlot::new();
    let conn = 0xDEAD_BEEF_usize;
    slot.conn = conn;

    // Phase 2 samples the connection while the slot is still FREE.
    let sampled = slot.conn;
    assert_eq!(sampled, conn);

    // The reaper gets in ahead of the claim and takes the connection away.
    simulate_reaper_emptying(&mut slot);

    // The claim must now fail: `sampled` is about to be PQfinished.
    assert!(!slot.try_claim_free_with_conn(sampled));
    // ...and the slot must be left claimable by whoever comes next.
    assert_eq!(slot.state, SLOT_FREE);
}

#[test]
fn claim_with_conn_succeeds_when_the_connection_is_unchanged() {
    let mut slot = PoolSlot::new();
    let conn = 0xCAFE_F00D_usize;
    slot.conn = conn;

    let sampled = slot.conn;
    assert!(slot.try_claim_free_with_conn(sampled));
    assert_eq!(slot.state, SLOT_RESERVED);
}

#[test]
fn claim_with_conn_rejects_a_slot_that_gained_a_connection() {
    // Phase 3 only wants genuinely empty slots. If another thread filled the
    // slot between the null check and the claim, overwriting `slot.conn` would
    // strand a live PostgreSQL connection with no owner.
    let mut slot = PoolSlot::new();
    assert!(slot.conn == 0);

    slot.conn = 0x1234_5678_usize;

    assert!(!slot.try_claim_free_with_conn(0));
    assert_eq!(slot.state, SLOT_FREE);
    assert!(slot.conn != 0);
}

#[test]
fn claim_with_conn_fails_when_the_slot_is_not_free() {
    let mut slot = PoolSlot::new();
    slot.state = SLOT_READY;
    assert!(!slot.try_claim_free_with_conn(0));
    assert_eq!(slot.state, SLOT_READY);
}

#[test]
fn of_ten_claims_one_wins() {
    let mut slot = PoolSlot::new();
    let mut wins = 0;
    for _ in 0..10 {
        if slot.try_claim_free() {
            wins += 1;
        }
    }
    assert_eq!(wins, 1);
}
