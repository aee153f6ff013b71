use plex_pg_core::ffi_types::{
    conn_ref, conn_refs, conn_unref, ConnTable, PgConnection, PgStmt,
};
use plex_pg_core::reexecution::{
    adopt_materialized_result_owner, drop_metadata_only_result,
    rust_step_read_prepare_reexecution_state, should_clear_cross_thread_result,
    should_use_streaming, streaming_conn_for_this_thread, ReexecutionStep,
};

fn connection(libpq: usize) -> PgConnection {
    PgConnection {
        conn: libpq,
        shadow_db: 0,
        db_path: [0; 1024],
        is_pg_active: 1,
        last_changes: 0,
        last_insert_rowid: 0,
        last_generator_metadata_id: 0,
        last_error: [0; 1024],
        last_error_code: 0,
        streaming_active: 0,
        ref_count: 0,
    }
}

/// Two connections, each with the pool's reference.
fn two_connections() -> ConnTable {
    let mut conns = ConnTable::new();
    conns.insert(0x10, connection(0x70));
    conns.insert(0x20, connection(0x80));
    conn_ref(&mut conns, 0x10);
    conn_ref(&mut conns, 0x20);
    conns
}

#[test]
fn a_connection_lives_as_long_as_it_is_held() {
    let mut conns = two_connections();
    conn_ref(&mut conns, 0x10);
    assert_eq!(conn_refs(&conns, 0x10), 2);
    assert!(!conn_unref(&mut conns, 0x10));
    assert!(conn_unref(&mut conns, 0x10));
    assert!(conns.get(0x10).is_none());
    assert_eq!(conn_refs(&conns, 0x20), 1);
}

#[test]
fn null_is_nobodys_connection() {
    let mut conns = two_connections();
    conn_ref(&mut conns, 0);
    assert!(!conn_unref(&mut conns, 0));
    assert_eq!(conn_refs(&conns, 0), 0);
}

#[test]
fn a_double_release_frees_nothing() {
    let mut conns = ConnTable::new();
    conns.insert(0x10, connection(0));
    assert!(!conn_unref(&mut conns, 0x10));
    assert_eq!(conn_refs(&conns, 0x10), 0);
    assert!(conns.get(0x10).is_some());
}

#[test]
fn a_statement_counts_what_it_points_at() {
    let mut conns = two_connections();
    let mut stmt = PgStmt::new();
    stmt.set_conn(&mut conns, 0x10);
    stmt.set_result_conn(&mut conns, 0x10);
    stmt.set_streaming_conn(&mut conns, 0x20);
    assert_eq!((stmt.conn(), stmt.result_conn(), stmt.streaming_conn()), (0x10, 0x10, 0x20));
    assert_eq!(conn_refs(&conns, 0x10), 3);
    assert_eq!(conn_refs(&conns, 0x20), 2);
    stmt.set_conn(&mut conns, 0x10);
    assert_eq!(conn_refs(&conns, 0x10), 3);
    stmt.set_result_conn(&mut conns, 0x20);
    assert_eq!(conn_refs(&conns, 0x10), 2);
    assert_eq!(conn_refs(&conns, 0x20), 3);
    stmt.release_conns(&mut conns);
    assert_eq!((stmt.conn(), stmt.result_conn(), stmt.streaming_conn()), (0, 0, 0));
    assert_eq!(conn_refs(&conns, 0x10), 1);
    assert_eq!(conn_refs(&conns, 0x20), 1);
}

#[test]
fn a_statement_keeps_a_connection_the_pool_gave_up() {
    let mut conns = two_connections();
    let mut stmt = PgStmt::default();
    stmt.set_conn(&mut conns, 0x10);
    assert!(!conn_unref(&mut conns, 0x10));
    assert!(conns.get(0x10).is_some());
    stmt.release_conns(&mut conns);
    assert!(conns.get(0x10).is_none());
}

#[test]
fn parameters_and_columns_only_grow() {
    let mut stmt = PgStmt::new();
    assert_eq!(stmt.state.decoded_blob_row, -1);
    assert_eq!(stmt.state.cached_row, -1);
    stmt.ensure_param_capacity(3);
    stmt.state.param_values[1] = 0x99;
    stmt.state.param_buffers[1][0] = 7;
    stmt.ensure_param_capacity(2);
    assert_eq!(stmt.state.param_values, vec![0, 0x99, 0]);
    stmt.ensure_param_capacity(4);
    assert_eq!(stmt.state.param_values, vec![0, 0x99, 0, 0]);
    assert_eq!(stmt.state.param_lengths, vec![0; 4]);
    assert_eq!(stmt.state.param_formats, vec![0; 4]);
    assert_eq!(stmt.state.param_buffers[1][0], 7);
    assert_eq!(stmt.state.param_buffers[3], [0; 32]);
    stmt.ensure_column_capacity(2);
    stmt.state.cached_text[0] = 5;
    stmt.ensure_column_capacity(3);
    assert_eq!(stmt.state.cached_text, vec![5, 0, 0]);
    assert_eq!(stmt.state.decoded_blobs.len(), 3);
    assert_eq!(stmt.state.decoded_blob_lens.len(), 3);
    assert_eq!(stmt.state.cached_blob.len(), 3);
    assert_eq!(stmt.state.cached_blob_len.len(), 3);
    assert_eq!(stmt.state.col_table_names.len(), 3);
}

#[test]
fn a_value_in_its_own_buffer_is_preallocated() {
    let mut stmt = PgStmt::new();
    assert!(!stmt.is_preallocated_buffer(0, 0x1000));
    stmt.ensure_param_capacity(1);
    assert!(!stmt.is_preallocated_buffer(0, 0x1000));
    stmt.state.param_values[0] = 0x1000;
    assert!(stmt.is_preallocated_buffer(0, 0x1000));
    stmt.state.param_values[0] = 0x101f;
    assert!(stmt.is_preallocated_buffer(0, 0x1000));
    stmt.state.param_values[0] = 0x1020;
    assert!(!stmt.is_preallocated_buffer(0, 0x1000));
    stmt.state.param_values[0] = 0xfff;
    assert!(!stmt.is_preallocated_buffer(0, 0x1000));
}

#[test]
fn a_stream_that_crosses_threads_is_cleared() {
    let mut conns = two_connections();
    let mut stmt = PgStmt::new();
    stmt.set_result_conn(&mut conns, 0x10);
    assert!(!should_clear_cross_thread_result(Some(&stmt), 0x20));
    stmt.state.streaming_mode = 1;
    assert!(should_clear_cross_thread_result(Some(&stmt), 0x20));
    assert!(!should_clear_cross_thread_result(Some(&stmt), 0x10));
    assert!(!should_clear_cross_thread_result(Some(&stmt), 0));
    assert!(!should_clear_cross_thread_result(None, 0x20));

    let step = rust_step_read_prepare_reexecution_state(Some(&mut stmt), &mut conns, 0x20, 2);
    assert!(matches!(step, ReexecutionStep::ClearResult));
    assert_eq!(stmt.state.needs_requery, 1);
    assert!(!should_use_streaming(Some(&stmt), false));
}

#[test]
fn a_statement_that_asks_for_one_row_does_not_stream() {
    let mut stmt = PgStmt::new();
    assert!(should_use_streaming(Some(&stmt), false));
    assert!(!should_use_streaming(Some(&stmt), true));
    assert!(!should_use_streaming(None, false));
    stmt.state.sql = Some(b"select 1 LiMiT 1".to_vec());
    assert!(!should_use_streaming(Some(&stmt), false));
    stmt.state.sql = Some(b"select limit  1".to_vec());
    assert!(should_use_streaming(Some(&stmt), false));
    stmt.state.pg_sql = Some(b"SELECT x LIMIT 10".to_vec());
    assert!(!should_use_streaming(Some(&stmt), false));
}

#[test]
fn a_complete_result_is_taken_over() {
    let mut conns = two_connections();
    let mut stmt = PgStmt::new();
    stmt.set_result_conn(&mut conns, 0x10);
    stmt.state.result = 0x500;
    stmt.state.executing_thread = 1;
    assert!(!adopt_materialized_result_owner(Some(&mut stmt), &mut conns, 0, 2));
    assert!(!adopt_materialized_result_owner(Some(&mut stmt), &mut conns, 0x10, 2));
    assert!(!adopt_materialized_result_owner(None, &mut conns, 0x20, 2));
    let step = rust_step_read_prepare_reexecution_state(Some(&mut stmt), &mut conns, 0x20, 2);
    assert!(matches!(step, ReexecutionStep::Proceed));
    assert_eq!(stmt.result_conn(), 0x20);
    assert_eq!(stmt.state.executing_thread, 2);
    assert_eq!(stmt.state.result, 0x500);
    assert_eq!(conn_refs(&conns, 0x10), 1);
    assert_eq!(conn_refs(&conns, 0x20), 2);
    let step = rust_step_read_prepare_reexecution_state(Some(&mut stmt), &mut conns, 0x20, 3);
    assert!(matches!(step, ReexecutionStep::Proceed));
    assert_eq!(stmt.state.executing_thread, 2);
}

#[test]
fn a_result_that_only_describes_columns_is_given_up() {
    let mut conns = two_connections();
    let mut stmt = PgStmt::new();
    stmt.state.result = 0x500;
    stmt.state.metadata_only_result = 1;
    stmt.state.current_row = 4;
    let step = rust_step_read_prepare_reexecution_state(Some(&mut stmt), &mut conns, 0, 2);
    assert!(matches!(step, ReexecutionStep::FreeResult(0x500)));
    assert_eq!((stmt.state.result, stmt.state.metadata_only_result, stmt.state.current_row), (0, 0, -1));
    assert!(matches!(drop_metadata_only_result(&mut stmt), ReexecutionStep::Proceed));
    let step = rust_step_read_prepare_reexecution_state(None, &mut conns, 0x10, 2);
    assert!(matches!(step, ReexecutionStep::Proceed));
}

#[test]
fn a_stream_stays_on_the_thread_that_started_it() {
    let mut conns = two_connections();
    conns.insert(0x30, connection(0));
    let mut stmt = PgStmt::new();
    stmt.state.executing_thread = 5;
    stmt.set_streaming_conn(&mut conns, 0x10);
    assert_eq!(streaming_conn_for_this_thread(Some(&stmt), &conns, 5), 0);
    stmt.state.streaming_mode = 1;
    assert_eq!(streaming_conn_for_this_thread(Some(&stmt), &conns, 5), 0x10);
    assert_eq!(streaming_conn_for_this_thread(Some(&stmt), &conns, 6), 0);
    assert_eq!(streaming_conn_for_this_thread(None, &conns, 5), 0);
    stmt.set_streaming_conn(&mut conns, 0x30);
    assert_eq!(streaming_conn_for_this_thread(Some(&stmt), &conns, 5), 0);
    stmt.set_streaming_conn(&mut conns, 0);
    assert_eq!(streaming_conn_for_this_thread(Some(&stmt), &conns, 5), 0);
}
