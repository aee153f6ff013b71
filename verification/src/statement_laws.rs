//! What holds of statements and of the connections they point at whenever their
//! methods are called.

use vstd::prelude::*;

use crate::ffi_types;
use crate::ffi_types::{
    conn_ref, conn_refs, conn_unref, ConnTable, PgConnection, PgStmt, StmtState, PARAM_BUF_LEN,
};
use crate::reexecution;
use crate::reexecution::{
    adopt_materialized_result_owner, drop_metadata_only_result,
    rust_step_read_prepare_reexecution_state, should_clear_cross_thread_result,
    should_use_streaming, streaming_conn_for_this_thread, ReexecutionStep,
};

verus! {

/// The two connections differ in their count alone.
pub open spec fn same_but_count(a: PgConnection, b: PgConnection) -> bool {
    (PgConnection { ref_count: b.ref_count, ..a }) == b
}

/// Every connection but `c` is as it was.
pub open spec fn others_are_kept(
    before: Map<usize, PgConnection>,
    after: Map<usize, PgConnection>,
    c: usize,
) -> bool {
    forall|d: usize|
        #![trigger after.contains_key(d)]
        #![trigger after[d]]
        d != c ==> after.contains_key(d) == before.contains_key(d) && after[d] == before[d]
}

/// Taking a reference counts one holder more and changes nothing else; null is
/// not counted. A count at its limit wraps.
pub proof fn law_reference_is_counted(
    conns: &mut ConnTable,
    after: &ConnTable,
    conn: usize,
    refs: i32,
)
    requires
        ffi_types::valid_handle(old(conns)@, conn),
        call_ensures(conn_ref, (conns, conn), ()),
        *after == *final(conns),
        call_ensures(conn_refs, (after, conn), refs),
    ensures
        conn == 0 ==> final(conns)@ == old(conns)@ && refs == 0,
        conn != 0 ==> {
            &&& old(conns)@[conn].ref_count < i32::MAX ==> refs == old(conns)@[conn].ref_count + 1
            &&& old(conns)@[conn].ref_count == i32::MAX ==> refs == i32::MIN
            &&& final(conns)@.contains_key(conn)
            &&& final(conns)@[conn].ref_count == refs
            &&& same_but_count(final(conns)@[conn], old(conns)@[conn])
        },
        others_are_kept(old(conns)@, final(conns)@, conn),
{
}

/// Letting go counts one holder less, or frees the connection where it was the
/// last; a count that nobody held is left alone. No other connection is
/// concerned, and null is no connection.
pub proof fn law_reference_is_let_go(conns: &mut ConnTable, conn: usize, freed: bool)
    requires
        ffi_types::valid_handle(old(conns)@, conn),
        call_ensures(conn_unref, (conns, conn), freed),
    ensures
        conn == 0 ==> !freed && final(conns)@ == old(conns)@,
        conn != 0 ==> {
            &&& freed <==> old(conns)@[conn].ref_count == 1
            &&& freed <==> !final(conns)@.contains_key(conn)
            &&& old(conns)@[conn].ref_count > 1 ==> {
                &&& final(conns)@[conn].ref_count == old(conns)@[conn].ref_count - 1
                &&& same_but_count(final(conns)@[conn], old(conns)@[conn])
            }
            &&& old(conns)@[conn].ref_count < 1 ==> final(conns)@[conn] == old(conns)@[conn]
        },
        others_are_kept(old(conns)@, final(conns)@, conn),
{
}

/// The counts after a holder of `from` has become one of `to`.
pub open spec fn holder_has_moved(
    before: Map<usize, PgConnection>,
    after: Map<usize, PgConnection>,
    from: usize,
    to: usize,
) -> bool {
    &&& from == to ==> after == before
    &&& from != to && to != 0 ==> {
        &&& after.contains_key(to)
        &&& before[to].ref_count < i32::MAX ==> after[to].ref_count == before[to].ref_count + 1
        &&& same_but_count(after[to], before[to])
    }
    &&& from != to && from != 0 && before[from].ref_count == 1 ==> !after.contains_key(from)
    &&& from != to && from != 0 && before[from].ref_count > 1 ==> {
        &&& after.contains_key(from)
        &&& after[from].ref_count == before[from].ref_count - 1
        &&& same_but_count(after[from], before[from])
    }
    &&& forall|d: usize|
        #![trigger after.contains_key(d)]
        #![trigger after[d]]
        d != from && d != to ==> after.contains_key(d) == before.contains_key(d) && after[d]
            == before[d]
}

/// A statement that is pointed at a connection points at it, and at what it
/// pointed at in its other handles; one holder is counted for the new connection
/// and one less for the old.
pub proof fn law_statement_points_where_it_was_told(
    stmt: &mut PgStmt,
    conns: &mut ConnTable,
    conn: usize,
)
    requires
        ffi_types::valid_handle(old(conns)@, old(stmt)@.handles.conn),
        ffi_types::valid_handle(old(conns)@, conn),
        call_ensures(PgStmt::set_conn, (stmt, conns, conn), ()),
    ensures
        final(stmt)@.handles.conn == conn,
        final(stmt)@.handles.result_conn == old(stmt)@.handles.result_conn,
        final(stmt)@.handles.streaming_conn == old(stmt)@.handles.streaming_conn,
        final(stmt)@.state == old(stmt)@.state,
        holder_has_moved(old(conns)@, final(conns)@, old(stmt)@.handles.conn, conn),
{
}

/// So it is with the connection of its result.
pub proof fn law_result_belongs_where_it_was_told(
    stmt: &mut PgStmt,
    conns: &mut ConnTable,
    conn: usize,
)
    requires
        ffi_types::valid_handle(old(conns)@, old(stmt)@.handles.result_conn),
        ffi_types::valid_handle(old(conns)@, conn),
        call_ensures(PgStmt::set_result_conn, (stmt, conns, conn), ()),
    ensures
        final(stmt)@.handles.result_conn == conn,
        final(stmt)@.handles.conn == old(stmt)@.handles.conn,
        final(stmt)@.handles.streaming_conn == old(stmt)@.handles.streaming_conn,
        final(stmt)@.state == old(stmt)@.state,
        holder_has_moved(old(conns)@, final(conns)@, old(stmt)@.handles.result_conn, conn),
{
}

/// And with the one that it streams from.
pub proof fn law_stream_comes_from_where_it_was_told(
    stmt: &mut PgStmt,
    conns: &mut ConnTable,
    conn: usize,
)
    requires
        ffi_types::valid_handle(old(conns)@, old(stmt)@.handles.streaming_conn),
        ffi_types::valid_handle(old(conns)@, conn),
        call_ensures(PgStmt::set_streaming_conn, (stmt, conns, conn), ()),
    ensures
        final(stmt)@.handles.streaming_conn == conn,
        final(stmt)@.handles.conn == old(stmt)@.handles.conn,
        final(stmt)@.handles.result_conn == old(stmt)@.handles.result_conn,
        final(stmt)@.state == old(stmt)@.state,
        holder_has_moved(old(conns)@, final(conns)@, old(stmt)@.handles.streaming_conn, conn),
{
}

/// A statement that has let go points at nothing; a connection that it pointed at
/// in one handle only, and that others hold too, is counted once less, and one
/// that it did not point at is as it was.
pub proof fn law_released_statement_points_at_nothing(
    stmt: &mut PgStmt,
    conns: &mut ConnTable,
    c: usize,
)
    requires
        ffi_types::releasable(old(conns)@, old(stmt)@.handles),
        call_ensures(PgStmt::release_conns, (stmt, conns), ()),
        c != 0,
    ensures
        final(stmt)@.handles.conn == 0,
        final(stmt)@.handles.result_conn == 0,
        final(stmt)@.handles.streaming_conn == 0,
        final(stmt)@.state == old(stmt)@.state,
        old(stmt)@.handles.conn != c && old(stmt)@.handles.result_conn != c
            && old(stmt)@.handles.streaming_conn != c ==> {
            &&& final(conns)@.contains_key(c) == old(conns)@.contains_key(c)
            &&& final(conns)@[c] == old(conns)@[c]
        },
        old(stmt)@.handles.conn == c && old(stmt)@.handles.result_conn != c
            && old(stmt)@.handles.streaming_conn != c && old(conns)@[c].ref_count > 1 ==> {
            &&& final(conns)@.contains_key(c)
            &&& final(conns)@[c].ref_count == old(conns)@[c].ref_count - 1
        },
        old(stmt)@.handles.conn == c && old(stmt)@.handles.result_conn == c
            && old(stmt)@.handles.streaming_conn == c && old(conns)@[c].ref_count == 3
            ==> !final(conns)@.contains_key(c),
{
}

/// `after` holds at least `n` values: those of `before`, and behind them `v`.
pub open spec fn is_widened<T>(before: Seq<T>, after: Seq<T>, n: int, v: T) -> bool {
    &&& after.len() == if n > before.len() {
        n
    } else {
        before.len() as int
    }
    &&& forall|i: int| 0 <= i < before.len() ==> after[i] == before[i]
    &&& forall|i: int| before.len() <= i < after.len() ==> after[i] == v
}

/// Room for parameters is made behind those that are bound, which stay, and it is
/// empty; nothing is ever cut, and nothing else of the statement changes.
pub proof fn law_room_for_parameters_keeps_them(stmt: &mut PgStmt, count: usize)
    requires
        call_ensures(PgStmt::ensure_param_capacity, (stmt, count), ()),
        old(stmt)@.state.param_lengths@.len() == old(stmt)@.state.param_values@.len(),
        old(stmt)@.state.param_formats@.len() == old(stmt)@.state.param_values@.len(),
        old(stmt)@.state.param_buffers@.len() == old(stmt)@.state.param_values@.len(),
    ensures
        ({
            let was = old(stmt)@.state;
            let now = final(stmt)@.state;
            let n = count as int;
            &&& is_widened(was.param_values@, now.param_values@, n, 0usize)
            &&& is_widened(was.param_lengths@, now.param_lengths@, n, 0i32)
            &&& is_widened(was.param_formats@, now.param_formats@, n, 0i32)
            &&& now.param_buffers@.len() == now.param_values@.len()
            &&& forall|i: int|
                0 <= i < was.param_buffers@.len() ==> #[trigger] now.param_buffers@[i]
                    == was.param_buffers@[i]
            &&& forall|i: int, k: int|
                was.param_buffers@.len() <= i < now.param_buffers@.len() && 0 <= k < PARAM_BUF_LEN
                    ==> #[trigger] now.param_buffers@[i]@[k] == 0
            &&& now.param_count == was.param_count
            &&& now.result == was.result
            &&& now.current_row == was.current_row
        }),
        final(stmt)@.handles == old(stmt)@.handles,
{
}

/// Room for columns is made behind those that are cached, which stay.
pub proof fn law_room_for_columns_keeps_them(stmt: &mut PgStmt, count: usize)
    requires
        call_ensures(PgStmt::ensure_column_capacity, (stmt, count), ()),
        old(stmt)@.state.decoded_blob_lens@.len() == old(stmt)@.state.decoded_blobs@.len(),
        old(stmt)@.state.cached_blob@.len() == old(stmt)@.state.cached_text@.len(),
        old(stmt)@.state.cached_blob_len@.len() == old(stmt)@.state.cached_text@.len(),
    ensures
        ({
            let was = old(stmt)@.state;
            let now = final(stmt)@.state;
            let n = count as int;
            &&& is_widened(was.decoded_blobs@, now.decoded_blobs@, n, 0usize)
            &&& is_widened(was.decoded_blob_lens@, now.decoded_blob_lens@, n, 0i32)
            &&& is_widened(was.cached_text@, now.cached_text@, n, 0usize)
            &&& is_widened(was.cached_blob@, now.cached_blob@, n, 0usize)
            &&& is_widened(was.cached_blob_len@, now.cached_blob_len@, n, 0i32)
            &&& is_widened(was.col_table_names@, now.col_table_names@, n, 0usize)
            &&& now.cached_row == was.cached_row
            &&& now.decoded_blob_row == was.decoded_blob_row
            &&& now.result == was.result
        }),
        final(stmt)@.handles == old(stmt)@.handles,
{
}

/// A value lies in the statement's own buffer if it does so with one of the
/// buffer's thirty-two bytes, from the first to the last, and never if it is not
/// bound or has no buffer.
pub proof fn law_buffer_holds_its_bytes(stmt: &PgStmt, idx: usize, buffer: usize, inside: bool)
    requires
        call_ensures(PgStmt::is_preallocated_buffer, (stmt, idx, buffer), inside),
        idx < stmt@.state.param_values@.len(),
    ensures
        stmt@.state.param_values@[idx as int] == 0 ==> !inside,
        idx >= stmt@.state.param_buffers@.len() ==> !inside,
        idx < stmt@.state.param_buffers@.len() && stmt@.state.param_values@[idx as int] != 0 ==> (
        inside <==> buffer <= stmt@.state.param_values@[idx as int] <= buffer + 31),
{
}

/// A new statement points at nothing, has no result and no text, and no row of
/// it is decoded or cached.
pub proof fn law_new_statement_is_blank(stmt: PgStmt)
    requires
        call_ensures(PgStmt::new, (), stmt),
    ensures
        stmt@.handles.conn == 0,
        stmt@.handles.result_conn == 0,
        stmt@.handles.streaming_conn == 0,
        stmt@.state.result == 0,
        stmt@.state.sql is None,
        stmt@.state.pg_sql is None,
        stmt@.state.streaming_mode == 0,
        stmt@.state.needs_requery == 0,
        stmt@.state.metadata_only_result == 0,
        stmt@.state.decoded_blob_row == -1,
        stmt@.state.cached_row == -1,
        stmt@.state.ref_count == 0,
        stmt@.state.shadow_stmt == 0,
        stmt@.state.cached_result == 0,
        stmt@.state.sql_hash == 0,
        stmt@.state.use_prepared == 0,
        stmt@.state.current_row == 0,
        stmt@.state.num_rows == 0,
        stmt@.state.num_cols == 0,
        stmt@.state.is_pg == 0,
        stmt@.state.is_cached == 0,
        stmt@.state.is_count_query == 0,
        stmt@.state.write_executed == 0,
        stmt@.state.read_done == 0,
        stmt@.state.in_step == 0,
        stmt@.state.executing_thread == 0,
        stmt@.state.num_col_names == 0,
        stmt@.state.param_count == 0,
        stmt@.state.col_tables_resolved == 0,
        forall|i: int| 0 <= i < 32 ==> stmt@.state.stmt_name@[i] == 0,
        stmt@.state.param_values@.len() == 0,
        stmt@.state.param_lengths@.len() == 0,
        stmt@.state.param_formats@.len() == 0,
        stmt@.state.param_buffers@.len() == 0,
        stmt@.state.decoded_blobs@.len() == 0,
        stmt@.state.cached_text@.len() == 0,
        stmt@.state.col_table_names@.len() == 0,
        reexecution::step_left(stmt@, 1) == ReexecutionStep::Proceed,
{
}

/// A complete result changes hands and nothing else: the statement keeps its
/// place in it.
pub proof fn law_adopted_result_keeps_its_place(
    stmt: &mut PgStmt,
    conns: &mut ConnTable,
    exec_conn: usize,
    this_thread: u64,
    adopted: bool,
)
    requires
        ffi_types::valid_handle(old(conns)@, old(stmt)@.handles.result_conn),
        ffi_types::valid_handle(old(conns)@, exec_conn),
        call_ensures(
            adopt_materialized_result_owner,
            (Some(stmt), conns, exec_conn, this_thread),
            adopted,
        ),
    ensures
        adopted <==> exec_conn != 0 && exec_conn != old(stmt)@.handles.result_conn
            && old(stmt)@.state.result != 0 && old(stmt)@.state.streaming_mode == 0,
        final(stmt)@.state.result == old(stmt)@.state.result,
        final(stmt)@.state.current_row == old(stmt)@.state.current_row,
        final(stmt)@.state.num_rows == old(stmt)@.state.num_rows,
        final(stmt)@.state.num_cols == old(stmt)@.state.num_cols,
        final(stmt)@.state.read_done == old(stmt)@.state.read_done,
        (StmtState {
            executing_thread: old(stmt)@.state.executing_thread,
            ..final(stmt)@.state
        }) == old(stmt)@.state,
        final(stmt)@.handles.conn == old(stmt)@.handles.conn,
        final(stmt)@.handles.streaming_conn == old(stmt)@.handles.streaming_conn,
        adopted ==> {
            &&& final(stmt)@.handles.result_conn == exec_conn
            &&& final(stmt)@.state.executing_thread == this_thread
            &&& holder_has_moved(
                old(conns)@,
                final(conns)@,
                old(stmt)@.handles.result_conn,
                exec_conn,
            )
        },
        !adopted ==> final(stmt)@ == old(stmt)@ && final(conns)@ == old(conns)@,
{
}

/// A statement with a complete result that does more than describe its columns
/// is made ready for any connection and thread without losing its place in it.
pub proof fn law_ready_statement_keeps_its_place(
    stmt: &mut PgStmt,
    conns: &mut ConnTable,
    exec_conn: usize,
    this_thread: u64,
    step: ReexecutionStep,
)
    requires
        ffi_types::valid_handle(old(conns)@, old(stmt)@.handles.result_conn),
        ffi_types::valid_handle(old(conns)@, exec_conn),
        call_ensures(
            rust_step_read_prepare_reexecution_state,
            (Some(stmt), conns, exec_conn, this_thread),
            step,
        ),
        old(stmt)@.state.result != 0,
        old(stmt)@.state.streaming_mode == 0,
        old(stmt)@.state.metadata_only_result == 0,
    ensures
        step == ReexecutionStep::Proceed,
        final(stmt)@.state.result == old(stmt)@.state.result,
        final(stmt)@.state.current_row == old(stmt)@.state.current_row,
        final(stmt)@.state.num_rows == old(stmt)@.state.num_rows,
        final(stmt)@.state.num_cols == old(stmt)@.state.num_cols,
        final(stmt)@.state.read_done == old(stmt)@.state.read_done,
        final(stmt)@.state.needs_requery == old(stmt)@.state.needs_requery,
        exec_conn != 0 ==> final(stmt)@.handles.result_conn == exec_conn,
        exec_conn == 0 || exec_conn == old(stmt)@.handles.result_conn ==> final(stmt)@ == old(stmt)@ && final(conns)@ == old(conns)@,
{
    reexecution::law_complete_result_keeps_its_place(old(stmt)@, exec_conn, this_thread);
}

/// A stream that comes from another connection is ended, and the query marked to
/// be run again; the same is asked by the function that tells so beforehand.
pub proof fn law_stream_from_elsewhere_is_ended(
    seen: &PgStmt,
    clear: bool,
    stmt: &mut PgStmt,
    conns: &mut ConnTable,
    exec_conn: usize,
    this_thread: u64,
    step: ReexecutionStep,
)
    requires
        call_ensures(should_clear_cross_thread_result, (Some(seen), exec_conn), clear),
        *seen == *old(stmt),
        ffi_types::valid_handle(old(conns)@, old(stmt)@.handles.result_conn),
        ffi_types::valid_handle(old(conns)@, exec_conn),
        call_ensures(
            rust_step_read_prepare_reexecution_state,
            (Some(stmt), conns, exec_conn, this_thread),
            step,
        ),
    ensures
        clear <==> exec_conn != 0 && seen@.state.streaming_mode != 0
            && seen@.handles.result_conn != exec_conn,
        clear <==> step == ReexecutionStep::ClearResult,
        clear ==> {
            &&& final(stmt)@.state.needs_requery == 1
            &&& final(stmt)@.handles == old(stmt)@.handles
            &&& final(conns)@ == old(conns)@
            &&& (StmtState {
                needs_requery: old(stmt)@.state.needs_requery,
                ..final(stmt)@.state
            }) == old(stmt)@.state
        },
        !clear ==> final(stmt)@.state.needs_requery == old(stmt)@.state.needs_requery,
{
}

/// A result that only describes the columns is handed out to be freed, once.
pub proof fn law_description_is_freed_once(
    stmt: &mut PgStmt,
    next: &mut PgStmt,
    step: ReexecutionStep,
    again: ReexecutionStep,
)
    requires
        call_ensures(drop_metadata_only_result, (stmt,), step),
        *old(next) == *final(stmt),
        call_ensures(drop_metadata_only_result, (next,), again),
    ensures
        old(stmt)@.state.result != 0 && old(stmt)@.state.metadata_only_result != 0 ==> {
            &&& step == ReexecutionStep::FreeResult(old(stmt)@.state.result)
            &&& final(stmt)@.state.result == 0
            &&& final(stmt)@.state.metadata_only_result == 0
            &&& final(stmt)@.state.current_row == -1
            &&& final(stmt)@.handles == old(stmt)@.handles
            &&& final(stmt)@.state.num_rows == old(stmt)@.state.num_rows
            &&& final(stmt)@.state.num_cols == old(stmt)@.state.num_cols
            &&& final(stmt)@.state.needs_requery == old(stmt)@.state.needs_requery
        },
        old(stmt)@.state.result == 0 || old(stmt)@.state.metadata_only_result == 0 ==> step
            == ReexecutionStep::Proceed && final(stmt)@ == old(stmt)@,
        again == ReexecutionStep::Proceed,
        final(next)@ == final(stmt)@,
{
}

/// A statement streams unless that is switched off, it is to be run again, or its
/// text asks for one row.
pub proof fn law_statement_streams_unless_told_otherwise(
    stmt: &PgStmt,
    disabled: bool,
    before: Seq<u8>,
    words: Seq<u8>,
    after: Seq<u8>,
    streams: bool,
)
    requires
        call_ensures(should_use_streaming, (Some(stmt), disabled), streams),
        reexecution::spells_limit_one(words),
    ensures
        disabled ==> !streams,
        stmt@.state.needs_requery != 0 ==> !streams,
        stmt@.state.pg_sql is Some && stmt@.state.pg_sql->0@ == before + words + after ==> !streams,
        stmt@.state.sql is Some && stmt@.state.sql->0@ == before + words + after ==> !streams,
        !disabled && stmt@.state.needs_requery == 0 && !reexecution::text_of(
            stmt@.state.sql,
        ).contains(0x6c) && !reexecution::text_of(stmt@.state.sql).contains(0x4c)
            && !reexecution::text_of(stmt@.state.pg_sql).contains(0x6c) && !reexecution::text_of(
            stmt@.state.pg_sql,
        ).contains(0x4c) ==> streams,
{
    reexecution::law_limit_one_is_found(before, words, after);
    let sql = reexecution::text_of(stmt@.state.sql);
    let pg_sql = reexecution::text_of(stmt@.state.pg_sql);
    if !sql.contains(0x6c) && !sql.contains(0x4c) && !pg_sql.contains(0x6c) && !pg_sql.contains(
        0x4c,
    ) {
        reexecution::law_text_without_the_letter_has_no_limit(sql);
        reexecution::law_text_without_the_letter_has_no_limit(pg_sql);
    }
}

/// A thread steps on the connection that it streams from as long as that is
/// open; another thread, and one that streams from nothing, is given none.
pub proof fn law_own_stream_is_found(stmt: &PgStmt, conns: &ConnTable, thread: u64, conn: usize)
    requires
        stmt@.state.streaming_mode != 0 ==> ffi_types::valid_handle(
            conns@,
            stmt@.handles.streaming_conn,
        ),
        call_ensures(streaming_conn_for_this_thread, (Some(stmt), conns, thread), conn),
    ensures
        stmt@.state.streaming_mode != 0 && stmt@.handles.streaming_conn != 0
            && conns@[stmt@.handles.streaming_conn].conn != 0 && thread
            == stmt@.state.executing_thread ==> conn == stmt@.handles.streaming_conn,
        stmt@.state.streaming_mode == 0 || thread != stmt@.state.executing_thread ==> conn == 0,
        stmt@.handles.streaming_conn == 0 || conns@[stmt@.handles.streaming_conn].conn == 0
            ==> conn == 0,
{
}

/// A handle reads back what it was set to, and the others what they were set to
/// before.
pub proof fn law_handles_read_back(
    first: &mut PgStmt,
    second: &mut PgStmt,
    third: &mut PgStmt,
    conns: &mut ConnTable,
    more: &mut ConnTable,
    last: &mut ConnTable,
    after: &PgStmt,
    a: usize,
    b: usize,
    c: usize,
    conn: usize,
    result_conn: usize,
    streaming_conn: usize,
)
    requires
        call_ensures(PgStmt::set_conn, (first, conns, a), ()),
        *old(second) == *final(first),
        call_ensures(PgStmt::set_result_conn, (second, more, b), ()),
        *old(third) == *final(second),
        call_ensures(PgStmt::set_streaming_conn, (third, last, c), ()),
        *after == *final(third),
        call_ensures(PgStmt::conn, (after,), conn),
        call_ensures(PgStmt::result_conn, (after,), result_conn),
        call_ensures(PgStmt::streaming_conn, (after,), streaming_conn),
    ensures
        conn == a,
        result_conn == b,
        streaming_conn == c,
{
}

/// A connection that was recorded is found, and no other is concerned.
pub proof fn law_recorded_connection_is_found(
    empty: ConnTable,
    table: &mut ConnTable,
    after: &ConnTable,
    handle: usize,
    other: usize,
    conn: PgConnection,
    found: Option<&PgConnection>,
    others: Option<&PgConnection>,
)
    requires
        call_ensures(ConnTable::new, (), empty),
        !old(table)@.contains_key(handle),
        call_ensures(ConnTable::insert, (table, handle, conn), ()),
        *after == *final(table),
        call_ensures(ConnTable::get, (after, handle), found),
        call_ensures(ConnTable::get, (after, other), others),
        other != handle,
    ensures
        found == Some(&conn),
        others is Some <==> old(table)@.contains_key(other),
        others is Some ==> *others->0 == old(table)@[other],
        !empty@.contains_key(handle),
{
}

} // verus!
