//! What has to happen to a statement's result before the statement is stepped
//! again on a given connection.

use vstd::prelude::*;

use crate::ffi_types;
use crate::ffi_types::{ConnTable, PgStmt, StmtModel, StmtState};
use crate::text;

verus! {

/// The statement streams its result from a connection that is not the one it
/// is about to be stepped on.
pub open spec fn streams_elsewhere(stmt: StmtModel, exec_conn: usize) -> bool {
    &&& exec_conn != 0
    &&& stmt.handles.result_conn != exec_conn
    &&& stmt.state.streaming_mode != 0
}

/// Whether a statement's result has to be dropped because another thread, with
/// another connection, steps a statement that is still streaming.
pub fn should_clear_cross_thread_result(stmt: Option<&PgStmt>, exec_conn: usize) -> (clear: bool)
    ensures
        clear <==> (stmt matches Some(s) && streams_elsewhere(s@, exec_conn)),
{
    match stmt {
        Some(s) => {
            if exec_conn == 0 {
                return false;
            }
            if s.result_conn() == exec_conn {
                return false;
            }
            s.state().streaming_mode != 0
        },
        None => false,
    }
}

/// The bytes of `limit 1`.
pub open spec fn limit_one() -> Seq<u8> {
    seq!['l' as u8, 'i' as u8, 'm' as u8, 'i' as u8, 't' as u8, ' ' as u8, '1' as u8]
}

/// The text a statement holds; nothing where it holds none.
pub open spec fn text_of(sql: Option<Vec<u8>>) -> Seq<u8> {
    match sql {
        Some(bytes) => bytes@,
        None => Seq::empty(),
    }
}

fn mentions_limit_one(sql: &Option<Vec<u8>>) -> (found: bool)
    ensures
        found == text::contains_icase(text_of(*sql), limit_one()),
{
    let part: [u8; 7] = ['l' as u8, 'i' as u8, 'm' as u8, 'i' as u8, 't' as u8, ' ' as u8, '1' as u8];
    assert(part@ =~= limit_one());
    match sql {
        Some(bytes) => text::contains_icase_bytes(bytes.as_slice(), part.as_slice()),
        None => {
            assert(forall|at: int| !text::icase_at(text_of(*sql), limit_one(), at));
            false
        },
    }
}

/// Whether a statement may stream its rows rather than fetch them all.
///
/// A statement that is to be run again eagerly does not stream, and neither
/// does one whose text, as it was written or as it is sent, asks for one row.
pub fn should_use_streaming(stmt: Option<&PgStmt>, disable_streaming_env: bool) -> (streams: bool)
    ensures
        streams <==> {
            &&& !disable_streaming_env
            &&& stmt is Some
            &&& stmt->0@.state.needs_requery == 0
            &&& !text::contains_icase(text_of(stmt->0@.state.pg_sql), limit_one())
            &&& !text::contains_icase(text_of(stmt->0@.state.sql), limit_one())
        },
{
    if disable_streaming_env {
        return false;
    }
    match stmt {
        Some(s) => {
            if s.state().needs_requery != 0 {
                return false;
            }
            if mentions_limit_one(&s.state().pg_sql) {
                return false;
            }
            if mentions_limit_one(&s.state().sql) {
                return false;
            }
            true
        },
        None => false,
    }
}

/// The statement has a complete result that another connection fetched.
pub open spec fn adoptable(stmt: StmtModel, exec_conn: usize) -> bool {
    &&& exec_conn != 0
    &&& stmt.state.result != 0
    &&& stmt.state.streaming_mode == 0
    &&& stmt.handles.result_conn != exec_conn
}

/// The statement with that result counted as `exec_conn`'s, and as run by this
/// thread.
pub open spec fn adopted_by(stmt: StmtModel, exec_conn: usize, this_thread: u64) -> StmtModel {
    StmtModel {
        handles: ffi_types::Handles { result_conn: exec_conn, ..stmt.handles },
        state: StmtState { executing_thread: this_thread, ..stmt.state },
    }
}

/// Lets a statement keep a complete result when it is stepped on another
/// connection: the result is counted as that connection's from here on, and
/// the statement as run by this thread.
pub fn adopt_materialized_result_owner(
    stmt: Option<&mut PgStmt>,
    conns: &mut ConnTable,
    exec_conn: usize,
    this_thread: u64,
) -> (adopted: bool)
    requires
        stmt matches Some(s) ==> ffi_types::valid_handle(old(conns)@, s@.handles.result_conn),
        ffi_types::valid_handle(old(conns)@, exec_conn),
    ensures
        stmt is None ==> !adopted && final(conns)@ == old(conns)@,
        stmt matches Some(s) ==> {
            &&& adopted == adoptable(s@, exec_conn)
            &&& adopted ==> {
                &&& final(s)@ == adopted_by(s@, exec_conn, this_thread)
                &&& final(conns)@ == ffi_types::after_replace(
                    old(conns)@,
                    s@.handles.result_conn,
                    exec_conn,
                )
            }
            &&& !adopted ==> final(s)@ == s@ && final(conns)@ == old(conns)@
        },
{
    match stmt {
        Some(s) => {
            if exec_conn == 0 {
                return false;
            }
            if s.state().result == 0 || s.state().streaming_mode != 0 || s.result_conn()
                == exec_conn {
                return false;
            }
            s.set_result_conn(conns, exec_conn);
            s.state_mut().executing_thread = this_thread;
            true
        },
        None => false,
    }
}

/// What the caller has left to do before it steps a statement again.
pub enum ReexecutionStep {
    /// Nothing.
    Proceed,
    /// Clear the statement's result, which ends its stream, and then drop what
    /// `drop_metadata_only_result` says.
    ClearResult,
    /// Free this result, which the statement no longer holds.
    FreeResult(usize),
}

/// The statement's result only describes its columns.
pub open spec fn has_metadata_only_result(stmt: StmtModel) -> bool {
    stmt.state.result != 0 && stmt.state.metadata_only_result != 0
}

/// The statement without a result that only describes its columns.
pub open spec fn without_metadata(stmt: StmtModel) -> StmtModel {
    if has_metadata_only_result(stmt) {
        StmtModel {
            state: StmtState {
                result: 0,
                metadata_only_result: 0,
                current_row: -1i32,
                ..stmt.state
            },
            ..stmt
        }
    } else {
        stmt
    }
}

/// What the caller has left to do when such a result was given up.
pub open spec fn freeing(stmt: StmtModel) -> ReexecutionStep {
    if has_metadata_only_result(stmt) {
        ReexecutionStep::FreeResult(stmt.state.result)
    } else {
        ReexecutionStep::Proceed
    }
}

/// The statement with a complete result taken over by `exec_conn` and this
/// thread, where there is one to take over.
pub open spec fn with_result_adopted(
    stmt: StmtModel,
    exec_conn: usize,
    this_thread: u64,
) -> StmtModel {
    if adoptable(stmt, exec_conn) {
        adopted_by(stmt, exec_conn, this_thread)
    } else {
        stmt
    }
}

/// The statement made ready to be stepped on `exec_conn` by this thread, but
/// for [`step_left`].
pub open spec fn prepared(stmt: StmtModel, exec_conn: usize, this_thread: u64) -> StmtModel {
    if streams_elsewhere(stmt, exec_conn) {
        StmtModel { state: StmtState { needs_requery: 1, ..stmt.state }, ..stmt }
    } else {
        without_metadata(with_result_adopted(stmt, exec_conn, this_thread))
    }
}

/// What the caller has left to do when the statement was made ready.
pub open spec fn step_left(stmt: StmtModel, exec_conn: usize) -> ReexecutionStep {
    if streams_elsewhere(stmt, exec_conn) {
        ReexecutionStep::ClearResult
    } else {
        freeing(stmt)
    }
}

/// Gives up a result that only describes the columns, so that the statement
/// runs for its rows. Returns what the caller has left to do.
pub fn drop_metadata_only_result(stmt: &mut PgStmt) -> (step: ReexecutionStep)
    ensures
        final(stmt)@ == without_metadata(old(stmt)@),
        step == freeing(old(stmt)@),
{
    if stmt.state().result != 0 && stmt.state().metadata_only_result != 0 {
        let result = stmt.state().result;
        let state = stmt.state_mut();
        state.result = 0;
        state.metadata_only_result = 0;
        state.current_row = -1;
        return ReexecutionStep::FreeResult(result);
    }
    ReexecutionStep::Proceed
}

/// Makes a statement ready to be stepped on `exec_conn` by this thread.
///
/// A statement that streams from another connection is marked to be run again
/// eagerly, and its result has to be cleared. A complete result is taken over
/// as it is. A result that only describes the columns is given up.
pub fn rust_step_read_prepare_reexecution_state(
    stmt: Option<&mut PgStmt>,
    conns: &mut ConnTable,
    exec_conn: usize,
    this_thread: u64,
) -> (step: ReexecutionStep)
    requires
        stmt matches Some(s) ==> ffi_types::valid_handle(old(conns)@, s@.handles.result_conn),
        ffi_types::valid_handle(old(conns)@, exec_conn),
    ensures
        stmt is None ==> step == ReexecutionStep::Proceed && final(conns)@ == old(conns)@,
        stmt matches Some(s) ==> {
            &&& final(s)@ == prepared(s@, exec_conn, this_thread)
            &&& step == step_left(s@, exec_conn)
            &&& final(conns)@ == (if adoptable(s@, exec_conn) {
                ffi_types::after_replace(old(conns)@, s@.handles.result_conn, exec_conn)
            } else {
                old(conns)@
            })
        },
{
    match stmt {
        Some(s) => {
            if should_clear_cross_thread_result(Some(&*s), exec_conn) {
                s.state_mut().needs_requery = 1;
                return ReexecutionStep::ClearResult;
            }
            adopt_materialized_result_owner(Some(&mut *s), conns, exec_conn, this_thread);
            drop_metadata_only_result(s)
        },
        None => ReexecutionStep::Proceed,
    }
}

/// The connection that a statement streaming on `this_thread` streams from, if
/// that connection is still open; zero otherwise.
pub open spec fn own_stream(
    stmt: StmtModel,
    conns: Map<usize, ffi_types::PgConnection>,
    this_thread: u64,
) -> usize {
    if stmt.state.streaming_mode != 0 && stmt.handles.streaming_conn != 0
        && conns[stmt.handles.streaming_conn].conn != 0 && stmt.state.executing_thread
        == this_thread {
        stmt.handles.streaming_conn
    } else {
        0
    }
}

/// The connection a statement that is mid-stream must keep stepping on, or
/// zero when the pool should be asked as usual.
///
/// A statement streaming on the thread that started it stays on that
/// connection. Another thread stepping it is sent to the pool, and the stream
/// is then cleared and the query run again.
pub fn streaming_conn_for_this_thread(
    stmt: Option<&PgStmt>,
    conns: &ConnTable,
    this_thread: u64,
) -> (conn: usize)
    requires
        stmt matches Some(s) ==> s@.state.streaming_mode != 0 ==> ffi_types::valid_handle(
            conns@,
            s@.handles.streaming_conn,
        ),
    ensures
        conn == match stmt {
            Some(s) => own_stream(s@, conns@, this_thread),
            None => 0,
        },
{
    match stmt {
        Some(s) => {
            if s.state().streaming_mode == 0 {
                return 0;
            }
            let sc = s.streaming_conn();
            if sc == 0 {
                return 0;
            }
            match conns.get(sc) {
                Some(c) => if c.conn == 0 {
                    return 0;
                },
                None => {
                    return 0;
                },
            }
            if s.state().executing_thread != this_thread {
                return 0;
            }
            sc
        },
        None => 0,
    }
}

/// A statement that is stepped on the connection it streams from keeps its
/// result: only stepping it elsewhere ends the stream.
pub proof fn law_own_stream_is_kept(
    stmt: StmtModel,
    conns: Map<usize, ffi_types::PgConnection>,
    this_thread: u64,
)
    requires
        stmt.handles.result_conn == stmt.handles.streaming_conn,
    ensures
        own_stream(stmt, conns, this_thread) != 0 ==> !streams_elsewhere(
            stmt,
            own_stream(stmt, conns, this_thread),
        ),
{
}

/// A thread that did not start a stream is sent to the pool, and whatever
/// other connection it gets there, the stream ends and the query is run again
/// without streaming.
pub proof fn law_another_thread_forces_a_requery(
    stmt: StmtModel,
    conns: Map<usize, ffi_types::PgConnection>,
    this_thread: u64,
    exec_conn: usize,
)
    requires
        stmt.state.streaming_mode != 0,
        stmt.state.executing_thread != this_thread,
        exec_conn != 0,
        exec_conn != stmt.handles.result_conn,
    ensures
        own_stream(stmt, conns, this_thread) == 0,
        step_left(stmt, exec_conn) == ReexecutionStep::ClearResult,
        prepared(stmt, exec_conn, this_thread).state.needs_requery != 0,
{
}

/// Preparing a statement twice for the same connection is preparing it once:
/// the second time finds nothing to do.
pub proof fn law_preparing_again_changes_nothing(
    stmt: StmtModel,
    exec_conn: usize,
    first: u64,
    second: u64,
)
    requires
        !streams_elsewhere(stmt, exec_conn),
    ensures
        prepared(prepared(stmt, exec_conn, first), exec_conn, second) == prepared(
            stmt,
            exec_conn,
            first,
        ),
        step_left(prepared(stmt, exec_conn, first), exec_conn) == ReexecutionStep::Proceed,
{
}

/// A statement with a complete result keeps its place in it, whatever connection
/// and thread it is made ready for: the next step gives the row behind the last
/// one that was read, and nothing but the owner and the thread changes.
pub proof fn law_complete_result_keeps_its_place(
    stmt: StmtModel,
    exec_conn: usize,
    this_thread: u64,
)
    requires
        stmt.state.result != 0,
        stmt.state.streaming_mode == 0,
        stmt.state.metadata_only_result == 0,
    ensures
        ({
            let after = prepared(stmt, exec_conn, this_thread).state;
            &&& after.result == stmt.state.result
            &&& after.current_row == stmt.state.current_row
            &&& after.num_rows == stmt.state.num_rows
            &&& after.num_cols == stmt.state.num_cols
            &&& after.read_done == stmt.state.read_done
            &&& StmtState { executing_thread: stmt.state.executing_thread, ..after } == stmt.state
        }),
        step_left(stmt, exec_conn) == ReexecutionStep::Proceed,
        with_result_adopted(stmt, exec_conn, this_thread).state.current_row
            == stmt.state.current_row,
        without_metadata(stmt) == stmt,
{
}

/// Making a statement ready changes its owner, its thread, its mark to be run
/// again and its result, and nothing else: what it was prepared on, what it
/// streams from, its text, its parameters and its caches stay.
pub proof fn law_preparing_leaves_the_rest_alone(
    stmt: StmtModel,
    exec_conn: usize,
    this_thread: u64,
)
    ensures
        ({
            let after = prepared(stmt, exec_conn, this_thread);
            &&& after.handles.conn == stmt.handles.conn
            &&& after.handles.streaming_conn == stmt.handles.streaming_conn
            &&& StmtState {
                result: stmt.state.result,
                current_row: stmt.state.current_row,
                metadata_only_result: stmt.state.metadata_only_result,
                needs_requery: stmt.state.needs_requery,
                executing_thread: stmt.state.executing_thread,
                ..after.state
            } == stmt.state
        }),
        stmt.state.metadata_only_result == 0 ==> {
            let after = prepared(stmt, exec_conn, this_thread).state;
            after.result == stmt.state.result && after.current_row == stmt.state.current_row
        },
{
}

/// A complete result is counted as the connection's that the statement is
/// stepped on, and the statement as run by the thread that took it over. One
/// that is stepped where its result belongs, or on no connection, keeps both.
pub proof fn law_complete_result_changes_hands(
    stmt: StmtModel,
    exec_conn: usize,
    this_thread: u64,
)
    requires
        stmt.state.result != 0,
        stmt.state.streaming_mode == 0,
    ensures
        ({
            let after = prepared(stmt, exec_conn, this_thread);
            if exec_conn != 0 && exec_conn != stmt.handles.result_conn {
                after.handles.result_conn == exec_conn && after.state.executing_thread
                    == this_thread
            } else {
                after.handles.result_conn == stmt.handles.result_conn
                    && after.state.executing_thread == stmt.state.executing_thread
            }
        }),
        prepared(stmt, exec_conn, this_thread).state.needs_requery == stmt.state.needs_requery,
{
}

/// A result that only describes the columns is handed to the caller to be freed,
/// once, and the statement is left without a row and without a result.
pub proof fn law_description_is_given_up(stmt: StmtModel, exec_conn: usize, this_thread: u64)
    requires
        stmt.state.result != 0,
        stmt.state.metadata_only_result != 0,
        stmt.state.streaming_mode == 0 || exec_conn == 0 || exec_conn == stmt.handles.result_conn,
    ensures
        ({
            let after = prepared(stmt, exec_conn, this_thread);
            &&& step_left(stmt, exec_conn) == ReexecutionStep::FreeResult(stmt.state.result)
            &&& after.state.result == 0
            &&& after.state.metadata_only_result == 0
            &&& after.state.current_row == -1
            &&& step_left(after, exec_conn) == ReexecutionStep::Proceed
        }),
{
}

/// A stream is ended, and the query marked to be run again, exactly where the
/// statement is stepped on a connection other than the one its rows come from;
/// all else is left as it is for the caller to clear.
pub proof fn law_stream_ends_only_elsewhere(stmt: StmtModel, exec_conn: usize, this_thread: u64)
    requires
        stmt.state.streaming_mode != 0,
    ensures
        step_left(stmt, exec_conn) == ReexecutionStep::ClearResult <==> exec_conn != 0 && exec_conn
            != stmt.handles.result_conn,
        exec_conn != 0 && exec_conn != stmt.handles.result_conn ==> {
            let after = prepared(stmt, exec_conn, this_thread);
            &&& after.state.needs_requery == 1
            &&& after.handles == stmt.handles
            &&& StmtState { needs_requery: stmt.state.needs_requery, ..after.state } == stmt.state
        },
        (exec_conn == 0 || exec_conn == stmt.handles.result_conn)
            && stmt.state.metadata_only_result == 0 ==> prepared(stmt, exec_conn, this_thread)
            == stmt,
{
}

/// A statement without a result and without a stream is ready as it is.
pub proof fn law_statement_without_a_result_is_ready(
    stmt: StmtModel,
    exec_conn: usize,
    this_thread: u64,
)
    requires
        stmt.state.result == 0,
        stmt.state.streaming_mode == 0,
    ensures
        prepared(stmt, exec_conn, this_thread) == stmt,
        step_left(stmt, exec_conn) == ReexecutionStep::Proceed,
{
}

/// A thread that streams keeps stepping on the connection it streams from as
/// long as that is open, and no other thread does.
pub proof fn law_stream_belongs_to_its_thread(
    stmt: StmtModel,
    conns: Map<usize, ffi_types::PgConnection>,
    thread: u64,
)
    ensures
        stmt.state.streaming_mode != 0 && conns[stmt.handles.streaming_conn].conn != 0
            && stmt.handles.streaming_conn != 0 && thread == stmt.state.executing_thread
            ==> own_stream(stmt, conns, thread) == stmt.handles.streaming_conn,
        stmt.state.streaming_mode == 0 ==> own_stream(stmt, conns, thread) == 0,
        conns[stmt.handles.streaming_conn].conn == 0 ==> own_stream(stmt, conns, thread) == 0,
        thread != stmt.state.executing_thread ==> own_stream(stmt, conns, thread) == 0,
{
}

/// The seven bytes are the words `limit 1`, in whatever case.
pub open spec fn spells_limit_one(words: Seq<u8>) -> bool {
    &&& words.len() == 7
    &&& words[0] == 0x6c || words[0] == 0x4c
    &&& words[1] == 0x69 || words[1] == 0x49
    &&& words[2] == 0x6d || words[2] == 0x4d
    &&& words[3] == 0x69 || words[3] == 0x49
    &&& words[4] == 0x74 || words[4] == 0x54
    &&& words[5] == 0x20
    &&& words[6] == 0x31
}

/// A text that asks for one row is found out wherever the words stand in it and
/// whatever the case of their letters.
pub proof fn law_limit_one_is_found(before: Seq<u8>, words: Seq<u8>, after: Seq<u8>)
    requires
        spells_limit_one(words),
    ensures
        text::contains_icase(before + words + after, limit_one()),
{
    let s = before + words + after;
    let at = before.len() as int;
    assert forall|k: int| 0 <= k < limit_one().len() implies text::lower_byte(s[at + k])
        == text::lower_byte(#[trigger] limit_one()[k]) by {
        assert(s[at + k] == words[k]);
    }
    assert(text::icase_at(s, limit_one(), at));
}

/// A text in which the letter L, in either case, does not occur asks for no one
/// row.
pub proof fn law_text_without_the_letter_has_no_limit(s: Seq<u8>)
    requires
        !s.contains(0x6c),
        !s.contains(0x4c),
    ensures
        !text::contains_icase(s, limit_one()),
{
    assert forall|at: int| !text::icase_at(s, limit_one(), at) by {
        if text::icase_at(s, limit_one(), at) {
            assert(text::lower_byte(s[at + 0]) == text::lower_byte(limit_one()[0]));
            assert(s.contains(s[at]));
        }
    }
}

} // verus!
