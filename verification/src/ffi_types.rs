//! Statements, pooled connections, and the counting that keeps a connection
//! alive for as long as anything still points at it.
//!
//! Foreign objects are named by handles: the address of the object as a plain
//! number, with zero for the null pointer. A [`ConnTable`] holds the
//! connections that are currently allocated, by handle.

use std::collections::HashMap;

use vstd::prelude::*;

verus! {

broadcast use vstd::std_specs::hash::group_hash_axioms;

pub const DB_PATH_LEN: usize = 1024;

pub const LAST_ERROR_LEN: usize = 1024;

pub const STMT_NAME_LEN: usize = 32;

pub const PARAM_BUF_LEN: usize = 32;

/// A database handle of the SQLite API. Opaque: only its address is used.
#[allow(non_camel_case_types)]
pub struct sqlite3 {
    _private: [u8; 0],
}

/// A statement handle of the SQLite API. Opaque: only its address is used.
#[allow(non_camel_case_types)]
pub struct sqlite3_stmt {
    _private: [u8; 0],
}

/// A value handle of the SQLite API. Opaque: only its address is used.
#[allow(non_camel_case_types)]
pub struct sqlite3_value {
    _private: [u8; 0],
}

/// A pooled PostgreSQL connection.
pub struct PgConnection {
    /// The libpq handle, zero when there is none.
    pub conn: usize,
    /// The SQLite database this connection stands in for.
    pub shadow_db: usize,
    pub db_path: [u8; DB_PATH_LEN],
    pub is_pg_active: i32,
    pub last_changes: i32,
    pub last_insert_rowid: i64,
    pub last_generator_metadata_id: i64,
    pub last_error: [u8; LAST_ERROR_LEN],
    pub last_error_code: i32,
    pub streaming_active: i32,
    /// How many holders still point at this struct: one is the pool slot, and
    /// one is every statement pointer that names this connection.
    pub ref_count: i32,
}

/// The connections that are allocated, by handle.
pub struct ConnTable {
    map: HashMap<usize, PgConnection>,
}

impl View for ConnTable {
    type V = Map<usize, PgConnection>;

    closed spec fn view(&self) -> Map<usize, PgConnection> {
        self.map@
    }
}

/// A handle that may be followed: null, or the handle of an allocated
/// connection.
pub open spec fn valid_handle(conns: Map<usize, PgConnection>, conn: usize) -> bool {
    conn == 0 || conns.contains_key(conn)
}

/// `c` with another reference count.
pub open spec fn with_refs(c: PgConnection, refs: i32) -> PgConnection {
    PgConnection { ref_count: refs, ..c }
}

/// The count one more holder leaves behind; it wraps, as the hardware counter
/// does.
pub open spec fn one_more(refs: i32) -> i32 {
    if refs == i32::MAX {
        i32::MIN
    } else {
        (refs + 1) as i32
    }
}

/// The table after one more holder of `conn` has been counted.
pub open spec fn after_ref(conns: Map<usize, PgConnection>, conn: usize) -> Map<
    usize,
    PgConnection,
> {
    if conn == 0 {
        conns
    } else {
        conns.insert(conn, with_refs(conns[conn], one_more(conns[conn].ref_count)))
    }
}

/// Whether letting go of `conn` lets go of its last reference.
pub open spec fn unref_frees(conns: Map<usize, PgConnection>, conn: usize) -> bool {
    conn != 0 && conns[conn].ref_count == 1
}

/// The table after one holder of `conn` has let go: the connection is gone
/// with its last reference, and a count that nobody held is left alone.
pub open spec fn after_unref(conns: Map<usize, PgConnection>, conn: usize) -> Map<
    usize,
    PgConnection,
> {
    if conn == 0 || conns[conn].ref_count < 1 {
        conns
    } else if conns[conn].ref_count == 1 {
        conns.remove(conn)
    } else {
        conns.insert(conn, with_refs(conns[conn], (conns[conn].ref_count - 1) as i32))
    }
}

/// The table after a holder of `from` has become a holder of `to`.
pub open spec fn after_replace(
    conns: Map<usize, PgConnection>,
    from: usize,
    to: usize,
) -> Map<usize, PgConnection> {
    if from == to {
        conns
    } else {
        after_unref(after_ref(conns, to), from)
    }
}

impl ConnTable {
    /// A table with no connection in it.
    pub fn new() -> (table: ConnTable)
        ensures
            table@ == Map::<usize, PgConnection>::empty(),
    {
        ConnTable { map: HashMap::new() }
    }

    /// Records a connection that was allocated at `handle`.
    pub fn insert(&mut self, handle: usize, conn: PgConnection)
        requires
            handle != 0,
            !old(self)@.contains_key(handle),
        ensures
            final(self)@ == old(self)@.insert(handle, conn),
    {
        self.map.insert(handle, conn);
    }

    /// The connection at `handle`, if one is allocated there.
    pub fn get(&self, handle: usize) -> (conn: Option<&PgConnection>)
        ensures
            conn == (if self@.contains_key(handle) {
                Some(&self@[handle])
            } else {
                None
            }),
    {
        self.map.get(&handle)
    }

    /// Takes the connection at `handle` out, to be put back or dropped.
    pub(crate) fn take(&mut self, handle: usize) -> (conn: PgConnection)
        requires
            old(self)@.contains_key(handle),
        ensures
            final(self)@ == old(self)@.remove(handle),
            conn == old(self)@[handle],
    {
        let found = self.map.remove(&handle);
        found.unwrap()
    }

    /// Puts a connection that was taken out back at `handle`.
    pub(crate) fn put_back(&mut self, handle: usize, conn: PgConnection)
        ensures
            final(self)@ == old(self)@.insert(handle, conn),
    {
        self.map.insert(handle, conn);
    }
}

/// Takes a reference to a pooled connection. Null is ignored, because the
/// pointers a statement holds are null more often than not.
pub fn conn_ref(conns: &mut ConnTable, conn: usize)
    requires
        valid_handle(old(conns)@, conn),
    ensures
        final(conns)@ == after_ref(old(conns)@, conn),
{
    if conn == 0 {
        return;
    }
    let mut c = conns.take(conn);
    c.ref_count = c.ref_count.wrapping_add(1);
    conns.put_back(conn, c);
    assert(conns@ =~= after_ref(old(conns)@, conn));
}

/// Drops a reference, freeing the connection when the last holder lets go.
/// Returns whether this call did the freeing.
///
/// A count below one means that something released the connection twice.
/// Nothing is freed then and the count stays as it is: a leaked connection is
/// survivable, a double free is not.
pub fn conn_unref(conns: &mut ConnTable, conn: usize) -> (freed: bool)
    requires
        valid_handle(old(conns)@, conn),
    ensures
        freed == unref_frees(old(conns)@, conn),
        final(conns)@ == after_unref(old(conns)@, conn),
{
    if conn == 0 {
        return false;
    }
    let mut c = conns.take(conn);
    let previous = c.ref_count;
    if previous == 1 {
        return true;
    }
    if previous > 1 {
        c.ref_count = previous - 1;
    }
    conns.put_back(conn, c);
    assert(conns@ =~= after_unref(old(conns)@, conn));
    false
}

/// How many holders a connection has; none for null.
pub fn conn_refs(conns: &ConnTable, conn: usize) -> (refs: i32)
    requires
        valid_handle(conns@, conn),
    ensures
        refs == (if conn == 0 {
            0
        } else {
            conns@[conn].ref_count
        }),
{
    if conn == 0 {
        return 0;
    }
    match conns.get(conn) {
        Some(c) => c.ref_count,
        None => 0,
    }
}

/// Swaps one held connection for another, counting both.
///
/// The new reference is taken before the old one is dropped, so replacing a
/// handle with itself cannot briefly reach zero and free the connection the
/// caller is still using.
fn replace_conn(conns: &mut ConnTable, from: usize, to: usize) -> (held: usize)
    requires
        valid_handle(old(conns)@, from),
        valid_handle(old(conns)@, to),
    ensures
        held == to,
        final(conns)@ == after_replace(old(conns)@, from, to),
{
    if from == to {
        return to;
    }
    conn_ref(conns, to);
    conn_unref(conns, from);
    to
}

/// `s` brought to length `n`: cut, or padded with `v`.
pub open spec fn resized<T>(s: Seq<T>, n: nat, v: T) -> Seq<T> {
    Seq::new(
        n,
        |i: int|
            if i < s.len() {
                s[i]
            } else {
                v
            },
    )
}

/// Which connections a statement points at; zero where it points at none.
pub struct Handles {
    pub conn: usize,
    pub result_conn: usize,
    pub streaming_conn: usize,
}

/// The handles of a statement that points at no connection.
pub open spec fn no_handles() -> Handles {
    Handles { conn: 0, result_conn: 0, streaming_conn: 0 }
}

/// All of a statement but the connections it points at.
pub struct StmtState {
    pub ref_count: i32,
    pub shadow_stmt: usize,
    /// The statement's text as it was prepared, without the terminator.
    pub sql: Option<Vec<u8>>,
    /// The text that is sent to PostgreSQL, without the terminator.
    pub pg_sql: Option<Vec<u8>>,
    pub result: usize,
    pub cached_result: usize,
    pub sql_hash: u64,
    pub stmt_name: [u8; STMT_NAME_LEN],
    pub use_prepared: i32,
    pub current_row: i32,
    pub num_rows: i32,
    pub num_cols: i32,
    pub is_pg: i32,
    pub is_cached: i32,
    pub is_count_query: i32,
    pub needs_requery: i32,
    pub write_executed: i32,
    pub read_done: i32,
    pub metadata_only_result: i32,
    pub in_step: i32,
    pub executing_thread: u64,
    pub col_names: usize,
    pub num_col_names: i32,
    pub streaming_mode: i32,
    /// Addresses of the bound parameter values; zero for an unbound one.
    pub param_values: Vec<usize>,
    pub param_lengths: Vec<i32>,
    pub param_formats: Vec<i32>,
    /// Space for the values that are short enough not to need an allocation.
    pub param_buffers: Vec<[u8; PARAM_BUF_LEN]>,
    pub param_count: i32,
    pub param_names: usize,
    pub decoded_blobs: Vec<usize>,
    pub decoded_blob_lens: Vec<i32>,
    pub decoded_blob_row: i32,
    pub cached_text: Vec<usize>,
    pub cached_blob: Vec<usize>,
    pub cached_blob_len: Vec<i32>,
    pub cached_row: i32,
    pub col_table_names: Vec<usize>,
    pub col_tables_resolved: i32,
}

/// A statement of the SQLite API that runs on PostgreSQL.
///
/// The three connection handles are private and reached only through the
/// methods that count, so that no assignment can skip the counting.
pub struct PgStmt {
    conn: usize,
    result_conn: usize,
    streaming_conn: usize,
    pub state: StmtState,
}

/// What a statement is: the connections it points at, and all the rest.
pub ghost struct StmtModel {
    pub handles: Handles,
    pub state: StmtState,
}

impl View for PgStmt {
    type V = StmtModel;

    closed spec fn view(&self) -> StmtModel {
        StmtModel {
            handles: Handles {
                conn: self.conn,
                result_conn: self.result_conn,
                streaming_conn: self.streaming_conn,
            },
            state: self.state,
        }
    }
}

/// A statement as it is before anything has been prepared into it.
pub open spec fn is_blank(stmt: StmtModel) -> bool {
    let s = stmt.state;
    &&& s.ref_count == 0
    &&& stmt.handles == no_handles()
    &&& s.shadow_stmt == 0
    &&& s.sql is None
    &&& s.pg_sql is None
    &&& s.result == 0
    &&& s.cached_result == 0
    &&& s.sql_hash == 0
    &&& s.stmt_name@ == Seq::new(STMT_NAME_LEN as nat, |i: int| 0u8)
    &&& s.use_prepared == 0
    &&& s.current_row == 0
    &&& s.num_rows == 0
    &&& s.num_cols == 0
    &&& s.is_pg == 0
    &&& s.is_cached == 0
    &&& s.is_count_query == 0
    &&& s.needs_requery == 0
    &&& s.write_executed == 0
    &&& s.read_done == 0
    &&& s.metadata_only_result == 0
    &&& s.in_step == 0
    &&& s.executing_thread == 0
    &&& s.col_names == 0
    &&& s.num_col_names == 0
    &&& s.streaming_mode == 0
    &&& s.param_values@.len() == 0
    &&& s.param_lengths@.len() == 0
    &&& s.param_formats@.len() == 0
    &&& s.param_buffers@.len() == 0
    &&& s.param_count == 0
    &&& s.param_names == 0
    &&& s.decoded_blobs@.len() == 0
    &&& s.decoded_blob_lens@.len() == 0
    &&& s.decoded_blob_row == -1
    &&& s.cached_text@.len() == 0
    &&& s.cached_blob@.len() == 0
    &&& s.cached_blob_len@.len() == 0
    &&& s.cached_row == -1
    &&& s.col_table_names@.len() == 0
    &&& s.col_tables_resolved == 0
}

/// `s` brought to length `n` if it is shorter.
pub open spec fn grown<T>(s: Seq<T>, n: nat, v: T) -> Seq<T> {
    if n > s.len() {
        resized(s, n, v)
    } else {
        s
    }
}

/// `after` is `before` brought to length `n`, with zeroed buffers for padding.
pub open spec fn buffers_resized(
    after: Seq<[u8; PARAM_BUF_LEN]>,
    before: Seq<[u8; PARAM_BUF_LEN]>,
    n: nat,
) -> bool {
    &&& after.len() == n
    &&& forall|i: int|
        0 <= i < n ==> if i < before.len() {
            #[trigger] after[i] == before[i]
        } else {
            after[i]@ == Seq::new(PARAM_BUF_LEN as nat, |k: int| 0u8)
        }
}

fn resize_handles(v: &mut Vec<usize>, n: usize)
    ensures
        final(v)@ == resized(old(v)@, n as nat, 0usize),
{
    v.resize(n, 0);
    assert(v@ =~= resized(old(v)@, n as nat, 0usize)) by {
        assert(forall|i: int|
            0 <= i < old(v)@.len() && i < n && n > old(v)@.len() ==> v@.subrange(
                0,
                old(v)@.len() as int,
            )[i] == v@[i]);
    }
}

fn resize_counts(v: &mut Vec<i32>, n: usize)
    ensures
        final(v)@ == resized(old(v)@, n as nat, 0i32),
{
    v.resize(n, 0);
    assert(v@ =~= resized(old(v)@, n as nat, 0i32)) by {
        assert(forall|i: int|
            0 <= i < old(v)@.len() && i < n && n > old(v)@.len() ==> v@.subrange(
                0,
                old(v)@.len() as int,
            )[i] == v@[i]);
    }
}

fn resize_buffers(v: &mut Vec<[u8; PARAM_BUF_LEN]>, n: usize)
    ensures
        buffers_resized(final(v)@, old(v)@, n as nat),
{
    v.resize(n, [0u8; PARAM_BUF_LEN]);
    assert forall|i: int| 0 <= i < n implies if i < old(v)@.len() {
        #[trigger] v@[i] == old(v)@[i]
    } else {
        v@[i]@ == Seq::new(PARAM_BUF_LEN as nat, |k: int| 0u8)
    } by {
        if i < old(v)@.len() {
            if n > old(v)@.len() {
                assert(v@.subrange(0, old(v)@.len() as int)[i] == v@[i]);
            }
        } else {
            assert(v@[i]@ =~= Seq::new(PARAM_BUF_LEN as nat, |k: int| 0u8));
        }
    }
}

impl Default for PgStmt {
    fn default() -> (stmt: Self)
        ensures
            is_blank(stmt@),
    {
        PgStmt::new()
    }
}

impl PgStmt {
    /// Creates a statement with all fields zeroed or empty, but for the two row
    /// markers of the column caches, where -1 stands for no row.
    pub fn new() -> (stmt: Self)
        ensures
            is_blank(stmt@),
    {
        let state = StmtState {
            ref_count: 0,
            shadow_stmt: 0,
            sql: None,
            pg_sql: None,
            result: 0,
            cached_result: 0,
            sql_hash: 0,
            stmt_name: [0u8; STMT_NAME_LEN],
            use_prepared: 0,
            current_row: 0,
            num_rows: 0,
            num_cols: 0,
            is_pg: 0,
            is_cached: 0,
            is_count_query: 0,
            needs_requery: 0,
            write_executed: 0,
            read_done: 0,
            metadata_only_result: 0,
            in_step: 0,
            executing_thread: 0,
            col_names: 0,
            num_col_names: 0,
            streaming_mode: 0,
            param_values: Vec::new(),
            param_lengths: Vec::new(),
            param_formats: Vec::new(),
            param_buffers: Vec::new(),
            param_count: 0,
            param_names: 0,
            decoded_blobs: Vec::new(),
            decoded_blob_lens: Vec::new(),
            decoded_blob_row: -1,
            cached_text: Vec::new(),
            cached_blob: Vec::new(),
            cached_blob_len: Vec::new(),
            cached_row: -1,
            col_table_names: Vec::new(),
            col_tables_resolved: 0,
        };
        assert(state.stmt_name@ =~= Seq::new(STMT_NAME_LEN as nat, |i: int| 0u8));
        PgStmt { conn: 0, result_conn: 0, streaming_conn: 0, state }
    }

    /// All of the statement but its connections.
    pub fn state(&self) -> (state: &StmtState)
        ensures
            *state == self@.state,
    {
        &self.state
    }

    /// All of the statement but its connections, to be changed.
    pub fn state_mut(&mut self) -> (state: &mut StmtState)
        ensures
            *state == old(self)@.state,
            final(self)@ == (StmtModel { state: *final(state), ..old(self)@ }),
    {
        &mut self.state
    }

    /// The connection this statement was prepared on.
    pub fn conn(&self) -> (handle: usize)
        ensures
            handle == self@.handles.conn,
    {
        self.conn
    }

    /// The connection the current result belongs to, which need not be the one
    /// the statement was prepared on.
    pub fn result_conn(&self) -> (handle: usize)
        ensures
            handle == self@.handles.result_conn,
    {
        self.result_conn
    }

    /// The connection claimed for streaming, which must be drained before it
    /// goes back to the pool.
    pub fn streaming_conn(&self) -> (handle: usize)
        ensures
            handle == self@.handles.streaming_conn,
    {
        self.streaming_conn
    }

    /// Points this statement at a connection, taking a reference to it and
    /// letting go of the one it held.
    pub fn set_conn(&mut self, conns: &mut ConnTable, conn: usize)
        requires
            valid_handle(old(conns)@, old(self)@.handles.conn),
            valid_handle(old(conns)@, conn),
        ensures
            final(conns)@ == after_replace(old(conns)@, old(self)@.handles.conn, conn),
            final(self)@ == (StmtModel {
                handles: Handles { conn, ..old(self)@.handles },
                ..old(self)@
            }),
    {
        self.conn = replace_conn(conns, self.conn, conn);
    }

    /// Records the connection that the current result belongs to, counting as
    /// `set_conn` does.
    pub fn set_result_conn(&mut self, conns: &mut ConnTable, conn: usize)
        requires
            valid_handle(old(conns)@, old(self)@.handles.result_conn),
            valid_handle(old(conns)@, conn),
        ensures
            final(conns)@ == after_replace(old(conns)@, old(self)@.handles.result_conn, conn),
            final(self)@ == (StmtModel {
                handles: Handles { result_conn: conn, ..old(self)@.handles },
                ..old(self)@
            }),
    {
        self.result_conn = replace_conn(conns, self.result_conn, conn);
    }

    /// Records the connection that was claimed for streaming, counting as
    /// `set_conn` does.
    pub fn set_streaming_conn(&mut self, conns: &mut ConnTable, conn: usize)
        requires
            valid_handle(old(conns)@, old(self)@.handles.streaming_conn),
            valid_handle(old(conns)@, conn),
        ensures
            final(conns)@ == after_replace(old(conns)@, old(self)@.handles.streaming_conn, conn),
            final(self)@ == (StmtModel {
                handles: Handles { streaming_conn: conn, ..old(self)@.handles },
                ..old(self)@
            }),
    {
        self.streaming_conn = replace_conn(conns, self.streaming_conn, conn);
    }

    /// Lets go of all three, for when the statement itself is going away.
    pub fn release_conns(&mut self, conns: &mut ConnTable)
        requires
            releasable(old(conns)@, old(self)@.handles),
        ensures
            final(conns)@ == after_release(old(conns)@, old(self)@.handles),
            final(self)@ == (StmtModel { handles: no_handles(), ..old(self)@ }),
    {
        self.set_conn(conns, 0);
        self.set_result_conn(conns, 0);
        self.set_streaming_conn(conns, 0);
    }

    /// Ensures the parameter arrays hold at least `count` elements.
    pub fn ensure_param_capacity(&mut self, count: usize)
        ensures
            count <= old(self)@.state.param_values@.len() ==> final(self)@ == old(self)@,
            count > old(self)@.state.param_values@.len() ==> {
                &&& final(self)@.state.param_values@ == resized(
                    old(self)@.state.param_values@,
                    count as nat,
                    0usize,
                )
                &&& final(self)@.state.param_lengths@ == resized(
                    old(self)@.state.param_lengths@,
                    count as nat,
                    0i32,
                )
                &&& final(self)@.state.param_formats@ == resized(
                    old(self)@.state.param_formats@,
                    count as nat,
                    0i32,
                )
                &&& buffers_resized(
                    final(self)@.state.param_buffers@,
                    old(self)@.state.param_buffers@,
                    count as nat,
                )
            },
            final(self)@ == (StmtModel {
                state: StmtState {
                    param_values: final(self)@.state.param_values,
                    param_lengths: final(self)@.state.param_lengths,
                    param_formats: final(self)@.state.param_formats,
                    param_buffers: final(self)@.state.param_buffers,
                    ..old(self)@.state
                },
                ..old(self)@
            }),
    {
        if count > self.state.param_values.len() {
            resize_handles(&mut self.state.param_values, count);
            resize_counts(&mut self.state.param_lengths, count);
            resize_counts(&mut self.state.param_formats, count);
            resize_buffers(&mut self.state.param_buffers, count);
        }
    }

    /// Ensures the column caches hold at least `count` elements.
    pub fn ensure_column_capacity(&mut self, count: usize)
        ensures
            final(self)@.state.decoded_blobs@ == grown(old(self)@.state.decoded_blobs@, count as nat, 0usize),
            final(self)@.state.decoded_blob_lens@ == (if count > old(self)@.state.decoded_blobs@.len() {
                resized(old(self)@.state.decoded_blob_lens@, count as nat, 0i32)
            } else {
                old(self)@.state.decoded_blob_lens@
            }),
            final(self)@.state.cached_text@ == grown(old(self)@.state.cached_text@, count as nat, 0usize),
            final(self)@.state.cached_blob@ == (if count > old(self)@.state.cached_text@.len() {
                resized(old(self)@.state.cached_blob@, count as nat, 0usize)
            } else {
                old(self)@.state.cached_blob@
            }),
            final(self)@.state.cached_blob_len@ == (if count > old(self)@.state.cached_text@.len() {
                resized(old(self)@.state.cached_blob_len@, count as nat, 0i32)
            } else {
                old(self)@.state.cached_blob_len@
            }),
            final(self)@.state.col_table_names@ == grown(old(self)@.state.col_table_names@, count as nat, 0usize),
            final(self)@ == (StmtModel {
                state: StmtState {
                    decoded_blobs: final(self)@.state.decoded_blobs,
                    decoded_blob_lens: final(self)@.state.decoded_blob_lens,
                    cached_text: final(self)@.state.cached_text,
                    cached_blob: final(self)@.state.cached_blob,
                    cached_blob_len: final(self)@.state.cached_blob_len,
                    col_table_names: final(self)@.state.col_table_names,
                    ..old(self)@.state
                },
                ..old(self)@
            }),
    {
        if count > self.state.decoded_blobs.len() {
            resize_handles(&mut self.state.decoded_blobs, count);
            resize_counts(&mut self.state.decoded_blob_lens, count);
        }
        if count > self.state.cached_text.len() {
            resize_handles(&mut self.state.cached_text, count);
            resize_handles(&mut self.state.cached_blob, count);
            resize_counts(&mut self.state.cached_blob_len, count);
        }
        if count > self.state.col_table_names.len() {
            resize_handles(&mut self.state.col_table_names, count);
        }
    }

    /// Whether the value bound at `idx` lies in the statement's own buffer for
    /// that parameter, given the address `buffer` that the buffer has.
    pub fn is_preallocated_buffer(&self, idx: usize, buffer: usize) -> (inside: bool)
        ensures
            inside <==> {
                &&& idx < self@.state.param_values@.len()
                &&& idx < self@.state.param_buffers@.len()
                &&& self@.state.param_values@[idx as int] != 0
                &&& buffer <= self@.state.param_values@[idx as int] < buffer + PARAM_BUF_LEN
            },
    {
        if idx >= self.state.param_values.len() || idx >= self.state.param_buffers.len() {
            return false;
        }
        let val = self.state.param_values[idx];
        if val == 0 {
            return false;
        }
        val >= buffer && val - buffer < PARAM_BUF_LEN
    }
}

/// Letting go of a statement's three handles one after the other never follows
/// a handle whose connection an earlier step has freed.
pub open spec fn releasable(conns: Map<usize, PgConnection>, held: Handles) -> bool {
    let after_first = after_replace(conns, held.conn, 0);
    let after_second = after_replace(after_first, held.result_conn, 0);
    &&& valid_handle(conns, held.conn)
    &&& valid_handle(after_first, held.result_conn)
    &&& valid_handle(after_second, held.streaming_conn)
}

/// The table after a statement has let go of its three handles.
pub open spec fn after_release(conns: Map<usize, PgConnection>, held: Handles) -> Map<
    usize,
    PgConnection,
> {
    after_replace(
        after_replace(after_replace(conns, held.conn, 0), held.result_conn, 0),
        held.streaming_conn,
        0,
    )
}

} // verus!
