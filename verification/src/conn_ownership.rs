//! What the counting of connection references guarantees, over all live
//! statements and the pool together.

use vstd::multiset::Multiset;
use vstd::prelude::*;

use crate::ffi_types;
use crate::ffi_types::{Handles, PgConnection};

verus! {

/// One if a handle names `c`, else zero.
pub open spec fn names(handle: usize, c: usize) -> int {
    if handle == c {
        1
    } else {
        0
    }
}

/// How many of a statement's three handles name `c`.
pub open spec fn holds(held: Handles, c: usize) -> int {
    names(held.conn, c) + names(held.result_conn, c) + names(held.streaming_conn, c)
}

/// How many handles of all these statements name `c`.
pub open spec fn total_holds(stmts: Seq<Handles>, c: usize) -> int
    decreases stmts.len(),
{
    if stmts.len() == 0 {
        0
    } else {
        total_holds(stmts.drop_last(), c) + holds(stmts.last(), c)
    }
}

/// How many holders `c` has: pool slots (`pool` lists the connection of each
/// slot that has one) and statement handles.
pub open spec fn holders(pool: Multiset<usize>, stmts: Seq<Handles>, c: usize) -> int {
    pool.count(c) + total_holds(stmts, c)
}

/// Every allocated connection is counted right and has a holder, and whatever
/// has a holder is allocated.
pub open spec fn counts_agree(
    conns: Map<usize, PgConnection>,
    pool: Multiset<usize>,
    stmts: Seq<Handles>,
) -> bool {
    &&& !conns.contains_key(0)
    &&& forall|c: usize| #[trigger]
        conns.contains_key(c) ==> conns[c].ref_count == holders(pool, stmts, c)
            && conns[c].ref_count >= 1
    &&& forall|c: usize|
        c != 0 && #[trigger] holders(pool, stmts, c) > 0 ==> conns.contains_key(c)
}

/// `after` is `before` with the one handle that was `from` now being `to`.
pub open spec fn one_handle_moved(before: Handles, after: Handles, from: usize, to: usize) -> bool {
    ||| before.conn == from && after == Handles { conn: to, ..before }
    ||| before.result_conn == from && after == Handles { result_conn: to, ..before }
    ||| before.streaming_conn == from && after == Handles { streaming_conn: to, ..before }
}

proof fn lemma_total_holds_nonneg(stmts: Seq<Handles>, c: usize)
    ensures
        total_holds(stmts, c) >= 0,
    decreases stmts.len(),
{
    if stmts.len() > 0 {
        lemma_total_holds_nonneg(stmts.drop_last(), c);
    }
}

/// No statement names `c` more often than all statements together do.
proof fn lemma_holds_le_total(stmts: Seq<Handles>, i: int, c: usize)
    requires
        0 <= i < stmts.len(),
    ensures
        holds(stmts[i], c) <= total_holds(stmts, c),
    decreases stmts.len(),
{
    lemma_total_holds_nonneg(stmts.drop_last(), c);
    if i < stmts.len() - 1 {
        lemma_holds_le_total(stmts.drop_last(), i, c);
    }
}

proof fn lemma_total_holds_update(stmts: Seq<Handles>, i: int, h: Handles, c: usize)
    requires
        0 <= i < stmts.len(),
    ensures
        total_holds(stmts.update(i, h), c) == total_holds(stmts, c) - holds(stmts[i], c) + holds(
            h,
            c,
        ),
    decreases stmts.len(),
{
    let updated = stmts.update(i, h);
    if i == stmts.len() - 1 {
        assert(updated.drop_last() =~= stmts.drop_last());
    } else {
        assert(updated.drop_last() =~= stmts.drop_last().update(i, h));
        lemma_total_holds_update(stmts.drop_last(), i, h, c);
    }
}

/// A statement never points at a connection that has been freed: where the
/// counts agree, each of its handles may be followed.
pub proof fn law_no_statement_dangles(
    conns: Map<usize, PgConnection>,
    pool: Multiset<usize>,
    stmts: Seq<Handles>,
    i: int,
)
    requires
        counts_agree(conns, pool, stmts),
        0 <= i < stmts.len(),
    ensures
        ffi_types::valid_handle(conns, stmts[i].conn),
        ffi_types::valid_handle(conns, stmts[i].result_conn),
        ffi_types::valid_handle(conns, stmts[i].streaming_conn),
{
    lemma_holds_le_total(stmts, i, stmts[i].conn);
    lemma_holds_le_total(stmts, i, stmts[i].result_conn);
    lemma_holds_le_total(stmts, i, stmts[i].streaming_conn);
    assert(holders(pool, stmts, stmts[i].conn) > 0);
    assert(holders(pool, stmts, stmts[i].result_conn) > 0);
    assert(holders(pool, stmts, stmts[i].streaming_conn) > 0);
}

/// Pointing a statement elsewhere keeps the counts right, as long as the
/// counter of the new connection has room.
pub proof fn law_moving_a_handle_keeps_counts(
    conns: Map<usize, PgConnection>,
    pool: Multiset<usize>,
    stmts: Seq<Handles>,
    i: int,
    after: Handles,
    from: usize,
    to: usize,
)
    requires
        counts_agree(conns, pool, stmts),
        0 <= i < stmts.len(),
        one_handle_moved(stmts[i], after, from, to),
        ffi_types::valid_handle(conns, to),
        to != 0 ==> conns[to].ref_count < i32::MAX,
    ensures
        counts_agree(ffi_types::after_replace(conns, from, to), pool, stmts.update(i, after)),
{
    law_no_statement_dangles(conns, pool, stmts, i);
    let next = ffi_types::after_replace(conns, from, to);
    let updated = stmts.update(i, after);
    assert forall|c: usize| true implies holders(pool, updated, c) == holders(pool, stmts, c)
        - names(from, c) + names(to, c) by {
        lemma_total_holds_update(stmts, i, after, c);
    }
    assert forall|c: usize| #[trigger] next.contains_key(c) implies next[c].ref_count == holders(
        pool,
        updated,
        c,
    ) && next[c].ref_count >= 1 by {
        assert(conns.contains_key(c));
    }
    assert forall|c: usize|
        c != 0 && #[trigger] holders(pool, updated, c) > 0 implies next.contains_key(c) by {
        if holders(pool, stmts, c) > 0 {
            assert(conns.contains_key(c));
        }
    }
}

/// A connection is freed by such a move only once nothing holds it any more.
pub proof fn law_freed_only_when_unheld(
    conns: Map<usize, PgConnection>,
    pool: Multiset<usize>,
    stmts: Seq<Handles>,
    i: int,
    after: Handles,
    from: usize,
    to: usize,
    c: usize,
)
    requires
        counts_agree(conns, pool, stmts),
        0 <= i < stmts.len(),
        one_handle_moved(stmts[i], after, from, to),
        ffi_types::valid_handle(conns, to),
        to != 0 ==> conns[to].ref_count < i32::MAX,
        conns.contains_key(c),
        !ffi_types::after_replace(conns, from, to).contains_key(c),
    ensures
        pool.count(c) == 0,
        forall|k: int| 0 <= k < stmts.len() ==> holds(#[trigger] stmts.update(i, after)[k], c) == 0,
{
    law_moving_a_handle_keeps_counts(conns, pool, stmts, i, after, from, to);
    let updated = stmts.update(i, after);
    assert(holders(pool, updated, c) <= 0);
    lemma_total_holds_nonneg(updated, c);
    assert forall|k: int| 0 <= k < stmts.len() implies holds(#[trigger] updated[k], c) == 0 by {
        lemma_holds_le_total(updated, k, c);
    }
}

/// A statement can always let go of its three connections, in any state the
/// counting can reach, and the counts stay right.
pub proof fn law_release_keeps_counts(
    conns: Map<usize, PgConnection>,
    pool: Multiset<usize>,
    stmts: Seq<Handles>,
    i: int,
)
    requires
        counts_agree(conns, pool, stmts),
        0 <= i < stmts.len(),
    ensures
        ffi_types::releasable(conns, stmts[i]),
        counts_agree(ffi_types::after_release(conns, stmts[i]), pool, stmts.update(i, ffi_types::no_handles())),
{
    let h0 = stmts[i];
    let h1 = Handles { conn: 0, ..h0 };
    let h2 = Handles { result_conn: 0, ..h1 };
    let h3 = Handles { streaming_conn: 0, ..h2 };
    let c1 = ffi_types::after_replace(conns, h0.conn, 0);
    let c2 = ffi_types::after_replace(c1, h1.result_conn, 0);
    law_no_statement_dangles(conns, pool, stmts, i);
    law_moving_a_handle_keeps_counts(conns, pool, stmts, i, h1, h0.conn, 0);
    let s1 = stmts.update(i, h1);
    law_no_statement_dangles(c1, pool, s1, i);
    law_moving_a_handle_keeps_counts(c1, pool, s1, i, h2, h1.result_conn, 0);
    let s2 = s1.update(i, h2);
    law_no_statement_dangles(c2, pool, s2, i);
    law_moving_a_handle_keeps_counts(c2, pool, s2, i, h3, h2.streaming_conn, 0);
    assert(s2.update(i, h3) =~= stmts.update(i, ffi_types::no_handles()));
}

/// A pool slot that takes a connection counts as one more holder.
pub proof fn law_pool_ref_keeps_counts(
    conns: Map<usize, PgConnection>,
    pool: Multiset<usize>,
    stmts: Seq<Handles>,
    c: usize,
)
    requires
        counts_agree(conns, pool, stmts),
        conns.contains_key(c),
        conns[c].ref_count < i32::MAX,
    ensures
        counts_agree(ffi_types::after_ref(conns, c), pool.insert(c), stmts),
{
    let next = ffi_types::after_ref(conns, c);
    assert forall|d: usize| true implies holders(pool.insert(c), stmts, d) == holders(
        pool,
        stmts,
        d,
    ) + names(c, d) by {}
    assert forall|d: usize| c != 0 && #[trigger] next.contains_key(d) implies next[d].ref_count
        == holders(pool.insert(c), stmts, d) && next[d].ref_count >= 1 by {
        assert(conns.contains_key(d));
    }
    assert forall|d: usize|
        d != 0 && #[trigger] holders(pool.insert(c), stmts, d) > 0 implies next.contains_key(d) by {
        if holders(pool, stmts, d) > 0 {
            assert(conns.contains_key(d));
        }
    }
}

/// A pool slot that lets its connection go counts as one holder fewer, and
/// frees the connection exactly when it was the last holder.
pub proof fn law_pool_unref_keeps_counts(
    conns: Map<usize, PgConnection>,
    pool: Multiset<usize>,
    stmts: Seq<Handles>,
    c: usize,
)
    requires
        counts_agree(conns, pool, stmts),
        c != 0,
        pool.count(c) > 0,
    ensures
        conns.contains_key(c),
        counts_agree(ffi_types::after_unref(conns, c), pool.remove(c), stmts),
        ffi_types::unref_frees(conns, c) <==> holders(pool.remove(c), stmts, c) == 0,
{
    lemma_total_holds_nonneg(stmts, c);
    assert(holders(pool, stmts, c) > 0);
    let next = ffi_types::after_unref(conns, c);
    assert forall|d: usize| true implies holders(pool.remove(c), stmts, d) == holders(
        pool,
        stmts,
        d,
    ) - names(c, d) by {}
    assert forall|d: usize| #[trigger] next.contains_key(d) implies next[d].ref_count == holders(
        pool.remove(c),
        stmts,
        d,
    ) && next[d].ref_count >= 1 by {
        assert(conns.contains_key(d));
    }
    assert forall|d: usize|
        d != 0 && #[trigger] holders(pool.remove(c), stmts, d) > 0 implies next.contains_key(d) by {
        assert(holders(pool, stmts, d) > 0);
        assert(conns.contains_key(d));
    }
}

/// A reference that is taken and dropped again leaves everything as it was.
pub proof fn law_ref_then_unref_changes_nothing(conns: Map<usize, PgConnection>, c: usize)
    requires
        ffi_types::valid_handle(conns, c),
        c != 0 ==> 1 <= conns[c].ref_count < i32::MAX,
    ensures
        ffi_types::after_unref(ffi_types::after_ref(conns, c), c) == conns,
        !ffi_types::unref_frees(ffi_types::after_ref(conns, c), c),
{
    assert(ffi_types::after_unref(ffi_types::after_ref(conns, c), c) =~= conns);
}

/// Releasing a connection that nobody holds frees nothing, however often it is
/// done.
pub proof fn law_double_release_frees_nothing(conns: Map<usize, PgConnection>, c: usize)
    requires
        conns.contains_key(c),
        conns[c].ref_count < 1,
    ensures
        !ffi_types::unref_frees(conns, c),
        ffi_types::after_unref(conns, c) == conns,
{
}

/// Pointing a statement at the connection it already points at changes no
/// count.
pub proof fn law_replacing_with_itself_changes_nothing(
    conns: Map<usize, PgConnection>,
    c: usize,
)
    ensures
        ffi_types::after_replace(conns, c, c) == conns,
{
}

} // verus!
