//! Which block of per-thread state a thread uses.
//!
//! Each thread has a block of its own, found under a key that the process
//! creates once. One block is shared by all threads; it is the last resort
//! where there is no key or no memory, for it turns guards that belong to one
//! thread into guards of the whole process.

use vstd::prelude::*;

verus! {

/// The state of one thread.
pub struct TlsState {
    /// How deep the thread is in calls of the shim.
    pub in_interpose_call: i32,
    pub prepare_v2_depth: i32,
    pub in_resolve_tables: i32,
    pub value_type_calls: i64,
    pub column_type_calls: i64,
    /// The address of the last query, zero for none.
    pub last_query: usize,
}

/// The state of a thread that has not called the shim yet.
pub open spec fn first_state() -> TlsState {
    TlsState {
        in_interpose_call: 0,
        prepare_v2_depth: 0,
        in_resolve_tables: 0,
        value_type_calls: 0,
        column_type_calls: 0,
        last_query: 0,
    }
}

impl TlsState {
    /// The state of a thread that has not called the shim yet.
    pub fn new() -> (state: TlsState)
        ensures
            state == first_state(),
    {
        TlsState {
            in_interpose_call: 0,
            prepare_v2_depth: 0,
            in_resolve_tables: 0,
            value_type_calls: 0,
            column_type_calls: 0,
            last_query: 0,
        }
    }
}

/// The key of the process, as far as it is known.
pub enum TlsKey {
    /// No thread has needed it yet.
    Unasked,
    /// It was created. Zero is a key like any other, so the number itself does
    /// not tell whether there is one.
    Created(u32),
    /// It could not be created.
    Unavailable,
}

/// The key after a thread has asked for it, where creating one gives
/// `offered`.
pub open spec fn key_after(key: TlsKey, offered: Option<u32>) -> TlsKey {
    match (key, offered) {
        (TlsKey::Unasked, Some(k)) => TlsKey::Created(k),
        (TlsKey::Unasked, None) => TlsKey::Unavailable,
        _ => key,
    }
}

/// The number of a key that was created.
pub open spec fn key_number(key: TlsKey) -> Option<u32> {
    match key {
        TlsKey::Created(k) => Some(k),
        _ => None,
    }
}

/// The key of the process, or nothing if one could not be created. `offered`
/// is what creating one gives, which counts the first time only.
pub fn tls_key(key: &mut TlsKey, offered: Option<u32>) -> (number: Option<u32>)
    ensures
        *final(key) == key_after(*old(key), offered),
        number == key_number(*final(key)),
{
    match key {
        TlsKey::Created(k) => Some(*k),
        TlsKey::Unavailable => None,
        TlsKey::Unasked => match offered {
            Some(k) => {
                *key = TlsKey::Created(k);
                Some(k)
            },
            None => {
                *key = TlsKey::Unavailable;
                None
            },
        },
    }
}

/// All threads get the same key, the one that was created first.
pub proof fn law_key_is_created_once(key: TlsKey, first: Option<u32>, later: Option<u32>)
    ensures
        key_after(key_after(key, first), later) == key_after(key, first),
{
}

/// Every key that is created is used, zero among them.
pub proof fn law_every_created_key_is_used(k: u32)
    ensures
        key_number(key_after(TlsKey::Unasked, Some(k))) == Some(k),
{
}

/// How a thread gets at its state.
pub enum TlsStep {
    /// It uses the block that all threads share.
    Fallback,
    /// It uses its own block, at this address.
    Use(usize),
    /// A block has to be allocated for it, and the question asked again.
    Allocate,
    /// It takes this block, which was just allocated, as its own, with this
    /// state in it, and uses it.
    Install { block: usize, state: TlsState },
}

/// How a thread gets at its state: `has_key` says whether there is a key,
/// `held` is the block it has under it (zero for none), and `allocation` the
/// outcome of an allocation, once one was made (zero for a failure).
pub open spec fn tls_step(has_key: bool, held: usize, allocation: Option<usize>) -> TlsStep {
    if !has_key {
        TlsStep::Fallback
    } else if held != 0 {
        TlsStep::Use(held)
    } else {
        match allocation {
            None => TlsStep::Allocate,
            Some(block) => if block == 0 {
                TlsStep::Fallback
            } else {
                TlsStep::Install { block, state: first_state() }
            },
        }
    }
}

/// Decides how a thread gets at its state.
pub fn tls_state(has_key: bool, held: usize, allocation: Option<usize>) -> (step: TlsStep)
    ensures
        step == tls_step(has_key, held, allocation),
{
    if !has_key {
        return TlsStep::Fallback;
    }
    if held != 0 {
        return TlsStep::Use(held);
    }
    match allocation {
        None => TlsStep::Allocate,
        Some(block) => if block == 0 {
            TlsStep::Fallback
        } else {
            TlsStep::Install { block, state: TlsState::new() }
        },
    }
}

/// The blocks of the threads, by thread, and what lies in each block.
pub ghost struct TlsWorld {
    pub blocks: Map<u64, usize>,
    pub memory: Map<usize, TlsState>,
}

/// The block a thread holds; zero for none.
pub open spec fn held_block(w: TlsWorld, thread: u64) -> usize {
    if w.blocks.contains_key(thread) {
        w.blocks[thread]
    } else {
        0
    }
}

/// No two threads hold the same block, and none holds the one that all threads
/// share, at `shared`.
pub open spec fn blocks_apart(w: TlsWorld, shared: usize) -> bool {
    &&& forall|t: u64| #[trigger]
        w.blocks.contains_key(t) ==> w.blocks[t] != 0 && w.blocks[t] != shared
            && w.memory.contains_key(w.blocks[t])
    &&& forall|t: u64, u: u64|
        #![trigger w.blocks[t], w.blocks[u]]
        w.blocks.contains_key(t) && w.blocks.contains_key(u) && t != u ==> w.blocks[t]
            != w.blocks[u]
}

/// Memory that an allocation may give: none, or a block that is not in use.
pub open spec fn is_free(w: TlsWorld, shared: usize, block: usize) -> bool {
    block == 0 || block != shared && !w.memory.contains_key(block)
}

/// What a thread is told, where an allocation gives `allocated` if it is asked
/// for.
pub open spec fn told(w: TlsWorld, thread: u64, has_key: bool, allocated: usize) -> TlsStep {
    match tls_step(has_key, held_block(w, thread), None) {
        TlsStep::Allocate => tls_step(has_key, held_block(w, thread), Some(allocated)),
        step => step,
    }
}

/// The block that a thread then uses.
pub open spec fn used_block(step: TlsStep, shared: usize) -> usize {
    match step {
        TlsStep::Use(block) => block,
        TlsStep::Install { block, .. } => block,
        _ => shared,
    }
}

/// The world after a thread did what it was told.
pub open spec fn after_step(w: TlsWorld, thread: u64, step: TlsStep) -> TlsWorld {
    match step {
        TlsStep::Install { block, state } => TlsWorld {
            blocks: w.blocks.insert(thread, block),
            memory: w.memory.insert(block, state),
        },
        _ => w,
    }
}

/// Getting at the state keeps the blocks of the threads apart, given that an
/// allocation is not memory that is in use.
pub proof fn law_blocks_stay_apart(
    w: TlsWorld,
    thread: u64,
    has_key: bool,
    allocated: usize,
    shared: usize,
)
    requires
        blocks_apart(w, shared),
        is_free(w, shared, allocated),
    ensures
        blocks_apart(after_step(w, thread, told(w, thread, has_key, allocated)), shared),
{
}

/// A thread never gets null, and gets the block that all threads share only
/// where there is no key, or where it has no block and none could be allocated.
pub proof fn law_shared_block_is_the_last_resort(
    w: TlsWorld,
    thread: u64,
    has_key: bool,
    allocated: usize,
    shared: usize,
)
    requires
        blocks_apart(w, shared),
        is_free(w, shared, allocated),
        shared != 0,
    ensures
        used_block(told(w, thread, has_key, allocated), shared) != 0,
        used_block(told(w, thread, has_key, allocated), shared) == shared <==> !has_key || (
        !w.blocks.contains_key(thread) && allocated == 0),
{
}

/// With a key and memory, what a thread finds at its first call is the state of
/// a thread that has not called the shim yet.
pub proof fn law_first_call_finds_the_first_state(
    w: TlsWorld,
    thread: u64,
    allocated: usize,
    shared: usize,
)
    requires
        blocks_apart(w, shared),
        is_free(w, shared, allocated),
        allocated != 0,
        !w.blocks.contains_key(thread),
    ensures
        ({
            let step = told(w, thread, true, allocated);
            after_step(w, thread, step).memory[used_block(step, shared)] == first_state()
        }),
{
}

/// A thread that has got a block of its own gets the same one at every later
/// call, whatever other threads did in between, and no other thread gets it.
pub proof fn law_thread_keeps_its_own_block(
    w: TlsWorld,
    thread: u64,
    other: u64,
    allocated: usize,
    later: usize,
    shared: usize,
)
    requires
        blocks_apart(w, shared),
        w.blocks.contains_key(thread),
        is_free(w, shared, allocated),
        is_free(w, shared, later),
        other != thread,
    ensures
        used_block(told(w, thread, true, allocated), shared) == w.blocks[thread],
        used_block(told(w, other, true, later), shared) != w.blocks[thread],
        after_step(w, other, told(w, other, true, later)).blocks.contains_key(thread),
        after_step(w, other, told(w, other, true, later)).blocks[thread] == w.blocks[thread],
        after_step(w, other, told(w, other, true, later)).memory[w.blocks[thread]]
            == w.memory[w.blocks[thread]],
        after_step(w, thread, told(w, thread, true, allocated)) == w,
{
}

/// After its first call, a thread has the block that the call gave it.
pub proof fn law_first_call_gives_a_block(
    w: TlsWorld,
    thread: u64,
    allocated: usize,
    shared: usize,
)
    requires
        blocks_apart(w, shared),
        is_free(w, shared, allocated),
        allocated != 0,
    ensures
        ({
            let step = told(w, thread, true, allocated);
            let after = after_step(w, thread, step);
            &&& after.blocks.contains_key(thread)
            &&& after.blocks[thread] == used_block(step, shared)
        }),
{
}

/// What one thread writes to its state, no other thread sees.
pub proof fn law_state_is_thread_local(
    w: TlsWorld,
    shared: usize,
    writer: u64,
    reader: u64,
    written: TlsState,
)
    requires
        blocks_apart(w, shared),
        w.blocks.contains_key(writer),
        w.blocks.contains_key(reader),
    ensures
        w.memory.insert(w.blocks[writer], written)[w.blocks[reader]] == (if reader == writer {
            written
        } else {
            w.memory[w.blocks[reader]]
        }),
{
}

} // verus!
