//! The one thread that does for the others what needs a deep stack.

use vstd::prelude::*;

verus! {

/// The worker of the process.
pub struct Worker {
    /// Not zero while the worker runs.
    pub running: i32,
    /// The worker's thread.
    pub thread: u64,
}

/// The worker after a thread was to be started for it, if there was one.
pub open spec fn started(w: Worker, spawned: Option<u64>) -> Worker {
    match spawned {
        Some(thread) => Worker { running: 1, thread },
        None => w,
    }
}

/// What the starting of the worker returns.
pub open spec fn start_code(spawned: Option<u64>) -> i32 {
    if spawned is Some {
        0
    } else {
        -1i32
    }
}

impl Worker {
    /// No worker yet.
    pub fn new() -> (w: Self)
        ensures
            w == (Worker { running: 0, thread: 0 }),
    {
        Worker { running: 0, thread: 0 }
    }

    /// Takes the thread that was started for the worker, if there was one.
    pub fn take_thread(&mut self, spawned: Option<u64>) -> (code: i32)
        ensures
            code == start_code(spawned),
            *final(self) == started(*old(self), spawned),
    {
        match spawned {
            Some(thread) => {
                self.running = 1;
                self.thread = thread;
                0
            },
            None => -1,
        }
    }
}

/// Starts the worker. One that runs already is left alone: no second thread is
/// started, and the first can still be waited for.
pub fn rust_worker_init<F: FnOnce() -> Option<u64>>(w: &mut Worker, spawn: F) -> (code: i32)
    requires
        old(w).running == 0 ==> call_requires(spawn, ()),
    ensures
        old(w).running != 0 ==> code == 0 && *final(w) == *old(w),
        old(w).running == 0 ==> exists|spawned: Option<u64>|
            {
                &&& #[trigger] call_ensures(spawn, (), spawned)
                &&& code == start_code(spawned)
                &&& *final(w) == started(*old(w), spawned)
            },
{
    if w.running != 0 {
        return 0;
    }
    let spawned = spawn();
    w.take_thread(spawned)
}

/// Stops the worker. Returns the thread that is to be waited for.
pub fn rust_worker_cleanup(w: &mut Worker) -> (stopped: Option<u64>)
    ensures
        stopped == (if old(w).running != 0 {
            Some(old(w).thread)
        } else {
            None
        }),
        *final(w) == (Worker { running: 0, thread: 0 }),
{
    let stopped = if w.running != 0 {
        Some(w.thread)
    } else {
        None
    };
    w.running = 0;
    w.thread = 0;
    stopped
}

} // verus!
