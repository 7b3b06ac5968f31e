//! A point-in-time read of the process table, passed around as a plain value.
//!
//! The surrounding binary fills one `Snapshot` per phase (one to build the
//! displayed list, a fresh one before any action), so staleness between the
//! two is an explicit, re-resolved step and never hidden shared state.

use vstd::prelude::*;

verus! {

/// One process as the snapshot saw it.  Records are built fresh per snapshot
/// and never mutated.
pub struct ProcessRecord {
    /// Process id, unique among processes running at snapshot time.
    pub pid: i32,
    /// Process name; not unique, possibly empty.
    pub name: String,
    /// Seconds since the epoch at which the process started.
    pub start_time: u64,
    /// Scheduler state, already rendered as text.
    pub status: String,
    /// Path of the executable, empty when unreadable.
    pub exe: String,
    /// Command line, one argument per entry.
    pub cmd: Vec<String>,
}

/// An ordered list of process records.
pub struct Snapshot {
    pub procs: Vec<ProcessRecord>,
}

/// Whether some record in `procs` carries `pid`.
pub open spec fn has_pid(procs: Seq<ProcessRecord>, pid: i32) -> bool {
    exists|j: int| 0 <= j < procs.len() && (#[trigger] procs[j]).pid == pid
}

impl Snapshot {
    /// The index of the first record with the given id, if any.
    pub fn lookup(&self, pid: i32) -> (r: Option<usize>)
        ensures
            match r {
                Some(i) => i < self.procs@.len() && self.procs@[i as int].pid == pid
                    && forall|j: int| 0 <= j < i ==> (#[trigger] self.procs@[j]).pid != pid,
                None => !has_pid(self.procs@, pid),
            },
    {
        let n = self.procs.len();
        let mut i: usize = 0;
        while i < n
            invariant
                i <= n,
                n == self.procs@.len(),
                forall|j: int| 0 <= j < i ==> (#[trigger] self.procs@[j]).pid != pid,
            decreases n - i,
        {
            if self.procs[i].pid == pid {
                return Some(i);
            }
            i += 1;
        }
        None
    }
}

} // verus!
