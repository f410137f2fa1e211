//! The administrative endpoints' process pipeline: the description of the
//! child processes to run and the plan that chains their standard streams.
//! Spawning, killing and the HTTP routes around them live with the caller.

use vstd::prelude::*;

verus! {

/// One member of the pipeline: the executable to run and its arguments.
#[derive(Debug, Clone)]
pub struct ProcessData {
    pub name: String,
    pub args: Vec<String>,
}

/// An ordered pipeline of child processes: each member's standard output is
/// meant to feed the next member's standard input.
#[derive(Debug, Clone)]
pub struct ProcessPipe {
    process_list: Vec<ProcessData>,
}

impl ProcessPipe {
    /// The members, first to last.
    pub closed spec fn list(self) -> Seq<ProcessData> {
        self.process_list@
    }

    pub fn new(process_list: Vec<ProcessData>) -> (r: ProcessPipe)
        ensures
            r.list() == process_list@,
    {
        ProcessPipe { process_list }
    }

    pub fn len(&self) -> (n: usize)
        ensures
            n == self.list().len(),
    {
        self.process_list.len()
    }

    pub fn get(&self, i: usize) -> (r: &ProcessData)
        requires
            i < self.list().len(),
        ensures
            *r == self.list()[i as int],
    {
        &self.process_list[i]
    }
}

/// How one pipeline member's standard streams are wired.
#[derive(Clone, Copy, PartialEq, Eq, Structural, Debug)]
pub struct StdioPlan {
    /// Read standard input from the predecessor's standard output
    /// (otherwise from the null device).
    pub stdin_piped: bool,
    /// Hand standard output on to the successor (otherwise to the null
    /// device).
    pub stdout_piped: bool,
}

/// Wiring plan for `n` chained processes: every member but the first reads
/// its predecessor's output, every member but the last pipes its output on,
/// so each interior boundary is connected end to end.
pub fn pipe_plan(n: usize) -> (r: Vec<StdioPlan>)
    requires
        1 <= n,
    ensures
        r@.len() == n,
        forall|i: int| 0 <= i < n ==> (#[trigger] r@[i]).stdin_piped == (i > 0),
        forall|i: int| 0 <= i < n ==> (#[trigger] r@[i]).stdout_piped == (i < n - 1),
{
    let mut v: Vec<StdioPlan> = Vec::new();
    let mut i: usize = 0;
    while i < n
        invariant
            i <= n,
            v@.len() == i,
            forall|k: int| 0 <= k < i ==> (#[trigger] v@[k]).stdin_piped == (k > 0),
            forall|k: int| 0 <= k < i ==> (#[trigger] v@[k]).stdout_piped == (k < n - 1),
        decreases n - i,
    {
        v.push(StdioPlan { stdin_piped: i > 0, stdout_piped: i + 1 < n });
        i = i + 1;
    }
    v
}

/// Handle for the admin service that restarts or kills the configured
/// pipeline; the routes and the process table live with the caller.
pub struct ExternalProcess;

impl ExternalProcess {
    pub fn new() -> ExternalProcess {
        ExternalProcess {}
    }
}

/// Handle for the static-page service that hands out the viewer and admin
/// pages; the routes live with the caller.
pub struct Server;

impl Server {
    pub fn new() -> Server {
        Server {}
    }
}

} // verus!
