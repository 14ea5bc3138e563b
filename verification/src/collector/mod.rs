//! Memory figures of processes, as handed to the application by the
//! collector that reads them from the system.

use vstd::prelude::*;

verus! {

/// Memory use of one process.
#[derive(Debug)]
pub struct ProcessMemory {
    /// Process id
    pub pid: u32,
    /// Command name
    pub name: String,
    /// Resident set size in bytes
    pub rss: u64,
    /// Proportional set size in bytes
    pub pss: u64,
    /// Private memory in bytes
    pub private: u64,
}

/// The mathematical value of a `ProcessMemory`: its name as characters.
pub struct ProcessInfo {
    pub pid: u32,
    pub name: Seq<char>,
    pub rss: u64,
    pub pss: u64,
    pub private: u64,
}

impl View for ProcessMemory {
    type V = ProcessInfo;

    open spec fn view(&self) -> ProcessInfo {
        ProcessInfo {
            pid: self.pid,
            name: self.name@,
            rss: self.rss,
            pss: self.pss,
            private: self.private,
        }
    }
}

/// The values of a sequence of processes.
pub open spec fn infos(s: Seq<ProcessMemory>) -> Seq<ProcessInfo> {
    s.map_values(|p: ProcessMemory| p@)
}

impl Clone for ProcessMemory {
    fn clone(&self) -> (r: ProcessMemory)
        ensures
            r@ == self@,
    {
        ProcessMemory {
            pid: self.pid,
            name: self.name.clone(),
            rss: self.rss,
            pss: self.pss,
            private: self.private,
        }
    }
}

/// One reading of the memory of all processes.
#[derive(Debug)]
pub struct MemorySnapshot {
    /// Per-process figures, in the order the collector found them
    pub processes: Vec<ProcessMemory>,
}

impl View for MemorySnapshot {
    type V = Seq<ProcessInfo>;

    open spec fn view(&self) -> Seq<ProcessInfo> {
        infos(self.processes@)
    }
}

} // verus!
