//! What a running process and its threads act through.

use crate::fs::{normalize_path, normalized};
use crate::ident::ProcessId;
use crate::memory::{LinearMemory, Memory, MemoryView};
use crate::stdout::{ProcessStdOut, StdoutView};
use vstd::prelude::*;

verus! {

/// The state of a context.
pub struct CtxView {
    pub pid: ProcessId,
    pub stdout: StdoutView,
    pub memory: MemoryView,
    pub shared: bool,
    pub cwd: Seq<char>,
    pub module: Seq<u8>,
}

impl CtxView {
    /// The memory of the context is well formed.
    pub open spec fn wf(self) -> bool {
        self.memory.wf()
    }
}

/// The context of a process: its identity, its memory, its output stream,
/// its working directory and the bytes of its module.
pub struct ProcessCtx {
    pid: ProcessId,
    stdout: ProcessStdOut,
    memory: Memory,
    cwd: String,
    module: Vec<u8>,
}

impl View for ProcessCtx {
    type V = CtxView;

    closed spec fn view(&self) -> CtxView {
        CtxView {
            pid: self.pid,
            stdout: self.stdout@,
            memory: self.memory@,
            shared: self.memory.shared(),
            cwd: self.cwd@,
            module: self.module@,
        }
    }
}

impl ProcessCtx {
    /// The invariant of a context: that of its view.
    pub open spec fn wf(&self) -> bool {
        self@.wf()
    }

    /// A context made of its parts.
    pub fn new(pid: ProcessId, memory: Memory, stdout: ProcessStdOut, cwd: String, module: Vec<u8>) -> (r:
        Self)
        ensures
            r@ == (CtxView {
                pid,
                stdout: stdout@,
                memory: memory@,
                shared: memory.shared(),
                cwd: cwd@,
                module: module@,
            }),
    {
        ProcessCtx { pid, stdout, memory, cwd, module }
    }

    /// The process id.
    pub fn pid(&self) -> (r: ProcessId)
        ensures
            r == self@.pid,
    {
        self.pid
    }

    /// The memory of the process.
    pub fn memory(&self) -> (r: &Memory)
        ensures
            r@ == self@.memory,
            r.shared() == self@.shared,
    {
        &self.memory
    }

    /// The memory of the process, to change it. The context holds
    /// afterwards what the memory was left as.
    pub fn memory_mut(&mut self) -> (r: &mut Memory)
        ensures
            r@ == old(self)@.memory,
            r.shared() == old(self)@.shared,
            final(self)@ == (CtxView { memory: final(r)@, shared: final(r).shared(), ..old(self)@ }),
    {
        &mut self.memory
    }

    /// The output stream of the process.
    pub fn stdout(&self) -> (r: &ProcessStdOut)
        ensures
            r@ == self@.stdout,
    {
        &self.stdout
    }

    /// The output stream of the process, to change it. The context holds
    /// afterwards what the stream was left as.
    pub fn stdout_mut(&mut self) -> (r: &mut ProcessStdOut)
        ensures
            r@ == old(self)@.stdout,
            final(self)@ == (CtxView { stdout: final(r)@, ..old(self)@ }),
    {
        &mut self.stdout
    }

    /// The working directory.
    pub fn cwd(&self) -> (r: String)
        ensures
            r@ == self@.cwd,
    {
        self.cwd.clone()
    }

    /// The bytes of the module.
    pub fn module(&self) -> (r: &Vec<u8>)
        ensures
            r@ == self@.module,
    {
        &self.module
    }

    /// Sets the working directory to the normal form of `wd`.
    pub fn set_cwd(&mut self, wd: &str)
        ensures
            final(self)@ == (CtxView { cwd: normalized(wd@), ..old(self)@ }),
    {
        self.cwd = normalize_path(wd);
    }

    /// The context of another execution unit of the same process: a copy
    /// whose memory keeps the regions and works on the buffer `memory_inner`.
    pub fn new_worker(&self, memory_inner: LinearMemory) -> (r: ProcessCtx)
        requires
            self.wf(),
            memory_inner.wf(),
            self@.memory.prefix_end() <= memory_inner@.len(),
        ensures
            r.wf(),
            r@ == (CtxView {
                memory: MemoryView { bytes: memory_inner@, ..self@.memory },
                shared: memory_inner.shared(),
                ..self@
            }),
    {
        let module = self.module.clone();
        assert(module@ =~= self.module@);
        ProcessCtx {
            pid: self.pid,
            stdout: self.stdout.duplicate(),
            memory: self.memory.new_inner(memory_inner),
            cwd: self.cwd.clone(),
            module,
        }
    }
}

} // verus!
