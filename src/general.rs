//! Opaque identifiers shared across the debugger.
use vstd::prelude::*;

verus! {

/// An address in the traced process's address space.
///
/// Converts to and from a raw integer only through `from_raw` and `as_raw`.
#[derive(Debug, Clone, Copy, PartialEq, Eq, Structural, PartialOrd, Ord, Hash)]
pub struct MemoryAddress(usize);

impl View for MemoryAddress {
    type V = nat;

    closed spec fn view(&self) -> nat {
        self.0 as nat
    }
}

impl MemoryAddress {
    pub fn from_raw(v: usize) -> (r: Self)
        ensures
            r@ == v,
    {
        MemoryAddress(v)
    }

    pub fn as_raw(self) -> (r: usize)
        ensures
            r == self@,
    {
        self.0
    }

    /// The address `offset` bytes past this one.
    pub fn with_offset(&self, offset: usize) -> (r: Self)
        requires
            self@ + offset <= usize::MAX,
        ensures
            r@ == self@ + offset,
    {
        MemoryAddress(self.0 + offset)
    }
}

/// A process identifier. Thirty-two bits hold every PID that Windows or Linux
/// hands out by default.
#[derive(Debug, Clone, Copy, PartialEq, Eq, Structural, Hash)]
pub struct ProcessId(u32);

impl View for ProcessId {
    type V = nat;

    closed spec fn view(&self) -> nat {
        self.0 as nat
    }
}

impl ProcessId {
    pub fn from_raw(v: u32) -> (r: Self)
        ensures
            r@ == v,
    {
        Self(v)
    }

    pub fn as_raw(self) -> (r: u32)
        ensures
            r == self@,
    {
        self.0
    }
}

/// A thread identifier, of the same width as `ProcessId`.
#[derive(Debug, Clone, Copy, PartialEq, Eq, Structural, Hash)]
pub struct ThreadId(u32);

impl View for ThreadId {
    type V = nat;

    closed spec fn view(&self) -> nat {
        self.0 as nat
    }
}

impl ThreadId {
    pub fn from_raw(v: u32) -> (r: Self)
        ensures
            r@ == v,
    {
        Self(v)
    }

    pub fn as_raw(self) -> (r: u32)
        ensures
            r == self@,
    {
        self.0
    }
}

/// The main thread of a freshly attached single-threaded Linux process: its
/// thread id equals the process id.
pub fn from_process_id_to_thread_id(pid: ProcessId) -> (r: ThreadId)
    ensures
        r@ == pid@,
{
    ThreadId::from_raw(pid.as_raw())
}

/// Process control offered by a platform backend. Failures carry the
/// operating system's error number.
pub trait NativeThreadProtocol {
    fn continute_thread(thread_id: ThreadId) -> Result<(), i32>;

    fn start_debugged_process(
        application_name: String,
        commands: String,
        auto_attach_children: bool,
    ) -> Result<(), i32>;

    fn attach_to_debugged_process() -> Result<(), i32>;
}

} // verus!
