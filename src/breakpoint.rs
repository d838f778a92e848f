//! Software breakpoints: patch a trap instruction over an address and put the
//! original bytes back on removal.
use vstd::prelude::*;
use crate::general::{MemoryAddress, ThreadId};
use crate::memory::{
    AccessError, MemoryAccessor, bytes_at, partly_written, span_accessible, span_len, write_bytes,
};

verus! {

/// An instruction set that the trap opcode table covers.
#[derive(Debug, Clone, Copy, PartialEq, Eq, Structural)]
pub enum Architecture {
    X86,
    X86_64,
    Arm,
}

/// The bytes of the trap instruction of `arch`.
pub open spec fn arch_trap_opcode(arch: Architecture) -> Seq<u8> {
    match arch {
        Architecture::X86 => seq![0xccu8],
        Architecture::X86_64 => seq![0xccu8],
        Architecture::Arm => seq![0x00u8, 0x00u8, 0x20u8, 0xd4u8],
    }
}

impl Architecture {
    /// The trap instruction of this architecture: `int3` on x86 and x86-64,
    /// `brk #0` on ARM.
    pub fn trap_opcode(self) -> (r: Vec<u8>)
        ensures
            r@ == arch_trap_opcode(self),
    {
        match self {
            Architecture::X86 | Architecture::X86_64 => vec![0xcc],
            Architecture::Arm => vec![0x00, 0x00, 0x20, 0xd4],
        }
    }
}

/// The architecture this library is built for.
pub const TARGET_ARCHITECTURE: Architecture = Architecture::X86_64;

/// Length of the target's trap instruction.
pub const SOFTWARE_BREAKPOINT_TRAP_OPCODE_SIZE: usize = 1;

/// The target's trap instruction.
pub open spec fn trap_opcode() -> Seq<u8> {
    arch_trap_opcode(TARGET_ARCHITECTURE)
}

/// The target's trap instruction as bytes to write.
pub fn software_breakpoint_trap_opcode() -> (r: [u8; SOFTWARE_BREAKPOINT_TRAP_OPCODE_SIZE])
    ensures
        r@ == trap_opcode(),
{
    let mut r: [u8; SOFTWARE_BREAKPOINT_TRAP_OPCODE_SIZE] = [0u8; SOFTWARE_BREAKPOINT_TRAP_OPCODE_SIZE];
    r[0] = 0xcc;
    assert(r@ =~= trap_opcode());
    r
}

/// Why enabling or disabling a breakpoint failed.
#[derive(Debug, Clone, Copy, PartialEq, Eq, Structural)]
pub enum BreakpointError {
    /// The traced memory could not be read or written.
    Access(AccessError),
    /// `enable` on a breakpoint that is already enabled: the bytes saved the
    /// first time are the true original instruction and are kept.
    AlreadyEnabled,
    /// `disable` on a breakpoint that holds no saved instruction.
    NotEnabled,
}

/// A software breakpoint of one thread at one address.
///
/// It holds the bytes that its trap instruction replaced exactly while it is
/// enabled.
pub struct SoftwareBreakpoint {
    thread_id: ThreadId,
    memory_address: MemoryAddress,
    is_enabled: bool,
    saved_instruction: Option<[u8; SOFTWARE_BREAKPOINT_TRAP_OPCODE_SIZE]>,
}

impl SoftwareBreakpoint {
    #[verifier::type_invariant]
    spec fn flag_matches_saved(&self) -> bool {
        self.is_enabled == self.saved_instruction is Some
    }

    /// The thread the breakpoint belongs to.
    pub closed spec fn thread(&self) -> ThreadId {
        self.thread_id
    }

    /// The address the trap instruction is written to.
    pub closed spec fn address(&self) -> MemoryAddress {
        self.memory_address
    }

    /// The bytes the trap instruction replaced, while the breakpoint is enabled.
    pub closed spec fn saved(&self) -> Option<Seq<u8>> {
        match self.saved_instruction {
            Some(b) => Some(b@),
            None => None,
        }
    }

    pub open spec fn enabled(&self) -> bool {
        self.saved() is Some
    }

    /// A disabled breakpoint of `thread_id` at `memory_address`.
    pub fn new(thread_id: ThreadId, memory_address: MemoryAddress) -> (r: Self)
        ensures
            r.thread() == thread_id,
            r.address() == memory_address,
            r.saved() is None,
    {
        SoftwareBreakpoint {
            thread_id,
            memory_address,
            is_enabled: false,
            saved_instruction: None,
        }
    }

    pub fn is_enabled(&self) -> (r: bool)
        ensures
            r == self.enabled(),
    {
        proof {
            use_type_invariant(self);
        }
        self.is_enabled
    }

    pub fn get_address(&self) -> (r: MemoryAddress)
        ensures
            r == self.address(),
    {
        self.memory_address
    }

    /// Saves the bytes at the breakpoint's address and writes the trap
    /// instruction over them.
    ///
    /// An enabled breakpoint is left as it is and `AlreadyEnabled` is returned.
    pub fn enable<T: MemoryAccessor>(&mut self, memory_accessor: &mut T) -> (r: Result<(), BreakpointError>)
        ensures
            final(self).thread() == old(self).thread(),
            final(self).address() == old(self).address(),
            old(self).enabled() ==> r == Err::<(), BreakpointError>(BreakpointError::AlreadyEnabled),
            !old(self).enabled() ==> (r is Ok <==> span_accessible(
                old(memory_accessor).memory(),
                old(self).address()@ as int,
                span_len(SOFTWARE_BREAKPOINT_TRAP_OPCODE_SIZE as int),
            )),
            !old(self).enabled() && r is Err ==> r->Err_0 is Access,
            r is Ok ==> final(self).saved() == Some(
                bytes_at(
                    old(memory_accessor).memory(),
                    old(self).address()@ as int,
                    SOFTWARE_BREAKPOINT_TRAP_OPCODE_SIZE as int,
                ),
            ),
            r is Ok ==> final(memory_accessor).memory() == write_bytes(
                old(memory_accessor).memory(),
                old(self).address()@ as int,
                trap_opcode(),
            ),
            r is Err ==> final(self).saved() == old(self).saved(),
            r is Err ==> final(memory_accessor).memory() == old(memory_accessor).memory(),
    {
        proof {
            use_type_invariant(&*self);
        }
        if self.is_enabled {
            return Err(BreakpointError::AlreadyEnabled);
        }
        let origin_instruction = match memory_accessor.read_memory::<
            SOFTWARE_BREAKPOINT_TRAP_OPCODE_SIZE,
        >(self.memory_address) {
            Ok(bytes) => bytes,
            Err(e) => {
                return Err(BreakpointError::Access(e));
            },
        };
        match memory_accessor.write_memory(
            self.memory_address,
            software_breakpoint_trap_opcode(),
        ) {
            Ok(()) => {},
            Err(e) => {
                return Err(BreakpointError::Access(e));
            },
        }
        *self = SoftwareBreakpoint {
            thread_id: self.thread_id,
            memory_address: self.memory_address,
            is_enabled: true,
            saved_instruction: Some(origin_instruction),
        };
        Ok(())
    }

    /// Writes the saved bytes back over the trap instruction.
    ///
    /// A breakpoint that is not enabled has nothing to write back: memory is
    /// left untouched and `NotEnabled` is returned.
    pub fn disable<T: MemoryAccessor>(&mut self, memory_accessor: &mut T) -> (r: Result<(), BreakpointError>)
        ensures
            final(self).thread() == old(self).thread(),
            final(self).address() == old(self).address(),
            !old(self).enabled() ==> r == Err::<(), BreakpointError>(BreakpointError::NotEnabled),
            !old(self).enabled() ==> final(memory_accessor).memory() == old(memory_accessor).memory(),
            old(self).enabled() ==> (r is Ok <==> span_accessible(
                old(memory_accessor).memory(),
                old(self).address()@ as int,
                span_len(SOFTWARE_BREAKPOINT_TRAP_OPCODE_SIZE as int),
            )),
            r is Ok ==> final(self).saved() is None,
            r is Ok ==> final(memory_accessor).memory() == write_bytes(
                old(memory_accessor).memory(),
                old(self).address()@ as int,
                old(self).saved()->Some_0,
            ),
            r is Err ==> final(self).saved() == old(self).saved(),
            old(self).enabled() && r is Err ==> r->Err_0 is Access && partly_written(
                old(memory_accessor).memory(),
                final(memory_accessor).memory(),
                old(self).address()@ as int,
                old(self).saved()->Some_0,
            ),
    {
        proof {
            use_type_invariant(&*self);
        }
        let saved = match self.saved_instruction {
            Some(bytes) => bytes,
            None => {
                return Err(BreakpointError::NotEnabled);
            },
        };
        match memory_accessor.write_memory(self.memory_address, saved) {
            Ok(()) => {},
            Err(e) => {
                return Err(BreakpointError::Access(e));
            },
        }
        *self = SoftwareBreakpoint {
            thread_id: self.thread_id,
            memory_address: self.memory_address,
            is_enabled: false,
            saved_instruction: None,
        };
        Ok(())
    }
}

/// After a successful `enable`, reading the trap's length of bytes at the
/// breakpoint's address gives exactly the trap instruction.
pub proof fn lemma_trap_installed(mem: Map<int, u8>, address: int)
    requires
        span_accessible(mem, address, span_len(SOFTWARE_BREAKPOINT_TRAP_OPCODE_SIZE as int)),
    ensures
        span_accessible(
            write_bytes(mem, address, trap_opcode()),
            address,
            span_len(SOFTWARE_BREAKPOINT_TRAP_OPCODE_SIZE as int),
        ),
        bytes_at(
            write_bytes(mem, address, trap_opcode()),
            address,
            SOFTWARE_BREAKPOINT_TRAP_OPCODE_SIZE as int,
        ) == trap_opcode(),
{
    assert(bytes_at(
        write_bytes(mem, address, trap_opcode()),
        address,
        SOFTWARE_BREAKPOINT_TRAP_OPCODE_SIZE as int,
    ) =~= trap_opcode());
}

/// Enabling and then disabling a breakpoint restores memory exactly: the
/// memory the successful `enable` leaves still admits the write of `disable`,
/// and writing the saved bytes back gives the memory as it was before `enable`.
pub proof fn lemma_enable_disable_restores(mem: Map<int, u8>, address: int)
    requires
        span_accessible(mem, address, span_len(SOFTWARE_BREAKPOINT_TRAP_OPCODE_SIZE as int)),
    ensures
        span_accessible(
            write_bytes(mem, address, trap_opcode()),
            address,
            span_len(SOFTWARE_BREAKPOINT_TRAP_OPCODE_SIZE as int),
        ),
        write_bytes(
            write_bytes(mem, address, trap_opcode()),
            address,
            bytes_at(mem, address, SOFTWARE_BREAKPOINT_TRAP_OPCODE_SIZE as int),
        ) == mem,
        bytes_at(
            write_bytes(
                write_bytes(mem, address, trap_opcode()),
                address,
                bytes_at(mem, address, SOFTWARE_BREAKPOINT_TRAP_OPCODE_SIZE as int),
            ),
            address,
            SOFTWARE_BREAKPOINT_TRAP_OPCODE_SIZE as int,
        ) == bytes_at(mem, address, SOFTWARE_BREAKPOINT_TRAP_OPCODE_SIZE as int),
{
    let restored = write_bytes(
        write_bytes(mem, address, trap_opcode()),
        address,
        bytes_at(mem, address, SOFTWARE_BREAKPOINT_TRAP_OPCODE_SIZE as int),
    );
    assert(restored =~= mem);
}

} // verus!
