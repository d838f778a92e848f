use crack_core::breakpoint::{
    software_breakpoint_trap_opcode, Architecture, BreakpointError, SoftwareBreakpoint,
    SOFTWARE_BREAKPOINT_TRAP_OPCODE_SIZE, TARGET_ARCHITECTURE,
};
use crack_core::general::{MemoryAddress, ThreadId};
use crack_core::memory::{AccessError, MemoryAccessor, MemoryImage};

fn code_at_401000() -> MemoryImage {
    let mut bytes = vec![0x90u8; 16];
    bytes[0] = 0x55;
    MemoryImage::new(MemoryAddress::from_raw(0x401000), bytes)
}

fn read_one(memory: &MemoryImage, addr: usize) -> [u8; 1] {
    memory.read_memory(MemoryAddress::from_raw(addr)).unwrap()
}

#[test]
fn enable_then_disable_on_x86_64() {
    let mut memory = code_at_401000();
    let mut bp = SoftwareBreakpoint::new(ThreadId::from_raw(42), MemoryAddress::from_raw(0x401000));
    bp.enable(&mut memory).unwrap();
    assert_eq!(read_one(&memory, 0x401000), [0xCC]);
    bp.disable(&mut memory).unwrap();
    assert_eq!(read_one(&memory, 0x401000), [0x55]);
    assert_eq!(memory.contents(), code_at_401000().contents());
}

#[test]
fn enabled_flag_follows_life_cycle() {
    let mut memory = code_at_401000();
    let mut bp = SoftwareBreakpoint::new(ThreadId::from_raw(1), MemoryAddress::from_raw(0x401000));
    assert!(!bp.is_enabled());
    bp.enable(&mut memory).unwrap();
    assert!(bp.is_enabled());
    bp.disable(&mut memory).unwrap();
    assert!(!bp.is_enabled());
    bp.enable(&mut memory).unwrap();
    assert!(bp.is_enabled());
}

#[test]
fn disable_when_never_enabled_is_an_error() {
    let mut memory = code_at_401000();
    let mut bp = SoftwareBreakpoint::new(ThreadId::from_raw(1), MemoryAddress::from_raw(0x401000));
    assert_eq!(bp.disable(&mut memory), Err(BreakpointError::NotEnabled));
    assert_eq!(memory.contents(), code_at_401000().contents());
    assert!(!bp.is_enabled());
}

#[test]
fn double_disable_is_an_error() {
    let mut memory = code_at_401000();
    let mut bp = SoftwareBreakpoint::new(ThreadId::from_raw(1), MemoryAddress::from_raw(0x401000));
    bp.enable(&mut memory).unwrap();
    bp.disable(&mut memory).unwrap();
    assert_eq!(bp.disable(&mut memory), Err(BreakpointError::NotEnabled));
    assert_eq!(read_one(&memory, 0x401000), [0x55]);
}

#[test]
fn enable_twice_keeps_original_bytes() {
    let mut memory = code_at_401000();
    let mut bp = SoftwareBreakpoint::new(ThreadId::from_raw(1), MemoryAddress::from_raw(0x401000));
    bp.enable(&mut memory).unwrap();
    assert_eq!(bp.enable(&mut memory), Err(BreakpointError::AlreadyEnabled));
    assert!(bp.is_enabled());
    bp.disable(&mut memory).unwrap();
    assert_eq!(read_one(&memory, 0x401000), [0x55]);
}

#[test]
fn enable_on_unmapped_address_fails() {
    let mut memory = code_at_401000();
    let mut bp = SoftwareBreakpoint::new(ThreadId::from_raw(1), MemoryAddress::from_raw(0x500000));
    assert_eq!(
        bp.enable(&mut memory),
        Err(BreakpointError::Access(AccessError {
            address: MemoryAddress::from_raw(0x500000),
            code: 0
        }))
    );
    assert!(!bp.is_enabled());
    assert_eq!(memory.contents(), code_at_401000().contents());
}

#[test]
fn breakpoint_reports_its_address() {
    let bp = SoftwareBreakpoint::new(ThreadId::from_raw(7), MemoryAddress::from_raw(0x401234));
    assert_eq!(bp.get_address(), MemoryAddress::from_raw(0x401234));
}

#[test]
fn trap_opcode_table() {
    assert_eq!(Architecture::X86.trap_opcode(), vec![0xCC]);
    assert_eq!(Architecture::X86_64.trap_opcode(), vec![0xCC]);
    assert_eq!(Architecture::Arm.trap_opcode(), vec![0x00, 0x00, 0x20, 0xD4]);
    assert_eq!(
        TARGET_ARCHITECTURE.trap_opcode(),
        software_breakpoint_trap_opcode().to_vec()
    );
    assert_eq!(SOFTWARE_BREAKPOINT_TRAP_OPCODE_SIZE, 1);
}
