//! Register access on x86-64 Linux: DWARF register numbers mapped onto the
//! general-purpose register block that the tracing syscall reads and writes.
use vstd::prelude::*;

verus! {

/// Number of 64-bit slots in the x86-64 Linux register block
/// (`user_regs_struct`).
pub const USER_REGS_COUNT: usize = 27;

/// The slot of the register block that holds the register with DWARF number
/// `register`, in the block's field order: r15, r14, r13, r12, rbp, rbx, r11,
/// r10, r9, r8, rax, rcx, rdx, rsi, rdi, orig_rax, rip, cs, eflags, rsp, ss,
/// fs_base, gs_base, ds, es, fs, gs. DWARF number 16, the return address
/// column, stands for the instruction pointer.
pub open spec fn user_regs_slot_of(register: u16) -> Option<int> {
    match register {
        0 => Some(10),
        1 => Some(12),
        2 => Some(11),
        3 => Some(5),
        4 => Some(13),
        5 => Some(14),
        6 => Some(4),
        7 => Some(19),
        8 => Some(9),
        9 => Some(8),
        10 => Some(7),
        11 => Some(6),
        12 => Some(3),
        13 => Some(2),
        14 => Some(1),
        15 => Some(0),
        16 => Some(16),
        49 => Some(18),
        50 => Some(24),
        51 => Some(17),
        52 => Some(20),
        53 => Some(23),
        54 => Some(25),
        55 => Some(26),
        58 => Some(21),
        59 => Some(22),
        _ => None,
    }
}

/// The slot of the register block that holds DWARF register `register`, if
/// the block holds it.
pub fn user_regs_slot(register: u16) -> (r: Option<usize>)
    ensures
        r matches Some(i) ==> user_regs_slot_of(register) == Some(i as int) && i < USER_REGS_COUNT,
        r is None ==> user_regs_slot_of(register) is None,
{
    match register {
        0 => Some(10),
        1 => Some(12),
        2 => Some(11),
        3 => Some(5),
        4 => Some(13),
        5 => Some(14),
        6 => Some(4),
        7 => Some(19),
        8 => Some(9),
        9 => Some(8),
        10 => Some(7),
        11 => Some(6),
        12 => Some(3),
        13 => Some(2),
        14 => Some(1),
        15 => Some(0),
        16 => Some(16),
        49 => Some(18),
        50 => Some(24),
        51 => Some(17),
        52 => Some(20),
        53 => Some(23),
        54 => Some(25),
        55 => Some(26),
        58 => Some(21),
        59 => Some(22),
        _ => None,
    }
}

/// A register number that the register block does not hold.
#[derive(Debug, Clone, Copy, PartialEq, Eq, Structural)]
pub enum RegisterError {
    UnknownRegister(u16),
}

/// The general-purpose registers of one stopped thread, one 64-bit value per
/// slot in the order of `user_regs_slot_of`.
#[derive(Debug, Clone, Copy)]
pub struct RegisterBlock {
    pub slots: [u64; USER_REGS_COUNT],
}

impl RegisterBlock {
    /// The value of DWARF register `register`.
    pub fn get_register_value(&self, register: u16) -> (r: Result<u64, RegisterError>)
        ensures
            user_regs_slot_of(register) matches Some(i) ==> r == Ok::<u64, RegisterError>(
                self.slots@[i],
            ),
            user_regs_slot_of(register) is None ==> r == Err::<u64, RegisterError>(
                RegisterError::UnknownRegister(register),
            ),
    {
        match user_regs_slot(register) {
            Some(i) => Ok(self.slots[i]),
            None => Err(RegisterError::UnknownRegister(register)),
        }
    }

    /// Sets DWARF register `register` to `value` and leaves the others.
    pub fn set_register_value(&mut self, register: u16, value: u64) -> (r: Result<(), RegisterError>)
        ensures
            user_regs_slot_of(register) matches Some(i) ==> r is Ok && final(self).slots@ == old(
                self,
            ).slots@.update(i, value),
            user_regs_slot_of(register) is None ==> r == Err::<(), RegisterError>(
                RegisterError::UnknownRegister(register),
            ) && *final(self) == *old(self),
    {
        match user_regs_slot(register) {
            Some(i) => {
                self.slots[i] = value;
                Ok(())
            },
            None => Err(RegisterError::UnknownRegister(register)),
        }
    }
}

} // verus!
