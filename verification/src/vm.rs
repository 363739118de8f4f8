//! The virtual machine: a single-threaded interpreter over the instruction
//! sequence, with a program counter, a sparse register file, a flat
//! byte-addressed memory and a condition-flag bitmask.
//!
//! Every step of the machine follows the mathematical transition function
//! [`spec_step`]; a whole run is some number of iterations of it, so the
//! sequence of yielded values is a function of the starting state alone.

use vstd::prelude::*;
use std::collections::HashMap;
use crate::air::{Flag, Instruction, Mode, Reg};

verus! {

broadcast use vstd::std_specs::hash::group_hash_axioms;

pub const DEFAULT_MEMORY_SIZE: usize = 256;

pub const DEFAULT_VERBOSITY: u8 = 1;

/// Options the host hands the machine at construction.
#[derive(Debug, Clone, Copy, PartialEq, Eq, Structural)]
pub struct VMFlags {
    /// memory size of the virtual machine in bytes
    pub memory_size: usize,
    /// the logging verbosity. 0 for quiet, 1 for normal, 2 for verbose, 3 for
    /// very verbose.
    pub verbosity: u8,
}

/// The logging verbosity levels a host can ask for.
#[derive(Debug, Clone, Copy, PartialEq, Eq, Structural)]
pub enum Verbosity {
    Quiet,
    Normal,
    Verbose,
    VeryVerbose,
}

impl Verbosity {
    /// The numeric level of this verbosity.
    pub open spec fn spec_level(&self) -> u8 {
        match self {
            Verbosity::Quiet => 0,
            Verbosity::Normal => 1,
            Verbosity::Verbose => 2,
            Verbosity::VeryVerbose => 3,
        }
    }

    #[verifier::when_used_as_spec(spec_level)]
    pub fn level(&self) -> (r: u8)
        ensures
            r == self.spec_level(),
    {
        match self {
            Verbosity::Quiet => 0,
            Verbosity::Normal => 1,
            Verbosity::Verbose => 2,
            Verbosity::VeryVerbose => 3,
        }
    }
}

impl VMFlags {
    pub fn none() -> (r: VMFlags)
        ensures
            r.memory_size == DEFAULT_MEMORY_SIZE,
            r.verbosity == DEFAULT_VERBOSITY,
    {
        VMFlags { memory_size: DEFAULT_MEMORY_SIZE, verbosity: DEFAULT_VERBOSITY }
    }

    pub fn new(memory_size: usize, verbosity: u8) -> (r: VMFlags)
        ensures
            r.memory_size == memory_size,
            r.verbosity == verbosity,
    {
        VMFlags { memory_size, verbosity }
    }
}

/// A message the machine sends to its host: one `Yield` per executed `YLD`
/// instruction, and one final `Done`. A machine that stops on a fatal
/// condition flushes a `Fatal` message before that `Done`, so a host
/// draining the stream can tell a fault from a completed run.
#[derive(Debug, PartialEq, Eq)]
pub enum Message {
    Yield(u32),
    Fatal(VmError),
    Done,
}

/// A fatal condition that stops the machine.
#[derive(Debug, PartialEq, Eq)]
pub enum VmError {
    /// A register was read before anything was written to it.
    UninitialisedRegister(Reg),
    /// A `DIV` instruction met a zero divisor.
    DivisionByZero,
    /// A load or store reached past the machine's memory, or an address
    /// computation left the 32-bit range.
    MemoryOutOfBounds(u64),
    /// A branch named a label that no instruction carries.
    MissingLabel(String),
}

impl Clone for VmError {
    fn clone(&self) -> (r: Self)
        ensures
            r == self,
    {
        match self {
            VmError::UninitialisedRegister(r) => VmError::UninitialisedRegister(*r),
            VmError::DivisionByZero => VmError::DivisionByZero,
            VmError::MemoryOutOfBounds(a) => VmError::MemoryOutOfBounds(*a),
            VmError::MissingLabel(l) => VmError::MissingLabel(l.clone()),
        }
    }
}

/// Whether the machine is still stepping, has run past its last instruction,
/// or has stopped on a fatal condition.
#[derive(Debug, Clone)]
pub enum VmStatus {
    Running,
    Finished,
    Faulted(VmError),
}

/// The position of each flag's bit in the flag mask.
pub open spec fn spec_flag_bit(f: Flag) -> u16 {
    match f {
        Flag::Al => 1,
        Flag::Eq => 2,
        Flag::Ne => 4,
        Flag::Lt => 8,
        Flag::Le => 16,
        Flag::Gt => 32,
        Flag::Ge => 64,
        Flag::Nv => 128,
    }
}

#[verifier::when_used_as_spec(spec_flag_bit)]
pub fn flag_bit(f: Flag) -> (r: u16)
    ensures
        r == spec_flag_bit(f),
{
    match f {
        Flag::Al => 1,
        Flag::Eq => 2,
        Flag::Ne => 4,
        Flag::Lt => 8,
        Flag::Le => 16,
        Flag::Gt => 32,
        Flag::Ge => 64,
        Flag::Nv => 128,
    }
}

/// Whether a check of flag `f` succeeds against mask `mask`: `Nv` never
/// succeeds, every other flag succeeds when its bit is set.
pub open spec fn spec_flag_set(mask: u16, f: Flag) -> bool {
    if f == Flag::Nv {
        false
    } else {
        mask & spec_flag_bit(f) != 0
    }
}

/// The flag mask after a comparison of `x` with `y`: the bit of every
/// comparison that holds of `(x, y)` is set, and previously set bits stay set.
pub open spec fn spec_flags_after_cmp(mask: u16, x: u32, y: u32) -> u16 {
    let m1 = if x == y {
        mask | spec_flag_bit(Flag::Eq)
    } else {
        mask
    };
    let m2 = if x != y {
        m1 | spec_flag_bit(Flag::Ne)
    } else {
        m1
    };
    let m3 = if x < y {
        m2 | spec_flag_bit(Flag::Lt)
    } else {
        m2
    };
    let m4 = if x <= y {
        m3 | spec_flag_bit(Flag::Le)
    } else {
        m3
    };
    let m5 = if x > y {
        m4 | spec_flag_bit(Flag::Gt)
    } else {
        m4
    };
    if x >= y {
        m5 | spec_flag_bit(Flag::Ge)
    } else {
        m5
    }
}

/// The machine's condition-flag bitmask. Bit 0 is the always flag and is set
/// from the start; a comparison only ever sets bits.
#[derive(Debug, Clone, Copy, PartialEq, Eq, Structural)]
pub struct Flags(pub u16);

impl Flags {
    /// The mask at machine start: only the always flag is set.
    pub fn empty() -> (r: Flags)
        ensures
            r.0 == 1,
    {
        Flags(1)
    }

    /// Set the bit of the given flag.
    pub fn set(&mut self, flag: Flag)
        ensures
            final(self).0 == old(self).0 | spec_flag_bit(flag),
    {
        *self = Flags(self.0 | flag_bit(flag));
    }

    /// Whether a check of the given flag succeeds against this mask.
    pub fn contains(&self, flag: Flag) -> (r: bool)
        ensures
            r == spec_flag_set(self.0, flag),
    {
        if flag == Flag::Nv {
            false
        } else {
            self.0 & flag_bit(flag) != 0
        }
    }
}

/// The mathematical state of the machine.
pub ghost struct VmState {
    pub instructions: Seq<Instruction>,
    pub pc: nat,
    pub registers: Map<u32, u32>,
    pub memory: Seq<u8>,
    pub flags: u16,
    pub messages: Seq<Message>,
    pub status: VmStatus,
}

impl VmState {
    /// Stop on a fatal condition: the fault is flushed to the host, followed
    /// by the final `Done`.
    pub open spec fn with_fault(self, e: VmError) -> VmState {
        VmState {
            status: VmStatus::Faulted(e),
            messages: self.messages.push(Message::Fatal(e)).push(Message::Done),
            ..self
        }
    }

    pub open spec fn read(self, r: Reg) -> Option<u32> {
        if self.registers.contains_key(r.0) {
            Some(self.registers[r.0])
        } else {
            None
        }
    }
}

/// The index just past the first instruction that is a label of the given
/// name, if there is one, scanning from index `i`.
pub open spec fn spec_find_label_from(insts: Seq<Instruction>, label: Seq<char>, i: nat) -> Option<
    nat,
>
    decreases insts.len() - i,
{
    if i >= insts.len() {
        None
    } else if insts[i as int] matches Instruction::LBL(l) && l@ == label {
        Some(i)
    } else {
        spec_find_label_from(insts, label, i + 1)
    }
}

pub open spec fn spec_find_label(insts: Seq<Instruction>, label: Seq<char>) -> Option<nat> {
    spec_find_label_from(insts, label, 0)
}

/// The four big-endian bytes of a 32-bit word.
pub open spec fn spec_be_byte(v: u32, i: int) -> u8 {
    if i == 0 {
        ((v >> 24) & 0xff) as u8
    } else if i == 1 {
        ((v >> 16) & 0xff) as u8
    } else if i == 2 {
        ((v >> 8) & 0xff) as u8
    } else {
        (v & 0xff) as u8
    }
}

/// The 32-bit word whose big-endian bytes are `b0 b1 b2 b3`.
pub open spec fn spec_word_of_be(b0: u8, b1: u8, b2: u8, b3: u8) -> u32 {
    ((b0 as u32) << 24) | ((b1 as u32) << 16) | ((b2 as u32) << 8) | (b3 as u32)
}

/// The effective address and the register file after address computation for
/// a load or store: `Plain` and `PostOffset` use the address register as it
/// stands; `Offset` adds the offset register; `PreOffset` adds it and writes
/// the sum back. An unreadable register or a sum past the 32-bit range is a
/// fault.
pub open spec fn spec_eff_addr(s: VmState, raddr: Reg, mode: Mode) -> Result<
    (int, Map<u32, u32>),
    VmError,
> {
    match s.read(raddr) {
        None => Err(VmError::UninitialisedRegister(raddr)),
        Some(base) => match mode {
            Mode::Plain => Ok((base as int, s.registers)),
            Mode::PostOffset(_) => Ok((base as int, s.registers)),
            Mode::Offset(ro) => match s.read(ro) {
                None => Err(VmError::UninitialisedRegister(ro)),
                Some(ofs) => if base + ofs > u32::MAX {
                    Err(VmError::MemoryOutOfBounds((base + ofs) as u64))
                } else {
                    Ok((base + ofs, s.registers))
                },
            },
            Mode::PreOffset(ro) => match s.read(ro) {
                None => Err(VmError::UninitialisedRegister(ro)),
                Some(ofs) => if base + ofs > u32::MAX {
                    Err(VmError::MemoryOutOfBounds((base + ofs) as u64))
                } else {
                    Ok((base + ofs, s.registers.insert(raddr.0, (base + ofs) as u32)))
                },
            },
        },
    }
}

/// The register file after the post-increment write-back of a `PostOffset`
/// access, or a fault if the offset register is unreadable or the sum leaves
/// the 32-bit range. Other modes change nothing here.
pub open spec fn spec_post_writeback(regs: Map<u32, u32>, raddr: Reg, mode: Mode) -> Result<
    Map<u32, u32>,
    VmError,
> {
    match mode {
        Mode::PostOffset(ro) => if !regs.contains_key(raddr.0) {
            Err(VmError::UninitialisedRegister(raddr))
        } else if !regs.contains_key(ro.0) {
            Err(VmError::UninitialisedRegister(ro))
        } else {
            let sum = regs[raddr.0] + regs[ro.0];
            if sum > u32::MAX {
                Err(VmError::MemoryOutOfBounds(sum as u64))
            } else {
                Ok(regs.insert(raddr.0, sum as u32))
            }
        },
        _ => Ok(regs),
    }
}

/// One step of the machine. A state that is not running is left unchanged; a
/// program counter past the last instruction finishes the run and sends
/// `Done`; otherwise the instruction under the program counter executes as
/// spelled out here, and the program counter advances (by two for a `CHK`
/// whose flag check fails, to a label for a branch, by one otherwise). A
/// fatal condition stops the machine and flushes the fault and the final
/// `Done` to the host.
pub open spec fn spec_step(s: VmState) -> VmState {
    if !(s.status matches VmStatus::Running) {
        s
    } else if s.pc >= s.instructions.len() {
        VmState { messages: s.messages.push(Message::Done), status: VmStatus::Finished, ..s }
    } else {
        let pc1 = s.pc + 1;
        match s.instructions[s.pc as int] {
            Instruction::ADD(rd, rx, ry) => match (s.read(rx), s.read(ry)) {
                (None, _) => s.with_fault(VmError::UninitialisedRegister(rx)),
                (Some(_), None) => s.with_fault(VmError::UninitialisedRegister(ry)),
                (Some(x), Some(y)) => VmState {
                    pc: pc1,
                    registers: s.registers.insert(
                        rd.0,
                        vstd::wrapping::u32_specs::wrapping_add(x, y),
                    ),
                    ..s
                },
            },
            Instruction::SUB(rd, rx, ry) => match (s.read(rx), s.read(ry)) {
                (None, _) => s.with_fault(VmError::UninitialisedRegister(rx)),
                (Some(_), None) => s.with_fault(VmError::UninitialisedRegister(ry)),
                (Some(x), Some(y)) => VmState {
                    pc: pc1,
                    registers: s.registers.insert(
                        rd.0,
                        vstd::wrapping::u32_specs::wrapping_sub(x, y),
                    ),
                    ..s
                },
            },
            Instruction::MUL(rd, rx, ry) => match (s.read(rx), s.read(ry)) {
                (None, _) => s.with_fault(VmError::UninitialisedRegister(rx)),
                (Some(_), None) => s.with_fault(VmError::UninitialisedRegister(ry)),
                (Some(x), Some(y)) => VmState {
                    pc: pc1,
                    registers: s.registers.insert(
                        rd.0,
                        vstd::wrapping::u32_specs::wrapping_mul(x, y),
                    ),
                    ..s
                },
            },
            Instruction::DIV(rd, rx, ry) => match (s.read(rx), s.read(ry)) {
                (None, _) => s.with_fault(VmError::UninitialisedRegister(rx)),
                (Some(_), None) => s.with_fault(VmError::UninitialisedRegister(ry)),
                (Some(x), Some(y)) => if y == 0 {
                    s.with_fault(VmError::DivisionByZero)
                } else {
                    VmState { pc: pc1, registers: s.registers.insert(rd.0, x / y), ..s }
                },
            },
            Instruction::CON(rd, val) => VmState {
                pc: pc1,
                registers: s.registers.insert(rd.0, val),
                ..s
            },
            Instruction::MOV(rd, rx) => match s.read(rx) {
                None => s.with_fault(VmError::UninitialisedRegister(rx)),
                Some(x) => VmState { pc: pc1, registers: s.registers.insert(rd.0, x), ..s },
            },
            Instruction::NOT(rd, rx) => match s.read(rx) {
                None => s.with_fault(VmError::UninitialisedRegister(rx)),
                Some(x) => VmState { pc: pc1, registers: s.registers.insert(rd.0, !x), ..s },
            },
            Instruction::CMP(rx, ry, _) => match (s.read(rx), s.read(ry)) {
                (None, _) => s.with_fault(VmError::UninitialisedRegister(rx)),
                (Some(_), None) => s.with_fault(VmError::UninitialisedRegister(ry)),
                (Some(x), Some(y)) => VmState {
                    pc: pc1,
                    flags: spec_flags_after_cmp(s.flags, x, y),
                    ..s
                },
            },
            Instruction::CHK(flag) => if spec_flag_set(s.flags, flag) {
                VmState { pc: pc1, ..s }
            } else {
                VmState { pc: s.pc + 2, ..s }
            },
            Instruction::BRA(label) => match spec_find_label(s.instructions, label@) {
                None => s.with_fault(VmError::MissingLabel(label)),
                Some(idx) => VmState { pc: idx + 1, ..s },
            },
            Instruction::LBL(_) => VmState { pc: pc1, ..s },
            Instruction::YLD(rx) => match s.read(rx) {
                None => s.with_fault(VmError::UninitialisedRegister(rx)),
                Some(x) => VmState { pc: pc1, messages: s.messages.push(Message::Yield(x)), ..s },
            },
            Instruction::STR(rsrc, raddr, mode) => match s.read(rsrc) {
                None => s.with_fault(VmError::UninitialisedRegister(rsrc)),
                Some(v) => match spec_eff_addr(s, raddr, mode) {
                    Err(e) => s.with_fault(e),
                    Ok((addr, regs1)) => if addr + 4 > s.memory.len() {
                        VmState { registers: regs1, ..s }.with_fault(
                            VmError::MemoryOutOfBounds(addr as u64),
                        )
                    } else {
                        let mem1 = s.memory.update(addr, spec_be_byte(v, 0)).update(
                            addr + 1,
                            spec_be_byte(v, 1),
                        ).update(addr + 2, spec_be_byte(v, 2)).update(addr + 3, spec_be_byte(v, 3));
                        match spec_post_writeback(regs1, raddr, mode) {
                            Err(e) => VmState {
                                memory: mem1,
                                registers: regs1,
                                ..s
                            }.with_fault(e),
                            Ok(regs2) => VmState {
                                pc: pc1,
                                registers: regs2,
                                memory: mem1,
                                ..s
                            },
                        }
                    },
                },
            },
            Instruction::LDR(rd, raddr, mode) => match spec_eff_addr(s, raddr, mode) {
                Err(e) => s.with_fault(e),
                Ok((addr, regs1)) => if addr + 4 > s.memory.len() {
                    VmState { registers: regs1, ..s }.with_fault(
                        VmError::MemoryOutOfBounds(addr as u64),
                    )
                } else {
                    let w = spec_word_of_be(
                        s.memory[addr],
                        s.memory[addr + 1],
                        s.memory[addr + 2],
                        s.memory[addr + 3],
                    );
                    match spec_post_writeback(regs1, raddr, mode) {
                        Err(e) => VmState { registers: regs1, ..s }.with_fault(e),
                        Ok(regs2) => VmState {
                            pc: pc1,
                            registers: regs2.insert(rd.0, w),
                            ..s
                        },
                    }
                },
            },
        }
    }
}

/// The machine state after `n` steps.
pub open spec fn spec_run(s: VmState, n: nat) -> VmState
    decreases n,
{
    if n == 0 {
        s
    } else {
        spec_step(spec_run(s, (n - 1) as nat))
    }
}

/// The register machine. It executes its instruction sequence step by step
/// and collects the messages it would stream to its host.
pub struct Machine {
    instructions: Vec<Instruction>,
    registers: HashMap<u32, u32>,
    memory: Vec<u8>,
    messages: Vec<Message>,
    /// program counter
    pc: usize,
    flags: Flags,
    vm_flags: VMFlags,
    status: VmStatus,
}

impl Machine {
    /// The machine's mathematical state.
    pub closed spec fn view(&self) -> VmState {
        VmState {
            instructions: self.instructions@,
            pc: self.pc as nat,
            registers: self.registers@,
            memory: self.memory@,
            flags: self.flags.0,
            messages: self.messages@,
            status: self.status,
        }
    }

    /// What the machine maintains between steps: room for the program counter
    /// to move past a skipped instruction, and the always flag set.
    pub closed spec fn inv(&self) -> bool {
        &&& self.instructions@.len() + 2 <= usize::MAX
        &&& self@.flags & 1 == 1
    }

    pub fn new(instructions: Vec<Instruction>, vm_flags: VMFlags) -> (r: Machine)
        requires
            instructions@.len() + 2 <= usize::MAX,
        ensures
            r@.instructions == instructions@,
            r@.pc == 0,
            r@.registers == Map::<u32, u32>::empty(),
            r@.memory == Seq::new(vm_flags.memory_size as nat, |i: int| 0u8),
            r@.flags == 1u16,
            r@.messages == Seq::<Message>::empty(),
            r@.status is Running,
            r.inv(),
            r.flags_given() == vm_flags,
    {
        let mut memory: Vec<u8> = Vec::new();
        let mut i: usize = 0;
        while i < vm_flags.memory_size
            invariant
                i <= vm_flags.memory_size,
                memory@ =~= Seq::new(i as nat, |j: int| 0u8),
            decreases vm_flags.memory_size - i,
        {
            memory.push(0);
            proof {
                assert(memory@ =~= Seq::new((i + 1) as nat, |j: int| 0u8));
            }
            i = i + 1;
        }
        proof {
            assert(1u16 & 1u16 == 1u16) by (bit_vector);
        }
        Machine {
            instructions,
            registers: HashMap::new(),
            memory,
            messages: Vec::new(),
            pc: 0,
            flags: Flags::empty(),
            vm_flags,
            status: VmStatus::Running,
        }
    }

    /// The options the machine was built with.
    pub closed spec fn flags_given(&self) -> VMFlags {
        self.vm_flags
    }

    /// The messages sent to the host so far, in order.
    pub fn messages(&self) -> (r: &Vec<Message>)
        ensures
            r@ == self@.messages,
    {
        &self.messages
    }

    /// The machine's memory.
    pub fn memory(&self) -> (r: &Vec<u8>)
        ensures
            r@ == self@.memory,
    {
        &self.memory
    }

    /// Whether the machine is still running, and on what fault it stopped if
    /// it stopped on one.
    pub fn status(&self) -> (r: &VmStatus)
        ensures
            r == self@.status,
    {
        &self.status
    }

    /// Get the value in a register.
    fn get(&self, reg: Reg) -> (r: Result<u32, VmError>)
        ensures
            match self@.read(reg) {
                Some(v) => r == Result::<u32, VmError>::Ok(v),
                None => r == Result::<u32, VmError>::Err(VmError::UninitialisedRegister(reg)),
            },
    {
        match self.registers.get(&reg.0) {
            Some(v) => Ok(*v),
            None => Err(VmError::UninitialisedRegister(reg)),
        }
    }

    /// Save a value in a register.
    fn save(&mut self, reg: Reg, val: u32)
        ensures
            final(self)@ == (VmState {
                registers: old(self)@.registers.insert(reg.0, val),
                ..old(self)@
            }),
            final(self).inv() == old(self).inv(),
    {
        self.registers.insert(reg.0, val);
    }

    /// Stop on a fatal condition, flushing it to the host before the final
    /// `Done`.
    fn fault(&mut self, e: VmError)
        ensures
            final(self)@ == old(self)@.with_fault(e),
            final(self).inv() == old(self).inv(),
    {
        self.messages.push(Message::Fatal(e.clone()));
        self.messages.push(Message::Done);
        self.status = VmStatus::Faulted(e);
    }

    /// Find the index of the first label with the given name, if it exists.
    fn find_label(&self, label: &String) -> (r: Option<usize>)
        ensures
            match spec_find_label(self@.instructions, label@) {
                Some(i) => r == Some(i as usize) && i < self@.instructions.len(),
                None => r is None,
            },
    {
        let n = self.instructions.len();
        let mut i: usize = 0;
        while i < n
            invariant
                i <= n,
                n == self@.instructions.len(),
                spec_find_label_from(self@.instructions, label@, 0) == spec_find_label_from(
                    self@.instructions,
                    label@,
                    i as nat,
                ),
            decreases n - i,
        {
            let matches_here = match &self.instructions[i] {
                Instruction::LBL(l) => l.eq(label),
                _ => false,
            };
            proof {
                assert(matches_here == (self@.instructions[i as int] matches Instruction::LBL(l)
                    && l@ == label@));
                if matches_here {
                    assert(spec_find_label_from(self@.instructions, label@, i as nat) == Some(
                        i as nat,
                    ));
                } else {
                    assert(spec_find_label_from(self@.instructions, label@, i as nat)
                        == spec_find_label_from(self@.instructions, label@, i as nat + 1));
                }
            }
            if matches_here {
                return Some(i);
            }
            i = i + 1;
        }
        proof {
            assert(spec_find_label_from(self@.instructions, label@, n as nat) is None);
        }
        None
    }

    /// Compute the effective address for a load or store and perform the
    /// pre-increment write-back where the mode asks for one.
    fn eff_addr(&mut self, raddr: Reg, mode: &Mode) -> (r: Result<u64, VmError>)
        ensures
            match spec_eff_addr(old(self)@, raddr, *mode) {
                Ok((addr, regs1)) => r == Result::<u64, VmError>::Ok(addr as u64) && final(self)@
                    == (VmState { registers: regs1, ..old(self)@ }) && addr <= u32::MAX,
                Err(e) => r == Result::<u64, VmError>::Err(e) && final(self)@ == old(self)@,
            },
            final(self).inv() == old(self).inv(),
    {
        let base = match self.get(raddr) {
            Ok(v) => v,
            Err(e) => {
                return Err(e);
            },
        };
        match mode {
            Mode::Plain | Mode::PostOffset(_) => Ok(base as u64),
            Mode::Offset(ro) => {
                let ofs = match self.get(*ro) {
                    Ok(v) => v,
                    Err(e) => {
                        return Err(e);
                    },
                };
                let sum: u64 = base as u64 + ofs as u64;
                if sum > u32::MAX as u64 {
                    Err(VmError::MemoryOutOfBounds(sum))
                } else {
                    Ok(sum)
                }
            },
            Mode::PreOffset(ro) => {
                let ofs = match self.get(*ro) {
                    Ok(v) => v,
                    Err(e) => {
                        return Err(e);
                    },
                };
                let sum: u64 = base as u64 + ofs as u64;
                if sum > u32::MAX as u64 {
                    Err(VmError::MemoryOutOfBounds(sum))
                } else {
                    self.save(raddr, sum as u32);
                    Ok(sum)
                }
            },
        }
    }

    /// Perform the post-increment write-back where the mode asks for one.
    fn post_writeback(&mut self, raddr: Reg, mode: &Mode) -> (r: Result<(), VmError>)
        ensures
            match spec_post_writeback(old(self)@.registers, raddr, *mode) {
                Ok(regs2) => r == Result::<(), VmError>::Ok(()) && final(self)@ == (VmState {
                    registers: regs2,
                    ..old(self)@
                }),
                Err(e) => r == Result::<(), VmError>::Err(e) && final(self)@ == old(self)@,
            },
            final(self).inv() == old(self).inv(),
    {
        match mode {
            Mode::PostOffset(ro) => {
                let base = match self.get(raddr) {
                    Ok(v) => v,
                    Err(e) => {
                        return Err(e);
                    },
                };
                let ofs = match self.get(*ro) {
                    Ok(v) => v,
                    Err(e) => {
                        return Err(e);
                    },
                };
                let sum: u64 = base as u64 + ofs as u64;
                if sum > u32::MAX as u64 {
                    Err(VmError::MemoryOutOfBounds(sum))
                } else {
                    self.save(raddr, sum as u32);
                    Ok(())
                }
            },
            _ => Ok(()),
        }
    }

    /// Take one step through the program.
    pub fn step(&mut self)
        requires
            old(self).inv(),
            old(self)@.status is Running,
        ensures
            final(self)@ == spec_step(old(self)@),
            final(self).inv(),
    {
        proof {
            lemma_step_preserves_al(old(self)@);
        }
        if self.pc >= self.instructions.len() {
            self.messages.push(Message::Done);
            self.status = VmStatus::Finished;
            return ;
        }
        let inst = self.instructions[self.pc].clone();
        let pc1 = self.pc + 1;
        match inst {
            Instruction::ADD(rd, rx, ry) => {
                let x = match self.get(rx) {
                    Ok(v) => v,
                    Err(e) => {
                        self.fault(e);
                        return ;
                    },
                };
                let y = match self.get(ry) {
                    Ok(v) => v,
                    Err(e) => {
                        self.fault(e);
                        return ;
                    },
                };
                self.save(rd, x.wrapping_add(y));
                self.pc = pc1;
            },
            Instruction::SUB(rd, rx, ry) => {
                let x = match self.get(rx) {
                    Ok(v) => v,
                    Err(e) => {
                        self.fault(e);
                        return ;
                    },
                };
                let y = match self.get(ry) {
                    Ok(v) => v,
                    Err(e) => {
                        self.fault(e);
                        return ;
                    },
                };
                self.save(rd, x.wrapping_sub(y));
                self.pc = pc1;
            },
            Instruction::MUL(rd, rx, ry) => {
                let x = match self.get(rx) {
                    Ok(v) => v,
                    Err(e) => {
                        self.fault(e);
                        return ;
                    },
                };
                let y = match self.get(ry) {
                    Ok(v) => v,
                    Err(e) => {
                        self.fault(e);
                        return ;
                    },
                };
                self.save(rd, x.wrapping_mul(y));
                self.pc = pc1;
            },
            Instruction::DIV(rd, rx, ry) => {
                let x = match self.get(rx) {
                    Ok(v) => v,
                    Err(e) => {
                        self.fault(e);
                        return ;
                    },
                };
                let y = match self.get(ry) {
                    Ok(v) => v,
                    Err(e) => {
                        self.fault(e);
                        return ;
                    },
                };
                if y == 0 {
                    self.fault(VmError::DivisionByZero);
                    return ;
                }
                self.save(rd, x / y);
                self.pc = pc1;
            },
            Instruction::CON(rd, val) => {
                self.save(rd, val);
                self.pc = pc1;
            },
            Instruction::MOV(rd, rx) => {
                let x = match self.get(rx) {
                    Ok(v) => v,
                    Err(e) => {
                        self.fault(e);
                        return ;
                    },
                };
                self.save(rd, x);
                self.pc = pc1;
            },
            Instruction::NOT(rd, rx) => {
                let x = match self.get(rx) {
                    Ok(v) => v,
                    Err(e) => {
                        self.fault(e);
                        return ;
                    },
                };
                self.save(rd, !x);
                self.pc = pc1;
            },
            Instruction::CMP(rx, ry, _) => {
                let x = match self.get(rx) {
                    Ok(v) => v,
                    Err(e) => {
                        self.fault(e);
                        return ;
                    },
                };
                let y = match self.get(ry) {
                    Ok(v) => v,
                    Err(e) => {
                        self.fault(e);
                        return ;
                    },
                };
                if x == y {
                    self.flags.set(Flag::Eq)
                }
                if x != y {
                    self.flags.set(Flag::Ne)
                }
                if x < y {
                    self.flags.set(Flag::Lt)
                }
                if x <= y {
                    self.flags.set(Flag::Le)
                }
                if x > y {
                    self.flags.set(Flag::Gt)
                }
                if x >= y {
                    self.flags.set(Flag::Ge)
                }
                self.pc = pc1;
            },
            Instruction::CHK(flag) => {
                if !self.flags.contains(flag) {
                    self.pc = self.pc + 2;
                } else {
                    self.pc = pc1;
                }
            },
            Instruction::BRA(label) => {
                match self.find_label(&label) {
                    None => {
                        self.fault(VmError::MissingLabel(label));
                        return ;
                    },
                    Some(idx) => {
                        self.pc = idx + 1;
                    },
                }
            },
            Instruction::LBL(_) => {
                self.pc = pc1;
            },
            Instruction::YLD(rx) => {
                let x = match self.get(rx) {
                    Ok(v) => v,
                    Err(e) => {
                        self.fault(e);
                        return ;
                    },
                };
                self.messages.push(Message::Yield(x));
                self.pc = pc1;
            },
            Instruction::STR(rsrc, raddr, mode) => {
                let v = match self.get(rsrc) {
                    Ok(v) => v,
                    Err(e) => {
                        self.fault(e);
                        return ;
                    },
                };
                let addr = match self.eff_addr(raddr, &mode) {
                    Ok(a) => a,
                    Err(e) => {
                        self.fault(e);
                        return ;
                    },
                };
                if addr + 4 > self.memory.len() as u64 {
                    self.fault(VmError::MemoryOutOfBounds(addr));
                    return ;
                }
                let base = addr as usize;
                self.memory.set(base, ((v >> 24) & 0xff) as u8);
                self.memory.set(base + 1, ((v >> 16) & 0xff) as u8);
                self.memory.set(base + 2, ((v >> 8) & 0xff) as u8);
                self.memory.set(base + 3, (v & 0xff) as u8);
                match self.post_writeback(raddr, &mode) {
                    Ok(_) => {
                        self.pc = pc1;
                    },
                    Err(e) => {
                        self.fault(e);
                        return ;
                    },
                }
            },
            Instruction::LDR(rd, raddr, mode) => {
                let addr = match self.eff_addr(raddr, &mode) {
                    Ok(a) => a,
                    Err(e) => {
                        self.fault(e);
                        return ;
                    },
                };
                if addr + 4 > self.memory.len() as u64 {
                    self.fault(VmError::MemoryOutOfBounds(addr));
                    return ;
                }
                let base = addr as usize;
                let b0 = self.memory[base];
                let b1 = self.memory[base + 1];
                let b2 = self.memory[base + 2];
                let b3 = self.memory[base + 3];
                let w = ((b0 as u32) << 24) | ((b1 as u32) << 16) | ((b2 as u32) << 8) | (
                b3 as u32);
                match self.post_writeback(raddr, &mode) {
                    Ok(_) => {
                        self.save(rd, w);
                        self.pc = pc1;
                    },
                    Err(e) => {
                        self.fault(e);
                        return ;
                    },
                }
            },
        }
    }

    /// Run the program for at most `fuel` machine steps, stopping early when
    /// it finishes or faults: the machine lands exactly on the starting state
    /// taken through `fuel` machine steps (a stopped state absorbs the spare
    /// steps). On normal completion the last message is `Done` and the
    /// result is `Some(Ok(()))`; a fatal condition gives `Some(Err(..))` with
    /// the fault, flushed to the host before the final `Done`; a program
    /// still running when the fuel is spent gives `None`, and a further call
    /// carries on. The host drives this in a loop, choosing how long it is
    /// willing to wait.
    pub fn run(&mut self, fuel: u64) -> (r: Option<Result<(), VmError>>)
        requires
            old(self).inv(),
        ensures
            final(self).inv(),
            final(self)@ == spec_run(old(self)@, fuel as nat),
            (match r {
                None => final(self)@.status is Running,
                Some(done) => match done {
                    Ok(u) => final(self)@.status is Finished,
                    Err(e) => final(self)@.status == VmStatus::Faulted(e),
                },
            }),
    {
        let ghost s0 = self@;
        let ghost mut n: nat = 0;
        let mut i: u64 = 0;
        while i < fuel
            invariant
                self.inv(),
                i <= fuel,
                n == i,
                self@ == spec_run(s0, n),
            ensures
                self.inv(),
                n <= fuel,
                self@ == spec_run(s0, n),
                n == fuel || !(self@.status is Running),
            decreases fuel - i,
        {
            let running = match &self.status {
                VmStatus::Running => true,
                _ => false,
            };
            if !running {
                break ;
            }
            self.step();
            proof {
                n = n + 1;
            }
            i = i + 1;
        }
        proof {
            if n < fuel as nat {
                lemma_stopped_stays(s0, n, fuel as nat);
            }
        }
        match &self.status {
            VmStatus::Running => None,
            VmStatus::Finished => Some(Ok(())),
            VmStatus::Faulted(e) => Some(Err(e.clone())),
        }
    }
}

/// Once a run has stopped, further steps change nothing.
pub proof fn lemma_stopped_stays(s: VmState, n: nat, m: nat)
    requires
        n <= m,
        !(spec_run(s, n).status is Running),
    ensures
        spec_run(s, m) == spec_run(s, n),
    decreases m,
{
    if m > n {
        lemma_stopped_stays(s, n, (m - 1) as nat);
    }
}


/// Running `n` steps is one step and then `n - 1` more.
proof fn lemma_run_shift(s: VmState, n: nat)
    requires
        n >= 1,
    ensures
        spec_run(s, n) == spec_run(spec_step(s), (n - 1) as nat),
    decreases n,
{
    if n == 1 {
        assert(spec_run(s, 0) == s);
        assert(spec_run(spec_step(s), 0) == spec_step(s));
        assert(spec_run(s, 1) == spec_step(spec_run(s, 0)));
    } else {
        lemma_run_shift(s, (n - 1) as nat);
        assert(spec_run(s, n) == spec_step(spec_run(s, (n - 1) as nat)));
        assert(spec_run(spec_step(s), (n - 1) as nat) == spec_step(
            spec_run(spec_step(s), (n - 2) as nat),
        ));
    }
}

/// A step finishes the machine exactly when it was running with its counter
/// already past the last instruction; no instruction's execution finishes it.
pub proof fn lemma_step_finishes_exactly_past_end(s: VmState)
    ensures
        spec_step(s).status is Finished <==> ((s.status is Running && s.pc
            >= s.instructions.len()) || s.status is Finished),
{
}

/// A step of a running machine never rewrites the program, and — on anything
/// but a branch — moves the counter strictly forward unless it stops the
/// machine.
pub proof fn lemma_step_advances_pc(s: VmState)
    requires
        s.status is Running,
        s.pc < s.instructions.len(),
    ensures
        spec_step(s).instructions == s.instructions,
        !(s.instructions[s.pc as int] is BRA) && spec_step(s).status is Running ==> spec_step(
            s,
        ).pc > s.pc,
{
}

/// Law: a run stops exactly when the counter walks past the last instruction
/// (the step-level boundary above), and a branch-free program always stops:
/// each of its steps moves the counter strictly forward, so a step budget of
/// the program's length plus two leaves the machine finished or faulted.
pub proof fn lemma_branch_free_run_terminates(s: VmState, n: nat)
    requires
        forall|k: int| 0 <= k < s.instructions.len() ==> !((#[trigger] s.instructions[k]) is BRA),
        n >= 1,
        n + s.pc >= s.instructions.len() + 2,
    ensures
        !(spec_run(s, n).status is Running),
    decreases n,
{
    if !(s.status is Running) {
        assert(spec_run(s, 0) == s);
        lemma_stopped_stays(s, 0, n);
    } else if s.pc >= s.instructions.len() {
        let s1 = spec_step(s);
        lemma_run_shift(s, n);
        assert(spec_run(s1, 0) == s1);
        lemma_stopped_stays(s1, 0, (n - 1) as nat);
    } else {
        let s1 = spec_step(s);
        lemma_run_shift(s, n);
        lemma_step_advances_pc(s);
        if s1.status is Running {
            lemma_branch_free_run_terminates(s1, (n - 1) as nat);
        } else {
            assert(spec_run(s1, 0) == s1);
            lemma_stopped_stays(s1, 0, (n - 1) as nat);
        }
    }
}

/// Law: the machine is deterministic. From one starting state — one
/// instruction sequence, register file, memory and flag mask — any two runs
/// that have stopped have reached the same state, so in particular the same
/// sequence of yielded messages. Together with [`Machine::run`]'s contract,
/// which pins its final state to `spec_run` of the starting state, the values
/// a program yields depend only on the instructions it was started with.
pub proof fn lemma_vm_deterministic(s: VmState, n: nat, m: nat)
    requires
        !(spec_run(s, n).status is Running),
        !(spec_run(s, m).status is Running),
    ensures
        spec_run(s, n) == spec_run(s, m),
        spec_run(s, n).messages == spec_run(s, m).messages,
{
    if n <= m {
        lemma_stopped_stays(s, n, m);
    } else {
        lemma_stopped_stays(s, m, n);
    }
}

/// Law: a comparison sets every flag bit that is consistent with it. After
/// `CMP a, b; CMP c, d` the bits consistent with the latest comparison of
/// `(c, d)` are all set, whatever the earlier comparison left behind; bits
/// set earlier stay set, which is why a check must go by the most recent
/// comparison's hint.
pub proof fn lemma_cmp_flag_accumulation(mask: u16, x: u32, y: u32)
    ensures
        x == y ==> spec_flag_set(spec_flags_after_cmp(mask, x, y), Flag::Eq),
        x != y ==> spec_flag_set(spec_flags_after_cmp(mask, x, y), Flag::Ne),
        x < y ==> spec_flag_set(spec_flags_after_cmp(mask, x, y), Flag::Lt),
        x <= y ==> spec_flag_set(spec_flags_after_cmp(mask, x, y), Flag::Le),
        x > y ==> spec_flag_set(spec_flags_after_cmp(mask, x, y), Flag::Gt),
        x >= y ==> spec_flag_set(spec_flags_after_cmp(mask, x, y), Flag::Ge),
        forall|f: Flag|
            spec_flag_set(mask, f) ==> #[trigger] spec_flag_set(
                spec_flags_after_cmp(mask, x, y),
                f,
            ),
{
    lemma_or_keeps_bits();
}

/// Facts about setting bits in a mask: a set bit survives further sets, and
/// setting a bit sets it.
proof fn lemma_or_keeps_bits()
    ensures
        forall|a: u16, b: u16, c: u16| a & c != 0 ==> #[trigger] ((a | b) & c) != 0,
        forall|a: u16, c: u16| c != 0 ==> #[trigger] ((a | c) & c) != 0,
{
    assert forall|a: u16, b: u16, c: u16| a & c != 0 implies #[trigger] ((a | b) & c) != 0 by {
        assert(a & c != 0 ==> (a | b) & c != 0) by (bit_vector);
    };
    assert forall|a: u16, c: u16| c != 0 implies #[trigger] ((a | c) & c) != 0 by {
        assert(c != 0 ==> (a | c) & c != 0) by (bit_vector);
    };
}

/// A step never clears the always flag.
pub proof fn lemma_step_preserves_al(s: VmState)
    requires
        s.flags & 1 == 1,
    ensures
        spec_step(s).flags & 1 == 1,
{
    assert forall|m: u16, b: u16| m & 1 == 1 implies (m | b) & 1 == 1 by {
        assert(m & 1 == 1 ==> (m | b) & 1 == 1) by (bit_vector);
    };
}

} // verus!
