use crate::flags::{flag_of, flag_value, ConditionFlags};
use crate::memory::{Memory, MemoryView, MEMORY_SIZE};
use crate::opcode::{decode, lemma_register_fields, Opcode, Trap};
use vstd::prelude::*;

verus! {

/// Why the machine cannot go on.
#[derive(Debug, Clone, Copy, PartialEq, Eq, Structural)]
pub enum CPUErrors {
    /// A register number above 8.
    Register,
    /// A flag update asked for a register number above 8.
    Flag,
    /// A string routine found no terminating zero anywhere in memory.
    Execute,
    /// The fetched word is not an instruction.
    Decode,
}

/// What the host has to do after an instruction.
#[derive(Debug, PartialEq, Eq)]
pub enum Effect {
    /// Nothing.
    Done,
    /// Nothing yet: the step budget ran out while the machine still runs.
    Continue,
    /// Write these bytes to the console, then flush.
    Output(Vec<u8>),
    /// Write `prompt` and flush, read one byte from the console and hand it
    /// to `CPU::complete_input`; when `echo` is set, write the byte back and
    /// flush.
    Input { prompt: &'static str, echo: bool },
}

/// The prompt of the IN trap.
pub const IN_PROMPT: &'static str = "Enter a character: ";

/// The machine: eight general-purpose registers, the program counter, the
/// condition code, memory, and whether it still runs.
#[allow(clippy::upper_case_acronyms)]
pub struct CPU {
    pub r0: u16,
    pub r1: u16,
    pub r2: u16,
    pub r3: u16,
    pub r4: u16,
    pub r5: u16,
    pub r6: u16,
    pub r7: u16,
    pub pc: u16,
    pub cond: u16,
    pub memory: Memory,
    pub running: bool,
}

/// The state of a `CPU`, with the general-purpose registers as a sequence.
#[verifier::ext_equal]
pub struct CpuView {
    pub regs: Seq<u16>,
    pub pc: u16,
    pub cond: u16,
    pub memory: MemoryView,
    pub running: bool,
}

impl View for CPU {
    type V = CpuView;

    open spec fn view(&self) -> CpuView {
        CpuView {
            regs: seq![self.r0, self.r1, self.r2, self.r3, self.r4, self.r5, self.r6, self.r7],
            pc: self.pc,
            cond: self.cond,
            memory: self.memory@,
            running: self.running,
        }
    }
}

/// `a` plus `d`, modulo 2^16.
pub open spec fn wrap_add(a: u16, d: int) -> u16 {
    ((a + d) % 0x1_0000) as u16
}

/// Whether a branch with gates `n`, `z`, `p` is taken under condition code `cond`.
pub open spec fn branch_taken(cond: u16, n: bool, z: bool, p: bool) -> bool {
    (n && cond == flag_value(ConditionFlags::NEG)) || (z && cond == flag_value(ConditionFlags::ZRO))
        || (p && cond == flag_value(ConditionFlags::POS))
}

/// Register numbers run from 0 to 8; 8 names the program counter.
pub open spec fn valid_reg(i: u16) -> bool {
    i <= 8
}

impl CpuView {
    /// Register `i`: R0 to R7, and the program counter for 8.
    pub open spec fn reg(self, i: u16) -> u16 {
        if i < 8 {
            self.regs[i as int]
        } else {
            self.pc
        }
    }

    /// The state with register `i` set to `v`.
    pub open spec fn set_reg(self, i: u16, v: u16) -> CpuView {
        if i < 8 {
            CpuView { regs: self.regs.update(i as int, v), ..self }
        } else {
            CpuView { pc: v, ..self }
        }
    }

    /// The state with the condition code set from `v`.
    pub open spec fn set_cond(self, v: u16) -> CpuView {
        CpuView { cond: flag_value(flag_of(v)), ..self }
    }

    /// An instruction's result: register `i` takes `v`, and the condition
    /// code follows it.
    pub open spec fn write_result(self, i: u16, v: u16) -> CpuView {
        self.set_reg(i, v).set_cond(v)
    }
}

/// The word `i` places after `start`, counting around the end of memory.
pub open spec fn word_at(cells: Seq<u16>, start: u16, i: int) -> u16 {
    cells[(start + i) % 0x1_0000]
}

/// Whether the zero-terminated string at `start` has `len` words before its
/// terminator.
pub open spec fn string_end(cells: Seq<u16>, start: u16, len: int) -> bool {
    &&& 0 <= len < 0x1_0000
    &&& word_at(cells, start, len) == 0
    &&& forall|j: int| 0 <= j < len ==> word_at(cells, start, j) != 0
}

/// Whether some word of memory is zero, so that every string ends.
pub open spec fn has_zero(cells: Seq<u16>) -> bool {
    exists|a: int| 0 <= a < 0x1_0000 && cells[a] == 0
}

/// What PUTS writes for a string of `len` words: the low byte of each.
pub open spec fn puts_bytes(cells: Seq<u16>, start: u16, len: int) -> Seq<u8> {
    Seq::new(len as nat, |i: int| word_at(cells, start, i) as u8)
}

/// The characters packed in one word: the low byte, then the high byte,
/// each only when it is not zero.
pub open spec fn packed_chars(w: u16) -> Seq<u8> {
    (if w as u8 != 0 {
        seq![w as u8]
    } else {
        Seq::<u8>::empty()
    }) + (if (w >> 8) as u8 != 0 {
        seq![(w >> 8) as u8]
    } else {
        Seq::<u8>::empty()
    })
}

/// What PUTSP writes for the first `len` words of the string at `start`.
pub open spec fn putsp_bytes(cells: Seq<u16>, start: u16, len: nat) -> Seq<u8>
    decreases len,
{
    if len == 0 {
        Seq::empty()
    } else {
        putsp_bytes(cells, start, (len - 1) as nat) + packed_chars(
            word_at(cells, start, len - 1),
        )
    }
}

/// Whether every register number that `op` names is valid.
pub open spec fn registers_valid(op: Opcode) -> bool {
    match op {
        Opcode::OP_ADD_SR { dr, sr1, sr2, .. } => valid_reg(dr) && valid_reg(sr1) && valid_reg(sr2),
        Opcode::OP_AND_SR { dr, sr1, sr2, .. } => valid_reg(dr) && valid_reg(sr1) && valid_reg(sr2),
        Opcode::OP_ADD_IMM { dr, sr1, .. } => valid_reg(dr) && valid_reg(sr1),
        Opcode::OP_AND_IMM { dr, sr1, .. } => valid_reg(dr) && valid_reg(sr1),
        Opcode::OP_NOT { dr, sr } => valid_reg(dr) && valid_reg(sr),
        Opcode::OP_LD { dr, .. } => valid_reg(dr),
        Opcode::OP_LDI { dr, .. } => valid_reg(dr),
        Opcode::OP_LEA { dr, .. } => valid_reg(dr),
        Opcode::OP_LDR { dr, base_r, .. } => valid_reg(dr) && valid_reg(base_r),
        Opcode::OP_ST { sr, .. } => valid_reg(sr),
        Opcode::OP_STI { sr, .. } => valid_reg(sr),
        Opcode::OP_STR { sr, base_r, .. } => valid_reg(sr) && valid_reg(base_r),
        Opcode::OP_JMP { base_r } => valid_reg(base_r),
        Opcode::OP_JSRR { base_r, .. } => valid_reg(base_r),
        _ => true,
    }
}

/// Whether `op` is a string-writing trap.
pub open spec fn writes_string(op: Opcode) -> bool {
    op == (Opcode::OP_TRAP { trapvec: Trap::Puts }) || op == (Opcode::OP_TRAP {
        trapvec: Trap::Putsp,
    })
}

/// Whether `op` leaves nothing for the host to do.
pub open spec fn is_quiet(op: Opcode) -> bool {
    match op {
        Opcode::OP_TRAP { trapvec } => trapvec == Trap::Halt,
        _ => true,
    }
}

/// The register that `op` writes its result to, with the condition code
/// following it.
pub open spec fn destination(op: Opcode) -> Option<u16> {
    match op {
        Opcode::OP_ADD_SR { dr, .. } => Some(dr),
        Opcode::OP_ADD_IMM { dr, .. } => Some(dr),
        Opcode::OP_AND_SR { dr, .. } => Some(dr),
        Opcode::OP_AND_IMM { dr, .. } => Some(dr),
        Opcode::OP_NOT { dr, .. } => Some(dr),
        Opcode::OP_LD { dr, .. } => Some(dr),
        Opcode::OP_LDI { dr, .. } => Some(dr),
        Opcode::OP_LDR { dr, .. } => Some(dr),
        Opcode::OP_LEA { dr, .. } => Some(dr),
        _ => None,
    }
}

impl CpuView {
    /// The error that executing `op` in this state gives, if any.
    pub open spec fn fault(self, op: Opcode) -> Option<CPUErrors> {
        if !registers_valid(op) {
            Some(CPUErrors::Register)
        } else if writes_string(op) && !has_zero(self.memory.cells) {
            Some(CPUErrors::Execute)
        } else {
            None
        }
    }

    /// The state with the memory as it is after a read of `address`.
    pub open spec fn after_read(self, address: int) -> CpuView {
        CpuView { memory: self.memory.after_read(address), ..self }
    }

    /// The state after executing `op`, when `op` does not fail. GETC and IN
    /// finish in `CPU::complete_input`.
    pub open spec fn next(self, op: Opcode) -> CpuView {
        match op {
            Opcode::OP_ADD_SR { dr, sr1, sr2, .. } => self.write_result(
                dr,
                wrap_add(self.reg(sr1), self.reg(sr2) as int),
            ),
            Opcode::OP_ADD_IMM { dr, sr1, imm5, .. } => self.write_result(
                dr,
                wrap_add(self.reg(sr1), imm5 as int),
            ),
            Opcode::OP_AND_SR { dr, sr1, sr2, .. } => self.write_result(
                dr,
                self.reg(sr1) & self.reg(sr2),
            ),
            Opcode::OP_AND_IMM { dr, sr1, imm5, .. } => self.write_result(
                dr,
                self.reg(sr1) & (imm5 as u16),
            ),
            Opcode::OP_NOT { dr, sr } => self.write_result(dr, !self.reg(sr)),
            Opcode::OP_BR { n, z, p, offset } => if branch_taken(self.cond, n, z, p) {
                CpuView { pc: wrap_add(self.pc, offset as int), ..self }
            } else {
                self
            },
            Opcode::OP_JMP { base_r } => CpuView { pc: self.reg(base_r), ..self },
            Opcode::OP_RET => CpuView { pc: self.regs[7], ..self },
            Opcode::OP_JSR { offset, .. } => CpuView {
                regs: self.regs.update(7, self.pc),
                pc: wrap_add(self.pc, offset as int),
                ..self
            },
            Opcode::OP_JSRR { base_r, .. } => CpuView {
                regs: self.regs.update(7, self.pc),
                pc: self.reg(base_r),
                ..self
            },
            Opcode::OP_LD { dr, offset } => {
                let a = wrap_add(self.pc, offset as int) as int;
                self.after_read(a).write_result(dr, self.memory.read_value(a))
            },
            Opcode::OP_LDI { dr, offset } => {
                let a = wrap_add(self.pc, offset as int) as int;
                let s1 = self.after_read(a);
                let p = self.memory.read_value(a) as int;
                s1.after_read(p).write_result(dr, s1.memory.read_value(p))
            },
            Opcode::OP_LDR { dr, base_r, offset } => {
                let a = wrap_add(self.reg(base_r), offset as int) as int;
                self.after_read(a).write_result(dr, self.memory.read_value(a))
            },
            Opcode::OP_LEA { dr, offset } => self.write_result(dr, wrap_add(self.pc, offset as int)),
            Opcode::OP_ST { sr, offset } => CpuView {
                memory: self.memory.store(wrap_add(self.pc, offset as int) as int, self.reg(sr)),
                ..self
            },
            Opcode::OP_STI { sr, offset } => {
                let a = wrap_add(self.pc, offset as int) as int;
                CpuView {
                    memory: self.memory.after_read(a).store(
                        self.memory.read_value(a) as int,
                        self.reg(sr),
                    ),
                    ..self
                }
            },
            Opcode::OP_STR { sr, base_r, offset } => CpuView {
                memory: self.memory.store(
                    wrap_add(self.reg(base_r), offset as int) as int,
                    self.reg(sr),
                ),
                ..self
            },
            Opcode::OP_RTI => self,
            Opcode::OP_RES => self,
            Opcode::OP_TRAP { trapvec } => CpuView {
                regs: self.regs.update(7, self.pc),
                running: self.running && trapvec != Trap::Halt,
                ..self
            },
        }
    }

    /// Whether `e` is what executing `op` in this state asks of the host.
    pub open spec fn effect_ok(self, op: Opcode, e: Effect) -> bool {
        match op {
            Opcode::OP_TRAP { trapvec } => match trapvec {
                Trap::Out => e matches Effect::Output(v) && v@ == seq![self.regs[0] as u8],
                Trap::Puts => e matches Effect::Output(v) && string_end(
                    self.memory.cells,
                    self.regs[0],
                    v@.len() as int,
                ) && v@ == puts_bytes(self.memory.cells, self.regs[0], v@.len() as int),
                Trap::Putsp => e matches Effect::Output(v) && exists|len: int|
                    string_end(self.memory.cells, self.regs[0], len) && v@ == putsp_bytes(
                        self.memory.cells,
                        self.regs[0],
                        len as nat,
                    ),
                Trap::GetC => e matches Effect::Input { prompt, echo } && prompt@.len() == 0 && !echo,
                Trap::In => e == (Effect::Input { prompt: IN_PROMPT, echo: true }),
                Trap::Halt => e == Effect::Done,
            },
            _ => e == Effect::Done,
        }
    }
}

impl CpuView {
    /// The word at the program counter.
    pub open spec fn fetched_word(self) -> u16 {
        self.memory.read_value(self.pc as int)
    }

    /// The state once the word at the program counter has been read and
    /// the program counter moved past it.
    pub open spec fn fetched(self) -> CpuView {
        CpuView { pc: wrap_add(self.pc, 1), ..self.after_read(self.pc as int) }
    }

    /// The error that the next step gives, if any.
    #[verifier::opaque]
    pub open spec fn step_fault(self) -> Option<CPUErrors> {
        match decode(self.fetched_word()) {
            Ok(op) => self.fetched().fault(op),
            Err(_) => Some(CPUErrors::Decode),
        }
    }

    /// The state after the next step. A step that fails still fetches.
    #[verifier::opaque]
    pub open spec fn step_next(self) -> CpuView {
        match decode(self.fetched_word()) {
            Ok(op) => if self.fetched().fault(op) is None {
                self.fetched().next(op)
            } else {
                self.fetched()
            },
            Err(_) => self.fetched(),
        }
    }

    /// Whether `e` is what the next step asks of the host.
    #[verifier::opaque]
    pub open spec fn step_effect_ok(self, e: Effect) -> bool {
        match decode(self.fetched_word()) {
            Ok(op) => self.fetched().effect_ok(op, e),
            Err(_) => false,
        }
    }

    /// Whether the next step succeeds and leaves nothing for the host to do.
    #[verifier::opaque]
    pub open spec fn step_quiet(self) -> bool {
        match decode(self.fetched_word()) {
            Ok(op) => self.fetched().fault(op) is None && is_quiet(op),
            Err(_) => false,
        }
    }

    /// Takes quiet steps while the machine runs, at most `fuel` of them, and
    /// gives the state reached with the fuel left.
    pub open spec fn run(self, fuel: nat) -> (CpuView, nat)
        decreases fuel,
    {
        if fuel == 0 || !self.running || !self.step_quiet() {
            (self, fuel)
        } else {
            self.step_next().run((fuel - 1) as nat)
        }
    }
}

/// `base` plus the signed `offset`, modulo 2^16.
fn add_offset(base: u16, offset: i16) -> (r: u16)
    ensures
        r == wrap_add(base, offset as int),
{
    base.wrapping_add_signed(offset)
}

/// Refuses a register number above 8.
fn check_register(index: u16) -> (r: Result<(), CPUErrors>)
    ensures
        valid_reg(index) ==> r is Ok,
        !valid_reg(index) ==> r == Err::<(), CPUErrors>(CPUErrors::Register),
{
    if index <= 8 {
        Ok(())
    } else {
        Err(CPUErrors::Register)
    }
}

/// When the string at `start` runs through all of memory without a zero,
/// no word of memory is zero.
proof fn lemma_no_zero(cells: Seq<u16>, start: u16)
    requires
        cells.len() == 0x1_0000,
        forall|j: int| 0 <= j < 0x1_0000 ==> word_at(cells, start, j) != 0,
    ensures
        !has_zero(cells),
{
    assert forall|a: int| 0 <= a < 0x1_0000 implies cells[a] != 0 by {
        let j = if a >= start { a - start } else { a + 0x1_0000 - start };
        assert(word_at(cells, start, j) != 0);
    }
}

/// A step is quiet exactly when it succeeds with nothing for the host to do;
/// a step that is not quiet never stops the machine, and no step asks the
/// host to continue.
proof fn lemma_step_quiet(s: CpuView, r: Result<Effect, CPUErrors>)
    requires
        match r {
            Ok(e) => s.step_fault() is None && s.step_effect_ok(e),
            Err(e) => s.step_fault() == Some(e),
        },
    ensures
        s.step_quiet() <==> r == Ok::<Effect, CPUErrors>(Effect::Done),
        r != Ok::<Effect, CPUErrors>(Effect::Continue),
        !s.step_quiet() ==> s.step_next().running == s.running,
{
    reveal(CpuView::step_fault);
    reveal(CpuView::step_effect_ok);
    reveal(CpuView::step_quiet);
    reveal(CpuView::step_next);
}

/// The condition code tracks results: after an instruction that writes a
/// result register, the code is the sign of that register's new value;
/// after any other instruction it is unchanged. GETC and IN, which write R0
/// once the host hands over a byte, set it from R0.
pub proof fn lemma_flag_invariant(s: CpuView, op: Opcode, byte: u8)
    requires
        s.regs.len() == 8,
        s.fault(op) is None,
    ensures
        match destination(op) {
            Some(dr) => s.next(op).cond == flag_value(flag_of(s.next(op).reg(dr))),
            None => s.next(op).cond == s.cond,
        },
        s.write_result(0, byte as u16).cond == flag_value(
            flag_of(s.write_result(0, byte as u16).reg(0)),
        ),
{
}

/// A cycle moves the program counter past the instruction before executing
/// it, so PC-relative operands count from the word after the instruction:
/// the first cycle from a reset machine leaves the counter at 0x3001 unless
/// the instruction transfers control.
pub proof fn lemma_pc_discipline(s: CpuView)
    requires
        s.regs.len() == 8,
        s.step_fault() is None,
    ensures
        s.fetched().pc == wrap_add(s.pc, 1),
        ({
            let pc1 = wrap_add(s.pc, 1);
            match decode(s.fetched_word()) {
                Ok(Opcode::OP_BR { n, z, p, offset }) => s.step_next().pc == if branch_taken(
                    s.cond,
                    n,
                    z,
                    p,
                ) {
                    wrap_add(pc1, offset as int)
                } else {
                    pc1
                },
                Ok(Opcode::OP_JSR { offset, .. }) => s.step_next().pc == wrap_add(pc1, offset as int)
                    && s.step_next().regs[7] == pc1,
                Ok(Opcode::OP_LEA { dr, offset }) => s.step_next().reg(dr) == wrap_add(
                    pc1,
                    offset as int,
                ) && s.step_next().pc == pc1,
                Ok(Opcode::OP_LD { dr, offset }) => s.step_next().reg(dr)
                    == s.fetched().memory.read_value(wrap_add(pc1, offset as int) as int)
                    && s.step_next().pc == pc1,
                Ok(Opcode::OP_ST { sr, offset }) => s.step_next().memory == s.fetched().memory.store(
                    wrap_add(pc1, offset as int) as int,
                    s.fetched().reg(sr),
                ) && s.step_next().pc == pc1,
                Ok(Opcode::OP_JMP { .. }) => true,
                Ok(Opcode::OP_RET) => true,
                Ok(Opcode::OP_JSRR { .. }) => true,
                Ok(_) => s.step_next().pc == pc1,
                Err(_) => true,
            }
        }),
{
    reveal(CpuView::step_fault);
    reveal(CpuView::step_next);
    lemma_register_fields(s.fetched_word());
}

impl CPU {
    /// A machine at reset: registers zero, PC at 0x3000, condition code ZRO,
    /// memory zero, running.
    pub fn new() -> (c: Self)
        ensures
            c@.regs == seq![0u16, 0, 0, 0, 0, 0, 0, 0],
            c@.pc == 0x3000,
            c@.cond == flag_value(ConditionFlags::ZRO),
            c@.running,
            c@.memory.cells.len() == MEMORY_SIZE,
            forall|a: int| 0 <= a < MEMORY_SIZE ==> c@.memory.cells[a] == 0,
            c@.memory.keyboard is None,
    {
        Self {
            r0: 0,
            r1: 0,
            r2: 0,
            r3: 0,
            r4: 0,
            r5: 0,
            r6: 0,
            r7: 0,
            pc: 0x3000,
            cond: u16::from(ConditionFlags::ZRO),
            memory: Memory::new(),
            running: true,
        }
    }

    /// Register `index`, for writing.
    pub fn get_register(&mut self, index: u16) -> (r: Result<&mut u16, CPUErrors>)
        ensures
            match r {
                Ok(reg) => valid_reg(index) && *reg == old(self)@.reg(index) && final(self)@
                    =~= old(self)@.set_reg(index, *final(reg)),
                Err(e) => !valid_reg(index) && e == CPUErrors::Register && *final(self) == *old(
                    self,
                ),
            },
    {
        let register_value = match index {
            0 => &mut self.r0,
            1 => &mut self.r1,
            2 => &mut self.r2,
            3 => &mut self.r3,
            4 => &mut self.r4,
            5 => &mut self.r5,
            6 => &mut self.r6,
            7 => &mut self.r7,
            8 => &mut self.pc,
            _ => return Err(CPUErrors::Register),
        };
        Ok(register_value)
    }
    /// The value of register `index`.
    pub fn get_register_value(&self, index: u16) -> (r: Result<u16, CPUErrors>)
        ensures
            valid_reg(index) ==> r == Ok::<u16, CPUErrors>(self@.reg(index)),
            !valid_reg(index) ==> r == Err::<u16, CPUErrors>(CPUErrors::Register),
    {
        let register_value = match index {
            0 => self.r0,
            1 => self.r1,
            2 => self.r2,
            3 => self.r3,
            4 => self.r4,
            5 => self.r5,
            6 => self.r6,
            7 => self.r7,
            8 => self.pc,
            _ => return Err(CPUErrors::Register),
        };
        Ok(register_value)
    }

    /// Sets register `index` to `value`; the condition code is left alone.
    pub fn update_register(&mut self, index: u16, value: u16) -> (r: Result<(), CPUErrors>)
        ensures
            valid_reg(index) ==> r is Ok && final(self)@ == old(self)@.set_reg(index, value),
            !valid_reg(index) ==> r == Err::<(), CPUErrors>(CPUErrors::Register) && *final(self)
                == *old(self),
    {
        let register = self.get_register(index)?;
        *register = value;
        Ok(())
    }

    /// Sets the condition code from the value of register `register`.
    pub fn update_flag(&mut self, register: u16) -> (r: Result<(), CPUErrors>)
        ensures
            valid_reg(register) ==> r is Ok && final(self)@ == old(self)@.set_cond(
                old(self)@.reg(register),
            ),
            !valid_reg(register) ==> r == Err::<(), CPUErrors>(CPUErrors::Flag) && *final(self)
                == *old(self),
    {
        let register_value = match self.get_register_value(register) {
            Ok(v) => v,
            Err(_) => return Err(CPUErrors::Flag),
        };
        let flag = if register_value == 0 {
            ConditionFlags::ZRO
        } else if (register_value >> 15) == 1 {
            ConditionFlags::NEG
        } else {
            ConditionFlags::POS
        };
        assert((register_value >> 15) == 1 <==> register_value >= 0x8000) by (bit_vector);
        self.cond = u16::from(flag);
        Ok(())
    }

    /// Reads the word at the program counter.
    pub fn fetch_instruction(&mut self) -> (r: Option<u16>)
        ensures
            r == Some(old(self)@.memory.read_value(old(self).pc as int)),
            final(self)@ == (CpuView {
                memory: old(self)@.memory.after_read(old(self).pc as int),
                ..old(self)@
            }),
    {
        let instruction = self.memory.read(self.pc as usize)?;
        Some(instruction)
    }
    /// Executes one decoded instruction. The program counter already points
    /// past it. On an error nothing changes.
    pub fn execute(&mut self, opcode: Opcode) -> (r: Result<Effect, CPUErrors>)
        ensures
            match r {
                Ok(e) => old(self)@.fault(opcode) is None && final(self)@ == old(self)@.next(opcode)
                    && old(self)@.effect_ok(opcode, e),
                Err(e) => old(self)@.fault(opcode) == Some(e) && *final(self) == *old(self),
            },
    {
        match opcode {
            Opcode::OP_ADD_SR { .. } => self.operate(opcode),
            Opcode::OP_ADD_IMM { .. } => self.operate(opcode),
            Opcode::OP_AND_SR { .. } => self.operate(opcode),
            Opcode::OP_AND_IMM { .. } => self.operate(opcode),
            Opcode::OP_NOT { .. } => self.operate(opcode),
            Opcode::OP_BR { .. } => self.control(opcode),
            Opcode::OP_JMP { .. } => self.control(opcode),
            Opcode::OP_RET => self.control(opcode),
            Opcode::OP_JSR { .. } => self.control(opcode),
            Opcode::OP_JSRR { .. } => self.control(opcode),
            Opcode::OP_LD { .. } => self.load(opcode),
            Opcode::OP_LDI { .. } => self.load(opcode),
            Opcode::OP_LDR { .. } => self.load(opcode),
            Opcode::OP_LEA { .. } => self.load(opcode),
            Opcode::OP_ST { .. } => self.store(opcode),
            Opcode::OP_STI { .. } => self.store(opcode),
            Opcode::OP_STR { .. } => self.store(opcode),
            Opcode::OP_RTI => Ok(Effect::Done),
            Opcode::OP_RES => Ok(Effect::Done),
            Opcode::OP_TRAP { trapvec } => self.trap(trapvec),
        }
    }

    /// Computes ADD, AND and NOT.
    fn operate(&mut self, opcode: Opcode) -> (r: Result<Effect, CPUErrors>)
        requires
            opcode is OP_ADD_SR || opcode is OP_ADD_IMM || opcode is OP_AND_SR || opcode is OP_AND_IMM
                || opcode is OP_NOT,
        ensures
            match r {
                Ok(e) => old(self)@.fault(opcode) is None && final(self)@ == old(self)@.next(opcode)
                    && old(self)@.effect_ok(opcode, e),
                Err(e) => old(self)@.fault(opcode) == Some(e) && *final(self) == *old(self),
            },
    {
        match opcode {
            Opcode::OP_ADD_SR { dr, sr1, sr2, .. } => {
                let src_register = self.get_register_value(sr1)?;
                let rhs_register = self.get_register_value(sr2)?;
                self.set_result(dr, src_register.wrapping_add(rhs_register))?;
            },
            Opcode::OP_ADD_IMM { dr, sr1, imm5, .. } => {
                let src_register = self.get_register_value(sr1)?;
                self.set_result(dr, add_offset(src_register, imm5))?;
            },
            Opcode::OP_AND_SR { dr, sr1, sr2, .. } => {
                let src_register = self.get_register_value(sr1)?;
                let rhs_register = self.get_register_value(sr2)?;
                self.set_result(dr, src_register & rhs_register)?;
            },
            Opcode::OP_AND_IMM { dr, sr1, imm5, .. } => {
                let src_register = self.get_register_value(sr1)?;
                self.set_result(dr, src_register & (imm5 as u16))?;
            },
            Opcode::OP_NOT { dr, sr } => {
                let value = self.get_register_value(sr)?;
                self.set_result(dr, !value)?;
            },
            _ => {},
        }
        Ok(Effect::Done)
    }

    /// Changes the flow of control: BR, JMP, RET, JSR and JSRR.
    #[verifier::rlimit(30)]
    fn control(&mut self, opcode: Opcode) -> (r: Result<Effect, CPUErrors>)
        requires
            opcode is OP_BR || opcode is OP_JMP || opcode is OP_RET || opcode is OP_JSR
                || opcode is OP_JSRR,
        ensures
            match r {
                Ok(e) => old(self)@.fault(opcode) is None && final(self)@ == old(self)@.next(opcode)
                    && old(self)@.effect_ok(opcode, e),
                Err(e) => old(self)@.fault(opcode) == Some(e) && *final(self) == *old(self),
            },
    {
        match opcode {
            Opcode::OP_BR { n, z, p, offset } => {
                // The branch is taken when any gate matches the condition code.
                if (n && self.cond == u16::from(ConditionFlags::NEG)) || (z && self.cond == u16::from(
                    ConditionFlags::ZRO,
                )) || (p && self.cond == u16::from(ConditionFlags::POS)) {
                    self.pc = add_offset(self.pc, offset);
                }
            },
            Opcode::OP_JMP { base_r } => {
                self.pc = self.get_register_value(base_r)?;
            },
            Opcode::OP_RET => {
                self.pc = self.r7;
            },
            Opcode::OP_JSR { offset, .. } => {
                self.r7 = self.pc;
                self.pc = add_offset(self.pc, offset);
            },
            Opcode::OP_JSRR { base_r, .. } => {
                let target = self.get_register_value(base_r)?;
                self.r7 = self.pc;
                self.pc = target;
            },
            _ => {},
        }
        Ok(Effect::Done)
    }

    /// Loads a register: LD, LDI, LDR and LEA.
    fn load(&mut self, opcode: Opcode) -> (r: Result<Effect, CPUErrors>)
        requires
            opcode is OP_LD || opcode is OP_LDI || opcode is OP_LDR || opcode is OP_LEA,
        ensures
            match r {
                Ok(e) => old(self)@.fault(opcode) is None && final(self)@ == old(self)@.next(opcode)
                    && old(self)@.effect_ok(opcode, e),
                Err(e) => old(self)@.fault(opcode) == Some(e) && *final(self) == *old(self),
            },
    {
        match opcode {
            Opcode::OP_LD { dr, offset } => {
                check_register(dr)?;
                let address = add_offset(self.pc, offset);
                let value = self.read_word(address);
                self.set_result(dr, value)?;
            },
            Opcode::OP_LDI { dr, offset } => {
                check_register(dr)?;
                let address = add_offset(self.pc, offset);
                let pointer = self.read_word(address);
                let value = self.read_word(pointer);
                self.set_result(dr, value)?;
            },
            Opcode::OP_LDR { dr, base_r, offset } => {
                check_register(dr)?;
                let base_value = self.get_register_value(base_r)?;
                let address = add_offset(base_value, offset);
                let value = self.read_word(address);
                self.set_result(dr, value)?;
            },
            Opcode::OP_LEA { dr, offset } => {
                let address = add_offset(self.pc, offset);
                self.set_result(dr, address)?;
            },
            _ => {},
        }
        Ok(Effect::Done)
    }

    /// Stores a register: ST, STI and STR.
    fn store(&mut self, opcode: Opcode) -> (r: Result<Effect, CPUErrors>)
        requires
            opcode is OP_ST || opcode is OP_STI || opcode is OP_STR,
        ensures
            match r {
                Ok(e) => old(self)@.fault(opcode) is None && final(self)@ == old(self)@.next(opcode)
                    && old(self)@.effect_ok(opcode, e),
                Err(e) => old(self)@.fault(opcode) == Some(e) && *final(self) == *old(self),
            },
    {
        match opcode {
            Opcode::OP_ST { sr, offset } => {
                let value = self.get_register_value(sr)?;
                let address = add_offset(self.pc, offset);
                let _ = self.memory.write(address, value);
            },
            Opcode::OP_STI { sr, offset } => {
                let value = self.get_register_value(sr)?;
                let address = add_offset(self.pc, offset);
                let target = self.read_word(address);
                let _ = self.memory.write(target, value);
            },
            Opcode::OP_STR { sr, base_r, offset } => {
                let base_value = self.get_register_value(base_r)?;
                let value = self.get_register_value(sr)?;
                let _ = self.memory.write(add_offset(base_value, offset), value);
            },
            _ => {},
        }
        Ok(Effect::Done)
    }

    /// Runs a trap routine. R7 takes the return address.
    fn trap(&mut self, trapvec: Trap) -> (r: Result<Effect, CPUErrors>)
        ensures
            ({
                let opcode = Opcode::OP_TRAP { trapvec };
                match r {
                    Ok(e) => old(self)@.fault(opcode) is None && final(self)@ == old(self)@.next(
                        opcode,
                    ) && old(self)@.effect_ok(opcode, e),
                    Err(e) => old(self)@.fault(opcode) == Some(e) && *final(self) == *old(self),
                }
            }),
    {
        let ghost before = self@;
        let effect = match trapvec {
            Trap::GetC => {
                proof {
                    reveal_strlit("");
                }
                Effect::Input { prompt: "", echo: false }
            },
            Trap::Out => {
                let mut bytes: Vec<u8> = Vec::new();
                bytes.push(self.r0 as u8);
                assert(bytes@ =~= seq![self.r0 as u8]);
                Effect::Output(bytes)
            },
            Trap::Puts => match self.string_bytes() {
                Some(bytes) => Effect::Output(bytes),
                None => return Err(CPUErrors::Execute),
            },
            Trap::In => Effect::Input { prompt: IN_PROMPT, echo: true },
            Trap::Putsp => match self.packed_string_bytes() {
                Some(bytes) => Effect::Output(bytes),
                None => return Err(CPUErrors::Execute),
            },
            Trap::Halt => Effect::Done,
        };
        self.r7 = self.pc;
        if trapvec == Trap::Halt {
            self.running = false;
        }
        assert(self@.regs =~= before.regs.update(7, before.pc));
        Ok(effect)
    }

    /// Writes an instruction's result to register `dr` and sets the
    /// condition code from it.
    fn set_result(&mut self, dr: u16, value: u16) -> (r: Result<(), CPUErrors>)
        ensures
            valid_reg(dr) ==> r is Ok && final(self)@ == old(self)@.write_result(dr, value),
            !valid_reg(dr) ==> r == Err::<(), CPUErrors>(CPUErrors::Register) && *final(self)
                == *old(self),
    {
        self.update_register(dr, value)?;
        self.update_flag(dr)?;
        Ok(())
    }

    /// Reads memory at `address`, polling the keyboard where that is the
    /// status register.
    fn read_word(&mut self, address: u16) -> (r: u16)
        ensures
            r == old(self)@.memory.read_value(address as int),
            final(self)@ == old(self)@.after_read(address as int),
    {
        match self.memory.read(address as usize) {
            Some(v) => v,
            None => 0,
        }
    }

    /// The bytes that PUTS writes: the low byte of each word from the
    /// address in R0 up to the first zero word, or `None` when no word of
    /// memory is zero. The string routines read the stored words and do not
    /// poll the keyboard.
    fn string_bytes(&self) -> (r: Option<Vec<u8>>)
        ensures
            match r {
                Some(v) => string_end(self@.memory.cells, self.r0, v@.len() as int) && v@
                    == puts_bytes(self@.memory.cells, self.r0, v@.len() as int),
                None => !has_zero(self@.memory.cells),
            },
    {
        let ghost cells = self@.memory.cells;
        let mut out: Vec<u8> = Vec::new();
        let mut address: u16 = self.r0;
        let mut count: usize = 0;
        while count < MEMORY_SIZE
            invariant
                cells == self@.memory.cells,
                cells.len() == MEMORY_SIZE,
                count <= MEMORY_SIZE,
                address == (self.r0 + count) % 0x1_0000,
                out@ == puts_bytes(cells, self.r0, count as int),
                forall|j: int| 0 <= j < count ==> word_at(cells, self.r0, j) != 0,
            decreases MEMORY_SIZE - count,
        {
            let value = self.memory.cells[address as usize];
            if value == 0 {
                return Some(out);
            }
            out.push(value as u8);
            assert(out@ =~= puts_bytes(cells, self.r0, count + 1));
            address = address.wrapping_add(1);
            count = count + 1;
        }
        proof {
            lemma_no_zero(cells, self.r0);
        }
        None
    }

    /// The bytes that PUTSP writes: the packed characters of each word from
    /// the address in R0 up to the first zero word, or `None` when no word
    /// of memory is zero.
    fn packed_string_bytes(&self) -> (r: Option<Vec<u8>>)
        ensures
            match r {
                Some(v) => exists|len: int|
                    string_end(self@.memory.cells, self.r0, len) && v@ == putsp_bytes(
                        self@.memory.cells,
                        self.r0,
                        len as nat,
                    ),
                None => !has_zero(self@.memory.cells),
            },
    {
        let ghost cells = self@.memory.cells;
        let mut out: Vec<u8> = Vec::new();
        let mut address: u16 = self.r0;
        let mut count: usize = 0;
        while count < MEMORY_SIZE
            invariant
                cells == self@.memory.cells,
                cells.len() == MEMORY_SIZE,
                count <= MEMORY_SIZE,
                address == (self.r0 + count) % 0x1_0000,
                out@ == putsp_bytes(cells, self.r0, count as nat),
                forall|j: int| 0 <= j < count ==> word_at(cells, self.r0, j) != 0,
            decreases MEMORY_SIZE - count,
        {
            let value = self.memory.cells[address as usize];
            if value == 0 {
                assert(string_end(cells, self.r0, count as int));
                return Some(out);
            }
            let low = value as u8;
            let high = (value >> 8) as u8;
            if low != 0 {
                out.push(low);
            }
            if high != 0 {
                out.push(high);
            }
            assert(out@ =~= putsp_bytes(cells, self.r0, (count + 1) as nat));
            address = address.wrapping_add(1);
            count = count + 1;
        }
        proof {
            lemma_no_zero(cells, self.r0);
        }
        None
    }
    /// Finishes GETC or IN with the byte that the host read: R0 takes it and
    /// the condition code follows.
    pub fn complete_input(&mut self, byte: u8)
        ensures
            final(self)@ == old(self)@.write_result(0, byte as u16),
    {
        let _ = self.set_result(0, byte as u16);
    }

    /// One machine cycle: fetch the word at the program counter, move the
    /// program counter past it, decode and execute it.
    pub fn step(&mut self) -> (r: Result<Effect, CPUErrors>)
        ensures
            final(self)@ == old(self)@.step_next(),
            match r {
                Ok(e) => old(self)@.step_fault() is None && old(self)@.step_effect_ok(e),
                Err(e) => old(self)@.step_fault() == Some(e),
            },
    {
        let ghost start = self@;
        let instruction = match self.fetch_instruction() {
            Some(word) => word,
            None => 0,
        };
        self.pc = self.pc.wrapping_add(1);
        assert(self@ == start.fetched());
        let opcode = match Opcode::from(instruction) {
            Ok(opcode) => opcode,
            Err(_) => {
                proof {
                    reveal(CpuView::step_fault);
                    reveal(CpuView::step_next);
                }
                return Err(CPUErrors::Decode);
            },
        };
        let r = self.execute(opcode);
        proof {
            reveal(CpuView::step_fault);
            reveal(CpuView::step_next);
            reveal(CpuView::step_effect_ok);
        }
        r
    }

    /// Runs the machine for at most `max_steps` cycles. It stops early after
    /// HALT (returning `Done`), after a cycle that leaves work for the host
    /// (whose effect it returns), or at an error. When the budget runs out
    /// first it returns `Continue`. `Done` comes back exactly when the
    /// machine no longer runs.
    pub fn execute_program(&mut self, max_steps: u64) -> (r: Result<Effect, CPUErrors>)
        ensures
            ({
                let (s, left) = old(self)@.run(max_steps as nat);
                if !s.running {
                    r == Ok::<Effect, CPUErrors>(Effect::Done) && final(self)@ == s
                } else if left == 0 {
                    r == Ok::<Effect, CPUErrors>(Effect::Continue) && final(self)@ == s
                } else {
                    final(self)@ == s.step_next() && match r {
                        Ok(e) => s.step_fault() is None && s.step_effect_ok(e) && e != Effect::Done
                            && e != Effect::Continue,
                        Err(e) => s.step_fault() == Some(e),
                    }
                }
            }),
            r == Ok::<Effect, CPUErrors>(Effect::Done) <==> !final(self).running,
    {
        let ghost start = self@;
        let mut count: u64 = 0;
        while self.running && count < max_steps
            invariant
                start == old(self)@,
                count <= max_steps,
                start.run(max_steps as nat) == self@.run((max_steps - count) as nat),
            decreases max_steps - count,
        {
            let ghost here = self@;
            let ghost fuel = (max_steps - count) as nat;
            let result = self.step();
            proof {
                lemma_step_quiet(here, result);
                if !here.step_quiet() {
                    assert(here.run(fuel) == (here, fuel));
                }
            }
            let effect = result?;
            count = count + 1;
            match effect {
                Effect::Done => {},
                _ => {
                    return Ok(effect);
                },
            }
        }
        if self.running {
            Ok(Effect::Continue)
        } else {
            Ok(Effect::Done)
        }
    }
}

} // verus!
