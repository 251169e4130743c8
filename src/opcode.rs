use vstd::arithmetic::power2::{lemma2_to64, pow2};
use vstd::prelude::*;

verus! {

/// A decoded instruction. Register fields are register numbers; offsets and
/// immediates are already sign-extended.
#[allow(non_camel_case_types)]
#[derive(Debug, Clone, Copy, PartialEq, Eq, Structural)]
pub enum Opcode {
    OP_BR { n: bool, z: bool, p: bool, offset: i16 },
    OP_ADD_SR { dr: u16, sr1: u16, mode: bool, sr2: u16 },
    OP_ADD_IMM { dr: u16, sr1: u16, mode: bool, imm5: i16 },
    OP_LD { dr: u16, offset: i16 },
    OP_ST { sr: u16, offset: i16 },
    OP_JSR { mode: bool, offset: i16 },
    OP_JSRR { mode: bool, base_r: u16 },
    OP_AND_SR { dr: u16, sr1: u16, mode: bool, sr2: u16 },
    OP_AND_IMM { dr: u16, sr1: u16, mode: bool, imm5: i16 },
    OP_LDR { dr: u16, base_r: u16, offset: i16 },
    OP_STR { sr: u16, base_r: u16, offset: i16 },
    OP_RTI,
    OP_NOT { dr: u16, sr: u16 },
    OP_LDI { dr: u16, offset: i16 },
    OP_STI { sr: u16, offset: i16 },
    OP_JMP { base_r: u16 },
    OP_RET,
    OP_RES,
    OP_LEA { dr: u16, offset: i16 },
    OP_TRAP { trapvec: Trap },
}

/// Why an instruction word does not decode.
#[derive(Debug, Clone, Copy, PartialEq, Eq, Structural)]
pub enum OpcodeError {
    /// A TRAP whose vector is none of the six service routines.
    InvalidTrap,
}

/// The six trap service routines.
#[derive(Debug, Clone, Copy, PartialEq, Eq, Structural)]
pub enum Trap {
    GetC,
    Out,
    Puts,
    In,
    Putsp,
    Halt,
}

/// The routine that a trap vector (bits 7..0 of a TRAP word) names.
pub open spec fn trap_of(vector: u16) -> Option<Trap> {
    if vector == 0x20 {
        Some(Trap::GetC)
    } else if vector == 0x21 {
        Some(Trap::Out)
    } else if vector == 0x22 {
        Some(Trap::Puts)
    } else if vector == 0x23 {
        Some(Trap::In)
    } else if vector == 0x24 {
        Some(Trap::Putsp)
    } else if vector == 0x25 {
        Some(Trap::Halt)
    } else {
        None
    }
}

/// Bits 15..12: the opcode family.
pub open spec fn family(w: u16) -> u16 {
    (w >> 12) & 0b1111
}

/// Bits 11..9: `DR`, or `SR` of a store.
pub open spec fn field_11_9(w: u16) -> u16 {
    (w >> 9) & 0b111
}

/// Bits 8..6: `SR1`, `SR` of NOT, or `BaseR`.
pub open spec fn field_8_6(w: u16) -> u16 {
    (w >> 6) & 0b111
}

/// Bits 2..0: `SR2`.
pub open spec fn field_2_0(w: u16) -> u16 {
    w & 0b111
}

/// Bit `i` of `w`.
pub open spec fn bit(w: u16, i: u16) -> bool {
    (w >> i) & 1 == 1
}

/// What each instruction word means.
pub open spec fn decode(w: u16) -> Result<Opcode, OpcodeError> {
    let op = family(w);
    if op == 0b0000 {
        Ok(Opcode::OP_BR { n: bit(w, 11), z: bit(w, 10), p: bit(w, 9), offset: sext(w, 9) as i16 })
    } else if op == 0b0001 {
        if bit(w, 5) {
            Ok(Opcode::OP_ADD_IMM { dr: field_11_9(w), sr1: field_8_6(w), mode: true, imm5: sext(w, 5) as i16 })
        } else {
            Ok(Opcode::OP_ADD_SR { dr: field_11_9(w), sr1: field_8_6(w), mode: false, sr2: field_2_0(w) })
        }
    } else if op == 0b0010 {
        Ok(Opcode::OP_LD { dr: field_11_9(w), offset: sext(w, 9) as i16 })
    } else if op == 0b0011 {
        Ok(Opcode::OP_ST { sr: field_11_9(w), offset: sext(w, 9) as i16 })
    } else if op == 0b0100 {
        if bit(w, 11) {
            Ok(Opcode::OP_JSR { mode: true, offset: sext(w, 11) as i16 })
        } else {
            Ok(Opcode::OP_JSRR { mode: false, base_r: field_8_6(w) })
        }
    } else if op == 0b0101 {
        if bit(w, 5) {
            Ok(Opcode::OP_AND_IMM { dr: field_11_9(w), sr1: field_8_6(w), mode: true, imm5: sext(w, 5) as i16 })
        } else {
            Ok(Opcode::OP_AND_SR { dr: field_11_9(w), sr1: field_8_6(w), mode: false, sr2: field_2_0(w) })
        }
    } else if op == 0b0110 {
        Ok(Opcode::OP_LDR { dr: field_11_9(w), base_r: field_8_6(w), offset: sext(w, 6) as i16 })
    } else if op == 0b0111 {
        Ok(Opcode::OP_STR { sr: field_11_9(w), base_r: field_8_6(w), offset: sext(w, 6) as i16 })
    } else if op == 0b1000 {
        Ok(Opcode::OP_RTI)
    } else if op == 0b1001 {
        Ok(Opcode::OP_NOT { dr: field_11_9(w), sr: field_8_6(w) })
    } else if op == 0b1010 {
        Ok(Opcode::OP_LDI { dr: field_11_9(w), offset: sext(w, 9) as i16 })
    } else if op == 0b1011 {
        Ok(Opcode::OP_STI { sr: field_11_9(w), offset: sext(w, 9) as i16 })
    } else if op == 0b1100 {
        if field_8_6(w) == 0b111 {
            Ok(Opcode::OP_RET)
        } else {
            Ok(Opcode::OP_JMP { base_r: field_8_6(w) })
        }
    } else if op == 0b1101 {
        Ok(Opcode::OP_RES)
    } else if op == 0b1110 {
        Ok(Opcode::OP_LEA { dr: field_11_9(w), offset: sext(w, 9) as i16 })
    } else {
        match trap_of(w & 0xFF) {
            Some(t) => Ok(Opcode::OP_TRAP { trapvec: t }),
            None => Err(OpcodeError::InvalidTrap),
        }
    }
}

/// Register fields name R0 to R7.
pub proof fn lemma_register_fields(w: u16)
    ensures
        field_11_9(w) < 8,
        field_8_6(w) < 8,
        field_2_0(w) < 8,
{
    assert((w >> 9) & 0b111 < 8 && (w >> 6) & 0b111 < 8 && w & 0b111 < 8) by (bit_vector);
}

impl Opcode {
    /// Decodes one instruction word.
    pub fn from(instruction: u16) -> (r: Result<Self, OpcodeError>)
        ensures
            r == decode(instruction),
    {
        let opcode = (instruction >> 12) & 0b1111;
        match opcode {
            0b0000 => {
                let n = (instruction >> 11) & 1 == 1;
                let z = (instruction >> 10) & 1 == 1;
                let p = (instruction >> 9) & 1 == 1;
                let offset = sign_ext_imm9(instruction);
                Ok(Opcode::OP_BR { n, z, p, offset })
            },
            0b0001 => {
                let dr = (instruction >> 9) & 0b111;
                let sr1 = (instruction >> 6) & 0b111;
                let mode = (instruction >> 5) & 1 == 1;
                if mode {
                    let imm5 = sign_ext_imm5(instruction);
                    Ok(Opcode::OP_ADD_IMM { dr, sr1, mode, imm5 })
                } else {
                    let sr2 = instruction & 0b111;
                    Ok(Opcode::OP_ADD_SR { dr, sr1, mode, sr2 })
                }
            },
            0b0010 => {
                let dr = (instruction >> 9) & 0b111;
                let offset = sign_ext_imm9(instruction);
                Ok(Opcode::OP_LD { dr, offset })
            },
            0b0011 => {
                let sr = (instruction >> 9) & 0b111;
                let offset = sign_ext_imm9(instruction);
                Ok(Opcode::OP_ST { sr, offset })
            },
            0b0100 => {
                let mode = (instruction >> 11) & 1 == 1;
                if mode {
                    let offset = sign_ext_imm11(instruction);
                    Ok(Opcode::OP_JSR { mode, offset })
                } else {
                    let base_r = (instruction >> 6) & 0b111;
                    Ok(Opcode::OP_JSRR { mode, base_r })
                }
            },
            0b0101 => {
                let dr = (instruction >> 9) & 0b111;
                let sr1 = (instruction >> 6) & 0b111;
                let mode = (instruction >> 5) & 1 == 1;
                if mode {
                    let imm5 = sign_ext_imm5(instruction);
                    Ok(Opcode::OP_AND_IMM { dr, sr1, mode, imm5 })
                } else {
                    let sr2 = instruction & 0b111;
                    Ok(Opcode::OP_AND_SR { dr, sr1, mode, sr2 })
                }
            },
            0b0110 => {
                let dr = (instruction >> 9) & 0b111;
                let base_r = (instruction >> 6) & 0b111;
                let offset = sign_ext_imm6(instruction);
                Ok(Opcode::OP_LDR { dr, base_r, offset })
            },
            0b0111 => {
                let sr = (instruction >> 9) & 0b111;
                let base_r = (instruction >> 6) & 0b111;
                let offset = sign_ext_imm6(instruction);
                Ok(Opcode::OP_STR { sr, base_r, offset })
            },
            0b1000 => Ok(Opcode::OP_RTI),
            0b1001 => {
                let dr = (instruction >> 9) & 0b111;
                let sr = (instruction >> 6) & 0b111;
                Ok(Opcode::OP_NOT { dr, sr })
            },
            0b1010 => {
                let dr = (instruction >> 9) & 0b111;
                let offset = sign_ext_imm9(instruction);
                Ok(Opcode::OP_LDI { dr, offset })
            },
            0b1011 => {
                let sr = (instruction >> 9) & 0b111;
                let offset = sign_ext_imm9(instruction);
                Ok(Opcode::OP_STI { sr, offset })
            },
            0b1100 => {
                let base_r = (instruction >> 6) & 0b111;
                if base_r == 0b111 {
                    Ok(Opcode::OP_RET)
                } else {
                    Ok(Opcode::OP_JMP { base_r })
                }
            },
            0b1101 => Ok(Opcode::OP_RES),
            0b1110 => {
                let dr = (instruction >> 9) & 0b111;
                let offset = sign_ext_imm9(instruction);
                Ok(Opcode::OP_LEA { dr, offset })
            },
            _ => {
                // 0b1111: TRAP, with the vector in bits 7..0
                match instruction & 0xFF {
                    0x20 => Ok(Opcode::OP_TRAP { trapvec: Trap::GetC }),
                    0x21 => Ok(Opcode::OP_TRAP { trapvec: Trap::Out }),
                    0x22 => Ok(Opcode::OP_TRAP { trapvec: Trap::Puts }),
                    0x23 => Ok(Opcode::OP_TRAP { trapvec: Trap::In }),
                    0x24 => Ok(Opcode::OP_TRAP { trapvec: Trap::Putsp }),
                    0x25 => Ok(Opcode::OP_TRAP { trapvec: Trap::Halt }),
                    _ => Err(OpcodeError::InvalidTrap),
                }
            },
        }
    }
}

/// The low `width` bits of `word`, read as a two's-complement number.
pub open spec fn sext(word: u16, width: nat) -> int {
    let field = word as int % pow2(width) as int;
    if field < pow2((width - 1) as nat) {
        field
    } else {
        field - pow2(width)
    }
}

/// The 16-bit two's-complement pattern of `v`, for `-2^15 <= v < 2^16`.
pub open spec fn as_word(v: int) -> int {
    if v < 0 {
        v + 0x1_0000
    } else {
        v
    }
}

/// Sign extension of the immediate fields. A field whose top bit is clear
/// keeps its magnitude. A field whose top bit is set becomes the 16-bit
/// pattern that holds the field in its low `width` bits and has bits
/// `width` to 15 set.
pub proof fn lemma_sign_extension(word: u16, width: nat)
    requires
        width == 5 || width == 6 || width == 9 || width == 11,
    ensures
        ({
            let field = word as int % pow2(width) as int;
            let top_bit_set = field >= pow2((width - 1) as nat);
            &&& !top_bit_set ==> sext(word, width) == field
            &&& top_bit_set ==> as_word(sext(word, width)) % pow2(width) as int == field
            &&& top_bit_set ==> as_word(sext(word, width)) / pow2(width) as int == 0x1_0000int / pow2(
                width,
            ) as int - 1
        }),
{
    lemma2_to64();
}

/// Sign-extends bits 5..0 of `instruction` (the `offset6` field).
pub fn sign_ext_imm6(instruction: u16) -> (r: i16)
    ensures
        r as int == sext(instruction, 6),
{
    proof {
        lemma2_to64();
    }
    let offset: i16 = (instruction & 0b11_1111) as i16;
    assert(offset as int == instruction % 64 && (offset & 0b10_0000 != 0 <==> offset >= 32))
        by (bit_vector)
        requires
            offset == (instruction & 0b11_1111) as i16,
    ;
    if offset & 0b10_0000 != 0 {
        let r = offset | !0b11_1111;
        assert(r == offset - 64) by (bit_vector)
            requires
                r == offset | !0b11_1111i16,
                0 <= offset < 64,
                offset & 0b10_0000 != 0,
        ;
        r
    } else {
        let r = offset & 0b11_1111;
        assert(r == offset) by (bit_vector)
            requires
                r == offset & 0b11_1111i16,
                0 <= offset < 64,
        ;
        r
    }
}

/// Sign-extends bits 8..0 of `instruction` (the `PCoffset9` field).
pub fn sign_ext_imm9(instruction: u16) -> (r: i16)
    ensures
        r as int == sext(instruction, 9),
{
    proof {
        lemma2_to64();
    }
    let offset: i16 = (instruction & 0b1_1111_1111) as i16;
    assert(offset as int == instruction % 512 && (offset & 0b1_0000_0000 != 0 <==> offset >= 256))
        by (bit_vector)
        requires
            offset == (instruction & 0b1_1111_1111) as i16,
    ;
    if offset & 0b1_0000_0000 != 0 {
        let r = offset | !0b1_1111_1111;
        assert(r == offset - 512) by (bit_vector)
            requires
                r == offset | !0b1_1111_1111i16,
                0 <= offset < 512,
                offset & 0b1_0000_0000 != 0,
        ;
        r
    } else {
        let r = offset & 0b1_1111_1111;
        assert(r == offset) by (bit_vector)
            requires
                r == offset & 0b1_1111_1111i16,
                0 <= offset < 512,
        ;
        r
    }
}

/// Sign-extends bits 4..0 of `instruction` (the `imm5` field).
pub fn sign_ext_imm5(instruction: u16) -> (r: i16)
    ensures
        r as int == sext(instruction, 5),
{
    proof {
        lemma2_to64();
    }
    let offset: i16 = (instruction & 0b1_1111) as i16;
    assert(offset as int == instruction % 32 && (offset & 0b1_0000 != 0 <==> offset >= 16))
        by (bit_vector)
        requires
            offset == (instruction & 0b1_1111) as i16,
    ;
    if offset & 0b1_0000 != 0 {
        let r = offset | !0b1_1111;
        assert(r == offset - 32) by (bit_vector)
            requires
                r == offset | !0b1_1111i16,
                0 <= offset < 32,
                offset & 0b1_0000 != 0,
        ;
        r
    } else {
        let r = offset & 0b1_1111;
        assert(r == offset) by (bit_vector)
            requires
                r == offset & 0b1_1111i16,
                0 <= offset < 32,
        ;
        r
    }
}

/// Sign-extends bits 10..0 of `instruction` (the `PCoffset11` field).
pub fn sign_ext_imm11(instruction: u16) -> (r: i16)
    ensures
        r as int == sext(instruction, 11),
{
    proof {
        lemma2_to64();
    }
    let offset: i16 = (instruction & 0b111_1111_1111) as i16;
    assert(offset as int == instruction % 2048 && (offset & 0b100_0000_0000 != 0 <==> offset >= 1024))
        by (bit_vector)
        requires
            offset == (instruction & 0b111_1111_1111) as i16,
    ;
    if offset & 0b100_0000_0000 != 0 {
        let r = offset | !0b111_1111_1111;
        assert(r == offset - 2048) by (bit_vector)
            requires
                r == offset | !0b111_1111_1111i16,
                0 <= offset < 2048,
                offset & 0b100_0000_0000 != 0,
        ;
        r
    } else {
        let r = offset & 0b111_1111_1111;
        assert(r == offset) by (bit_vector)
            requires
                r == offset & 0b111_1111_1111i16,
                0 <= offset < 2048,
        ;
        r
    }
}

} // verus!
