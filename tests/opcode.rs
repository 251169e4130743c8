use lc3_vm::opcode::{
    sign_ext_imm11, sign_ext_imm5, sign_ext_imm6, sign_ext_imm9, Opcode, OpcodeError, Trap,
};

#[test]
fn test_op_add() -> Result<(), OpcodeError> {
    let instruction = 0b0001_0010_1000_0011;
    let opcode = Opcode::from(instruction)?;
    assert_eq!(
        opcode,
        Opcode::OP_ADD_SR {
            dr: 1,
            sr1: 2,
            mode: false,
            sr2: 3
        }
    );

    let instruction = 0b0001_0010_1010_0001;
    let opcode = Opcode::from(instruction)?;
    assert_eq!(
        opcode,
        Opcode::OP_ADD_IMM {
            dr: 1,
            sr1: 2,
            mode: true,
            imm5: 1
        }
    );

    Ok(())
}

#[test]
fn test_op_and() -> Result<(), OpcodeError> {
    let instruction = 0b0101_0010_1000_0011;
    let opcode = Opcode::from(instruction)?;
    assert_eq!(
        opcode,
        Opcode::OP_AND_SR {
            dr: 1,
            sr1: 2,
            mode: false,
            sr2: 3
        }
    );

    let instruction = 0b0101_0010_1010_0001;
    let opcode = Opcode::from(instruction)?;
    assert_eq!(
        opcode,
        Opcode::OP_AND_IMM {
            dr: 1,
            sr1: 2,
            mode: true,
            imm5: 1
        }
    );

    Ok(())
}

#[test]
fn test_op_br() -> Result<(), OpcodeError> {
    let instruction = 0b0000_1110_0000_0001;
    let opcode = Opcode::from(instruction)?;
    assert_eq!(
        opcode,
        Opcode::OP_BR {
            n: true,
            z: true,
            p: true,
            offset: 1
        }
    );

    Ok(())
}

#[test]
fn test_op_jmp() -> Result<(), OpcodeError> {
    let instruction = 0b1100_0000_1101_1011;
    let opcode = Opcode::from(instruction)?;
    assert_eq!(opcode, Opcode::OP_JMP { base_r: 3 });
    Ok(())
}

#[test]
fn test_op_jsr() -> Result<(), OpcodeError> {
    let instruction = 0b0100_1000_0000_0001;
    let opcode = Opcode::from(instruction)?;
    assert_eq!(
        opcode,
        Opcode::OP_JSR {
            mode: true,
            offset: 1
        }
    );
    Ok(())
}

#[test]
fn test_op_ld() -> Result<(), OpcodeError> {
    let instruction = 0b0010_0010_0000_0001;
    let opcode = Opcode::from(instruction)?;
    assert_eq!(opcode, Opcode::OP_LD { dr: 1, offset: 1 });
    Ok(())
}

#[test]
fn test_op_ldi() -> Result<(), OpcodeError> {
    let instruction = 0b1010_0010_0000_0001;
    let opcode = Opcode::from(instruction)?;
    assert_eq!(opcode, Opcode::OP_LDI { dr: 1, offset: 1 });
    Ok(())
}

#[test]
fn test_op_ldr() -> Result<(), OpcodeError> {
    let instruction = 0b0110_0010_1000_0001;
    let opcode = Opcode::from(instruction)?;
    assert_eq!(
        opcode,
        Opcode::OP_LDR {
            dr: 1,
            base_r: 2,
            offset: 1
        }
    );
    Ok(())
}

#[test]
fn test_op_lea() -> Result<(), OpcodeError> {
    let instruction = 0b1110_0010_0000_0001;
    let opcode = Opcode::from(instruction)?;
    assert_eq!(opcode, Opcode::OP_LEA { dr: 1, offset: 1 });
    Ok(())
}

#[test]
fn test_op_not() -> Result<(), OpcodeError> {
    let instruction = 0b1001_0010_1011_1111;
    let opcode = Opcode::from(instruction)?;
    assert_eq!(opcode, Opcode::OP_NOT { dr: 1, sr: 2 });
    Ok(())
}

#[test]
fn test_op_rti() -> Result<(), OpcodeError> {
    let instruction = 0b1000_0000_0000_0000;
    let opcode = Opcode::from(instruction)?;
    assert_eq!(opcode, Opcode::OP_RTI);
    Ok(())
}

#[test]
fn test_op_st() -> Result<(), OpcodeError> {
    let instruction = 0b0011_0010_0000_0001;
    let opcode = Opcode::from(instruction)?;
    assert_eq!(opcode, Opcode::OP_ST { sr: 1, offset: 1 });
    Ok(())
}

#[test]
fn test_op_sti() -> Result<(), OpcodeError> {
    let instruction = 0b1011_0010_0000_0001;
    let opcode = Opcode::from(instruction)?;
    assert_eq!(opcode, Opcode::OP_STI { sr: 1, offset: 1 });
    Ok(())
}

#[test]
fn test_op_str() -> Result<(), OpcodeError> {
    let instruction = 0b0111_0010_1000_0001;
    let opcode = Opcode::from(instruction)?;
    assert_eq!(
        opcode,
        Opcode::OP_STR {
            sr: 1,
            base_r: 2,
            offset: 1
        }
    );
    Ok(())
}

#[test]
fn test_op_trap() -> Result<(), OpcodeError> {
    let instruction = 0b1111_0000_0010_0000;
    let opcode = Opcode::from(instruction)?;
    assert_eq!(
        opcode,
        Opcode::OP_TRAP {
            trapvec: Trap::GetC
        }
    );
    Ok(())
}

#[test]
fn test_op_res() -> Result<(), OpcodeError> {
    let instruction = 0b1101_0000_0000_0000;
    let opcode = Opcode::from(instruction)?;
    assert_eq!(opcode, Opcode::OP_RES);
    Ok(())
}

#[test]
fn ret_is_jmp_through_r7() {
    assert_eq!(Opcode::from(0b1100_0001_1100_0000), Ok(Opcode::OP_RET));
}

#[test]
fn jsrr_reads_base_from_bits_8_to_6() {
    assert_eq!(
        Opcode::from(0b0100_0000_1000_0000),
        Ok(Opcode::OP_JSRR {
            mode: false,
            base_r: 2
        })
    );
    // bits 10 and 9 are not part of the base register
    assert_eq!(
        Opcode::from(0b0100_0110_1000_0000),
        Ok(Opcode::OP_JSRR {
            mode: false,
            base_r: 2
        })
    );
}

#[test]
fn every_trap_vector_decodes() {
    let expected = [
        (0xF020, Trap::GetC),
        (0xF021, Trap::Out),
        (0xF022, Trap::Puts),
        (0xF023, Trap::In),
        (0xF024, Trap::Putsp),
        (0xF025, Trap::Halt),
    ];
    for (word, trap) in expected {
        assert_eq!(Opcode::from(word), Ok(Opcode::OP_TRAP { trapvec: trap }));
    }
}

#[test]
fn unknown_trap_vector_is_refused() {
    assert_eq!(Opcode::from(0xF026), Err(OpcodeError::InvalidTrap));
    assert_eq!(Opcode::from(0xF000), Err(OpcodeError::InvalidTrap));
    assert_eq!(Opcode::from(0xF0FF), Err(OpcodeError::InvalidTrap));
}

#[test]
fn negative_offsets_decode_sign_extended() {
    assert_eq!(
        Opcode::from(0b0000_1111_1111_1111),
        Ok(Opcode::OP_BR {
            n: true,
            z: true,
            p: true,
            offset: -1
        })
    );
    assert_eq!(
        Opcode::from(0b0001_0000_0111_0000),
        Ok(Opcode::OP_ADD_IMM {
            dr: 0,
            sr1: 1,
            mode: true,
            imm5: -16
        })
    );
    assert_eq!(
        Opcode::from(0b0110_0000_0110_0000),
        Ok(Opcode::OP_LDR {
            dr: 0,
            base_r: 1,
            offset: -32
        })
    );
    assert_eq!(
        Opcode::from(0b0100_1100_0000_0000),
        Ok(Opcode::OP_JSR {
            mode: true,
            offset: -1024
        })
    );
}

#[test]
fn sign_extension_values() {
    assert_eq!(sign_ext_imm5(0b1_1111), -1);
    assert_eq!(sign_ext_imm5(0b0_1111), 15);
    assert_eq!(sign_ext_imm5(0b1_0000), -16);
    assert_eq!(sign_ext_imm5(0xFFE1), 1);
    assert_eq!(sign_ext_imm6(0b10_0000), -32);
    assert_eq!(sign_ext_imm6(0b01_1111), 31);
    assert_eq!(sign_ext_imm9(0x1FF), -1);
    assert_eq!(sign_ext_imm9(0x100), -256);
    assert_eq!(sign_ext_imm9(0x0FF), 255);
    assert_eq!(sign_ext_imm11(0x400), -1024);
    assert_eq!(sign_ext_imm11(0x3FF), 1023);
    assert_eq!(sign_ext_imm11(0xF801), 1);
}

#[test]
fn sign_extension_sets_high_bits_exactly_when_top_bit_set() {
    let cases: [(fn(u16) -> i16, u32); 4] = [
        (sign_ext_imm5, 5),
        (sign_ext_imm6, 6),
        (sign_ext_imm9, 9),
        (sign_ext_imm11, 11),
    ];
    for (f, width) in cases {
        let mask: u16 = ((1u32 << width) - 1) as u16;
        for raw in 0..=mask {
            let pattern = f(raw) as u16;
            if raw >> (width - 1) == 0 {
                assert_eq!(pattern, raw);
            } else {
                assert_eq!(pattern, raw | !mask);
            }
        }
    }
}
