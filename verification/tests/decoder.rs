use chip8::decode_opcode;
use chip8::ArithKind;
use chip8::DecodedOp;
use chip8::Opcode;

#[test]
fn opcode_fields() {
    let op = Opcode(0xD123);
    assert_eq!(op.to_u16(), 0xD123);
    assert_eq!(op.get_nibble(3), 0xD);
    assert_eq!(op.get_nibble(2), 0x1);
    assert_eq!(op.get_nibble(1), 0x2);
    assert_eq!(op.get_nibble(0), 0x3);
    assert_eq!(op.get_byte(1), 0xD1);
    assert_eq!(op.get_byte(0), 0x23);
}

#[test]
fn decodes_control_flow() {
    assert_eq!(decode_opcode(Opcode(0x00E0)), DecodedOp::Cls);
    assert_eq!(decode_opcode(Opcode(0x00EE)), DecodedOp::Ret);
    assert_eq!(decode_opcode(Opcode(0x1ABC)), DecodedOp::Jmp { addr: 0xABC });
    assert_eq!(decode_opcode(Opcode(0x2345)), DecodedOp::Call { addr: 0x345 });
    assert_eq!(decode_opcode(Opcode(0xB210)), DecodedOp::JumpOffset { addr: 0x210 });
}

#[test]
fn decodes_skips_and_loads() {
    assert_eq!(decode_opcode(Opcode(0x3A55)), DecodedOp::SkipEqByte { x: 0xA, byte: 0x55 });
    assert_eq!(decode_opcode(Opcode(0x4A55)), DecodedOp::SkipNeByte { x: 0xA, byte: 0x55 });
    assert_eq!(decode_opcode(Opcode(0x5120)), DecodedOp::SkipEqReg { x: 0x1, y: 0x2 });
    assert_eq!(decode_opcode(Opcode(0x9120)), DecodedOp::SkipNeReg { x: 0x1, y: 0x2 });
    assert_eq!(decode_opcode(Opcode(0x6005)), DecodedOp::Load { x: 0x0, byte: 0x05 });
    assert_eq!(decode_opcode(Opcode(0x70FF)), DecodedOp::AddByte { x: 0x0, byte: 0xFF });
    assert_eq!(decode_opcode(Opcode(0xA123)), DecodedOp::LoadIndex { addr: 0x123 });
    assert_eq!(decode_opcode(Opcode(0xC2F0)), DecodedOp::Random { x: 0x2, byte: 0xF0 });
    assert_eq!(decode_opcode(Opcode(0xD125)), DecodedOp::Draw { x: 0x1, y: 0x2, n: 0x5 });
}

#[test]
fn decodes_arithmetic_class() {
    assert_eq!(
        decode_opcode(Opcode(0x8120)),
        DecodedOp::Arith { kind: ArithKind::Mov, x: 1, y: 2 }
    );
    assert_eq!(
        decode_opcode(Opcode(0x8121)),
        DecodedOp::Arith { kind: ArithKind::Or, x: 1, y: 2 }
    );
    assert_eq!(
        decode_opcode(Opcode(0x8122)),
        DecodedOp::Arith { kind: ArithKind::And, x: 1, y: 2 }
    );
    assert_eq!(
        decode_opcode(Opcode(0x8123)),
        DecodedOp::Arith { kind: ArithKind::Xor, x: 1, y: 2 }
    );
    assert_eq!(
        decode_opcode(Opcode(0x8124)),
        DecodedOp::Arith { kind: ArithKind::Add, x: 1, y: 2 }
    );
    assert_eq!(
        decode_opcode(Opcode(0x8125)),
        DecodedOp::Arith { kind: ArithKind::Sub, x: 1, y: 2 }
    );
    assert_eq!(
        decode_opcode(Opcode(0x8126)),
        DecodedOp::Arith { kind: ArithKind::Shr, x: 1, y: 2 }
    );
    assert_eq!(
        decode_opcode(Opcode(0x8127)),
        DecodedOp::Arith { kind: ArithKind::Subn, x: 1, y: 2 }
    );
    assert_eq!(
        decode_opcode(Opcode(0x812E)),
        DecodedOp::Arith { kind: ArithKind::Shl, x: 1, y: 2 }
    );
    assert_eq!(decode_opcode(Opcode(0x8128)), DecodedOp::Invalid);
}

#[test]
fn decodes_keys_and_misc() {
    assert_eq!(decode_opcode(Opcode(0xE19E)), DecodedOp::SkipKeyPressed { x: 1 });
    assert_eq!(decode_opcode(Opcode(0xE1A1)), DecodedOp::SkipKeyNotPressed { x: 1 });
    assert_eq!(decode_opcode(Opcode(0xF107)), DecodedOp::ReadDelay { x: 1 });
    assert_eq!(decode_opcode(Opcode(0xF10A)), DecodedOp::WaitKey { x: 1 });
    assert_eq!(decode_opcode(Opcode(0xF115)), DecodedOp::SetDelay { x: 1 });
    assert_eq!(decode_opcode(Opcode(0xF118)), DecodedOp::SetSound { x: 1 });
    assert_eq!(decode_opcode(Opcode(0xF11E)), DecodedOp::AddIndex { x: 1 });
    assert_eq!(decode_opcode(Opcode(0xF129)), DecodedOp::LoadFont { x: 1 });
    assert_eq!(decode_opcode(Opcode(0xF133)), DecodedOp::StoreBcd { x: 1 });
    assert_eq!(decode_opcode(Opcode(0xF155)), DecodedOp::StoreRegs { x: 1 });
    assert_eq!(decode_opcode(Opcode(0xF165)), DecodedOp::LoadRegs { x: 1 });
}

#[test]
fn undefined_patterns_decode_to_invalid() {
    // Exact-nibble dispatch, not any-bit-set matching: 0x0000 shares
    // bits with nothing and the 0x0/0x5/0x9/0xE/0xF classes need their
    // secondary discriminant to match exactly.
    assert_eq!(decode_opcode(Opcode(0x0000)), DecodedOp::Invalid);
    assert_eq!(decode_opcode(Opcode(0x0123)), DecodedOp::Invalid);
    assert_eq!(decode_opcode(Opcode(0x5121)), DecodedOp::Invalid);
    assert_eq!(decode_opcode(Opcode(0x9121)), DecodedOp::Invalid);
    assert_eq!(decode_opcode(Opcode(0xE19F)), DecodedOp::Invalid);
    assert_eq!(decode_opcode(Opcode(0xF100)), DecodedOp::Invalid);
}

#[test]
fn decoding_is_total_and_deterministic() {
    // Every 16-bit word decodes, and decoding twice gives the same
    // instruction.
    let mut w: u32 = 0;
    while w <= 0xFFFF {
        let a = decode_opcode(Opcode(w as u16));
        let b = decode_opcode(Opcode(w as u16));
        assert_eq!(a, b);
        w += 1;
    }
}
