use miniasm::asm_x86::{asm_to_bytes, reg_name, AsmCode, Dst, DstSrc, EncodeError, Flag, Src};

fn enc(code: AsmCode) -> (Vec<u8>, Option<usize>) {
    asm_to_bytes(&code).expect("instruction should encode")
}

#[test]
fn mov_reg_reg_round_trip() {
    for r in 0u8..8 {
        let (bytes, slot) = enc(AsmCode::Mov(DstSrc(Dst::Reg(r), Src::Reg(r))));
        assert_eq!(bytes, vec![0x8B, 0xC0 | (r << 3) | r]);
        assert_eq!(slot, None);
    }
}

#[test]
fn mov_reg_reg_mixed() {
    let (bytes, slot) = enc(AsmCode::Mov(DstSrc(Dst::Reg(1), Src::Reg(2))));
    assert_eq!(bytes, vec![0x8B, 0xCA]);
    assert_eq!(slot, None);
}

#[test]
fn mov_eax_immediate_width() {
    for v in [0i32, 5, -1, i32::MIN, i32::MAX, 0x123456] {
        let (bytes, slot) = enc(AsmCode::Mov(DstSrc(
            Dst::Reg(0),
            Src::Immediate(v, Flag::NotTemplate),
        )));
        let mut expected = vec![0xB8];
        expected.extend(v.to_le_bytes());
        assert_eq!(bytes, expected);
        assert_eq!(slot, None);

        let (tbytes, tslot) = enc(AsmCode::Mov(DstSrc(
            Dst::Reg(0),
            Src::Immediate(v, Flag::Template),
        )));
        assert_eq!(tbytes, expected);
        assert_eq!(tslot, Some(1));
    }
}

#[test]
fn mov_register_in_opcode() {
    let (bytes, _) = enc(AsmCode::Mov(DstSrc(
        Dst::Reg(1),
        Src::Immediate(0x10, Flag::NotTemplate),
    )));
    assert_eq!(bytes, vec![0xB9, 0x10, 0, 0, 0]);
}

#[test]
fn mov_memory_forms() {
    let (bytes, slot) = enc(AsmCode::Mov(DstSrc(Dst::Reg(0), Src::Offset(3, 4))));
    assert_eq!(bytes, vec![0x8B, 0x43, 4]);
    assert_eq!(slot, None);

    let (bytes, slot) = enc(AsmCode::Mov(DstSrc(Dst::Reg(0), Src::Offset(3, -4))));
    assert_eq!(bytes, vec![0x8B, 0x43, 0xFC]);
    assert_eq!(slot, None);

    let (bytes, slot) = enc(AsmCode::Mov(DstSrc(Dst::Offset(5, 8), Src::Reg(1))));
    assert_eq!(bytes, vec![0x89, 0x4D, 8]);
    assert_eq!(slot, None);

    let (bytes, slot) = enc(AsmCode::Mov(DstSrc(
        Dst::Offset(6, 2),
        Src::Immediate(7, Flag::Template),
    )));
    assert_eq!(bytes, vec![0xC7, 0x46, 2, 7, 0, 0, 0]);
    assert_eq!(slot, Some(3));
}

#[test]
fn mov_absolute_address() {
    let (bytes, slot) = enc(AsmCode::Mov(DstSrc(
        Dst::Reg(2),
        Src::Address(0x1234, Flag::NotTemplate),
    )));
    assert_eq!(bytes, vec![0x8B, 0x1D, 0x34, 0x12, 0, 0]);
    assert_eq!(slot, None);

    let (bytes, slot) = enc(AsmCode::Mov(DstSrc(
        Dst::Reg(2),
        Src::Address(0x1234, Flag::Template),
    )));
    assert_eq!(bytes, vec![0x8B, 0x1D, 0x34, 0x12, 0, 0]);
    assert_eq!(slot, Some(2));
}

#[test]
fn add_and_sub() {
    let (bytes, slot) = enc(AsmCode::Add(DstSrc(Dst::Reg(0), Src::Reg(1))));
    assert_eq!(bytes, vec![0x03, 0xC1]);
    assert_eq!(slot, None);

    let (bytes, slot) = enc(AsmCode::Add(DstSrc(
        Dst::Reg(2),
        Src::Immediate(0x10, Flag::Template),
    )));
    assert_eq!(bytes, vec![0x81, 0xC2, 0x10, 0, 0, 0]);
    assert_eq!(slot, Some(2));

    let (bytes, slot) = enc(AsmCode::Sub(DstSrc(Dst::Reg(3), Src::Reg(0))));
    assert_eq!(bytes, vec![0x2B, 0xD8]);
    assert_eq!(slot, None);

    let (bytes, slot) = enc(AsmCode::Sub(DstSrc(
        Dst::Reg(4),
        Src::Immediate(4, Flag::NotTemplate),
    )));
    assert_eq!(bytes, vec![0x81, 0xEC, 4, 0, 0, 0]);
    assert_eq!(slot, None);
}

#[test]
fn shift_special_case() {
    let (bytes, slot) = enc(AsmCode::Shl(DstSrc(
        Dst::Reg(0),
        Src::Immediate(1, Flag::NotTemplate),
    )));
    assert_eq!(bytes, vec![0xD1, 0xE0]);
    assert_eq!(slot, None);

    let (bytes, slot) = enc(AsmCode::Shl(DstSrc(
        Dst::Reg(0),
        Src::Immediate(2, Flag::NotTemplate),
    )));
    assert_eq!(bytes, vec![0xC1, 0xE0, 0x02]);
    assert_eq!(slot, None);

    assert_eq!(
        asm_to_bytes(&AsmCode::Shl(DstSrc(
            Dst::Reg(0),
            Src::Immediate(1, Flag::Template)
        ))),
        Err(EncodeError::TemplatedShiftCount)
    );
}

#[test]
fn shift_right_forms() {
    let (bytes, _) = enc(AsmCode::Shr(DstSrc(
        Dst::Reg(0),
        Src::Immediate(1, Flag::NotTemplate),
    )));
    assert_eq!(bytes, vec![0xD1, 0xE8]);

    let (bytes, _) = enc(AsmCode::Shr(DstSrc(
        Dst::Reg(1),
        Src::Immediate(3, Flag::NotTemplate),
    )));
    assert_eq!(bytes, vec![0xC1, 0xE9, 3]);

    assert_eq!(
        asm_to_bytes(&AsmCode::Shr(DstSrc(
            Dst::Reg(5),
            Src::Immediate(2, Flag::Template)
        ))),
        Err(EncodeError::TemplatedShiftCount)
    );
}

#[test]
fn shift_by_register() {
    let (bytes, _) = enc(AsmCode::Shl(DstSrc(Dst::Reg(0), Src::Reg(1))));
    assert_eq!(bytes, vec![0xD3, 0xE0 | (0 << 3) | 1]);

    let (bytes, _) = enc(AsmCode::Shr(DstSrc(Dst::Reg(2), Src::Reg(1))));
    assert_eq!(bytes, vec![0xD3, 0xE8 | (2 << 3) | 1]);
}

#[test]
fn push_pop_call_ret_nop() {
    let (bytes, slot) = enc(AsmCode::Push(Src::Reg(1)));
    assert_eq!(bytes, vec![0x51]);
    assert_eq!(slot, None);

    let (bytes, slot) = enc(AsmCode::Push(Src::Immediate(0x20, Flag::Template)));
    assert_eq!(bytes, vec![0x68, 0x20, 0, 0, 0]);
    assert_eq!(slot, Some(1));

    let (bytes, slot) = enc(AsmCode::Pop(Dst::Reg(7)));
    assert_eq!(bytes, vec![0x5F]);
    assert_eq!(slot, None);

    let (bytes, slot) = enc(AsmCode::Call(Src::Reg(0)));
    assert_eq!(bytes, vec![0xFF, 0xD0]);
    assert_eq!(slot, None);

    let (bytes, slot) = enc(AsmCode::Call(Src::Immediate(2, Flag::NotTemplate)));
    assert_eq!(bytes, vec![0xE8, 2, 0, 0, 0]);
    assert_eq!(slot, None);

    let (bytes, slot) = enc(AsmCode::Ret);
    assert_eq!(bytes, vec![0xC3]);
    assert_eq!(slot, None);

    let (bytes, slot) = enc(AsmCode::Nop);
    assert_eq!(bytes, vec![0x90]);
    assert_eq!(slot, None);
}

#[test]
fn jmp_short_vs_long() {
    for k in [-128i32, -1, 0, 6, 127] {
        let (bytes, slot) = enc(AsmCode::Jmp(Src::Immediate(k, Flag::NotTemplate)));
        assert_eq!(bytes, vec![0xEB, k as u8]);
        assert_eq!(slot, None);
    }
    for k in [-129i32, 128, 0x40c3e0, i32::MIN, i32::MAX] {
        let (bytes, slot) = enc(AsmCode::Jmp(Src::Immediate(k, Flag::NotTemplate)));
        let mut expected = vec![0xE9];
        expected.extend(k.to_le_bytes());
        assert_eq!(bytes, expected);
        assert_eq!(slot, None);
    }
    // A templated target always takes the long form, even when small.
    let (bytes, slot) = enc(AsmCode::Jmp(Src::Immediate(5, Flag::Template)));
    assert_eq!(bytes, vec![0xE9, 5, 0, 0, 0]);
    assert_eq!(slot, Some(1));
}

#[test]
fn jmp_register() {
    let (bytes, slot) = enc(AsmCode::Jmp(Src::Reg(0)));
    assert_eq!(bytes, vec![0xFF, 0xE0]);
    assert_eq!(slot, None);
}

#[test]
fn unsupported_combinations() {
    let unsupported = [
        AsmCode::Mov(DstSrc(Dst::Offset(0, 0), Src::Offset(1, 0))),
        AsmCode::Mov(DstSrc(Dst::Address(4, Flag::NotTemplate), Src::Reg(0))),
        AsmCode::Add(DstSrc(Dst::Reg(0), Src::Offset(1, 0))),
        AsmCode::Sub(DstSrc(Dst::Offset(0, 0), Src::Reg(1))),
        AsmCode::Shl(DstSrc(Dst::Reg(0), Src::Address(4, Flag::NotTemplate))),
        AsmCode::Push(Src::Offset(0, 0)),
        AsmCode::Pop(Dst::Offset(0, 0)),
        AsmCode::Pop(Dst::Address(4, Flag::NotTemplate)),
        AsmCode::Call(Src::Offset(0, 0)),
        AsmCode::Call(Src::Address(4, Flag::NotTemplate)),
        AsmCode::Jmp(Src::Address(4, Flag::NotTemplate)),
    ];
    for code in unsupported {
        assert_eq!(asm_to_bytes(&code), Err(EncodeError::Unsupported));
    }
}

#[test]
fn flag_is_template() {
    assert!(Flag::Template.is_template());
    assert!(!Flag::NotTemplate.is_template());
}

#[test]
fn register_names() {
    let names = ["eax", "ecx", "edx", "ebx", "esp", "ebp", "esi", "edi"];
    for r in 0u8..8 {
        assert_eq!(reg_name(r), names[r as usize]);
    }
}
