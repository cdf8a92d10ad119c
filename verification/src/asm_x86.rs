//! The instruction model and the x86 encoder.
//!
//! An `AsmCode` value is one instruction of the closed eleven-mnemonic
//! subset.  `asm_to_bytes` maps it to its exact opcode byte sequence and
//! reports the byte offset of a patchable 32-bit slot when the instruction
//! carries a templated source operand.

use vstd::prelude::*;

verus! {

/// Register code of `eax` in x86 encoding order.
pub const EAX: u8 = 0;

/// Register code of `ecx`.
pub const ECX: u8 = 1;

/// Register code of `edx`.
pub const EDX: u8 = 2;

/// Register code of `ebx`.
pub const EBX: u8 = 3;

/// Register code of `esp`.
pub const ESP: u8 = 4;

/// Register code of `ebp`.
pub const EBP: u8 = 5;

/// Register code of `esi`.
pub const ESI: u8 = 6;

/// Register code of `edi`.
pub const EDI: u8 = 7;

/// Marks an `Address` or `Immediate` source operand as a template slot:
/// its four encoded bytes are recorded by offset and may be overwritten
/// later with a fresh runtime value.
#[derive(Clone, Copy, Debug, PartialEq, Eq, Structural)]
pub enum Flag {
    Template,
    NotTemplate,
}

impl Flag {
    pub fn is_template(&self) -> (r: bool)
        ensures
            r == (*self is Template),
    {
        matches!(self, Flag::Template)
    }
}

/// A destination operand: a register, a `[reg+disp8]` memory operand, or
/// an absolute address.  Destinations are never templated; the flag on
/// `Address` only mirrors the source shape and is ignored by the encoder.
#[derive(Clone, Copy, Debug, PartialEq, Eq, Structural)]
pub enum Dst {
    Reg(u8),
    Offset(u8, i8),
    Address(u32, Flag),
}

/// A source operand: a register, a `[reg+disp8]` memory operand, an
/// absolute address, or an immediate constant.
#[derive(Clone, Copy, Debug, PartialEq, Eq, Structural)]
pub enum Src {
    Reg(u8),
    Offset(u8, i8),
    Address(u32, Flag),
    Immediate(i32, Flag),
}

/// The `dst, src` operand pair of a two-operand instruction.
#[derive(Clone, Copy, Debug, PartialEq, Eq, Structural)]
pub struct DstSrc(pub Dst, pub Src);

/// One instruction of the closed mnemonic set.
#[derive(Clone, Copy, Debug, PartialEq, Eq, Structural)]
pub enum AsmCode {
    Mov(DstSrc),
    Add(DstSrc),
    Sub(DstSrc),
    Shl(DstSrc),
    Shr(DstSrc),
    Push(Src),
    Pop(Dst),
    Call(Src),
    Ret,
    Jmp(Src),
    Nop,
}

/// Why an instruction cannot be encoded.
#[derive(Clone, Copy, Debug, PartialEq, Eq, Structural)]
pub enum EncodeError {
    /// The instruction/operand combination is outside the supported table.
    Unsupported,
    /// A shift count was marked as a template; shift counts are never
    /// patchable.
    TemplatedShiftCount,
}

/// The unsigned 32-bit two's-complement value of a signed 32-bit integer.
pub open spec fn spec_i32_rep(v: i32) -> int {
    if v >= 0 {
        v as int
    } else {
        v + 0x1_0000_0000
    }
}

/// The four little-endian bytes of a value in `[0, 2^32)`.
pub open spec fn spec_le_bytes_32(u: int) -> Seq<u8> {
    seq![
        (u % 0x100) as u8,
        ((u / 0x100) % 0x100) as u8,
        ((u / 0x1_0000) % 0x100) as u8,
        ((u / 0x100_0000) % 0x100) as u8,
    ]
}

/// The four little-endian bytes of a signed 32-bit immediate.
pub open spec fn spec_le_i32(v: i32) -> Seq<u8> {
    spec_le_bytes_32(spec_i32_rep(v))
}

/// The four little-endian bytes of an unsigned 32-bit address.
pub open spec fn spec_le_u32(a: u32) -> Seq<u8> {
    spec_le_bytes_32(a as int)
}

/// The low byte of a signed 32-bit value (its two's-complement byte when
/// the value fits in a signed byte).
pub open spec fn spec_low_byte_i32(v: i32) -> u8 {
    (spec_i32_rep(v) % 0x100) as u8
}

/// The two's-complement byte of a signed 8-bit displacement.
pub open spec fn spec_byte_i8(d: i8) -> u8 {
    if d >= 0 {
        d as u8
    } else {
        (d + 0x100) as u8
    }
}

fn i32_rep_u32(v: i32) -> (u: u32)
    ensures
        u as int == spec_i32_rep(v),
{
    if v >= 0 {
        v as u32
    } else {
        ((v as i64) + 0x1_0000_0000i64) as u32
    }
}

fn push_le_u32(bytes: &mut Vec<u8>, a: u32)
    ensures
        final(bytes)@ == old(bytes)@ + spec_le_u32(a),
{
    bytes.push((a % 0x100) as u8);
    bytes.push(((a / 0x100) % 0x100) as u8);
    bytes.push(((a / 0x1_0000) % 0x100) as u8);
    bytes.push(((a / 0x100_0000) % 0x100) as u8);
    assert(bytes@ =~= old(bytes)@ + spec_le_u32(a));
}

fn push_le_i32(bytes: &mut Vec<u8>, v: i32)
    ensures
        final(bytes)@ == old(bytes)@ + spec_le_i32(v),
{
    let u = i32_rep_u32(v);
    bytes.push((u % 0x100) as u8);
    bytes.push(((u / 0x100) % 0x100) as u8);
    bytes.push(((u / 0x1_0000) % 0x100) as u8);
    bytes.push(((u / 0x100_0000) % 0x100) as u8);
    assert(bytes@ =~= old(bytes)@ + spec_le_i32(v));
}

pub(crate) fn le_bytes_i32(v: i32) -> (r: Vec<u8>)
    ensures
        r@ == spec_le_i32(v),
{
    let mut r: Vec<u8> = Vec::new();
    push_le_i32(&mut r, v);
    assert(r@ =~= spec_le_i32(v));
    r
}

fn low_byte_i32(v: i32) -> (b: u8)
    ensures
        b == spec_low_byte_i32(v),
{
    (i32_rep_u32(v) % 0x100) as u8
}

fn byte_i8(d: i8) -> (b: u8)
    ensures
        b == spec_byte_i8(d),
{
    if d >= 0 {
        d as u8
    } else {
        ((d as i16) + 0x100) as u8
    }
}

/// The textual name of a register code.
pub open spec fn spec_reg_name(reg: u8) -> Seq<char> {
    if reg == 0 {
        "eax"@
    } else if reg == 1 {
        "ecx"@
    } else if reg == 2 {
        "edx"@
    } else if reg == 3 {
        "ebx"@
    } else if reg == 4 {
        "esp"@
    } else if reg == 5 {
        "ebp"@
    } else if reg == 6 {
        "esi"@
    } else {
        "edi"@
    }
}

/// The textual name of one of the eight register codes.
pub fn reg_name(reg: u8) -> (r: &'static str)
    requires
        reg < 8,
    ensures
        r@ == spec_reg_name(reg),
{
    match reg {
        0 => "eax",
        1 => "ecx",
        2 => "edx",
        3 => "ebx",
        4 => "esp",
        5 => "ebp",
        6 => "esi",
        _ => "edi",
    }
}

/// The encoding table: the exact byte sequence of an instruction together
/// with the offset of its 32-bit template slot, if the instruction carries
/// a templated source operand, or the error that rules the combination out.
pub open spec fn encode_spec(asm_code: AsmCode) -> Result<(Seq<u8>, Option<usize>), EncodeError> {
    match asm_code {
        AsmCode::Mov(DstSrc(Dst::Reg(dst), Src::Reg(src))) => Ok(
            (seq![0x8Bu8, 0xC0 | (dst << 3) | src], None),
        ),
        AsmCode::Mov(DstSrc(Dst::Reg(dst), Src::Offset(reg, offset))) => Ok(
            (seq![0x8Bu8, 0x40 | (dst << 3) | reg, spec_byte_i8(offset)], None),
        ),
        AsmCode::Mov(DstSrc(Dst::Reg(dst), Src::Address(address, flag))) => Ok(
            (
                seq![0x8Bu8, 0x0D | (dst << 3)] + spec_le_u32(address),
                if flag is Template {
                    Some(2usize)
                } else {
                    None
                },
            ),
        ),
        AsmCode::Mov(DstSrc(Dst::Reg(dst), Src::Immediate(imm, flag))) => Ok(
            (
                seq![0xB8 | dst] + spec_le_i32(imm),
                if flag is Template {
                    Some(1usize)
                } else {
                    None
                },
            ),
        ),
        AsmCode::Mov(DstSrc(Dst::Offset(reg, offset), Src::Reg(src))) => Ok(
            (seq![0x89u8, 0x40 | (src << 3) | reg, spec_byte_i8(offset)], None),
        ),
        AsmCode::Mov(DstSrc(Dst::Offset(reg, offset), Src::Immediate(imm, flag))) => Ok(
            (
                seq![0xC7u8, 0x40 | reg, spec_byte_i8(offset)] + spec_le_i32(imm),
                if flag is Template {
                    Some(3usize)
                } else {
                    None
                },
            ),
        ),
        AsmCode::Add(DstSrc(Dst::Reg(dst), Src::Reg(src))) => Ok(
            (seq![0x03u8, 0xC0 | (dst << 3) | src], None),
        ),
        AsmCode::Add(DstSrc(Dst::Reg(dst), Src::Immediate(imm, flag))) => Ok(
            (
                seq![0x81u8, 0xC0 | dst] + spec_le_i32(imm),
                if flag is Template {
                    Some(2usize)
                } else {
                    None
                },
            ),
        ),
        AsmCode::Sub(DstSrc(Dst::Reg(dst), Src::Reg(src))) => Ok(
            (seq![0x2Bu8, 0xC0 | (dst << 3) | src], None),
        ),
        AsmCode::Sub(DstSrc(Dst::Reg(dst), Src::Immediate(imm, flag))) => Ok(
            (
                seq![0x81u8, 0xE8 | dst] + spec_le_i32(imm),
                if flag is Template {
                    Some(2usize)
                } else {
                    None
                },
            ),
        ),
        AsmCode::Shl(DstSrc(Dst::Reg(dst), Src::Reg(src))) => Ok(
            (seq![0xD3u8, 0xE0 | (dst << 3) | src], None),
        ),
        AsmCode::Shl(DstSrc(Dst::Reg(dst), Src::Immediate(imm, flag))) => if flag is Template {
            Err(EncodeError::TemplatedShiftCount)
        } else if imm == 1 {
            Ok((seq![0xD1u8, 0xE0 | dst], None))
        } else {
            Ok((seq![0xC1u8, 0xE0 | dst, spec_low_byte_i32(imm)], None))
        },
        AsmCode::Shr(DstSrc(Dst::Reg(dst), Src::Reg(src))) => Ok(
            (seq![0xD3u8, 0xE8 | (dst << 3) | src], None),
        ),
        AsmCode::Shr(DstSrc(Dst::Reg(dst), Src::Immediate(imm, flag))) => if flag is Template {
            Err(EncodeError::TemplatedShiftCount)
        } else if imm == 1 {
            Ok((seq![0xD1u8, 0xE8 | dst], None))
        } else {
            Ok((seq![0xC1u8, 0xE8 | dst, spec_low_byte_i32(imm)], None))
        },
        AsmCode::Push(Src::Reg(src)) => Ok((seq![0x50 | src], None)),
        AsmCode::Push(Src::Immediate(imm, flag)) => Ok(
            (
                seq![0x68u8] + spec_le_i32(imm),
                if flag is Template {
                    Some(1usize)
                } else {
                    None
                },
            ),
        ),
        AsmCode::Pop(Dst::Reg(dst)) => Ok((seq![0x58 | dst], None)),
        AsmCode::Call(Src::Reg(src)) => Ok((seq![0xFFu8, 0xD0 | src], None)),
        AsmCode::Call(Src::Immediate(imm, flag)) => Ok(
            (
                seq![0xE8u8] + spec_le_i32(imm),
                if flag is Template {
                    Some(1usize)
                } else {
                    None
                },
            ),
        ),
        AsmCode::Ret => Ok((seq![0xC3u8], None)),
        AsmCode::Jmp(Src::Reg(src)) => Ok((seq![0xFFu8, 0xE0 | src], None)),
        AsmCode::Jmp(Src::Immediate(imm, flag)) => if flag is NotTemplate && -128 <= imm && imm
            <= 127 {
            Ok((seq![0xEBu8, spec_low_byte_i32(imm)], None))
        } else {
            Ok(
                (
                    seq![0xE9u8] + spec_le_i32(imm),
                    if flag is Template {
                        Some(1usize)
                    } else {
                        None
                    },
                ),
            )
        },
        AsmCode::Nop => Ok((seq![0x90u8], None)),
        _ => Err(EncodeError::Unsupported),
    }
}

/// Encode one instruction: its exact bytes, and the offset within them of
/// the 32-bit template slot when a source operand is templated.  The
/// result is exactly what the `encode_spec` table states, error cases
/// included.
#[verifier::rlimit(50)]
pub fn asm_to_bytes(asm_code: &AsmCode) -> (r: Result<(Vec<u8>, Option<usize>), EncodeError>)
    ensures
        r is Ok <==> encode_spec(*asm_code) is Ok,
        r is Ok ==> r->Ok_0.0@ == encode_spec(*asm_code)->Ok_0.0 && r->Ok_0.1 == encode_spec(
            *asm_code,
        )->Ok_0.1,
        r is Err ==> r->Err_0 == encode_spec(*asm_code)->Err_0,
{
    match *asm_code {
        AsmCode::Mov(DstSrc(Dst::Reg(dst), Src::Reg(src))) => Ok(
            (vec![0x8B, 0xC0 | (dst << 3) | src], None),
        ),
        AsmCode::Mov(DstSrc(Dst::Reg(dst), Src::Offset(reg, offset))) => Ok(
            (vec![0x8B, 0x40 | (dst << 3) | reg, byte_i8(offset)], None),
        ),
        AsmCode::Mov(DstSrc(Dst::Reg(dst), Src::Address(address, flag))) => {
            let mut bytes = vec![0x8B, 0x0D | (dst << 3)];
            push_le_u32(&mut bytes, address);
            if flag.is_template() {
                Ok((bytes, Some(2)))
            } else {
                Ok((bytes, None))
            }
        },
        AsmCode::Mov(DstSrc(Dst::Reg(dst), Src::Immediate(imm, flag))) => {
            let mut bytes = vec![0xB8 | dst];
            push_le_i32(&mut bytes, imm);
            if flag.is_template() {
                Ok((bytes, Some(1)))
            } else {
                Ok((bytes, None))
            }
        },
        AsmCode::Mov(DstSrc(Dst::Offset(reg, offset), Src::Reg(src))) => Ok(
            (vec![0x89, 0x40 | (src << 3) | reg, byte_i8(offset)], None),
        ),
        AsmCode::Mov(DstSrc(Dst::Offset(reg, offset), Src::Immediate(imm, flag))) => {
            let mut bytes = vec![0xC7, 0x40 | reg, byte_i8(offset)];
            push_le_i32(&mut bytes, imm);
            if flag.is_template() {
                Ok((bytes, Some(3)))
            } else {
                Ok((bytes, None))
            }
        },
        AsmCode::Add(DstSrc(Dst::Reg(dst), Src::Reg(src))) => Ok(
            (vec![0x03, 0xC0 | (dst << 3) | src], None),
        ),
        AsmCode::Add(DstSrc(Dst::Reg(dst), Src::Immediate(imm, flag))) => {
            let mut bytes = vec![0x81, 0xC0 | dst];
            push_le_i32(&mut bytes, imm);
            if flag.is_template() {
                Ok((bytes, Some(2)))
            } else {
                Ok((bytes, None))
            }
        },
        AsmCode::Sub(DstSrc(Dst::Reg(dst), Src::Reg(src))) => Ok(
            (vec![0x2B, 0xC0 | (dst << 3) | src], None),
        ),
        AsmCode::Sub(DstSrc(Dst::Reg(dst), Src::Immediate(imm, flag))) => {
            let mut bytes = vec![0x81, 0xE8 | dst];
            push_le_i32(&mut bytes, imm);
            if flag.is_template() {
                Ok((bytes, Some(2)))
            } else {
                Ok((bytes, None))
            }
        },
        AsmCode::Shl(DstSrc(Dst::Reg(dst), Src::Reg(src))) => Ok(
            (vec![0xD3, 0xE0 | (dst << 3) | src], None),
        ),
        AsmCode::Shl(DstSrc(Dst::Reg(dst), Src::Immediate(imm, flag))) => {
            if flag.is_template() {
                Err(EncodeError::TemplatedShiftCount)
            } else if imm == 1 {
                Ok((vec![0xD1, 0xE0 | dst], None))
            } else {
                Ok((vec![0xC1, 0xE0 | dst, low_byte_i32(imm)], None))
            }
        },
        AsmCode::Shr(DstSrc(Dst::Reg(dst), Src::Reg(src))) => Ok(
            (vec![0xD3, 0xE8 | (dst << 3) | src], None),
        ),
        AsmCode::Shr(DstSrc(Dst::Reg(dst), Src::Immediate(imm, flag))) => {
            if flag.is_template() {
                Err(EncodeError::TemplatedShiftCount)
            } else if imm == 1 {
                Ok((vec![0xD1, 0xE8 | dst], None))
            } else {
                Ok((vec![0xC1, 0xE8 | dst, low_byte_i32(imm)], None))
            }
        },
        AsmCode::Push(Src::Reg(src)) => Ok((vec![0x50 | src], None)),
        AsmCode::Push(Src::Immediate(imm, flag)) => {
            let mut bytes = vec![0x68];
            push_le_i32(&mut bytes, imm);
            if flag.is_template() {
                Ok((bytes, Some(1)))
            } else {
                Ok((bytes, None))
            }
        },
        AsmCode::Pop(Dst::Reg(dst)) => Ok((vec![0x58 | dst], None)),
        AsmCode::Call(Src::Reg(src)) => Ok((vec![0xFF, 0xD0 | src], None)),
        AsmCode::Call(Src::Immediate(imm, flag)) => {
            let mut bytes = vec![0xE8];
            push_le_i32(&mut bytes, imm);
            if flag.is_template() {
                Ok((bytes, Some(1)))
            } else {
                Ok((bytes, None))
            }
        },
        AsmCode::Ret => Ok((vec![0xC3], None)),
        AsmCode::Jmp(Src::Reg(src)) => Ok((vec![0xFF, 0xE0 | src], None)),
        AsmCode::Jmp(Src::Immediate(imm, flag)) => {
            if !flag.is_template() && -128 <= imm && imm <= 127 {
                Ok((vec![0xEB, low_byte_i32(imm)], None))
            } else {
                let mut bytes = vec![0xE9];
                push_le_i32(&mut bytes, imm);
                if flag.is_template() {
                    Ok((bytes, Some(1)))
                } else {
                    Ok((bytes, None))
                }
            }
        },
        AsmCode::Nop => Ok((vec![0x90], None)),
        _ => Err(EncodeError::Unsupported),
    }
}

/// Law: for every register `r` of the eight-register set, `mov r, r`
/// encodes to exactly the two bytes `[0x8B, 0xC0 | (r << 3) | r]`, with no
/// template slot.
pub proof fn lemma_mov_reg_reg_encoding(r: u8)
    requires
        r < 8,
    ensures
        encode_spec(AsmCode::Mov(DstSrc(Dst::Reg(r), Src::Reg(r)))) == Ok::<
            (Seq<u8>, Option<usize>),
            EncodeError,
        >((seq![0x8Bu8, 0xC0 | (r << 3) | r], None)),
{
}

/// Law: `mov eax, v` encodes to the opcode byte `0xB8` followed by the
/// four little-endian bytes of `v`, for every signed 32-bit `v`; the slot
/// offset is reported as `1` exactly when the immediate is templated.
pub proof fn lemma_mov_eax_immediate_encoding(v: i32, flag: Flag)
    ensures
        encode_spec(AsmCode::Mov(DstSrc(Dst::Reg(EAX), Src::Immediate(v, flag)))) == Ok::<
            (Seq<u8>, Option<usize>),
            EncodeError,
        >(
            (
                seq![0xB8u8] + spec_le_i32(v),
                if flag is Template {
                    Some(1usize)
                } else {
                    None
                },
            ),
        ),
{
    assert(0xB8u8 | 0u8 == 0xB8u8) by (bit_vector);
    assert(seq![(0xB8u8 | 0u8)] + spec_le_i32(v) =~= seq![0xB8u8] + spec_le_i32(v));
}

/// Law: a non-templated `jmp` whose target fits in a signed byte takes the
/// two-byte short form; any other immediate `jmp` takes the five-byte long
/// form, with slot offset `1` exactly when the target is templated.
pub proof fn lemma_jmp_selection(v: i32, flag: Flag)
    ensures
        flag is NotTemplate && -128 <= v && v <= 127 ==> encode_spec(
            AsmCode::Jmp(Src::Immediate(v, flag)),
        ) == Ok::<(Seq<u8>, Option<usize>), EncodeError>(
            (seq![0xEBu8, spec_low_byte_i32(v)], None),
        ),
        flag is Template || v < -128 || v > 127 ==> encode_spec(AsmCode::Jmp(Src::Immediate(v, flag)))
            == Ok::<(Seq<u8>, Option<usize>), EncodeError>(
            (
                seq![0xE9u8] + spec_le_i32(v),
                if flag is Template {
                    Some(1usize)
                } else {
                    None
                },
            ),
        ),
{
}

/// Law: an immediate shift count of exactly `1` takes the two-byte
/// single-shift form, any other count the three-byte immediate form, and a
/// templated shift count is always rejected: shift counts are never
/// patchable.
pub proof fn lemma_shift_encoding(r: u8, v: i32, flag: Flag)
    ensures
        flag is Template ==> encode_spec(AsmCode::Shl(DstSrc(Dst::Reg(r), Src::Immediate(v, flag))))
            == Err::<(Seq<u8>, Option<usize>), EncodeError>(EncodeError::TemplatedShiftCount),
        flag is Template ==> encode_spec(AsmCode::Shr(DstSrc(Dst::Reg(r), Src::Immediate(v, flag))))
            == Err::<(Seq<u8>, Option<usize>), EncodeError>(EncodeError::TemplatedShiftCount),
        flag is NotTemplate && v == 1 ==> encode_spec(
            AsmCode::Shl(DstSrc(Dst::Reg(r), Src::Immediate(v, flag))),
        ) == Ok::<(Seq<u8>, Option<usize>), EncodeError>((seq![0xD1u8, 0xE0 | r], None)),
        flag is NotTemplate && v != 1 ==> encode_spec(
            AsmCode::Shl(DstSrc(Dst::Reg(r), Src::Immediate(v, flag))),
        ) == Ok::<(Seq<u8>, Option<usize>), EncodeError>(
            (seq![0xC1u8, 0xE0 | r, spec_low_byte_i32(v)], None),
        ),
{
}

/// Every encodable instruction is 1 to 7 bytes long, and a reported slot
/// offset always leaves room for the four bytes it stands for, strictly
/// inside the instruction's own byte sequence.
pub proof fn lemma_encode_slot_in_range(c: AsmCode)
    ensures
        encode_spec(c) is Ok ==> 1 <= encode_spec(c)->Ok_0.0.len() <= 7,
        encode_spec(c) is Ok && encode_spec(c)->Ok_0.1 is Some ==> 1 <= encode_spec(
            c,
        )->Ok_0.1->Some_0 && encode_spec(c)->Ok_0.1->Some_0 + 4 <= encode_spec(c)->Ok_0.0.len(),
{
}

} // verus!
