use miniasm::asm_function::{asm_code, AsmFunction, PatchError};
use miniasm::asm_parse::{parse, ParseError, Token};
use miniasm::asm_x86::{AsmCode, Dst, DstSrc, EncodeError, Flag, Src};

fn ident(name: &str) -> Token {
    Token::Ident(name.as_bytes().to_vec())
}

/// Tokenizes a program whose tokens are separated by spaces, for tests.
fn toks(program: &str) -> Vec<Token> {
    let mut out = Vec::new();
    for word in program.split_whitespace() {
        if let Some(rest) = word.strip_prefix("0x") {
            out.push(Token::Int(u32::from_str_radix(rest, 16).unwrap()));
        } else if word.chars().next().unwrap().is_ascii_digit() {
            out.push(Token::Int(word.parse().unwrap()));
        } else if word.len() == 1 && !word.chars().next().unwrap().is_ascii_alphabetic() {
            out.push(Token::Punct(word.chars().next().unwrap()));
        } else {
            out.push(ident(word));
        }
    }
    out
}

#[test]
fn parse_two_operand_instructions() {
    let program = toks("mov eax , ecx ; add edx , 5 ; sub ebx , eax ; shl eax , 1 ; shr ecx , 2 ;");
    let codes = parse(&program).unwrap();
    assert_eq!(
        codes,
        vec![
            AsmCode::Mov(DstSrc(Dst::Reg(0), Src::Reg(1))),
            AsmCode::Add(DstSrc(Dst::Reg(2), Src::Immediate(5, Flag::NotTemplate))),
            AsmCode::Sub(DstSrc(Dst::Reg(3), Src::Reg(0))),
            AsmCode::Shl(DstSrc(Dst::Reg(0), Src::Immediate(1, Flag::NotTemplate))),
            AsmCode::Shr(DstSrc(Dst::Reg(1), Src::Immediate(2, Flag::NotTemplate))),
        ]
    );
}

#[test]
fn parse_one_and_zero_operand_instructions() {
    let program = toks("push ebx ; pop edi ; call 0x2 ; ret ; jmp eax ; nop ;");
    let codes = parse(&program).unwrap();
    assert_eq!(
        codes,
        vec![
            AsmCode::Push(Src::Reg(3)),
            AsmCode::Pop(Dst::Reg(7)),
            AsmCode::Call(Src::Immediate(2, Flag::NotTemplate)),
            AsmCode::Ret,
            AsmCode::Jmp(Src::Reg(0)),
            AsmCode::Nop,
        ]
    );
}

#[test]
fn parse_memory_operands() {
    let program = toks("mov eax , [ ebx + 4 ] ; mov [ ebp ] , eax ; mov ecx , [ 0x1234 ] ;");
    let codes = parse(&program).unwrap();
    assert_eq!(
        codes,
        vec![
            AsmCode::Mov(DstSrc(Dst::Reg(0), Src::Offset(3, 4))),
            AsmCode::Mov(DstSrc(Dst::Offset(5, 0), Src::Reg(0))),
            AsmCode::Mov(DstSrc(Dst::Reg(1), Src::Address(0x1234, Flag::NotTemplate))),
        ]
    );
}

#[test]
fn parse_template_markers() {
    let program = toks("mov ecx , $ 0x10 ; push $ 0x20 ; mov eax , $ [ 0x1234 ] ;");
    let codes = parse(&program).unwrap();
    assert_eq!(
        codes,
        vec![
            AsmCode::Mov(DstSrc(Dst::Reg(1), Src::Immediate(0x10, Flag::Template))),
            AsmCode::Push(Src::Immediate(0x20, Flag::Template)),
            AsmCode::Mov(DstSrc(Dst::Reg(0), Src::Address(0x1234, Flag::Template))),
        ]
    );
}

#[test]
fn parse_is_case_insensitive() {
    let program = toks("MOV EAX , ECX ; PuSh EbX ;");
    let codes = parse(&program).unwrap();
    assert_eq!(
        codes,
        vec![
            AsmCode::Mov(DstSrc(Dst::Reg(0), Src::Reg(1))),
            AsmCode::Push(Src::Reg(3)),
        ]
    );
}

#[test]
fn parse_skips_stray_semicolons() {
    let program = toks("; ; ret ; ; ; nop ; ;");
    let codes = parse(&program).unwrap();
    assert_eq!(codes, vec![AsmCode::Ret, AsmCode::Nop]);
}

#[test]
fn parse_empty_input() {
    assert_eq!(parse(&Vec::new()).unwrap(), Vec::new());
}

#[test]
fn parse_failure_coverage() {
    // Misspelled mnemonic: the whole parse fails, no partial output.
    assert_eq!(
        parse(&toks("addd eax , 1 ;")),
        Err(ParseError::UnknownMnemonic)
    );
    // Missing comma between the operands.
    assert_eq!(parse(&toks("mov eax 1 ;")), Err(ParseError::ExpectedComma));
}

#[test]
fn parse_error_variants() {
    assert_eq!(
        parse(&toks("mov eaxx , 1 ;")),
        Err(ParseError::UnknownRegister)
    );
    assert_eq!(parse(&toks("mov eax ,")), Err(ParseError::UnexpectedEnd));
    assert_eq!(
        parse(&toks("mov eax , 1")),
        Err(ParseError::ExpectedSemicolon)
    );
    assert_eq!(
        parse(&toks("pop [ eax ;")),
        Err(ParseError::ExpectedCloseBracket)
    );
    assert_eq!(
        parse(&toks("mov eax , 0x80000000 ;")),
        Err(ParseError::LiteralOutOfRange)
    );
    assert_eq!(
        parse(&toks("mov eax , [ ebx + 200 ] ;")),
        Err(ParseError::LiteralOutOfRange)
    );
    assert_eq!(parse(&toks(", eax ;")), Err(ParseError::UnexpectedToken));
    assert_eq!(
        parse(&toks("mov $ 1 , eax ;")),
        Err(ParseError::UnexpectedToken)
    );
}

#[test]
fn parse_failure_stops_after_earlier_statements() {
    // The error in the second statement fails the parse as a whole.
    assert_eq!(
        parse(&toks("ret ; mov eax 1 ;")),
        Err(ParseError::ExpectedComma)
    );
}

#[test]
fn slot_offset_accumulation() {
    let codes = parse(&toks("mov ecx , $ 0x10 ; push $ 0x20 ;")).unwrap();
    let function = asm_code(&codes).unwrap();
    assert_eq!(
        function.as_bytes(),
        &[0xB9, 0x10, 0, 0, 0, 0x68, 0x20, 0, 0, 0]
    );
    assert_eq!(function.slot_offsets(), &vec![1, 6]);
}

#[test]
fn asm_code_reports_first_encoding_error() {
    let codes = vec![
        AsmCode::Ret,
        AsmCode::Shl(DstSrc(Dst::Reg(0), Src::Immediate(1, Flag::Template))),
        AsmCode::Pop(Dst::Offset(0, 0)),
    ];
    assert!(matches!(
        asm_code(&codes),
        Err(EncodeError::TemplatedShiftCount)
    ));
    let codes = vec![AsmCode::Ret, AsmCode::Pop(Dst::Offset(0, 0))];
    assert!(matches!(asm_code(&codes), Err(EncodeError::Unsupported)));
}

#[test]
fn patch_overwrites_exactly_the_slots() {
    let codes = parse(&toks("mov ecx , $ 0x10 ; nop ; push $ 0x20 ;")).unwrap();
    let function = asm_code(&codes).unwrap();
    let unpatched = function.as_bytes().to_vec();
    assert_eq!(function.slot_offsets(), &vec![1, 7]);

    let patched = function
        .apply_templates(&vec![0x11223344, -0x11223344])
        .unwrap();
    let bytes = patched.as_bytes();
    assert_eq!(bytes.len(), unpatched.len());
    assert_eq!(&bytes[1..5], 0x11223344i32.to_le_bytes());
    assert_eq!(&bytes[7..11], (-0x11223344i32).to_le_bytes());
    // Every byte outside the two slots is identical to the unpatched buffer.
    assert_eq!(bytes[0], unpatched[0]);
    assert_eq!(bytes[5], unpatched[5]);
    assert_eq!(bytes[6], unpatched[6]);
    // The pure patch left the original untouched.
    assert_eq!(function.as_bytes(), &unpatched[..]);
}

#[test]
fn patch_twice_with_distinct_values() {
    let codes = parse(&toks("mov ecx , $ 0x10 ; push $ 0x20 ;")).unwrap();
    let function = asm_code(&codes).unwrap();
    let first = function.apply_templates(&vec![1, 2]).unwrap();
    let second = first.apply_templates(&vec![0x0A0B0C0D, 0x7FFFFFFF]).unwrap();
    let direct = function.apply_templates(&vec![0x0A0B0C0D, 0x7FFFFFFF]).unwrap();
    // Patching again with fresh values leaves no trace of the first patch.
    assert_eq!(second.as_bytes(), direct.as_bytes());
}

#[test]
fn patch_rejects_wrong_length() {
    let codes = parse(&toks("mov ecx , $ 0x10 ; push $ 0x20 ;")).unwrap();
    let function = asm_code(&codes).unwrap();
    let unpatched = function.as_bytes().to_vec();
    assert!(matches!(
        function.apply_templates(&vec![1]),
        Err(PatchError::SlotCountMismatch)
    ));
    assert!(matches!(
        function.apply_templates(&vec![1, 2, 3]),
        Err(PatchError::SlotCountMismatch)
    ));
    // The rejected patch left the buffer unchanged.
    assert_eq!(function.as_bytes(), &unpatched[..]);
}

#[test]
fn patch_in_place() {
    let codes = parse(&toks("push $ 0x20 ;")).unwrap();
    let mut function = asm_code(&codes).unwrap();
    function.apply_templates_mut(&vec![0x0102]);
    assert_eq!(function.as_bytes(), &[0x68, 0x02, 0x01, 0, 0]);
}

#[test]
fn new_wraps_parts() {
    let function = AsmFunction::new((vec![0x68, 0, 0, 0, 0], vec![1]));
    assert_eq!(function.as_bytes(), &[0x68, 0, 0, 0, 0]);
    assert_eq!(function.slot_offsets(), &vec![1]);
    let patched = function.apply_templates(&vec![7]).unwrap();
    assert_eq!(patched.as_bytes(), &[0x68, 7, 0, 0, 0]);
}

#[test]
fn whole_program_assembles_and_patches() {
    let program = toks(
        "mov ecx , $ 0x0 ; call 0x2 ; jmp 0x6 ; push 0x40c3e0 ; ret ; ret ;",
    );
    let codes = parse(&program).unwrap();
    assert_eq!(codes.len(), 6);
    let function = asm_code(&codes).unwrap();
    assert_eq!(
        function.as_bytes(),
        &[
            0xB9, 0, 0, 0, 0, // mov ecx, imm32 (slot at 1)
            0xE8, 2, 0, 0, 0, // call rel32
            0xEB, 6, // jmp rel8, short form
            0x68, 0xE0, 0xC3, 0x40, 0, // push imm32
            0xC3, 0xC3, // ret; ret
        ]
    );
    assert_eq!(function.slot_offsets(), &vec![1]);
    let patched = function.apply_templates(&vec![0x123456]).unwrap();
    assert_eq!(&patched.as_bytes()[1..5], [0x56, 0x34, 0x12, 0]);
    assert_eq!(&patched.as_bytes()[5..], &function.as_bytes()[5..]);
}
