//! The parser: from a flat token sequence of the assembly dialect to an
//! ordered sequence of instructions.
//!
//! Statements are semicolon-terminated; stray semicolons between statements
//! are skipped.  Each instruction's shape is fixed by its leading mnemonic.
//! A `$` before an immediate or a bracketed absolute address marks the
//! operand as a template slot.  Any unknown mnemonic or register, missing
//! punctuation, out-of-range literal or premature end fails the whole parse
//! at once: no partial instruction sequence is ever produced.

use vstd::prelude::*;
use crate::asm_x86::{AsmCode, Dst, DstSrc, Flag, Src, EAX, EBP, EBX, ECX, EDI, EDX, ESI, ESP};

verus! {

/// One lexical token of the dialect: an identifier (mnemonic or register
/// name), a non-negative integer literal, or one of the punctuation marks
/// `, ; + [ ] $`.
#[derive(Clone, Debug)]
pub enum Token {
    Ident(Vec<u8>),
    Int(u32),
    Punct(char),
}

/// Why a token sequence is rejected.
#[derive(Clone, Copy, Debug, PartialEq, Eq, Structural)]
pub enum ParseError {
    /// The statement starts with an identifier that is no known mnemonic.
    UnknownMnemonic,
    /// An identifier stands where a register is required, but names none.
    UnknownRegister,
    /// A two-operand instruction lacks the comma between its operands.
    ExpectedComma,
    /// A statement is not terminated by a semicolon.
    ExpectedSemicolon,
    /// A bracketed operand is not closed by `]`.
    ExpectedCloseBracket,
    /// A token stands where the grammar allows none such.
    UnexpectedToken,
    /// The token sequence ends in the middle of a statement.
    UnexpectedEnd,
    /// An integer literal does not fit the operand it stands for.
    LiteralOutOfRange,
}

/// ASCII lower-casing of one byte.
pub open spec fn spec_lower(b: u8) -> u8 {
    if 65 <= b && b <= 90 {
        (b + 32) as u8
    } else {
        b
    }
}

/// ASCII lower-casing of an identifier.
pub open spec fn spec_lower_seq(s: Seq<u8>) -> Seq<u8> {
    s.map_values(|b: u8| spec_lower(b))
}

/// The bytes are exactly the three given ones.
pub open spec fn is3(s: Seq<u8>, a: u8, b: u8, c: u8) -> bool {
    s.len() == 3 && s[0] == a && s[1] == b && s[2] == c
}

/// The bytes are exactly the four given ones.
pub open spec fn is4(s: Seq<u8>, a: u8, b: u8, c: u8, d: u8) -> bool {
    s.len() == 4 && s[0] == a && s[1] == b && s[2] == c && s[3] == d
}

/// The register code of a register name, compared case-insensitively, or
/// nothing when the identifier names no register.
pub open spec fn spec_reg_code(name: Seq<u8>) -> Option<u8> {
    let l = spec_lower_seq(name);
    if is3(l, 'e' as u8, 'a' as u8, 'x' as u8) {
        Some(EAX)
    } else if is3(l, 'e' as u8, 'c' as u8, 'x' as u8) {
        Some(ECX)
    } else if is3(l, 'e' as u8, 'd' as u8, 'x' as u8) {
        Some(EDX)
    } else if is3(l, 'e' as u8, 'b' as u8, 'x' as u8) {
        Some(EBX)
    } else if is3(l, 'e' as u8, 's' as u8, 'p' as u8) {
        Some(ESP)
    } else if is3(l, 'e' as u8, 'b' as u8, 'p' as u8) {
        Some(EBP)
    } else if is3(l, 'e' as u8, 's' as u8, 'i' as u8) {
        Some(ESI)
    } else if is3(l, 'e' as u8, 'd' as u8, 'i' as u8) {
        Some(EDI)
    } else {
        None
    }
}

/// The token is the given punctuation mark.
pub open spec fn is_punct(t: Token, c: char) -> bool {
    match t {
        Token::Punct(p) => p == c,
        _ => false,
    }
}

/// What a bracketed operand denotes: a base register with a signed
/// displacement, or an absolute address.
#[derive(Clone, Copy, Debug, PartialEq, Eq, Structural)]
pub enum MemRef {
    Base(u8, i8),
    Abs(u32),
}

/// Parse the inside of a bracketed operand, `i` standing just after the
/// opening bracket: `reg ]`, `reg + disp8 ]`, or `addr32 ]`.
pub open spec fn spec_parse_bracket(toks: Seq<Token>, i: int) -> Result<(MemRef, int), ParseError> {
    if i < 0 || i >= toks.len() {
        Err(ParseError::UnexpectedEnd)
    } else {
        match toks[i] {
            Token::Ident(name) => match spec_reg_code(name@) {
                Some(reg) => if i + 1 >= toks.len() {
                    Err(ParseError::UnexpectedEnd)
                } else if is_punct(toks[i + 1], ']') {
                    Ok((MemRef::Base(reg, 0), i + 2))
                } else if is_punct(toks[i + 1], '+') {
                    if i + 2 >= toks.len() {
                        Err(ParseError::UnexpectedEnd)
                    } else {
                        match toks[i + 2] {
                            Token::Int(v) => if v <= 127 {
                                if i + 3 >= toks.len() {
                                    Err(ParseError::UnexpectedEnd)
                                } else if is_punct(toks[i + 3], ']') {
                                    Ok((MemRef::Base(reg, v as i8), i + 4))
                                } else {
                                    Err(ParseError::ExpectedCloseBracket)
                                }
                            } else {
                                Err(ParseError::LiteralOutOfRange)
                            },
                            _ => Err(ParseError::UnexpectedToken),
                        }
                    }
                } else {
                    Err(ParseError::ExpectedCloseBracket)
                },
                None => Err(ParseError::UnknownRegister),
            },
            Token::Int(v) => if i + 1 >= toks.len() {
                Err(ParseError::UnexpectedEnd)
            } else if is_punct(toks[i + 1], ']') {
                Ok((MemRef::Abs(v), i + 2))
            } else {
                Err(ParseError::ExpectedCloseBracket)
            },
            _ => Err(ParseError::UnexpectedToken),
        }
    }
}

/// Parse a destination operand at `i`: a register or a bracketed operand.
/// Destinations are never templated.
pub open spec fn spec_parse_dst(toks: Seq<Token>, i: int) -> Result<(Dst, int), ParseError> {
    if i < 0 || i >= toks.len() {
        Err(ParseError::UnexpectedEnd)
    } else {
        match toks[i] {
            Token::Ident(name) => match spec_reg_code(name@) {
                Some(reg) => Ok((Dst::Reg(reg), i + 1)),
                None => Err(ParseError::UnknownRegister),
            },
            Token::Punct(p) => if p == '[' {
                match spec_parse_bracket(toks, i + 1) {
                    Err(e) => Err(e),
                    Ok((MemRef::Base(reg, disp), j)) => Ok((Dst::Offset(reg, disp), j)),
                    Ok((MemRef::Abs(address), j)) => Ok((Dst::Address(address, Flag::NotTemplate), j)),
                }
            } else {
                Err(ParseError::UnexpectedToken)
            },
            _ => Err(ParseError::UnexpectedToken),
        }
    }
}

/// Parse a source operand at `i`: a register, an immediate, a bracketed
/// operand, or a `$`-marked templatable immediate or absolute address.
pub open spec fn spec_parse_src(toks: Seq<Token>, i: int) -> Result<(Src, int), ParseError> {
    if i < 0 || i >= toks.len() {
        Err(ParseError::UnexpectedEnd)
    } else {
        match toks[i] {
            Token::Ident(name) => match spec_reg_code(name@) {
                Some(reg) => Ok((Src::Reg(reg), i + 1)),
                None => Err(ParseError::UnknownRegister),
            },
            Token::Int(v) => if v <= 0x7FFF_FFFF {
                Ok((Src::Immediate(v as i32, Flag::NotTemplate), i + 1))
            } else {
                Err(ParseError::LiteralOutOfRange)
            },
            Token::Punct(p) => if p == '[' {
                match spec_parse_bracket(toks, i + 1) {
                    Err(e) => Err(e),
                    Ok((MemRef::Base(reg, disp), j)) => Ok((Src::Offset(reg, disp), j)),
                    Ok((MemRef::Abs(address), j)) => Ok((Src::Address(address, Flag::NotTemplate), j)),
                }
            } else if p == '$' {
                if i + 1 >= toks.len() {
                    Err(ParseError::UnexpectedEnd)
                } else {
                    match toks[i + 1] {
                        Token::Int(v) => if v <= 0x7FFF_FFFF {
                            Ok((Src::Immediate(v as i32, Flag::Template), i + 2))
                        } else {
                            Err(ParseError::LiteralOutOfRange)
                        },
                        Token::Punct(q) => if q == '[' {
                            match spec_parse_bracket(toks, i + 2) {
                                Err(e) => Err(e),
                                Ok((MemRef::Abs(address), j)) => Ok(
                                    (Src::Address(address, Flag::Template), j),
                                ),
                                Ok((MemRef::Base(_, _), _)) => Err(ParseError::UnexpectedToken),
                            }
                        } else {
                            Err(ParseError::UnexpectedToken)
                        },
                        _ => Err(ParseError::UnexpectedToken),
                    }
                }
            } else {
                Err(ParseError::UnexpectedToken)
            },
        }
    }
}

/// Parse the `dst , src` operand pair of a two-operand instruction.
pub open spec fn spec_parse_dst_src(toks: Seq<Token>, i: int) -> Result<(DstSrc, int), ParseError> {
    match spec_parse_dst(toks, i) {
        Err(e) => Err(e),
        Ok((d, j)) => if j >= toks.len() || !is_punct(toks[j], ',') {
            Err(ParseError::ExpectedComma)
        } else {
            match spec_parse_src(toks, j + 1) {
                Err(e) => Err(e),
                Ok((s, k)) => Ok((DstSrc(d, s), k)),
            }
        },
    }
}

/// Parse one statement at `i`, which must not stand on a semicolon: the
/// mnemonic, matched case-insensitively, fixes the operand shape.
pub open spec fn spec_parse_instruction(toks: Seq<Token>, i: int) -> Result<
    (AsmCode, int),
    ParseError,
> {
    if i < 0 || i >= toks.len() {
        Err(ParseError::UnexpectedEnd)
    } else {
        match toks[i] {
            Token::Ident(name) => {
                let l = spec_lower_seq(name@);
                if is3(l, 'm' as u8, 'o' as u8, 'v' as u8) {
                    match spec_parse_dst_src(toks, i + 1) {
                        Err(e) => Err(e),
                        Ok((ds, j)) => Ok((AsmCode::Mov(ds), j)),
                    }
                } else if is3(l, 'a' as u8, 'd' as u8, 'd' as u8) {
                    match spec_parse_dst_src(toks, i + 1) {
                        Err(e) => Err(e),
                        Ok((ds, j)) => Ok((AsmCode::Add(ds), j)),
                    }
                } else if is3(l, 's' as u8, 'u' as u8, 'b' as u8) {
                    match spec_parse_dst_src(toks, i + 1) {
                        Err(e) => Err(e),
                        Ok((ds, j)) => Ok((AsmCode::Sub(ds), j)),
                    }
                } else if is3(l, 's' as u8, 'h' as u8, 'l' as u8) {
                    match spec_parse_dst_src(toks, i + 1) {
                        Err(e) => Err(e),
                        Ok((ds, j)) => Ok((AsmCode::Shl(ds), j)),
                    }
                } else if is3(l, 's' as u8, 'h' as u8, 'r' as u8) {
                    match spec_parse_dst_src(toks, i + 1) {
                        Err(e) => Err(e),
                        Ok((ds, j)) => Ok((AsmCode::Shr(ds), j)),
                    }
                } else if is4(l, 'p' as u8, 'u' as u8, 's' as u8, 'h' as u8) {
                    match spec_parse_src(toks, i + 1) {
                        Err(e) => Err(e),
                        Ok((s, j)) => Ok((AsmCode::Push(s), j)),
                    }
                } else if is3(l, 'p' as u8, 'o' as u8, 'p' as u8) {
                    match spec_parse_dst(toks, i + 1) {
                        Err(e) => Err(e),
                        Ok((d, j)) => Ok((AsmCode::Pop(d), j)),
                    }
                } else if is4(l, 'c' as u8, 'a' as u8, 'l' as u8, 'l' as u8) {
                    match spec_parse_src(toks, i + 1) {
                        Err(e) => Err(e),
                        Ok((s, j)) => Ok((AsmCode::Call(s), j)),
                    }
                } else if is3(l, 'r' as u8, 'e' as u8, 't' as u8) {
                    Ok((AsmCode::Ret, i + 1))
                } else if is3(l, 'j' as u8, 'm' as u8, 'p' as u8) {
                    match spec_parse_src(toks, i + 1) {
                        Err(e) => Err(e),
                        Ok((s, j)) => Ok((AsmCode::Jmp(s), j)),
                    }
                } else if is3(l, 'n' as u8, 'o' as u8, 'p' as u8) {
                    Ok((AsmCode::Nop, i + 1))
                } else {
                    Err(ParseError::UnknownMnemonic)
                }
            },
            _ => Err(ParseError::UnexpectedToken),
        }
    }
}

proof fn lemma_parse_bracket_bounds(toks: Seq<Token>, i: int)
    ensures
        spec_parse_bracket(toks, i) is Ok ==> i < spec_parse_bracket(toks, i)->Ok_0.1
            <= toks.len(),
{
}

proof fn lemma_parse_dst_bounds(toks: Seq<Token>, i: int)
    ensures
        spec_parse_dst(toks, i) is Ok ==> i < spec_parse_dst(toks, i)->Ok_0.1 <= toks.len(),
{
    lemma_parse_bracket_bounds(toks, i + 1);
}

proof fn lemma_parse_src_bounds(toks: Seq<Token>, i: int)
    ensures
        spec_parse_src(toks, i) is Ok ==> i < spec_parse_src(toks, i)->Ok_0.1 <= toks.len(),
{
    lemma_parse_bracket_bounds(toks, i + 1);
    lemma_parse_bracket_bounds(toks, i + 2);
}

proof fn lemma_parse_dst_src_bounds(toks: Seq<Token>, i: int)
    ensures
        spec_parse_dst_src(toks, i) is Ok ==> i < spec_parse_dst_src(toks, i)->Ok_0.1
            <= toks.len(),
{
    lemma_parse_dst_bounds(toks, i);
    if spec_parse_dst(toks, i) is Ok {
        let j = spec_parse_dst(toks, i)->Ok_0.1;
        lemma_parse_src_bounds(toks, j + 1);
    }
}

proof fn lemma_parse_instruction_bounds(toks: Seq<Token>, i: int)
    ensures
        spec_parse_instruction(toks, i) is Ok ==> i < spec_parse_instruction(toks, i)->Ok_0.1
            <= toks.len(),
{
    lemma_parse_dst_src_bounds(toks, i + 1);
    lemma_parse_dst_bounds(toks, i + 1);
    lemma_parse_src_bounds(toks, i + 1);
}

/// Parse a whole program from position `i` on: statements separated and
/// terminated by semicolons, stray semicolons skipped, the first offending
/// token failing the whole parse.
pub open spec fn spec_parse(toks: Seq<Token>, i: int) -> Result<Seq<AsmCode>, ParseError>
    decreases toks.len() - i,
    via spec_parse_decreases
{
    if i < 0 || i >= toks.len() {
        Ok(Seq::<AsmCode>::empty())
    } else if is_punct(toks[i], ';') {
        spec_parse(toks, i + 1)
    } else {
        match spec_parse_instruction(toks, i) {
            Err(e) => Err(e),
            Ok((c, j)) => if j < toks.len() && is_punct(toks[j], ';') {
                match spec_parse(toks, j + 1) {
                    Err(e) => Err(e),
                    Ok(rest) => Ok(seq![c] + rest),
                }
            } else {
                Err(ParseError::ExpectedSemicolon)
            },
        }
    }
}

#[via_fn]
proof fn spec_parse_decreases(toks: Seq<Token>, i: int) {
    if 0 <= i && i < toks.len() && !is_punct(toks[i], ';') {
        lemma_parse_instruction_bounds(toks, i);
    }
}

/// A destination operand carries no template flag.
pub open spec fn dst_not_templated(d: Dst) -> bool {
    match d {
        Dst::Address(_, flag) => flag is NotTemplate,
        _ => true,
    }
}

/// The instruction's destination operand, if it has one, is not templated.
pub open spec fn dsts_not_templated(c: AsmCode) -> bool {
    match c {
        AsmCode::Mov(DstSrc(d, _)) => dst_not_templated(d),
        AsmCode::Add(DstSrc(d, _)) => dst_not_templated(d),
        AsmCode::Sub(DstSrc(d, _)) => dst_not_templated(d),
        AsmCode::Shl(DstSrc(d, _)) => dst_not_templated(d),
        AsmCode::Shr(DstSrc(d, _)) => dst_not_templated(d),
        AsmCode::Pop(d) => dst_not_templated(d),
        _ => true,
    }
}

proof fn lemma_parse_dst_not_templated(toks: Seq<Token>, i: int)
    ensures
        spec_parse_dst(toks, i) is Ok ==> dst_not_templated(spec_parse_dst(toks, i)->Ok_0.0),
{
}

proof fn lemma_parse_instruction_dsts(toks: Seq<Token>, i: int)
    ensures
        spec_parse_instruction(toks, i) is Ok ==> dsts_not_templated(
            spec_parse_instruction(toks, i)->Ok_0.0,
        ),
{
    lemma_parse_dst_not_templated(toks, i + 1);
}

/// Law: the parser never produces a templated destination operand.  Only
/// immediates and absolute addresses in source position can be marked as
/// template slots.
pub proof fn lemma_parse_no_templated_destination(toks: Seq<Token>, i: int)
    ensures
        spec_parse(toks, i) is Ok ==> forall|k: int|
            0 <= k < spec_parse(toks, i)->Ok_0.len() ==> dsts_not_templated(
                #[trigger] spec_parse(toks, i)->Ok_0[k],
            ),
    decreases toks.len() - i,
{
    if i < 0 || i >= toks.len() {
    } else if is_punct(toks[i], ';') {
        lemma_parse_no_templated_destination(toks, i + 1);
    } else {
        match spec_parse_instruction(toks, i) {
            Err(_) => {},
            Ok((c, j)) => {
                lemma_parse_instruction_bounds(toks, i);
                lemma_parse_instruction_dsts(toks, i);
                if j < toks.len() && is_punct(toks[j], ';') {
                    lemma_parse_no_templated_destination(toks, j + 1);
                    let rest = spec_parse(toks, j + 1);
                    if rest is Ok {
                        assert forall|k: int| 0 <= k < spec_parse(toks, i)->Ok_0.len() implies
                            dsts_not_templated(#[trigger] spec_parse(toks, i)->Ok_0[k]) by {
                            if k > 0 {
                                assert(spec_parse(toks, i)->Ok_0[k] == rest->Ok_0[k - 1]);
                            }
                        }
                    }
                }
            },
        }
    }
}

fn lower_byte(b: u8) -> (r: u8)
    ensures
        r == spec_lower(b),
{
    if b >= 65 && b <= 90 {
        b + 32
    } else {
        b
    }
}

fn lower_ident(name: &Vec<u8>) -> (r: Vec<u8>)
    ensures
        r@ == spec_lower_seq(name@),
{
    let mut r: Vec<u8> = Vec::new();
    let mut i: usize = 0;
    while i < name.len()
        invariant
            i <= name@.len(),
            r@.len() == i,
            forall|k: int| 0 <= k < i ==> r@[k] == spec_lower(name@[k]),
        decreases name@.len() - i,
    {
        r.push(lower_byte(name[i]));
        i = i + 1;
    }
    assert(r@ =~= spec_lower_seq(name@));
    r
}

fn eq3(s: &Vec<u8>, a: u8, b: u8, c: u8) -> (r: bool)
    ensures
        r == is3(s@, a, b, c),
{
    if s.len() != 3 {
        false
    } else {
        s[0] == a && s[1] == b && s[2] == c
    }
}

fn eq4(s: &Vec<u8>, a: u8, b: u8, c: u8, d: u8) -> (r: bool)
    ensures
        r == is4(s@, a, b, c, d),
{
    if s.len() != 4 {
        false
    } else {
        s[0] == a && s[1] == b && s[2] == c && s[3] == d
    }
}

fn parse_reg(name: &Vec<u8>) -> (r: Result<u8, ParseError>)
    ensures
        match spec_reg_code(name@) {
            Some(code) => r == Ok::<u8, ParseError>(code),
            None => r == Err::<u8, ParseError>(ParseError::UnknownRegister),
        },
{
    let l = lower_ident(name);
    if eq3(&l, 'e' as u8, 'a' as u8, 'x' as u8) {
        Ok(EAX)
    } else if eq3(&l, 'e' as u8, 'c' as u8, 'x' as u8) {
        Ok(ECX)
    } else if eq3(&l, 'e' as u8, 'd' as u8, 'x' as u8) {
        Ok(EDX)
    } else if eq3(&l, 'e' as u8, 'b' as u8, 'x' as u8) {
        Ok(EBX)
    } else if eq3(&l, 'e' as u8, 's' as u8, 'p' as u8) {
        Ok(ESP)
    } else if eq3(&l, 'e' as u8, 'b' as u8, 'p' as u8) {
        Ok(EBP)
    } else if eq3(&l, 'e' as u8, 's' as u8, 'i' as u8) {
        Ok(ESI)
    } else if eq3(&l, 'e' as u8, 'd' as u8, 'i' as u8) {
        Ok(EDI)
    } else {
        Err(ParseError::UnknownRegister)
    }
}

fn is_punct_at(toks: &Vec<Token>, j: usize, c: char) -> (r: bool)
    requires
        j < toks@.len(),
    ensures
        r == is_punct(toks@[j as int], c),
{
    match &toks[j] {
        Token::Punct(p) => *p == c,
        _ => false,
    }
}

fn parse_bracket(toks: &Vec<Token>, i: usize) -> (r: Result<(MemRef, usize), ParseError>)
    ensures
        match r {
            Ok((m, j)) => spec_parse_bracket(toks@, i as int) == Ok::<(MemRef, int), ParseError>(
                (m, j as int),
            ) && i < j <= toks@.len(),
            Err(e) => spec_parse_bracket(toks@, i as int) == Err::<(MemRef, int), ParseError>(e),
        },
{
    if i >= toks.len() {
        return Err(ParseError::UnexpectedEnd);
    }
    match &toks[i] {
        Token::Ident(name) => {
            match parse_reg(name) {
                Err(e) => Err(e),
                Ok(reg) => {
                    if i + 1 >= toks.len() {
                        Err(ParseError::UnexpectedEnd)
                    } else if is_punct_at(toks, i + 1, ']') {
                        Ok((MemRef::Base(reg, 0), i + 2))
                    } else if is_punct_at(toks, i + 1, '+') {
                        if i + 2 >= toks.len() {
                            Err(ParseError::UnexpectedEnd)
                        } else {
                            match &toks[i + 2] {
                                Token::Int(v) => {
                                    let v: u32 = *v;
                                    if v <= 127 {
                                        if i + 3 >= toks.len() {
                                            Err(ParseError::UnexpectedEnd)
                                        } else if is_punct_at(toks, i + 3, ']') {
                                            Ok((MemRef::Base(reg, v as i8), i + 4))
                                        } else {
                                            Err(ParseError::ExpectedCloseBracket)
                                        }
                                    } else {
                                        Err(ParseError::LiteralOutOfRange)
                                    }
                                },
                                _ => Err(ParseError::UnexpectedToken),
                            }
                        }
                    } else {
                        Err(ParseError::ExpectedCloseBracket)
                    }
                },
            }
        },
        Token::Int(v) => {
            let v: u32 = *v;
            if i + 1 >= toks.len() {
                Err(ParseError::UnexpectedEnd)
            } else if is_punct_at(toks, i + 1, ']') {
                Ok((MemRef::Abs(v), i + 2))
            } else {
                Err(ParseError::ExpectedCloseBracket)
            }
        },
        _ => Err(ParseError::UnexpectedToken),
    }
}

fn parse_dst(toks: &Vec<Token>, i: usize) -> (r: Result<(Dst, usize), ParseError>)
    ensures
        match r {
            Ok((d, j)) => spec_parse_dst(toks@, i as int) == Ok::<(Dst, int), ParseError>(
                (d, j as int),
            ) && i < j <= toks@.len(),
            Err(e) => spec_parse_dst(toks@, i as int) == Err::<(Dst, int), ParseError>(e),
        },
{
    if i >= toks.len() {
        return Err(ParseError::UnexpectedEnd);
    }
    match &toks[i] {
        Token::Ident(name) => match parse_reg(name) {
            Ok(reg) => Ok((Dst::Reg(reg), i + 1)),
            Err(e) => Err(e),
        },
        Token::Punct(p) => {
            if *p == '[' {
                match parse_bracket(toks, i + 1) {
                    Err(e) => Err(e),
                    Ok((MemRef::Base(reg, disp), j)) => Ok((Dst::Offset(reg, disp), j)),
                    Ok((MemRef::Abs(address), j)) => Ok(
                        (Dst::Address(address, Flag::NotTemplate), j),
                    ),
                }
            } else {
                Err(ParseError::UnexpectedToken)
            }
        },
        _ => Err(ParseError::UnexpectedToken),
    }
}

fn parse_src(toks: &Vec<Token>, i: usize) -> (r: Result<(Src, usize), ParseError>)
    ensures
        match r {
            Ok((s, j)) => spec_parse_src(toks@, i as int) == Ok::<(Src, int), ParseError>(
                (s, j as int),
            ) && i < j <= toks@.len(),
            Err(e) => spec_parse_src(toks@, i as int) == Err::<(Src, int), ParseError>(e),
        },
{
    if i >= toks.len() {
        return Err(ParseError::UnexpectedEnd);
    }
    match &toks[i] {
        Token::Ident(name) => match parse_reg(name) {
            Ok(reg) => Ok((Src::Reg(reg), i + 1)),
            Err(e) => Err(e),
        },
        Token::Int(v) => {
            let v: u32 = *v;
            if v <= 0x7FFF_FFFF {
                Ok((Src::Immediate(v as i32, Flag::NotTemplate), i + 1))
            } else {
                Err(ParseError::LiteralOutOfRange)
            }
        },
        Token::Punct(p) => {
            let p: char = *p;
            if p == '[' {
                match parse_bracket(toks, i + 1) {
                    Err(e) => Err(e),
                    Ok((MemRef::Base(reg, disp), j)) => Ok((Src::Offset(reg, disp), j)),
                    Ok((MemRef::Abs(address), j)) => Ok(
                        (Src::Address(address, Flag::NotTemplate), j),
                    ),
                }
            } else if p == '$' {
                if i + 1 >= toks.len() {
                    return Err(ParseError::UnexpectedEnd);
                }
                match &toks[i + 1] {
                    Token::Int(v) => {
                        let v: u32 = *v;
                        if v <= 0x7FFF_FFFF {
                            Ok((Src::Immediate(v as i32, Flag::Template), i + 2))
                        } else {
                            Err(ParseError::LiteralOutOfRange)
                        }
                    },
                    Token::Punct(q) => {
                        if *q == '[' {
                            match parse_bracket(toks, i + 2) {
                                Err(e) => Err(e),
                                Ok((MemRef::Abs(address), j)) => Ok(
                                    (Src::Address(address, Flag::Template), j),
                                ),
                                Ok((MemRef::Base(_, _), _)) => Err(ParseError::UnexpectedToken),
                            }
                        } else {
                            Err(ParseError::UnexpectedToken)
                        }
                    },
                    _ => Err(ParseError::UnexpectedToken),
                }
            } else {
                Err(ParseError::UnexpectedToken)
            }
        },
    }
}

fn parse_dst_src(toks: &Vec<Token>, i: usize) -> (r: Result<(DstSrc, usize), ParseError>)
    ensures
        match r {
            Ok((ds, j)) => spec_parse_dst_src(toks@, i as int) == Ok::<(DstSrc, int), ParseError>(
                (ds, j as int),
            ) && i < j <= toks@.len(),
            Err(e) => spec_parse_dst_src(toks@, i as int) == Err::<(DstSrc, int), ParseError>(e),
        },
{
    match parse_dst(toks, i) {
        Err(e) => Err(e),
        Ok((d, j)) => {
            if j < toks.len() && is_punct_at(toks, j, ',') {
                match parse_src(toks, j + 1) {
                    Err(e) => Err(e),
                    Ok((s, k)) => Ok((DstSrc(d, s), k)),
                }
            } else {
                Err(ParseError::ExpectedComma)
            }
        },
    }
}

fn parse_instruction(toks: &Vec<Token>, i: usize) -> (r: Result<(AsmCode, usize), ParseError>)
    ensures
        match r {
            Ok((c, j)) => spec_parse_instruction(toks@, i as int) == Ok::<
                (AsmCode, int),
                ParseError,
            >((c, j as int)) && i < j <= toks@.len(),
            Err(e) => spec_parse_instruction(toks@, i as int) == Err::<(AsmCode, int), ParseError>(
                e,
            ),
        },
{
    if i >= toks.len() {
        return Err(ParseError::UnexpectedEnd);
    }
    match &toks[i] {
        Token::Ident(name) => {
            let l = lower_ident(name);
            if eq3(&l, 'm' as u8, 'o' as u8, 'v' as u8) {
                match parse_dst_src(toks, i + 1) {
                    Err(e) => Err(e),
                    Ok((ds, j)) => Ok((AsmCode::Mov(ds), j)),
                }
            } else if eq3(&l, 'a' as u8, 'd' as u8, 'd' as u8) {
                match parse_dst_src(toks, i + 1) {
                    Err(e) => Err(e),
                    Ok((ds, j)) => Ok((AsmCode::Add(ds), j)),
                }
            } else if eq3(&l, 's' as u8, 'u' as u8, 'b' as u8) {
                match parse_dst_src(toks, i + 1) {
                    Err(e) => Err(e),
                    Ok((ds, j)) => Ok((AsmCode::Sub(ds), j)),
                }
            } else if eq3(&l, 's' as u8, 'h' as u8, 'l' as u8) {
                match parse_dst_src(toks, i + 1) {
                    Err(e) => Err(e),
                    Ok((ds, j)) => Ok((AsmCode::Shl(ds), j)),
                }
            } else if eq3(&l, 's' as u8, 'h' as u8, 'r' as u8) {
                match parse_dst_src(toks, i + 1) {
                    Err(e) => Err(e),
                    Ok((ds, j)) => Ok((AsmCode::Shr(ds), j)),
                }
            } else if eq4(&l, 'p' as u8, 'u' as u8, 's' as u8, 'h' as u8) {
                match parse_src(toks, i + 1) {
                    Err(e) => Err(e),
                    Ok((s, j)) => Ok((AsmCode::Push(s), j)),
                }
            } else if eq3(&l, 'p' as u8, 'o' as u8, 'p' as u8) {
                match parse_dst(toks, i + 1) {
                    Err(e) => Err(e),
                    Ok((d, j)) => Ok((AsmCode::Pop(d), j)),
                }
            } else if eq4(&l, 'c' as u8, 'a' as u8, 'l' as u8, 'l' as u8) {
                match parse_src(toks, i + 1) {
                    Err(e) => Err(e),
                    Ok((s, j)) => Ok((AsmCode::Call(s), j)),
                }
            } else if eq3(&l, 'r' as u8, 'e' as u8, 't' as u8) {
                Ok((AsmCode::Ret, i + 1))
            } else if eq3(&l, 'j' as u8, 'm' as u8, 'p' as u8) {
                match parse_src(toks, i + 1) {
                    Err(e) => Err(e),
                    Ok((s, j)) => Ok((AsmCode::Jmp(s), j)),
                }
            } else if eq3(&l, 'n' as u8, 'o' as u8, 'p' as u8) {
                Ok((AsmCode::Nop, i + 1))
            } else {
                Err(ParseError::UnknownMnemonic)
            }
        },
        _ => Err(ParseError::UnexpectedToken),
    }
}

/// Parse a whole program: semicolon-terminated statements, stray
/// semicolons skipped.  On success the result holds every instruction in
/// source order; the first offending token fails the parse with no partial
/// output, exactly as the grammar (`spec_parse`) states.
pub fn parse(tokens: &Vec<Token>) -> (r: Result<Vec<AsmCode>, ParseError>)
    ensures
        r is Ok <==> spec_parse(tokens@, 0) is Ok,
        r is Ok ==> r->Ok_0@ == spec_parse(tokens@, 0)->Ok_0,
        r is Err ==> spec_parse(tokens@, 0) == Err::<Seq<AsmCode>, ParseError>(r->Err_0),
{
    let mut out: Vec<AsmCode> = Vec::new();
    let mut i: usize = 0;
    while i < tokens.len()
        invariant
            i <= tokens@.len(),
            spec_parse(tokens@, i as int) is Ok ==> spec_parse(tokens@, 0) is Ok && spec_parse(
                tokens@,
                0,
            )->Ok_0 == out@ + spec_parse(tokens@, i as int)->Ok_0,
            spec_parse(tokens@, i as int) is Err ==> spec_parse(tokens@, 0) == spec_parse(
                tokens@,
                i as int,
            ),
        decreases tokens@.len() - i,
    {
        if is_punct_at(tokens, i, ';') {
            i = i + 1;
        } else {
            match parse_instruction(tokens, i) {
                Err(e) => {
                    return Err(e);
                },
                Ok((c, j)) => {
                    if j < tokens.len() && is_punct_at(tokens, j, ';') {
                        proof {
                            let t = tokens@;
                            let io = i as int;
                            let jn = j as int + 1;
                            if spec_parse(t, jn) is Ok {
                                let rest = spec_parse(t, jn)->Ok_0;
                                assert(spec_parse(t, io) == Ok::<Seq<AsmCode>, ParseError>(
                                    seq![c] + rest,
                                ));
                                assert((out@ + seq![c]) + rest =~= out@ + (seq![c] + rest));
                            }
                        }
                        let ghost prev_out = out@;
                        out.push(c);
                        assert(out@ =~= prev_out + seq![c]);
                        i = j + 1;
                    } else {
                        return Err(ParseError::ExpectedSemicolon);
                    }
                },
            }
        }
    }
    assert(out@ + Seq::<AsmCode>::empty() =~= out@);
    Ok(out)
}

} // verus!
