//! A one-instruction disassembler: renders the 2-byte instruction at hand
//! in the mnemonic form the debugger displays.  Undefined instructions
//! render as `XXXX` followed by their four hex digits.

use vstd::prelude::*;
use vstd::string::StringExecFns;
use crate::chip8::exec_err;
use crate::chip8::get_nnn;
use crate::chip8::spec_nnn;
use crate::chip8::Chip8;
use crate::chip8::ChipError;
use crate::hexfmt::hex_char;
use crate::hexfmt::hex2_seq;
use crate::hexfmt::hex3_seq;
use crate::hexfmt::hex_digit_str;
use crate::hexfmt::push_hex2;
use crate::hexfmt::push_hex3;

verus! {

/// The rendering of an instruction that matches no defined opcode.
pub open spec fn unknown_seq(b1: u8, b2: u8) -> Seq<char> {
    "XXXX "@ + hex2_seq(b1) + hex2_seq(b2)
}

/// A mnemonic with one register operand and one byte immediate.
pub open spec fn reg_imm_seq(op: Seq<char>, x: int, b2: u8) -> Seq<char> {
    op + seq![hex_char(x)] + ",  0x"@ + hex2_seq(b2)
}

/// A mnemonic with two register operands.
pub open spec fn reg_reg_seq(op: Seq<char>, x: int, y: int) -> Seq<char> {
    op + seq![hex_char(x)] + ",  V"@ + seq![hex_char(y)]
}

/// A shift mnemonic: the second register is displayed in angle brackets.
pub open spec fn shift_seq(op: Seq<char>, x: int, y: int) -> Seq<char> {
    op + seq![hex_char(x)] + ",  <V"@ + seq![hex_char(y)] + ">"@
}

/// The mnemonic rendering of the instruction `b1 b2`.
pub open spec fn spec_translate(b1: u8, b2: u8) -> Seq<char> {
    let top = b1 >> 4;
    let x = (b1 & 0x0F) as int;
    let y = (b2 >> 4) as int;
    let sub = b2 & 0x0F;
    let nnn = spec_nnn(b1, b2);
    if top == 0x0 {
        if b2 == 0xE0 {
            "CLS"@
        } else if b2 == 0xEE {
            "RET"@
        } else {
            unknown_seq(b1, b2)
        }
    } else if top == 0x1 {
        "JP   0x"@ + hex3_seq(nnn)
    } else if top == 0x2 {
        "CALL 0x"@ + hex3_seq(nnn)
    } else if top == 0x3 {
        reg_imm_seq("SE   V"@, x, b2)
    } else if top == 0x4 {
        reg_imm_seq("SNE  V"@, x, b2)
    } else if top == 0x5 {
        if sub == 0x0 {
            reg_reg_seq("SE   V"@, x, y)
        } else {
            unknown_seq(b1, b2)
        }
    } else if top == 0x6 {
        reg_imm_seq("LD   V"@, x, b2)
    } else if top == 0x7 {
        reg_imm_seq("ADD  V"@, x, b2)
    } else if top == 0x8 {
        if sub == 0x0 {
            reg_reg_seq("LD   V"@, x, y)
        } else if sub == 0x1 {
            reg_reg_seq("OR   V"@, x, y)
        } else if sub == 0x2 {
            reg_reg_seq("AND  V"@, x, y)
        } else if sub == 0x3 {
            reg_reg_seq("XOR  V"@, x, y)
        } else if sub == 0x4 {
            reg_reg_seq("ADD  V"@, x, y)
        } else if sub == 0x5 {
            reg_reg_seq("SUB  V"@, x, y)
        } else if sub == 0x6 {
            shift_seq("SHR  V"@, x, y)
        } else if sub == 0x7 {
            reg_reg_seq("SUBN V"@, x, y)
        } else if sub == 0xE {
            shift_seq("SHL  V"@, x, y)
        } else {
            unknown_seq(b1, b2)
        }
    } else if top == 0x9 {
        if sub == 0x0 {
            reg_reg_seq("SNE  V"@, x, y)
        } else {
            unknown_seq(b1, b2)
        }
    } else if top == 0xA {
        "LD   I,   0x"@ + hex3_seq(nnn)
    } else if top == 0xB {
        "JP   V0,  0x"@ + hex3_seq(nnn)
    } else if top == 0xC {
        reg_imm_seq("RND  V"@, x, b2)
    } else if top == 0xD {
        reg_reg_seq("DRW  V"@, x, y) + ",  0x"@ + seq![hex_char(sub as int)]
    } else if top == 0xE {
        if b2 == 0x9E {
            "SKP  V"@ + seq![hex_char(x)]
        } else if b2 == 0xA1 {
            "SKNP V"@ + seq![hex_char(x)]
        } else {
            unknown_seq(b1, b2)
        }
    } else if top == 0xF {
        if b2 == 0x07 {
            "LD   V"@ + seq![hex_char(x)] + ",  DT"@
        } else if b2 == 0x0A {
            "LD   V"@ + seq![hex_char(x)] + ",  K"@
        } else if b2 == 0x15 {
            "LD   DT,  V"@ + seq![hex_char(x)]
        } else if b2 == 0x18 {
            "LD   ST,  V"@ + seq![hex_char(x)]
        } else if b2 == 0x1E {
            "ADD  I,   V"@ + seq![hex_char(x)]
        } else if b2 == 0x29 {
            "LD   F,   V"@ + seq![hex_char(x)]
        } else if b2 == 0x33 {
            "LD   B,   V"@ + seq![hex_char(x)]
        } else if b2 == 0x55 {
            "LD   [I], V"@ + seq![hex_char(x)]
        } else if b2 == 0x65 {
            "LD   V"@ + seq![hex_char(x)] + ",  [I]"@
        } else {
            unknown_seq(b1, b2)
        }
    } else {
        unknown_seq(b1, b2)
    }
}

/// Law: the disassembler follows the engine's dispatch table byte for
/// byte.  An instruction renders as undefined (`XXXX` and its four hex
/// digits) exactly when executing it must fail with `BadOperationError`,
/// in every machine state.
pub proof fn lemma_translate_matches_dispatch(pre: Chip8, b1: u8, b2: u8)
    ensures
        (exec_err(pre, b1, b2) == Some(ChipError::BadOperationError(b1, b2))) <==> (spec_translate(
            b1,
            b2,
        ) == unknown_seq(b1, b2)),
{
    reveal_strlit("XXXX ");
    reveal_strlit("CLS");
    reveal_strlit("RET");
    reveal_strlit("JP   0x");
    reveal_strlit("CALL 0x");
    reveal_strlit("SE   V");
    reveal_strlit("SNE  V");
    reveal_strlit("LD   V");
    reveal_strlit("ADD  V");
    reveal_strlit("OR   V");
    reveal_strlit("AND  V");
    reveal_strlit("XOR  V");
    reveal_strlit("SUB  V");
    reveal_strlit("SHR  V");
    reveal_strlit("SUBN V");
    reveal_strlit("SHL  V");
    reveal_strlit("LD   I,   0x");
    reveal_strlit("JP   V0,  0x");
    reveal_strlit("RND  V");
    reveal_strlit("DRW  V");
    reveal_strlit("SKP  V");
    reveal_strlit("SKNP V");
    reveal_strlit("LD   DT,  V");
    reveal_strlit("LD   ST,  V");
    reveal_strlit("ADD  I,   V");
    reveal_strlit("LD   F,   V");
    reveal_strlit("LD   B,   V");
    reveal_strlit("LD   [I], V");
    reveal_strlit(",  0x");
    reveal_strlit(",  V");
    reveal_strlit(",  <V");
    reveal_strlit(">");
    reveal_strlit(",  DT");
    reveal_strlit(",  K");
    reveal_strlit(",  [I]");
    // The two dispatch chains test the same nibbles and bytes, so each
    // defined branch pairs with a non-error branch; the lengths separate
    // every defined rendering from the 9-character undefined one.
    assert(unknown_seq(b1, b2).len() == 9);
}

/// The `XXXX` rendering of an undefined instruction.
fn unknown(b1: u8, b2: u8) -> (r: String)
    ensures
        r@ == unknown_seq(b1, b2),
{
    let mut s = "XXXX ".to_owned();
    push_hex2(&mut s, b1);
    push_hex2(&mut s, b2);
    s
}

/// A mnemonic, one register operand and one byte immediate.
fn build_reg_imm(op: &str, x: u8, b2: u8) -> (r: String)
    requires
        x < 16,
    ensures
        r@ == reg_imm_seq(op@, x as int, b2),
{
    let mut s = op.to_owned();
    s.append(hex_digit_str(x));
    s.append(",  0x");
    push_hex2(&mut s, b2);
    s
}

/// A mnemonic and two register operands.
fn build_reg_reg(op: &str, x: u8, y: u8) -> (r: String)
    requires
        x < 16,
        y < 16,
    ensures
        r@ == reg_reg_seq(op@, x as int, y as int),
{
    let mut s = op.to_owned();
    s.append(hex_digit_str(x));
    s.append(",  V");
    s.append(hex_digit_str(y));
    s
}

/// A shift mnemonic, its second register in angle brackets.
fn build_shift(op: &str, x: u8, y: u8) -> (r: String)
    requires
        x < 16,
        y < 16,
    ensures
        r@ == shift_seq(op@, x as int, y as int),
{
    let mut s = op.to_owned();
    s.append(hex_digit_str(x));
    s.append(",  <V");
    s.append(hex_digit_str(y));
    s.append(">");
    s
}

/// A mnemonic followed by a three-digit address.
fn build_addr(op: &str, nnn: u16) -> (r: String)
    requires
        nnn < 0x1000,
    ensures
        r@ == op@ + hex3_seq(nnn),
{
    let mut s = op.to_owned();
    push_hex3(&mut s, nnn);
    s
}

/// A mnemonic followed by one register operand.
fn build_reg(op: &str, x: u8) -> (r: String)
    requires
        x < 16,
    ensures
        r@ == op@ + seq![hex_char(x as int)],
{
    let mut s = op.to_owned();
    s.append(hex_digit_str(x));
    s
}

/// A mnemonic, one register operand, and a fixed trailing operand.
fn build_reg_suffix(op: &str, x: u8, suffix: &str) -> (r: String)
    requires
        x < 16,
    ensures
        r@ == op@ + seq![hex_char(x as int)] + suffix@,
{
    let mut s = op.to_owned();
    s.append(hex_digit_str(x));
    s.append(suffix);
    s
}

/// Renders the instruction `b1 b2` as the mnemonic the debugger displays.
pub fn translate(b1: u8, b2: u8) -> (r: String)
    ensures
        r@ == spec_translate(b1, b2),
{
    let top = b1 >> 4;
    let x = b1 & 0x0F;
    let y = b2 >> 4;
    let sub = b2 & 0x0F;
    proof {
        assert(b1 >> 4 < 16 && b1 & 0x0F < 16 && b2 >> 4 < 16 && b2 & 0x0F < 16) by (bit_vector);
    }
    match top {
        0x0 => match b2 {
            0xE0 => "CLS".to_owned(),
            0xEE => "RET".to_owned(),
            _ => unknown(b1, b2),
        },
        0x1 => build_addr("JP   0x", get_nnn(b1, b2)),
        0x2 => build_addr("CALL 0x", get_nnn(b1, b2)),
        0x3 => build_reg_imm("SE   V", x, b2),
        0x4 => build_reg_imm("SNE  V", x, b2),
        0x5 => match sub {
            0x0 => build_reg_reg("SE   V", x, y),
            _ => unknown(b1, b2),
        },
        0x6 => build_reg_imm("LD   V", x, b2),
        0x7 => build_reg_imm("ADD  V", x, b2),
        0x8 => match sub {
            0x0 => build_reg_reg("LD   V", x, y),
            0x1 => build_reg_reg("OR   V", x, y),
            0x2 => build_reg_reg("AND  V", x, y),
            0x3 => build_reg_reg("XOR  V", x, y),
            0x4 => build_reg_reg("ADD  V", x, y),
            0x5 => build_reg_reg("SUB  V", x, y),
            0x6 => build_shift("SHR  V", x, y),
            0x7 => build_reg_reg("SUBN V", x, y),
            0xE => build_shift("SHL  V", x, y),
            _ => unknown(b1, b2),
        },
        0x9 => match sub {
            0x0 => build_reg_reg("SNE  V", x, y),
            _ => unknown(b1, b2),
        },
        0xA => build_addr("LD   I,   0x", get_nnn(b1, b2)),
        0xB => build_addr("JP   V0,  0x", get_nnn(b1, b2)),
        0xC => build_reg_imm("RND  V", x, b2),
        0xD => {
            let mut s = build_reg_reg("DRW  V", x, y);
            s.append(",  0x");
            s.append(hex_digit_str(sub));
            s
        },
        0xE => match b2 {
            0x9E => build_reg("SKP  V", x),
            0xA1 => build_reg("SKNP V", x),
            _ => unknown(b1, b2),
        },
        0xF => match b2 {
            0x07 => build_reg_suffix("LD   V", x, ",  DT"),
            0x0A => build_reg_suffix("LD   V", x, ",  K"),
            0x15 => build_reg("LD   DT,  V", x),
            0x18 => build_reg("LD   ST,  V", x),
            0x1E => build_reg("ADD  I,   V", x),
            0x29 => build_reg("LD   F,   V", x),
            0x33 => build_reg("LD   B,   V", x),
            0x55 => build_reg("LD   [I], V", x),
            0x65 => build_reg_suffix("LD   V", x, ",  [I]"),
            _ => unknown(b1, b2),
        },
        _ => unknown(b1, b2),
    }
}

} // verus!
