//! One-instruction 8080 disassembler for traces and diagnostics.
use vstd::prelude::*;
use crate::text::{dec_seq, hex2_seq, hex4_seq, push_decimal, push_hex2, push_hex4, push_text};

verus! {

/// Register named by a 3-bit field: B C D E H L M A.
pub open spec fn reg_name(r: int) -> Seq<char> {
    if r == 0 {
        "B"@
    } else if r == 1 {
        "C"@
    } else if r == 2 {
        "D"@
    } else if r == 3 {
        "E"@
    } else if r == 4 {
        "H"@
    } else if r == 5 {
        "L"@
    } else if r == 6 {
        "M"@
    } else {
        "A"@
    }
}

/// Register pair named by a 2-bit field in LXI, INX, DCX and DAD: BC DE HL SP.
pub open spec fn pair_name(p: int) -> Seq<char> {
    if p == 0 {
        "BC"@
    } else if p == 1 {
        "DE"@
    } else if p == 2 {
        "HL"@
    } else {
        "SP"@
    }
}

/// Register pair named by a 2-bit field in PUSH and POP: BC DE HL PSW.
pub open spec fn stack_pair_name(p: int) -> Seq<char> {
    if p == 0 {
        "BC"@
    } else if p == 1 {
        "DE"@
    } else if p == 2 {
        "HL"@
    } else {
        "PSW"@
    }
}

/// Condition named by a 3-bit field: NZ Z NC C PO PE P M.
pub open spec fn cond_name(c: int) -> Seq<char> {
    if c == 0 {
        "NZ"@
    } else if c == 1 {
        "Z"@
    } else if c == 2 {
        "NC"@
    } else if c == 3 {
        "C"@
    } else if c == 4 {
        "PO"@
    } else if c == 5 {
        "PE"@
    } else if c == 6 {
        "P"@
    } else {
        "M"@
    }
}

/// Register ALU operation named by a 3-bit field.
pub open spec fn alu_name(k: int) -> Seq<char> {
    if k == 0 {
        "ADD"@
    } else if k == 1 {
        "ADC"@
    } else if k == 2 {
        "SUB"@
    } else if k == 3 {
        "SBB"@
    } else if k == 4 {
        "ANA"@
    } else if k == 5 {
        "XRA"@
    } else if k == 6 {
        "ORA"@
    } else {
        "CMP"@
    }
}

/// Immediate ALU operation named by a 3-bit field.
pub open spec fn alu_imm_name(k: int) -> Seq<char> {
    if k == 0 {
        "ADI"@
    } else if k == 1 {
        "ACI"@
    } else if k == 2 {
        "SUI"@
    } else if k == 3 {
        "SBI"@
    } else if k == 4 {
        "ANI"@
    } else if k == 5 {
        "XRI"@
    } else if k == 6 {
        "ORI"@
    } else {
        "CPI"@
    }
}

/// Bits 5-3 of an opcode.
pub open spec fn field_ddd(op: u8) -> int {
    ((op >> 3u8) & 7u8) as int
}

/// Bits 2-0 of an opcode.
pub open spec fn field_sss(op: u8) -> int {
    (op & 7u8) as int
}

/// Bits 5-4 of an opcode.
pub open spec fn field_rp(op: u8) -> int {
    ((op >> 4u8) & 3u8) as int
}

/// Text of the instruction with opcode `op` and operand bytes `lo`, `hi`.
/// Addresses print as `0xHHHH` (`hi:lo`), immediates as `0xHH`, both in
/// upper-case hex. Covered: NOP, LXI, JMP and the conditional jumps, CALL and
/// CNZ/CZ/CNC/CC, RET and RNZ/RZ/RNC/RC, MVI, IN, OUT, the register ALU group
/// (ADD, ADC, SUB, SBB, ANA, XRA, ORA, CMP),
/// INR, DCR, INX, DCX, DAD, PUSH, POP, STA, LDA, SHLD, LHLD, XCHG, XTHL, SPHL,
/// the immediate ALU group, HLT, DI, EI, PCHL, RST and MOV. Any other opcode
/// prints as `0xHH`.
pub open spec fn disasm_text(op: u8, lo: u8, hi: u8) -> Seq<char> {
    let addr = hex4_seq((lo as int + hi as int * 256) as u16);
    if op == 0x00 {
        "NOP"@
    } else if op & 0xCF == 0x01 {
        "LXI "@ + pair_name(field_rp(op)) + ",0x"@ + addr
    } else if op == 0xC3 {
        "JMP 0x"@ + addr
    } else if op & 0xC7 == 0xC2 {
        "J"@ + cond_name(field_ddd(op)) + " 0x"@ + addr
    } else if op == 0xCD {
        "CALL 0x"@ + addr
    } else if op == 0xC4 || op == 0xCC || op == 0xD4 || op == 0xDC {
        "C"@ + cond_name(field_ddd(op)) + " 0x"@ + addr
    } else if op == 0xC9 {
        "RET"@
    } else if op == 0xC0 || op == 0xC8 || op == 0xD0 || op == 0xD8 {
        "R"@ + cond_name(field_ddd(op))
    } else if op & 0xC7 == 0x06 {
        "MVI "@ + reg_name(field_ddd(op)) + ",0x"@ + hex2_seq(lo)
    } else if op == 0xDB {
        "IN 0x"@ + hex2_seq(lo)
    } else if op == 0xD3 {
        "OUT 0x"@ + hex2_seq(lo)
    } else if 0x80 <= op <= 0xBF {
        alu_name(field_ddd(op)) + " "@ + reg_name(field_sss(op))
    } else if op & 0xC7 == 0x04 {
        "INR "@ + reg_name(field_ddd(op))
    } else if op & 0xC7 == 0x05 {
        "DCR "@ + reg_name(field_ddd(op))
    } else if op & 0xCF == 0x03 {
        "INX "@ + pair_name(field_rp(op))
    } else if op & 0xCF == 0x0B {
        "DCX "@ + pair_name(field_rp(op))
    } else if op & 0xCF == 0x09 {
        "DAD "@ + pair_name(field_rp(op))
    } else if op & 0xCF == 0xC5 {
        "PUSH "@ + stack_pair_name(field_rp(op))
    } else if op & 0xCF == 0xC1 {
        "POP "@ + stack_pair_name(field_rp(op))
    } else if op == 0x32 {
        "STA 0x"@ + addr
    } else if op == 0x3A {
        "LDA 0x"@ + addr
    } else if op == 0x22 {
        "SHLD 0x"@ + addr
    } else if op == 0x2A {
        "LHLD 0x"@ + addr
    } else if op == 0xEB {
        "XCHG"@
    } else if op == 0xE3 {
        "XTHL"@
    } else if op == 0xF9 {
        "SPHL"@
    } else if op & 0xC7 == 0xC6 {
        alu_imm_name(field_ddd(op)) + " 0x"@ + hex2_seq(lo)
    } else if op == 0x76 {
        "HLT"@
    } else if op == 0xF3 {
        "DI"@
    } else if op == 0xFB {
        "EI"@
    } else if op == 0xE9 {
        "PCHL"@
    } else if op & 0xC7 == 0xC7 {
        "RST "@ + dec_seq(field_ddd(op) as nat)
    } else if op >> 6u8 == 1 {
        "MOV "@ + reg_name(field_ddd(op)) + ","@ + reg_name(field_sss(op))
    } else {
        "0x"@ + hex2_seq(op)
    }
}

fn reg_str(r: u8) -> (s: &'static str)
    ensures
        s@ == reg_name(r as int),
{
    if r == 0 {
        "B"
    } else if r == 1 {
        "C"
    } else if r == 2 {
        "D"
    } else if r == 3 {
        "E"
    } else if r == 4 {
        "H"
    } else if r == 5 {
        "L"
    } else if r == 6 {
        "M"
    } else {
        "A"
    }
}

fn pair_str(p: u8) -> (s: &'static str)
    ensures
        s@ == pair_name(p as int),
{
    if p == 0 {
        "BC"
    } else if p == 1 {
        "DE"
    } else if p == 2 {
        "HL"
    } else {
        "SP"
    }
}

fn stack_pair_str(p: u8) -> (s: &'static str)
    ensures
        s@ == stack_pair_name(p as int),
{
    if p == 0 {
        "BC"
    } else if p == 1 {
        "DE"
    } else if p == 2 {
        "HL"
    } else {
        "PSW"
    }
}

fn cond_str(c: u8) -> (s: &'static str)
    ensures
        s@ == cond_name(c as int),
{
    if c == 0 {
        "NZ"
    } else if c == 1 {
        "Z"
    } else if c == 2 {
        "NC"
    } else if c == 3 {
        "C"
    } else if c == 4 {
        "PO"
    } else if c == 5 {
        "PE"
    } else if c == 6 {
        "P"
    } else {
        "M"
    }
}

fn alu_str(k: u8) -> (s: &'static str)
    ensures
        s@ == alu_name(k as int),
{
    if k == 0 {
        "ADD"
    } else if k == 1 {
        "ADC"
    } else if k == 2 {
        "SUB"
    } else if k == 3 {
        "SBB"
    } else if k == 4 {
        "ANA"
    } else if k == 5 {
        "XRA"
    } else if k == 6 {
        "ORA"
    } else {
        "CMP"
    }
}

fn alu_imm_str(k: u8) -> (s: &'static str)
    ensures
        s@ == alu_imm_name(k as int),
{
    if k == 0 {
        "ADI"
    } else if k == 1 {
        "ACI"
    } else if k == 2 {
        "SUI"
    } else if k == 3 {
        "SBI"
    } else if k == 4 {
        "ANI"
    } else if k == 5 {
        "XRI"
    } else if k == 6 {
        "ORI"
    } else {
        "CPI"
    }
}

/// `a`, `b` and `c`, then the four hex digits of `w`.
fn word3(a: &str, b: &str, c: &str, w: u16) -> (r: String)
    ensures
        r@ == a@ + b@ + c@ + hex4_seq(w),
{
    let mut s = String::new();
    push_text(&mut s, a);
    push_text(&mut s, b);
    push_text(&mut s, c);
    push_hex4(&mut s, w);
    assert(s@ =~= a@ + b@ + c@ + hex4_seq(w));
    s
}

/// `a`, then the four hex digits of `w`.
fn word1(a: &str, w: u16) -> (r: String)
    ensures
        r@ == a@ + hex4_seq(w),
{
    let mut s = String::new();
    push_text(&mut s, a);
    push_hex4(&mut s, w);
    assert(s@ =~= a@ + hex4_seq(w));
    s
}

/// `a`, `b` and `c`, then the two hex digits of `x`.
fn byte3(a: &str, b: &str, c: &str, x: u8) -> (r: String)
    ensures
        r@ == a@ + b@ + c@ + hex2_seq(x),
{
    let mut s = String::new();
    push_text(&mut s, a);
    push_text(&mut s, b);
    push_text(&mut s, c);
    push_hex2(&mut s, x);
    assert(s@ =~= a@ + b@ + c@ + hex2_seq(x));
    s
}

/// `a` and `b`, then the two hex digits of `x`.
fn byte2(a: &str, b: &str, x: u8) -> (r: String)
    ensures
        r@ == a@ + b@ + hex2_seq(x),
{
    let mut s = String::new();
    push_text(&mut s, a);
    push_text(&mut s, b);
    push_hex2(&mut s, x);
    assert(s@ =~= a@ + b@ + hex2_seq(x));
    s
}

/// `a`, then the two hex digits of `x`.
fn byte1(a: &str, x: u8) -> (r: String)
    ensures
        r@ == a@ + hex2_seq(x),
{
    let mut s = String::new();
    push_text(&mut s, a);
    push_hex2(&mut s, x);
    assert(s@ =~= a@ + hex2_seq(x));
    s
}

/// `a` followed by `b`.
fn joined(a: &str, b: &str) -> (r: String)
    ensures
        r@ == a@ + b@,
{
    let mut s = String::new();
    push_text(&mut s, a);
    push_text(&mut s, b);
    assert(s@ =~= a@ + b@);
    s
}

/// `a`, `b` and `c` in turn.
fn joined3(a: &str, b: &str, c: &str) -> (r: String)
    ensures
        r@ == a@ + b@ + c@,
{
    let mut s = String::new();
    push_text(&mut s, a);
    push_text(&mut s, b);
    push_text(&mut s, c);
    assert(s@ =~= a@ + b@ + c@);
    s
}

/// `a`, `b`, `c` and `d` in turn.
fn joined4(a: &str, b: &str, c: &str, d: &str) -> (r: String)
    ensures
        r@ == a@ + b@ + c@ + d@,
{
    let mut s = String::new();
    push_text(&mut s, a);
    push_text(&mut s, b);
    push_text(&mut s, c);
    push_text(&mut s, d);
    assert(s@ =~= a@ + b@ + c@ + d@);
    s
}

/// Disassemble a single 8080 instruction from up to 4 bytes at the given PC.
///
/// Returns a human-readable instruction string. Opcodes without a mnemonic
/// here print as "0xNN"; the MOV block decodes its register fields.
#[verifier::rlimit(40)]
pub fn disassemble_8080(bytes: [u8; 4]) -> (r: String)
    ensures
        r@ == disasm_text(bytes@[0], bytes@[1], bytes@[2]),
{
    let op = bytes[0];
    let lo = bytes[1];
    let hi = bytes[2];
    let addr: u16 = lo as u16 + (hi as u16) * 256;
    let ddd = (op >> 3u8) & 7u8;
    let sss = op & 7u8;
    let rp = (op >> 4u8) & 3u8;
    if op == 0x00 {
        "NOP".to_owned()
    } else if op & 0xCF == 0x01 {
        word3("LXI ", pair_str(rp), ",0x", addr)
    } else if op == 0xC3 {
        word1("JMP 0x", addr)
    } else if op & 0xC7 == 0xC2 {
        word3("J", cond_str(ddd), " 0x", addr)
    } else if op == 0xCD {
        word1("CALL 0x", addr)
    } else if op == 0xC4 || op == 0xCC || op == 0xD4 || op == 0xDC {
        word3("C", cond_str(ddd), " 0x", addr)
    } else if op == 0xC9 {
        "RET".to_owned()
    } else if op == 0xC0 || op == 0xC8 || op == 0xD0 || op == 0xD8 {
        joined("R", cond_str(ddd))
    } else if op & 0xC7 == 0x06 {
        byte3("MVI ", reg_str(ddd), ",0x", lo)
    } else if op == 0xDB {
        byte1("IN 0x", lo)
    } else if op == 0xD3 {
        byte1("OUT 0x", lo)
    } else if 0x80 <= op && op <= 0xBF {
        joined3(alu_str(ddd), " ", reg_str(sss))
    } else if op & 0xC7 == 0x04 {
        joined("INR ", reg_str(ddd))
    } else if op & 0xC7 == 0x05 {
        joined("DCR ", reg_str(ddd))
    } else if op & 0xCF == 0x03 {
        joined("INX ", pair_str(rp))
    } else if op & 0xCF == 0x0B {
        joined("DCX ", pair_str(rp))
    } else if op & 0xCF == 0x09 {
        joined("DAD ", pair_str(rp))
    } else if op & 0xCF == 0xC5 {
        joined("PUSH ", stack_pair_str(rp))
    } else if op & 0xCF == 0xC1 {
        joined("POP ", stack_pair_str(rp))
    } else if op == 0x32 {
        word1("STA 0x", addr)
    } else if op == 0x3A {
        word1("LDA 0x", addr)
    } else if op == 0x22 {
        word1("SHLD 0x", addr)
    } else if op == 0x2A {
        word1("LHLD 0x", addr)
    } else if op == 0xEB {
        "XCHG".to_owned()
    } else if op == 0xE3 {
        "XTHL".to_owned()
    } else if op == 0xF9 {
        "SPHL".to_owned()
    } else if op & 0xC7 == 0xC6 {
        byte2(alu_imm_str(ddd), " 0x", lo)
    } else if op == 0x76 {
        "HLT".to_owned()
    } else if op == 0xF3 {
        "DI".to_owned()
    } else if op == 0xFB {
        "EI".to_owned()
    } else if op == 0xE9 {
        "PCHL".to_owned()
    } else if op & 0xC7 == 0xC7 {
        let mut s = "RST ".to_owned();
        push_decimal(&mut s, ddd as u64);
        s
    } else if op >> 6u8 == 1 {
        joined4("MOV ", reg_str(ddd), ",", reg_str(sss))
    } else {
        byte1("0x", op)
    }
}

/// Name of a known I/O port, or the empty string.
pub open spec fn port_name_text(port: u8) -> Seq<char> {
    if port == 0x00 {
        "CON_DATA"@
    } else if port == 0x01 {
        "CON_STAT"@
    } else if port == 0x48 {
        "TARB_STAT"@
    } else if port == 0x49 {
        "TARB_TRK"@
    } else if port == 0x4A {
        "TARB_SEC"@
    } else if port == 0x4B {
        "TARB_DATA"@
    } else if port == 0xFE {
        "DEBUG"@
    } else {
        ""@
    }
}

/// Return a human-readable name for a known I/O port, or empty string.
pub fn port_name(port: u8) -> (r: &'static str)
    ensures
        r@ == port_name_text(port),
{
    if port == 0x00 {
        "CON_DATA"
    } else if port == 0x01 {
        "CON_STAT"
    } else if port == 0x48 {
        "TARB_STAT"
    } else if port == 0x49 {
        "TARB_TRK"
    } else if port == 0x4A {
        "TARB_SEC"
    } else if port == 0x4B {
        "TARB_DATA"
    } else if port == 0xFE {
        "DEBUG"
    } else {
        ""
    }
}

/// Opcode bit patterns written out as the opcodes they match, and the
/// opcode fields as arithmetic.
pub proof fn lemma_opcode_patterns(op: u8)
    by (bit_vector)
    ensures
        (op & 0xCF == 0x01) == (op == 0x01 || op == 0x11 || op == 0x21 || op == 0x31),
        (op & 0xCF == 0x03) == (op == 0x03 || op == 0x13 || op == 0x23 || op == 0x33),
        (op & 0xCF == 0x09) == (op == 0x09 || op == 0x19 || op == 0x29 || op == 0x39),
        (op & 0xCF == 0x0B) == (op == 0x0B || op == 0x1B || op == 0x2B || op == 0x3B),
        (op & 0xCF == 0xC1) == (op == 0xC1 || op == 0xD1 || op == 0xE1 || op == 0xF1),
        (op & 0xCF == 0xC5) == (op == 0xC5 || op == 0xD5 || op == 0xE5 || op == 0xF5),
        (op & 0xC7 == 0xC2) == (op == 0xC2 || op == 0xCA || op == 0xD2 || op == 0xDA || op == 0xE2 || op == 0xEA
            || op == 0xF2 || op == 0xFA),
        (op & 0xC7 == 0xC4) == (op == 0xC4 || op == 0xCC || op == 0xD4 || op == 0xDC || op == 0xE4 || op == 0xEC
            || op == 0xF4 || op == 0xFC),
        (op & 0xC7 == 0xC6) == (op == 0xC6 || op == 0xCE || op == 0xD6 || op == 0xDE || op == 0xE6 || op == 0xEE
            || op == 0xF6 || op == 0xFE),
        (op & 0xC7 == 0xC7) == (op == 0xC7 || op == 0xCF || op == 0xD7 || op == 0xDF || op == 0xE7 || op == 0xEF
            || op == 0xF7 || op == 0xFF),
        (op & 0xC7 == 0x04) == (op == 0x04 || op == 0x0C || op == 0x14 || op == 0x1C || op == 0x24 || op == 0x2C
            || op == 0x34 || op == 0x3C),
        (op & 0xC7 == 0x05) == (op == 0x05 || op == 0x0D || op == 0x15 || op == 0x1D || op == 0x25 || op == 0x2D
            || op == 0x35 || op == 0x3D),
        (op & 0xC7 == 0x06) == (op == 0x06 || op == 0x0E || op == 0x16 || op == 0x1E || op == 0x26 || op == 0x2E
            || op == 0x36 || op == 0x3E),
        (op >> 3u8) & 7u8 == (op / 8) % 8,
        op & 7u8 == op % 8,
        (op >> 4u8) & 3u8 == (op / 16) % 4,
        (op >> 6u8 == 1) == (0x40 <= op && op < 0x80),
{
}

/// The 8080 instructions with a 16-bit address operand disassemble to their
/// mnemonic (STA, LDA, SHLD, LHLD, JMP, CALL, the conditional jumps, CNZ, CZ,
/// CNC, CC, LXI with its register pair) and the address `hi:lo` as `0xHHHH`.
#[verifier::spinoff_prover]
#[verifier::rlimit(80)]
pub proof fn lemma_disasm_address_instructions(lo: u8, hi: u8)
    ensures
        disasm_text(0x32u8, lo, hi) == "STA 0x"@ + hex4_seq((lo as int + hi as int * 256) as u16),
        disasm_text(0x3Au8, lo, hi) == "LDA 0x"@ + hex4_seq((lo as int + hi as int * 256) as u16),
        disasm_text(0x22u8, lo, hi) == "SHLD 0x"@ + hex4_seq((lo as int + hi as int * 256) as u16),
        disasm_text(0x2Au8, lo, hi) == "LHLD 0x"@ + hex4_seq((lo as int + hi as int * 256) as u16),
        disasm_text(0xC3u8, lo, hi) == "JMP 0x"@ + hex4_seq((lo as int + hi as int * 256) as u16),
        disasm_text(0xCDu8, lo, hi) == "CALL 0x"@ + hex4_seq((lo as int + hi as int * 256) as u16),
        disasm_text(0xC2u8, lo, hi) == "JNZ 0x"@ + hex4_seq((lo as int + hi as int * 256) as u16),
        disasm_text(0xCAu8, lo, hi) == "JZ 0x"@ + hex4_seq((lo as int + hi as int * 256) as u16),
        disasm_text(0xD2u8, lo, hi) == "JNC 0x"@ + hex4_seq((lo as int + hi as int * 256) as u16),
        disasm_text(0xDAu8, lo, hi) == "JC 0x"@ + hex4_seq((lo as int + hi as int * 256) as u16),
        disasm_text(0xE2u8, lo, hi) == "JPO 0x"@ + hex4_seq((lo as int + hi as int * 256) as u16),
        disasm_text(0xEAu8, lo, hi) == "JPE 0x"@ + hex4_seq((lo as int + hi as int * 256) as u16),
        disasm_text(0xF2u8, lo, hi) == "JP 0x"@ + hex4_seq((lo as int + hi as int * 256) as u16),
        disasm_text(0xFAu8, lo, hi) == "JM 0x"@ + hex4_seq((lo as int + hi as int * 256) as u16),
        disasm_text(0xC4u8, lo, hi) == "CNZ 0x"@ + hex4_seq((lo as int + hi as int * 256) as u16),
        disasm_text(0xCCu8, lo, hi) == "CZ 0x"@ + hex4_seq((lo as int + hi as int * 256) as u16),
        disasm_text(0xD4u8, lo, hi) == "CNC 0x"@ + hex4_seq((lo as int + hi as int * 256) as u16),
        disasm_text(0xDCu8, lo, hi) == "CC 0x"@ + hex4_seq((lo as int + hi as int * 256) as u16),
        disasm_text(0x01u8, lo, hi) == "LXI BC,0x"@ + hex4_seq((lo as int + hi as int * 256) as u16),
        disasm_text(0x11u8, lo, hi) == "LXI DE,0x"@ + hex4_seq((lo as int + hi as int * 256) as u16),
        disasm_text(0x21u8, lo, hi) == "LXI HL,0x"@ + hex4_seq((lo as int + hi as int * 256) as u16),
        disasm_text(0x31u8, lo, hi) == "LXI SP,0x"@ + hex4_seq((lo as int + hi as int * 256) as u16),
{
    let w = hex4_seq((lo as int + hi as int * 256) as u16);
    assert(disasm_text(0x32u8, lo, hi) =~= "STA 0x"@ + w) by {
        lemma_opcode_patterns(0x32u8);
        reveal_strlit("STA 0x");
    }
    assert(disasm_text(0x3Au8, lo, hi) =~= "LDA 0x"@ + w) by {
        lemma_opcode_patterns(0x3Au8);
        reveal_strlit("LDA 0x");
    }
    assert(disasm_text(0x22u8, lo, hi) =~= "SHLD 0x"@ + w) by {
        lemma_opcode_patterns(0x22u8);
        reveal_strlit("SHLD 0x");
    }
    assert(disasm_text(0x2Au8, lo, hi) =~= "LHLD 0x"@ + w) by {
        lemma_opcode_patterns(0x2Au8);
        reveal_strlit("LHLD 0x");
    }
    assert(disasm_text(0xC3u8, lo, hi) =~= "JMP 0x"@ + w) by {
        lemma_opcode_patterns(0xC3u8);
        reveal_strlit("JMP 0x");
    }
    assert(disasm_text(0xCDu8, lo, hi) =~= "CALL 0x"@ + w) by {
        lemma_opcode_patterns(0xCDu8);
        reveal_strlit("CALL 0x");
    }
    assert(disasm_text(0xC2u8, lo, hi) =~= "JNZ 0x"@ + w) by {
        lemma_opcode_patterns(0xC2u8);
        reveal_strlit(" 0x");
        reveal_strlit("J");
        reveal_strlit("JNZ 0x");
        reveal_strlit("NZ");
    }
    assert(disasm_text(0xCAu8, lo, hi) =~= "JZ 0x"@ + w) by {
        lemma_opcode_patterns(0xCAu8);
        reveal_strlit(" 0x");
        reveal_strlit("J");
        reveal_strlit("JZ 0x");
        reveal_strlit("Z");
    }
    assert(disasm_text(0xD2u8, lo, hi) =~= "JNC 0x"@ + w) by {
        lemma_opcode_patterns(0xD2u8);
        reveal_strlit(" 0x");
        reveal_strlit("J");
        reveal_strlit("JNC 0x");
        reveal_strlit("NC");
    }
    assert(disasm_text(0xDAu8, lo, hi) =~= "JC 0x"@ + w) by {
        lemma_opcode_patterns(0xDAu8);
        reveal_strlit(" 0x");
        reveal_strlit("C");
        reveal_strlit("J");
        reveal_strlit("JC 0x");
    }
    assert(disasm_text(0xE2u8, lo, hi) =~= "JPO 0x"@ + w) by {
        lemma_opcode_patterns(0xE2u8);
        reveal_strlit(" 0x");
        reveal_strlit("J");
        reveal_strlit("JPO 0x");
        reveal_strlit("PO");
    }
    assert(disasm_text(0xEAu8, lo, hi) =~= "JPE 0x"@ + w) by {
        lemma_opcode_patterns(0xEAu8);
        reveal_strlit(" 0x");
        reveal_strlit("J");
        reveal_strlit("JPE 0x");
        reveal_strlit("PE");
    }
    assert(disasm_text(0xF2u8, lo, hi) =~= "JP 0x"@ + w) by {
        lemma_opcode_patterns(0xF2u8);
        reveal_strlit(" 0x");
        reveal_strlit("J");
        reveal_strlit("JP 0x");
        reveal_strlit("P");
    }
    assert(disasm_text(0xFAu8, lo, hi) =~= "JM 0x"@ + w) by {
        lemma_opcode_patterns(0xFAu8);
        reveal_strlit(" 0x");
        reveal_strlit("J");
        reveal_strlit("JM 0x");
        reveal_strlit("M");
    }
    assert(disasm_text(0xC4u8, lo, hi) =~= "CNZ 0x"@ + w) by {
        lemma_opcode_patterns(0xC4u8);
        reveal_strlit(" 0x");
        reveal_strlit("C");
        reveal_strlit("CNZ 0x");
        reveal_strlit("NZ");
    }
    assert(disasm_text(0xCCu8, lo, hi) =~= "CZ 0x"@ + w) by {
        lemma_opcode_patterns(0xCCu8);
        reveal_strlit(" 0x");
        reveal_strlit("C");
        reveal_strlit("CZ 0x");
        reveal_strlit("Z");
    }
    assert(disasm_text(0xD4u8, lo, hi) =~= "CNC 0x"@ + w) by {
        lemma_opcode_patterns(0xD4u8);
        reveal_strlit(" 0x");
        reveal_strlit("C");
        reveal_strlit("CNC 0x");
        reveal_strlit("NC");
    }
    assert(disasm_text(0xDCu8, lo, hi) =~= "CC 0x"@ + w) by {
        lemma_opcode_patterns(0xDCu8);
        reveal_strlit(" 0x");
        reveal_strlit("C");
        reveal_strlit("CC 0x");
    }
    assert(disasm_text(0x01u8, lo, hi) =~= "LXI BC,0x"@ + w) by {
        lemma_opcode_patterns(0x01u8);
        reveal_strlit(",0x");
        reveal_strlit("BC");
        reveal_strlit("LXI ");
        reveal_strlit("LXI BC,0x");
    }
    assert(disasm_text(0x11u8, lo, hi) =~= "LXI DE,0x"@ + w) by {
        lemma_opcode_patterns(0x11u8);
        reveal_strlit(",0x");
        reveal_strlit("DE");
        reveal_strlit("LXI ");
        reveal_strlit("LXI DE,0x");
    }
    assert(disasm_text(0x21u8, lo, hi) =~= "LXI HL,0x"@ + w) by {
        lemma_opcode_patterns(0x21u8);
        reveal_strlit(",0x");
        reveal_strlit("HL");
        reveal_strlit("LXI ");
        reveal_strlit("LXI HL,0x");
    }
    assert(disasm_text(0x31u8, lo, hi) =~= "LXI SP,0x"@ + w) by {
        lemma_opcode_patterns(0x31u8);
        reveal_strlit(",0x");
        reveal_strlit("LXI ");
        reveal_strlit("LXI SP,0x");
        reveal_strlit("SP");
    }
}

/// The 8080 instructions with an 8-bit operand disassemble to their mnemonic
/// (MVI with its register, ADI, ACI, SUI, SBI, ANI, XRI, ORI, CPI, IN, OUT)
/// and the operand `lo` as `0xHH`.
#[verifier::spinoff_prover]
#[verifier::rlimit(80)]
pub proof fn lemma_disasm_immediate_instructions(lo: u8, hi: u8)
    ensures
        disasm_text(0x06u8, lo, hi) == "MVI B,0x"@ + hex2_seq(lo),
        disasm_text(0x0Eu8, lo, hi) == "MVI C,0x"@ + hex2_seq(lo),
        disasm_text(0x16u8, lo, hi) == "MVI D,0x"@ + hex2_seq(lo),
        disasm_text(0x1Eu8, lo, hi) == "MVI E,0x"@ + hex2_seq(lo),
        disasm_text(0x26u8, lo, hi) == "MVI H,0x"@ + hex2_seq(lo),
        disasm_text(0x2Eu8, lo, hi) == "MVI L,0x"@ + hex2_seq(lo),
        disasm_text(0x36u8, lo, hi) == "MVI M,0x"@ + hex2_seq(lo),
        disasm_text(0x3Eu8, lo, hi) == "MVI A,0x"@ + hex2_seq(lo),
        disasm_text(0xC6u8, lo, hi) == "ADI 0x"@ + hex2_seq(lo),
        disasm_text(0xCEu8, lo, hi) == "ACI 0x"@ + hex2_seq(lo),
        disasm_text(0xD6u8, lo, hi) == "SUI 0x"@ + hex2_seq(lo),
        disasm_text(0xDEu8, lo, hi) == "SBI 0x"@ + hex2_seq(lo),
        disasm_text(0xE6u8, lo, hi) == "ANI 0x"@ + hex2_seq(lo),
        disasm_text(0xEEu8, lo, hi) == "XRI 0x"@ + hex2_seq(lo),
        disasm_text(0xF6u8, lo, hi) == "ORI 0x"@ + hex2_seq(lo),
        disasm_text(0xFEu8, lo, hi) == "CPI 0x"@ + hex2_seq(lo),
        disasm_text(0xDBu8, lo, hi) == "IN 0x"@ + hex2_seq(lo),
        disasm_text(0xD3u8, lo, hi) == "OUT 0x"@ + hex2_seq(lo),
{
    let b = hex2_seq(lo);
    assert(disasm_text(0x06u8, lo, hi) =~= "MVI B,0x"@ + b) by {
        lemma_opcode_patterns(0x06u8);
        reveal_strlit(",0x");
        reveal_strlit("B");
        reveal_strlit("MVI ");
        reveal_strlit("MVI B,0x");
    }
    assert(disasm_text(0x0Eu8, lo, hi) =~= "MVI C,0x"@ + b) by {
        lemma_opcode_patterns(0x0Eu8);
        reveal_strlit(",0x");
        reveal_strlit("C");
        reveal_strlit("MVI ");
        reveal_strlit("MVI C,0x");
    }
    assert(disasm_text(0x16u8, lo, hi) =~= "MVI D,0x"@ + b) by {
        lemma_opcode_patterns(0x16u8);
        reveal_strlit(",0x");
        reveal_strlit("D");
        reveal_strlit("MVI ");
        reveal_strlit("MVI D,0x");
    }
    assert(disasm_text(0x1Eu8, lo, hi) =~= "MVI E,0x"@ + b) by {
        lemma_opcode_patterns(0x1Eu8);
        reveal_strlit(",0x");
        reveal_strlit("E");
        reveal_strlit("MVI ");
        reveal_strlit("MVI E,0x");
    }
    assert(disasm_text(0x26u8, lo, hi) =~= "MVI H,0x"@ + b) by {
        lemma_opcode_patterns(0x26u8);
        reveal_strlit(",0x");
        reveal_strlit("H");
        reveal_strlit("MVI ");
        reveal_strlit("MVI H,0x");
    }
    assert(disasm_text(0x2Eu8, lo, hi) =~= "MVI L,0x"@ + b) by {
        lemma_opcode_patterns(0x2Eu8);
        reveal_strlit(",0x");
        reveal_strlit("L");
        reveal_strlit("MVI ");
        reveal_strlit("MVI L,0x");
    }
    assert(disasm_text(0x36u8, lo, hi) =~= "MVI M,0x"@ + b) by {
        lemma_opcode_patterns(0x36u8);
        reveal_strlit(",0x");
        reveal_strlit("M");
        reveal_strlit("MVI ");
        reveal_strlit("MVI M,0x");
    }
    assert(disasm_text(0x3Eu8, lo, hi) =~= "MVI A,0x"@ + b) by {
        lemma_opcode_patterns(0x3Eu8);
        reveal_strlit(",0x");
        reveal_strlit("A");
        reveal_strlit("MVI ");
        reveal_strlit("MVI A,0x");
    }
    assert(disasm_text(0xC6u8, lo, hi) =~= "ADI 0x"@ + b) by {
        lemma_opcode_patterns(0xC6u8);
        reveal_strlit(" 0x");
        reveal_strlit("ADI");
        reveal_strlit("ADI 0x");
    }
    assert(disasm_text(0xCEu8, lo, hi) =~= "ACI 0x"@ + b) by {
        lemma_opcode_patterns(0xCEu8);
        reveal_strlit(" 0x");
        reveal_strlit("ACI");
        reveal_strlit("ACI 0x");
    }
    assert(disasm_text(0xD6u8, lo, hi) =~= "SUI 0x"@ + b) by {
        lemma_opcode_patterns(0xD6u8);
        reveal_strlit(" 0x");
        reveal_strlit("SUI");
        reveal_strlit("SUI 0x");
    }
    assert(disasm_text(0xDEu8, lo, hi) =~= "SBI 0x"@ + b) by {
        lemma_opcode_patterns(0xDEu8);
        reveal_strlit(" 0x");
        reveal_strlit("SBI");
        reveal_strlit("SBI 0x");
    }
    assert(disasm_text(0xE6u8, lo, hi) =~= "ANI 0x"@ + b) by {
        lemma_opcode_patterns(0xE6u8);
        reveal_strlit(" 0x");
        reveal_strlit("ANI");
        reveal_strlit("ANI 0x");
    }
    assert(disasm_text(0xEEu8, lo, hi) =~= "XRI 0x"@ + b) by {
        lemma_opcode_patterns(0xEEu8);
        reveal_strlit(" 0x");
        reveal_strlit("XRI");
        reveal_strlit("XRI 0x");
    }
    assert(disasm_text(0xF6u8, lo, hi) =~= "ORI 0x"@ + b) by {
        lemma_opcode_patterns(0xF6u8);
        reveal_strlit(" 0x");
        reveal_strlit("ORI");
        reveal_strlit("ORI 0x");
    }
    assert(disasm_text(0xFEu8, lo, hi) =~= "CPI 0x"@ + b) by {
        lemma_opcode_patterns(0xFEu8);
        reveal_strlit(" 0x");
        reveal_strlit("CPI");
        reveal_strlit("CPI 0x");
    }
    assert(disasm_text(0xDBu8, lo, hi) =~= "IN 0x"@ + b) by {
        lemma_opcode_patterns(0xDBu8);
        reveal_strlit("IN 0x");
    }
    assert(disasm_text(0xD3u8, lo, hi) =~= "OUT 0x"@ + b) by {
        lemma_opcode_patterns(0xD3u8);
        reveal_strlit("OUT 0x");
    }
}

/// One-byte 8080 instructions disassemble to their mnemonic: NOP, RET, XCHG,
/// XTHL, SPHL, DI, EI, PCHL, HLT, RNZ, RZ, RNC, RC, and INR and DCR with
/// their register.
#[verifier::spinoff_prover]
#[verifier::rlimit(80)]
pub proof fn lemma_disasm_single_byte_instructions(lo: u8, hi: u8)
    ensures
        disasm_text(0x00u8, lo, hi) == "NOP"@,
        disasm_text(0xC9u8, lo, hi) == "RET"@,
        disasm_text(0xEBu8, lo, hi) == "XCHG"@,
        disasm_text(0xE3u8, lo, hi) == "XTHL"@,
        disasm_text(0xF9u8, lo, hi) == "SPHL"@,
        disasm_text(0xF3u8, lo, hi) == "DI"@,
        disasm_text(0xFBu8, lo, hi) == "EI"@,
        disasm_text(0xE9u8, lo, hi) == "PCHL"@,
        disasm_text(0x76u8, lo, hi) == "HLT"@,
        disasm_text(0xC0u8, lo, hi) == "RNZ"@,
        disasm_text(0xC8u8, lo, hi) == "RZ"@,
        disasm_text(0xD0u8, lo, hi) == "RNC"@,
        disasm_text(0xD8u8, lo, hi) == "RC"@,
        disasm_text(0x04u8, lo, hi) == "INR B"@,
        disasm_text(0x05u8, lo, hi) == "DCR B"@,
        disasm_text(0x0Cu8, lo, hi) == "INR C"@,
        disasm_text(0x0Du8, lo, hi) == "DCR C"@,
        disasm_text(0x14u8, lo, hi) == "INR D"@,
        disasm_text(0x15u8, lo, hi) == "DCR D"@,
        disasm_text(0x1Cu8, lo, hi) == "INR E"@,
        disasm_text(0x1Du8, lo, hi) == "DCR E"@,
        disasm_text(0x24u8, lo, hi) == "INR H"@,
        disasm_text(0x25u8, lo, hi) == "DCR H"@,
        disasm_text(0x2Cu8, lo, hi) == "INR L"@,
        disasm_text(0x2Du8, lo, hi) == "DCR L"@,
        disasm_text(0x34u8, lo, hi) == "INR M"@,
        disasm_text(0x35u8, lo, hi) == "DCR M"@,
        disasm_text(0x3Cu8, lo, hi) == "INR A"@,
{
    assert(disasm_text(0x00u8, lo, hi) =~= "NOP"@) by {
        lemma_opcode_patterns(0x00u8);
        reveal_strlit("NOP");
    }
    assert(disasm_text(0xC9u8, lo, hi) =~= "RET"@) by {
        lemma_opcode_patterns(0xC9u8);
        reveal_strlit("RET");
    }
    assert(disasm_text(0xEBu8, lo, hi) =~= "XCHG"@) by {
        lemma_opcode_patterns(0xEBu8);
        reveal_strlit("XCHG");
    }
    assert(disasm_text(0xE3u8, lo, hi) =~= "XTHL"@) by {
        lemma_opcode_patterns(0xE3u8);
        reveal_strlit("XTHL");
    }
    assert(disasm_text(0xF9u8, lo, hi) =~= "SPHL"@) by {
        lemma_opcode_patterns(0xF9u8);
        reveal_strlit("SPHL");
    }
    assert(disasm_text(0xF3u8, lo, hi) =~= "DI"@) by {
        lemma_opcode_patterns(0xF3u8);
        reveal_strlit("DI");
    }
    assert(disasm_text(0xFBu8, lo, hi) =~= "EI"@) by {
        lemma_opcode_patterns(0xFBu8);
        reveal_strlit("EI");
    }
    assert(disasm_text(0xE9u8, lo, hi) =~= "PCHL"@) by {
        lemma_opcode_patterns(0xE9u8);
        reveal_strlit("PCHL");
    }
    assert(disasm_text(0x76u8, lo, hi) =~= "HLT"@) by {
        lemma_opcode_patterns(0x76u8);
        reveal_strlit("HLT");
    }
    assert(disasm_text(0xC0u8, lo, hi) =~= "RNZ"@) by {
        lemma_opcode_patterns(0xC0u8);
        reveal_strlit("NZ");
        reveal_strlit("R");
        reveal_strlit("RNZ");
    }
    assert(disasm_text(0xC8u8, lo, hi) =~= "RZ"@) by {
        lemma_opcode_patterns(0xC8u8);
        reveal_strlit("R");
        reveal_strlit("RZ");
        reveal_strlit("Z");
    }
    assert(disasm_text(0xD0u8, lo, hi) =~= "RNC"@) by {
        lemma_opcode_patterns(0xD0u8);
        reveal_strlit("NC");
        reveal_strlit("R");
        reveal_strlit("RNC");
    }
    assert(disasm_text(0xD8u8, lo, hi) =~= "RC"@) by {
        lemma_opcode_patterns(0xD8u8);
        reveal_strlit("C");
        reveal_strlit("R");
        reveal_strlit("RC");
    }
    assert(disasm_text(0x04u8, lo, hi) =~= "INR B"@) by {
        lemma_opcode_patterns(0x04u8);
        reveal_strlit("B");
        reveal_strlit("INR ");
        reveal_strlit("INR B");
    }
    assert(disasm_text(0x05u8, lo, hi) =~= "DCR B"@) by {
        lemma_opcode_patterns(0x05u8);
        reveal_strlit("B");
        reveal_strlit("DCR ");
        reveal_strlit("DCR B");
    }
    assert(disasm_text(0x0Cu8, lo, hi) =~= "INR C"@) by {
        lemma_opcode_patterns(0x0Cu8);
        reveal_strlit("C");
        reveal_strlit("INR ");
        reveal_strlit("INR C");
    }
    assert(disasm_text(0x0Du8, lo, hi) =~= "DCR C"@) by {
        lemma_opcode_patterns(0x0Du8);
        reveal_strlit("C");
        reveal_strlit("DCR ");
        reveal_strlit("DCR C");
    }
    assert(disasm_text(0x14u8, lo, hi) =~= "INR D"@) by {
        lemma_opcode_patterns(0x14u8);
        reveal_strlit("D");
        reveal_strlit("INR ");
        reveal_strlit("INR D");
    }
    assert(disasm_text(0x15u8, lo, hi) =~= "DCR D"@) by {
        lemma_opcode_patterns(0x15u8);
        reveal_strlit("D");
        reveal_strlit("DCR ");
        reveal_strlit("DCR D");
    }
    assert(disasm_text(0x1Cu8, lo, hi) =~= "INR E"@) by {
        lemma_opcode_patterns(0x1Cu8);
        reveal_strlit("E");
        reveal_strlit("INR ");
        reveal_strlit("INR E");
    }
    assert(disasm_text(0x1Du8, lo, hi) =~= "DCR E"@) by {
        lemma_opcode_patterns(0x1Du8);
        reveal_strlit("DCR ");
        reveal_strlit("DCR E");
        reveal_strlit("E");
    }
    assert(disasm_text(0x24u8, lo, hi) =~= "INR H"@) by {
        lemma_opcode_patterns(0x24u8);
        reveal_strlit("H");
        reveal_strlit("INR ");
        reveal_strlit("INR H");
    }
    assert(disasm_text(0x25u8, lo, hi) =~= "DCR H"@) by {
        lemma_opcode_patterns(0x25u8);
        reveal_strlit("DCR ");
        reveal_strlit("DCR H");
        reveal_strlit("H");
    }
    assert(disasm_text(0x2Cu8, lo, hi) =~= "INR L"@) by {
        lemma_opcode_patterns(0x2Cu8);
        reveal_strlit("INR ");
        reveal_strlit("INR L");
        reveal_strlit("L");
    }
    assert(disasm_text(0x2Du8, lo, hi) =~= "DCR L"@) by {
        lemma_opcode_patterns(0x2Du8);
        reveal_strlit("DCR ");
        reveal_strlit("DCR L");
        reveal_strlit("L");
    }
    assert(disasm_text(0x34u8, lo, hi) =~= "INR M"@) by {
        lemma_opcode_patterns(0x34u8);
        reveal_strlit("INR ");
        reveal_strlit("INR M");
        reveal_strlit("M");
    }
    assert(disasm_text(0x35u8, lo, hi) =~= "DCR M"@) by {
        lemma_opcode_patterns(0x35u8);
        reveal_strlit("DCR ");
        reveal_strlit("DCR M");
        reveal_strlit("M");
    }
    assert(disasm_text(0x3Cu8, lo, hi) =~= "INR A"@) by {
        lemma_opcode_patterns(0x3Cu8);
        reveal_strlit("A");
        reveal_strlit("INR ");
        reveal_strlit("INR A");
    }
}

/// DCR A, and INX, DCX and DAD with their register pair.
#[verifier::spinoff_prover]
#[verifier::rlimit(80)]
pub proof fn lemma_disasm_pair_instructions(lo: u8, hi: u8)
    ensures
        disasm_text(0x3Du8, lo, hi) == "DCR A"@,
        disasm_text(0x03u8, lo, hi) == "INX BC"@,
        disasm_text(0x0Bu8, lo, hi) == "DCX BC"@,
        disasm_text(0x09u8, lo, hi) == "DAD BC"@,
        disasm_text(0x13u8, lo, hi) == "INX DE"@,
        disasm_text(0x1Bu8, lo, hi) == "DCX DE"@,
        disasm_text(0x19u8, lo, hi) == "DAD DE"@,
        disasm_text(0x23u8, lo, hi) == "INX HL"@,
        disasm_text(0x2Bu8, lo, hi) == "DCX HL"@,
        disasm_text(0x29u8, lo, hi) == "DAD HL"@,
        disasm_text(0x33u8, lo, hi) == "INX SP"@,
        disasm_text(0x3Bu8, lo, hi) == "DCX SP"@,
        disasm_text(0x39u8, lo, hi) == "DAD SP"@,

{
    assert(disasm_text(0x3Du8, lo, hi) =~= "DCR A"@) by {
        lemma_opcode_patterns(0x3Du8);
        reveal_strlit("A");
        reveal_strlit("DCR ");
        reveal_strlit("DCR A");
    }
    assert(disasm_text(0x03u8, lo, hi) =~= "INX BC"@) by {
        lemma_opcode_patterns(0x03u8);
        reveal_strlit("BC");
        reveal_strlit("INX ");
        reveal_strlit("INX BC");
    }
    assert(disasm_text(0x0Bu8, lo, hi) =~= "DCX BC"@) by {
        lemma_opcode_patterns(0x0Bu8);
        reveal_strlit("BC");
        reveal_strlit("DCX ");
        reveal_strlit("DCX BC");
    }
    assert(disasm_text(0x09u8, lo, hi) =~= "DAD BC"@) by {
        lemma_opcode_patterns(0x09u8);
        reveal_strlit("BC");
        reveal_strlit("DAD ");
        reveal_strlit("DAD BC");
    }
    assert(disasm_text(0x13u8, lo, hi) =~= "INX DE"@) by {
        lemma_opcode_patterns(0x13u8);
        reveal_strlit("DE");
        reveal_strlit("INX ");
        reveal_strlit("INX DE");
    }
    assert(disasm_text(0x1Bu8, lo, hi) =~= "DCX DE"@) by {
        lemma_opcode_patterns(0x1Bu8);
        reveal_strlit("DCX ");
        reveal_strlit("DCX DE");
        reveal_strlit("DE");
    }
    assert(disasm_text(0x19u8, lo, hi) =~= "DAD DE"@) by {
        lemma_opcode_patterns(0x19u8);
        reveal_strlit("DAD ");
        reveal_strlit("DAD DE");
        reveal_strlit("DE");
    }
    assert(disasm_text(0x23u8, lo, hi) =~= "INX HL"@) by {
        lemma_opcode_patterns(0x23u8);
        reveal_strlit("HL");
        reveal_strlit("INX ");
        reveal_strlit("INX HL");
    }
    assert(disasm_text(0x2Bu8, lo, hi) =~= "DCX HL"@) by {
        lemma_opcode_patterns(0x2Bu8);
        reveal_strlit("DCX ");
        reveal_strlit("DCX HL");
        reveal_strlit("HL");
    }
    assert(disasm_text(0x29u8, lo, hi) =~= "DAD HL"@) by {
        lemma_opcode_patterns(0x29u8);
        reveal_strlit("DAD ");
        reveal_strlit("DAD HL");
        reveal_strlit("HL");
    }
    assert(disasm_text(0x33u8, lo, hi) =~= "INX SP"@) by {
        lemma_opcode_patterns(0x33u8);
        reveal_strlit("INX ");
        reveal_strlit("INX SP");
        reveal_strlit("SP");
    }
    assert(disasm_text(0x3Bu8, lo, hi) =~= "DCX SP"@) by {
        lemma_opcode_patterns(0x3Bu8);
        reveal_strlit("DCX ");
        reveal_strlit("DCX SP");
        reveal_strlit("SP");
    }
    assert(disasm_text(0x39u8, lo, hi) =~= "DAD SP"@) by {
        lemma_opcode_patterns(0x39u8);
        reveal_strlit("DAD ");
        reveal_strlit("DAD SP");
        reveal_strlit("SP");
    }
}

/// PUSH and POP with their register pair (PSW for the accumulator and
/// flags), and RST with its number.
#[verifier::spinoff_prover]
#[verifier::rlimit(80)]
pub proof fn lemma_disasm_stack_instructions(lo: u8, hi: u8)
    ensures
        disasm_text(0xC5u8, lo, hi) == "PUSH BC"@,
        disasm_text(0xC1u8, lo, hi) == "POP BC"@,
        disasm_text(0xD5u8, lo, hi) == "PUSH DE"@,
        disasm_text(0xD1u8, lo, hi) == "POP DE"@,
        disasm_text(0xE5u8, lo, hi) == "PUSH HL"@,
        disasm_text(0xE1u8, lo, hi) == "POP HL"@,
        disasm_text(0xF5u8, lo, hi) == "PUSH PSW"@,
        disasm_text(0xF1u8, lo, hi) == "POP PSW"@,
        disasm_text(0xC7u8, lo, hi) == "RST 0"@,
        disasm_text(0xCFu8, lo, hi) == "RST 1"@,
        disasm_text(0xD7u8, lo, hi) == "RST 2"@,
        disasm_text(0xDFu8, lo, hi) == "RST 3"@,
        disasm_text(0xE7u8, lo, hi) == "RST 4"@,
        disasm_text(0xEFu8, lo, hi) == "RST 5"@,
        disasm_text(0xF7u8, lo, hi) == "RST 6"@,
        disasm_text(0xFFu8, lo, hi) == "RST 7"@,
{
    assert(disasm_text(0xC5u8, lo, hi) =~= "PUSH BC"@) by {
        lemma_opcode_patterns(0xC5u8);
        reveal_strlit("BC");
        reveal_strlit("PUSH ");
        reveal_strlit("PUSH BC");
    }
    assert(disasm_text(0xC1u8, lo, hi) =~= "POP BC"@) by {
        lemma_opcode_patterns(0xC1u8);
        reveal_strlit("BC");
        reveal_strlit("POP ");
        reveal_strlit("POP BC");
    }
    assert(disasm_text(0xD5u8, lo, hi) =~= "PUSH DE"@) by {
        lemma_opcode_patterns(0xD5u8);
        reveal_strlit("DE");
        reveal_strlit("PUSH ");
        reveal_strlit("PUSH DE");
    }
    assert(disasm_text(0xD1u8, lo, hi) =~= "POP DE"@) by {
        lemma_opcode_patterns(0xD1u8);
        reveal_strlit("DE");
        reveal_strlit("POP ");
        reveal_strlit("POP DE");
    }
    assert(disasm_text(0xE5u8, lo, hi) =~= "PUSH HL"@) by {
        lemma_opcode_patterns(0xE5u8);
        reveal_strlit("HL");
        reveal_strlit("PUSH ");
        reveal_strlit("PUSH HL");
    }
    assert(disasm_text(0xE1u8, lo, hi) =~= "POP HL"@) by {
        lemma_opcode_patterns(0xE1u8);
        reveal_strlit("HL");
        reveal_strlit("POP ");
        reveal_strlit("POP HL");
    }
    assert(disasm_text(0xF5u8, lo, hi) =~= "PUSH PSW"@) by {
        lemma_opcode_patterns(0xF5u8);
        reveal_strlit("PSW");
        reveal_strlit("PUSH ");
        reveal_strlit("PUSH PSW");
    }
    assert(disasm_text(0xF1u8, lo, hi) =~= "POP PSW"@) by {
        lemma_opcode_patterns(0xF1u8);
        reveal_strlit("POP ");
        reveal_strlit("POP PSW");
        reveal_strlit("PSW");
    }
    assert(disasm_text(0xC7u8, lo, hi) =~= "RST 0"@) by {
        lemma_opcode_patterns(0xC7u8);
        reveal_strlit("RST ");
        reveal_strlit("RST 0");
    }
    assert(disasm_text(0xCFu8, lo, hi) =~= "RST 1"@) by {
        lemma_opcode_patterns(0xCFu8);
        reveal_strlit("RST ");
        reveal_strlit("RST 1");
    }
    assert(disasm_text(0xD7u8, lo, hi) =~= "RST 2"@) by {
        lemma_opcode_patterns(0xD7u8);
        reveal_strlit("RST ");
        reveal_strlit("RST 2");
    }
    assert(disasm_text(0xDFu8, lo, hi) =~= "RST 3"@) by {
        lemma_opcode_patterns(0xDFu8);
        reveal_strlit("RST ");
        reveal_strlit("RST 3");
    }
    assert(disasm_text(0xE7u8, lo, hi) =~= "RST 4"@) by {
        lemma_opcode_patterns(0xE7u8);
        reveal_strlit("RST ");
        reveal_strlit("RST 4");
    }
    assert(disasm_text(0xEFu8, lo, hi) =~= "RST 5"@) by {
        lemma_opcode_patterns(0xEFu8);
        reveal_strlit("RST ");
        reveal_strlit("RST 5");
    }
    assert(disasm_text(0xF7u8, lo, hi) =~= "RST 6"@) by {
        lemma_opcode_patterns(0xF7u8);
        reveal_strlit("RST ");
        reveal_strlit("RST 6");
    }
    assert(disasm_text(0xFFu8, lo, hi) =~= "RST 7"@) by {
        lemma_opcode_patterns(0xFFu8);
        reveal_strlit("RST ");
        reveal_strlit("RST 7");
    }
}

/// The register ALU operations named in opcode order.
pub open spec fn alu_table() -> Seq<Seq<char>> {
    seq!["ADD"@, "ADC"@, "SUB"@, "SBB"@, "ANA"@, "XRA"@, "ORA"@, "CMP"@]
}

/// The registers named in opcode order.
pub open spec fn reg_table() -> Seq<Seq<char>> {
    seq!["B"@, "C"@, "D"@, "E"@, "H"@, "L"@, "M"@, "A"@]
}

/// Opcodes 0x80-0xBF are the register ALU group: operation (op - 0x80) / 8
/// of ADD ADC SUB SBB ANA XRA ORA CMP on register op % 8 of B C D E H L M A.
pub proof fn lemma_disasm_register_alu(op: u8, lo: u8, hi: u8)
    requires
        0x80 <= op <= 0xBF,
    ensures
        disasm_text(op, lo, hi) == alu_table()[(op - 0x80) / 8] + " "@ + reg_table()[(op % 8) as int],
{
    lemma_opcode_patterns(op);
    let k = (op - 0x80) / 8;
    assert((op / 8) % 8 == k);
    assert(alu_name(k) == alu_table()[k]);
    assert(reg_name((op % 8) as int) == reg_table()[(op % 8) as int]);
}

/// Opcodes 0x40-0x7F but 0x76 (HLT) are MOV from register op % 8 to register
/// (op - 0x40) / 8, both of B C D E H L M A.
pub proof fn lemma_disasm_mov(op: u8, lo: u8, hi: u8)
    requires
        0x40 <= op <= 0x7F,
        op != 0x76,
    ensures
        disasm_text(op, lo, hi) == "MOV "@ + reg_table()[(op - 0x40) / 8] + ","@ + reg_table()[(op % 8) as int],
{
    lemma_opcode_patterns(op);
    let k = (op - 0x40) / 8;
    assert((op / 8) % 8 == k);
    assert(reg_name(k) == reg_table()[k]);
    assert(reg_name((op % 8) as int) == reg_table()[(op % 8) as int]);
}

/// The opcodes without a mnemonic here (RLC, RRC, RAL, RAR, DAA, CMA, STC,
/// CMC, STAX, LDAX, the conditional returns and calls on parity and sign,
/// and the undocumented codes) print as `0x` and their two upper-case hex
/// digits.
pub proof fn lemma_disasm_unnamed_opcodes(op: u8, lo: u8, hi: u8)
    requires
        op == 0x02 || op == 0x07 || op == 0x08 || op == 0x0A || op == 0x0F || op == 0x10 || op == 0x12
            || op == 0x17 || op == 0x18 || op == 0x1A || op == 0x1F || op == 0x20 || op == 0x27 || op
            == 0x28 || op == 0x2F || op == 0x30 || op == 0x37 || op == 0x38 || op == 0x3F || op == 0xCB
            || op == 0xD9 || op == 0xDD || op == 0xED || op == 0xFD || op == 0xE0 || op == 0xE8 || op
            == 0xF0 || op == 0xF8 || op == 0xE4 || op == 0xEC || op == 0xF4 || op == 0xFC,
    ensures
        disasm_text(op, lo, hi) == "0x"@ + hex2_seq(op),
{
    lemma_opcode_patterns(op);
}

} // verus!
