//! Rendering values back to text: tokens as close to their source form as
//! possible, and instructions in the assembly textual form.

use vstd::prelude::*;
use crate::air::{Flag, Inst, Instruction, Mode, Reg};
use crate::block::Block;
use crate::token::TokenType;
use crate::span::SourceSpan;

verus! {

/// Relies on String::from_utf8: bytes below 128 decode to exactly one
/// character each, the character with that code.
#[verifier::external_body]
fn string_from_ascii(bytes: Vec<u8>) -> (r: String)
    requires
        forall|i: int| 0 <= i < bytes@.len() ==> bytes@[i] < 128,
    ensures
        r@.len() == bytes@.len(),
        forall|i: int| 0 <= i < bytes@.len() ==> r@[i] == bytes@[i] as char,
{
    String::from_utf8(bytes).unwrap_or(String::new())
}

/// The ASCII bytes of `n` in decimal.
pub open spec fn spec_dec_bytes(n: u64) -> Seq<u8>
    decreases n,
{
    if n < 10 {
        seq![(48 + n) as u8]
    } else {
        spec_dec_bytes(n / 10).push((48 + n % 10) as u8)
    }
}

/// The characters of `n` in decimal.
pub open spec fn spec_dec_chars(n: u64) -> Seq<char> {
    Seq::new(spec_dec_bytes(n).len(), |i: int| spec_dec_bytes(n)[i] as char)
}

/// The ASCII byte of a single base-16 digit, with lower-case letters.
pub open spec fn spec_hex_digit(d: u64) -> u8 {
    if d < 10 {
        (48 + d) as u8
    } else {
        (87 + d) as u8
    }
}

/// The ASCII bytes of `n` in base 16, with lower-case letters.
pub open spec fn spec_hex_bytes(n: u64) -> Seq<u8>
    decreases n,
{
    if n < 16 {
        seq![spec_hex_digit(n)]
    } else {
        spec_hex_bytes(n / 16).push(spec_hex_digit(n % 16))
    }
}

/// The characters of `n` in base 16, with lower-case letters.
pub open spec fn spec_hex_chars(n: u64) -> Seq<char> {
    Seq::new(spec_hex_bytes(n).len(), |i: int| spec_hex_bytes(n)[i] as char)
}

/// Every decimal byte is an ASCII digit.
proof fn lemma_dec_bytes_ascii(n: u64)
    ensures
        forall|i: int| 0 <= i < spec_dec_bytes(n).len() ==> #[trigger] spec_dec_bytes(n)[i] < 128,
    decreases n,
{
    if n >= 10 {
        lemma_dec_bytes_ascii(n / 10);
        assert forall|i: int| 0 <= i < spec_dec_bytes(n).len() implies #[trigger] spec_dec_bytes(
            n,
        )[i] < 128 by {
            if i < spec_dec_bytes(n / 10).len() {
                assert(spec_dec_bytes(n)[i] == spec_dec_bytes(n / 10)[i]);
            }
        }
    }
}

/// Every base-16 byte is ASCII.
proof fn lemma_hex_bytes_ascii(n: u64)
    ensures
        forall|i: int| 0 <= i < spec_hex_bytes(n).len() ==> #[trigger] spec_hex_bytes(n)[i] < 128,
    decreases n,
{
    if n >= 16 {
        lemma_hex_bytes_ascii(n / 16);
        assert forall|i: int| 0 <= i < spec_hex_bytes(n).len() implies #[trigger] spec_hex_bytes(
            n,
        )[i] < 128 by {
            if i < spec_hex_bytes(n / 16).len() {
                assert(spec_hex_bytes(n)[i] == spec_hex_bytes(n / 16)[i]);
            }
        }
    }
}

/// Push the decimal ASCII digits of `n`.
fn push_dec_bytes(n: u64, out: &mut Vec<u8>)
    ensures
        final(out)@ == old(out)@ + spec_dec_bytes(n),
    decreases n,
{
    if n < 10 {
        out.push(48 + (n as u8));
        proof {
            assert(out@ =~= old(out)@ + spec_dec_bytes(n));
        }
    } else {
        push_dec_bytes(n / 10, out);
        out.push(48 + ((n % 10) as u8));
        proof {
            assert(out@ =~= old(out)@ + spec_dec_bytes(n));
        }
    }
}

/// Push the base-16 ASCII digits of `n`.
fn push_hex_bytes(n: u64, out: &mut Vec<u8>)
    ensures
        final(out)@ == old(out)@ + spec_hex_bytes(n),
    decreases n,
{
    if n < 16 {
        let d = n as u8;
        out.push(
            if d < 10 {
                48 + d
            } else {
                87 + d
            },
        );
        proof {
            assert(out@ =~= old(out)@ + spec_hex_bytes(n));
        }
    } else {
        push_hex_bytes(n / 16, out);
        let d = (n % 16) as u8;
        out.push(
            if d < 10 {
                48 + d
            } else {
                87 + d
            },
        );
        proof {
            assert(out@ =~= old(out)@ + spec_hex_bytes(n));
        }
    }
}

/// The decimal text of `n`.
pub fn dec_string(n: u64) -> (r: String)
    ensures
        r@ == spec_dec_chars(n),
{
    let mut out: Vec<u8> = Vec::new();
    push_dec_bytes(n, &mut out);
    proof {
        lemma_dec_bytes_ascii(n);
        assert(out@ =~= spec_dec_bytes(n));
    }
    let r = string_from_ascii(out);
    proof {
        assert(r@ =~= spec_dec_chars(n));
    }
    r
}

/// The base-16 text of `n`, with lower-case letters.
pub fn hex_string(n: u64) -> (r: String)
    ensures
        r@ == spec_hex_chars(n),
{
    let mut out: Vec<u8> = Vec::new();
    push_hex_bytes(n, &mut out);
    proof {
        lemma_hex_bytes_ascii(n);
        assert(out@ =~= spec_hex_bytes(n));
    }
    let r = string_from_ascii(out);
    proof {
        assert(r@ =~= spec_hex_chars(n));
    }
    r
}

/// The text of a token kind, as close to its source representation as
/// possible.
pub open spec fn spec_token_text(t: crate::token::TokenTypeV) -> Seq<char> {
    match t {
        crate::token::TokenTypeV::LeftParen => "("@,
        crate::token::TokenTypeV::RightParen => ")"@,
        crate::token::TokenTypeV::LeftBrace => "{"@,
        crate::token::TokenTypeV::RightBrace => "}"@,
        crate::token::TokenTypeV::LeftSquare => "["@,
        crate::token::TokenTypeV::RightSquare => "]"@,
        crate::token::TokenTypeV::Comma => ","@,
        crate::token::TokenTypeV::Dot => "."@,
        crate::token::TokenTypeV::Minus => "-"@,
        crate::token::TokenTypeV::Plus => "+"@,
        crate::token::TokenTypeV::Slash => "/"@,
        crate::token::TokenTypeV::Star => "*"@,
        crate::token::TokenTypeV::Semicolon => ";"@,
        crate::token::TokenTypeV::LessThan => "<"@,
        crate::token::TokenTypeV::GreaterThan => ">"@,
        crate::token::TokenTypeV::LessThanEq => "<="@,
        crate::token::TokenTypeV::GreaterThanEq => ">="@,
        crate::token::TokenTypeV::EqEq => "=="@,
        crate::token::TokenTypeV::Colon => ":"@,
        crate::token::TokenTypeV::Assign => ":="@,
        crate::token::TokenTypeV::Bang => "!"@,
        crate::token::TokenTypeV::BangEq => "!="@,
        crate::token::TokenTypeV::Identifier(s) => s,
        crate::token::TokenTypeV::Char(c) => seq![c],
        crate::token::TokenTypeV::Number(n) => spec_dec_chars(n),
        crate::token::TokenTypeV::Bool(b) => if b {
            "true"@
        } else {
            "false"@
        },
        crate::token::TokenTypeV::Let => "let"@,
        crate::token::TokenTypeV::If => "if"@,
        crate::token::TokenTypeV::For => "for"@,
        crate::token::TokenTypeV::While => "while"@,
        crate::token::TokenTypeV::Yield => "yield"@,
        crate::token::TokenTypeV::EOF => "EOF"@,
    }
}

/// Relies on char methods through String::push via format!: a one-character
/// string of exactly the given character.
#[verifier::external_body]
fn char_string(c: char) -> (r: String)
    ensures
        r@ == seq![c],
{
    format!("{}", c)
}

/// Render a token kind as close to its source representation as possible.
pub fn token_text(t: &TokenType) -> (r: String)
    ensures
        r@ == spec_token_text(t@),
{
    match t {
        TokenType::LeftParen => "(".to_owned(),
        TokenType::RightParen => ")".to_owned(),
        TokenType::LeftBrace => "{".to_owned(),
        TokenType::RightBrace => "}".to_owned(),
        TokenType::LeftSquare => "[".to_owned(),
        TokenType::RightSquare => "]".to_owned(),
        TokenType::Comma => ",".to_owned(),
        TokenType::Dot => ".".to_owned(),
        TokenType::Minus => "-".to_owned(),
        TokenType::Plus => "+".to_owned(),
        TokenType::Slash => "/".to_owned(),
        TokenType::Star => "*".to_owned(),
        TokenType::Semicolon => ";".to_owned(),
        TokenType::LessThan => "<".to_owned(),
        TokenType::GreaterThan => ">".to_owned(),
        TokenType::LessThanEq => "<=".to_owned(),
        TokenType::GreaterThanEq => ">=".to_owned(),
        TokenType::EqEq => "==".to_owned(),
        TokenType::Colon => ":".to_owned(),
        TokenType::Assign => ":=".to_owned(),
        TokenType::Bang => "!".to_owned(),
        TokenType::BangEq => "!=".to_owned(),
        TokenType::Identifier(s) => s.clone(),
        TokenType::Char(c) => char_string(*c),
        TokenType::Number(n) => dec_string(*n),
        TokenType::Bool(b) => if *b {
            "true".to_owned()
        } else {
            "false".to_owned()
        },
        TokenType::Let => "let".to_owned(),
        TokenType::If => "if".to_owned(),
        TokenType::For => "for".to_owned(),
        TokenType::While => "while".to_owned(),
        TokenType::Yield => "yield".to_owned(),
        TokenType::EOF => "EOF".to_owned(),
    }
}

/// The text of a register: a percent sign and its number.
pub open spec fn spec_reg_text(r: Reg) -> Seq<char> {
    "%"@ + spec_dec_chars(r.0 as u64)
}

pub fn reg_text(r: Reg) -> (s: String)
    ensures
        s@ == spec_reg_text(r),
{
    let mut s = "%".to_owned();
    let digits = dec_string(r.0 as u64);
    s.append(digits.as_str());
    s
}

/// The text of a condition flag: the comparison it stands for, or `1` for
/// always and `0` for never.
pub open spec fn spec_flag_text(f: Flag) -> Seq<char> {
    match f {
        Flag::Al => "1"@,
        Flag::Nv => "0"@,
        Flag::Eq => "=="@,
        Flag::Ne => "!="@,
        Flag::Gt => ">"@,
        Flag::Ge => ">="@,
        Flag::Lt => "<"@,
        Flag::Le => "<="@,
    }
}

pub fn flag_text(f: &Flag) -> (s: String)
    ensures
        s@ == spec_flag_text(*f),
{
    match f {
        Flag::Al => "1".to_owned(),
        Flag::Nv => "0".to_owned(),
        Flag::Eq => "==".to_owned(),
        Flag::Ne => "!=".to_owned(),
        Flag::Gt => ">".to_owned(),
        Flag::Ge => ">=".to_owned(),
        Flag::Lt => "<".to_owned(),
        Flag::Le => "<=".to_owned(),
    }
}

/// The textual line of one instruction, ending in a newline: a mnemonic and
/// its operands, with constants in base 16 and labels rendered as
/// `name:` / `BRA name`.
pub open spec fn spec_inst_text(i: Instruction) -> Seq<char> {
    match i {
        Instruction::ADD(rd, rx, ry) => "ADD "@ + spec_reg_text(rd) + ", "@ + spec_reg_text(rx)
            + ", "@ + spec_reg_text(ry) + "\n"@,
        Instruction::SUB(rd, rx, ry) => "SUB "@ + spec_reg_text(rd) + ", "@ + spec_reg_text(rx)
            + ", "@ + spec_reg_text(ry) + "\n"@,
        Instruction::MUL(rd, rx, ry) => "MUL "@ + spec_reg_text(rd) + ", "@ + spec_reg_text(rx)
            + ", "@ + spec_reg_text(ry) + "\n"@,
        Instruction::DIV(rd, rx, ry) => "DIV "@ + spec_reg_text(rd) + ", "@ + spec_reg_text(rx)
            + ", "@ + spec_reg_text(ry) + "\n"@,
        Instruction::NOT(rd, rx) => "NOT "@ + spec_reg_text(rd) + ", "@ + spec_reg_text(rx)
            + "\n"@,
        Instruction::CMP(rx, ry, _) => "CMP "@ + spec_reg_text(rx) + ", "@ + spec_reg_text(ry)
            + "\n"@,
        Instruction::CON(rd, c) => "CONST "@ + spec_reg_text(rd) + ", =0x"@ + spec_hex_chars(
            c as u64,
        ) + "\n"@,
        Instruction::MOV(rd, rx) => "MOV "@ + spec_reg_text(rd) + ", "@ + spec_reg_text(rx)
            + "\n"@,
        Instruction::LBL(label) => label@ + ":\n"@,
        Instruction::BRA(label) => "BRA "@ + label@ + "\n"@,
        Instruction::CHK(flag) => "CHK "@ + spec_flag_text(flag) + "\n"@,
        Instruction::YLD(rx) => "YLD "@ + spec_reg_text(rx) + "\n"@,
        Instruction::STR(rd, adr, mode) => "STR "@ + spec_access_text(rd, adr, mode),
        Instruction::LDR(rd, adr, mode) => "LDR "@ + spec_access_text(rd, adr, mode),
    }
}

/// The operand text of a load or store: the data register and the address in
/// its addressing-mode notation.
pub open spec fn spec_access_text(rd: Reg, adr: Reg, mode: Mode) -> Seq<char> {
    match mode {
        Mode::Plain => spec_reg_text(rd) + ", ["@ + spec_reg_text(adr) + "]\n"@,
        Mode::Offset(o) => spec_reg_text(rd) + ", ["@ + spec_reg_text(adr) + ", "@ + spec_reg_text(
            o,
        ) + "]\n"@,
        Mode::PreOffset(o) => spec_reg_text(rd) + ", ["@ + spec_reg_text(adr) + ", "@
            + spec_reg_text(o) + "]!\n"@,
        Mode::PostOffset(o) => spec_reg_text(rd) + ", ["@ + spec_reg_text(adr) + "], "@
            + spec_reg_text(o) + "\n"@,
    }
}

fn access_text(rd: Reg, adr: Reg, mode: &Mode) -> (s: String)
    ensures
        s@ == spec_access_text(rd, adr, *mode),
{
    let mut s = reg_text(rd);
    s.append(", [");
    let a = reg_text(adr);
    s.append(a.as_str());
    match mode {
        Mode::Plain => {
            s.append("]\n");
        },
        Mode::Offset(o) => {
            s.append(", ");
            let t = reg_text(*o);
            s.append(t.as_str());
            s.append("]\n");
        },
        Mode::PreOffset(o) => {
            s.append(", ");
            let t = reg_text(*o);
            s.append(t.as_str());
            s.append("]!\n");
        },
        Mode::PostOffset(o) => {
            s.append("], ");
            let t = reg_text(*o);
            s.append(t.as_str());
            s.append("\n");
        },
    }
    s
}

/// Render one instruction as its textual line.
pub fn inst_text(i: &Instruction) -> (s: String)
    ensures
        s@ == spec_inst_text(*i),
{
    match i {
        Instruction::ADD(rd, rx, ry) => three_reg_text("ADD ", *rd, *rx, *ry),
        Instruction::SUB(rd, rx, ry) => three_reg_text("SUB ", *rd, *rx, *ry),
        Instruction::MUL(rd, rx, ry) => three_reg_text("MUL ", *rd, *rx, *ry),
        Instruction::DIV(rd, rx, ry) => three_reg_text("DIV ", *rd, *rx, *ry),
        Instruction::NOT(rd, rx) => two_reg_text("NOT ", *rd, *rx),
        Instruction::CMP(rx, ry, _) => two_reg_text("CMP ", *rx, *ry),
        Instruction::CON(rd, c) => {
            let mut s = "CONST ".to_owned();
            let r = reg_text(*rd);
            s.append(r.as_str());
            s.append(", =0x");
            let h = hex_string(*c as u64);
            s.append(h.as_str());
            s.append("\n");
            s
        },
        Instruction::MOV(rd, rx) => two_reg_text("MOV ", *rd, *rx),
        Instruction::LBL(label) => {
            let mut s = label.clone();
            s.append(":\n");
            s
        },
        Instruction::BRA(label) => {
            let mut s = "BRA ".to_owned();
            s.append(label.as_str());
            s.append("\n");
            s
        },
        Instruction::CHK(flag) => {
            let mut s = "CHK ".to_owned();
            let t = flag_text(flag);
            s.append(t.as_str());
            s.append("\n");
            s
        },
        Instruction::YLD(rx) => {
            let mut s = "YLD ".to_owned();
            let r = reg_text(*rx);
            s.append(r.as_str());
            s.append("\n");
            s
        },
        Instruction::STR(rd, adr, mode) => {
            let mut s = "STR ".to_owned();
            let t = access_text(*rd, *adr, mode);
            s.append(t.as_str());
            s
        },
        Instruction::LDR(rd, adr, mode) => {
            let mut s = "LDR ".to_owned();
            let t = access_text(*rd, *adr, mode);
            s.append(t.as_str());
            s
        },
    }
}

fn three_reg_text(mnemonic: &str, rd: Reg, rx: Reg, ry: Reg) -> (s: String)
    ensures
        s@ == mnemonic@ + spec_reg_text(rd) + ", "@ + spec_reg_text(rx) + ", "@ + spec_reg_text(ry)
            + "\n"@,
{
    let mut s = mnemonic.to_owned();
    let a = reg_text(rd);
    s.append(a.as_str());
    s.append(", ");
    let b = reg_text(rx);
    s.append(b.as_str());
    s.append(", ");
    let c = reg_text(ry);
    s.append(c.as_str());
    s.append("\n");
    s
}

fn two_reg_text(mnemonic: &str, rd: Reg, rx: Reg) -> (s: String)
    ensures
        s@ == mnemonic@ + spec_reg_text(rd) + ", "@ + spec_reg_text(rx) + "\n"@,
{
    let mut s = mnemonic.to_owned();
    let a = reg_text(rd);
    s.append(a.as_str());
    s.append(", ");
    let b = reg_text(rx);
    s.append(b.as_str());
    s.append("\n");
    s
}

/// The text of a whole instruction sequence: each instruction's line in
/// order.
pub open spec fn spec_insts_text(insts: Seq<Instruction>) -> Seq<char>
    decreases insts.len(),
{
    if insts.len() == 0 {
        Seq::empty()
    } else {
        spec_insts_text(insts.drop_last()) + spec_inst_text(insts.last())
    }
}

/// Render a sequence of instructions, one line each.
pub fn insts_text(insts: &Vec<Instruction>) -> (s: String)
    ensures
        s@ == spec_insts_text(insts@),
{
    let mut s = String::new();
    let mut i: usize = 0;
    while i < insts.len()
        invariant
            i <= insts@.len(),
            s@ == spec_insts_text(insts@.subrange(0, i as int)),
        decreases insts@.len() - i,
    {
        let line = inst_text(&insts[i]);
        s.append(line.as_str());
        proof {
            assert(insts@.subrange(0, i + 1).drop_last() =~= insts@.subrange(0, i as int));
            assert(insts@.subrange(0, i + 1).last() == insts@[i as int]);
        }
        i = i + 1;
    }
    proof {
        assert(insts@.subrange(0, insts@.len() as int) =~= insts@);
    }
    s
}

/// Render a block's instructions, one line each.
pub fn block_text(b: &Block) -> (s: String)
    ensures
        s@ == spec_insts_text(Seq::new(b.instructions@.len(), |i: int| b.instructions@[i].instruction)),
{
    let mut s = String::new();
    let mut i: usize = 0;
    let ghost insts = Seq::new(b.instructions@.len(), |i: int| b.instructions@[i].instruction);
    while i < b.instructions.len()
        invariant
            i <= b.instructions@.len(),
            insts == Seq::new(b.instructions@.len(), |i: int| b.instructions@[i].instruction),
            s@ == spec_insts_text(insts.subrange(0, i as int)),
        decreases b.instructions@.len() - i,
    {
        let line = inst_text(&b.instructions[i].instruction);
        s.append(line.as_str());
        proof {
            assert(insts.subrange(0, i + 1).drop_last() =~= insts.subrange(0, i as int));
            assert(insts.subrange(0, i + 1).last() == insts[i as int]);
        }
        i = i + 1;
    }
    proof {
        assert(insts.subrange(0, insts.len() as int) =~= insts);
    }
    s
}

/// Render a flat instruction sequence and compute, for each instruction, the
/// range of the rendered text it occupies together with the atomic span
/// identifiers it came from.
pub fn render_and_compute_spans(instructions: Vec<Inst>) -> (r: (String, Vec<SourceSpan>))
    ensures
        r.1@.len() == instructions@.len(),
{
    let mut rendered = String::new();
    let mut spans: Vec<SourceSpan> = Vec::new();
    let mut i: usize = 0;
    while i < instructions.len()
        invariant
            i <= instructions@.len(),
            spans@.len() == i,
        decreases instructions@.len() - i,
    {
        let line = inst_text(&instructions[i].instruction);
        let start = rendered.as_str().unicode_len();
        rendered.append(line.as_str());
        let end = rendered.as_str().unicode_len();
        let ids = instructions[i].span.composing_ids();
        spans.push(SourceSpan { start, end, ids });
        i = i + 1;
    }
    (rendered, spans)
}

} // verus!
