use vstd::prelude::*;

verus! {

/// The instruction word stored big-endian in two bytes: `hi` is the high byte.
pub open spec fn word_of(hi: u8, lo: u8) -> u16 {
    (hi as int * 256 + lo as int) as u16
}

/// The four 4-bit fields of a word, most significant first: `(c, x, y, d)`.
pub open spec fn nibbles(word: u16) -> (u8, u8, u8, u8) {
    (
        (word / 0x1000) as u8,
        ((word / 0x100) % 0x10) as u8,
        ((word / 0x10) % 0x10) as u8,
        (word % 0x10) as u8,
    )
}

/// The 12-bit address field of a word.
pub open spec fn address_of(word: u16) -> u16 {
    (word % 0x1000) as u16
}

/// Combines two bytes into an instruction word, the first as the high byte.
pub fn combine_bytes(hi: u8, lo: u8) -> (word: u16)
    ensures
        word == word_of(hi, lo),
{
    let word = (hi as u16) << 8 | lo as u16;
    assert(((hi as u16) << 8 | lo as u16) == hi as u16 * 256 + lo as u16) by (bit_vector);
    word
}

/// Splits a word into its nibbles `(c, x, y, d)` and its address field `nnn`.
pub fn decode(word: u16) -> (fields: (u8, u8, u8, u8, u16))
    ensures
        (fields.0, fields.1, fields.2, fields.3) == nibbles(word),
        fields.4 == address_of(word),
{
    let c = ((word & 0xF000) >> 12) as u8;
    let x = ((word & 0x0F00) >> 8) as u8;
    let y = ((word & 0x00F0) >> 4) as u8;
    let d = (word & 0x000F) as u8;
    let nnn = word & 0x0FFF;
    assert(((word & 0xF000) >> 12) == word / 0x1000) by (bit_vector);
    assert(((word & 0x0F00) >> 8) == (word / 0x100) % 0x10) by (bit_vector);
    assert(((word & 0x00F0) >> 4) == (word / 0x10) % 0x10) by (bit_vector);
    assert((word & 0x000F) == word % 0x10) by (bit_vector);
    assert((word & 0x0FFF) == word % 0x1000) by (bit_vector);
    (c, x, y, d, nnn)
}

/// An instruction word, classified by the opcode table.
#[derive(Clone, Copy, Debug, PartialEq, Eq, Structural)]
pub enum Instruction {
    /// `0000`: stop the run.
    Halt,
    /// `00EE`: pop a return address and jump to it.
    Return,
    /// `2nnn`: push the program counter and jump to `nnn`.
    Call(u16),
    /// `8xy4`: add register `y` into register `x`, setting the flag register.
    AddXY(u8, u8),
    /// Any other word, kept whole.
    Unimplemented(u16),
}

/// The opcode table: `(c, x, y, d)` is matched against each pattern in turn.
pub open spec fn instruction_spec(word: u16) -> Instruction {
    let (c, x, y, d) = nibbles(word);
    if (c, x, y, d) == (0u8, 0u8, 0u8, 0u8) {
        Instruction::Halt
    } else if (c, x, y, d) == (0u8, 0u8, 0xEu8, 0xEu8) {
        Instruction::Return
    } else if c == 0x2 {
        Instruction::Call(address_of(word))
    } else if c == 0x8 && d == 0x4 {
        Instruction::AddXY(x, y)
    } else {
        Instruction::Unimplemented(word)
    }
}

/// Decodes a word and looks it up in the opcode table.
pub fn instruction_of(word: u16) -> (ins: Instruction)
    ensures
        ins == instruction_spec(word),
{
    let (c, x, y, d, nnn) = decode(word);
    match (c, x, y, d) {
        (0, 0, 0, 0) => Instruction::Halt,
        (0, 0, 0xE, 0xE) => Instruction::Return,
        (0x2, _, _, _) => Instruction::Call(nnn),
        (0x8, _, _, 0x4) => Instruction::AddXY(x, y),
        _ => Instruction::Unimplemented(word),
    }
}

} // verus!
