//! The layout of an instruction word.
//!
//! A word is a `u32` of which the low 22 bits are used: bits 18 to 21 hold the
//! opcode and bits 0 to 17 the operand. How the operand is divided into fields
//! depends on the opcode. The models below state the layout by division and
//! remainder, so that a contract can be read without bit arithmetic:
//! shifting right by `n` is dividing by `2^n`, masking the low `n` bits is the
//! remainder modulo `2^n`.

use vstd::prelude::*;

verus! {

/// Number of distinct opcodes that fit the opcode field.
pub const OPCODE_LIMIT: u32 = 16;

/// Number of distinct operands that fit the operand field, `2^18`.
pub const OPERAND_LIMIT: u32 = 0x4_0000;

/// Number of distinct values of a 16-bit immediate.
pub const IMMEDIATE_LIMIT: u32 = 0x1_0000;

/// Number of registers, and of values of a register field.
pub const REGISTER_COUNT: u32 = 4;

/// Number of memory words, and of values of a memory-address field.
pub const MEMORY_SIZE: u32 = 64;

/// Number of values of a jump-target field.
pub const TARGET_LIMIT: u32 = 32;

/// Does nothing.
pub const NO_OP: u32 = 0;

/// Loads a 16-bit immediate into a register.
pub const LOAD_IMMEDIATE: u32 = 1;

/// Adds two registers into a third.
pub const ADD: u32 = 2;

/// Subtracts the second source register from the first into a third.
pub const SUBTRACT: u32 = 3;

/// Compares a register with a 16-bit immediate and sets the flag.
pub const COMPARE: u32 = 4;

/// Jumps.
pub const JUMP: u32 = 5;

/// Jumps where the last comparison found the register equal.
pub const JUMP_IF_EQUAL: u32 = 6;

/// Jumps where the last comparison found the register greater.
pub const JUMP_IF_GREATER: u32 = 7;

/// Jumps where the last comparison found the register less.
pub const JUMP_IF_LESS: u32 = 8;

/// Stores a register to memory.
pub const STORE: u32 = 9;

/// Loads a register from memory.
pub const LOAD: u32 = 10;

/// Halts the machine.
pub const HALT: u32 = 15;

/// The opcode of a word: everything above the operand. For a word that uses
/// only its low 22 bits this is a value below 16.
pub open spec fn opcode_of(word: u32) -> u32 {
    word / 0x4_0000
}

/// The operand of a word: its low 18 bits.
pub open spec fn operand_of(word: u32) -> u32 {
    word % 0x4_0000
}

/// The word that holds `opcode` above `operand`.
pub open spec fn packed(opcode: int, operand: int) -> int {
    opcode * 0x4_0000 + operand
}

/// Operand of an instruction with a value above a 2-bit register: the
/// immediate of load-immediate and compare, the address of store and load.
pub open spec fn value_and_register(value: int, register: int) -> int {
    value * 4 + register
}

/// Operand of add and subtract: three 2-bit registers, the two sources above
/// the destination.
pub open spec fn three_registers(a: int, b: int, c: int) -> int {
    a * 16 + b * 4 + c
}

/// The field above the low register of an operand: the 16-bit immediate of
/// load-immediate and compare, the memory address of store and load. It takes
/// every bit of the operand above the register.
pub open spec fn value_field(operand: u32) -> u32 {
    operand / 4
}

/// The low register field of an operand: the destination of load-immediate,
/// add, subtract and load, the register that compare reads and store writes
/// out.
pub open spec fn register_field(operand: u32) -> u32 {
    operand % 4
}

/// The first source register of add and subtract. It takes every bit of the
/// operand above the other two registers, so it may name a register that does
/// not exist.
pub open spec fn first_source_field(operand: u32) -> u32 {
    operand / 16
}

/// The second source register of add and subtract.
pub open spec fn second_source_field(operand: u32) -> u32 {
    (operand / 4) % 4
}

/// The target of a jump: the low five bits of the operand.
pub open spec fn target_field(operand: u32) -> u32 {
    operand % 32
}

/// The bound below which the operands of an opcode lie where no bit above
/// its fields is set: `2^18` with a 16-bit immediate and a register, `2^8`
/// with an address and a register, `2^6` with three registers, `2^5` with a
/// jump target, 1 for halt, whose operand then is 0. It is 0 for an opcode
/// that no mnemonic names, no-op among them.
pub open spec fn operand_limit(opcode: u32) -> int {
    if opcode == LOAD_IMMEDIATE || opcode == COMPARE {
        0x4_0000
    } else if opcode == STORE || opcode == LOAD {
        256
    } else if opcode == ADD || opcode == SUBTRACT {
        64
    } else if opcode == JUMP || opcode == JUMP_IF_EQUAL || opcode == JUMP_IF_GREATER || opcode
        == JUMP_IF_LESS {
        32
    } else if opcode == HALT {
        1
    } else {
        0
    }
}

/// Whether a word is an instruction as source text can state it: its opcode
/// has a mnemonic and its operand has no bit above the fields of that opcode.
pub open spec fn in_source_form(word: u32) -> bool {
    operand_of(word) < operand_limit(opcode_of(word))
}

/// Packs an opcode and an operand into a word.
pub fn encode(opcode: u32, operand: u32) -> (word: u32)
    requires
        opcode < OPCODE_LIMIT,
        operand < OPERAND_LIMIT,
    ensures
        word == packed(opcode as int, operand as int),
        opcode_of(word) == opcode,
        operand_of(word) == operand,
{
    assert(opcode < 16 && operand < 0x4_0000 ==> ((opcode << 18) | operand) == opcode * 0x4_0000
        + operand) by (bit_vector);
    (opcode << 18) | operand
}

/// Splits a word into its opcode and its operand.
pub fn decode(word: u32) -> (fields: (u32, u32))
    ensures
        fields.0 == opcode_of(word),
        fields.1 == operand_of(word),
{
    assert(word >> 18 == word / 0x4_0000) by (bit_vector);
    assert(word & 0x3_FFFF == word % 0x4_0000) by (bit_vector);
    (word >> 18, word & 0x3_FFFF)
}

/// Reads the field above the low register of an operand.
pub fn value_of(operand: u32) -> (value: u32)
    ensures
        value == value_field(operand),
{
    operand / 4
}

/// Reads the low register field of an operand.
pub fn register_of(operand: u32) -> (register: u32)
    ensures
        register == register_field(operand),
        register < REGISTER_COUNT,
{
    operand % 4
}

/// Reads the first source register of add and subtract.
pub fn first_source_of(operand: u32) -> (register: u32)
    ensures
        register == first_source_field(operand),
{
    operand / 16
}

/// Reads the second source register of add and subtract.
pub fn second_source_of(operand: u32) -> (register: u32)
    ensures
        register == second_source_field(operand),
        register < REGISTER_COUNT,
{
    (operand / 4) % 4
}

/// Reads the target of a jump.
pub fn target_of(operand: u32) -> (target: u32)
    ensures
        target == target_field(operand),
        target < TARGET_LIMIT,
{
    operand % 32
}

/// The layout in bits: the opcode is the word shifted right by 18, the
/// operand is the low 18 bits of the word, and the fields of an operand are
/// its bits shifted and masked.
pub proof fn lemma_fields_in_bits(word: u32)
    ensures
        opcode_of(word) == word >> 18,
        operand_of(word) == word & 0x3_FFFF,
        value_field(word) == word >> 2,
        register_field(word) == word & 0b11,
        first_source_field(word) == word >> 4,
        second_source_field(word) == (word >> 2) & 0b11,
        target_field(word) == word & 0b1_1111,
{
    assert(word / 0x4_0000 == word >> 18) by (bit_vector);
    assert(word % 0x4_0000 == word & 0x3_FFFF) by (bit_vector);
    assert(word / 4 == word >> 2) by (bit_vector);
    assert(word % 4 == word & 0b11) by (bit_vector);
    assert(word / 16 == word >> 4) by (bit_vector);
    assert((word / 4) % 4 == (word >> 2) & 0b11) by (bit_vector);
    assert(word % 32 == word & 0b1_1111) by (bit_vector);
}

/// Decoding what was encoded gives the opcode and the operand back, for every
/// opcode and every operand that fit their fields.
pub proof fn lemma_decode_encode(opcode: u32, operand: u32)
    requires
        opcode < OPCODE_LIMIT,
        operand < OPERAND_LIMIT,
    ensures
        0 <= packed(opcode as int, operand as int) < 0x40_0000,
        opcode_of(packed(opcode as int, operand as int) as u32) == opcode,
        operand_of(packed(opcode as int, operand as int) as u32) == operand,
{
}

/// A 16-bit value and a register packed into an operand fit the operand field
/// and are read back by the two fields.
pub proof fn lemma_value_and_register_fields(value: int, register: int)
    requires
        0 <= value < IMMEDIATE_LIMIT,
        0 <= register < REGISTER_COUNT,
    ensures
        0 <= value_and_register(value, register) < OPERAND_LIMIT,
        value_field(value_and_register(value, register) as u32) == value,
        register_field(value_and_register(value, register) as u32) == register,
{
}

/// Three registers packed into an operand are read back by the three fields.
pub proof fn lemma_three_registers_fields(a: int, b: int, c: int)
    requires
        0 <= a < REGISTER_COUNT,
        0 <= b < REGISTER_COUNT,
        0 <= c < REGISTER_COUNT,
    ensures
        0 <= three_registers(a, b, c) < 64,
        first_source_field(three_registers(a, b, c) as u32) == a,
        second_source_field(three_registers(a, b, c) as u32) == b,
        register_field(three_registers(a, b, c) as u32) == c,
{
}

/// A jump target that fits its field is read back from the operand.
pub proof fn lemma_target_field(target: int)
    requires
        0 <= target < TARGET_LIMIT,
    ensures
        target_field(target as u32) == target,
{
}

} // verus!
