use isc_vm::codec::{
    ADD, COMPARE, HALT, JUMP, JUMP_IF_EQUAL, JUMP_IF_GREATER, JUMP_IF_LESS, LOAD, LOAD_IMMEDIATE,
    NO_OP, OPCODE_LIMIT, OPERAND_LIMIT, STORE, SUBTRACT,
};
use isc_vm::{decode, encode};

#[test]
fn encode_puts_the_opcode_above_the_operand() {
    assert_eq!(encode(1, 21), 0b0001_000000000000010101);
    assert_eq!(encode(1, 21), 0x40015);
    assert_eq!(encode(15, 0), 0x3C0000);
    assert_eq!(encode(0, 0), 0);
    assert_eq!(encode(15, 0x3FFFF), 0x3FFFFF);
}

#[test]
fn decode_splits_at_bit_eighteen() {
    assert_eq!(decode(0x40015), (1, 21));
    assert_eq!(decode(0x3C0000), (15, 0));
    assert_eq!(decode(0), (0, 0));
    assert_eq!(decode(0x3FFFFF), (15, 0x3FFFF));
}

#[test]
fn decode_takes_every_bit_above_the_operand_as_opcode() {
    assert_eq!(decode(0xFFFF_FFFF), (0x3FFF, 0x3FFFF));
    assert_eq!(decode(0x40_0000), (16, 0));
}

#[test]
fn decode_inverts_encode_for_every_opcode() {
    let operands = [0u32, 1, 2, 3, 4, 31, 32, 63, 64, 255, 256, 0x1234, 0xFFFF, 0x2AAAA, 0x3FFFE, 0x3FFFF];
    for opcode in 0..OPCODE_LIMIT {
        for &operand in operands.iter() {
            assert_eq!(decode(encode(opcode, operand)), (opcode, operand));
        }
    }
}

#[test]
fn decode_inverts_encode_for_every_operand_of_one_opcode() {
    for operand in 0..OPERAND_LIMIT {
        assert_eq!(decode(encode(LOAD_IMMEDIATE, operand)), (LOAD_IMMEDIATE, operand));
    }
}

#[test]
fn opcodes_have_the_numbers_of_the_instruction_set() {
    assert_eq!(NO_OP, 0);
    assert_eq!(LOAD_IMMEDIATE, 1);
    assert_eq!(ADD, 2);
    assert_eq!(SUBTRACT, 3);
    assert_eq!(COMPARE, 4);
    assert_eq!(JUMP, 5);
    assert_eq!(JUMP_IF_EQUAL, 6);
    assert_eq!(JUMP_IF_GREATER, 7);
    assert_eq!(JUMP_IF_LESS, 8);
    assert_eq!(STORE, 9);
    assert_eq!(LOAD, 10);
    assert_eq!(HALT, 15);
}
