use isc_vm::text::push_decimal;
use isc_vm::{
    assemble, disassemble, encode, get_opcode_name, get_opcode_name_long, print_as_assembly,
    print_program_as_assembly,
};

#[test]
fn every_opcode_has_its_mnemonic() {
    let names = ["nop", "ldi", "add", "sub", "cmp", "jmp", "jeq", "jgt", "jlt", "sto", "lod", "", "", "", "", "hlt"];
    for (opcode, name) in names.iter().enumerate() {
        assert_eq!(get_opcode_name(opcode as u32, false), *name);
    }
    assert_eq!(get_opcode_name(16, false), "");
    assert_eq!(get_opcode_name(u32::MAX, false), "");
}

#[test]
fn the_upper_case_mnemonic_is_the_mnemonic_in_capitals() {
    let names = ["NOP", "LDI", "ADD", "SUB", "CMP", "JMP", "JEQ", "JGT", "JLT", "STO", "LOD", "", "", "", "", "HLT"];
    for (opcode, name) in names.iter().enumerate() {
        assert_eq!(get_opcode_name(opcode as u32, true), *name);
        assert_eq!(
            get_opcode_name(opcode as u32, true),
            get_opcode_name(opcode as u32, false).to_ascii_uppercase()
        );
    }
}

#[test]
fn every_opcode_has_its_long_name_on_a_line() {
    let names = [
        "NO-OP\n",
        "LOAD IMMEDIATE\n",
        "ADD\n",
        "SUBTRACT\n",
        "COMPARE\n",
        "JUMP\n",
        "JUMP IF EQUAL\n",
        "JUMP IF GREATER THAN\n",
        "JUMP IF LESS THAN\n",
        "STORE\n",
        "LOAD\n",
        "\n",
        "\n",
        "\n",
        "\n",
        "HALT\n",
    ];
    for (opcode, name) in names.iter().enumerate() {
        assert_eq!(get_opcode_name_long(opcode as u32), *name);
    }
    assert_eq!(get_opcode_name_long(16), "\n");
}

#[test]
fn the_mnemonic_of_an_opcode_assembles_to_that_opcode() {
    for opcode in [15u32] {
        assert_eq!(assemble(&get_opcode_name(opcode, false)), Ok(vec![encode(opcode, 0)]));
    }
    for opcode in [5u32, 6, 7, 8] {
        let source = format!("{} 9", get_opcode_name(opcode, false));
        assert_eq!(assemble(&source), Ok(vec![encode(opcode, 9)]));
    }
    for opcode in [1u32, 4, 9, 10] {
        let source = format!("{} 9 r1", get_opcode_name(opcode, false));
        assert_eq!(assemble(&source), Ok(vec![encode(opcode, 37)]));
    }
    for opcode in [2u32, 3] {
        let source = format!("{} r1 r2 r3", get_opcode_name(opcode, false));
        assert_eq!(assemble(&source), Ok(vec![encode(opcode, 27)]));
    }
}

#[test]
fn a_load_immediate_shows_its_value_and_its_register() {
    assert_eq!(print_as_assembly(encode(1, 5 * 4)), "LOAD IMMEDIATE\n5 R0");
    assert_eq!(print_as_assembly(encode(1, 16 * 4 + 1)), "LOAD IMMEDIATE\n16 R1");
    assert_eq!(print_as_assembly(encode(1, 0x3FFFF)), "LOAD IMMEDIATE\n65535 R3");
    assert_eq!(print_as_assembly(encode(1, 0)), "LOAD IMMEDIATE\n0 R0");
    assert_eq!(print_as_assembly(encode(1, 1000 * 4 + 2)), "LOAD IMMEDIATE\n1000 R2");
}

#[test]
fn any_other_instruction_shows_its_long_name_only() {
    assert_eq!(print_as_assembly(0), "NO-OP\n");
    assert_eq!(print_as_assembly(encode(2, 27)), "ADD\n");
    assert_eq!(print_as_assembly(encode(3, 27)), "SUBTRACT\n");
    assert_eq!(print_as_assembly(encode(4, 34)), "COMPARE\n");
    assert_eq!(print_as_assembly(encode(5, 3)), "JUMP\n");
    assert_eq!(print_as_assembly(encode(6, 3)), "JUMP IF EQUAL\n");
    assert_eq!(print_as_assembly(encode(7, 3)), "JUMP IF GREATER THAN\n");
    assert_eq!(print_as_assembly(encode(8, 3)), "JUMP IF LESS THAN\n");
    assert_eq!(print_as_assembly(encode(9, 74)), "STORE\n");
    assert_eq!(print_as_assembly(encode(10, 74)), "LOAD\n");
    assert_eq!(print_as_assembly(encode(15, 0)), "HALT\n");
    assert_eq!(print_as_assembly(encode(12, 5)), "\n");
    assert_eq!(print_as_assembly(0xFFFF_FFFF), "\n");
}

#[test]
fn an_assembled_load_immediate_disassembles_to_its_operands() {
    for value in [0u32, 1, 9, 10, 99, 100, 255, 256, 1234, 9999, 10000, 32768, 65534, 65535] {
        for register in 0..4u32 {
            let source = format!("ldi {} r{}", value, register);
            let program = assemble(&source).unwrap();
            assert_eq!(program.len(), 1);
            assert_eq!(
                print_as_assembly(program[0]),
                format!("LOAD IMMEDIATE\n{} R{}", value, register)
            );
        }
    }
}

#[test]
fn every_assembled_load_immediate_disassembles_to_its_operands() {
    for value in 0..65536u32 {
        let register = value % 4;
        let source = format!("ldi {} r{}", value, register);
        let program = assemble(&source).unwrap();
        assert_eq!(program, vec![encode(1, value * 4 + register)]);
        assert_eq!(print_as_assembly(program[0]), format!("LOAD IMMEDIATE\n{} R{}", value, register));
    }
}

#[test]
fn a_program_is_shown_instruction_by_instruction() {
    let program = assemble("ldi 5 r0\nldi 4 r1\nadd r0 r1 r2\nhlt").unwrap();
    assert_eq!(
        print_program_as_assembly(&program),
        "LOAD IMMEDIATE\n5 R0\nLOAD IMMEDIATE\n4 R1\nADD\n\nHALT\n\n"
    );
    assert_eq!(print_program_as_assembly(&Vec::new()), "");
    assert_eq!(print_program_as_assembly(&vec![0]), "NO-OP\n\n");
}

#[test]
fn decimal_digits_are_appended() {
    let mut text = String::from("n=");
    push_decimal(&mut text, 0);
    push_decimal(&mut text, 7);
    push_decimal(&mut text, 10);
    push_decimal(&mut text, 4294967295);
    assert_eq!(text, "n=07104294967295");
    for n in [0u32, 9, 10, 11, 99, 100, 101, 65535, 1_000_000, 4_000_000_000] {
        let mut text = String::new();
        push_decimal(&mut text, n);
        assert_eq!(text, n.to_string());
    }
}

#[test]
fn every_instruction_has_its_source_line() {
    assert_eq!(disassemble(encode(1, 5 * 4)), "ldi 5 r0");
    assert_eq!(disassemble(encode(2, 1 * 16 + 2 * 4 + 3)), "add r1 r2 r3");
    assert_eq!(disassemble(encode(3, 3 * 16 + 2 * 4 + 1)), "sub r3 r2 r1");
    assert_eq!(disassemble(encode(4, 8 * 4 + 2)), "cmp 8 r2");
    assert_eq!(disassemble(encode(5, 3)), "jmp 3");
    assert_eq!(disassemble(encode(6, 4)), "jeq 4");
    assert_eq!(disassemble(encode(7, 5)), "jgt 5");
    assert_eq!(disassemble(encode(8, 2)), "jlt 2");
    assert_eq!(disassemble(encode(9, 18 * 4 + 2)), "sto 18 r2");
    assert_eq!(disassemble(encode(10, 63 * 4 + 3)), "lod 63 r3");
    assert_eq!(disassemble(encode(15, 0)), "hlt");
    assert_eq!(disassemble(encode(1, 0x3FFFF)), "ldi 65535 r3");
}

#[test]
fn an_instruction_without_operands_has_its_mnemonic_alone() {
    assert_eq!(disassemble(0), "nop");
    assert_eq!(disassemble(encode(0, 77)), "nop");
    assert_eq!(disassemble(encode(15, 77)), "hlt");
    assert_eq!(disassemble(encode(11, 77)), "");
    assert_eq!(disassemble(0xFFFF_FFFF), "");
}

#[test]
fn a_source_line_shows_the_fields_as_the_processor_reads_them() {
    assert_eq!(disassemble(encode(2, 4 * 16 + 1)), "add r4 r0 r1");
    assert_eq!(disassemble(encode(9, 64 * 4 + 1)), "sto 64 r1");
    assert_eq!(disassemble(encode(5, 32 + 7)), "jmp 7");
}

#[test]
fn the_demonstration_program_has_its_source() {
    let lines: Vec<String> = isc_vm::demo_program().iter().map(|word| disassemble(*word)).collect();
    assert_eq!(
        lines,
        vec!["ldi 1 r1", "ldi 1 r2", "add r1 r2 r2", "cmp 8 r2", "jlt 2", "sto 18 r2", "hlt"]
    );
}

#[test]
fn a_source_line_assembles_to_its_instruction() {
    let mut words: Vec<u32> = Vec::new();
    for operand in (0..0x4_0000u32).step_by(97) {
        words.push(encode(1, operand));
        words.push(encode(4, operand));
    }
    for operand in 0..256u32 {
        words.push(encode(9, operand));
        words.push(encode(10, operand));
    }
    for operand in 0..64u32 {
        words.push(encode(2, operand));
        words.push(encode(3, operand));
    }
    for operand in 0..32u32 {
        for opcode in 5..9u32 {
            words.push(encode(opcode, operand));
        }
    }
    words.push(encode(15, 0));
    words.push(encode(1, 0x3FFFF));
    for word in words.iter() {
        assert_eq!(assemble(&disassemble(*word)), Ok(vec![*word]));
    }
}

#[test]
fn an_assembled_line_disassembles_to_its_tokens() {
    let source = "  ldi   007\tr1 \nadd x1 y2 z3\njmp 5 6\nhlt now";
    let lines: Vec<String> = assemble(source).unwrap().iter().map(|word| disassemble(*word)).collect();
    assert_eq!(lines, vec!["ldi 7 r1", "add r1 r2 r3", "jmp 5", "hlt"]);
}
