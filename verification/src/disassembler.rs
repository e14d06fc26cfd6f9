//! The disassembler: from instruction words back to text.
//!
//! Every opcode has a short name, the mnemonic, and a long name. The text of
//! an instruction is its long name on a line of its own; for load-immediate
//! the immediate and the destination register follow it.

use crate::codec::{
    decode, first_source_field, first_source_of, opcode_of, operand_of, register_field,
    register_of, second_source_field, second_source_of, target_field, target_of, value_field,
    value_of, ADD, COMPARE, HALT, JUMP,
    JUMP_IF_EQUAL, JUMP_IF_GREATER, JUMP_IF_LESS, LOAD, LOAD_IMMEDIATE, NO_OP, STORE, SUBTRACT,
};
use crate::text::{decimal_digits, joined, push_decimal};
use vstd::prelude::*;
use vstd::string::StringExecFns;

verus! {

/// The upper-case form of a character: the capital of a small Latin letter,
/// any other character as it is.
pub open spec fn upper_case_char(c: char) -> char {
    if 'a' <= c <= 'z' {
        (c as int - 'a' as int + 'A' as int) as char
    } else {
        c
    }
}

/// A text with each of its characters in upper-case form.
pub open spec fn upper_case(text: Seq<char>) -> Seq<char> {
    Seq::new(text.len(), |i: int| upper_case_char(text[i]))
}

/// The mnemonic of an opcode, in small letters; no text for an opcode
/// without a meaning.
pub open spec fn mnemonic(opcode: u32) -> Seq<char> {
    if opcode == NO_OP {
        "nop"@
    } else if opcode == LOAD_IMMEDIATE {
        "ldi"@
    } else if opcode == ADD {
        "add"@
    } else if opcode == SUBTRACT {
        "sub"@
    } else if opcode == COMPARE {
        "cmp"@
    } else if opcode == JUMP {
        "jmp"@
    } else if opcode == JUMP_IF_EQUAL {
        "jeq"@
    } else if opcode == JUMP_IF_GREATER {
        "jgt"@
    } else if opcode == JUMP_IF_LESS {
        "jlt"@
    } else if opcode == STORE {
        "sto"@
    } else if opcode == LOAD {
        "lod"@
    } else if opcode == HALT {
        "hlt"@
    } else {
        ""@
    }
}

/// The long name of an opcode; no text for an opcode without a meaning.
pub open spec fn long_name(opcode: u32) -> Seq<char> {
    if opcode == NO_OP {
        "NO-OP"@
    } else if opcode == LOAD_IMMEDIATE {
        "LOAD IMMEDIATE"@
    } else if opcode == ADD {
        "ADD"@
    } else if opcode == SUBTRACT {
        "SUBTRACT"@
    } else if opcode == COMPARE {
        "COMPARE"@
    } else if opcode == JUMP {
        "JUMP"@
    } else if opcode == JUMP_IF_EQUAL {
        "JUMP IF EQUAL"@
    } else if opcode == JUMP_IF_GREATER {
        "JUMP IF GREATER THAN"@
    } else if opcode == JUMP_IF_LESS {
        "JUMP IF LESS THAN"@
    } else if opcode == STORE {
        "STORE"@
    } else if opcode == LOAD {
        "LOAD"@
    } else if opcode == HALT {
        "HALT"@
    } else {
        ""@
    }
}

/// The text of an instruction: the long name of its opcode and a line feed;
/// for load-immediate then the immediate, a blank, `R` and the number of the
/// destination register, both in decimal.
pub open spec fn instruction_text(word: u32) -> Seq<char> {
    let heading = long_name(opcode_of(word)) + "\n"@;
    if opcode_of(word) == LOAD_IMMEDIATE {
        heading + decimal_digits(value_field(operand_of(word)) as nat) + " R"@ + decimal_digits(
            register_field(operand_of(word)) as nat,
        )
    } else {
        heading
    }
}

/// The text of a program: the text of each instruction, each followed by a
/// line feed.
pub open spec fn program_text(program: Seq<u32>) -> Seq<char>
    decreases program.len(),
{
    if program.len() == 0 {
        Seq::empty()
    } else {
        program_text(program.drop_last()) + instruction_text(program.last()) + "\n"@
    }
}

/// The mnemonic of an opcode in small letters.
fn lower_name(opcode: u32) -> (name: &'static str)
    ensures
        name@ == mnemonic(opcode),
{
    if opcode == NO_OP {
        "nop"
    } else if opcode == LOAD_IMMEDIATE {
        "ldi"
    } else if opcode == ADD {
        "add"
    } else if opcode == SUBTRACT {
        "sub"
    } else if opcode == COMPARE {
        "cmp"
    } else if opcode == JUMP {
        "jmp"
    } else if opcode == JUMP_IF_EQUAL {
        "jeq"
    } else if opcode == JUMP_IF_GREATER {
        "jgt"
    } else if opcode == JUMP_IF_LESS {
        "jlt"
    } else if opcode == STORE {
        "sto"
    } else if opcode == LOAD {
        "lod"
    } else if opcode == HALT {
        "hlt"
    } else {
        ""
    }
}

/// The mnemonic of an opcode in capital letters.
fn upper_name(opcode: u32) -> (name: &'static str)
    ensures
        name@ == upper_case(mnemonic(opcode)),
{
    proof {
        reveal_strlit("nop");
        reveal_strlit("ldi");
        reveal_strlit("add");
        reveal_strlit("sub");
        reveal_strlit("cmp");
        reveal_strlit("jmp");
        reveal_strlit("jeq");
        reveal_strlit("jgt");
        reveal_strlit("jlt");
        reveal_strlit("sto");
        reveal_strlit("lod");
        reveal_strlit("hlt");
        reveal_strlit("");
        reveal_strlit("NOP");
        reveal_strlit("LDI");
        reveal_strlit("ADD");
        reveal_strlit("SUB");
        reveal_strlit("CMP");
        reveal_strlit("JMP");
        reveal_strlit("JEQ");
        reveal_strlit("JGT");
        reveal_strlit("JLT");
        reveal_strlit("STO");
        reveal_strlit("LOD");
        reveal_strlit("HLT");
    }
    let name = if opcode == NO_OP {
        "NOP"
    } else if opcode == LOAD_IMMEDIATE {
        "LDI"
    } else if opcode == ADD {
        "ADD"
    } else if opcode == SUBTRACT {
        "SUB"
    } else if opcode == COMPARE {
        "CMP"
    } else if opcode == JUMP {
        "JMP"
    } else if opcode == JUMP_IF_EQUAL {
        "JEQ"
    } else if opcode == JUMP_IF_GREATER {
        "JGT"
    } else if opcode == JUMP_IF_LESS {
        "JLT"
    } else if opcode == STORE {
        "STO"
    } else if opcode == LOAD {
        "LOD"
    } else if opcode == HALT {
        "HLT"
    } else {
        ""
    };
    assert(name@ =~= upper_case(mnemonic(opcode)));
    name
}

/// The mnemonic of an opcode, in small or in capital letters. An opcode
/// without a meaning has the empty name.
pub fn get_opcode_name(opcode: u32, use_uppercase: bool) -> (name: String)
    ensures
        name@ == if use_uppercase {
            upper_case(mnemonic(opcode))
        } else {
            mnemonic(opcode)
        },
{
    if use_uppercase {
        String::from_str(upper_name(opcode))
    } else {
        String::from_str(lower_name(opcode))
    }
}

/// The long name of an opcode.
fn long_name_text(opcode: u32) -> (name: &'static str)
    ensures
        name@ == long_name(opcode),
{
    if opcode == NO_OP {
        "NO-OP"
    } else if opcode == LOAD_IMMEDIATE {
        "LOAD IMMEDIATE"
    } else if opcode == ADD {
        "ADD"
    } else if opcode == SUBTRACT {
        "SUBTRACT"
    } else if opcode == COMPARE {
        "COMPARE"
    } else if opcode == JUMP {
        "JUMP"
    } else if opcode == JUMP_IF_EQUAL {
        "JUMP IF EQUAL"
    } else if opcode == JUMP_IF_GREATER {
        "JUMP IF GREATER THAN"
    } else if opcode == JUMP_IF_LESS {
        "JUMP IF LESS THAN"
    } else if opcode == STORE {
        "STORE"
    } else if opcode == LOAD {
        "LOAD"
    } else if opcode == HALT {
        "HALT"
    } else {
        ""
    }
}

/// The long name of an opcode, followed by a line feed.
pub fn get_opcode_name_long(opcode: u32) -> (name: String)
    ensures
        name@ == long_name(opcode) + "\n"@,
{
    let mut name = String::from_str(long_name_text(opcode));
    name.append("\n");
    name
}

/// The text of one instruction, as a listing shows it.
pub fn print_as_assembly(instruction: u32) -> (text: String)
    ensures
        text@ == instruction_text(instruction),
{
    let (opcode, operand) = decode(instruction);
    let mut text = get_opcode_name_long(opcode);
    if opcode == LOAD_IMMEDIATE {
        push_decimal(&mut text, value_of(operand));
        text.append(" R");
        push_decimal(&mut text, register_of(operand));
    }
    text
}

/// The text of a program: one instruction after the other, each closed by a
/// line feed.
pub fn print_program_as_assembly(program: &Vec<u32>) -> (text: String)
    ensures
        text@ == program_text(program@),
{
    let mut text = String::new();
    let mut i: usize = 0;
    assert(program@.take(0) =~= Seq::<u32>::empty());
    while i < program.len()
        invariant
            i <= program@.len(),
            text@ == program_text(program@.take(i as int)),
        decreases program@.len() - i,
    {
        let line = print_as_assembly(program[i]);
        text.append(line.as_str());
        text.append("\n");
        proof {
            assert(program@.take(i + 1).drop_last() =~= program@.take(i as int));
        }
        i += 1;
    }
    assert(program@.take(i as int) =~= program@);
    text
}

/// A register operand in source text: `r` and the number of the register.
pub open spec fn register_token(register: u32) -> Seq<char> {
    seq!['r'] + decimal_digits(register as nat)
}

/// The tokens of the source line of an instruction: the mnemonic of its
/// opcode and its operands as the assembler reads them. An opcode without
/// operands, or without a meaning, has its mnemonic alone.
pub open spec fn source_tokens(word: u32) -> Seq<Seq<char>> {
    let opcode = opcode_of(word);
    let operand = operand_of(word);
    if opcode == LOAD_IMMEDIATE || opcode == COMPARE || opcode == STORE || opcode == LOAD {
        seq![
            mnemonic(opcode),
            decimal_digits(value_field(operand) as nat),
            register_token(register_field(operand)),
        ]
    } else if opcode == ADD || opcode == SUBTRACT {
        seq![
            mnemonic(opcode),
            register_token(first_source_field(operand)),
            register_token(second_source_field(operand)),
            register_token(register_field(operand)),
        ]
    } else if opcode == JUMP || opcode == JUMP_IF_EQUAL || opcode == JUMP_IF_GREATER || opcode
        == JUMP_IF_LESS {
        seq![mnemonic(opcode), decimal_digits(target_field(operand) as nat)]
    } else {
        seq![mnemonic(opcode)]
    }
}

/// The source line of an instruction: its tokens with one blank between each
/// two of them.
pub open spec fn source_line(word: u32) -> Seq<char> {
    joined(source_tokens(word))
}

/// Two, three and four words joined, written out.
proof fn lemma_joined_written_out(a: Seq<char>, b: Seq<char>, c: Seq<char>, d: Seq<char>)
    ensures
        joined(seq![a]) == a,
        joined(seq![a, b]) == a + seq![' '] + b,
        joined(seq![a, b, c]) == a + seq![' '] + b + seq![' '] + c,
        joined(seq![a, b, c, d]) == a + seq![' '] + b + seq![' '] + c + seq![' '] + d,
{
    assert(seq![a, b].skip(1) =~= seq![b]);
    assert(seq![a, b, c].skip(1) =~= seq![b, c]);
    assert(seq![a, b, c, d].skip(1) =~= seq![b, c, d]);
    assert(seq![b, c].skip(1) =~= seq![c]);
    assert(seq![b, c, d].skip(1) =~= seq![c, d]);
    assert(seq![c, d].skip(1) =~= seq![d]);
    reveal_with_fuel(joined, 5);
    assert(joined(seq![a, b]) =~= a + seq![' '] + b);
    assert(joined(seq![a, b, c]) =~= a + seq![' '] + b + seq![' '] + c);
    assert(joined(seq![a, b, c, d]) =~= a + seq![' '] + b + seq![' '] + c + seq![' '] + d);
}

/// Appends a blank, `r` and the number of a register.
fn push_register(text: &mut String, register: u32)
    ensures
        final(text)@ == old(text)@ + seq![' '] + register_token(register),
{
    proof {
        reveal_strlit(" r");
    }
    text.append(" r");
    push_decimal(text, register);
    assert(text@ =~= old(text)@ + seq![' '] + register_token(register));
}

/// The source line of an instruction, with the operands of every opcode that
/// has any. The line of an instruction that the assembler can produce
/// assembles to that instruction again.
pub fn disassemble(word: u32) -> (line: String)
    ensures
        line@ == source_line(word),
{
    let (opcode, operand) = decode(word);
    let mut line = get_opcode_name(opcode, false);
    proof {
        lemma_joined_written_out(
            source_tokens(word)[0],
            source_tokens(word)[1],
            source_tokens(word)[2],
            source_tokens(word)[3],
        );
        reveal_strlit(" ");
    }
    if opcode == LOAD_IMMEDIATE || opcode == COMPARE || opcode == STORE || opcode == LOAD {
        line.append(" ");
        push_decimal(&mut line, value_of(operand));
        push_register(&mut line, register_of(operand));
        assert(source_tokens(word) =~= seq![
            source_tokens(word)[0],
            source_tokens(word)[1],
            source_tokens(word)[2],
        ]);
        assert(line@ =~= source_line(word));
    } else if opcode == ADD || opcode == SUBTRACT {
        push_register(&mut line, first_source_of(operand));
        push_register(&mut line, second_source_of(operand));
        push_register(&mut line, register_of(operand));
        assert(source_tokens(word) =~= seq![
            source_tokens(word)[0],
            source_tokens(word)[1],
            source_tokens(word)[2],
            source_tokens(word)[3],
        ]);
        assert(line@ =~= source_line(word));
    } else if opcode == JUMP || opcode == JUMP_IF_EQUAL || opcode == JUMP_IF_GREATER || opcode
        == JUMP_IF_LESS {
        line.append(" ");
        push_decimal(&mut line, target_of(operand));
        assert(source_tokens(word) =~= seq![source_tokens(word)[0], source_tokens(word)[1]]);
        assert(line@ =~= source_line(word));
    } else {
        assert(source_tokens(word) =~= seq![source_tokens(word)[0]]);
    }
    line
}

} // verus!
