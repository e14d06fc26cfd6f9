//! What holds of the parts of the library taken together: of the assembler
//! with the disassembler, and of whole runs of the machine.

use crate::assembler::{
    assembled_line, mnemonic_opcode, operand_number, target_line, three_register_line,
    value_register_line, AssembleError,
};
use crate::codec::{
    first_source_field, in_source_form, opcode_of, operand_of, packed, register_field,
    second_source_field, target_field, three_registers, value_and_register, value_field, ADD,
    COMPARE, HALT, JUMP, JUMP_IF_EQUAL, JUMP_IF_GREATER, JUMP_IF_LESS, LOAD, LOAD_IMMEDIATE,
    NO_OP, STORE, SUBTRACT,
};
use crate::disassembler::{
    instruction_text, long_name, mnemonic, register_token, source_line, source_tokens,
};
use crate::machine::{ExecutionError, Machine, RunStatus, FLAG_UNSET, LAST_ADDRESS};
use crate::text::{
    decimal_digits, is_space, joined, lemma_decimal_digits, lemma_number_below,
    lemma_tokens_of_joined, number_below, tokens,
};
use vstd::prelude::*;

verus! {

/// The mnemonic of an opcode that has operands or halts is a token of three
/// letters, and it names that opcode.
pub proof fn lemma_mnemonic_names_its_opcode(opcode: u32)
    requires
        opcode == LOAD_IMMEDIATE || opcode == ADD || opcode == SUBTRACT || opcode == COMPARE
            || opcode == JUMP || opcode == JUMP_IF_EQUAL || opcode == JUMP_IF_GREATER || opcode
            == JUMP_IF_LESS || opcode == STORE || opcode == LOAD || opcode == HALT,
    ensures
        mnemonic_opcode(mnemonic(opcode)) == Some(opcode),
        mnemonic(opcode).len() == 3,
        forall|i: int| 0 <= i < 3 ==> !is_space(#[trigger] mnemonic(opcode)[i]),
{
    reveal_strlit("ldi");
    reveal_strlit("add");
    reveal_strlit("sub");
    reveal_strlit("cmp");
    reveal_strlit("jmp");
    reveal_strlit("jeq");
    reveal_strlit("jgt");
    reveal_strlit("jlt");
    reveal_strlit("sto");
    reveal_strlit("lod");
    reveal_strlit("hlt");
    let name = mnemonic(opcode);
    assert(!is_space(name[0]) && !is_space(name[1]) && !is_space(name[2]));
}

/// The token of a register is not empty and holds no space, and the
/// assembler reads the number of the register from it.
pub proof fn lemma_register_token(register: u32, limit: int)
    requires
        register < limit,
    ensures
        register_token(register).len() > 0,
        forall|i: int|
            0 <= i < register_token(register).len() ==> !is_space(
                #[trigger] register_token(register)[i],
            ),
        number_below(register_token(register).skip(1), limit) == Some(register),
{
    let digits = decimal_digits(register as nat);
    lemma_decimal_digits(register as nat);
    let token = register_token(register);
    assert forall|i: int| 0 <= i < token.len() implies !is_space(#[trigger] token[i]) by {
        if i > 0 {
            assert(token[i] == digits[i - 1]);
        }
    }
    assert(token.skip(1) =~= digits);
}

/// What the assembler makes of a line is an instruction in source form.
pub proof fn lemma_assembled_word_is_in_source_form(
    tokens: Seq<Seq<char>>,
    line: usize,
    word: u32,
)
    requires
        assembled_line(tokens, line) == Ok::<u32, AssembleError>(word),
    ensures
        in_source_form(word),
{
    let opcode = mnemonic_opcode(tokens[0]).unwrap();
    if opcode == ADD || opcode == SUBTRACT {
        lemma_number_below(tokens[1].skip(1), 4);
        lemma_number_below(tokens[2].skip(1), 4);
        lemma_number_below(tokens[3].skip(1), 4);
    } else if opcode == LOAD_IMMEDIATE || opcode == COMPARE {
        lemma_number_below(tokens[1], 0x1_0000);
        lemma_number_below(tokens[2].skip(1), 4);
    } else if opcode == STORE || opcode == LOAD {
        lemma_number_below(tokens[1], 64);
        lemma_number_below(tokens[2].skip(1), 4);
    } else if opcode != HALT {
        lemma_number_below(tokens[1], 32);
    }
}

/// Splitting the source line of an instruction in source form gives the
/// tokens it was made of.
pub proof fn lemma_tokens_of_source_line(word: u32)
    requires
        in_source_form(word),
    ensures
        tokens(source_line(word)) == source_tokens(word),
{
    let opcode = opcode_of(word);
    let operand = operand_of(word);
    let found = source_tokens(word);
    lemma_mnemonic_names_its_opcode(opcode);
    lemma_register_token(register_field(operand), 4);
    lemma_register_token(second_source_field(operand), 4);
    lemma_register_token(first_source_field(operand), 0x1_0000);
    lemma_decimal_digits(value_field(operand) as nat);
    lemma_decimal_digits(target_field(operand) as nat);
    assert forall|k: int| 0 <= k < found.len() implies (#[trigger] found[k]).len() > 0 by {}
    assert forall|k: int, i: int|
        0 <= k < found.len() && 0 <= i < found[k].len() implies !is_space(
        #[trigger] found[k][i],
    ) by {}
    lemma_tokens_of_joined(found);
}

/// The tokens of load-immediate, compare, store and load in source form
/// assemble to their word.
proof fn lemma_value_register_tokens(word: u32, limit: int, line: usize)
    requires
        in_source_form(word),
        (opcode_of(word) == LOAD_IMMEDIATE || opcode_of(word) == COMPARE) && limit == 0x1_0000 || (
        opcode_of(word) == STORE || opcode_of(word) == LOAD) && limit == 64,
    ensures
        value_register_line(source_tokens(word), opcode_of(word), limit, line) == Ok::<
            u32,
            AssembleError,
        >(word),
{
    let operand = operand_of(word);
    let found = source_tokens(word);
    lemma_register_token(register_field(operand), 4);
    lemma_decimal_digits(value_field(operand) as nat);
    assert(operand_number(found, 1, false, limit) == Some(value_field(operand)));
    assert(operand_number(found, 2, true, 4) == Some(register_field(operand)));
    assert(word == packed(
        opcode_of(word) as int,
        value_and_register(value_field(operand) as int, register_field(operand) as int),
    ));
}

/// The tokens of add and subtract in source form assemble to their word.
proof fn lemma_three_register_tokens(word: u32, line: usize)
    requires
        in_source_form(word),
        opcode_of(word) == ADD || opcode_of(word) == SUBTRACT,
    ensures
        three_register_line(source_tokens(word), opcode_of(word), line) == Ok::<
            u32,
            AssembleError,
        >(word),
{
    let operand = operand_of(word);
    let found = source_tokens(word);
    lemma_register_token(first_source_field(operand), 4);
    lemma_register_token(second_source_field(operand), 4);
    lemma_register_token(register_field(operand), 4);
    assert(operand_number(found, 1, true, 4) == Some(first_source_field(operand)));
    assert(operand_number(found, 2, true, 4) == Some(second_source_field(operand)));
    assert(operand_number(found, 3, true, 4) == Some(register_field(operand)));
    assert(word == packed(
        opcode_of(word) as int,
        three_registers(
            first_source_field(operand) as int,
            second_source_field(operand) as int,
            register_field(operand) as int,
        ),
    ));
}

/// The tokens of a jump in source form assemble to their word.
proof fn lemma_target_tokens(word: u32, line: usize)
    requires
        in_source_form(word),
        opcode_of(word) == JUMP || opcode_of(word) == JUMP_IF_EQUAL || opcode_of(word)
            == JUMP_IF_GREATER || opcode_of(word) == JUMP_IF_LESS,
    ensures
        target_line(source_tokens(word), opcode_of(word), line) == Ok::<u32, AssembleError>(word),
{
    let operand = operand_of(word);
    let found = source_tokens(word);
    lemma_decimal_digits(target_field(operand) as nat);
    assert(operand_number(found, 1, false, 32) == Some(target_field(operand)));
    assert(word == packed(opcode_of(word) as int, target_field(operand) as int));
}

/// The source line of an instruction in source form assembles to that
/// instruction: disassembling and assembling again changes nothing.
pub proof fn lemma_source_line_assembles_to_its_word(word: u32, line: usize)
    requires
        in_source_form(word),
    ensures
        assembled_line(tokens(source_line(word)), line) == Ok::<u32, AssembleError>(word),
{
    let opcode = opcode_of(word);
    lemma_tokens_of_source_line(word);
    lemma_mnemonic_names_its_opcode(opcode);
    if opcode == ADD || opcode == SUBTRACT {
        lemma_three_register_tokens(word, line);
    } else if opcode == LOAD_IMMEDIATE || opcode == COMPARE {
        lemma_value_register_tokens(word, 0x1_0000, line);
    } else if opcode == STORE || opcode == LOAD {
        lemma_value_register_tokens(word, 64, line);
    } else if opcode != HALT {
        lemma_target_tokens(word, line);
    } else {
        assert(word == packed(opcode as int, 0));
    }
}

/// The source line that loads `value` into the register `register`.
pub open spec fn load_immediate_line(value: u32, register: u32) -> Seq<char> {
    joined(seq!["ldi"@, decimal_digits(value as nat), register_token(register)])
}

/// Assembling and disassembling a load-immediate gives its operands back:
/// for every 16-bit value and every register, the line that loads the value
/// into the register assembles to the word that holds the two, and both
/// texts of that word show the same value and the same register.
pub proof fn lemma_load_immediate_round_trip(value: u32, register: u32, line: usize)
    requires
        value < 0x1_0000,
        register < 4,
    ensures
        ({
            let word = packed(1, value_and_register(value as int, register as int)) as u32;
            &&& assembled_line(tokens(load_immediate_line(value, register)), line) == Ok::<
                u32,
                AssembleError,
            >(word)
            &&& instruction_text(word) == long_name(LOAD_IMMEDIATE) + "\n"@ + decimal_digits(
                value as nat,
            ) + " R"@ + decimal_digits(register as nat)
            &&& source_line(word) == load_immediate_line(value, register)
        }),
{
    let word = packed(1, value_and_register(value as int, register as int)) as u32;
    assert(opcode_of(word) == LOAD_IMMEDIATE);
    assert(operand_of(word) == value * 4 + register);
    assert(value_field(operand_of(word)) == value);
    assert(register_field(operand_of(word)) == register);
    lemma_source_line_assembles_to_its_word(word, line);
}

/// A conditional jump that finds the flag it waits for passes control to its
/// target, whichever address that is, address 0 too, and clears the flag:
/// the instruction is executed, the next one is fetched at the target, and
/// nothing else changes.
pub proof fn lemma_taken_jump_reaches_target(machine: Machine)
    requires
        machine.well_formed(),
        !machine.halted,
        machine.jump_taken(),
    ensures
        !machine.faults(),
        !machine.executed().run_is_over(),
        machine.executed().cycle_ended() == (Machine {
            program_counter: target_field(machine.operand()) as int,
            flag: FLAG_UNSET,
            ..machine
        }),
{
}

/// A conditional jump that does not find the flag it waits for changes
/// nothing; the cycle ends as after an instruction without a meaning.
pub proof fn lemma_jump_not_taken_changes_nothing(machine: Machine)
    requires
        machine.opcode() == JUMP_IF_EQUAL || machine.opcode() == JUMP_IF_GREATER
            || machine.opcode() == JUMP_IF_LESS,
        !machine.jump_taken(),
    ensures
        !machine.faults(),
        machine.executed() == machine,
{
}

/// An unconditional jump puts its target into the program counter, and the
/// end of the cycle then moves on from there as after any other instruction:
/// the next instruction is fetched one behind the target.
pub proof fn lemma_jump_goes_on_behind_target(machine: Machine)
    requires
        machine.well_formed(),
        !machine.halted,
        machine.opcode() == JUMP,
    ensures
        !machine.faults(),
        !machine.executed().run_is_over(),
        machine.executed().cycle_ended() == (Machine {
            program_counter: target_field(machine.operand()) + 1,
            ..machine
        }),
{
}

/// A cycle that executes no halt instruction ends the run exactly when it
/// leaves the program counter at the last address.
pub proof fn lemma_cycle_without_halt(machine: Machine)
    requires
        machine.well_formed(),
        !machine.halted,
        machine.opcode() != HALT,
        !machine.faults(),
    ensures
        machine.executed().run_is_over() <==> machine.executed().program_counter == LAST_ADDRESS,
{
}

/// A run that finishes leaves the machine ready for the next run, with the
/// program counter at 0 and the halt flag cleared.
pub proof fn lemma_finished_run_is_reset(machine: Machine, cycles: nat)
    requires
        machine.ran(cycles).1 == Ok::<RunStatus, ExecutionError>(RunStatus::Finished),
    ensures
        machine.ran(cycles).0.program_counter == 0,
        !machine.ran(cycles).0.halted,
    decreases cycles,
{
    if cycles > 0 && !machine.faults() && !machine.executed().run_is_over() {
        lemma_finished_run_is_reset(machine.executed().cycle_ended(), (cycles - 1) as nat);
    }
}

/// No cycle of a run of at most `cycles` cycles executes a halt instruction.
pub open spec fn runs_without_halt(machine: Machine, cycles: nat) -> bool
    decreases cycles,
{
    if cycles == 0 || machine.faults() {
        true
    } else if machine.opcode() == HALT {
        false
    } else if machine.executed().run_is_over() {
        true
    } else {
        runs_without_halt(machine.executed().cycle_ended(), (cycles - 1) as nat)
    }
}

/// Where the program counter stands after the last instruction of a run that
/// finishes, before it is set back to 0.
pub open spec fn last_program_counter(machine: Machine, cycles: nat) -> int
    decreases cycles,
{
    if cycles == 0 || machine.faults() || machine.executed().run_is_over() {
        machine.executed().program_counter
    } else {
        last_program_counter(machine.executed().cycle_ended(), (cycles - 1) as nat)
    }
}

/// A run that finishes without having executed a halt instruction finishes
/// at the last address: its last instruction left the program counter there.
pub proof fn lemma_run_without_halt_ends_at_last_address(machine: Machine, cycles: nat)
    requires
        machine.well_formed(),
        machine.can_fetch(),
        !machine.halted,
        runs_without_halt(machine, cycles),
        machine.ran(cycles).1 == Ok::<RunStatus, ExecutionError>(RunStatus::Finished),
    ensures
        last_program_counter(machine, cycles) == LAST_ADDRESS,
    decreases cycles,
{
    if cycles > 0 && !machine.faults() && !machine.executed().run_is_over() {
        lemma_run_without_halt_ends_at_last_address(
            machine.executed().cycle_ended(),
            (cycles - 1) as nat,
        );
    }
}

/// Whether a word is an instruction that changes nothing: its opcode has no
/// meaning.
pub open spec fn changes_nothing(word: u32) -> bool {
    let opcode = opcode_of(word);
    opcode == NO_OP || 10 < opcode < 15 || opcode > 15
}

/// Whether memory holds nothing but instructions that change nothing, from
/// the program counter to its end.
pub open spec fn idles_to_the_end(machine: Machine) -> bool {
    forall|address: int|
        machine.program_counter <= address < 64 ==> changes_nothing(
            #[trigger] machine.memory[address],
        )
}

/// A machine that finds nothing to do up to the end of memory runs one cycle
/// for each address that is left and finishes in the cycle of the last
/// address, changed in nothing but its program counter: with fewer cycles it
/// stands that many addresses further on, with as many or more it has
/// finished and stands at address 0.
pub proof fn lemma_idle_run_ends_at_last_address(machine: Machine, cycles: nat)
    requires
        machine.well_formed(),
        machine.can_fetch(),
        !machine.halted,
        idles_to_the_end(machine),
    ensures
        cycles < 64 - machine.program_counter ==> machine.ran(cycles) == (
            Machine { program_counter: machine.program_counter + cycles, ..machine },
            Ok::<RunStatus, ExecutionError>(RunStatus::OutOfCycles),
        ),
        cycles >= 64 - machine.program_counter ==> machine.ran(cycles) == (
            Machine { program_counter: 0, ..machine },
            Ok::<RunStatus, ExecutionError>(RunStatus::Finished),
        ),
    decreases cycles,
{
    if cycles > 0 {
        assert(changes_nothing(machine.memory[machine.program_counter as int]));
        assert(!machine.faults());
        assert(machine.executed() == machine);
        if machine.program_counter < 63 {
            lemma_idle_run_ends_at_last_address(machine.cycle_ended(), (cycles - 1) as nat);
        }
    }
}

} // verus!
