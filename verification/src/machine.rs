//! The machine as a mathematical value, and what one cycle and a whole run do
//! to it. The executable engine is specified against this model.

use crate::codec::{
    first_source_field, opcode_of, operand_of, register_field, second_source_field, target_field,
    value_field, ADD, COMPARE, HALT, JUMP, JUMP_IF_EQUAL, JUMP_IF_GREATER, JUMP_IF_LESS, LOAD,
    LOAD_IMMEDIATE, MEMORY_SIZE, REGISTER_COUNT, STORE, SUBTRACT,
};
use vstd::prelude::*;

verus! {

/// Flag value before any comparison, and after a taken conditional jump.
pub const FLAG_UNSET: u32 = 0;

/// Flag value after comparing a register that is greater than the immediate.
pub const FLAG_GREATER: u32 = 1;

/// Flag value after comparing a register that equals the immediate.
pub const FLAG_EQUAL: u32 = 2;

/// Flag value after comparing a register that is less than the immediate.
pub const FLAG_LESS: u32 = 3;

/// The last address of memory. A cycle that leaves the program counter here
/// ends the run.
pub const LAST_ADDRESS: isize = 63;

/// Why an instruction was not executed.
#[derive(Debug, Clone, Copy, PartialEq, Eq, Structural)]
pub enum ExecutionError {
    /// The instruction names a register or a memory address that the machine
    /// does not have.
    AddressOutOfRange,
}

/// How a run came to its end without an error.
#[derive(Debug, Clone, Copy, PartialEq, Eq, Structural)]
pub enum RunStatus {
    /// The machine halted or its program counter reached the last address.
    /// The program counter is back at 0 and the halt flag is cleared.
    Finished,
    /// The allowed number of cycles was used up. The machine stands before its
    /// next instruction.
    OutOfCycles,
}

/// The state of the machine.
pub ghost struct Machine {
    /// Address of the instruction to fetch next. Between a conditional jump
    /// that is taken to address 0 and the end of its cycle it is -1.
    pub program_counter: int,
    /// The 64 words of memory, code and data alike.
    pub memory: Seq<u32>,
    /// Outcome of the last comparison, one of the four flag values.
    pub flag: u32,
    /// The four registers.
    pub registers: Seq<u32>,
    /// Set by the halt instruction, cleared when a run ends.
    pub halted: bool,
    /// Whether the owner asked for a trace. The engine carries it and never
    /// reads it.
    pub debug: bool,
}

/// Sum of two register values, wrapping round at `2^32`.
pub open spec fn wrapped_sum(a: u32, b: u32) -> u32 {
    if a + b >= 0x1_0000_0000 {
        (a + b - 0x1_0000_0000) as u32
    } else {
        (a + b) as u32
    }
}

/// Difference of two register values, wrapping round below zero.
pub open spec fn wrapped_difference(a: u32, b: u32) -> u32 {
    if a < b {
        (a - b + 0x1_0000_0000) as u32
    } else {
        (a - b) as u32
    }
}

/// A register value read as a signed 32-bit number in two's complement.
pub open spec fn signed(value: u32) -> int {
    if value >= 0x8000_0000 {
        value - 0x1_0000_0000
    } else {
        value as int
    }
}

/// The flag that comparing `register_value` with `immediate` sets: by the sign
/// of the register, read as signed, minus the immediate.
pub open spec fn comparison_flag(register_value: u32, immediate: u32) -> u32 {
    let difference = signed(register_value) - immediate;
    if difference > 0 {
        FLAG_GREATER
    } else if difference == 0 {
        FLAG_EQUAL
    } else {
        FLAG_LESS
    }
}

/// The flag value on which a conditional jump is taken: no flag value for any
/// other opcode.
pub open spec fn jump_condition(opcode: u32) -> Option<u32> {
    if opcode == JUMP_IF_EQUAL {
        Some(FLAG_EQUAL)
    } else if opcode == JUMP_IF_GREATER {
        Some(FLAG_GREATER)
    } else if opcode == JUMP_IF_LESS {
        Some(FLAG_LESS)
    } else {
        None
    }
}

impl Machine {
    /// A machine has 64 words of memory and four registers, its program
    /// counter is an address or one before the first, and its flag is one of
    /// the four flag values.
    pub open spec fn well_formed(self) -> bool {
        &&& -1 <= self.program_counter < MEMORY_SIZE
        &&& self.memory.len() == MEMORY_SIZE
        &&& self.registers.len() == REGISTER_COUNT
        &&& self.flag <= FLAG_LESS
    }

    /// A new machine: everything zero, not halted.
    pub open spec fn initial(debug: bool) -> Machine {
        Machine {
            program_counter: 0,
            memory: Seq::new(64, |i: int| 0u32),
            flag: FLAG_UNSET,
            registers: Seq::new(4, |i: int| 0u32),
            halted: false,
            debug,
        }
    }

    /// The machine with `program` copied into memory from address 0 on. The
    /// words behind the program stay as they were.
    pub open spec fn loaded(self, program: Seq<u32>) -> Machine {
        Machine {
            memory: Seq::new(
                self.memory.len(),
                |i: int|
                    if i < program.len() {
                        program[i]
                    } else {
                        self.memory[i]
                    },
            ),
            ..self
        }
    }

    /// The program counter is an address: there is an instruction to fetch.
    /// This holds of a new machine, after the end of every cycle and after
    /// every run.
    pub open spec fn can_fetch(self) -> bool {
        0 <= self.program_counter
    }

    /// The word at the program counter.
    pub open spec fn fetched(self) -> u32 {
        self.memory[self.program_counter]
    }

    /// Opcode of the fetched word.
    pub open spec fn opcode(self) -> u32 {
        opcode_of(self.fetched())
    }

    /// Operand of the fetched word.
    pub open spec fn operand(self) -> u32 {
        operand_of(self.fetched())
    }

    /// The fetched instruction is a conditional jump and the flag holds the
    /// value that it waits for.
    pub open spec fn jump_taken(self) -> bool {
        jump_condition(self.opcode()) == Some(self.flag)
    }

    /// The fetched instruction cannot be executed:
    /// - add or subtract whose first source is no register,
    /// - store or load whose address lies behind memory.
    ///
    /// Both fields take every bit of the operand above the fields below them,
    /// so a word with a bit set above its layout names a register from 4 on or
    /// an address from 64 on, and is refused rather than cut down to one that
    /// exists.
    pub open spec fn faults(self) -> bool {
        let opcode = self.opcode();
        let operand = self.operand();
        ||| (opcode == ADD || opcode == SUBTRACT) && first_source_field(operand) >= REGISTER_COUNT
        ||| (opcode == STORE || opcode == LOAD) && value_field(operand) >= MEMORY_SIZE
    }

    /// The machine after the fetched instruction, where it does not fault.
    /// The program counter moves only on a jump: to the target for an
    /// unconditional one, to one before the target for a conditional one that
    /// is taken, which also clears the flag. One before address 0 is -1: the
    /// end of the cycle moves on from there to address 0. An opcode without a
    /// meaning changes nothing.
    pub open spec fn executed(self) -> Machine {
        let opcode = self.opcode();
        let operand = self.operand();
        let low = register_field(operand) as int;
        if opcode == LOAD_IMMEDIATE {
            Machine { registers: self.registers.update(low, value_field(operand)), ..self }
        } else if opcode == ADD {
            Machine {
                registers: self.registers.update(
                    low,
                    wrapped_sum(
                        self.registers[first_source_field(operand) as int],
                        self.registers[second_source_field(operand) as int],
                    ),
                ),
                ..self
            }
        } else if opcode == SUBTRACT {
            Machine {
                registers: self.registers.update(
                    low,
                    wrapped_difference(
                        self.registers[first_source_field(operand) as int],
                        self.registers[second_source_field(operand) as int],
                    ),
                ),
                ..self
            }
        } else if opcode == COMPARE {
            Machine { flag: comparison_flag(self.registers[low], value_field(operand)), ..self }
        } else if opcode == JUMP {
            Machine { program_counter: target_field(operand) as int, ..self }
        } else if self.jump_taken() {
            Machine {
                program_counter: target_field(operand) - 1,
                flag: FLAG_UNSET,
                ..self
            }
        } else if opcode == STORE {
            Machine {
                memory: self.memory.update(value_field(operand) as int, self.registers[low]),
                ..self
            }
        } else if opcode == LOAD {
            Machine {
                registers: self.registers.update(low, self.memory[value_field(operand) as int]),
                ..self
            }
        } else if opcode == HALT {
            Machine { halted: true, ..self }
        } else {
            self
        }
    }

    /// After an instruction, the run is over: the machine has halted or its
    /// program counter stands at the last address.
    pub open spec fn run_is_over(self) -> bool {
        self.halted || self.program_counter == LAST_ADDRESS
    }

    /// The machine after the end of a cycle. Where the run is over it is made
    /// ready for the next run: program counter 0, not halted. Otherwise the
    /// program counter moves on by one.
    pub open spec fn cycle_ended(self) -> Machine {
        if self.run_is_over() {
            Machine { program_counter: 0, halted: false, ..self }
        } else {
            Machine { program_counter: self.program_counter + 1, ..self }
        }
    }

    /// The machine after a run of at most `cycles` cycles, and how the run
    /// ended. A fault stops the run before the faulting instruction and leaves
    /// the machine as it then was.
    pub open spec fn ran(self, cycles: nat) -> (Machine, Result<RunStatus, ExecutionError>)
        decreases cycles,
    {
        if cycles == 0 {
            (self, Ok(RunStatus::OutOfCycles))
        } else if self.faults() {
            (self, Err(ExecutionError::AddressOutOfRange))
        } else if self.executed().run_is_over() {
            (self.executed().cycle_ended(), Ok(RunStatus::Finished))
        } else {
            self.executed().cycle_ended().ran((cycles - 1) as nat)
        }
    }
}

/// Executing an instruction that does not fault keeps the machine well
/// formed.
pub proof fn lemma_executed_well_formed(machine: Machine)
    requires
        machine.well_formed(),
        !machine.faults(),
    ensures
        machine.executed().well_formed(),
{
}

/// The end of a cycle keeps the machine well formed and leaves the program
/// counter at an address.
pub proof fn lemma_cycle_ended_well_formed(machine: Machine)
    requires
        machine.well_formed(),
    ensures
        machine.cycle_ended().well_formed(),
        machine.cycle_ended().can_fetch(),
{
}

/// A run keeps the machine well formed, however it ends, and leaves the
/// program counter at an address where it found it at one.
pub proof fn lemma_ran_well_formed(machine: Machine, cycles: nat)
    requires
        machine.well_formed(),
    ensures
        machine.ran(cycles).0.well_formed(),
        machine.can_fetch() ==> machine.ran(cycles).0.can_fetch(),
    decreases cycles,
{
    if cycles > 0 && !machine.faults() {
        lemma_executed_well_formed(machine);
        lemma_cycle_ended_well_formed(machine.executed());
        if !machine.executed().run_is_over() {
            lemma_ran_well_formed(machine.executed().cycle_ended(), (cycles - 1) as nat);
        }
    }
}

} // verus!
