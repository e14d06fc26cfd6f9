//! The execution engine: a processor that owns its registers, memory, flag,
//! program counter and halt flag, and runs the fetch, decode and execute
//! cycle over them.

use crate::codec::{
    decode, first_source_of, register_of, second_source_of, target_of, value_of, ADD, COMPARE,
    HALT, JUMP, JUMP_IF_EQUAL, JUMP_IF_GREATER, JUMP_IF_LESS, LOAD, LOAD_IMMEDIATE, MEMORY_SIZE,
    REGISTER_COUNT, STORE, SUBTRACT,
};
use crate::machine::{
    ExecutionError, Machine, RunStatus, FLAG_EQUAL, FLAG_GREATER, FLAG_LESS, FLAG_UNSET,
    LAST_ADDRESS,
};
use vstd::prelude::*;

verus! {

/// The processor. Its fields are private, so that the program counter always
/// is an address of memory or one before the first, and the flag one of the
/// four flag values; `view` gives the state as a [`Machine`].
pub struct Processor {
    program_counter: isize,
    ram: [u32; 64],
    flag_register: u32,
    registers: [u32; 4],
    halt: bool,
    debug: bool,
}

impl View for Processor {
    type V = Machine;

    closed spec fn view(&self) -> Machine {
        Machine {
            program_counter: self.program_counter as int,
            memory: self.ram@,
            flag: self.flag_register,
            registers: self.registers@,
            halted: self.halt,
            debug: self.debug,
        }
    }
}

impl Processor {
    #[verifier::type_invariant]
    spec fn in_range(&self) -> bool {
        -1 <= self.program_counter < 64 && self.flag_register <= FLAG_LESS
    }

    /// A processor with every register, every memory word, the flag and the
    /// program counter at zero, not halted.
    pub fn new(use_debug: bool) -> (processor: Processor)
        ensures
            processor@ == Machine::initial(use_debug),
            processor@.well_formed(),
    {
        let processor = Processor {
            registers: [0;4],
            program_counter: 0,
            ram: [0;64],
            flag_register: 0,
            halt: false,
            debug: use_debug,
        };
        assert(processor@.memory =~= Machine::initial(use_debug).memory);
        assert(processor@.registers =~= Machine::initial(use_debug).registers);
        processor
    }

    /// Copies `program` into memory from address 0 on.
    pub fn load_program(&mut self, program: &[u32])
        requires
            program@.len() <= MEMORY_SIZE,
        ensures
            final(self)@ == old(self)@.loaded(program@),
            final(self)@.well_formed(),
    {
        proof {
            use_type_invariant(&*self);
        }
        let mut i: usize = 0;
        while i < program.len()
            invariant
                i <= program@.len() <= 64,
                -1 <= self.program_counter < 64,
                self.flag_register <= FLAG_LESS,
                self.program_counter == old(self).program_counter,
                self.flag_register == old(self).flag_register,
                self.registers == old(self).registers,
                self.halt == old(self).halt,
                self.debug == old(self).debug,
                forall|k: int| 0 <= k < i ==> self.ram@[k] == program@[k],
                forall|k: int| i <= k < 64 ==> self.ram@[k] == old(self).ram@[k],
            decreases program@.len() - i,
        {
            self.ram[i] = program[i];
            i += 1;
        }
        assert(self@.memory =~= old(self)@.loaded(program@).memory);
    }

    /// The word at the program counter, which must be an address.
    pub fn fetch_instruction(&mut self) -> (word: u32)
        requires
            old(self)@.can_fetch(),
        ensures
            word == old(self)@.fetched(),
            final(self)@ == old(self)@,
            final(self)@.well_formed(),
    {
        proof {
            use_type_invariant(&*self);
        }
        self.ram[self.program_counter as usize]
    }

    /// Fetches the instruction at the program counter, which must be an
    /// address, decodes it and executes it. The program counter moves only on
    /// a jump; the end of the cycle is left to [`Processor::end_cycle`], which
    /// is to be called before the next instruction.
    ///
    /// An instruction that names a register or an address that does not exist
    /// is not executed: the processor stays as it is and the error is
    /// returned.
    pub fn execute_instruction(&mut self) -> (result: Result<(), ExecutionError>)
        requires
            old(self)@.can_fetch(),
        ensures
            final(self)@.well_formed(),
            old(self)@.faults() ==> result == Err::<(), ExecutionError>(
                ExecutionError::AddressOutOfRange,
            ) && final(self)@ == old(self)@,
            !old(self)@.faults() ==> result == Ok::<(), ExecutionError>(()) && final(self)@ == old(
                self,
            )@.executed(),
    {
        let word = self.fetch_instruction();
        let (opcode, operand) = decode(word);
        let low: usize = register_of(operand) as usize;
        let high: u32 = value_of(operand);
        if opcode == LOAD_IMMEDIATE {
            self.registers[low] = high;
        } else if opcode == ADD || opcode == SUBTRACT {
            let first: u32 = first_source_of(operand);
            if first >= REGISTER_COUNT {
                return Err(ExecutionError::AddressOutOfRange);
            }
            let a: u32 = self.registers[first as usize];
            let b: u32 = self.registers[second_source_of(operand) as usize];
            if opcode == ADD {
                self.registers[low] = a.wrapping_add(b);
            } else {
                self.registers[low] = a.wrapping_sub(b);
            }
        } else if opcode == COMPARE {
            let value: u32 = self.registers[low];
            if value >= 0x8000_0000 || value < high {
                self.flag_register = FLAG_LESS;
            } else if value == high {
                self.flag_register = FLAG_EQUAL;
            } else {
                self.flag_register = FLAG_GREATER;
            }
        } else if opcode == JUMP {
            self.program_counter = target_of(operand) as isize;
        } else if (opcode == JUMP_IF_EQUAL && self.flag_register == FLAG_EQUAL) || (opcode
            == JUMP_IF_GREATER && self.flag_register == FLAG_GREATER) || (opcode == JUMP_IF_LESS
            && self.flag_register == FLAG_LESS) {
            self.program_counter = target_of(operand) as isize - 1;
            self.flag_register = FLAG_UNSET;
        } else if opcode == STORE || opcode == LOAD {
            if high >= MEMORY_SIZE {
                return Err(ExecutionError::AddressOutOfRange);
            }
            if opcode == STORE {
                self.ram[high as usize] = self.registers[low];
            } else {
                self.registers[low] = self.ram[high as usize];
            }
        } else if opcode == HALT {
            self.halt = true;
        }
        assert(self@.registers =~= old(self)@.executed().registers);
        assert(self@.memory =~= old(self)@.executed().memory);
        Ok(())
    }

    /// Ends the cycle after an instruction and says whether the run is over.
    /// It is over where the processor has halted or the program counter stands
    /// at the last address: the program counter then goes back to 0 and the
    /// halt flag is cleared. Otherwise the program counter moves on by one.
    pub fn end_cycle(&mut self) -> (over: bool)
        ensures
            over == old(self)@.run_is_over(),
            final(self)@ == old(self)@.cycle_ended(),
            final(self)@.well_formed(),
            final(self)@.can_fetch(),
    {
        proof {
            use_type_invariant(&*self);
        }
        if self.program_counter == LAST_ADDRESS || self.halt {
            self.program_counter = 0;
            self.halt = false;
            true
        } else {
            self.program_counter += 1;
            false
        }
    }

    /// Loads `bin` and runs cycles from the current program counter, which
    /// must be an address, until the run is over, an instruction faults, or
    /// `max_cycles` cycles were run.
    pub fn run(&mut self, bin: &Vec<u32>, max_cycles: u64) -> (result: Result<
        RunStatus,
        ExecutionError,
    >)
        requires
            bin@.len() <= MEMORY_SIZE,
            old(self)@.can_fetch(),
        ensures
            final(self)@ == old(self)@.loaded(bin@).ran(max_cycles as nat).0,
            result == old(self)@.loaded(bin@).ran(max_cycles as nat).1,
            final(self)@.well_formed(),
            final(self)@.can_fetch(),
    {
        self.load_program(bin.as_slice());
        let ghost start = self@;
        let mut left: u64 = max_cycles;
        while left > 0
            invariant
                self@.well_formed(),
                self@.can_fetch(),
                start == old(self)@.loaded(bin@),
                self@.ran(left as nat) == start.ran(max_cycles as nat),
            decreases left,
        {
            match self.execute_instruction() {
                Err(error) => {
                    return Err(error);
                },
                Ok(()) => {},
            }
            if self.end_cycle() {
                return Ok(RunStatus::Finished);
            }
            left -= 1;
        }
        Ok(RunStatus::OutOfCycles)
    }

    /// Runs the demonstration program for at most `max_cycles` cycles, from
    /// the current program counter, which must be an address.
    pub fn demo(&mut self, max_cycles: u64) -> (result: Result<RunStatus, ExecutionError>)
        requires
            old(self)@.can_fetch(),
        ensures
            final(self)@ == old(self)@.loaded(demo_words()).ran(max_cycles as nat).0,
            result == old(self)@.loaded(demo_words()).ran(max_cycles as nat).1,
            final(self)@.well_formed(),
            final(self)@.can_fetch(),
    {
        let program = demo_program();
        self.run(&program, max_cycles)
    }

    /// The address of the instruction to fetch next; -1 between a conditional
    /// jump that is taken to address 0 and the end of its cycle.
    pub fn program_counter(&self) -> (address: isize)
        ensures
            address == self@.program_counter,
            self@.well_formed(),
    {
        proof {
            use_type_invariant(self);
        }
        self.program_counter
    }

    /// The flag that the last comparison left.
    pub fn flag_register(&self) -> (flag: u32)
        ensures
            flag == self@.flag,
    {
        self.flag_register
    }

    /// Whether a halt instruction was executed since the last run ended.
    pub fn halted(&self) -> (halted: bool)
        ensures
            halted == self@.halted,
    {
        self.halt
    }

    /// Whether the processor was made with a trace asked for.
    pub fn debug(&self) -> (debug: bool)
        ensures
            debug == self@.debug,
    {
        self.debug
    }

    /// The value of the register `index`, where there is such a register.
    pub fn register(&self, index: usize) -> (value: Option<u32>)
        ensures
            value == if index < REGISTER_COUNT {
                Some(self@.registers[index as int])
            } else {
                None
            },
    {
        if index < 4 {
            Some(self.registers[index])
        } else {
            None
        }
    }

    /// The word of memory at `address`, where memory reaches that far.
    pub fn memory_word(&self, address: usize) -> (word: Option<u32>)
        ensures
            word == if address < MEMORY_SIZE {
                Some(self@.memory[address as int])
            } else {
                None
            },
    {
        if address < 64 {
            Some(self.ram[address])
        } else {
            None
        }
    }
}

/// The words of the demonstration program. It counts register 2 up from 1
/// to 8 and stores the 8 at address 18:
///
/// ```text
/// 0  ldi 1 r1
/// 1  ldi 1 r2
/// 2  add r1 r2 r2
/// 3  cmp 8 r2
/// 4  jlt 2
/// 5  sto 18 r2
/// 6  hlt
/// ```
pub open spec fn demo_words() -> Seq<u32> {
    seq![
        0b0001_0000000000000001_01u32,
        0b0001_0000000000000001_10u32,
        0b0010_000000000000_01_10_10u32,
        0b0100_0000000000001000_10u32,
        0b1000_0000000000000_00010u32,
        0b1001_0000000000_010010_10u32,
        0b1111_000000000000000000u32,
    ]
}

/// The demonstration program.
pub fn demo_program() -> (program: Vec<u32>)
    ensures
        program@ == demo_words(),
{
    let program: Vec<u32> = vec![
        0b0001_0000000000000001_01u32,
        0b0001_0000000000000001_10u32,
        0b0010_000000000000_01_10_10u32,
        0b0100_0000000000001000_10u32,
        0b1000_0000000000000_00010u32,
        0b1001_0000000000_010010_10u32,
        0b1111_000000000000000000u32,
    ];
    assert(program@ =~= demo_words());
    program
}

} // verus!
