//! The assembler: from source text, one instruction per line, to instruction
//! words.
//!
//! A line is split into tokens at white space. The first token is the
//! mnemonic, the tokens behind it are the operands; tokens behind the last
//! operand are not read. A register operand is one character, by custom `r`,
//! and the number of the register; every other operand is a bare number. A
//! number is written in decimal digits, which one plus sign may precede, and
//! must fit the field it goes to.

use crate::codec::{
    encode, packed, three_registers, value_and_register, ADD, COMPARE, HALT, IMMEDIATE_LIMIT, JUMP,
    JUMP_IF_EQUAL, JUMP_IF_GREATER, JUMP_IF_LESS, LOAD, LOAD_IMMEDIATE, MEMORY_SIZE,
    REGISTER_COUNT, STORE, SUBTRACT, TARGET_LIMIT,
};
use crate::text::{
    chars_of, lemma_first_line_length_is, lines, number_below, parse_number, tokenize, tokens,
};
use vstd::prelude::*;

verus! {

/// Why a line was not assembled. Lines are numbered from 1.
#[derive(Debug, Clone, Copy, PartialEq, Eq, Structural)]
pub enum AssembleError {
    /// The line with this number has no mnemonic, or one that names no
    /// instruction.
    UnknownMnemonic(usize),
    /// On the line with the first number, the operand at the position given by
    /// the second number (1 for the operand next to the mnemonic) is missing
    /// or is no number that fits its field.
    MalformedOperand(usize, usize),
}

/// The opcode that a mnemonic names.
pub open spec fn mnemonic_opcode(token: Seq<char>) -> Option<u32> {
    if token == "ldi"@ {
        Some(LOAD_IMMEDIATE)
    } else if token == "add"@ {
        Some(ADD)
    } else if token == "sub"@ {
        Some(SUBTRACT)
    } else if token == "cmp"@ {
        Some(COMPARE)
    } else if token == "jmp"@ {
        Some(JUMP)
    } else if token == "jeq"@ {
        Some(JUMP_IF_EQUAL)
    } else if token == "jgt"@ {
        Some(JUMP_IF_GREATER)
    } else if token == "jlt"@ {
        Some(JUMP_IF_LESS)
    } else if token == "sto"@ {
        Some(STORE)
    } else if token == "lod"@ {
        Some(LOAD)
    } else if token == "hlt"@ {
        Some(HALT)
    } else {
        None
    }
}

/// The number of the operand at `position` among the tokens of a line, where
/// it is there and is a number below `limit`. Of a register operand the first
/// character, whatever it is, is left out.
pub open spec fn operand_number(
    tokens: Seq<Seq<char>>,
    position: int,
    register: bool,
    limit: int,
) -> Option<u32> {
    if position >= tokens.len() {
        None
    } else if !register {
        number_below(tokens[position], limit)
    } else if tokens[position].len() == 0 {
        None
    } else {
        number_below(tokens[position].skip(1), limit)
    }
}

/// What a line with a value and a register assembles to: load-immediate and
/// compare with a 16-bit immediate, store and load with a memory address.
pub open spec fn value_register_line(
    tokens: Seq<Seq<char>>,
    opcode: u32,
    limit: int,
    line: usize,
) -> Result<u32, AssembleError> {
    let value = operand_number(tokens, 1, false, limit);
    let register = operand_number(tokens, 2, true, 4);
    if value is None {
        Err(AssembleError::MalformedOperand(line, 1))
    } else if register is None {
        Err(AssembleError::MalformedOperand(line, 2))
    } else {
        Ok(
            packed(
                opcode as int,
                value_and_register(value.unwrap() as int, register.unwrap() as int),
            ) as u32,
        )
    }
}

/// What a line with three registers assembles to: add and subtract, the two
/// sources before the destination.
pub open spec fn three_register_line(tokens: Seq<Seq<char>>, opcode: u32, line: usize) -> Result<
    u32,
    AssembleError,
> {
    let a = operand_number(tokens, 1, true, 4);
    let b = operand_number(tokens, 2, true, 4);
    let c = operand_number(tokens, 3, true, 4);
    if a is None {
        Err(AssembleError::MalformedOperand(line, 1))
    } else if b is None {
        Err(AssembleError::MalformedOperand(line, 2))
    } else if c is None {
        Err(AssembleError::MalformedOperand(line, 3))
    } else {
        Ok(
            packed(
                opcode as int,
                three_registers(a.unwrap() as int, b.unwrap() as int, c.unwrap() as int),
            ) as u32,
        )
    }
}

/// What a line with a jump target assembles to.
pub open spec fn target_line(tokens: Seq<Seq<char>>, opcode: u32, line: usize) -> Result<
    u32,
    AssembleError,
> {
    let target = operand_number(tokens, 1, false, 32);
    if target is None {
        Err(AssembleError::MalformedOperand(line, 1))
    } else {
        Ok(packed(opcode as int, target.unwrap() as int) as u32)
    }
}

/// What the tokens of the line with number `line` assemble to: the
/// instruction word, or the first thing that is wrong with the line.
pub open spec fn assembled_line(tokens: Seq<Seq<char>>, line: usize) -> Result<u32, AssembleError> {
    if tokens.len() == 0 {
        Err(AssembleError::UnknownMnemonic(line))
    } else {
        match mnemonic_opcode(tokens[0]) {
            None => Err(AssembleError::UnknownMnemonic(line)),
            Some(opcode) => {
                if opcode == HALT {
                    Ok(packed(opcode as int, 0) as u32)
                } else if opcode == ADD || opcode == SUBTRACT {
                    three_register_line(tokens, opcode, line)
                } else if opcode == LOAD_IMMEDIATE || opcode == COMPARE {
                    value_register_line(tokens, opcode, 0x1_0000, line)
                } else if opcode == STORE || opcode == LOAD {
                    value_register_line(tokens, opcode, 64, line)
                } else {
                    target_line(tokens, opcode, line)
                }
            },
        }
    }
}

/// What the line at place `k` of a text, counted from 0, assembles to. Its
/// number in an error is `k + 1`.
pub open spec fn assembled(text: Seq<char>, k: int) -> Result<u32, AssembleError> {
    assembled_line(tokens(lines(text)[k]), (k + 1) as usize)
}

/// The words of those among the first `n` lines of a text that assemble, in
/// the order of the lines.
pub open spec fn words_of(text: Seq<char>, n: int) -> Seq<u32>
    decreases n,
{
    if n <= 0 {
        Seq::empty()
    } else {
        match assembled(text, n - 1) {
            Ok(word) => words_of(text, n - 1).push(word),
            Err(_) => words_of(text, n - 1),
        }
    }
}

/// The errors of those among the first `n` lines of a text that do not
/// assemble, in the order of the lines.
pub open spec fn errors_of(text: Seq<char>, n: int) -> Seq<AssembleError>
    decreases n,
{
    if n <= 0 {
        Seq::empty()
    } else {
        match assembled(text, n - 1) {
            Ok(_) => errors_of(text, n - 1),
            Err(error) => errors_of(text, n - 1).push(error),
        }
    }
}

/// There are no errors exactly where every line assembles, and then each
/// line has its word at its own place among the words.
pub proof fn lemma_words_and_errors(text: Seq<char>, n: int)
    requires
        0 <= n,
    ensures
        errors_of(text, n).len() == 0 <==> forall|k: int|
            0 <= k < n ==> (#[trigger] assembled(text, k)) is Ok,
        errors_of(text, n).len() == 0 ==> words_of(text, n).len() == n && forall|k: int|
            0 <= k < n ==> #[trigger] assembled(text, k) == Ok::<u32, AssembleError>(
                words_of(text, n)[k],
            ),
    decreases n,
{
    if n > 0 {
        lemma_words_and_errors(text, n - 1);
        if errors_of(text, n).len() == 0 {
            assert forall|k: int| 0 <= k < n implies (#[trigger] assembled(text, k)) is Ok by {
                if k == n - 1 {
                }
            }
        }
    }
}

/// Whether `token` is spelled as `word`.
fn spells(token: &[char], word: &str) -> (same: bool)
    ensures
        same == (token@ == word@),
{
    let letters = chars_of(word);
    if letters.len() != token.len() {
        return false;
    }
    let mut i: usize = 0;
    while i < token.len()
        invariant
            i <= token@.len(),
            token@.len() == letters@.len(),
            letters@ == word@,
            forall|k: int| 0 <= k < i ==> token@[k] == letters@[k],
        decreases token@.len() - i,
    {
        if token[i] != letters[i] {
            return false;
        }
        i += 1;
    }
    assert(token@ =~= word@);
    true
}

/// Looks up the opcode that a mnemonic names.
pub fn opcode_by_mnemonic(token: &[char]) -> (opcode: Option<u32>)
    ensures
        opcode == mnemonic_opcode(token@),
{
    if spells(token, "ldi") {
        Some(LOAD_IMMEDIATE)
    } else if spells(token, "add") {
        Some(ADD)
    } else if spells(token, "sub") {
        Some(SUBTRACT)
    } else if spells(token, "cmp") {
        Some(COMPARE)
    } else if spells(token, "jmp") {
        Some(JUMP)
    } else if spells(token, "jeq") {
        Some(JUMP_IF_EQUAL)
    } else if spells(token, "jgt") {
        Some(JUMP_IF_GREATER)
    } else if spells(token, "jlt") {
        Some(JUMP_IF_LESS)
    } else if spells(token, "sto") {
        Some(STORE)
    } else if spells(token, "lod") {
        Some(LOAD)
    } else if spells(token, "hlt") {
        Some(HALT)
    } else {
        None
    }
}

/// The tokens of a line as sequences of characters.
pub open spec fn token_views(tokens: Seq<Vec<char>>) -> Seq<Seq<char>> {
    Seq::new(tokens.len(), |i: int| tokens[i]@)
}

/// Reads the operand at `position` as a number below `limit`.
fn operand(tokens: &Vec<Vec<char>>, position: usize, register: bool, limit: u32) -> (number:
    Option<u32>)
    ensures
        number == operand_number(token_views(tokens@), position as int, register, limit as int),
        number is Some ==> number.unwrap() < limit,
{
    if position >= tokens.len() {
        return None;
    }
    let token = tokens[position].as_slice();
    if !register {
        parse_number(token, limit)
    } else if token.len() == 0 {
        None
    } else {
        parse_number(vstd::slice::slice_subrange(token, 1, token.len()), limit)
    }
}

/// Assembles the line with number `line` from its tokens.
pub fn assemble_tokens(tokens: &Vec<Vec<char>>, line: usize) -> (result: Result<u32, AssembleError>)
    ensures
        result == assembled_line(token_views(tokens@), line),
{
    if tokens.len() == 0 {
        return Err(AssembleError::UnknownMnemonic(line));
    }
    let opcode = match opcode_by_mnemonic(tokens[0].as_slice()) {
        None => {
            return Err(AssembleError::UnknownMnemonic(line));
        },
        Some(opcode) => opcode,
    };
    if opcode == HALT {
        Ok(encode(opcode, 0))
    } else if opcode == ADD || opcode == SUBTRACT {
        let a = match operand(tokens, 1, true, REGISTER_COUNT) {
            None => {
                return Err(AssembleError::MalformedOperand(line, 1));
            },
            Some(a) => a,
        };
        let b = match operand(tokens, 2, true, REGISTER_COUNT) {
            None => {
                return Err(AssembleError::MalformedOperand(line, 2));
            },
            Some(b) => b,
        };
        let c = match operand(tokens, 3, true, REGISTER_COUNT) {
            None => {
                return Err(AssembleError::MalformedOperand(line, 3));
            },
            Some(c) => c,
        };
        Ok(encode(opcode, a * 16 + b * 4 + c))
    } else if opcode == LOAD_IMMEDIATE || opcode == COMPARE || opcode == STORE || opcode == LOAD {
        let limit = if opcode == STORE || opcode == LOAD {
            MEMORY_SIZE
        } else {
            IMMEDIATE_LIMIT
        };
        let value = match operand(tokens, 1, false, limit) {
            None => {
                return Err(AssembleError::MalformedOperand(line, 1));
            },
            Some(value) => value,
        };
        let register = match operand(tokens, 2, true, REGISTER_COUNT) {
            None => {
                return Err(AssembleError::MalformedOperand(line, 2));
            },
            Some(register) => register,
        };
        Ok(encode(opcode, value * 4 + register))
    } else {
        let target = match operand(tokens, 1, false, TARGET_LIMIT) {
            None => {
                return Err(AssembleError::MalformedOperand(line, 1));
            },
            Some(target) => target,
        };
        Ok(encode(opcode, target))
    }
}

/// Assembles one line of source text, given with its number.
pub fn assemble_line(line_text: &[char], line: usize) -> (result: Result<u32, AssembleError>)
    ensures
        result == assembled_line(tokens(line_text@), line),
{
    let found = tokenize(line_text);
    assert(token_views(found@) =~= tokens(line_text@));
    assemble_tokens(&found, line)
}

/// The lines of a text behind position `begin`, by the end of the first of
/// them.
proof fn lemma_lines_from(text: Seq<char>, begin: int, end: int)
    requires
        0 <= begin <= end <= text.len(),
        forall|i: int| begin <= i < end ==> #[trigger] text[i] != '\n',
        end == text.len() || text[end] == '\n',
    ensures
        end == text.len() ==> lines(text.skip(begin)) == seq![text.subrange(begin, end)],
        end < text.len() ==> lines(text.skip(begin)) == seq![text.subrange(begin, end)] + lines(
            text.skip(end + 1),
        ),
{
    let rest = text.skip(begin);
    lemma_first_line_length_is(rest, end - begin);
    assert(rest.take(end - begin) =~= text.subrange(begin, end));
    if end == text.len() {
        assert(rest =~= text.subrange(begin, end));
    } else {
        assert(rest.skip(end - begin + 1) =~= text.skip(end + 1));
    }
}

/// Assembles a program, one instruction per line.
///
/// Every line is assembled, whatever became of the lines before it. Where
/// each line gives a word, the words are returned in the order of the lines.
/// Otherwise the errors of all the lines that failed are returned, in the
/// order of the lines.
pub fn assemble(program_str: &str) -> (result: Result<Vec<u32>, Vec<AssembleError>>)
    ensures
        result is Ok <==> forall|k: int|
            0 <= k < lines(program_str@).len() ==> (#[trigger] assembled(program_str@, k)) is Ok,
        result matches Ok(words) ==> words@.len() == lines(program_str@).len() && forall|k: int|
            0 <= k < words@.len() ==> #[trigger] assembled(program_str@, k) == Ok::<
                u32,
                AssembleError,
            >(words@[k]),
        result matches Err(errors) ==> errors@ == errors_of(
            program_str@,
            lines(program_str@).len() as int,
        ),
{
    let ghost text = program_str@;
    let ghost all = lines(text);
    let mut chars = chars_of(program_str);
    chars.push('\n');
    let mut words: Vec<u32> = Vec::new();
    let mut errors: Vec<AssembleError> = Vec::new();
    let mut begin: usize = 0;
    let mut done: usize = 0;
    let mut i: usize = 0;
    assert(text.skip(0) =~= text);
    assert(all.skip(0) =~= all);
    while i < chars.len()
        invariant
            chars@ == text.push('\n'),
            all == lines(text),
            begin <= i <= chars@.len(),
            done <= begin,
            done <= all.len(),
            forall|j: int| begin <= j < i ==> #[trigger] chars@[j] != '\n',
            begin <= text.len() ==> all.skip(done as int) == lines(text.skip(begin as int)),
            begin <= text.len() ==> i <= text.len(),
            begin > text.len() ==> done == all.len() && i == chars@.len(),
            words@ == words_of(text, done as int),
            errors@ == errors_of(text, done as int),
        decreases chars@.len() - i,
    {
        if chars[i] == '\n' {
            let line_text = vstd::slice::slice_subrange(chars.as_slice(), begin, i);
            proof {
                assert forall|j: int| begin <= j < i implies #[trigger] text[j] != '\n' by {
                    assert(chars@[j] == text[j]);
                }
                lemma_lines_from(text, begin as int, i as int);
                assert(line_text@ =~= text.subrange(begin as int, i as int));
                assert(all[done as int] == all.skip(done as int)[0]);
                if i < text.len() {
                    assert(all.skip(done + 1) =~= all.skip(done as int).skip(1));
                    assert((seq![line_text@] + lines(text.skip(i + 1))).skip(1) =~= lines(
                        text.skip(i + 1),
                    ));
                }
            }
            match assemble_line(line_text, done + 1) {
                Ok(word) => {
                    words.push(word);
                },
                Err(error) => {
                    errors.push(error);
                },
            }
            done += 1;
            begin = i + 1;
        }
        i += 1;
    }
    proof {
        lemma_words_and_errors(text, all.len() as int);
    }
    if errors.len() == 0 {
        Ok(words)
    } else {
        Err(errors)
    }
}

} // verus!
