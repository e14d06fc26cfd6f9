//! A program as bytes: each word as four bytes, least significant first,
//! with nothing before, between or behind them.

use vstd::prelude::*;

verus! {

/// Why bytes were not read as words.
#[derive(Debug, Clone, Copy, PartialEq, Eq, Structural)]
pub enum SerializeError {
    /// The number of bytes is no multiple of four.
    TruncatedInput,
}

/// The four bytes of a word, least significant first.
pub open spec fn word_bytes(word: u32) -> Seq<u8> {
    seq![
        (word % 0x100) as u8,
        (word / 0x100 % 0x100) as u8,
        (word / 0x1_0000 % 0x100) as u8,
        (word / 0x100_0000) as u8,
    ]
}

/// The word of four bytes, least significant first.
pub open spec fn word_of_bytes(b0: u8, b1: u8, b2: u8, b3: u8) -> u32 {
    (b0 + b1 * 0x100 + b2 * 0x1_0000 + b3 * 0x100_0000) as u32
}

/// The bytes of a sequence of words: those of the first word, then those of
/// the second, and so on.
pub open spec fn bytes_of_words(words: Seq<u32>) -> Seq<u8> {
    Seq::new(4 * words.len(), |i: int| word_bytes(words[i / 4])[i % 4])
}

/// The words of a sequence of bytes, four bytes to a word. Bytes behind the
/// last full group of four belong to no word.
pub open spec fn words_of_bytes(bytes: Seq<u8>) -> Seq<u32> {
    Seq::new(
        bytes.len() / 4,
        |k: int| word_of_bytes(bytes[4 * k], bytes[4 * k + 1], bytes[4 * k + 2], bytes[4 * k + 3]),
    )
}

/// The four bytes of a word give the word back.
pub proof fn lemma_word_of_its_bytes(word: u32)
    ensures
        word_of_bytes(
            word_bytes(word)[0],
            word_bytes(word)[1],
            word_bytes(word)[2],
            word_bytes(word)[3],
        ) == word,
{
    assert(word == (word % 0x100) + (word / 0x100 % 0x100) * 0x100 + (word / 0x1_0000 % 0x100)
        * 0x1_0000 + (word / 0x100_0000) * 0x100_0000) by (bit_vector);
    assert(word % 0x100 < 0x100 && word / 0x100 % 0x100 < 0x100 && word / 0x1_0000 % 0x100 < 0x100
        && word / 0x100_0000 < 0x100) by (bit_vector);
}

/// The word of four bytes has those bytes.
pub proof fn lemma_bytes_of_their_word(b0: u8, b1: u8, b2: u8, b3: u8)
    ensures
        word_bytes(word_of_bytes(b0, b1, b2, b3)) == seq![b0, b1, b2, b3],
{
    let word = word_of_bytes(b0, b1, b2, b3);
    let sum = b0 + b1 * 0x100 + b2 * 0x1_0000 + b3 * 0x100_0000;
    assert(0 <= sum < 0x1_0000_0000);
    assert(word == sum);
    assert(sum / 0x100 == b1 + b2 * 0x100 + b3 * 0x1_0000 && sum % 0x100 == b0);
    assert(sum / 0x1_0000 == b2 + b3 * 0x100);
    assert(sum / 0x100_0000 == b3);
    assert(word_bytes(word) =~= seq![b0, b1, b2, b3]);
}

/// Reading back the bytes of any sequence of words gives the words.
pub proof fn lemma_words_of_bytes_of_words(words: Seq<u32>)
    ensures
        bytes_of_words(words).len() == 4 * words.len(),
        words_of_bytes(bytes_of_words(words)) == words,
{
    let bytes = bytes_of_words(words);
    assert forall|k: int| 0 <= k < words.len() implies words_of_bytes(bytes)[k] == words[k] by {
        lemma_word_of_its_bytes(words[k]);
        assert(bytes[4 * k] == word_bytes(words[k])[0]);
        assert(bytes[4 * k + 1] == word_bytes(words[k])[1]);
        assert(bytes[4 * k + 2] == word_bytes(words[k])[2]);
        assert(bytes[4 * k + 3] == word_bytes(words[k])[3]);
    }
    assert(words_of_bytes(bytes) =~= words);
}

/// Writing out the words of a sequence of bytes whose length is a multiple of
/// four gives the bytes.
pub proof fn lemma_bytes_of_words_of_bytes(bytes: Seq<u8>)
    requires
        bytes.len() % 4 == 0,
    ensures
        bytes_of_words(words_of_bytes(bytes)) == bytes,
{
    let words = words_of_bytes(bytes);
    assert forall|i: int| 0 <= i < bytes.len() implies bytes_of_words(words)[i] == bytes[i] by {
        let k = i / 4;
        lemma_bytes_of_their_word(bytes[4 * k], bytes[4 * k + 1], bytes[4 * k + 2], bytes[4 * k + 3]);
    }
    assert(bytes_of_words(words) =~= bytes);
}

/// The bytes of a program, each word least significant byte first.
pub fn machine_code_as_bin_raw(program: &Vec<u32>) -> (raw_bytes: Vec<u8>)
    ensures
        raw_bytes@ == bytes_of_words(program@),
{
    let mut raw_bytes: Vec<u8> = Vec::new();
    let mut i: usize = 0;
    while i < program.len()
        invariant
            i <= program@.len(),
            raw_bytes@.len() == 4 * i,
            forall|j: int|
                0 <= j < 4 * i ==> raw_bytes@[j] == word_bytes(#[trigger] program@[j / 4])[j % 4],
        decreases program@.len() - i,
    {
        let word = program[i];
        raw_bytes.push((word % 0x100) as u8);
        raw_bytes.push((word / 0x100 % 0x100) as u8);
        raw_bytes.push((word / 0x1_0000 % 0x100) as u8);
        raw_bytes.push((word / 0x100_0000) as u8);
        i += 1;
    }
    assert(raw_bytes@ =~= bytes_of_words(program@));
    raw_bytes
}

/// The program that bytes hold, four bytes to a word, least significant byte
/// first. Bytes whose number is no multiple of four are refused.
pub fn bin_raw_as_machine_code(bytes: &Vec<u8>) -> (result: Result<Vec<u32>, SerializeError>)
    ensures
        bytes@.len() % 4 != 0 ==> result == Err::<Vec<u32>, SerializeError>(
            SerializeError::TruncatedInput,
        ),
        bytes@.len() % 4 == 0 ==> result is Ok && result.unwrap()@ == words_of_bytes(bytes@),
{
    if bytes.len() % 4 != 0 {
        return Err(SerializeError::TruncatedInput);
    }
    let mut machine_code: Vec<u32> = Vec::new();
    let mut i: usize = 0;
    while i < bytes.len()
        invariant
            i <= bytes@.len(),
            i % 4 == 0,
            bytes@.len() % 4 == 0,
            machine_code@.len() == i / 4,
            forall|k: int|
                0 <= k < i / 4 ==> #[trigger] machine_code@[k] == word_of_bytes(
                    bytes@[4 * k],
                    bytes@[4 * k + 1],
                    bytes@[4 * k + 2],
                    bytes@[4 * k + 3],
                ),
        decreases bytes@.len() - i,
    {
        let word: u32 = bytes[i] as u32 + bytes[i + 1] as u32 * 0x100 + bytes[i + 2] as u32
            * 0x1_0000 + bytes[i + 3] as u32 * 0x100_0000;
        machine_code.push(word);
        i += 4;
    }
    assert(machine_code@ =~= words_of_bytes(bytes@));
    Ok(machine_code)
}

} // verus!
