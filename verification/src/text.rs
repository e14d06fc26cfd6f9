//! Characters, tokens, lines and decimal numbers: what the assembler reads
//! and the disassembler writes.

use vstd::prelude::*;

verus! {

/// The characters of a string, in a vector.
pub fn chars_of(text: &str) -> (chars: Vec<char>)
    ensures
        chars@ == text@,
{
    let mut chars: Vec<char> = Vec::new();
    for c in it: text.chars()
        invariant
            it.seq() == text@,
            chars@ == text@.take(it.index() as int),
    {
        chars.push(c);
    }
    chars
}

/// Whether a character separates tokens: the characters that Unicode gives
/// the property White_Space.
pub open spec fn is_space(c: char) -> bool {
    ||| '\u{9}' <= c <= '\u{d}'
    ||| c == ' '
    ||| c == '\u{85}'
    ||| c == '\u{a0}'
    ||| c == '\u{1680}'
    ||| '\u{2000}' <= c <= '\u{200a}'
    ||| c == '\u{2028}'
    ||| c == '\u{2029}'
    ||| c == '\u{202f}'
    ||| c == '\u{205f}'
    ||| c == '\u{3000}'
}

/// Tests whether a character separates tokens.
pub fn is_separator(c: char) -> (space: bool)
    ensures
        space == is_space(c),
{
    ('\u{9}' <= c && c <= '\u{d}') || c == ' ' || c == '\u{85}' || c == '\u{a0}' || c
        == '\u{1680}' || ('\u{2000}' <= c && c <= '\u{200a}') || c == '\u{2028}' || c
        == '\u{2029}' || c == '\u{202f}' || c == '\u{205f}' || c == '\u{3000}'
}

/// Length of the longest prefix of `s` made of spaces only (`spaces` true) or
/// of other characters only (`spaces` false).
pub open spec fn run_length(s: Seq<char>, spaces: bool) -> int
    decreases s.len(),
{
    if s.len() > 0 && is_space(s[0]) == spaces {
        1 + run_length(s.skip(1), spaces)
    } else {
        0
    }
}

/// The tokens of a line: its maximal runs of characters that are no spaces,
/// from left to right.
pub open spec fn tokens(s: Seq<char>) -> Seq<Seq<char>>
    decreases s.len(),
    via tokens_decreases
{
    let start = run_length(s, true);
    let length = run_length(s.skip(start), false);
    if length == 0 {
        Seq::empty()
    } else {
        seq![s.subrange(start, start + length)] + tokens(s.skip(start + length))
    }
}

#[via_fn]
proof fn tokens_decreases(s: Seq<char>) {
    let start = run_length(s, true);
    lemma_run_length_bound(s, true);
    lemma_run_length_bound(s.skip(start), false);
}

/// A run is no longer than the sequence it starts.
pub proof fn lemma_run_length_bound(s: Seq<char>, spaces: bool)
    ensures
        0 <= run_length(s, spaces) <= s.len(),
    decreases s.len(),
{
    if s.len() > 0 && is_space(s[0]) == spaces {
        lemma_run_length_bound(s.skip(1), spaces);
    }
}

/// A run has length `n` where the first `n` characters are of its kind and
/// the sequence ends there or goes on with a character of the other kind.
pub proof fn lemma_run_length_is(s: Seq<char>, spaces: bool, n: int)
    requires
        0 <= n <= s.len(),
        forall|i: int| 0 <= i < n ==> is_space(#[trigger] s[i]) == spaces,
        n == s.len() || is_space(s[n]) != spaces,
    ensures
        run_length(s, spaces) == n,
    decreases n,
{
    if n > 0 {
        let rest = s.skip(1);
        assert forall|i: int| 0 <= i < n - 1 implies is_space(#[trigger] rest[i]) == spaces by {
            assert(rest[i] == s[i + 1]);
        }
        lemma_run_length_is(rest, spaces, n - 1);
    }
}

/// Every character of a run is of its kind.
pub proof fn lemma_run_length_kind(s: Seq<char>, spaces: bool)
    ensures
        forall|i: int| 0 <= i < run_length(s, spaces) ==> is_space(#[trigger] s[i]) == spaces,
    decreases s.len(),
{
    if s.len() > 0 && is_space(s[0]) == spaces {
        let rest = s.skip(1);
        lemma_run_length_kind(rest, spaces);
        lemma_run_length_bound(rest, spaces);
        assert forall|i: int| 0 <= i < run_length(s, spaces) implies is_space(#[trigger] s[i])
            == spaces by {
            if i > 0 {
                assert(s[i] == rest[i - 1]);
            }
        }
    }
}

/// No token is empty, and no token holds a space.
pub proof fn lemma_tokens_are_words(s: Seq<char>)
    ensures
        forall|k: int| 0 <= k < tokens(s).len() ==> (#[trigger] tokens(s)[k]).len() > 0,
        forall|k: int, i: int|
            0 <= k < tokens(s).len() && 0 <= i < tokens(s)[k].len() ==> !is_space(
                #[trigger] tokens(s)[k][i],
            ),
    decreases s.len(),
{
    let start = run_length(s, true);
    lemma_run_length_bound(s, true);
    let tail = s.skip(start);
    let length = run_length(tail, false);
    lemma_run_length_bound(tail, false);
    if length > 0 {
        let first = s.subrange(start, start + length);
        let rest = tokens(s.skip(start + length));
        lemma_tokens_are_words(s.skip(start + length));
        lemma_run_length_kind(tail, false);
        assert forall|i: int| 0 <= i < first.len() implies !is_space(#[trigger] first[i]) by {
            assert(first[i] == tail[i]);
        }
        assert forall|k: int| 0 <= k < tokens(s).len() implies (#[trigger] tokens(s)[k]).len()
            > 0 && forall|i: int|
            0 <= i < tokens(s)[k].len() ==> !is_space(#[trigger] tokens(s)[k][i]) by {
            if k > 0 {
                assert(tokens(s)[k] == rest[k - 1]);
            }
        }
    }
}

/// Finds the next token of `line` at or after `from`: skips the spaces there
/// and returns where the token starts and where it ends. The two are equal
/// where no token is left.
pub fn next_token(line: &[char], from: usize) -> (bounds: (usize, usize))
    requires
        from <= line@.len(),
    ensures
        from <= bounds.0 <= bounds.1 <= line@.len(),
        bounds.0 == from + run_length(line@.skip(from as int), true),
        bounds.1 == bounds.0 + run_length(line@.skip(bounds.0 as int), false),
{
    let mut start: usize = from;
    while start < line.len() && is_separator(line[start])
        invariant
            from <= start <= line@.len(),
            forall|i: int| from <= i < start ==> is_space(#[trigger] line@[i]),
        decreases line@.len() - start,
    {
        start += 1;
    }
    let mut end: usize = start;
    while end < line.len() && !is_separator(line[end])
        invariant
            start <= end <= line@.len(),
            forall|i: int| start <= i < end ==> !is_space(#[trigger] line@[i]),
        decreases line@.len() - end,
    {
        end += 1;
    }
    proof {
        lemma_run_length_is(line@.skip(from as int), true, start - from);
        lemma_run_length_is(line@.skip(start as int), false, end - start);
    }
    (start, end)
}

/// The tokens of what is left of a line behind `from`, by the bounds of the
/// first of them.
pub proof fn lemma_tokens_from(line: Seq<char>, from: int)
    requires
        0 <= from <= line.len(),
    ensures
        ({
            let start = from + run_length(line.skip(from), true);
            let end = start + run_length(line.skip(start), false);
            &&& from <= start <= end <= line.len()
            &&& start == end ==> tokens(line.skip(from)) == Seq::<Seq<char>>::empty()
            &&& start < end ==> tokens(line.skip(from)) == seq![line.subrange(start, end)] + tokens(
                line.skip(end),
            )
        }),
{
    let s = line.skip(from);
    let a = run_length(s, true);
    lemma_run_length_bound(s, true);
    lemma_run_length_bound(s.skip(a), false);
    let b = run_length(s.skip(a), false);
    assert(s.skip(a) =~= line.skip(from + a));
    assert(s.subrange(a, a + b) =~= line.subrange(from + a, from + a + b));
    assert(s.skip(a + b) =~= line.skip(from + a + b));
}

/// A token followed by nothing or by a space is the first token of the text,
/// and the other tokens are those of what follows it.
pub proof fn lemma_tokens_after_word(word: Seq<char>, rest: Seq<char>)
    requires
        word.len() > 0,
        forall|i: int| 0 <= i < word.len() ==> !is_space(#[trigger] word[i]),
        rest.len() == 0 || is_space(rest[0]),
    ensures
        tokens(word + rest) == seq![word] + tokens(rest),
{
    let s = word + rest;
    assert(!is_space(word[0]));
    assert(s[0] == word[0]);
    assert(run_length(s, true) == 0);
    assert(s.skip(0) =~= s);
    assert forall|i: int| 0 <= i < word.len() implies !is_space(#[trigger] s[i]) by {
        assert(s[i] == word[i]);
    }
    if rest.len() > 0 {
        assert(s[word.len() as int] == rest[0]);
    }
    lemma_run_length_is(s, false, word.len() as int);
    assert(s.subrange(0, word.len() as int) =~= word);
    assert(s.skip(word.len() as int) =~= rest);
}

/// A space in front of a text adds no token.
pub proof fn lemma_tokens_after_space(space: char, rest: Seq<char>)
    requires
        is_space(space),
    ensures
        tokens(seq![space] + rest) == tokens(rest),
{
    let s = seq![space] + rest;
    assert(s.skip(1) =~= rest);
    let a = run_length(rest, true);
    lemma_run_length_bound(rest, true);
    assert(run_length(s, true) == 1 + a);
    assert(s.skip(1 + a) =~= rest.skip(a));
    let b = run_length(rest.skip(a), false);
    lemma_run_length_bound(rest.skip(a), false);
    assert(s.subrange(1 + a, 1 + a + b) =~= rest.subrange(a, a + b));
    assert(s.skip(1 + a + b) =~= rest.skip(a + b));
}

/// The line made of `words` with one blank between each two of them.
pub open spec fn joined(words: Seq<Seq<char>>) -> Seq<char>
    decreases words.len(),
{
    if words.len() == 0 {
        Seq::empty()
    } else if words.len() == 1 {
        words[0]
    } else {
        words[0] + seq![' '] + joined(words.skip(1))
    }
}

/// Splitting a line gives back the words it was made of, where none of them
/// is empty or holds a space.
pub proof fn lemma_tokens_of_joined(words: Seq<Seq<char>>)
    requires
        forall|k: int| 0 <= k < words.len() ==> (#[trigger] words[k]).len() > 0,
        forall|k: int, i: int|
            0 <= k < words.len() && 0 <= i < words[k].len() ==> !is_space(#[trigger] words[k][i]),
    ensures
        tokens(joined(words)) == words,
    decreases words.len(),
{
    if words.len() == 0 {
        assert(tokens(Seq::<char>::empty()) =~= words);
    } else {
        let first = words[0];
        let rest = words.skip(1);
        assert(forall|k: int| 0 <= k < rest.len() ==> rest[k] == words[k + 1]);
        assert forall|i: int| 0 <= i < first.len() implies !is_space(#[trigger] first[i]) by {
            assert(!is_space(words[0][i]));
        }
        if words.len() == 1 {
            assert(tokens(Seq::<char>::empty()) =~= Seq::<Seq<char>>::empty());
            lemma_tokens_after_word(first, Seq::empty());
            assert(first + Seq::<char>::empty() =~= first);
            assert(seq![first] + Seq::<Seq<char>>::empty() =~= words);
        } else {
            lemma_tokens_of_joined(rest);
            lemma_tokens_after_space(' ', joined(rest));
            lemma_tokens_after_word(first, seq![' '] + joined(rest));
            assert(joined(words) =~= first + (seq![' '] + joined(rest)));
            assert(seq![first] + rest =~= words);
        }
    }
}

/// Splits a line into its tokens.
pub fn tokenize(line: &[char]) -> (found: Vec<Vec<char>>)
    ensures
        found@.len() == tokens(line@).len(),
        forall|i: int| 0 <= i < found@.len() ==> (#[trigger] found@[i])@ == tokens(line@)[i],
{
    let mut found: Vec<Vec<char>> = Vec::new();
    let mut position: usize = 0;
    let ghost mut seen: Seq<Seq<char>> = Seq::empty();
    assert(line@.skip(0) =~= line@);
    loop
        invariant
            position <= line@.len(),
            seen.len() == found@.len(),
            forall|i: int| 0 <= i < found@.len() ==> (#[trigger] found@[i])@ == seen[i],
            tokens(line@) == seen + tokens(line@.skip(position as int)),
        ensures
            seen == tokens(line@),
            seen.len() == found@.len(),
            forall|i: int| 0 <= i < found@.len() ==> (#[trigger] found@[i])@ == seen[i],
        decreases line@.len() - position,
    {
        let (start, end) = next_token(line, position);
        proof {
            lemma_tokens_from(line@, position as int);
        }
        if start == end {
            break ;
        }
        let token = vstd::slice::slice_to_vec(vstd::slice::slice_subrange(line, start, end));
        found.push(token);
        proof {
            let ghost rest = tokens(line@.skip(end as int));
            assert(seen + (seq![line@.subrange(start as int, end as int)] + rest) =~= seen.push(
                line@.subrange(start as int, end as int),
            ) + rest);
            seen = seen.push(line@.subrange(start as int, end as int));
        }
        position = end;
    }
    found
}

/// Whether a character is one of the ten decimal digits.
pub open spec fn is_digit(c: char) -> bool {
    '0' <= c <= '9'
}

/// The number that a decimal digit stands for.
pub open spec fn digit_value(c: char) -> int {
    c as int - '0' as int
}

/// Every character of `s` is a decimal digit.
pub open spec fn all_digits(s: Seq<char>) -> bool {
    forall|i: int| 0 <= i < s.len() ==> is_digit(#[trigger] s[i])
}

/// The number that a sequence of decimal digits stands for, most significant
/// digit first. Leading zeros do not count.
pub open spec fn decimal_value(s: Seq<char>) -> int
    decreases s.len(),
{
    if s.len() == 0 {
        0
    } else {
        decimal_value(s.drop_last()) * 10 + digit_value(s.last())
    }
}

/// The number that `digits` stand for, where they are digits, one at least,
/// and the number lies below `limit`.
pub open spec fn digits_below(digits: Seq<char>, limit: int) -> Option<u32> {
    if digits.len() > 0 && all_digits(digits) && decimal_value(digits) < limit {
        Some(decimal_value(digits) as u32)
    } else {
        None
    }
}

/// A token without the plus sign that may stand first in a number.
pub open spec fn without_plus(token: Seq<char>) -> Seq<char> {
    if token.len() > 0 && token[0] == '+' {
        token.skip(1)
    } else {
        token
    }
}

/// The number that `token` stands for, where it is a number below `limit`:
/// digits only, one at least, which one plus sign may precede. No other sign
/// and no blank is taken.
pub open spec fn number_below(token: Seq<char>, limit: int) -> Option<u32> {
    digits_below(without_plus(token), limit)
}

/// The value of digits is not negative, and no prefix is worth more than the
/// whole.
pub proof fn lemma_decimal_value_grows(s: Seq<char>, n: int)
    requires
        all_digits(s),
        0 <= n <= s.len(),
    ensures
        0 <= decimal_value(s.take(n)) <= decimal_value(s),
    decreases s.len(),
{
    if s.len() == 0 {
        assert(s.take(n) =~= s);
    } else if n == s.len() {
        assert(s.take(n) =~= s);
        lemma_decimal_value_grows(s.drop_last(), n - 1);
    } else {
        assert(s.drop_last().take(n) =~= s.take(n));
        lemma_decimal_value_grows(s.drop_last(), n);
    }
}

/// A number below a limit that a `u32` can hold lies below that limit.
pub proof fn lemma_number_below(token: Seq<char>, limit: int)
    requires
        limit <= 0x1_0000_0000,
    ensures
        number_below(token, limit) is Some ==> number_below(token, limit).unwrap() < limit,
{
    let digits = without_plus(token);
    if all_digits(digits) {
        lemma_decimal_value_grows(digits, 0);
    }
}

/// Reads `token` as a decimal number below `limit`.
pub fn parse_number(token: &[char], limit: u32) -> (number: Option<u32>)
    ensures
        number == number_below(token@, limit as int),
        number is Some ==> number.unwrap() < limit,
{
    if token.len() > 0 && token[0] == '+' {
        parse_digits(vstd::slice::slice_subrange(token, 1, token.len()), limit)
    } else {
        parse_digits(token, limit)
    }
}

/// Reads `token` as digits that stand for a number below `limit`.
pub fn parse_digits(token: &[char], limit: u32) -> (number: Option<u32>)
    ensures
        number == digits_below(token@, limit as int),
        number is Some ==> number.unwrap() < limit,
{
    if token.len() == 0 {
        return None;
    }
    let mut value: u32 = 0;
    let mut i: usize = 0;
    while i < token.len()
        invariant
            i <= token@.len(),
            all_digits(token@.take(i as int)),
            value == decimal_value(token@.take(i as int)),
            i > 0 ==> value < limit,
        decreases token@.len() - i,
    {
        let c = token[i];
        if !('0' <= c && c <= '9') {
            return None;
        }
        let digit: u32 = c as u32 - '0' as u32;
        proof {
            assert(token@.take(i + 1).drop_last() =~= token@.take(i as int));
            assert(all_digits(token@.take(i + 1)));
        }
        let next: u64 = value as u64 * 10 + digit as u64;
        if next >= limit as u64 {
            proof {
                if all_digits(token@) {
                    lemma_decimal_value_grows(token@, i + 1);
                }
            }
            return None;
        }
        value = next as u32;
        i += 1;
    }
    assert(token@.take(i as int) =~= token@);
    Some(value)
}

/// The character of a decimal digit.
pub open spec fn digit_char(digit: int) -> char {
    ('0' as int + digit) as char
}

/// The decimal digits of a number, most significant first, without leading
/// zeros.
pub open spec fn decimal_digits(n: nat) -> Seq<char>
    decreases n,
{
    if n < 10 {
        seq![digit_char(n as int)]
    } else {
        decimal_digits(n / 10).push(digit_char((n % 10) as int))
    }
}

/// The digits of a number are digits, at least one, none of them a space, and
/// they stand for that number: read as a number below a limit above it, they
/// give it back.
pub proof fn lemma_decimal_digits(n: nat)
    ensures
        decimal_digits(n).len() > 0,
        all_digits(decimal_digits(n)),
        forall|i: int| 0 <= i < decimal_digits(n).len() ==> !is_space(#[trigger] decimal_digits(n)[i]),
        decimal_value(decimal_digits(n)) == n,
        without_plus(decimal_digits(n)) == decimal_digits(n),
        forall|limit: int|
            n < limit <= 0x1_0000_0000 ==> #[trigger] number_below(decimal_digits(n), limit)
                == Some(n as u32),
    decreases n,
{
    if n < 10 {
        let s = decimal_digits(n);
        assert(s.drop_last() =~= Seq::<char>::empty());
        assert(decimal_value(s.drop_last()) == 0);
    } else {
        lemma_decimal_digits(n / 10);
        let s = decimal_digits(n);
        assert(s.drop_last() =~= decimal_digits(n / 10));
    }
}

/// The text of one decimal digit.
fn digit_text(digit: u32) -> (text: &'static str)
    requires
        digit < 10,
    ensures
        text@ == seq![digit_char(digit as int)],
{
    proof {
        reveal_strlit("0");
        reveal_strlit("1");
        reveal_strlit("2");
        reveal_strlit("3");
        reveal_strlit("4");
        reveal_strlit("5");
        reveal_strlit("6");
        reveal_strlit("7");
        reveal_strlit("8");
        reveal_strlit("9");
    }
    let text = if digit == 0 {
        "0"
    } else if digit == 1 {
        "1"
    } else if digit == 2 {
        "2"
    } else if digit == 3 {
        "3"
    } else if digit == 4 {
        "4"
    } else if digit == 5 {
        "5"
    } else if digit == 6 {
        "6"
    } else if digit == 7 {
        "7"
    } else if digit == 8 {
        "8"
    } else {
        "9"
    };
    assert(text@ =~= seq![digit_char(digit as int)]);
    text
}

/// Appends the decimal digits of `n` to `text`.
pub fn push_decimal(text: &mut String, n: u32)
    ensures
        final(text)@ == old(text)@ + decimal_digits(n as nat),
    decreases n,
{
    if n >= 10 {
        push_decimal(text, n / 10);
    }
    text.append(digit_text(n % 10));
    assert(text@ =~= old(text)@ + decimal_digits(n as nat));
}

/// Length of the first line of a text: the number of characters before its
/// first line feed, or all of them where it has none.
pub open spec fn first_line_length(text: Seq<char>) -> int
    decreases text.len(),
{
    if text.len() > 0 && text[0] != '\n' {
        1 + first_line_length(text.skip(1))
    } else {
        0
    }
}

/// The lines of a text: the pieces between its line feeds. A text with `n`
/// line feeds has `n + 1` lines; the empty text has one empty line.
pub open spec fn lines(text: Seq<char>) -> Seq<Seq<char>>
    decreases text.len(),
    via lines_decreases
{
    let length = first_line_length(text);
    if length >= text.len() {
        seq![text]
    } else {
        seq![text.take(length)] + lines(text.skip(length + 1))
    }
}

#[via_fn]
proof fn lines_decreases(text: Seq<char>) {
    lemma_first_line_length_bound(text);
}

/// The first line is no longer than the text.
pub proof fn lemma_first_line_length_bound(text: Seq<char>)
    ensures
        0 <= first_line_length(text) <= text.len(),
    decreases text.len(),
{
    if text.len() > 0 && text[0] != '\n' {
        lemma_first_line_length_bound(text.skip(1));
    }
}

/// The first line has length `n` where the first `n` characters are no line
/// feeds and the text ends there or goes on with a line feed.
pub proof fn lemma_first_line_length_is(text: Seq<char>, n: int)
    requires
        0 <= n <= text.len(),
        forall|i: int| 0 <= i < n ==> #[trigger] text[i] != '\n',
        n == text.len() || text[n] == '\n',
    ensures
        first_line_length(text) == n,
    decreases n,
{
    if n > 0 {
        let rest = text.skip(1);
        assert forall|i: int| 0 <= i < n - 1 implies #[trigger] rest[i] != '\n' by {
            assert(rest[i] == text[i + 1]);
        }
        lemma_first_line_length_is(rest, n - 1);
    }
}

/// A text has at least one line, and no line holds a line feed.
pub proof fn lemma_lines_hold_no_line_feed(text: Seq<char>)
    ensures
        lines(text).len() > 0,
        forall|k: int, i: int|
            0 <= k < lines(text).len() && 0 <= i < lines(text)[k].len() ==> #[trigger] lines(
                text,
            )[k][i] != '\n',
    decreases text.len(),
{
    let length = first_line_length(text);
    lemma_first_line_length_bound(text);
    lemma_first_line_holds_no_line_feed(text);
    if length < text.len() {
        let rest = lines(text.skip(length + 1));
        lemma_lines_hold_no_line_feed(text.skip(length + 1));
        assert forall|k: int, i: int|
            0 <= k < lines(text).len() && 0 <= i < lines(text)[k].len() implies #[trigger] lines(
            text,
        )[k][i] != '\n' by {
            if k > 0 {
                assert(lines(text)[k] == rest[k - 1]);
            }
        }
    }
}

/// No character of the first line is a line feed.
pub proof fn lemma_first_line_holds_no_line_feed(text: Seq<char>)
    ensures
        forall|i: int| 0 <= i < first_line_length(text) ==> #[trigger] text[i] != '\n',
    decreases text.len(),
{
    if text.len() > 0 && text[0] != '\n' {
        let rest = text.skip(1);
        lemma_first_line_holds_no_line_feed(rest);
        lemma_first_line_length_bound(rest);
        assert forall|i: int| 0 <= i < first_line_length(text) implies #[trigger] text[i]
            != '\n' by {
            if i > 0 {
                assert(text[i] == rest[i - 1]);
            }
        }
    }
}

} // verus!
