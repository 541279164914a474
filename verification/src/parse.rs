//! The reader for microprograms.
//!
//! A microprogram is a text with one instruction per line. Everything from a
//! `#` on is a comment; white space around a line and empty lines do not
//! count. A line may begin with the address of its instruction, five binary
//! digits and a colon. In the instruction itself only the characters `0`
//! and `1` count, so that any other character can group the bits.
//!
//! [`load_text`] says which program a text is; [`parse_instructions`] and
//! [`read_program`] compute it.

use vstd::prelude::*;
use crate::error::Error;
use crate::instruction::{Instruction, INSTRUCTION_LIMIT};
use crate::pattern::{captures, groups_view, regex_captures};
use crate::reach::{listing_view, reachable_instructions, reachable_program};
use crate::text::{
    digits_number, find, lemma_position_of, lemma_position_of_unique, lemma_trim_start,
    position_of, read_binary, saturated,
    to_chars, to_text, trim, trim_end, trim_start, trimmed, is_white_space,
};

verus! {

/// The number of instructions that a program holds.
pub const PROGRAM_SIZE: usize = 32;

/// The regular expression for a line with an address: five binary digits,
/// a colon, and the instruction as the rest of the line.
pub const ADDRESS_PATTERN: &'static str = r"^(?P<addr>[01]{5})\s*:\s*(?P<inst>.*)$";

/// What a line of a microprogram says: an instruction, and the address that
/// it asks for, if it asks for one.
pub struct Entry {
    pub address: Option<nat>,
    pub word: u32,
}

/// The slots of a program while it is read: the raw word of each
/// instruction that has been placed.
pub type Slots = Seq<Option<u32>>;

/// A program without instructions.
pub open spec fn empty_slots() -> Slots {
    Seq::new(PROGRAM_SIZE as nat, |i: int| None::<u32>)
}

/// A line up to its comment.
pub open spec fn before_comment(line: Seq<char>) -> Seq<char> {
    line.take(position_of(line, '#') as int)
}

/// What counts of a line: the text before the comment, without the white
/// space around it.
pub open spec fn content_of(line: Seq<char>) -> Seq<char> {
    trimmed(before_comment(line))
}

/// Whether the content of a line holds a colon, and with it an address.
pub open spec fn has_colon(content: Seq<char>) -> bool {
    position_of(content, ':') < content.len()
}

/// The address and the instruction of a line, from the capture groups that
/// the address pattern has found: the first and the second group of a match
/// with two groups.
pub open spec fn address_parts(groups: Option<Seq<Option<Seq<char>>>>) -> Option<
    (Seq<char>, Seq<char>),
> {
    match groups {
        Some(parts) => if parts.len() == 3 && parts[1] is Some && parts[2] is Some {
            Some((parts[1]->0, parts[2]->0))
        } else {
            None
        },
        None => None,
    }
}

/// The entry for an address and an instruction, both given as the numbers
/// that their binary digits denote. An instruction has 25 bits, an address
/// lies below 32.
pub open spec fn entry_of(address: Option<nat>, word: nat) -> Result<Entry, Error> {
    if word >= INSTRUCTION_LIMIT {
        Err(Error::Instruction("Given u32 too large (more then 25 bit)"))
    } else {
        match address {
            Some(a) => if a >= PROGRAM_SIZE {
                Err(Error::Parse("Specified instruction address too big"))
            } else {
                Ok(Entry { address, word: word as u32 })
            },
            None => Ok(Entry { address, word: word as u32 }),
        }
    }
}

/// What a line says: nothing, an entry, or an error.
///
/// A line with a colon has to match [`ADDRESS_PATTERN`].
pub open spec fn line_entry(line: Seq<char>) -> Result<Option<Entry>, Error> {
    let content = content_of(line);
    if content.len() == 0 {
        Ok(None)
    } else if has_colon(content) {
        match address_parts(regex_captures(ADDRESS_PATTERN@, content)) {
            Some((address, body)) => match entry_of(
                Some(digits_number(address)),
                digits_number(body),
            ) {
                Ok(entry) => Ok(Some(entry)),
                Err(e) => Err(e),
            },
            None => Err(Error::Parse("Invalid instruction address")),
        }
    } else {
        match entry_of(None, digits_number(content)) {
            Ok(entry) => Ok(Some(entry)),
            Err(e) => Err(e),
        }
    }
}

/// The index of the first free slot, or the number of slots if none is
/// free.
pub open spec fn first_free(slots: Slots) -> nat
    decreases slots.len(),
{
    if slots.len() == 0 || slots.first() is None {
        0
    } else {
        1 + first_free(slots.drop_first())
    }
}

/// The slots after an entry is placed: at its address, which has to be
/// free, or else in the first free slot, of which there has to be one.
pub open spec fn place_entry(slots: Slots, entry: Entry) -> Result<Slots, Error> {
    match entry.address {
        Some(a) => if slots[a as int] is None {
            Ok(slots.update(a as int, Some(entry.word)))
        } else {
            Err(Error::Parse("Two instructions with the same address"))
        },
        None => if first_free(slots) < slots.len() {
            Ok(slots.update(first_free(slots) as int, Some(entry.word)))
        } else {
            Err(Error::Parse("Too many instructions in this program"))
        },
    }
}

/// The slots after a line is read.
pub open spec fn load_line(line: Seq<char>, slots: Slots) -> Result<Slots, Error> {
    match line_entry(line) {
        Ok(Some(entry)) => place_entry(slots, entry),
        Ok(None) => Ok(slots),
        Err(e) => Err(e),
    }
}

/// The slots after a text is read line by line, from the first line on. The
/// first error ends the reading.
pub open spec fn load_text(text: Seq<char>, slots: Slots) -> Result<Slots, Error>
    decreases text.len(),
{
    let end = position_of(text, '\n') as int;
    match load_line(text.take(end), slots) {
        Ok(next) => if end < text.len() {
            load_text(text.skip(end + 1), next)
        } else {
            Ok(next)
        },
        Err(e) => Err(e),
    }
}

/// The program that a text is: the slots that [`load_text`] fills, from
/// empty slots on.
pub open spec fn program_of(text: Seq<char>) -> Result<Slots, Error> {
    load_text(text, empty_slots())
}

/// The raw words of the instructions that have been placed.
pub open spec fn slots_view(instructions: [Option<Instruction>; 32]) -> Slots {
    Seq::new(
        PROGRAM_SIZE as nat,
        |i: int|
            match instructions@[i] {
                Some(instruction) => Some(instruction@),
                None => None,
            },
    )
}

/// The raw words of a program.
pub open spec fn program_view(program: [Instruction; 32]) -> Seq<u32> {
    Seq::new(PROGRAM_SIZE as nat, |i: int| program@[i]@)
}

/// The word of a slot; a free slot holds the zero instruction.
pub open spec fn word_or_zero(slot: Option<u32>) -> u32 {
    match slot {
        Some(word) => word,
        None => 0,
    }
}

/// An entry as values.
pub open spec fn entry_view(entry: (Option<usize>, Instruction)) -> Entry {
    Entry {
        address: match entry.0 {
            Some(a) => Some(a as nat),
            None => None,
        },
        word: entry.1@,
    }
}

/// [`first_free`] is at most the number of slots; no slot before it is
/// free; the slot at it is, unless it is the number of slots.
pub proof fn lemma_first_free(slots: Slots)
    ensures
        first_free(slots) <= slots.len(),
        forall|i: int| 0 <= i < first_free(slots) ==> slots[i] is Some,
        first_free(slots) < slots.len() ==> slots[first_free(slots) as int] is None,
    decreases slots.len(),
{
    if slots.len() == 0 || slots.first() is None {
    } else {
        let rest = slots.drop_first();
        lemma_first_free(rest);
        assert forall|i: int| 0 <= i < first_free(slots) implies slots[i] is Some by {
            if i > 0 {
                assert(slots[i] == rest[i - 1]);
            }
        }
        assert(first_free(rest) < rest.len() ==> rest[first_free(rest) as int]
            == slots[first_free(slots) as int]);
    }
}

/// An index with the three properties of [`lemma_first_free`] is
/// [`first_free`].
pub proof fn lemma_first_free_unique(slots: Slots, index: int)
    requires
        0 <= index <= slots.len(),
        forall|i: int| 0 <= i < index ==> slots[i] is Some,
        index < slots.len() ==> slots[index] is None,
    ensures
        index == first_free(slots),
{
    lemma_first_free(slots);
    let found = first_free(slots) as int;
    if found < index {
        assert(slots[found] is Some);
    }
    if index < found {
        assert(slots[index] is Some);
    }
}

/// Picks the address and the instruction of a line out of the capture
/// groups that the address pattern has found.
pub fn select_address_parts(groups: &Option<Vec<Option<String>>>) -> (parts: Option<
    (Vec<char>, Vec<char>),
>)
    ensures
        match address_parts(groups_view(*groups)) {
            Some((address, body)) => parts matches Some(found) && found.0@ == address && found.1@
                == body,
            None => parts is None,
        },
{
    match groups {
        Some(parts) => {
            if parts.len() != 3 {
                return None;
            }
            match (&parts[1], &parts[2]) {
                (Some(address), Some(body)) => Some(
                    (to_chars(address.as_str()), to_chars(body.as_str())),
                ),
                _ => None,
            }
        },
        None => None,
    }
}

/// Makes the entry for an address and an instruction, both given as the
/// numbers that their binary digits denote.
pub fn make_entry(address: Option<u32>, word: u32) -> (made: Result<
    (Option<usize>, Instruction),
    Error,
>)
    ensures
        match entry_of(
            match address {
                Some(a) => Some(a as nat),
                None => None,
            },
            word as nat,
        ) {
            Ok(entry) => made matches Ok(found) && entry_view(found) == entry,
            Err(e) => made == Err::<(Option<usize>, Instruction), Error>(e),
        },
{
    let instruction = match Instruction::new(word) {
        Ok(instruction) => instruction,
        Err(e) => {
            return Err(e);
        },
    };
    match address {
        Some(a) => {
            if a as usize >= PROGRAM_SIZE {
                Err(Error::Parse("Specified instruction address too big"))
            } else {
                Ok((Some(a as usize), instruction))
            }
        },
        None => Ok((None, instruction)),
    }
}

/// Reads the line `chars[from..to]`.
pub fn parse_line(chars: &Vec<char>, from: usize, to: usize) -> (read: Result<
    Option<(Option<usize>, Instruction)>,
    Error,
>)
    requires
        from <= to <= chars.len(),
    ensures
        match line_entry(chars@.subrange(from as int, to as int)) {
            Ok(Some(entry)) => read matches Ok(Some(found)) && entry_view(found) == entry,
            Ok(None) => read matches Ok(None),
            Err(e) => read == Err::<Option<(Option<usize>, Instruction)>, Error>(e),
        },
{
    let ghost line = chars@.subrange(from as int, to as int);
    // Remove comments that start with # and the white space around the rest
    let stop = find(chars, from, to, '#');
    assert(chars@.subrange(from as int, stop as int) == before_comment(line));
    let (first, last) = trim(chars, from, stop);
    let ghost content = chars@.subrange(first as int, last as int);
    assert(content == content_of(line));

    // Ignore empty lines
    if first == last {
        return Ok(None);
    }
    // Check if an explicit address is given

    let colon = find(chars, first, last, ':');
    if colon < last {
        let text = to_text(chars, first, last);
        let groups = captures(ADDRESS_PATTERN, text.as_str());
        match select_address_parts(&groups) {
            Some((address, body)) => {
                let word = read_binary(&body, 0, body.len());
                let place = read_binary(&address, 0, address.len());
                assert(body@.subrange(0, body.len() as int) == body@);
                assert(address@.subrange(0, address.len() as int) == address@);
                match make_entry(Some(place), word) {
                    Ok(entry) => Ok(Some(entry)),
                    Err(e) => Err(e),
                }
            },
            None => Err(Error::Parse("Invalid instruction address")),
        }
    } else {
        let word = read_binary(chars, first, last);
        match make_entry(None, word) {
            Ok(entry) => Ok(Some(entry)),
            Err(e) => Err(e),
        }
    }
}

/// Places an instruction in the program: at its address, if it has one,
/// or else at the first free address.
pub fn place(
    instructions: &mut [Option<Instruction>; 32],
    address: Option<usize>,
    instruction: Instruction,
) -> (placed: Result<(), Error>)
    requires
        address matches Some(a) ==> a < PROGRAM_SIZE,
    ensures
        match place_entry(slots_view(*old(instructions)), entry_view((address, instruction))) {
            Ok(slots) => placed is Ok && slots_view(*final(instructions)) == slots,
            Err(e) => placed == Err::<(), Error>(e) && *final(instructions) == *old(instructions),
        },
{
    let ghost slots = slots_view(*instructions);
    match address {
        Some(a) => {
            if instructions[a].is_none() {
                instructions[a] = Some(instruction);
                assert(slots_view(*instructions) =~= slots.update(a as int, Some(instruction@)));
                Ok(())
            } else {
                Err(Error::Parse("Two instructions with the same address"))
            }
        },
        None => {
            // Find the next free address
            let mut free: usize = 0;
            while free < PROGRAM_SIZE && instructions[free].is_some()
                invariant
                    free <= PROGRAM_SIZE,
                    slots == slots_view(*instructions),
                    forall|i: int| 0 <= i < free ==> slots[i] is Some,
                decreases PROGRAM_SIZE - free,
            {
                free += 1;
            }
            proof {
                lemma_first_free_unique(slots, free as int);
            }
            if free < PROGRAM_SIZE {
                instructions[free] = Some(instruction);
                assert(slots_view(*instructions) =~= slots.update(
                    free as int,
                    Some(instruction@),
                ));
                Ok(())
            } else {
                Err(Error::Parse("Too many instructions in this program"))
            }
        },
    }
}

/// Reads a microprogram into the slots of a program. A slot that no line
/// has filled is `None`.
pub fn parse_instructions(source: &str) -> (parsed: Result<[Option<Instruction>; 32], Error>)
    ensures
        match program_of(source@) {
            Ok(slots) => parsed matches Ok(instructions) && slots_view(instructions) == slots,
            Err(e) => parsed == Err::<[Option<Instruction>; 32], Error>(e),
        },
{
    let chars = to_chars(source);
    let mut instructions: [Option<Instruction>; 32] = [None;32];
    assert(slots_view(instructions) =~= empty_slots());
    assert(chars@.skip(0) == chars@);
    let mut position: usize = 0;
    loop
        invariant
            position <= chars.len(),
            chars@ == source@,
            program_of(source@) == load_text(
                chars@.skip(position as int),
                slots_view(instructions),
            ),
        decreases chars.len() - position,
    {
        let ghost rest = chars@.skip(position as int);
        let end = find(&chars, position, chars.len(), '\n');
        proof {
            assert(rest == chars@.subrange(position as int, chars.len() as int));
            assert(rest.take(end - position) == chars@.subrange(position as int, end as int));
        }
        match parse_line(&chars, position, end) {
            Ok(Some((address, instruction))) => {
                match place(&mut instructions, address, instruction) {
                    Ok(()) => {},
                    Err(e) => {
                        return Err(e);
                    },
                }
            },
            Ok(None) => {},
            Err(e) => {
                return Err(e);
            },
        }
        if end == chars.len() {
            return Ok(instructions);
        }
        proof {
            assert(rest.skip(end - position + 1) == chars@.skip(end + 1));
        }
        position = end + 1;
    }
}

/// Reads a microprogram into a program of 32 instructions.
///
/// Ignores empty lines and everything after the `#` char. Any char other
/// than `0`, `1` and `:` can be used to format a program for improved
/// readability.
///
/// Instructions can be given an explicit address by prefixing them with the
/// binary representation of the address followed by `:`. Instructions
/// without an explicit address are saved at the first unused address. The
/// addresses that stay unused hold the zero instruction.
pub fn read_program(source: &str) -> (program: Result<[Instruction; 32], Error>)
    ensures
        match program_of(source@) {
            Ok(slots) => program matches Ok(instructions) && program_view(instructions)
                == slots.map_values(|slot: Option<u32>| word_or_zero(slot)),
            Err(e) => program == Err::<[Instruction; 32], Error>(e),
        },
{
    let instructions = match parse_instructions(source) {
        Ok(instructions) => instructions,
        Err(e) => {
            return Err(e);
        },
    };
    let ghost slots = slots_view(instructions);
    let mut program: [Instruction; 32] = [Instruction::default();32];
    let mut i: usize = 0;
    while i < PROGRAM_SIZE
        invariant
            i <= PROGRAM_SIZE,
            slots == slots_view(instructions),
            forall|j: int| 0 <= j < i ==> program@[j]@ == word_or_zero(slots[j]),
            forall|j: int| i <= j < PROGRAM_SIZE ==> program@[j]@ == 0,
        decreases PROGRAM_SIZE - i,
    {
        if let Some(instruction) = instructions[i] {
            program[i] = instruction;
        }
        i += 1;
    }
    assert(program_view(program) =~= slots.map_values(|slot: Option<u32>| word_or_zero(slot)));
    Ok(program)
}

/// Reads a microprogram and returns only the reachable instructions, each
/// with its address, by ascending address.
///
/// Instructions are considered reachable if there is a chain of
/// instructions from the first one at address 0 to it. This also considers
/// conditional jumps. The text is read as [`read_program`] reads it.
pub fn read_reachable_program(source: &str) -> (program: Result<Vec<(u8, Instruction)>, Error>)
    ensures
        match program_of(source@) {
            Ok(slots) => match reachable_program(slots) {
                Ok(listing) => program matches Ok(found) && listing_view(found@) == listing,
                Err(e) => program == Err::<Vec<(u8, Instruction)>, Error>(e),
            },
            Err(e) => program == Err::<Vec<(u8, Instruction)>, Error>(e),
        },
{
    match parse_instructions(source) {
        Ok(instructions) => reachable_instructions(&instructions),
        Err(e) => Err(e),
    }
}

/// Converts a text of binary digits to a number, ignoring any chars other
/// than `0` and `1`. A number above the greatest `u32` gives the greatest
/// `u32`.
pub fn convert_binary_string_to_int(s: &str) -> (number: u32)
    ensures
        number == saturated(digits_number(s@)),
{
    let chars = to_chars(s);
    assert(chars@.subrange(0, chars.len() as int) == chars@);
    read_binary(&chars, 0, chars.len())
}

/// A line that starts with `#` and a line of white space say nothing: the
/// slots stay as they are.
pub proof fn law_comments_and_blank_lines_are_ignored(line: Seq<char>, slots: Slots)
    requires
        (line.len() > 0 && line[0] == '#') || (forall|i: int|
            0 <= i < line.len() ==> is_white_space(line[i])),
    ensures
        line_entry(line) == Ok::<Option<Entry>, Error>(None),
        load_line(line, slots) == Ok::<Slots, Error>(slots),
{
    let kept = before_comment(line);
    lemma_position_of(line, '#');
    if line.len() > 0 && line[0] == '#' {
        assert(position_of(line, '#') == 0);
        assert(kept.len() == 0);
    } else {
        assert forall|i: int| 0 <= i < kept.len() implies is_white_space(kept[i]) by {
            assert(kept[i] == line[i]);
        }
        lemma_trim_start(kept, kept.len() as int);
        assert(kept.skip(kept.len() as int).len() == 0);
    }
    assert(trim_start(kept).len() == 0);
    assert(trim_end(trim_start(kept)).len() == 0);
}

/// A text is read line by line: what the first line leaves is what the
/// rest of the text starts from, and an error in the first line is the error
/// of the whole. A text without a line feed is one line.
pub proof fn law_lines_are_read_in_order(line: Seq<char>, rest: Seq<char>, slots: Slots)
    requires
        forall|i: int| 0 <= i < line.len() ==> line[i] != '\n',
    ensures
        load_text(line, slots) == load_line(line, slots),
        load_text(line.push('\n') + rest, slots) == match load_line(line, slots) {
            Ok(next) => load_text(rest, next),
            Err(e) => Err(e),
        },
{
    let text = line.push('\n') + rest;
    assert forall|i: int| 0 <= i < line.len() implies text[i] != '\n' by {
        assert(text[i] == line[i]);
    }
    assert(text[line.len() as int] == '\n');
    lemma_position_of_unique(text, '\n', line.len() as int);
    lemma_position_of_unique(line, '\n', line.len() as int);
    assert(text.take(line.len() as int) == line);
    assert(line.take(line.len() as int) == line);
    assert(text.skip(line.len() as int + 1) == rest);
}

/// A line that says nothing can stand before any text, and the text is read
/// as it is read without the line.
pub proof fn law_ignored_lines_change_nothing(line: Seq<char>, rest: Seq<char>, slots: Slots)
    requires
        forall|i: int| 0 <= i < line.len() ==> line[i] != '\n',
        (line.len() > 0 && line[0] == '#') || (forall|i: int|
            0 <= i < line.len() ==> is_white_space(line[i])),
    ensures
        load_text(line.push('\n') + rest, slots) == load_text(rest, slots),
{
    law_lines_are_read_in_order(line, rest, slots);
    law_comments_and_blank_lines_are_ignored(line, slots);
}

/// An instruction without an address goes to the lowest free slot: every
/// slot below it is taken, and every slot but this one stays as it is.
pub proof fn law_lowest_free_slot_is_filled(slots: Slots, word: u32)
    requires
        slots.len() == PROGRAM_SIZE,
    ensures
        first_free(slots) < PROGRAM_SIZE ==> place_entry(slots, Entry { address: None, word })
            == Ok::<Slots, Error>(slots.update(first_free(slots) as int, Some(word))),
        first_free(slots) < PROGRAM_SIZE ==> slots[first_free(slots) as int] is None,
        forall|i: int| 0 <= i < first_free(slots) ==> slots[i] is Some,
        first_free(slots) >= PROGRAM_SIZE ==> place_entry(slots, Entry { address: None, word })
            == Err::<Slots, Error>(Error::Parse("Too many instructions in this program")),
        place_entry(slots, Entry { address: None, word }) matches Ok(next) ==> forall|i: int|
            0 <= i < PROGRAM_SIZE && i != first_free(slots) ==> next[i] == slots[i],
{
    lemma_first_free(slots);
}

/// A slot that is taken stays taken, with its instruction, whatever is
/// placed after it.
pub proof fn law_placed_instructions_stay(slots: Slots, entry: Entry, address: int)
    requires
        slots.len() == PROGRAM_SIZE,
        0 <= address < PROGRAM_SIZE,
        entry.address matches Some(a) ==> a < PROGRAM_SIZE,
        slots[address] is Some,
    ensures
        place_entry(slots, entry) matches Ok(next) ==> next[address] == slots[address],
{
    lemma_first_free(slots);
}

/// An address that is taken cannot be given again: the second instruction
/// that asks for it fails.
pub proof fn law_duplicate_address_fails(slots: Slots, address: nat, first: u32, second: u32)
    requires
        slots.len() == PROGRAM_SIZE,
        address < PROGRAM_SIZE,
    ensures
        slots[address as int] is Some ==> place_entry(
            slots,
            Entry { address: Some(address), word: first },
        ) == Err::<Slots, Error>(Error::Parse("Two instructions with the same address")),
        place_entry(slots, Entry { address: Some(address), word: first }) matches Ok(next)
            ==> place_entry(next, Entry { address: Some(address), word: second }) == Err::<
            Slots,
            Error,
        >(Error::Parse("Two instructions with the same address")),
{
}

} // verus!
