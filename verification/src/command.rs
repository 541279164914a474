//! The commands of the emulator's prompt.
//!
//! A session reads a line, asks [`parse_command`] what it means, acts on the
//! [`Command`] and prints what there is to print. [`complete`] proposes the
//! commands that a line can become.

use vstd::prelude::*;
use vstd::string::*;
use crate::pattern::{captures, groups_view, regex_captures};
use crate::text::{
    binary_number, is_binary, is_binary_digit, to_chars, to_text, trim, trimmed,
};

verus! {

/// The regular expression for a line that sets an input register: the
/// address of the register, an equals sign between white space, and up to
/// eight binary digits.
pub const INPUT_PATTERN: &'static str = r"^(?P<index>F[C-F])\s+=\s+(?P<value>[01]{1,8})$";

/// The two interrupts of the CPU.
#[derive(Copy, Clone, Debug, PartialEq, Eq)]
pub enum Interrupt {
    /// INTA, which only the next instruction can see.
    Volatile,
    /// INTB, which stays until an instruction takes it.
    Stored,
}

/// What a line at the prompt asks for.
#[derive(Debug, PartialEq, Eq)]
pub enum Command {
    /// Execute the next instruction.
    Step,
    /// Load the microprogram at the path.
    Load(String),
    /// Trigger an interrupt.
    Trigger(Interrupt),
    /// Trigger an interrupt that does not exist.
    UnknownInterrupt(String),
    /// End the session.
    Exit,
    /// Load the last microprogram again.
    Reload,
    /// Show the commands.
    Help,
    /// Clear the screen.
    Clear,
    /// Show the RAM.
    ShowRam,
    /// Show the microprogram.
    ShowProgram,
    /// Set the input register with the index to the value.
    SetInput(usize, u8),
    /// Set an input register to what is no value of 8 bit.
    InvalidValue,
    /// Nothing that the prompt knows.
    Unknown,
}

/// A command as values.
pub enum CommandView {
    Step,
    Load(Seq<char>),
    Trigger(Interrupt),
    UnknownInterrupt(Seq<char>),
    Exit,
    Reload,
    Help,
    Clear,
    ShowRam,
    ShowProgram,
    SetInput(nat, u8),
    InvalidValue,
    Unknown,
}

impl View for Command {
    type V = CommandView;

    open spec fn view(&self) -> CommandView {
        match self {
            Command::Step => CommandView::Step,
            Command::Load(path) => CommandView::Load(path@),
            Command::Trigger(interrupt) => CommandView::Trigger(*interrupt),
            Command::UnknownInterrupt(name) => CommandView::UnknownInterrupt(name@),
            Command::Exit => CommandView::Exit,
            Command::Reload => CommandView::Reload,
            Command::Help => CommandView::Help,
            Command::Clear => CommandView::Clear,
            Command::ShowRam => CommandView::ShowRam,
            Command::ShowProgram => CommandView::ShowProgram,
            Command::SetInput(index, value) => CommandView::SetInput(*index as nat, *value),
            Command::InvalidValue => CommandView::InvalidValue,
            Command::Unknown => CommandView::Unknown,
        }
    }
}

/// Whether a text begins with a prefix.
pub open spec fn starts_with(text: Seq<char>, prefix: Seq<char>) -> bool {
    prefix.len() <= text.len() && text.take(prefix.len() as int) == prefix
}

/// Whether a line that is trimmed is a command to load a microprogram.
pub open spec fn is_load(line: Seq<char>) -> bool {
    starts_with(line, "load "@)
}

/// The index of the input register with the given address.
pub open spec fn register_index(address: Seq<char>) -> Option<nat> {
    if address == "FC"@ {
        Some(0)
    } else if address == "FD"@ {
        Some(1)
    } else if address == "FE"@ {
        Some(2)
    } else if address == "FF"@ {
        Some(3)
    } else {
        None
    }
}

/// The byte that a text of one or more binary digits denotes, if it
/// denotes one.
pub open spec fn byte_of(text: Seq<char>) -> Option<u8> {
    if text.len() > 0 && is_binary(text) && binary_number(text) < 256 {
        Some(binary_number(text) as u8)
    } else {
        None
    }
}

/// The command to set an input register, from the capture groups that the
/// input pattern has found: the first group is the address of the register,
/// the second its value.
pub open spec fn input_command(groups: Option<Seq<Option<Seq<char>>>>) -> CommandView {
    match groups {
        Some(parts) => if parts.len() == 3 && parts[1] is Some && parts[2] is Some {
            match register_index(parts[1]->0) {
                Some(index) => match byte_of(parts[2]->0) {
                    Some(value) => CommandView::SetInput(index, value),
                    None => CommandView::InvalidValue,
                },
                None => CommandView::Unknown,
            }
        } else {
            CommandView::Unknown
        },
        None => CommandView::Unknown,
    }
}

/// What a line asks for that is trimmed, not empty and no command to load.
pub open spec fn plain_command(line: Seq<char>) -> CommandView {
    if starts_with(line, "trigger "@) {
        let name = line.skip(8);
        if name == "INTA"@ {
            CommandView::Trigger(Interrupt::Volatile)
        } else if name == "INTB"@ {
            CommandView::Trigger(Interrupt::Stored)
        } else {
            CommandView::UnknownInterrupt(name)
        }
    } else if line == "exit"@ || line == "quit"@ {
        CommandView::Exit
    } else if line == "reload"@ {
        CommandView::Reload
    } else if line == "help"@ {
        CommandView::Help
    } else if line == "clear"@ {
        CommandView::Clear
    } else if line == "ram"@ {
        CommandView::ShowRam
    } else if line == "program"@ {
        CommandView::ShowProgram
    } else {
        input_command(regex_captures(INPUT_PATTERN@, line))
    }
}

/// `parse_single` of the `cmdline-parser` crate resolves the quoting and
/// the escaping of one argument as the shell of the platform would. The
/// result differs between platforms: the contract claims nothing of it.
#[verifier::external_body]
pub(crate) fn parse_single(argument: &str) -> (parsed: String) {
    cmdline_parser::parse_single(argument)
}

/// Whether `chars[from..to]` begins with `prefix`.
pub fn has_prefix(chars: &Vec<char>, from: usize, to: usize, prefix: &str) -> (found: bool)
    requires
        from <= to <= chars.len(),
    ensures
        found == starts_with(chars@.subrange(from as int, to as int), prefix@),
{
    let wanted = to_chars(prefix);
    if wanted.len() > to - from {
        return false;
    }
    let ghost range = chars@.subrange(from as int, to as int);
    let mut i: usize = 0;
    while i < wanted.len()
        invariant
            i <= wanted.len() <= to - from,
            from <= to <= chars.len(),
            wanted@ == prefix@,
            range == chars@.subrange(from as int, to as int),
            forall|j: int| 0 <= j < i ==> range[j] == wanted@[j],
        decreases wanted.len() - i,
    {
        if chars[from + i] != wanted[i] {
            assert(range.take(wanted.len() as int)[i as int] != wanted@[i as int]);
            return false;
        }
        i += 1;
    }
    assert(range.take(wanted.len() as int) =~= wanted@);
    true
}

/// Whether `chars[from..to]` is the text `wanted`.
pub fn is_text(chars: &Vec<char>, from: usize, to: usize, wanted: &str) -> (same: bool)
    requires
        from <= to <= chars.len(),
    ensures
        same == (chars@.subrange(from as int, to as int) == wanted@),
{
    let ghost range = chars@.subrange(from as int, to as int);
    let found = has_prefix(chars, from, to, wanted);
    proof {
        if range.len() == wanted@.len() {
            assert(range.take(wanted@.len() as int) == range);
        }
    }
    found && to - from == wanted.unicode_len()
}

/// Reads a byte from a text of binary digits.
pub fn read_byte(text: &str) -> (value: Option<u8>)
    ensures
        value == byte_of(text@),
{
    let digits = to_chars(text);
    if digits.len() == 0 {
        return None;
    }
    let mut value: u8 = 0;
    let mut i: usize = 0;
    while i < digits.len()
        invariant
            i <= digits.len(),
            digits@ == text@,
            is_binary(digits@.take(i as int)),
            value == binary_number(digits@.take(i as int)),
        decreases digits.len() - i,
    {
        let symbol = digits[i];
        proof {
            let before = digits@.take(i as int);
            let after = digits@.take(i + 1);
            assert(after.drop_last() == before);
            assert(after.last() == symbol);
            assert(digits@.take(digits.len() as int) == digits@);
            if symbol != '0' && symbol != '1' {
                assert(!is_binary_digit(digits@[i as int]));
            }
        }
        if symbol != '0' && symbol != '1' {
            return None;
        }
        if value >= 128 {
            proof {
                lemma_number_grows(digits@, i + 1);
            }
            return None;
        }
        value = 2 * value + (if symbol == '1' { 1 } else { 0 });
        i += 1;
    }
    assert(digits@.take(digits.len() as int) == digits@);
    Some(value)
}

/// The number that a text denotes is at least the number that any of its
/// beginnings denotes.
pub proof fn lemma_number_grows(text: Seq<char>, length: int)
    requires
        0 <= length <= text.len(),
    ensures
        binary_number(text.take(length)) <= binary_number(text),
    decreases text.len() - length,
{
    if length == text.len() {
        assert(text.take(length) == text);
    } else {
        lemma_number_grows(text.drop_last(), length);
        assert(text.drop_last().take(length) == text.take(length));
    }
}

/// Makes the command to set an input register out of the capture groups
/// that the input pattern has found.
pub fn select_input_command(groups: &Option<Vec<Option<String>>>) -> (command: Command)
    ensures
        command@ == input_command(groups_view(*groups)),
{
    match groups {
        Some(parts) => {
            if parts.len() != 3 {
                return Command::Unknown;
            }
            match (&parts[1], &parts[2]) {
                (Some(address), Some(digits)) => {
                    let name = to_chars(address.as_str());
                    assert(name@.subrange(0, name.len() as int) == name@);
                    let index: usize = if is_text(&name, 0, name.len(), "FC") {
                        0
                    } else if is_text(&name, 0, name.len(), "FD") {
                        1
                    } else if is_text(&name, 0, name.len(), "FE") {
                        2
                    } else if is_text(&name, 0, name.len(), "FF") {
                        3
                    } else {
                        return Command::Unknown;
                    };
                    match read_byte(digits.as_str()) {
                        Some(value) => Command::SetInput(index, value),
                        None => Command::InvalidValue,
                    }
                },
                _ => Command::Unknown,
            }
        },
        None => Command::Unknown,
    }
}

/// The argument of a command to load a microprogram: what follows `load `
/// on the trimmed line, trimmed again. `None` where the line is no such
/// command.
pub open spec fn load_argument_of(line: Seq<char>) -> Option<Seq<char>> {
    if is_load(trimmed(line)) {
        Some(trimmed(trimmed(line).skip(5)))
    } else {
        None
    }
}

/// Cuts the argument out of a command to load a microprogram, with its
/// quotes and escapes as they were typed.
pub fn load_argument(line: &str) -> (argument: Option<String>)
    ensures
        match load_argument_of(line@) {
            Some(text) => argument matches Some(found) && found@ == text,
            None => argument is None,
        },
{
    let chars = to_chars(line);
    assert(chars@.subrange(0, chars.len() as int) == chars@);
    let (first, last) = trim(&chars, 0, chars.len());
    if has_prefix(&chars, first, last, "load ") {
        proof {
            reveal_strlit("load ");
            assert(chars@.subrange(first + 5, last as int) == chars@.subrange(
                first as int,
                last as int,
            ).skip(5));
        }
        let (from, to) = trim(&chars, first + 5, last);
        Some(to_text(&chars, from, to))
    } else {
        None
    }
}

/// The command to load the microprogram at a path.
pub fn load_command(path: String) -> (command: Command)
    ensures
        command@ == CommandView::Load(path@),
{
    Command::Load(path)
}

/// Tells what a line at the prompt asks for.
///
/// The white space around the line does not count. An empty line is the
/// command to step. The path of a command to load is what the shell parser
/// of the platform makes of [`load_argument`] as one argument, with its
/// quotes and escapes resolved.
pub fn parse_command(line: &str) -> (command: Command)
    ensures
        trimmed(line@).len() == 0 ==> command@ == CommandView::Step,
        trimmed(line@).len() > 0 && is_load(trimmed(line@)) ==> command@ is Load,
        trimmed(line@).len() > 0 && !is_load(trimmed(line@)) ==> command@ == plain_command(
            trimmed(line@),
        ),
{
    if let Some(argument) = load_argument(line) {
        proof {
            reveal_strlit("load ");
        }
        return load_command(parse_single(argument.as_str()));
    }
    let chars = to_chars(line);
    assert(chars@.subrange(0, chars.len() as int) == chars@);
    let (first, last) = trim(&chars, 0, chars.len());
    let ghost content = chars@.subrange(first as int, last as int);
    if first == last {
        Command::Step
    } else if has_prefix(&chars, first, last, "trigger ") {
        proof {
            reveal_strlit("trigger ");
            assert(chars@.subrange(first + 8, last as int) == content.skip(8));
        }
        if is_text(&chars, first + 8, last, "INTA") {
            Command::Trigger(Interrupt::Volatile)
        } else if is_text(&chars, first + 8, last, "INTB") {
            Command::Trigger(Interrupt::Stored)
        } else {
            Command::UnknownInterrupt(to_text(&chars, first + 8, last))
        }
    } else if is_text(&chars, first, last, "exit") || is_text(&chars, first, last, "quit") {
        Command::Exit
    } else if is_text(&chars, first, last, "reload") {
        Command::Reload
    } else if is_text(&chars, first, last, "help") {
        Command::Help
    } else if is_text(&chars, first, last, "clear") {
        Command::Clear
    } else if is_text(&chars, first, last, "ram") {
        Command::ShowRam
    } else if is_text(&chars, first, last, "program") {
        Command::ShowProgram
    } else {
        let text = to_text(&chars, first, last);
        let groups = captures(INPUT_PATTERN, text.as_str());
        select_input_command(&groups)
    }
}

/// The commands that the prompt proposes, in the order in which it
/// proposes them.
pub open spec fn command_names() -> Seq<Seq<char>> {
    seq![
        "exit"@,
        "load "@,
        "reload"@,
        "FC = "@,
        "FD = "@,
        "FE = "@,
        "FF = "@,
        "trigger INTA"@,
        "trigger INTB"@,
        "help"@,
        "quit"@,
        "clear"@,
        "ram"@,
        "program"@,
    ]
}

/// Whether a command completes a line: the line is a beginning of the
/// command and not the whole of it.
pub open spec fn completes(line: Seq<char>, command: Seq<char>) -> bool {
    starts_with(command, line) && command != line
}

/// The commands among `names` that complete a line, in their order.
pub open spec fn completions_among(line: Seq<char>, names: Seq<Seq<char>>) -> Seq<Seq<char>>
    decreases names.len(),
{
    if names.len() == 0 {
        Seq::empty()
    } else if completes(line, names.last()) {
        completions_among(line, names.drop_last()).push(names.last())
    } else {
        completions_among(line, names.drop_last())
    }
}

/// What the prompt proposes for a line.
#[derive(Debug, PartialEq, Eq)]
pub enum Completion {
    /// The names of files: the line loads a microprogram.
    Path,
    /// The commands that complete the line.
    Commands(Vec<&'static str>),
}

/// A completion as values.
pub enum CompletionView {
    Path,
    Commands(Seq<Seq<char>>),
}

/// The texts of a list of names.
pub open spec fn names_view(names: Seq<&'static str>) -> Seq<Seq<char>> {
    names.map_values(|name: &'static str| name@)
}

impl View for Completion {
    type V = CompletionView;

    open spec fn view(&self) -> CompletionView {
        match self {
            Completion::Path => CompletionView::Path,
            Completion::Commands(names) => CompletionView::Commands(names_view(names@)),
        }
    }
}

/// What the prompt proposes for a line of `length` bytes with the cursor at
/// the byte `pos`: file names after the command to load, nothing while the
/// cursor stands inside the line, else the commands that complete the line.
pub open spec fn completion_of(line: Seq<char>, length: nat, pos: usize) -> CompletionView {
    if starts_with(line, "load "@) && pos >= 5 {
        CompletionView::Path
    } else if pos < length {
        CompletionView::Commands(Seq::empty())
    } else {
        CompletionView::Commands(completions_among(line, command_names()))
    }
}

/// The commands that the prompt proposes.
fn command_table() -> (names: Vec<&'static str>)
    ensures
        names_view(names@) == command_names(),
{
    let names =
        vec![
        "exit",
        "load ",
        "reload",
        "FC = ",
        "FD = ",
        "FE = ",
        "FF = ",
        "trigger INTA",
        "trigger INTB",
        "help",
        "quit",
        "clear",
        "ram",
        "program",
    ];
    assert(names_view(names@) =~= command_names());
    names
}

/// Proposes completions for a line with the cursor at the byte `pos`.
pub fn complete(line: &str, pos: usize) -> (proposed: Completion)
    ensures
        proposed@ == completion_of(line@, line.len() as nat, pos),
{
    let chars = to_chars(line);
    assert(chars@.subrange(0, chars.len() as int) == chars@);
    // complete file paths for the load command
    if has_prefix(&chars, 0, chars.len(), "load ") && pos >= 5 {
        return Completion::Path;
    }
    // complete normal commands only at the end

    if pos < line.len() {
        let none: Vec<&'static str> = Vec::new();
        assert(names_view(none@) =~= Seq::<Seq<char>>::empty());
        return Completion::Commands(none);
    }
    let names = command_table();
    let mut found: Vec<&'static str> = Vec::new();
    assert(names_view(found@) =~= Seq::<Seq<char>>::empty());
    let mut i: usize = 0;
    while i < names.len()
        invariant
            i <= names.len(),
            chars@ == line@,
            names_view(found@) == completions_among(line@, names_view(names@).take(i as int)),
        decreases names.len() - i,
    {
        let name = to_chars(names[i]);
        proof {
            let all = names_view(names@);
            assert(all.take(i + 1).drop_last() == all.take(i as int));
            assert(all.take(i + 1).last() == name@);
            assert(name@.subrange(0, name.len() as int) == name@);
        }
        // Only keep commands, for which the input is a real prefix
        if has_prefix(&name, 0, name.len(), line) && name.len() != chars.len() {
            found.push(names[i]);
            assert(names_view(found@) =~= completions_among(
                line@,
                names_view(names@).take(i as int),
            ).push(name@));
        }
        i += 1;
    }
    assert(names_view(names@).take(names.len() as int) == names_view(names@));
    Completion::Commands(found)
}

} // verus!
