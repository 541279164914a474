//! What the command line of the emulator needs beside the machine itself:
//! the computer that a session steps through a program, the commands of its
//! prompt, and the texts that it prints.

use vstd::prelude::*;
use vstd::pervasive::unreached;
use crate::alu::Flags;
use crate::bus::{
    lemma_device_view, lemma_views_wf, Device, DeviceView, IoRegisters, IoView, OverlayView, Ram,
    RamView, INPUT_BASE,
};
use crate::alu::alu_output;
use crate::cpu::{
    cycle, input_a, input_b, next_address, registers_written, reset_cpu, Cpu, CpuView,
};
use crate::error::Error;
use crate::instruction::{
    busen, buswr, mac, malus, maluia, maluib, mchflg, mrgaa, mrgab, mrgwe, mrgws, na, Instruction,
};
use crate::parse::{program_view, word_or_zero, Slots};
use crate::reach::{
    law_cycle_follows_targets, lemma_reachable_step, lemma_targets_in_program, reachable,
    reachable_within, steps_to,
};
use crate::text::{binary_text, digit, digit_char, push_binary, to_chars, to_text};
use vstd::string::*;

verus! {

/// A microprogram that was loaded, with the path that it was loaded from.
pub struct Program {
    path: String,
    instructions: [Instruction; 32],
}

impl Program {
    pub closed spec fn path_view(&self) -> Seq<char> {
        self.path@
    }

    /// The raw words of the 32 instructions.
    pub closed spec fn words(&self) -> Seq<u32> {
        program_view(self.instructions)
    }

    pub fn new(path: String, instructions: [Instruction; 32]) -> (program: Program)
        ensures
            program.path_view() == path@,
            program.words() == program_view(instructions),
    {
        Program { path, instructions }
    }

    /// The path that the program was loaded from.
    pub fn path(&self) -> (path: &str)
        ensures
            path@ == self.path_view(),
    {
        self.path.as_str()
    }

    /// The instructions of the program.
    pub fn instructions(&self) -> (instructions: &[Instruction; 32])
        ensures
            program_view(*instructions) == self.words(),
    {
        &self.instructions
    }
}

/// A computer as values.
pub struct ComputerView {
    pub cpu: CpuView,
    /// The address of the instruction that the next step executes.
    pub instruction_pointer: nat,
    pub ram: RamView,
}

/// Whether a RAM is wired as the computer's: the input and output registers
/// overlay the addresses from `FC` on, and nothing else overlays it.
pub open spec fn wired(ram: RamView) -> bool {
    &&& ram.wf()
    &&& ram.overlays.len() == 1
    &&& ram.overlays[0].first == INPUT_BASE
    &&& ram.overlays[0].last == 0xFF
    &&& ram.overlays[0].device is Io
}

/// The input and output registers of a RAM that is wired as the computer's.
pub open spec fn registers_of(ram: RamView) -> IoView {
    ram.overlays[0].device->Io_0
}

/// A RAM of zeros with the registers `io` wired to it.
pub open spec fn wired_ram(io: IoView) -> RamView {
    RamView {
        memory: Seq::new(256, |i: int| 0u8),
        overlays: seq![
            OverlayView { first: INPUT_BASE, last: 0xFF, device: DeviceView::Io(io) },
        ],
    }
}

/// A computer after a reset: CPU and RAM are zero, the next instruction is
/// the one at address 0. The registers `io` are wired to the RAM.
pub open spec fn reset_computer(io: IoView) -> ComputerView {
    ComputerView { cpu: reset_cpu(), instruction_pointer: 0, ram: wired_ram(io) }
}

/// What one step through `words` does to a computer: one cycle of the CPU
/// on the RAM with the instruction that the instruction pointer names. The
/// pointer moves on if the cycle succeeds.
pub open spec fn step_of(computer: ComputerView, words: Seq<u32>) -> (
    ComputerView,
    Result<Flags, Error>,
) {
    let done = cycle::<Ram>(computer.cpu, words[computer.instruction_pointer as int], computer.ram);
    match done.result {
        Ok((next, flags)) => (
            ComputerView { cpu: done.cpu, instruction_pointer: next as nat, ram: done.bus },
            Ok(flags),
        ),
        Err(e) => (
            ComputerView {
                cpu: done.cpu,
                instruction_pointer: computer.instruction_pointer,
                ram: done.bus,
            },
            Err(e),
        ),
    }
}

/// A cycle leaves the RAM of the computer wired as it was.
pub proof fn lemma_cycle_keeps_wiring(cpu: CpuView, raw: u32, ram: RamView)
    requires
        wired(ram),
    ensures
        wired(cycle::<Ram>(cpu, raw, ram).bus),
{
}

/// A computer that stands at a reachable address of its program stands at
/// a reachable address after every step: a session that starts at address 0
/// never leaves the reachable part of the program.
pub proof fn law_steps_stay_reachable(computer: ComputerView, slots: Slots)
    requires
        slots.len() == 32,
        computer.instruction_pointer < 32,
        reachable(slots, computer.instruction_pointer as int),
    ensures
        reachable(
            slots,
            step_of(
                computer,
                slots.map_values(|slot: Option<u32>| word_or_zero(slot)),
            ).0.instruction_pointer as int,
        ),
{
    let words = slots.map_values(|slot: Option<u32>| word_or_zero(slot));
    let at = computer.instruction_pointer as int;
    let word = words[at];
    let done = cycle::<Ram>(computer.cpu, word, computer.ram);
    match done.result {
        Ok((next, flags)) => {
            // The address was chosen by the CPU as the register write left
            // it, and it is one of the two targets of the instruction.
            match input_a::<Ram>(computer.cpu, word, computer.ram) {
                Ok(a) => {
                    let output = alu_output(
                        malus(word) as u8,
                        a,
                        input_b(computer.cpu, word),
                        computer.cpu.flag_register.carry,
                    );
                    let written = CpuView {
                        registers: registers_written(computer.cpu, word, output.0),
                        ..computer.cpu
                    };
                    law_cycle_follows_targets(word, written, output.1);
                    lemma_targets_in_program(word);
                    assert(next == next_address(word, written, output.1));
                },
                Err(e) => {},
            }
            match slots[at] {
                Some(placed) => {
                    assert(steps_to(slots, at, next as int));
                    lemma_reachable_step(slots, at, next as int);
                },
                None => {
                    assert(word == 0);
                    assert(na(0) == 0 && mac(0) == 0) by (bit_vector);
                    assert(next == 0);
                    assert(reachable_within(slots, 0, 0));
                },
            }
        },
        Err(e) => {},
    }
}

/// The computer of a session: CPU, RAM and instruction pointer. The input
/// and output registers are wired to the RAM.
pub struct Computer {
    cpu: Cpu,
    instruction_pointer: usize,
    ram: Ram,
}

impl View for Computer {
    type V = ComputerView;

    closed spec fn view(&self) -> ComputerView {
        ComputerView {
            cpu: self.cpu@,
            instruction_pointer: self.instruction_pointer as nat,
            ram: self.ram@,
        }
    }
}

impl ComputerView {
    /// The instruction pointer is an address of the program, and the
    /// registers are wired to the RAM.
    pub open spec fn wf(self) -> bool {
        self.instruction_pointer < 32 && wired(self.ram)
    }
}

impl Computer {
    /// Creates a computer after a reset and wires the registers to it.
    pub fn new(io: IoRegisters) -> (computer: Computer)
        ensures
            computer@ == reset_computer(io@),
            computer@.wf(),
    {
        let mut ram = Ram::new();
        let device = Device::Io(io);
        proof {
            lemma_device_view(device);
            lemma_views_wf(device);
        }
        ram.add_overlay(INPUT_BASE, 0xFF, device);
        assert(ram@.overlays =~= wired_ram(io@).overlays);
        Computer { cpu: Cpu::new(), instruction_pointer: 0, ram }
    }

    /// Executes the next instruction and updates the instruction pointer.
    pub fn step(&mut self, program: &Program) -> (flags: Result<Flags, Error>)
        requires
            old(self)@.wf(),
        ensures
            final(self)@ == step_of(old(self)@, program.words()).0,
            flags == step_of(old(self)@, program.words()).1,
            final(self)@.wf(),
    {
        proof {
            lemma_cycle_keeps_wiring(
                self.cpu@,
                program.words()[self.instruction_pointer as int],
                self.ram@,
            );
        }
        let instruction = program.instructions[self.instruction_pointer];
        match self.cpu.execute_instruction(instruction, &mut self.ram) {
            Ok((next, flags)) => {
                self.instruction_pointer = next;
                Ok(flags)
            },
            Err(e) => Err(e),
        }
    }

    /// The address of the instruction that the next step executes.
    pub fn instruction_pointer(&self) -> (address: usize)
        ensures
            address == self@.instruction_pointer,
    {
        self.instruction_pointer
    }

    /// The CPU.
    pub fn cpu(&self) -> (cpu: &Cpu)
        ensures
            cpu@ == self@.cpu,
    {
        &self.cpu
    }

    /// The CPU, to trigger its interrupts and to set its registers.
    pub fn cpu_mut(&mut self) -> (cpu: &mut Cpu)
        ensures
            cpu@ == old(self)@.cpu,
            final(self)@ == (ComputerView { cpu: final(cpu)@, ..old(self)@ }),
    {
        &mut self.cpu
    }

    /// The RAM.
    pub fn ram(&self) -> (ram: &Ram)
        ensures
            ram@ == self@.ram,
    {
        &self.ram
    }

    /// The input and output registers.
    pub fn io(&self) -> (io: &IoRegisters)
        requires
            self@.wf(),
        ensures
            io@ == registers_of(self@.ram),
    {
        match self.ram.overlay(0).as_io() {
            Some(io) => io,
            None => unreached(),
        }
    }

    /// Sets the input register `index`.
    pub fn set_input(&mut self, index: usize, value: u8)
        requires
            old(self)@.wf(),
            index < 4,
        ensures
            final(self)@.wf(),
            final(self)@.cpu == old(self)@.cpu,
            final(self)@.instruction_pointer == old(self)@.instruction_pointer,
            final(self)@.ram.memory == old(self)@.ram.memory,
            registers_of(final(self)@.ram) == (IoView {
                input: registers_of(old(self)@.ram).input.update(index as int, value),
                output: registers_of(old(self)@.ram).output,
            }),
    {
        let spare = Device::Io(IoRegisters::new());
        proof {
            lemma_device_view(spare);
        }
        let device = self.ram.replace_overlay(0, spare);
        let mut io = match device.into_io() {
            Some(io) => io,
            None => unreached(),
        };
        io.inspect_input()[index] = value;
        let device = Device::Io(io);
        proof {
            lemma_device_view(device);
            lemma_views_wf(device);
        }
        let _ = self.ram.replace_overlay(0, device);
        assert(registers_of(self@.ram).input =~= registers_of(old(self)@.ram).input.update(
            index as int,
            value,
        ));
    }

    /// Resets the computer: CPU and RAM are new, the input and output
    /// registers stay as they are.
    pub fn reset(self) -> (computer: Computer)
        requires
            self@.wf(),
        ensures
            computer@ == reset_computer(registers_of(self@.ram)),
            computer@.wf(),
    {
        Computer::new(self.into_io())
    }

    /// Takes the computer apart and hands out the input and output
    /// registers, for the computer that follows it.
    pub fn into_io(self) -> (io: IoRegisters)
        requires
            self@.wf(),
        ensures
            io@ == registers_of(self@.ram),
    {
        let mut ram = self.ram;
        let spare = Device::Io(IoRegisters::new());
        proof {
            lemma_device_view(spare);
        }
        match ram.replace_overlay(0, spare).into_io() {
            Some(io) => io,
            None => unreached(),
        }
    }
}

/// A bit as the digit `0` or `1`.
pub open spec fn bit_text(bit: bool) -> Seq<char> {
    seq![digit_char(if bit { 1int } else { 0int })]
}

/// The fields of an instruction in binary digits, highest field first, in
/// the groups of the address control, the bus, the registers, the ALU and
/// the flags.
pub open spec fn instruction_text(raw: u32) -> Seq<char> {
    binary_text(mac(raw) as int, 2) + " "@ + binary_text(na(raw) as int, 5) + " | "@ + bit_text(
        buswr(raw),
    ) + bit_text(busen(raw)) + " | "@ + binary_text(mrgaa(raw) as int, 3) + " "@ + binary_text(
        mrgab(raw) as int,
        4,
    ) + " "@ + bit_text(mrgws(raw)) + bit_text(mrgwe(raw)) + " | "@ + bit_text(maluia(raw))
        + bit_text(maluib(raw)) + " "@ + binary_text(malus(raw) as int, 4) + " | "@ + bit_text(
        mchflg(raw),
    )
}

/// Appends a bit as the digit `0` or `1`.
fn push_bit(text: &mut String, bit: bool)
    ensures
        final(text)@ == old(text)@ + bit_text(bit),
{
    text.push(digit(if bit { 1 } else { 0 }));
}

/// Formats the given instruction as a logically grouped "binary" string.
pub fn format_instruction(inst: Instruction) -> (text: String)
    ensures
        text@ == instruction_text(inst@),
{
    let mut text = String::new();
    push_binary(&mut text, inst.get_address_control(), 2);
    text.append(" ");
    push_binary(&mut text, inst.get_next_instruction_address(), 5);
    text.append(" | ");
    push_bit(&mut text, inst.is_bus_writable());
    push_bit(&mut text, inst.is_bus_enabled());
    text.append(" | ");
    push_binary(&mut text, inst.get_register_address_a() as u8, 3);
    text.append(" ");
    push_binary(&mut text, inst.extract_bit_pattern(0b1111, 9), 4);
    text.append(" ");
    push_bit(&mut text, inst.should_write_register_b());
    push_bit(&mut text, inst.should_write_register());
    text.append(" | ");
    push_bit(&mut text, inst.is_alu_input_a_bus());
    push_bit(&mut text, inst.is_alu_input_b_const());
    text.append(" ");
    push_binary(&mut text, inst.get_alu_instruction(), 4);
    text.append(" | ");
    push_bit(&mut text, inst.should_store_flags());
    assert(text@ =~= instruction_text(inst@));
    text
}

/// What stands for a character in a LaTeX text: the characters that LaTeX
/// reads as commands are escaped.
pub open spec fn latex_char(symbol: char) -> Seq<char> {
    if symbol == '&' {
        "\\&"@
    } else if symbol == '%' {
        "\\%"@
    } else if symbol == '$' {
        "\\$"@
    } else if symbol == '#' {
        "\\#"@
    } else if symbol == '_' {
        "\\_"@
    } else if symbol == '{' {
        "\\{"@
    } else if symbol == '}' {
        "\\}"@
    } else if symbol == '~' {
        "\\textasciitilde{}"@
    } else if symbol == '^' {
        "\\textasciicircum{}"@
    } else if symbol == '\\' {
        "\\textbackslash{}"@
    } else {
        seq![symbol]
    }
}

/// A text for LaTeX: each character as [`latex_char`] has it.
pub open spec fn latex_text(text: Seq<char>) -> Seq<char>
    decreases text.len(),
{
    if text.len() == 0 {
        Seq::empty()
    } else {
        latex_text(text.drop_last()) + latex_char(text.last())
    }
}

/// Escapes the characters of a text that LaTeX reads as commands.
pub fn escape_latex(string: &str) -> (escaped: String)
    ensures
        escaped@ == latex_text(string@),
{
    let chars = to_chars(string);
    let mut result = String::new();
    let mut i: usize = 0;
    while i < chars.len()
        invariant
            i <= chars.len(),
            chars@ == string@,
            result@ == latex_text(chars@.take(i as int)),
        decreases chars.len() - i,
    {
        let symbol = chars[i];
        proof {
            assert(chars@.take(i + 1).drop_last() == chars@.take(i as int));
            assert(chars@.take(i + 1).last() == symbol);
        }
        if symbol == '&' {
            result.append("\\&");
        } else if symbol == '%' {
            result.append("\\%");
        } else if symbol == '$' {
            result.append("\\$");
        } else if symbol == '#' {
            result.append("\\#");
        } else if symbol == '_' {
            result.append("\\_");
        } else if symbol == '{' {
            result.append("\\{");
        } else if symbol == '}' {
            result.append("\\}");
        } else if symbol == '~' {
            result.append("\\textasciitilde{}");
        } else if symbol == '^' {
            result.append("\\textasciicircum{}");
        } else if symbol == '\\' {
            result.append("\\textbackslash{}");
        } else {
            result.push(symbol);
        }
        i += 1;
    }
    assert(chars@.take(chars.len() as int) == chars@);
    result
}

/// A path of at most `max_length` characters: the path itself, or three
/// dots and the end of the path.
pub open spec fn ellipsized(path: Seq<char>, max_length: usize) -> Seq<char> {
    if path.len() > max_length {
        "..."@ + path.skip(path.len() - (max_length - 3))
    } else {
        path
    }
}

/// Ellipsizes a path if necessary: a path of more than `max_length`
/// characters loses its start to three dots.
pub fn ellipsize_path(path: &str, max_length: usize) -> (short: String)
    requires
        max_length >= 4,
    ensures
        short@ == ellipsized(path@, max_length),
{
    let chars = to_chars(path);
    if chars.len() > max_length {
        let from = chars.len() - (max_length - 3);
        let end = to_text(&chars, from, chars.len());
        assert(chars@.subrange(from as int, chars.len() as int) == chars@.skip(from as int));
        let mut short = String::from_str("...");
        short.append(end.as_str());
        short
    } else {
        assert(chars@.subrange(0, chars.len() as int) == chars@);
        to_text(&chars, 0, chars.len())
    }
}

/// The lines of a page that the table of a program takes: its
/// instructions, a header and some margin.
pub open spec fn table_lines(instructions: usize) -> int {
    instructions + 2
}

/// Whether the table of a program starts a new page, and the lines that
/// remain on its page after it. A new page has 40 lines.
pub open spec fn table_placement(lines_remaining: usize, instructions: usize) -> (bool, int) {
    if lines_remaining < table_lines(instructions) {
        (true, 40 - table_lines(instructions))
    } else {
        (false, lines_remaining - table_lines(instructions))
    }
}

/// Places the table of a program with `instructions` lines on a page with
/// `lines_remaining` lines left: tells whether the table starts a new page,
/// and how many lines remain after it.
pub fn place_table(lines_remaining: usize, instructions: usize) -> (placed: (bool, usize))
    requires
        instructions <= 32,
    ensures
        placed.0 == table_placement(lines_remaining, instructions).0,
        placed.1 == table_placement(lines_remaining, instructions).1,
{
    if lines_remaining < instructions + 2 {
        (true, 40 - (instructions + 2))
    } else {
        (false, lines_remaining - (instructions + 2))
    }
}

} // verus!
