//! The CPU of the 2i: eight registers of 8 bit, the flag register and two
//! interrupt latches.
//!
//! One microinstruction is one cycle of the datapath. [`cycle`] says what a
//! cycle does to the CPU and to the bus; [`Cpu::execute_instruction`]
//! performs it.

use vstd::prelude::*;
use crate::alu::{alu_output, Alu, Flags};
use crate::bus::Bus;
use crate::error::Error;
use crate::instruction::{
    busen, buswr, constant_input, full_address_control, mac, malus, maluia, maluib, mchflg, mrgaa,
    mrgwe, mrgws, na, register_b, Instruction,
};

verus! {

/// The state of the CPU as values.
pub struct CpuView {
    /// The eight registers.
    pub registers: Seq<u8>,
    /// The stored flags.
    pub flag_register: Flags,
    /// The interrupt that stays until an instruction takes it.
    pub stored_interrupt: bool,
    /// The interrupt that only the next instruction can see.
    pub volatile_interrupt: bool,
}

impl CpuView {
    pub open spec fn wf(self) -> bool {
        self.registers.len() == 8
    }
}

/// A bit as a number.
pub open spec fn bit_value(bit: bool) -> u32 {
    if bit {
        1
    } else {
        0
    }
}

/// The bit that the branch selector puts in the place of the lowest bit of
/// the next address, for the tags 2 to 7 of the full address control.
///
/// `cpu` is the CPU as it stands when the next address is chosen: the flag
/// register still holds the flags that were stored before this cycle, and
/// the latches are not yet reset. `flags` are the flags of this cycle.
pub open spec fn branch_bit(control: u32, cpu: CpuView, flags: Flags) -> bool {
    if control == 0b010 {
        cpu.volatile_interrupt
    } else if control == 0b011 {
        cpu.flag_register.carry
    } else if control == 0b100 {
        flags.carry
    } else if control == 0b101 {
        flags.zero
    } else if control == 0b110 {
        flags.negative
    } else {
        cpu.stored_interrupt
    }
}

/// The address of the next instruction.
///
/// With the tags 0 and 1 it is NA as it stands. With the other tags the
/// lowest bit of NA is replaced by [`branch_bit`].
pub open spec fn next_address(raw: u32, cpu: CpuView, flags: Flags) -> u32 {
    let control = full_address_control(raw);
    if control == 0b000 || control == 0b001 {
        na(raw)
    } else {
        (na(raw) & 0b11110) | bit_value(branch_bit(control, cpu, flags))
    }
}

/// Input A of the ALU: the cell on the bus that register A points to, or
/// register A itself. A read from the bus asks for an enabled bus that is not
/// in write mode.
pub open spec fn input_a<B: Bus>(cpu: CpuView, raw: u32, bus: B::V) -> Result<u8, Error> {
    if maluia(raw) {
        if !busen(raw) {
            Err(Error::Cpu("Cannot read from disabled bus"))
        } else if buswr(raw) {
            Err(Error::Cpu("Cannot read from bus while it is in write mode"))
        } else {
            B::read_of(bus, cpu.registers[mrgaa(raw) as int])
        }
    } else {
        Ok(cpu.registers[mrgaa(raw) as int])
    }
}

/// Input B of the ALU: the sign extended constant, or register B.
pub open spec fn input_b(cpu: CpuView, raw: u32) -> u8 {
    if maluib(raw) {
        constant_input(raw) as u8
    } else {
        cpu.registers[register_b(raw) as int]
    }
}

/// The registers after the result is written back, if the instruction asks
/// for it: to register B or to register A.
pub open spec fn registers_written(cpu: CpuView, raw: u32, result: u8) -> Seq<u8> {
    if !mrgwe(raw) {
        cpu.registers
    } else if mrgws(raw) {
        cpu.registers.update(register_b(raw) as int, result)
    } else {
        cpu.registers.update(mrgaa(raw) as int, result)
    }
}

/// The latches after a cycle: the volatile interrupt is gone, the stored one
/// is gone if the instruction branched on it.
pub open spec fn latches_reset(cpu: CpuView, raw: u32) -> CpuView {
    CpuView {
        volatile_interrupt: false,
        stored_interrupt: cpu.stored_interrupt && !(mac(raw) == 0b11 && na(raw) & 1 == 1),
        ..cpu
    }
}

/// The CPU after the flags of a cycle are stored, if the instruction asks for
/// it.
pub open spec fn stored_flags(cpu: CpuView, raw: u32, flags: Flags) -> CpuView {
    if mchflg(raw) {
        CpuView { flag_register: flags, ..cpu }
    } else {
        cpu
    }
}

/// The CPU, the bus and the result after one cycle.
pub struct Cycle<S> {
    pub cpu: CpuView,
    pub bus: S,
    /// The address of the next instruction and the flags of this cycle.
    pub result: Result<(usize, Flags), Error>,
}

/// What one cycle with the instruction `raw` does.
///
/// In order: read input A, read input B, compute, write the result to a
/// register, write it to the bus at the address that register A then holds,
/// choose the next address, store the flags, reset the latches. The branch
/// on the stored carry therefore sees the carry that was stored before the
/// cycle, also where the cycle stores its own. A cycle that cannot read
/// input A changes nothing. A cycle whose write to the bus fails has written
/// its register and nothing else.
pub open spec fn cycle<B: Bus>(cpu: CpuView, raw: u32, bus: B::V) -> Cycle<B::V> {
    match input_a::<B>(cpu, raw, bus) {
        Err(e) => Cycle { cpu, bus, result: Err(e) },
        Ok(a) => {
            let (result, flags) = alu_output(
                malus(raw) as u8,
                a,
                input_b(cpu, raw),
                cpu.flag_register.carry,
            );
            let written = CpuView { registers: registers_written(cpu, raw, result), ..cpu };
            let bus_written = if busen(raw) && buswr(raw) {
                B::write_of(bus, written.registers[mrgaa(raw) as int], result)
            } else {
                Ok(bus)
            };
            match bus_written {
                Err(e) => Cycle { cpu: written, bus, result: Err(e) },
                Ok(bus_after) => Cycle {
                    cpu: latches_reset(stored_flags(written, raw, flags), raw),
                    bus: bus_after,
                    result: Ok((next_address(raw, written, flags) as usize, flags)),
                },
            }
        },
    }
}

/// The CPU of the 2i.
pub struct Cpu {
    registers: [u8; 8],
    flag_register: Flags,
    stored_interrupt: bool,
    volatile_interrupt: bool,
}

impl View for Cpu {
    type V = CpuView;

    closed spec fn view(&self) -> CpuView {
        CpuView {
            registers: self.registers@,
            flag_register: self.flag_register,
            stored_interrupt: self.stored_interrupt,
            volatile_interrupt: self.volatile_interrupt,
        }
    }
}

/// The CPU after a reset: registers, flags and latches are zero.
pub open spec fn reset_cpu() -> CpuView {
    CpuView {
        registers: Seq::new(8, |i: int| 0u8),
        flag_register: Flags { carry: false, negative: false, zero: false },
        stored_interrupt: false,
        volatile_interrupt: false,
    }
}

impl Default for Cpu {
    fn default() -> (cpu: Cpu)
        ensures
            cpu@ == reset_cpu(),
    {
        Cpu::new()
    }
}

impl Cpu {
    /// Creates a CPU with all registers and flags set to zero.
    pub fn new() -> (cpu: Cpu)
        ensures
            cpu@ == reset_cpu(),
    {
        let cpu = Cpu {
            registers: [0; 8],
            flag_register: Flags::new(false, false, false),
            stored_interrupt: false,
            volatile_interrupt: false,
        };
        assert(cpu@.registers =~= reset_cpu().registers);
        cpu
    }

    /// Every CPU has eight registers.
    pub proof fn lemma_wf(&self)
        ensures
            self@.wf(),
    {
    }

    /// Executes the instruction on the CPU with the given bus. Returns the
    /// address of the next instruction and the flags of the ALU.
    pub fn execute_instruction<B: Bus>(&mut self, inst: Instruction, bus: &mut B) -> (result:
        Result<(usize, Flags), Error>)
        ensures
            final(self)@ == cycle::<B>(old(self)@, inst@, old(bus)@).cpu,
            final(bus)@ == cycle::<B>(old(self)@, inst@, old(bus)@).bus,
            result == cycle::<B>(old(self)@, inst@, old(bus)@).result,
            result matches Ok(next) ==> next.0 < 32,
    {
        let a = match self.read_input_a(inst, bus) {
            Ok(value) => value,
            Err(e) => {
                return Err(e);
            },
        };
        let b = self.read_input_b(inst);
        let (result, flags) = Alu::calculate(
            inst.get_alu_instruction(),
            a,
            b,
            self.flag_register.carry(),
        );
        self.write_register(inst, result);
        if inst.is_bus_enabled() && inst.is_bus_writable() {
            match bus.write(self.registers[inst.get_register_address_a()], result) {
                Ok(()) => {},
                Err(e) => {
                    return Err(e);
                },
            }
        }
        let next_address = self.finish_cycle(inst, flags);
        Ok((next_address as usize, flags))
    }

    /// Determines input A of the ALU: from the bus or from register A.
    fn read_input_a<B: Bus>(&self, inst: Instruction, bus: &B) -> (a: Result<u8, Error>)
        ensures
            a == input_a::<B>(self@, inst@, bus@),
    {
        if inst.is_alu_input_a_bus() {
            if !inst.is_bus_enabled() {
                Err(Error::Cpu("Cannot read from disabled bus"))
            } else if inst.is_bus_writable() {
                Err(Error::Cpu("Cannot read from bus while it is in write mode"))
            } else {
                bus.read(self.registers[inst.get_register_address_a()])
            }
        } else {
            Ok(self.registers[inst.get_register_address_a()])
        }
    }

    /// Determines input B of the ALU: the constant or register B.
    fn read_input_b(&self, inst: Instruction) -> (b: u8)
        ensures
            b == input_b(self@, inst@),
    {
        if inst.is_alu_input_b_const() {
            inst.get_constant_input()
        } else {
            self.registers[inst.get_register_address_b()]
        }
    }

    /// Writes the result to the register that the instruction names, if it
    /// names one.
    fn write_register(&mut self, inst: Instruction, result: u8)
        ensures
            final(self)@ == (CpuView {
                registers: registers_written(old(self)@, inst@, result),
                ..old(self)@
            }),
    {
        if inst.should_write_register() {
            if inst.should_write_register_b() {
                self.registers[inst.get_register_address_b()] = result;
            } else {
                self.registers[inst.get_register_address_a()] = result;
            }
        }
    }

    /// Ends a cycle: chooses the next address, stores the flags if the
    /// instruction asks for it, and resets the latches.
    fn finish_cycle(&mut self, inst: Instruction, flags: Flags) -> (address: u8)
        ensures
            address == next_address(inst@, old(self)@, flags),
            final(self)@ == latches_reset(stored_flags(old(self)@, inst@, flags), inst@),
            address < 32,
    {
        let next_address = self.calculate_next_instruction_address(inst, flags);
        if inst.should_store_flags() {
            self.flag_register = flags;
        }
        self.volatile_interrupt = false;
        let base = inst.get_next_instruction_address();
        let ghost wide = na(inst@);
        assert((base & 1 == 1) <==> (wide & 1 == 1)) by (bit_vector)
            requires
                base == wide,
        ;
        if inst.get_address_control() == 0b11 && base & 0b00001 == 0b1 {
            self.stored_interrupt = false;
        }
        next_address
    }

    /// Enables the volatile interrupt (tag 010) for the next instruction
    /// executed.
    pub fn trigger_volatile_interrupt(&mut self)
        ensures
            final(self)@ == (CpuView { volatile_interrupt: true, ..old(self)@ }),
    {
        self.volatile_interrupt = true;
    }

    /// Enables the stored interrupt (tag 111) until an instruction takes it.
    pub fn trigger_stored_interrupt(&mut self)
        ensures
            final(self)@ == (CpuView { stored_interrupt: true, ..old(self)@ }),
    {
        self.stored_interrupt = true;
    }

    /// Direct access to the registers.
    pub fn inspect_registers(&mut self) -> (registers: &mut [u8; 8])
        ensures
            registers@ == old(self)@.registers,
            final(self)@ == (CpuView { registers: final(registers)@, ..old(self)@ }),
    {
        &mut self.registers
    }

    /// Direct access to the flag register.
    pub fn inspect_flags(&mut self) -> (flags: &mut Flags)
        ensures
            *flags == old(self)@.flag_register,
            final(self)@ == (CpuView { flag_register: *final(flags), ..old(self)@ }),
    {
        &mut self.flag_register
    }

    /// The registers.
    pub fn registers(&self) -> (registers: &[u8; 8])
        ensures
            registers@ == self@.registers,
    {
        &self.registers
    }

    /// The flag register.
    pub fn flags(&self) -> (flags: Flags)
        ensures
            flags == self@.flag_register,
    {
        self.flag_register
    }

    /// Checks if the volatile interrupt is active for the next instruction.
    pub fn check_volatile_interrupt(&self) -> (active: bool)
        ensures
            active == self@.volatile_interrupt,
    {
        self.volatile_interrupt
    }

    /// Checks if the stored interrupt is active.
    pub fn check_stored_interrupt(&self) -> (active: bool)
        ensures
            active == self@.stored_interrupt,
    {
        self.stored_interrupt
    }

    /// Calculates the address of the next instruction from the instruction,
    /// the state of the CPU and the flags of this cycle.
    pub fn calculate_next_instruction_address(&self, inst: Instruction, flags: Flags) -> (address:
        u8)
        ensures
            address == next_address(inst@, self@, flags),
            address < 32,
    {
        let next_address = inst.get_next_instruction_address();
        let control = inst.get_full_address_control();
        if control == 0b000 || control == 0b001 {
            next_address
        } else {
            let bit = if control == 0b010 {
                self.volatile_interrupt
            } else if control == 0b011 {
                self.flag_register.carry()
            } else if control == 0b100 {
                flags.carry()
            } else if control == 0b101 {
                flags.zero()
            } else if control == 0b110 {
                flags.negative()
            } else {
                self.stored_interrupt
            };
            let low: u8 = if bit { 1 } else { 0 };
            let ghost wide = na(inst@);
            let ghost wide_low = bit_value(bit);
            assert(((next_address & 0b11110) | low) == ((wide & 0b11110) | wide_low) && ((
            next_address & 0b11110) | low) < 32) by (bit_vector)
                requires
                    next_address == wide,
                    low == wide_low,
                    next_address < 32,
                    low <= 1,
            ;
            (next_address & 0b11110) | low
        }
    }
}

/// The next address differs from NA in the lowest bit at most, and is an
/// address of the program.
pub proof fn law_next_address_keeps_base(raw: u32, cpu: CpuView, flags: Flags)
    ensures
        next_address(raw, cpu, flags) < 32,
        next_address(raw, cpu, flags) & 0b11110 == na(raw) & 0b11110,
        next_address(raw, cpu, flags) / 2 == na(raw) / 2,
{
    let base = na(raw);
    assert(base < 32 && ((base & 0b11110) | 0) < 32 && ((base & 0b11110) | 1) < 32 && ((base
        & 0b11110) | 0) & 0b11110 == base & 0b11110 && ((base & 0b11110) | 1) & 0b11110 == base
        & 0b11110 && ((base & 0b11110) | 0) / 2 == base / 2 && ((base & 0b11110) | 1) / 2 == base
        / 2 && (base & 0b11110) / 2 == base / 2) by (bit_vector)
        requires
            base == (raw >> 18) & 0b11111,
    ;
}

/// The table of the branch selector: for each tag of the full address
/// control, the bit that decides the lowest bit of the next address.
pub proof fn law_next_address_table(raw: u32, cpu: CpuView, flags: Flags)
    ensures
        ({
            let control = full_address_control(raw);
            let chosen = next_address(raw, cpu, flags);
            let base = na(raw) & 0b11110;
            &&& control <= 0b001 ==> chosen == na(raw)
            &&& control == 0b010 ==> chosen == base + bit_value(cpu.volatile_interrupt)
            &&& control == 0b011 ==> chosen == base + bit_value(cpu.flag_register.carry)
            &&& control == 0b100 ==> chosen == base + bit_value(flags.carry)
            &&& control == 0b101 ==> chosen == base + bit_value(flags.zero)
            &&& control == 0b110 ==> chosen == base + bit_value(flags.negative)
            &&& control == 0b111 ==> chosen == base + bit_value(cpu.stored_interrupt)
            &&& control < 8
        }),
{
    let base = na(raw);
    let control = full_address_control(raw);
    assert(((base & 0b11110) | 0) == (base & 0b11110) + 0 && ((base & 0b11110) | 1) == (base
        & 0b11110) + 1) by (bit_vector)
        requires
            base == (raw >> 18) & 0b11111,
    ;
    assert(control < 8) by (bit_vector)
        requires
            control == ((((raw >> 23) & 0b11) << 1) | (((raw >> 18) & 0b11111) & 1)),
    ;
}

/// A cycle writes at most one register: the one that the instruction names.
/// All other registers stay as they are, also where the cycle fails.
pub proof fn law_one_register_is_written<B: Bus>(cpu: CpuView, raw: u32, bus: B::V, index: int)
    requires
        cpu.wf(),
        0 <= index < 8,
    ensures
        cycle::<B>(cpu, raw, bus).cpu.wf(),
        !mrgwe(raw) ==> cycle::<B>(cpu, raw, bus).cpu.registers == cpu.registers,
        index != (if mrgws(raw) {
            register_b(raw)
        } else {
            mrgaa(raw)
        }) ==> cycle::<B>(cpu, raw, bus).cpu.registers[index] == cpu.registers[index],
{
    let a = mrgaa(raw);
    let b = register_b(raw);
    assert(a < 8 && b < 8) by (bit_vector)
        requires
            a == (raw >> 13) & 0b111,
            b == (raw >> 9) & 0b111,
    ;
}

/// A cycle that succeeds leaves no volatile interrupt behind. The stored
/// interrupt is gone exactly if it was taken: by an instruction with the
/// address control 11 and an odd NA. A cycle that fails keeps both latches.
pub proof fn law_latches<B: Bus>(cpu: CpuView, raw: u32, bus: B::V)
    ensures
        cycle::<B>(cpu, raw, bus).result is Ok ==> !cycle::<B>(cpu, raw, bus).cpu.volatile_interrupt,
        cycle::<B>(cpu, raw, bus).result is Ok ==> (cycle::<B>(
            cpu,
            raw,
            bus,
        ).cpu.stored_interrupt <==> cpu.stored_interrupt && !(mac(raw) == 0b11 && na(raw) & 1
            == 1)),
        cycle::<B>(cpu, raw, bus).result is Err ==> cycle::<B>(cpu, raw, bus).cpu.volatile_interrupt
            == cpu.volatile_interrupt && cycle::<B>(cpu, raw, bus).cpu.stored_interrupt
            == cpu.stored_interrupt && cycle::<B>(cpu, raw, bus).cpu.flag_register
            == cpu.flag_register && cycle::<B>(cpu, raw, bus).bus == bus,
{
}

/// A looping instruction at its address loops: the cycle chooses its NA as
/// the next address, whatever the flags and the latches are.
pub proof fn law_looping_instruction_loops(address: usize, cpu: CpuView, flags: Flags)
    requires
        address < 32,
    ensures
        next_address((address as u32) << 18, cpu, flags) == address,
{
    let base = address as u32;
    let raw = base << 18;
    assert((raw >> 18) & 0b11111 == base && (raw >> 23) & 0b11 == 0 && (((raw >> 23) & 0b11) << 1)
        | (((raw >> 18) & 0b11111) & 1) <= 1) by (bit_vector)
        requires
            base < 32,
            raw == base << 18,
    ;
}

} // verus!
