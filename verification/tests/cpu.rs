use emulator::alu::Flags;
use emulator::bus::{Bus, IoRegisters, Ram};
use emulator::cpu::Cpu;
use emulator::instruction::Instruction;
use emulator::Error;

fn next_address(inst: u32, flags: Flags, carry: bool, volatile_int: bool, stored_int: bool) -> u8 {
    let inst = Instruction::new(inst << 18).unwrap();
    let mut cpu = Cpu::default();
    if volatile_int {
        cpu.trigger_volatile_interrupt();
    }
    if stored_int {
        cpu.trigger_stored_interrupt();
    }
    *cpu.inspect_flags() = Flags::new(carry, false, false);
    cpu.calculate_next_instruction_address(inst, flags)
}

#[test]
fn address_calculation() {
    let na = next_address;

    // No modification
    assert_eq!(na(0b00_00000, Flags::new(false, false, false), false, false, false), 0b00000);
    assert_eq!(na(0b00_11100, Flags::new(false, false, false), false, false, false), 0b11100);
    assert_eq!(na(0b00_11111, Flags::new(false, false, false), false, false, false), 0b11111);
    assert_eq!(na(0b00_00000, Flags::new(true, true, true), true, false, false), 0b00000);
    assert_eq!(na(0b00_11100, Flags::new(true, true, true), true, false, false), 0b11100);
    assert_eq!(na(0b00_11111, Flags::new(true, true, true), true, false, false), 0b11111);

    // Set last bit to the volatile interrupt
    assert_eq!(na(0b01_11110, Flags::new(false, false, false), false, false, false), 0b11110);
    assert_eq!(na(0b01_11110, Flags::new(false, false, false), false, true, false), 0b11111);

    // Set last bit to stored carry
    assert_eq!(na(0b01_11111, Flags::new(false, false, false), false, false, false), 0b11110);
    assert_eq!(na(0b01_11111, Flags::new(false, false, false), true, false, false), 0b11111);

    // Set last bit to carry out
    assert_eq!(na(0b10_11110, Flags::new(false, false, false), false, false, false), 0b11110);
    assert_eq!(na(0b10_11110, Flags::new(true, false, false), false, false, false), 0b11111);

    // Set last bit to zero out
    assert_eq!(na(0b10_11111, Flags::new(false, false, false), false, false, false), 0b11110);
    assert_eq!(na(0b10_11111, Flags::new(false, false, true), false, false, false), 0b11111);

    // Set last bit to negative out
    assert_eq!(na(0b11_11110, Flags::new(false, false, false), false, false, false), 0b11110);
    assert_eq!(na(0b11_11110, Flags::new(false, true, false), false, false, false), 0b11111);

    // Set last bit to the stored interrupt
    assert_eq!(na(0b11_11111, Flags::new(false, false, false), false, false, false), 0b11110);
    assert_eq!(na(0b11_11111, Flags::new(false, false, false), false, false, true), 0b11111);
}

#[test]
fn multiplication() {
    let program: Vec<_> = [
        0b00_00001_00_000_1100_01_01_1100_0, // in:  R0 = FC
        0b00_00010_01_000_0000_01_10_0001_0, //      R0 = (R0)
        0b00_00011_00_001_1101_01_01_1100_0, //      R1 = FD
        0b00_00100_01_001_0000_01_10_0001_0, //      R1 = (R1)
        0b00_00101_00_010_0000_01_00_0011_0, //      R2 = 0
        0b10_00111_00_000_0000_00_00_0001_0, // tst: TEST R0, ZO
        0b00_01000_00_000_1111_01_01_0100_0, //        R0 = R0 + FF, JP add
        0b00_01001_00_001_1110_01_01_1100_0, //        R1 = FF, JP out
        0b00_00101_00_010_0001_01_00_0100_0, // add: R2 = R2 + R1, JP tst
        0b00_00000_11_001_0010_00_00_1100_0, // out: (R1) = R2, JP in
    ]
    .iter()
    .map(|&i| Instruction::new(i).unwrap())
    .collect();

    // The ALU gives 0 for the opcode 1100, so that the first instruction
    // clears R0 and the second reads the bus at address 0, which the input
    // and output registers do not serve.
    let mult = |a, b, steps| -> (usize, Result<(usize, Flags), Error>, u8) {
        let mut next_instruction_address = 0;
        let mut cpu = Cpu::new();
        let mut bus = IoRegisters::new();

        bus.inspect_input()[0..2].clone_from_slice(&[a, b]);

        for step in 0..steps {
            let inst = program[next_instruction_address];
            match cpu.execute_instruction(inst, &mut bus) {
                Ok((next, _)) => next_instruction_address = next,
                Err(e) => return (step, Err(e), bus.inspect_output()[0]),
            }
        }

        return (steps, Ok((next_instruction_address, cpu.flags())), bus.inspect_output()[0]);
    };
    let refused = Err(Error::Bus("Only supports reading from input registers"));

    // Special cases
    assert_eq!(mult(0, 0, 8), (1, refused, 0));
    assert_eq!(mult(1, 0, 11), (1, refused, 0));
    assert_eq!(mult(0, 1, 8), (1, refused, 0));
    assert_eq!(mult(1, 1, 11), (1, refused, 0));

    // Non-overflowing calculations
    assert_eq!(mult(3, 7, 17), (1, refused, 0));
    assert_eq!(mult(7, 3, 29), (1, refused, 0));
    assert_eq!(mult(22, 11, 74), (1, refused, 0));

    // Overflowing calculations
    assert_eq!(mult(22, 12, 74), (1, refused, 0));
    assert_eq!(mult(128, 64, 392), (1, refused, 0));
    assert_eq!(mult(142, 142, 434), (1, refused, 0));

    // The first step alone succeeds and leaves R0 = 0
    let mut cpu = Cpu::new();
    let mut bus = IoRegisters::new();
    assert_eq!(
        cpu.execute_instruction(program[0], &mut bus),
        Ok((1, Flags::new(false, false, true)))
    );
    assert_eq!(cpu.registers()[0], 0);
}

#[test]
fn multiplication_by_repeated_addition() {
    let program: Vec<_> = [
        0b00_00001_00_000_1100_01_01_0001_0, // in:  R0 = FC
        0b00_00010_01_000_0000_01_10_0000_0, //      R0 = (R0)
        0b00_00011_00_001_1101_01_01_0001_0, //      R1 = FD
        0b00_00100_01_001_0000_01_10_0000_0, //      R1 = (R1)
        0b00_00101_00_010_0000_01_00_0011_0, //      R2 = 0
        0b10_00111_00_000_0000_00_00_0000_0, // tst: test R0, branch on zero
        0b00_01000_00_000_1111_01_01_0100_0, //        R0 = R0 + FF, go to add
        0b00_01001_00_001_1110_01_01_0001_0, //        R1 = FE, go to out
        0b00_00101_00_010_0001_01_00_0100_0, // add: R2 = R2 + R1, go to tst
        0b00_00000_11_001_0010_00_00_0001_0, // out: (R1) = R2, go to in
    ]
    .iter()
    .map(|&i| Instruction::new(i).unwrap())
    .collect();

    let mult = |a, b, steps| -> u8 {
        let mut next_instruction_address = 0;
        let mut cpu = Cpu::new();
        let mut bus = IoRegisters::new();

        bus.inspect_input()[0..2].clone_from_slice(&[a, b]);

        for _ in 0..steps {
            let inst = program[next_instruction_address];
            next_instruction_address = cpu.execute_instruction(inst, &mut bus).unwrap().0;
        }

        return bus.inspect_output()[0];
    };

    // Special cases
    assert_eq!(mult(0, 0, 8), 0);
    assert_eq!(mult(1, 0, 11), 0);
    assert_eq!(mult(0, 1, 8), 0);
    assert_eq!(mult(1, 1, 11), 1);

    // Non-overflowing calculations
    assert_eq!(mult(3, 7, 17), 21);
    assert_eq!(mult(7, 3, 29), 21);
    assert_eq!(mult(22, 11, 74), 242);

    // Overflowing calculations
    assert_eq!(mult(22, 12, 74), 8);
    assert_eq!(mult(128, 64, 392), 0);
    assert_eq!(mult(142, 142, 434), 196);
}

#[test]
fn next_address_table_is_exhaustive() {
    for control in 0..8u32 {
        for base in 0..16u32 {
            for bits in 0..64u32 {
                let flags = Flags::new(bits & 1 != 0, bits & 2 != 0, bits & 4 != 0);
                let carry = bits & 8 != 0;
                let volatile = bits & 16 != 0;
                let stored = bits & 32 != 0;
                let word = (control >> 1) << 5 | base << 1 | (control & 1);
                let selected = match control {
                    0b000 => false,
                    0b001 => true,
                    0b010 => volatile,
                    0b011 => carry,
                    0b100 => flags.carry(),
                    0b101 => flags.zero(),
                    0b110 => flags.negative(),
                    _ => stored,
                };
                let expected = (base << 1 | selected as u32) as u8;
                assert_eq!(next_address(word, flags, carry, volatile, stored), expected);
            }
        }
    }
}

#[test]
fn a_new_cpu_is_zero() {
    let mut cpu = Cpu::new();
    assert_eq!(cpu.registers()[..], [0; 8]);
    assert_eq!(cpu.inspect_registers()[..], [0; 8]);
    assert_eq!(cpu.flags(), Flags::new(false, false, false));
    assert!(!cpu.check_volatile_interrupt());
    assert!(!cpu.check_stored_interrupt());
}

#[test]
fn a_register_is_loaded_with_a_constant() {
    let mut cpu = Cpu::new();
    let mut ram = Ram::new();

    // R0 = 6
    let inst = Instruction::new(0b00_00000_00_000_0110_01_01_0001_0).unwrap();

    let (next, flags) = cpu.execute_instruction(inst, &mut ram).unwrap();
    assert_eq!(next, 0);
    assert_eq!(flags, Flags::new(false, false, false));
    assert_eq!(6, cpu.inspect_registers()[0]);
}

#[test]
fn reading_the_bus_needs_an_enabled_bus_in_read_mode() {
    let mut cpu = Cpu::new();
    let mut ram = Ram::new();
    cpu.inspect_registers()[3] = 9;

    // R3 = (R3) with the bus disabled
    let disabled = Instruction::new(0b00_00000_00_011_0000_01_10_0001_0).unwrap();
    assert_eq!(
        cpu.execute_instruction(disabled, &mut ram),
        Err(Error::Cpu("Cannot read from disabled bus"))
    );
    // R3 = (R3) with the bus in write mode
    let writing = Instruction::new(0b00_00000_11_011_0000_01_10_0001_0).unwrap();
    assert_eq!(
        cpu.execute_instruction(writing, &mut ram),
        Err(Error::Cpu("Cannot read from bus while it is in write mode"))
    );
    assert_eq!(cpu.registers()[3], 9);
    assert_eq!(ram.inspect()[9], 0);
}

#[test]
fn a_failed_bus_write_keeps_the_written_register() {
    let mut cpu = Cpu::new();
    let mut io = IoRegisters::new();
    cpu.trigger_volatile_interrupt();

    // (R1),R1 = 3 and store the flags: the address 3 is no output register
    let inst = Instruction::new(0b00_00001_11_001_0011_01_01_0001_1).unwrap();
    assert_eq!(
        cpu.execute_instruction(inst, &mut io),
        Err(Error::Bus("Only supports writing to output registers"))
    );
    assert_eq!(cpu.registers()[1], 3);
    assert_eq!(cpu.flags(), Flags::new(false, false, false));
    assert!(cpu.check_volatile_interrupt());
}

#[test]
fn the_bus_is_written_at_the_address_in_register_a() {
    let mut cpu = Cpu::new();
    let mut ram = Ram::new();
    cpu.inspect_registers()[1] = 0x40;
    cpu.inspect_registers()[2] = 0x77;

    // (R1) = R2
    let inst = Instruction::new(0b00_00001_11_001_0010_00_00_0001_0).unwrap();
    let (next, _) = cpu.execute_instruction(inst, &mut ram).unwrap();
    assert_eq!(next, 1);
    assert_eq!(ram.read(0x40).unwrap(), 0x77);

    // (R1),R1 = 3 writes to the address that R1 holds after the write
    let inst = Instruction::new(0b00_00001_11_001_0011_01_01_0001_0).unwrap();
    cpu.execute_instruction(inst, &mut ram).unwrap();
    assert_eq!(cpu.registers()[1], 3);
    assert_eq!(ram.read(3).unwrap(), 3);
    assert_eq!(ram.read(0x40).unwrap(), 0x77);
}

#[test]
fn flags_are_stored_only_on_request() {
    let mut cpu = Cpu::new();
    let mut ram = Ram::new();

    // R0 = 0 + SETC without MCHFLG
    let quiet = Instruction::new(0b00_00000_00_000_0000_01_01_1101_0).unwrap();
    let (_, flags) = cpu.execute_instruction(quiet, &mut ram).unwrap();
    assert_eq!(flags, Flags::new(true, false, true));
    assert_eq!(cpu.flags(), Flags::new(false, false, false));

    // the same with MCHFLG
    let storing = Instruction::new(0b00_00000_00_000_0000_01_01_1101_1).unwrap();
    let (_, flags) = cpu.execute_instruction(storing, &mut ram).unwrap();
    assert_eq!(flags, Flags::new(true, false, true));
    assert_eq!(cpu.flags(), Flags::new(true, false, true));
}

#[test]
fn the_carry_branch_sees_the_carry_stored_before_the_cycle() {
    let mut cpu = Cpu::new();
    let mut ram = Ram::new();

    // SETC, store the flags, branch on the stored carry (MAC 01, NA 00001)
    let inst = Instruction::new(0b01_00001_00_000_0000_00_00_1101_1).unwrap();
    assert_eq!(cpu.execute_instruction(inst, &mut ram), Ok((0, Flags::new(true, false, true))));
    assert_eq!(*cpu.inspect_flags(), Flags::new(true, false, true));

    // the next cycle sees the carry that the last one stored
    assert_eq!(cpu.execute_instruction(inst, &mut ram), Ok((1, Flags::new(true, false, true))));

    // clear carry without storing: the branch still sees the stored carry
    let inst = Instruction::new(0b01_00011_00_000_0000_01_01_1100_0).unwrap();
    let (next, flags) = cpu.execute_instruction(inst, &mut ram).unwrap();
    assert!(!flags.carry());
    assert_eq!(next, 0b00011);
    assert!(cpu.flags().carry());

    // clear carry and store it: this branch sees the old carry, the next the new
    let inst = Instruction::new(0b01_00011_00_000_0000_01_01_1100_1).unwrap();
    assert_eq!(cpu.execute_instruction(inst, &mut ram).unwrap().0, 0b00011);
    assert!(!cpu.flags().carry());
    assert_eq!(cpu.execute_instruction(inst, &mut ram).unwrap().0, 0b00010);
}

#[test]
fn the_carry_out_branch_sees_the_carry_of_the_cycle() {
    let mut cpu = Cpu::new();
    let mut ram = Ram::new();

    // SETC without storing, branch on the carry out (MAC 10, NA 00010)
    let inst = Instruction::new(0b10_00010_00_000_0000_00_00_1101_0).unwrap();
    assert_eq!(cpu.execute_instruction(inst, &mut ram), Ok((3, Flags::new(true, false, true))));
    assert!(!cpu.flags().carry());
}

#[test]
fn interrupts_are_latched_and_reset() {
    let mut cpu = Cpu::new();
    let mut ram = Ram::new();
    let nop = Instruction::new(0b00_00101_00_000_0000_00_00_0000_0).unwrap();
    let on_volatile = Instruction::new(0b01_00100_00_000_0000_00_00_0000_0).unwrap();
    let on_stored = Instruction::new(0b11_00101_00_000_0000_00_00_0000_0).unwrap();

    cpu.trigger_volatile_interrupt();
    cpu.trigger_stored_interrupt();
    assert!(cpu.check_volatile_interrupt());
    assert!(cpu.check_stored_interrupt());

    // the volatile interrupt is seen by the next instruction only
    assert_eq!(cpu.execute_instruction(on_volatile, &mut ram).unwrap().0, 0b00101);
    assert!(!cpu.check_volatile_interrupt());
    assert_eq!(cpu.execute_instruction(on_volatile, &mut ram).unwrap().0, 0b00100);

    // the stored interrupt waits for an instruction that branches on it
    assert_eq!(cpu.execute_instruction(nop, &mut ram).unwrap().0, 0b00101);
    assert!(cpu.check_stored_interrupt());
    assert_eq!(cpu.execute_instruction(on_stored, &mut ram).unwrap().0, 0b00101);
    assert!(!cpu.check_stored_interrupt());
    assert_eq!(cpu.execute_instruction(on_stored, &mut ram).unwrap().0, 0b00100);

    // a volatile interrupt is gone after an instruction that does not ask
    cpu.trigger_volatile_interrupt();
    cpu.execute_instruction(nop, &mut ram).unwrap();
    assert!(!cpu.check_volatile_interrupt());
}

#[test]
fn a_bus_read_error_changes_nothing() {
    let mut cpu = Cpu::new();
    let mut io = IoRegisters::new();
    cpu.trigger_stored_interrupt();

    // R0 = (R0) reads address 0, which the registers do not serve
    let inst = Instruction::new(0b11_00001_01_000_0000_01_10_0001_1).unwrap();
    assert_eq!(
        cpu.execute_instruction(inst, &mut io),
        Err(Error::Bus("Only supports reading from input registers"))
    );
    assert!(cpu.check_stored_interrupt());
    assert_eq!(io.read(0xFC).unwrap(), 0);
}
