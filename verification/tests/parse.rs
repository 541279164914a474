use emulator::instruction::Instruction;
use emulator::parse::{
    convert_binary_string_to_int, make_entry, parse_instructions, parse_line, place,
    read_program, read_reachable_program, select_address_parts,
};
use emulator::text::to_chars;
use emulator::reach::reachable_instructions;
use emulator::Error;

#[test]
fn parser() {
    let program = parse_instructions(
        "\
            # Simple program\n\
            \n\
            00000: 00 00001 000000000000000000 # first instruction\n\
          \n       00 00011 000000000000000000# second instruction\n\
            00011: 00 11111 000000000000000000\n\
            # the following instruction ends up in 00010, not 00100!\
          \n       00 00000 000000000000000000\n\
            11111 : 00 00011 | 00 | 000 1111 01 | 01 0100 | 0\n\
        ",
    )
    .unwrap();

    assert_eq!(
        program.iter().filter_map(|e| *e).collect::<Vec<_>>().as_slice(),
        &[
            Instruction::new(0b00_00001_000000000000000000).unwrap(),
            Instruction::new(0b00_00011_000000000000000000).unwrap(),
            Instruction::new(0b00_00000_000000000000000000).unwrap(),
            Instruction::new(0b00_11111_000000000000000000).unwrap(),
            Instruction::new(0b00_00011_000001111010101000).unwrap(),
        ]
    );
}

#[test]
#[should_panic(expected = "Invalid instruction address")]
fn invalid_address() {
    let _ = parse_instructions(
        "\
            0 0 0 0 0: 00 00001 000000000000000000\n\
        ",
    )
    .unwrap();
}

#[test]
fn reachable_backjump() {
    let program = "\
            00000: 00 00100 000000000000000000\n\
            00001: 00 11111 000000000000000000\n\
            00010: 00 00001 000000000000000000\n\
            00100: 00 00010 000000000000000000\n\
            11111: 00 00000 000000000000000000\n\
        ";
    assert_eq!(
        read_reachable_program(program).unwrap().as_slice(),
        &[
            (0, Instruction::new(0b00_00100_000000000000000000).unwrap()),
            (1, Instruction::new(0b00_11111_000000000000000000).unwrap()),
            (2, Instruction::new(0b00_00001_000000000000000000).unwrap()),
            (4, Instruction::new(0b00_00010_000000000000000000).unwrap()),
            (31, Instruction::new(0b00_00000_000000000000000000).unwrap()),
        ]
    );
}

#[test]
fn reachable_address_control() {
    let program = "\
            00000: 11 00010 000000000000000000\n\
            00010: 00 00000 000000000000000000\n\
            00011: 00 00000 000000000000000000\n\
        ";
    assert_eq!(
        read_reachable_program(program).unwrap().as_slice(),
        &[
            (0, Instruction::new(0b11_00010_000000000000000000).unwrap()),
            (2, Instruction::new(0b00_00000_000000000000000000).unwrap()),
            (3, Instruction::new(0b00_00000_000000000000000000).unwrap()),
        ]
    );
}

#[test]
#[should_panic(expected = "No instruction reachable")]
fn reachable_empty() {
    read_reachable_program("").unwrap();
}

#[test]
fn reachable_empty_is_an_error() {
    assert_eq!(read_reachable_program(""), Err(Error::Parse("No instruction reachable")));
    assert_eq!(
        read_reachable_program("00001: 0\n"),
        Err(Error::Parse("No instruction reachable"))
    );
}

#[test]
fn example_program() {
    let program = read_program(
        "# load register 0 from address at FC\n       00,00001 00 000|1100 01 01,1100 0\n00001: 00,00000 01 000|0000 01 10,0001 0\n",
    )
    .unwrap();
    assert_eq!(program[0], Instruction::new(0b00_00001_00_000_1100_01_01_1100_0).unwrap());
    assert_eq!(program[1], Instruction::new(0b00_00000_01_000_0000_01_10_0001_0).unwrap());
    for slot in program[2..].iter() {
        assert_eq!(*slot, Instruction::default());
    }
}

#[test]
fn comments_and_blank_lines_are_ignored() {
    let plain = parse_instructions("101\n11\n").unwrap();
    let padded = parse_instructions(
        "# a comment\n\n   \t \n101 # five\n#\n  # another\n\u{a0}\u{2003}\r\n11\r\n\n",
    )
    .unwrap();
    assert_eq!(plain, padded);
    assert_eq!(plain[0], Some(Instruction::new(5).unwrap()));
    assert_eq!(plain[1], Some(Instruction::new(3).unwrap()));
    assert_eq!(plain[2], None);
    assert_eq!(parse_instructions("").unwrap(), [None; 32]);
    assert_eq!(parse_instructions("\n\n# nothing\n").unwrap(), [None; 32]);
}

#[test]
fn a_line_without_digits_is_the_zero_instruction() {
    let program = parse_instructions("1\nx\n1\n").unwrap();
    assert_eq!(program[0], Some(Instruction::new(1).unwrap()));
    assert_eq!(program[1], Some(Instruction::new(0).unwrap()));
    assert_eq!(program[2], Some(Instruction::new(1).unwrap()));
    assert_eq!(program[3], None);
}

#[test]
fn the_last_line_needs_no_newline() {
    let program = parse_instructions("1\n00010: 11").unwrap();
    assert_eq!(program[0], Some(Instruction::new(1).unwrap()));
    assert_eq!(program[2], Some(Instruction::new(3).unwrap()));
}

#[test]
fn addressless_instructions_fill_the_lowest_free_slots() {
    let program = parse_instructions("00001: 1\n00000: 10\n11\n00011: 100\n101\n110\n").unwrap();
    let words: Vec<Option<u32>> =
        program.iter().map(|slot| slot.map(|inst| inst.get_instruction())).collect();
    assert_eq!(words[..6], [Some(2), Some(1), Some(3), Some(4), Some(5), Some(6)]);
    assert!(words[6..].iter().all(|slot| slot.is_none()));
}

#[test]
fn duplicate_addresses_fail() {
    assert_eq!(
        parse_instructions("00011: 1\n00011: 10\n"),
        Err(Error::Parse("Two instructions with the same address"))
    );
    // an instruction without address took the slot before
    assert_eq!(
        parse_instructions("1\n00000: 10\n"),
        Err(Error::Parse("Two instructions with the same address"))
    );
}

#[test]
fn too_many_instructions_fail() {
    let mut text = String::new();
    for _ in 0..32 {
        text.push_str("1\n");
    }
    assert!(parse_instructions(&text).is_ok());
    text.push_str("1\n");
    assert_eq!(
        parse_instructions(&text),
        Err(Error::Parse("Too many instructions in this program"))
    );
}

#[test]
fn address_syntax() {
    assert_eq!(
        parse_instructions("0001: 1\n"),
        Err(Error::Parse("Invalid instruction address"))
    );
    assert_eq!(
        parse_instructions("000011: 1\n"),
        Err(Error::Parse("Invalid instruction address"))
    );
    assert_eq!(
        parse_instructions("0000a: 1\n"),
        Err(Error::Parse("Invalid instruction address"))
    );
    assert_eq!(parse_instructions(": 1\n"), Err(Error::Parse("Invalid instruction address")));
    assert_eq!(
        parse_instructions("1 # 00001: in a comment\n").unwrap()[0],
        Some(Instruction::new(1).unwrap())
    );
    // white space may stand around the colon, and the instruction may hold more colons
    let program = parse_instructions("00001 \t:   1:1\n11111:\n").unwrap();
    assert_eq!(program[0], None);
    assert_eq!(program[1], Some(Instruction::new(3).unwrap()));
    assert_eq!(program[31], Some(Instruction::new(0).unwrap()));
}

#[test]
fn instructions_have_25_bits() {
    let limit = "1 0000 0000 0000 0000 0000 0000";
    assert_eq!(
        parse_instructions("1111111111111111111111111\n").unwrap()[0],
        Some(Instruction::new(0x1FF_FFFF).unwrap())
    );
    assert_eq!(
        parse_instructions("10000000000000000000000000\n"),
        Err(Error::Instruction("Given u32 too large (more then 25 bit)"))
    );
    // bits that a 32 bit word cannot hold are not dropped
    let long = format!("00000: 1{}{}\n", "0".repeat(20), limit);
    assert_eq!(
        parse_instructions(&long),
        Err(Error::Instruction("Given u32 too large (more then 25 bit)"))
    );
    let zeros = format!("{}101\n", "0".repeat(60));
    assert_eq!(parse_instructions(&zeros).unwrap()[0], Some(Instruction::new(5).unwrap()));
}

#[test]
fn binary_strings() {
    assert_eq!(convert_binary_string_to_int(""), 0);
    assert_eq!(convert_binary_string_to_int("abc"), 0);
    assert_eq!(convert_binary_string_to_int("1|0 1,1"), 0b1011);
    assert_eq!(convert_binary_string_to_int("00 00011 | 00 | 000 1111 01 | 01 0100 | 0"), 0b00_00011_000001111010101000);
    assert_eq!(convert_binary_string_to_int(&"1".repeat(32)), u32::MAX);
    assert_eq!(convert_binary_string_to_int(&"1".repeat(33)), u32::MAX);
    assert_eq!(convert_binary_string_to_int(&format!("1{}", "0".repeat(32))), u32::MAX);
}

#[test]
fn read_program_fills_with_zero_instructions() {
    let program = read_program("11111: 1\n").unwrap();
    for slot in program[..31].iter() {
        assert_eq!(slot.get_instruction(), 0);
    }
    assert_eq!(program[31].get_instruction(), 1);
    assert_eq!(
        read_program("00000: 1\n00000: 1\n"),
        Err(Error::Parse("Two instructions with the same address"))
    );
}

#[test]
fn reached_slots_without_instruction_are_listed_as_zero() {
    // 0 jumps to 5, which is empty
    let listed = read_reachable_program("00000: 00 00101 000000000000000000\n").unwrap();
    assert_eq!(
        listed,
        vec![
            (0, Instruction::new(0b00_00101_000000000000000000).unwrap()),
            (5, Instruction::default()),
        ]
    );
}

#[test]
fn reachable_from_slots() {
    let mut slots = [None; 32];
    slots[0] = Some(Instruction::new(0b10_00111 << 18).unwrap());
    slots[6] = Some(Instruction::new(0b00_01000 << 18).unwrap());
    slots[7] = Some(Instruction::new(0b00_00000 << 18).unwrap());
    slots[9] = Some(Instruction::new(0b00_01010 << 18).unwrap());
    let listed = reachable_instructions(&slots).unwrap();
    let addresses: Vec<u8> = listed.iter().map(|entry| entry.0).collect();
    assert_eq!(addresses, vec![0, 6, 7, 8]);
    assert_eq!(listed[3].1, Instruction::default());

    slots[0] = None;
    assert_eq!(reachable_instructions(&slots), Err(Error::Parse("No instruction reachable")));
}

#[test]
fn entries_are_checked() {
    let zero = Instruction::default();
    let last = Instruction::new(0x1FF_FFFF).unwrap();
    assert_eq!(make_entry(None, 0), Ok((None, zero)));
    assert_eq!(make_entry(Some(31), 0x1FF_FFFF), Ok((Some(31), last)));
    assert_eq!(
        make_entry(Some(32), 0),
        Err(Error::Parse("Specified instruction address too big"))
    );
    assert_eq!(
        make_entry(Some(u32::MAX), 0),
        Err(Error::Parse("Specified instruction address too big"))
    );
    assert_eq!(
        make_entry(None, 0x200_0000),
        Err(Error::Instruction("Given u32 too large (more then 25 bit)"))
    );
    // the instruction is checked before the address
    assert_eq!(
        make_entry(Some(32), u32::MAX),
        Err(Error::Instruction("Given u32 too large (more then 25 bit)"))
    );
}

#[test]
fn capture_groups_become_address_and_instruction() {
    let group = |text: &str| Some(text.to_string());
    let found = Some(vec![group("00001: 10"), group("00001"), group("10")]);
    assert_eq!(select_address_parts(&found), Some((to_chars("00001"), to_chars("10"))));
    assert_eq!(select_address_parts(&None), None);
    assert_eq!(select_address_parts(&Some(vec![])), None);
    assert_eq!(select_address_parts(&Some(vec![group("a"), group("b")])), None);
    assert_eq!(select_address_parts(&Some(vec![group("a"), None, group("c")])), None);
    assert_eq!(select_address_parts(&Some(vec![group("a"), group("b"), None])), None);
    assert_eq!(
        select_address_parts(&Some(vec![group("a"), group("b"), group("c"), group("d")])),
        None
    );
}

#[test]
fn lines_are_read_between_bounds() {
    let chars = to_chars("00010: 11 # three\n  \n101");
    let three = Instruction::new(3).unwrap();
    let five = Instruction::new(5).unwrap();
    assert_eq!(parse_line(&chars, 0, 17), Ok(Some((Some(2), three))));
    assert_eq!(parse_line(&chars, 7, 17), Ok(Some((None, three))));
    assert_eq!(parse_line(&chars, 10, 17), Ok(None));
    assert_eq!(parse_line(&chars, 18, 20), Ok(None));
    assert_eq!(parse_line(&chars, 21, 24), Ok(Some((None, five))));
    assert_eq!(parse_line(&chars, 5, 9), Err(Error::Parse("Invalid instruction address")));
    assert_eq!(parse_line(&chars, 3, 3), Ok(None));
}

#[test]
fn instructions_are_placed() {
    let one = Instruction::new(1).unwrap();
    let two = Instruction::new(2).unwrap();
    let mut slots = [None; 32];
    assert_eq!(place(&mut slots, Some(1), one), Ok(()));
    assert_eq!(place(&mut slots, None, two), Ok(()));
    assert_eq!(place(&mut slots, None, two), Ok(()));
    assert_eq!(slots[..4], [Some(two), Some(one), Some(two), None]);

    let before = slots;
    assert_eq!(
        place(&mut slots, Some(2), one),
        Err(Error::Parse("Two instructions with the same address"))
    );
    assert_eq!(slots, before);

    let mut full = [Some(one); 32];
    assert_eq!(
        place(&mut full, None, two),
        Err(Error::Parse("Too many instructions in this program"))
    );
    assert_eq!(full, [Some(one); 32]);
    full[31] = None;
    assert_eq!(place(&mut full, None, two), Ok(()));
    assert_eq!(full[31], Some(two));
}

#[test]
fn a_cycle_of_all_addresses_is_reachable() {
    let mut text = String::new();
    for address in 0..32u32 {
        text.push_str(&format!("00 {:05b} 000000000000000000\n", (address + 1) % 32));
    }
    let listed = read_reachable_program(&text).unwrap();
    assert_eq!(listed.len(), 32);
    for (index, entry) in listed.iter().enumerate() {
        assert_eq!(entry.0 as usize, index);
        assert_eq!(entry.1.get_next_instruction_address() as usize, (index + 1) % 32);
    }
}

#[test]
fn unreachable_instructions_are_left_out() {
    // 0 loops; 1 would lead on to 2
    let listed = read_reachable_program("0\n00 00010 000000000000000000\n1\n").unwrap();
    assert_eq!(listed, vec![(0, Instruction::default())]);
}
