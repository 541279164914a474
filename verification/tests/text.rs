use emulator::text::{
    digit, find, is_space, push_binary, push_hex, read_binary, to_chars, to_text, trim,
};

#[test]
fn chars_and_text_are_converted_both_ways() {
    let chars = to_chars("R0 = ¬R1");
    assert_eq!(chars, vec!['R', '0', ' ', '=', ' ', '¬', 'R', '1']);
    assert_eq!(to_text(&chars, 0, chars.len()), "R0 = ¬R1");
    assert_eq!(to_text(&chars, 5, 8), "¬R1");
    assert_eq!(to_text(&chars, 3, 3), "");
    assert_eq!(to_chars(""), Vec::<char>::new());
}

#[test]
fn digits_are_capital_hexadecimal() {
    let digits: String = (0..16).map(digit).collect();
    assert_eq!(digits, "0123456789ABCDEF");
}

#[test]
fn bytes_are_formatted_as_the_formatter_does() {
    for value in 0..=255u8 {
        let mut hex = String::from(">");
        push_hex(&mut hex, value);
        assert_eq!(hex, format!(">{:X}", value));
    }
    for value in 0..32u8 {
        let mut five = String::new();
        push_binary(&mut five, value, 5);
        assert_eq!(five, format!("{:05b}", value));
    }
    for value in 0..16u8 {
        let mut four = String::from("; CF ");
        push_binary(&mut four, value, 4);
        assert_eq!(four, format!("; CF {:04b}", value));
    }
    let mut low = String::new();
    push_binary(&mut low, 0b1110_0101, 3);
    assert_eq!(low, "101");
    push_binary(&mut low, 0b1110_0101, 8);
    assert_eq!(low, "10111100101");
    push_binary(&mut low, 1, 0);
    assert_eq!(low, "10111100101");
}

#[test]
fn the_first_occurrence_is_found() {
    let chars = to_chars("ab#cd#e");
    assert_eq!(find(&chars, 0, chars.len(), '#'), 2);
    assert_eq!(find(&chars, 3, chars.len(), '#'), 5);
    assert_eq!(find(&chars, 0, 2, '#'), 2);
    assert_eq!(find(&chars, 6, chars.len(), '#'), 7);
    assert_eq!(find(&chars, 0, chars.len(), ':'), 7);
    assert_eq!(find(&chars, 4, 4, 'd'), 4);
}

#[test]
fn white_space_is_what_the_standard_library_takes_for_it() {
    for code in 0..=0x10FFFFu32 {
        if let Some(symbol) = char::from_u32(code) {
            assert_eq!(is_space(symbol), symbol.is_whitespace(), "U+{:04X}", code);
        }
    }
}

#[test]
fn trimming_is_what_the_standard_library_does() {
    let texts = [
        "",
        " ",
        "\t\r\n",
        "a",
        "  a",
        "a  ",
        " a b ",
        "\u{a0}x\u{3000}",
        "\u{2003}\u{2028} 0 1 \u{85}",
        "x\u{200b}",
    ];
    for text in texts.iter() {
        let chars = to_chars(text);
        let (first, last) = trim(&chars, 0, chars.len());
        assert_eq!(to_text(&chars, first, last), text.trim());
    }
    let chars = to_chars("ab  cd  ef");
    assert_eq!(trim(&chars, 2, 8), (4, 6));
    assert_eq!(trim(&chars, 2, 4), (4, 4));
    assert_eq!(trim(&chars, 0, 4), (0, 2));
}

#[test]
fn binary_digits_are_read_and_the_rest_is_skipped() {
    let chars = to_chars("x1_0 1|1y");
    assert_eq!(read_binary(&chars, 0, chars.len()), 0b1011);
    assert_eq!(read_binary(&chars, 2, 5), 0);
    assert_eq!(read_binary(&chars, 1, 6), 0b101);
    assert_eq!(read_binary(&chars, 0, 1), 0);
    assert_eq!(read_binary(&chars, 3, 3), 0);
    let ones = to_chars(&"1".repeat(40));
    assert_eq!(read_binary(&ones, 0, 31), 0x7FFF_FFFF);
    assert_eq!(read_binary(&ones, 0, 32), u32::MAX);
    assert_eq!(read_binary(&ones, 0, 40), u32::MAX);
    let power = to_chars(&format!("1{}", "0".repeat(32)));
    assert_eq!(read_binary(&power, 0, 33), u32::MAX);
    assert_eq!(read_binary(&power, 0, 32), 0x8000_0000);
}
