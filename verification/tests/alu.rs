use emulator::alu::{Alu, Flags};

#[test]
fn logic() {
    let a = 0b11010100;
    let b = 0b00101101;

    // pass through a
    assert_eq!(Alu::calculate(0b0000, a, b, false), (a, Flags::new(false, true, false)));
    // pass through b
    assert_eq!(Alu::calculate(0b0001, a, b, false), (b, Flags::new(false, false, false)));
    // return 0
    assert_eq!(Alu::calculate(0b0011, a, b, false), (0, Flags::new(false, false, true)));

    // nor
    assert_eq!(Alu::calculate(0b0010, a, b, false), (0b00000010, Flags::new(false, false, false)));
    // invert (using nor)
    assert_eq!(Alu::calculate(0b0010, a, a, false), (0b00101011, Flags::new(false, false, false)));
    assert_eq!(Alu::calculate(0b0010, b, b, false), (0b11010010, Flags::new(false, true, false)));
}

#[test]
fn addition() {
    // add
    assert_eq!(Alu::calculate(0b0100, 0, 0, false), (0, Flags::new(false, false, true)));
    assert_eq!(Alu::calculate(0b0100, 0, 19, false), (19, Flags::new(false, false, false)));
    assert_eq!(Alu::calculate(0b0100, 47, 0, false), (47, Flags::new(false, false, false)));
    assert_eq!(Alu::calculate(0b0100, 47, 19, false), (66, Flags::new(false, false, false)));
    assert_eq!(Alu::calculate(0b0100, 47, 236, false), (27, Flags::new(true, false, false)));

    // add1 (inverts carry)
    assert_eq!(Alu::calculate(0b0101, 0, 0, false), (1, Flags::new(true, false, false)));
    assert_eq!(Alu::calculate(0b0101, 0, 19, false), (20, Flags::new(true, false, false)));
    assert_eq!(Alu::calculate(0b0101, 47, 0, false), (48, Flags::new(true, false, false)));
    assert_eq!(Alu::calculate(0b0101, 47, 19, false), (67, Flags::new(true, false, false)));
    assert_eq!(Alu::calculate(0b0101, 47, 236, false), (28, Flags::new(false, false, false)));

    // addc
    assert_eq!(Alu::calculate(0b0110, 47, 19, false), (66, Flags::new(false, false, false)));
    assert_eq!(Alu::calculate(0b0110, 47, 19, true), (67, Flags::new(false, false, false)));
    assert_eq!(Alu::calculate(0b0110, 47, 236, false), (27, Flags::new(true, false, false)));
    assert_eq!(Alu::calculate(0b0110, 47, 236, true), (28, Flags::new(true, false, false)));

    // addci (inverts carry)
    assert_eq!(Alu::calculate(0b0111, 47, 19, false), (67, Flags::new(true, false, false)));
    assert_eq!(Alu::calculate(0b0111, 47, 19, true), (66, Flags::new(true, false, false)));
    assert_eq!(Alu::calculate(0b0111, 47, 236, false), (28, Flags::new(false, false, false)));
    assert_eq!(Alu::calculate(0b0111, 47, 236, true), (27, Flags::new(false, false, false)));
}

#[test]
fn shifts() {
    let a = 0b11010100;
    let b = 0b00101101;

    // left shift (using addition)
    assert_eq!(Alu::calculate(0b0100, a, a, false), (0b10101000, Flags::new(true, true, false)));
    assert_eq!(Alu::calculate(0b0100, b, b, false), (0b01011010, Flags::new(false, false, false)));

    // logic right shift
    assert_eq!(Alu::calculate(0b1000, a, 0, false), (0b01101010, Flags::new(false, false, false)));
    assert_eq!(Alu::calculate(0b1000, b, 0, false), (0b00010110, Flags::new(true, false, false)));

    // algebraic right shift
    assert_eq!(Alu::calculate(0b1011, a, 0, false), (0b11101010, Flags::new(false, true, false)));
    assert_eq!(Alu::calculate(0b1011, b, 0, false), (0b00010110, Flags::new(true, false, false)));

    // right rotation
    assert_eq!(Alu::calculate(0b1001, a, 0, false), (0b01101010, Flags::new(false, false, false)));
    assert_eq!(Alu::calculate(0b1001, b, 0, false), (0b10010110, Flags::new(true, true, false)));

    // right carry rotation
    assert_eq!(Alu::calculate(0b1010, a, 0, false), (0b01101010, Flags::new(false, false, false)));
    assert_eq!(Alu::calculate(0b1010, a, 0, true), (0b11101010, Flags::new(false, true, false)));
    assert_eq!(Alu::calculate(0b1010, b, 0, false), (0b00010110, Flags::new(true, false, false)));
    assert_eq!(Alu::calculate(0b1010, b, 0, true), (0b10010110, Flags::new(true, true, false)));
}

#[test]
fn flags() {
    // clear carry
    assert_eq!(Alu::calculate(0b1100, 0, 0, false), (0, Flags::new(false, false, true)));
    assert_eq!(Alu::calculate(0b1100, 0, 0, true), (0, Flags::new(false, false, true)));

    // set carry
    assert_eq!(Alu::calculate(0b1101, 0, 0, false), (0, Flags::new(true, false, true)));
    assert_eq!(Alu::calculate(0b1101, 0, 0, true), (0, Flags::new(true, false, true)));

    // get carry (equal to 0b0011)
    assert_eq!(Alu::calculate(0b1110, 0, 0, false), (0, Flags::new(false, false, true)));
    assert_eq!(Alu::calculate(0b1110, 0, 0, true), (0, Flags::new(true, false, true)));

    // invert carry (equal to 0b0011)
    assert_eq!(Alu::calculate(0b1111, 0, 0, false), (0, Flags::new(true, false, true)));
    assert_eq!(Alu::calculate(0b1111, 0, 0, true), (0, Flags::new(false, false, true)));
}

#[test]
fn pass_through_clears_carry_for_all_operands() {
    for a in 0..=255u8 {
        for b in [0u8, 1, 127, 128, 255] {
            for carry in [false, true] {
                let (first, first_flags) = Alu::calculate(0b0000, a, b, carry);
                let (second, second_flags) = Alu::calculate(0b0001, a, b, carry);
                assert_eq!(first, a);
                assert_eq!(second, b);
                assert!(!first_flags.carry());
                assert!(!second_flags.carry());
            }
        }
    }
}

#[test]
fn nor_of_all_operands() {
    for a in 0..=255u8 {
        for b in 0..=255u8 {
            assert_eq!(Alu::calculate(0b0010, a, b, false).0, !(a | b));
            assert_eq!(Alu::calculate(0b0010, a, b, true).0, !(a | b));
        }
    }
}

#[test]
fn addition_of_all_operands() {
    for a in 0..=255u16 {
        for b in 0..=255u16 {
            let (sum, flags) = Alu::calculate(0b0100, a as u8, b as u8, true);
            assert_eq!(sum as u16, (a + b) % 256);
            assert_eq!(flags.carry(), a + b >= 256);
        }
    }
}

#[test]
fn increments_invert_the_carry() {
    // 255 + 0 + 1 leaves the range in the second step only
    assert_eq!(Alu::calculate(0b0101, 255, 0, false), (0, Flags::new(false, false, true)));
    assert_eq!(Alu::calculate(0b0111, 255, 0, false), (0, Flags::new(false, false, true)));
    assert_eq!(Alu::calculate(0b0111, 255, 0, true), (255, Flags::new(true, true, false)));
    assert_eq!(Alu::calculate(0b0110, 255, 0, true), (0, Flags::new(true, false, true)));
    assert_eq!(Alu::calculate(0b0110, 255, 255, true), (255, Flags::new(true, true, false)));
    assert_eq!(Alu::calculate(0b0101, 255, 255, true), (255, Flags::new(false, true, false)));
}

#[test]
fn logical_shift_of_all_operands() {
    for a in 0..=255u8 {
        let (result, flags) = Alu::calculate(0b1000, a, 77, true);
        assert_eq!(result, a >> 1);
        assert_eq!(flags.carry(), a & 1 == 1);
    }
}

#[test]
fn arithmetic_shift_keeps_the_sign() {
    assert_eq!(
        Alu::calculate(0b1011, 0b10000000, 0, false),
        (0b11000000, Flags::new(false, true, false))
    );
    assert_eq!(Alu::calculate(0b1001, 1, 0, false), (0b10000000, Flags::new(true, true, false)));
}

#[test]
fn negative_and_zero_follow_the_result() {
    for op in 0..16u8 {
        for a in [0u8, 1, 2, 127, 128, 200, 255] {
            for b in [0u8, 1, 128, 255] {
                for carry in [false, true] {
                    let (result, flags) = Alu::calculate(op, a, b, carry);
                    assert_eq!(flags.negative(), result & 0b10000000 != 0);
                    assert_eq!(flags.zero(), result == 0);
                }
            }
        }
    }
}

#[test]
fn default_flags_are_clear() {
    assert_eq!(Flags::default(), Flags::new(false, false, false));
}
