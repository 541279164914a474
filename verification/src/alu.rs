//! The 8 bit ALU of the 2i.
//!
//! The ALU is a pure function of a 4 bit opcode, two operands and the stored
//! carry. [`alu_output`] is its table; [`Alu::calculate`] computes it.

use vstd::prelude::*;

verus! {

/// The flags that the ALU derives from a result.
///
/// They serve conditional jumps and, in the case of the carry, as a further
/// input to the ALU.
#[derive(Copy, Clone, Debug, PartialEq, Eq)]
pub struct Flags {
    pub carry: bool,
    pub negative: bool,
    pub zero: bool,
}

impl Flags {
    pub fn new(carry: bool, negative: bool, zero: bool) -> (flags: Flags)
        ensures
            flags == (Flags { carry, negative, zero }),
    {
        Flags { carry, negative, zero }
    }

    pub fn carry(&self) -> (bit: bool)
        ensures
            bit == self.carry,
    {
        self.carry
    }

    pub fn negative(&self) -> (bit: bool)
        ensures
            bit == self.negative,
    {
        self.negative
    }

    pub fn zero(&self) -> (bit: bool)
        ensures
            bit == self.zero,
    {
        self.zero
    }
}

impl Default for Flags {
    fn default() -> (flags: Flags)
        ensures
            flags == (Flags { carry: false, negative: false, zero: false }),
    {
        Flags { carry: false, negative: false, zero: false }
    }
}

/// The number that the carry input contributes to a sum.
pub open spec fn carry_in(carry: bool) -> int {
    if carry { 1 } else { 0 }
}

/// The result byte of a sum of the two operands and `extra`.
pub open spec fn sum_byte(a: u8, b: u8, extra: int) -> u8 {
    ((a + b + extra) % 256) as u8
}

/// Whether the sum of the two operands and `extra` leaves the 8 bit range.
pub open spec fn sum_overflows(a: u8, b: u8, extra: int) -> bool {
    a + b + extra >= 256
}

/// The result byte of the ALU for every opcode of its table.
pub open spec fn alu_result(op: u8, a: u8, b: u8, carry: bool) -> u8 {
    if op == 0b0000 {
        a
    } else if op == 0b0001 {
        b
    } else if op == 0b0010 {
        !(a | b)
    } else if op == 0b0100 {
        sum_byte(a, b, 0)
    } else if op == 0b0101 {
        sum_byte(a, b, 1)
    } else if op == 0b0110 {
        sum_byte(a, b, carry_in(carry))
    } else if op == 0b0111 {
        sum_byte(a, b, carry_in(!carry))
    } else if op == 0b1000 {
        a >> 1
    } else if op == 0b1001 {
        (a >> 1) | ((a & 1) << 7)
    } else if op == 0b1010 {
        (a >> 1) | (if carry { 0b1000_0000u8 } else { 0u8 })
    } else if op == 0b1011 {
        (a >> 1) | (a & 0b1000_0000)
    } else {
        0
    }
}

/// The carry output of the ALU for every opcode of its table.
///
/// The two increments by one report the carry inverted.
pub open spec fn alu_carry(op: u8, a: u8, b: u8, carry: bool) -> bool {
    if op == 0b0100 {
        sum_overflows(a, b, 0)
    } else if op == 0b0101 {
        !sum_overflows(a, b, 1)
    } else if op == 0b0110 {
        sum_overflows(a, b, carry_in(carry))
    } else if op == 0b0111 {
        !sum_overflows(a, b, carry_in(!carry))
    } else if 0b1000 <= op <= 0b1011 {
        a & 1 != 0
    } else if op == 0b1101 {
        true
    } else if op == 0b1110 {
        carry
    } else if op == 0b1111 {
        !carry
    } else {
        false
    }
}

/// The flags that belong to a result byte and a carry output.
pub open spec fn flags_of(result: u8, carry: bool) -> Flags {
    Flags { carry, negative: result & 0b1000_0000 != 0, zero: result == 0 }
}

/// What the ALU puts out: the result byte and its flags.
pub open spec fn alu_output(op: u8, a: u8, b: u8, carry: bool) -> (u8, Flags) {
    let result = alu_result(op, a, b, carry);
    (result, flags_of(result, alu_carry(op, a, b, carry)))
}

/// Adds the operands and `extra` and reports the unsigned overflow.
fn add_with_overflow(a: u8, b: u8, extra: bool) -> (out: (u8, bool))
    ensures
        out.0 == sum_byte(a, b, carry_in(extra)),
        out.1 == sum_overflows(a, b, carry_in(extra)),
{
    let increment: u16 = if extra { 1 } else { 0 };
    let sum: u16 = a as u16 + b as u16 + increment;
    ((sum % 256) as u8, sum >= 256)
}

/// The ALU of the 2i.
pub struct Alu;

impl Alu {
    /// Executes one ALU operation on two operands.
    ///
    /// Returns the result and the resulting flags. Only the sixteen opcodes
    /// of the table are operations.
    pub fn calculate(instruction: u8, a: u8, b: u8, carry: bool) -> (out: (u8, Flags))
        requires
            instruction < 16,
        ensures
            out == alu_output(instruction, a, b, carry),
            out.1.negative <==> out.0 & 0b1000_0000 != 0,
            out.1.zero <==> out.0 == 0,
    {
        let (result, carry_out): (u8, bool) = if instruction == 0b0000 {
            (a, false)
        } else if instruction == 0b0001 {
            (b, false)
        } else if instruction == 0b0010 {
            (!(a | b), false)
        } else if instruction == 0b0011 {
            (0, false)
        } else if instruction == 0b0100 {
            add_with_overflow(a, b, false)
        } else if instruction == 0b0101 {
            let (sum, overflow) = add_with_overflow(a, b, true);
            (sum, !overflow)
        } else if instruction == 0b0110 {
            add_with_overflow(a, b, carry)
        } else if instruction == 0b0111 {
            let (sum, overflow) = add_with_overflow(a, b, !carry);
            (sum, !overflow)
        } else if instruction == 0b1000 {
            (a >> 1, a & 1 != 0)
        } else if instruction == 0b1001 {
            ((a >> 1) | ((a & 1) << 7), a & 1 != 0)
        } else if instruction == 0b1010 {
            ((a >> 1) | (if carry { 0b1000_0000u8 } else { 0u8 }), a & 1 != 0)
        } else if instruction == 0b1011 {
            ((a >> 1) | (a & 0b1000_0000), a & 1 != 0)
        } else if instruction == 0b1100 {
            (0, false)
        } else if instruction == 0b1101 {
            (0, true)
        } else if instruction == 0b1110 {
            (0, carry)
        } else {
            (0, !carry)
        };
        let negative = result & 0b1000_0000 != 0;
        let zero = result == 0;
        (result, Flags::new(carry_out, negative, zero))
    }
}

/// The opcodes 0 and 1 hand operand A and operand B through and clear the
/// carry, whatever the other operand and the carry input are.
pub proof fn law_pass_through(a: u8, b: u8, carry: bool)
    ensures
        alu_output(0b0000, a, b, carry).0 == a,
        alu_output(0b0001, a, b, carry).0 == b,
        !alu_output(0b0000, a, b, carry).1.carry,
        !alu_output(0b0001, a, b, carry).1.carry,
{
}

/// Opcode 2 is the bitwise NOR: a bit of the result is set where neither
/// operand has it set. The carry input has no part in it.
pub proof fn law_nor(a: u8, b: u8, carry: bool)
    ensures
        alu_output(0b0010, a, b, carry).0 == !(a | b),
        alu_output(0b0010, a, b, carry).0 & (a | b) == 0,
        alu_output(0b0010, a, b, carry).0 | (a | b) == 0xff,
        alu_output(0b0010, a, b, carry) == alu_output(0b0010, a, b, !carry),
{
    let result = !(a | b);
    assert(result & (a | b) == 0 && result | (a | b) == 0xff) by (bit_vector)
        requires
            result == !(a | b),
    ;
}

/// Opcode 4 adds the operands modulo 256 and sets the carry exactly when the
/// sum leaves the 8 bit range. The carry input has no part in it.
pub proof fn law_addition(a: u8, b: u8, carry: bool)
    ensures
        alu_output(0b0100, a, b, carry).0 == (a + b) % 256,
        alu_output(0b0100, a, b, carry).1.carry <==> a + b >= 256,
        alu_output(0b0100, a, b, carry) == alu_output(0b0100, a, b, !carry),
{
}

/// The carry of the two increments, opcode 5 and opcode 7, is the inverted
/// overflow of a sum in two steps: first the operands, then the increment on
/// the byte that the first step left.
pub proof fn law_two_step_carry(a: u8, b: u8, carry: bool)
    ensures
        alu_output(0b0101, a, b, carry).1.carry <==> !(sum_overflows(a, b, 0) || sum_byte(a, b, 0)
            + 1 >= 256),
        alu_output(0b0111, a, b, carry).1.carry <==> !(sum_overflows(a, b, 0) || sum_byte(a, b, 0)
            + carry_in(!carry) >= 256),
        alu_output(0b0110, a, b, carry).1.carry <==> (sum_overflows(a, b, 0) || sum_byte(a, b, 0)
            + carry_in(carry) >= 256),
        alu_output(0b0101, a, b, carry).0 == (sum_byte(a, b, 0) + 1) % 256,
        alu_output(0b0111, a, b, carry).0 == (sum_byte(a, b, 0) + carry_in(!carry)) % 256,
        alu_output(0b0110, a, b, carry).0 == (sum_byte(a, b, 0) + carry_in(carry)) % 256,
{
}

/// Opcode 8 shifts operand A right by one bit and fills with zero: it halves
/// the operand. The bit that leaves is the carry. Operand B and the carry
/// input have no part in it.
pub proof fn law_shift_right(a: u8, b: u8, carry: bool)
    ensures
        alu_output(0b1000, a, b, carry).0 == a >> 1,
        alu_output(0b1000, a, b, carry).0 == a / 2,
        alu_output(0b1000, a, b, carry).1.carry <==> a & 1 == 1,
        alu_output(0b1000, a, b, carry).1.carry <==> a % 2 == 1,
{
    assert(a >> 1 == a / 2 && (a & 1 == 1 <==> a % 2 == 1) && (a & 1 != 0 <==> a & 1 == 1))
        by (bit_vector);
}

/// The other three shifts differ from opcode 8 in the highest bit of the
/// result alone: the bit that left (rotate), the carry input, or the sign of
/// the operand, which the arithmetic shift keeps.
pub proof fn law_shift_fill(a: u8, b: u8, carry: bool)
    ensures
        alu_output(0b1001, a, b, carry).0 == a / 2 + (if a % 2 == 1 { 128int } else { 0 }),
        alu_output(0b1010, a, b, carry).0 == a / 2 + (if carry { 128int } else { 0 }),
        alu_output(0b1011, a, b, carry).0 == a / 2 + (if a >= 128 { 128int } else { 0 }),
{
    assert(((a >> 1) | ((a & 1) << 7)) == a / 2 + (if a % 2 == 1 { 128u8 } else { 0u8 }))
        by (bit_vector);
    assert(((a >> 1) | 0b1000_0000u8) == a / 2 + 128u8 && ((a >> 1) | 0u8) == a / 2)
        by (bit_vector);
    assert(((a >> 1) | (a & 0b1000_0000)) == a / 2 + (if a >= 128 { 128u8 } else { 0u8 }))
        by (bit_vector);
    assert(a / 2 < 128);
}

/// For every opcode: the negative flag is bit 7 of the result, and the zero
/// flag says that the result is zero.
pub proof fn law_flags(op: u8, a: u8, b: u8, carry: bool)
    ensures
        alu_output(op, a, b, carry).1.negative <==> alu_output(op, a, b, carry).0 >= 128,
        alu_output(op, a, b, carry).1.negative <==> alu_output(op, a, b, carry).0 & 0b1000_0000
            != 0,
        alu_output(op, a, b, carry).1.zero <==> alu_output(op, a, b, carry).0 == 0,
{
    let result = alu_output(op, a, b, carry).0;
    assert(result & 0b1000_0000 != 0 <==> result >= 128) by (bit_vector);
}

} // verus!
