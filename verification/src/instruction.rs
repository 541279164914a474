//! The 25 bit microinstruction of the 2i.
//!
//! An [`Instruction`] is a value. Its fields are bit ranges of the raw word;
//! the spec functions of this module name each field as the hardware does
//! (`MCHFLG`, `MALUS`, ... `MAC`), and the accessors of the type compute them.

use vstd::prelude::*;
use vstd::arithmetic::power2::*;
use crate::error::Error;
use crate::text::{binary_number, is_binary, lemma_binary_number_bound, to_chars};

verus! {

/// The number of raw words that are instructions: two to the power of 25.
pub const INSTRUCTION_LIMIT: u32 = 0x200_0000;

/// The bit of `raw` at `position`.
pub open spec fn bit_at(raw: u32, position: u32) -> bool {
    (raw >> position) & 1 == 1
}

/// The bits of `raw` from `position` upwards that `mask` selects.
pub open spec fn bits_at(raw: u32, mask: u32, position: u32) -> u32 {
    (raw >> position) & mask
}

/// MCHFLG, bit 0: store the flags of the ALU in the flag register.
pub open spec fn mchflg(raw: u32) -> bool {
    bit_at(raw, 0)
}

/// MALUS, bits 1 to 4: the opcode of the ALU.
pub open spec fn malus(raw: u32) -> u32 {
    bits_at(raw, 0b1111, 1)
}

/// MALUIB, bit 5: input B of the ALU is the constant, not register B.
pub open spec fn maluib(raw: u32) -> bool {
    bit_at(raw, 5)
}

/// MALUIA, bit 6: input A of the ALU is the bus, not register A.
pub open spec fn maluia(raw: u32) -> bool {
    bit_at(raw, 6)
}

/// MRGWE, bit 7: write the result back to a register.
pub open spec fn mrgwe(raw: u32) -> bool {
    bit_at(raw, 7)
}

/// MRGWS, bit 8: the register written is register B, not register A.
pub open spec fn mrgws(raw: u32) -> bool {
    bit_at(raw, 8)
}

/// MRGAB, bits 9 to 12: the 4 bit constant.
pub open spec fn mrgab(raw: u32) -> u32 {
    bits_at(raw, 0b1111, 9)
}

/// The lower three bits of MRGAB: the address of register B.
pub open spec fn register_b(raw: u32) -> u32 {
    bits_at(raw, 0b111, 9)
}

/// MRGAA, bits 13 to 15: the address of register A.
pub open spec fn mrgaa(raw: u32) -> u32 {
    bits_at(raw, 0b111, 13)
}

/// BUSEN, bit 16: the bus is enabled.
pub open spec fn busen(raw: u32) -> bool {
    bit_at(raw, 16)
}

/// BUSWR, bit 17: the bus access is a write.
pub open spec fn buswr(raw: u32) -> bool {
    bit_at(raw, 17)
}

/// NA, bits 18 to 22: the base address of the next instruction.
pub open spec fn na(raw: u32) -> u32 {
    bits_at(raw, 0b11111, 18)
}

/// MAC, bits 23 and 24: the address control, which selects the branch
/// condition.
pub open spec fn mac(raw: u32) -> u32 {
    bits_at(raw, 0b11, 23)
}

/// A 4 bit constant extended to 8 bits: bit 3 is copied to the bits 4 to 7.
pub open spec fn sign_extend4(constant: u32) -> u32 {
    if constant & 0b1000 != 0 {
        constant | 0b1111_0000
    } else {
        constant
    }
}

/// The constant input of the ALU: MRGAB, sign extended.
pub open spec fn constant_input(raw: u32) -> u32 {
    sign_extend4(mrgab(raw))
}

/// MAC and the lowest bit of NA, as one 3 bit tag for the branch selector.
pub open spec fn full_address_control(raw: u32) -> u32 {
    (mac(raw) << 1) | (na(raw) & 1)
}

/// What building an instruction from a raw word gives: the word itself, if
/// no bit above bit 24 is set.
pub open spec fn from_word(word: u32) -> Result<u32, Error> {
    if word < INSTRUCTION_LIMIT {
        Ok(word)
    } else {
        Err(Error::Instruction("Given u32 too large (more then 25 bit)"))
    }
}

/// What building an instruction from a text gives: the number that the text
/// denotes, if it has between 1 and 25 characters and all are binary digits.
pub open spec fn from_text(text: Seq<char>) -> Result<u32, Error> {
    if text.len() > 25 {
        Err(Error::Instruction("Given str too large (more then 25 bit)"))
    } else if text.len() == 0 || !is_binary(text) {
        Err(Error::Instruction("Error parsing the given str"))
    } else {
        Ok(binary_number(text) as u32)
    }
}

/// What building a looping instruction gives: NA is the address, every other
/// field is zero.
pub open spec fn looping_at(address: usize) -> Result<u32, Error> {
    if address < 32 {
        Ok((address as u32) << 18)
    } else {
        Err(Error::Instruction("Given address to large"))
    }
}

/// An instruction of the 2i.
///
/// A 25 bit word; the upper seven bits of the `u32` that holds it are always
/// zero.
#[derive(Copy, Clone, Debug, PartialEq)]
pub struct Instruction {
    instruction: u32,
}

impl View for Instruction {
    type V = u32;

    closed spec fn view(&self) -> u32 {
        self.instruction
    }
}

impl Default for Instruction {
    /// The zero instruction, which fills the unused slots of a program.
    fn default() -> (zero: Instruction)
        ensures
            zero@ == 0,
    {
        Instruction { instruction: 0 }
    }
}

impl Instruction {
    #[verifier::type_invariant]
    spec fn within_limit(self) -> bool {
        self.instruction < INSTRUCTION_LIMIT
    }

    /// Creates an instruction from a raw word. Fails if a bit above bit 24
    /// is set.
    pub fn new(instruction: u32) -> (made: Result<Instruction, Error>)
        ensures
            match from_word(instruction) {
                Ok(raw) => made matches Ok(inst) && inst@ == raw,
                Err(e) => made == Err::<Instruction, Error>(e),
            },
    {
        if instruction >= INSTRUCTION_LIMIT {
            Err(Error::Instruction("Given u32 too large (more then 25 bit)"))
        } else {
            Ok(Instruction { instruction })
        }
    }

    /// Creates an instruction from a text of binary digits, the highest bit
    /// first. Fails on an empty text, on more than 25 characters and on any
    /// other character.
    pub fn new_from_string(string: &str) -> (made: Result<Instruction, Error>)
        ensures
            match from_text(string@) {
                Ok(raw) => made matches Ok(inst) && inst@ == raw,
                Err(e) => made == Err::<Instruction, Error>(e),
            },
    {
        let digits = to_chars(string);
        if digits.len() > 25 {
            return Err(Error::Instruction("Given str too large (more then 25 bit)"));
        }
        if digits.len() == 0 {
            return Err(Error::Instruction("Error parsing the given str"));
        }
        let mut value: u32 = 0;
        let mut i: usize = 0;
        while i < digits.len()
            invariant
                i <= digits.len() <= 25,
                digits@ == string@,
                is_binary(digits@.take(i as int)),
                value == binary_number(digits@.take(i as int)),
            decreases digits.len() - i,
        {
            let symbol = digits[i];
            if symbol != '0' && symbol != '1' {
                return Err(Error::Instruction("Error parsing the given str"));
            }
            proof {
                let before = digits@.take(i as int);
                let after = digits@.take(i + 1);
                assert(after.drop_last() == before);
                assert(after.last() == symbol);
                lemma_binary_number_bound(before);
                lemma_pow2_strictly_increases(i as nat, 25);
                lemma2_to64();
            }
            value = 2 * value + (if symbol == '1' { 1 } else { 0 });
            i += 1;
        }
        proof {
            assert(digits@.take(digits.len() as int) == digits@);
            lemma_binary_number_bound(digits@);
            if digits.len() < 25 {
                lemma_pow2_strictly_increases(digits.len() as nat, 25);
            }
            lemma2_to64();
        }
        Ok(Instruction { instruction: value })
    }

    /// Creates the instruction that jumps to `address` and does nothing
    /// else. Placed at `address`, it loops.
    pub fn new_looping(address: usize) -> (made: Result<Instruction, Error>)
        ensures
            match looping_at(address) {
                Ok(raw) => made matches Ok(inst) && inst@ == raw,
                Err(e) => made == Err::<Instruction, Error>(e),
            },
    {
        if address < 32 {
            let base = address as u32;
            assert(base << 18 < 0x200_0000) by (bit_vector)
                requires
                    base < 32,
            ;
            Ok(Instruction { instruction: base << 18 })
        } else {
            Err(Error::Instruction("Given address to large"))
        }
    }

    /// The instruction as a 25 bit word.
    pub fn get_instruction(&self) -> (raw: u32)
        ensures
            raw == self@,
            raw < INSTRUCTION_LIMIT,
    {
        proof {
            use_type_invariant(self);
        }
        self.instruction
    }

    /// MCHFLG
    pub fn should_store_flags(&self) -> (bit: bool)
        ensures
            bit == mchflg(self@),
    {
        self.extract_bit(0)
    }

    /// MALUS0-3 (4 bit)
    pub fn get_alu_instruction(&self) -> (bits: u8)
        ensures
            bits == malus(self@),
            bits < 16,
    {
        self.extract_bit_pattern(0b1111, 1)
    }

    /// MALUIB
    pub fn is_alu_input_b_const(&self) -> (bit: bool)
        ensures
            bit == maluib(self@),
    {
        self.extract_bit(5)
    }

    /// MALUIA
    pub fn is_alu_input_a_bus(&self) -> (bit: bool)
        ensures
            bit == maluia(self@),
    {
        self.extract_bit(6)
    }

    /// MRGWE
    pub fn should_write_register(&self) -> (bit: bool)
        ensures
            bit == mrgwe(self@),
    {
        self.extract_bit(7)
    }

    /// MRGWS
    pub fn should_write_register_b(&self) -> (bit: bool)
        ensures
            bit == mrgws(self@),
    {
        self.extract_bit(8)
    }

    /// MRGAB0-2 (3 bit)
    pub fn get_register_address_b(&self) -> (address: usize)
        ensures
            address == register_b(self@),
            address < 8,
    {
        self.extract_bit_pattern(0b111, 9) as usize
    }

    /// MRGAB0-3 (4 bit), sign extended to 8 bit
    pub fn get_constant_input(&self) -> (constant: u8)
        ensures
            constant == constant_input(self@),
    {
        let c = self.extract_bit_pattern(0b1111, 9);
        let ghost wide = mrgab(self@);
        if c & 0b1000 != 0 {
            assert(wide & 0b1000 != 0 && (c | 0b1111_0000) == wide | 0b1111_0000) by (bit_vector)
                requires
                    c == wide,
                    c & 0b1000 != 0,
            ;
            c | 0b1111_0000
        } else {
            assert(wide & 0b1000 == 0) by (bit_vector)
                requires
                    c == wide,
                    c & 0b1000 == 0,
            ;
            c
        }
    }

    /// MRGAA0-2 (3 bit)
    pub fn get_register_address_a(&self) -> (address: usize)
        ensures
            address == mrgaa(self@),
            address < 8,
    {
        self.extract_bit_pattern(0b111, 13) as usize
    }

    /// BUSEN
    pub fn is_bus_enabled(&self) -> (bit: bool)
        ensures
            bit == busen(self@),
    {
        self.extract_bit(16)
    }

    /// BUSWR
    pub fn is_bus_writable(&self) -> (bit: bool)
        ensures
            bit == buswr(self@),
    {
        self.extract_bit(17)
    }

    /// NA0-4 (5 bit)
    pub fn get_next_instruction_address(&self) -> (address: u8)
        ensures
            address == na(self@),
            address < 32,
    {
        self.extract_bit_pattern(0b11111, 18)
    }

    /// MAC0-1 (2 bit)
    pub fn get_address_control(&self) -> (control: u8)
        ensures
            control == mac(self@),
            control < 4,
    {
        self.extract_bit_pattern(0b11, 23)
    }

    /// MAC1-0 and NA0 (3 bit)
    pub fn get_full_address_control(&self) -> (control: u8)
        ensures
            control == full_address_control(self@),
            control < 8,
    {
        let control = self.get_address_control();
        let low = self.get_next_instruction_address();
        let ghost wide_control = mac(self@);
        let ghost wide_low = na(self@);
        assert(((control << 1) | (low & 1)) == ((wide_control << 1) | (wide_low & 1)) && ((control
            << 1) | (low & 1)) < 8) by (bit_vector)
            requires
                control == wide_control,
                low == wide_low,
                control < 4,
        ;
        (control << 1) | (low & 1)
    }

    /// The bit at `position`.
    pub fn extract_bit(&self, position: u8) -> (bit: bool)
        requires
            position < 32,
        ensures
            bit == bit_at(self@, position as u32),
    {
        (self.instruction >> position) & 1 == 1
    }

    /// The bits from `position` upwards that `mask` selects.
    pub fn extract_bit_pattern(&self, mask: u8, position: u8) -> (bits: u8)
        requires
            position < 32,
        ensures
            bits == bits_at(self@, mask as u32, position as u32),
            bits <= mask,
    {
        let raw = self.instruction;
        let wide_mask = mask as u32;
        let shift = position as u32;
        let bits = (raw >> shift) & wide_mask;
        assert(bits <= wide_mask) by (bit_vector)
            requires
                bits == (raw >> shift) & wide_mask,
        ;
        bits as u8
    }
}

/// A text of up to 25 binary digits and the number that it denotes build
/// the same instruction: every such text is accepted, and so is its number.
pub proof fn law_text_and_word_agree(text: Seq<char>)
    requires
        0 < text.len() <= 25,
        is_binary(text),
    ensures
        binary_number(text) < INSTRUCTION_LIMIT,
        from_text(text) == from_word(binary_number(text) as u32),
        from_text(text) is Ok,
{
    lemma_binary_number_bound(text);
    if text.len() < 25 {
        lemma_pow2_strictly_increases(text.len(), 25);
    }
    lemma2_to64();
}

/// The sign extended constant as a number: the constants from 8 on stand
/// for the negative numbers from -8 to -1, which are 248 to 255 as bytes.
pub proof fn law_sign_extension(constant: u32)
    requires
        constant < 16,
    ensures
        sign_extend4(constant) == if constant >= 8 {
            constant + 240
        } else {
            constant as int
        },
        sign_extend4(constant) & 0b1111 == constant,
{
    assert(sign_extend4(constant) == (if constant >= 8 {
        (constant + 240) as u32
    } else {
        constant
    }) && sign_extend4(constant) & 0b1111 == constant) by (bit_vector)
        requires
            constant < 16,
    ;
}

/// The fields of every word are within the range of their bits, and the
/// register address B is the constant without its highest bit.
pub proof fn law_field_ranges(raw: u32)
    ensures
        malus(raw) < 16,
        mrgab(raw) < 16,
        register_b(raw) < 8,
        register_b(raw) == mrgab(raw) % 8,
        mrgaa(raw) < 8,
        na(raw) < 32,
        mac(raw) < 4,
        constant_input(raw) < 256,
        full_address_control(raw) < 8,
        full_address_control(raw) == 2 * mac(raw) + na(raw) % 2,
{
    assert(malus(raw) < 16 && mrgab(raw) < 16 && register_b(raw) < 8 && register_b(raw) == mrgab(
        raw,
    ) % 8 && mrgaa(raw) < 8 && na(raw) < 32 && mac(raw) < 4) by (bit_vector);
    assert(constant_input(raw) < 256) by (bit_vector);
    assert(full_address_control(raw) < 8 && full_address_control(raw) == 2 * mac(raw) + na(raw)
        % 2) by (bit_vector);
}

/// A bit at its position in a word.
pub open spec fn bit_in(bit: bool, position: u32) -> u32 {
    if bit {
        1u32 << position
    } else {
        0
    }
}

/// The fields of an instruction make up its word: no bit of a 25 bit word
/// lies outside the twelve fields, and no two fields share a bit.
pub proof fn law_fields_make_the_word(raw: u32)
    requires
        raw < INSTRUCTION_LIMIT,
    ensures
        raw == bit_in(mchflg(raw), 0) + (malus(raw) << 1) + bit_in(maluib(raw), 5) + bit_in(
            maluia(raw),
            6,
        ) + bit_in(mrgwe(raw), 7) + bit_in(mrgws(raw), 8) + (mrgab(raw) << 9) + (mrgaa(raw) << 13)
            + bit_in(busen(raw), 16) + bit_in(buswr(raw), 17) + (na(raw) << 18) + (mac(raw) << 23),
{
    assert(raw == bit_in(mchflg(raw), 0) + (malus(raw) << 1) + bit_in(maluib(raw), 5) + bit_in(
        maluia(raw),
        6,
    ) + bit_in(mrgwe(raw), 7) + bit_in(mrgws(raw), 8) + (mrgab(raw) << 9) + (mrgaa(raw) << 13)
        + bit_in(busen(raw), 16) + bit_in(buswr(raw), 17) + (na(raw) << 18) + (mac(raw) << 23))
        by (bit_vector)
        requires
            raw < 0x200_0000,
    ;
}

/// A looping instruction holds its address in NA and nothing in any other
/// field.
pub proof fn law_looping_fields(address: usize)
    requires
        address < 32,
    ensures
        looping_at(address) matches Ok(raw) && raw < INSTRUCTION_LIMIT && na(raw) == address
            && mac(raw) == 0 && raw & !(0b11111u32 << 18) == 0,
{
    let base = address as u32;
    let raw = base << 18;
    assert(raw < 0x200_0000 && (raw >> 18) & 0b11111 == base && (raw >> 23) & 0b11 == 0 && raw & !(
    0b11111u32 << 18) == 0) by (bit_vector)
        requires
            base < 32,
            raw == base << 18,
    ;
}

} // verus!
