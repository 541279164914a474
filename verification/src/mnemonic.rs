//! The mnemonic of an instruction: one line of text that says what the
//! instruction does.
//!
//! [`mnemonic`] is the text as a sequence of characters, built from the
//! parts that the other spec functions of this module name;
//! [`Instruction::to_mnemonic`] computes it.

use vstd::prelude::*;
use vstd::string::*;
use crate::instruction::{
    busen, buswr, constant_input, full_address_control, mac, malus, maluia, maluib, mchflg, mrgaa,
    mrgwe, mrgws, na, register_b, Instruction,
};
use crate::text::{binary_text, digit, digit_char, hex_text, push_binary, push_hex};

verus! {

/// The bits of an instruction that lie outside MCHFLG, NA and MAC: the
/// fields of the ALU, the registers and the bus.
pub const DATAPATH_BITS: u32 = 0b0000000111111111111111110;

/// The name of a register: `R` and its number.
pub open spec fn register_text(index: u32) -> Seq<char> {
    "R"@.push(digit_char(index as int))
}

/// Operand A: register A, in brackets where the bus is read at its address.
pub open spec fn operand_a_text(raw: u32) -> Seq<char> {
    if maluia(raw) {
        "("@ + register_text(mrgaa(raw)) + ")"@
    } else {
        register_text(mrgaa(raw))
    }
}

/// Operand B: the constant in hexadecimal digits, or register B.
pub open spec fn operand_b_text(raw: u32) -> Seq<char> {
    if maluib(raw) {
        hex_text(constant_input(raw) as u8)
    } else {
        register_text(register_b(raw))
    }
}

/// What the ALU computes, as an expression over the two operands. Where both
/// operands read the same, a sum is written as a shift and the NOR as a
/// negation.
pub open spec fn operation_text(raw: u32) -> Seq<char> {
    let a = operand_a_text(raw);
    let b = operand_b_text(raw);
    let op = malus(raw);
    if op == 0b0000 {
        if a == b {
            a + " << 1; HLDC"@
        } else {
            a + " + "@ + b + "; HLDC"@
        }
    } else if op == 0b0001 {
        a
    } else if op == 0b0010 {
        if a == b {
            "¬"@ + a
        } else {
            a + " NOR "@ + b
        }
    } else if op == 0b0011 {
        "0"@
    } else if op == 0b0100 {
        if a == b {
            a + " << 1"@
        } else {
            a + " + "@ + b
        }
    } else if op == 0b0101 {
        if a == b {
            "("@ + a + " << 1) + 1"@
        } else {
            a + " + "@ + b + " + 1"@
        }
    } else if op == 0b0110 {
        if a == b {
            "("@ + a + " << 1) + C"@
        } else {
            a + " + "@ + b + " + C"@
        }
    } else if op == 0b0111 {
        if a == b {
            "("@ + a + " << 1) + ¬C"@
        } else {
            a + " + "@ + b + " + ¬C"@
        }
    } else if op == 0b1000 {
        a + " >> 1"@
    } else if op == 0b1001 {
        a + " R> 1"@
    } else if op == 0b1010 {
        a + " C> 1"@
    } else if op == 0b1011 {
        a + " ?> 1"@
    } else if op == 0b1100 {
        b
    } else if op == 0b1101 {
        b + "; SETC"@
    } else if op == 0b1110 {
        b + "; HLDC"@
    } else {
        b + "; INVC"@
    }
}

/// The register that the result is written to.
pub open spec fn target_text(raw: u32) -> Seq<char> {
    if mrgws(raw) {
        register_text(register_b(raw))
    } else {
        register_text(mrgaa(raw))
    }
}

/// Where the result goes: to the bus, to the bus and a register, to a
/// register, or nowhere (`TEST`).
pub open spec fn destination_text(raw: u32) -> Seq<char> {
    if busen(raw) && buswr(raw) {
        if mrgwe(raw) {
            "("@ + register_text(mrgaa(raw)) + "),"@ + target_text(raw) + " = "@
        } else {
            "("@ + register_text(mrgaa(raw)) + ") = "@
        }
    } else if mrgwe(raw) {
        target_text(raw) + " = "@
    } else {
        "TEST "@
    }
}

/// Whether an unconditional instruction at `address` goes on to the address
/// that follows.
pub open spec fn goes_on(raw: u32, address: Option<usize>) -> bool {
    mac(raw) == 0 && (address matches Some(a) && a + 1 == na(raw))
}

/// Whether an unconditional instruction at `address` jumps to itself.
pub open spec fn loops(raw: u32, address: Option<usize>) -> bool {
    mac(raw) == 0 && (address matches Some(a) && a == na(raw))
}

/// The name of a conditional branch and the letter that stands for the bit
/// that the condition decides, for the tags 2 to 7 of the full address
/// control.
pub open spec fn condition_text(control: u32) -> (Seq<char>, Seq<char>) {
    if control == 0b010 {
        ("; INTA "@, "I"@)
    } else if control == 0b011 {
        ("; CF "@, "C"@)
    } else if control == 0b100 {
        ("; CO "@, "C"@)
    } else if control == 0b101 {
        ("; ZO "@, "Z"@)
    } else if control == 0b110 {
        ("; NO "@, "N"@)
    } else {
        ("; INTB "@, "I"@)
    }
}

/// Where the instruction goes next: nothing where it goes on to the address
/// that follows, `LOOP` where it jumps to itself, else the jump with its
/// target in binary digits or the branch with its condition.
pub open spec fn branch_text(raw: u32, address: Option<usize>) -> Seq<char> {
    let control = full_address_control(raw);
    if goes_on(raw, address) {
        Seq::empty()
    } else if loops(raw, address) {
        "; LOOP"@
    } else if control == 0b000 || control == 0b001 {
        "; JMP "@ + binary_text(na(raw) as int, 5)
    } else {
        condition_text(control).0 + binary_text(na(raw) as int / 2, 4) + condition_text(control).1
    }
}

/// The note that the instruction stores the flags.
pub open spec fn flags_text(raw: u32) -> Seq<char> {
    if mchflg(raw) {
        "; CHFL"@
    } else {
        Seq::empty()
    }
}

/// Whether the instruction reads as `NOP`: nothing but MCHFLG and NA is
/// set. An instruction that branches is never one, also where it branches on
/// an interrupt.
pub open spec fn is_nop(raw: u32) -> bool {
    raw & DATAPATH_BITS == 0 && mac(raw) == 0b00
}

/// The mnemonic of the instruction `raw`, which stands at `address` in its
/// program if an address is given.
pub open spec fn mnemonic(raw: u32, address: Option<usize>) -> Seq<char> {
    if is_nop(raw) {
        "NOP"@ + branch_text(raw, address) + flags_text(raw)
    } else {
        destination_text(raw) + operation_text(raw) + branch_text(raw, address) + flags_text(raw)
    }
}

/// Appends the name of register `index`.
fn push_register(text: &mut String, index: usize)
    requires
        index < 8,
    ensures
        final(text)@ == old(text)@ + register_text(index as u32),
{
    text.append("R");
    text.push(digit(index as u8));
}

impl Instruction {
    fn operand_a(&self) -> (text: String)
        ensures
            text@ == operand_a_text(self@),
    {
        let mut text = String::new();
        if self.is_alu_input_a_bus() {
            text.append("(");
            push_register(&mut text, self.get_register_address_a());
            text.append(")");
        } else {
            push_register(&mut text, self.get_register_address_a());
        }
        text
    }

    fn operand_b(&self) -> (text: String)
        ensures
            text@ == operand_b_text(self@),
    {
        let mut text = String::new();
        if self.is_alu_input_b_const() {
            push_hex(&mut text, self.get_constant_input());
        } else {
            push_register(&mut text, self.get_register_address_b());
        }
        text
    }

    fn push_operation(&self, text: &mut String)
        ensures
            final(text)@ == old(text)@ + operation_text(self@),
    {
        let a = self.operand_a();
        let b = self.operand_b();
        let same = a == b;
        let op = self.get_alu_instruction();
        if op == 0b0000 {
            text.append(a.as_str());
            if same {
                text.append(" << 1; HLDC");
            } else {
                text.append(" + ");
                text.append(b.as_str());
                text.append("; HLDC");
            }
        } else if op == 0b0001 {
            text.append(a.as_str());
        } else if op == 0b0010 {
            if same {
                text.append("¬");
                text.append(a.as_str());
            } else {
                text.append(a.as_str());
                text.append(" NOR ");
                text.append(b.as_str());
            }
        } else if op == 0b0011 {
            text.append("0");
        } else if op == 0b0100 {
            text.append(a.as_str());
            if same {
                text.append(" << 1");
            } else {
                text.append(" + ");
                text.append(b.as_str());
            }
        } else if op == 0b0101 || op == 0b0110 || op == 0b0111 {
            if same {
                text.append("(");
                text.append(a.as_str());
                if op == 0b0101 {
                    text.append(" << 1) + 1");
                } else if op == 0b0110 {
                    text.append(" << 1) + C");
                } else {
                    text.append(" << 1) + ¬C");
                }
            } else {
                text.append(a.as_str());
                text.append(" + ");
                text.append(b.as_str());
                if op == 0b0101 {
                    text.append(" + 1");
                } else if op == 0b0110 {
                    text.append(" + C");
                } else {
                    text.append(" + ¬C");
                }
            }
        } else if op == 0b1000 {
            text.append(a.as_str());
            text.append(" >> 1");
        } else if op == 0b1001 {
            text.append(a.as_str());
            text.append(" R> 1");
        } else if op == 0b1010 {
            text.append(a.as_str());
            text.append(" C> 1");
        } else if op == 0b1011 {
            text.append(a.as_str());
            text.append(" ?> 1");
        } else {
            text.append(b.as_str());
            if op == 0b1101 {
                text.append("; SETC");
            } else if op == 0b1110 {
                text.append("; HLDC");
            } else if op == 0b1111 {
                text.append("; INVC");
            }
        }
        assert(text@ =~= old(text)@ + operation_text(self@));
    }

    fn push_target(&self, text: &mut String)
        ensures
            final(text)@ == old(text)@ + target_text(self@),
    {
        if self.should_write_register_b() {
            push_register(text, self.get_register_address_b());
        } else {
            push_register(text, self.get_register_address_a());
        }
    }

    fn push_destination(&self, text: &mut String)
        ensures
            final(text)@ == old(text)@ + destination_text(self@),
    {
        if self.is_bus_enabled() && self.is_bus_writable() {
            text.append("(");
            push_register(text, self.get_register_address_a());
            if self.should_write_register() {
                text.append("),");
                self.push_target(text);
                text.append(" = ");
            } else {
                text.append(") = ");
            }
        } else if self.should_write_register() {
            self.push_target(text);
            text.append(" = ");
        } else {
            text.append("TEST ");
        }
        assert(text@ =~= old(text)@ + destination_text(self@));
    }

    fn push_branch(&self, text: &mut String, address: Option<usize>)
        ensures
            final(text)@ == old(text)@ + branch_text(self@, address),
    {
        let next_address = self.get_next_instruction_address();
        let unconditional = self.get_address_control() == 0;
        let goes_on = unconditional && match address {
            Some(a) => a < 32 && a + 1 == next_address as usize,
            None => false,
        };
        let loops = unconditional && match address {
            Some(a) => a == next_address as usize,
            None => false,
        };
        if goes_on {
        } else if loops {
            text.append("; LOOP");
        } else {
            let control = self.get_full_address_control();
            if control == 0b000 || control == 0b001 {
                text.append("; JMP ");
                push_binary(text, next_address, 5);
            } else {
                if control == 0b010 {
                    text.append("; INTA ");
                } else if control == 0b011 {
                    text.append("; CF ");
                } else if control == 0b100 {
                    text.append("; CO ");
                } else if control == 0b101 {
                    text.append("; ZO ");
                } else if control == 0b110 {
                    text.append("; NO ");
                } else {
                    text.append("; INTB ");
                }
                push_binary(text, next_address / 2, 4);
                if control == 0b010 || control == 0b111 {
                    text.append("I");
                } else if control == 0b011 || control == 0b100 {
                    text.append("C");
                } else if control == 0b101 {
                    text.append("Z");
                } else {
                    text.append("N");
                }
            }
        }
        assert(text@ =~= old(text)@ + branch_text(self@, address));
    }

    /// Creates a textual representation of the instruction.
    ///
    /// Optionally, the address of the instruction inside the program can be
    /// passed, which shortens the text in many cases.
    pub fn to_mnemonic(&self, address: Option<usize>) -> (text: String)
        ensures
            text@ == mnemonic(self@, address),
    {
        let mut text = String::new();
        if self.get_instruction() & DATAPATH_BITS == 0 && self.get_address_control() == 0b00 {
            text.append("NOP");
        } else {
            self.push_destination(&mut text);
            self.push_operation(&mut text);
        }
        self.push_branch(&mut text, address);
        if self.should_store_flags() {
            text.append("; CHFL");
        }
        assert(text@ =~= mnemonic(self@, address));
        text
    }
}

} // verus!
