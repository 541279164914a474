//! The instructions of a program that can be reached from address 0.
//!
//! An instruction leads to the address in its NA field or, where it
//! branches, to the two addresses that differ from NA in the lowest bit at
//! most. [`reachable`] says which addresses a chain of instructions leads
//! to; [`reachable_instructions`] lists them.

use vstd::prelude::*;
use crate::alu::Flags;
use crate::cpu::{next_address, CpuView};
use crate::error::Error;
use crate::instruction::{mac, na, Instruction};
use crate::parse::{slots_view, word_or_zero, Slots, PROGRAM_SIZE};

verus! {

/// The two addresses that an instruction can go to next. An instruction
/// that does not branch goes to one address, which stands for both.
pub open spec fn branch_targets(word: u32) -> (u32, u32) {
    if mac(word) == 0 {
        (na(word), na(word))
    } else {
        (na(word) & 0b11110, na(word) | 1)
    }
}

/// Whether the slot `from` holds an instruction that can go to `to` next.
pub open spec fn steps_to(slots: Slots, from: int, to: int) -> bool {
    &&& 0 <= from < slots.len()
    &&& slots[from] matches Some(word) && (to == branch_targets(word).0 || to == branch_targets(
        word,
    ).1)
}

/// Whether a chain of at most `steps` instructions leads from address 0 to
/// `address`.
pub open spec fn reachable_within(slots: Slots, address: int, steps: nat) -> bool
    decreases steps,
{
    address == 0 || (steps > 0 && exists|from: int|
        reachable_within(slots, from, (steps - 1) as nat) && #[trigger] steps_to(
            slots,
            from,
            address,
        ))
}

/// Whether a chain of instructions leads from address 0 to `address`.
pub open spec fn reachable(slots: Slots, address: int) -> bool {
    exists|steps: nat| reachable_within(slots, address, steps)
}

/// The reachable addresses below `end` in ascending order, each with the
/// instruction of its slot; a free slot holds the zero instruction.
pub open spec fn reachable_below(slots: Slots, end: int) -> Seq<(u8, u32)>
    decreases end,
{
    if end <= 0 {
        Seq::empty()
    } else if reachable(slots, end - 1) {
        reachable_below(slots, end - 1).push(((end - 1) as u8, word_or_zero(slots[end - 1])))
    } else {
        reachable_below(slots, end - 1)
    }
}

/// The reachable part of a program. A program without an instruction at
/// address 0 has none.
pub open spec fn reachable_program(slots: Slots) -> Result<Seq<(u8, u32)>, Error> {
    if slots[0] is None {
        Err(Error::Parse("No instruction reachable"))
    } else {
        Ok(reachable_below(slots, PROGRAM_SIZE as int))
    }
}

/// A list of addresses and instructions as values.
pub open spec fn listing_view(listing: Seq<(u8, Instruction)>) -> Seq<(u8, u32)> {
    listing.map_values(|entry: (u8, Instruction)| (entry.0, entry.1@))
}

/// Whether the marked addresses below `end` lead to marked addresses only.
pub open spec fn closed_below(slots: Slots, marks: Seq<bool>, end: int) -> bool {
    forall|from: int, to: int|
        0 <= from < end && marks[from] && #[trigger] steps_to(slots, from, to) ==> 0 <= to
            < marks.len() && marks[to]
}

/// The number of addresses that are not marked.
pub open spec fn unmarked(marks: Seq<bool>) -> nat
    decreases marks.len(),
{
    if marks.len() == 0 {
        0
    } else {
        unmarked(marks.drop_last()) + (if marks.last() {
            0nat
        } else {
            1nat
        })
    }
}

/// Both targets of an instruction are addresses of the program.
pub proof fn lemma_targets_in_program(word: u32)
    ensures
        branch_targets(word).0 < PROGRAM_SIZE,
        branch_targets(word).1 < PROGRAM_SIZE,
{
    let base = na(word);
    assert(base & 0b11110 < 32 && base | 1 < 32 && base < 32) by (bit_vector)
        requires
            base == (word >> 18) & 0b11111,
    ;
}

/// An address that a reachable instruction leads to is reachable.
pub proof fn lemma_reachable_step(slots: Slots, from: int, to: int)
    requires
        reachable(slots, from),
        steps_to(slots, from, to),
    ensures
        reachable(slots, to),
{
    let steps = choose|steps: nat| reachable_within(slots, from, steps);
    assert(reachable_within(slots, to, steps + 1));
}

/// Marks that hold address 0 and lead to marked addresses only hold every
/// reachable address.
pub proof fn lemma_closed_marks_hold_reachable(
    slots: Slots,
    marks: Seq<bool>,
    address: int,
    steps: nat,
)
    requires
        slots.len() == marks.len(),
        marks.len() > 0,
        marks[0],
        closed_below(slots, marks, marks.len() as int),
        reachable_within(slots, address, steps),
    ensures
        0 <= address < marks.len(),
        marks[address],
    decreases steps,
{
    if address != 0 {
        let from = choose|from: int|
            reachable_within(slots, from, (steps - 1) as nat) && #[trigger] steps_to(
                slots,
                from,
                address,
            );
        lemma_closed_marks_hold_reachable(slots, marks, from, (steps - 1) as nat);
    }
}

/// A new mark leaves one address less unmarked.
pub proof fn lemma_mark(marks: Seq<bool>, address: int)
    requires
        0 <= address < marks.len(),
        !marks[address],
    ensures
        unmarked(marks.update(address, true)) + 1 == unmarked(marks),
    decreases marks.len(),
{
    let marked = marks.update(address, true);
    if address == marks.len() - 1 {
        assert(marked.drop_last() == marks.drop_last());
    } else {
        lemma_mark(marks.drop_last(), address);
        assert(marked.drop_last() == marks.drop_last().update(address, true));
    }
}

/// Marks `target` as reached. Tells whether the mark is new.
fn mark(reached: &mut [bool; 32], target: u8) -> (fresh: bool)
    requires
        target < PROGRAM_SIZE,
    ensures
        final(reached)@ == old(reached)@.update(target as int, true),
        fresh == !old(reached)@[target as int],
        unmarked(final(reached)@) + (if fresh {
            1nat
        } else {
            0nat
        }) == unmarked(old(reached)@),
{
    if reached[target as usize] {
        assert(reached@ == old(reached)@.update(target as int, true));
        false
    } else {
        proof {
            lemma_mark(reached@, target as int);
        }
        reached[target as usize] = true;
        true
    }
}

/// The two addresses that the instruction can go to next.
fn targets(instruction: Instruction) -> (found: (u8, u8))
    ensures
        found.0 == branch_targets(instruction@).0,
        found.1 == branch_targets(instruction@).1,
        found.0 < PROGRAM_SIZE,
        found.1 < PROGRAM_SIZE,
{
    let base = instruction.get_next_instruction_address();
    let ghost wide = na(instruction@);
    assert((base & 0b11110) == (wide & 0b11110) && (base | 1) == (wide | 1) && (base & 0b11110)
        < 32 && (base | 1) < 32) by (bit_vector)
        requires
            base == wide,
            base < 32,
    ;
    if instruction.get_address_control() == 0 {
        (base, base)
    } else {
        (base & 0b11110, base | 1)
    }
}

/// Lists the instructions of a program that can be reached from address 0,
/// by ascending address.
///
/// An instruction is reachable if a chain of instructions leads to it from
/// the one at address 0; both targets of a conditional jump count. An
/// address that is reached and holds no instruction is listed with the zero
/// instruction.
pub fn reachable_instructions(instructions: &[Option<Instruction>; 32]) -> (listed: Result<
    Vec<(u8, Instruction)>,
    Error,
>)
    ensures
        match reachable_program(slots_view(*instructions)) {
            Ok(listing) => listed matches Ok(found) && listing_view(found@) == listing,
            Err(e) => listed == Err::<Vec<(u8, Instruction)>, Error>(e),
        },
{
    let ghost slots = slots_view(*instructions);
    // The instruction at address 0 is reachable by definition if it exists
    if instructions[0].is_none() {
        return Err(Error::Parse("No instruction reachable"));
    }
    let mut reached: [bool; 32] = [false;32];
    reached[0] = true;
    assert(reachable_within(slots, 0, 0));

    // Since instructions can jump to earlier addresses, we have to iterate
    // until no new instruction is found.
    let mut finished = false;
    while !finished
        invariant
            slots == slots_view(*instructions),
            reached@[0],
            forall|a: int| 0 <= a < PROGRAM_SIZE && reached@[a] ==> reachable(slots, a),
            finished ==> closed_below(slots, reached@, PROGRAM_SIZE as int),
        decreases
                unmarked(reached@) + (if finished {
                    0nat
                } else {
                    1nat
                }),
    {
        finished = true;
        let ghost before = reached@;
        let mut i: usize = 0;
        while i < PROGRAM_SIZE
            invariant
                i <= PROGRAM_SIZE,
                slots == slots_view(*instructions),
                reached@[0],
                forall|a: int| 0 <= a < PROGRAM_SIZE && reached@[a] ==> reachable(slots, a),
                finished ==> closed_below(slots, reached@, i as int),
                unmarked(reached@) <= unmarked(before),
                !finished ==> unmarked(reached@) < unmarked(before),
            decreases PROGRAM_SIZE - i,
        {
            if reached[i] {
                if let Some(instruction) = instructions[i] {
                    // Consider both target addresses for conditional jumps
                    let (first, second) = targets(instruction);
                    proof {
                        assert(steps_to(slots, i as int, first as int));
                        assert(steps_to(slots, i as int, second as int));
                        lemma_reachable_step(slots, i as int, first as int);
                        lemma_reachable_step(slots, i as int, second as int);
                    }
                    let first_is_new = mark(&mut reached, first);
                    let second_is_new = mark(&mut reached, second);
                    if first_is_new || second_is_new {
                        finished = false;
                    }
                }
            }
            i += 1;
        }
    }

    proof {
        assert forall|a: int| reachable(slots, a) implies 0 <= a < PROGRAM_SIZE && reached@[a] by {
            let steps = choose|steps: nat| reachable_within(slots, a, steps);
            lemma_closed_marks_hold_reachable(slots, reached@, a, steps);
        }
    }

    // Addresses which were reached but hold no instruction get the zero
    // instruction
    let mut listed: Vec<(u8, Instruction)> = Vec::new();
    let mut i: usize = 0;
    while i < PROGRAM_SIZE
        invariant
            i <= PROGRAM_SIZE,
            slots == slots_view(*instructions),
            forall|a: int| 0 <= a < PROGRAM_SIZE ==> (reached@[a] <==> reachable(slots, a)),
            listing_view(listed@) == reachable_below(slots, i as int),
        decreases PROGRAM_SIZE - i,
    {
        if reached[i] {
            let instruction = match instructions[i] {
                Some(instruction) => instruction,
                None => Instruction::default(),
            };
            listed.push((i as u8, instruction));
            assert(listing_view(listed@) =~= reachable_below(slots, i as int).push(
                (i as u8, word_or_zero(slots[i as int])),
            ));
        }
        i += 1;
    }
    Ok(listed)
}

/// The list of the reachable addresses holds every reachable address below
/// its end once and no other, in ascending order, and with each address the
/// instruction of its slot.
pub proof fn law_reachable_listing(slots: Slots, end: int)
    requires
        0 <= end <= 256,
    ensures
        reachable_below(slots, end).len() <= end,
        reachable(slots, 0),
        forall|k: int|
            0 <= k < reachable_below(slots, end).len() ==> {
                let entry = #[trigger] reachable_below(slots, end)[k];
                &&& 0 <= entry.0 < end
                &&& reachable(slots, entry.0 as int)
                &&& entry.1 == word_or_zero(slots[entry.0 as int])
            },
        forall|j: int, k: int|
            0 <= j < k < reachable_below(slots, end).len() ==> (#[trigger] reachable_below(
                slots,
                end,
            )[j]).0 < (#[trigger] reachable_below(slots, end)[k]).0,
        forall|a: int|
            0 <= a < end && reachable(slots, a) ==> exists|k: int|
                0 <= k < reachable_below(slots, end).len() && (#[trigger] reachable_below(
                    slots,
                    end,
                )[k]).0 == a,
    decreases end,
{
    assert(reachable_within(slots, 0, 0));
    if end > 0 {
        law_reachable_listing(slots, end - 1);
        let shorter = reachable_below(slots, end - 1);
        let listing = reachable_below(slots, end);
        assert forall|a: int| 0 <= a < end && reachable(slots, a) implies exists|k: int|
            0 <= k < listing.len() && (#[trigger] listing[k]).0 == a by {
            if a == end - 1 {
                assert(listing[listing.len() - 1].0 == a);
            } else {
                let k = choose|k: int| 0 <= k < shorter.len() && (#[trigger] shorter[k]).0 == a;
                assert(listing[k].0 == a);
            }
        }
    }
}

/// The address that a cycle of the CPU chooses next is one of the two
/// targets of its instruction, whatever the flags and the latches are.
pub proof fn law_cycle_follows_targets(word: u32, cpu: CpuView, flags: Flags)
    ensures
        next_address(word, cpu, flags) == branch_targets(word).0 || next_address(word, cpu, flags)
            == branch_targets(word).1,
{
    let base = na(word);
    let control = mac(word);
    let full = (control << 1) | (base & 1);
    assert(control == 0 ==> full == 0 || full == 1) by (bit_vector)
        requires
            full == (control << 1) | (base & 1),
    ;
    assert(control != 0 && control < 4 ==> full >= 2) by (bit_vector)
        requires
            full == (control << 1) | (base & 1),
    ;
    assert(control < 4) by (bit_vector)
        requires
            control == (word >> 23) & 0b11,
    ;
    assert(((base & 0b11110) | 0) == (base & 0b11110) && ((base & 0b11110) | 1) == (base | 1))
        by (bit_vector)
        requires
            base == (word >> 18) & 0b11111,
    ;
}

} // verus!
