//! Slot numbers worked out ahead of time.
//!
//! The slots of a program form a ring of `duck_count + 1` places. An
//! instruction that writes to its slot `n` moves the cursor there, which
//! turns the ring to the right by `n`; `Print`, the loop instructions and
//! `End` leave the ring as it is. Here the slot numbers of each instruction
//! are replaced by the places at which those slots are found once the
//! instructions before it have turned the ring. The instruction list that
//! the parser gives is not changed in this way; the generated code finds its
//! slots while it runs. For a run of instructions, both come to the same
//! cells.

use vstd::prelude::*;

use crate::instruction::DuckInstruction;
use crate::slots::{Slots, Step};

verus! {

/// The instruction writes to its slot `n`, and so moves the cursor there.
pub open spec fn moves_cursor(inst: DuckInstruction) -> bool {
    2 <= inst.op_code <= 8 || inst.op_code == 11
}

/// An instruction before instruction `i` moves the cursor.
pub open spec fn moved_before(insts: Seq<DuckInstruction>, i: int) -> bool
    decreases i,
{
    if i <= 0 {
        false
    } else {
        moves_cursor(insts[i - 1]) || moved_before(insts, i - 1)
    }
}

/// How far the ring has been turned before instruction `i`, in all: by the
/// `n` of every instruction before it that moves the cursor.
pub open spec fn turned_before(insts: Seq<DuckInstruction>, i: int) -> int
    decreases i,
{
    if i <= 0 {
        0
    } else if moves_cursor(insts[i - 1]) {
        turned_before(insts, i - 1) + insts[i - 1].n
    } else {
        turned_before(insts, i - 1)
    }
}

/// The place at which a slot is found in a ring of `ring_len` places turned
/// by `turned`.
pub open spec fn place_of(slot: usize, turned: int, ring_len: int) -> usize {
    ((slot + turned) % ring_len) as usize
}

/// The `n` of this instruction is a slot number that is replaced: that of
/// the start of a loop, of `Set`, and of any other instruction but the end of
/// a loop that is recorded with one or two operands.
pub open spec fn replaces_n(inst: DuckInstruction) -> bool {
    inst.op_code == 9 || inst.op_code == 11 || (inst.op_code != 10 && (inst.arg_c == 1
        || inst.arg_c == 2))
}

/// The `y` of this instruction is a slot number that is replaced: that of an
/// instruction recorded with two operands which is neither `Set`, whose `y`
/// is a value, nor a loop instruction, whose `y` names the loop.
pub open spec fn replaces_y(inst: DuckInstruction) -> bool {
    inst.op_code != 9 && inst.op_code != 10 && inst.op_code != 11 && inst.arg_c == 2
}

/// An instruction with its slot numbers replaced by their places in a ring
/// turned by `turned`.
pub open spec fn turned_inst(inst: DuckInstruction, turned: int, ring_len: int) -> DuckInstruction {
    DuckInstruction {
        op_code: inst.op_code,
        n: if replaces_n(inst) {
            place_of(inst.n, turned, ring_len)
        } else {
            inst.n
        },
        y: if replaces_y(inst) {
            place_of(inst.y, turned, ring_len)
        } else {
            inst.y
        },
        arg_c: inst.arg_c,
    }
}

/// Instruction `i` as it is given back: with its slot numbers replaced where
/// an instruction before it has moved the cursor, and as it is where none
/// has.
pub open spec fn updated_inst(
    insts: Seq<DuckInstruction>,
    i: int,
    ring_len: int,
) -> DuckInstruction {
    if moved_before(insts, i) {
        turned_inst(insts[i], turned_before(insts, i), ring_len)
    } else {
        insts[i]
    }
}

/// The slot numbers of the instruction that are replaced are slots of a
/// ring with `ring_len` places.
pub open spec fn slots_in_ring(inst: DuckInstruction, ring_len: int) -> bool {
    &&& replaces_n(inst) ==> inst.n < ring_len
    &&& replaces_y(inst) ==> inst.y < ring_len
}

/// An instruction that moves the cursor and stands before instruction `i`
/// is one of the instructions before `i`.
pub proof fn lemma_moved_before(insts: Seq<DuckInstruction>, j: int, i: int)
    requires
        0 <= j < i,
        moves_cursor(insts[j]),
    ensures
        moved_before(insts, i),
    decreases i,
{
    if j < i - 1 {
        lemma_moved_before(insts, j, i - 1);
    }
}

/// Where no instruction before instruction `i` moves the cursor, the ring
/// has not been turned, and an instruction whose slots are slots of the ring
/// is given back as it is whether its slot numbers are replaced or not.
pub proof fn lemma_ring_not_turned(insts: Seq<DuckInstruction>, i: int, ring_len: int)
    requires
        0 <= i < insts.len(),
        !moved_before(insts, i),
        0 < ring_len <= usize::MAX,
    ensures
        turned_before(insts, i) == 0,
        slots_in_ring(insts[i], ring_len) ==> turned_inst(insts[i], 0, ring_len) == insts[i],
    decreases i,
{
    if i > 0 {
        lemma_ring_not_turned(insts, i - 1, ring_len);
    }
    if slots_in_ring(insts[i], ring_len) {
        if replaces_n(insts[i]) {
            vstd::arithmetic::div_mod::lemma_small_mod(insts[i].n as nat, ring_len as nat);
        }
        if replaces_y(insts[i]) {
            vstd::arithmetic::div_mod::lemma_small_mod(insts[i].y as nat, ring_len as nat);
        }
    }
}

/// A ring of `ring_len` places that has been turned to the right by
/// `turned`: the slot at place `p` is the one that was `turned` places to the
/// left of it, going round.
pub open spec fn is_turned_ring(ring: Seq<usize>, turned: int) -> bool {
    &&& 0 <= turned < ring.len()
    &&& forall|p: int|
        0 <= p < ring.len() ==> #[trigger] ring[p] == if p >= turned {
            p - turned
        } else {
            p + ring.len() - turned
        }
}

proof fn lemma_mod_below_twice(x: int, m: int)
    requires
        0 <= x < 2 * m,
    ensures
        x % m == if x >= m {
            x - m
        } else {
            x
        },
{
    if x >= m {
        vstd::arithmetic::div_mod::lemma_fundamental_div_mod_converse(x, m, 1, x - m);
    } else {
        vstd::arithmetic::div_mod::lemma_fundamental_div_mod_converse(x, m, 0, x);
    }
}

/// Turns the ring to the right by `k` places: its last `k` slots move to its
/// front, in their order, and the others move up behind them.
pub fn rotate_right(ring: &mut Vec<usize>, k: usize)
    requires
        k <= old(ring)@.len(),
    ensures
        final(ring)@ == old(ring)@.subrange(old(ring)@.len() - k, old(ring)@.len() as int)
            + old(ring)@.subrange(0, old(ring)@.len() - k),
{
    let len = ring.len();
    let ghost target = ring@.subrange(len - k, len as int) + ring@.subrange(0, len - k);
    let mut turned: Vec<usize> = Vec::new();
    let mut p: usize = 0;
    while p < len
        invariant
            len == ring@.len(),
            k <= len,
            p <= len,
            target == ring@.subrange(len - k, len as int) + ring@.subrange(0, len - k),
            turned@ == target.subrange(0, p as int),
        decreases len - p,
    {
        let from = if p < k {
            len - k + p
        } else {
            p - k
        };
        turned.push(ring[from]);
        p += 1;
        assert(turned@ =~= target.subrange(0, p as int));
    }
    assert(turned@ =~= target);
    *ring = turned;
}

/// The first place of the ring that holds `slot`.
pub fn position(ring: &Vec<usize>, slot: usize) -> (place: usize)
    requires
        exists|p: int| 0 <= p < ring@.len() && ring@[p] == slot,
    ensures
        place < ring@.len(),
        ring@[place as int] == slot,
        forall|j: int| 0 <= j < place ==> ring@[j] != slot,
{
    let ghost witness = choose|p: int| 0 <= p < ring@.len() && ring@[p] == slot;
    let len = ring.len();
    let mut place: usize = 0;
    while ring[place] != slot
        invariant
            len == ring@.len(),
            0 <= place <= witness < ring@.len(),
            ring@[witness] == slot,
            forall|j: int| 0 <= j < place ==> ring@[j] != slot,
        decreases ring@.len() - place,
    {
        assert(place != witness);
        place += 1;
    }
    place
}

/// The place of `slot` in a ring that has been turned by `turned` in all.
fn place_in_ring(ring: &Vec<usize>, slot: usize, Ghost(turned): Ghost<int>) -> (place: usize)
    requires
        ring@.len() > 0,
        0 <= turned,
        is_turned_ring(ring@, turned % (ring@.len() as int)),
        slot < ring@.len(),
    ensures
        place == place_of(slot, turned, ring@.len() as int),
{
    let ghost len = ring@.len() as int;
    proof {
        vstd::arithmetic::div_mod::lemma_add_mod_noop_right(slot as int, turned, len);
        lemma_mod_below_twice(slot + turned % len, len);
        let at = (slot + turned) % len;
        assert(ring@[at] == slot);
    }
    let place = position(ring, slot);
    proof {
        assert(ring@[place as int] == slot);
    }
    place
}

/// Replaces the slot numbers of each instruction by the places at which
/// those slots stand once the instructions before it that move the cursor
/// have turned the ring of `duck_count + 1` places, each by its `n`. An
/// instruction before which the cursor has not moved is given back as it is.
///
/// An instruction that moves the cursor may not have an `n` that is more
/// than the ring has places, and a slot number that is replaced behind such
/// an instruction must be one of the slots `0..=duck_count`.
pub fn apply_goose_updates(duck_count: usize, inst_list: &Vec<DuckInstruction>) -> (rotated: Vec<
    DuckInstruction,
>)
    requires
        duck_count < usize::MAX,
        forall|j: int|
            0 <= j < inst_list@.len() && moves_cursor(#[trigger] inst_list@[j]) ==> inst_list@[j].n
                <= duck_count + 1,
        forall|i: int|
            0 <= i < inst_list@.len() && moved_before(inst_list@, i) ==> slots_in_ring(
                #[trigger] inst_list@[i],
                duck_count + 1,
            ),
    ensures
        rotated@.len() == inst_list@.len(),
        forall|i: int|
            0 <= i < inst_list@.len() ==> #[trigger] rotated@[i] == updated_inst(
                inst_list@,
                i,
                duck_count + 1,
            ),
        // where the slots of an instruction are slots of the ring, they are
        // the places to which the ring has been turned
        forall|i: int|
            0 <= i < inst_list@.len() && slots_in_ring(inst_list@[i], duck_count + 1)
                ==> #[trigger] rotated@[i] == turned_inst(
                inst_list@[i],
                turned_before(inst_list@, i),
                duck_count + 1,
            ),
        // in numbers: the slot number and what the ring has been turned by in
        // all, added, and of the sum the remainder for the places of the ring
        forall|i: int|
            0 <= i < inst_list@.len() && slots_in_ring(inst_list@[i], duck_count + 1)
                && replaces_n(inst_list@[i]) ==> (#[trigger] rotated@[i]).n == (inst_list@[i].n
                + turned_before(inst_list@, i)) % (duck_count + 1),
        forall|i: int|
            0 <= i < inst_list@.len() && slots_in_ring(inst_list@[i], duck_count + 1)
                && replaces_y(inst_list@[i]) ==> (#[trigger] rotated@[i]).y == (inst_list@[i].y
                + turned_before(inst_list@, i)) % (duck_count + 1),
{
    let len = inst_list.len();
    let ring_len = duck_count + 1;

    // a copy of the instructions, to be changed
    let mut rotated_inst_list: Vec<DuckInstruction> = Vec::new();
    let mut c: usize = 0;
    while c < len
        invariant
            len == inst_list@.len(),
            c <= len,
            rotated_inst_list@ == inst_list@.subrange(0, c as int),
        decreases len - c,
    {
        rotated_inst_list.push(inst_list[c]);
        c += 1;
        assert(rotated_inst_list@ =~= inst_list@.subrange(0, c as int));
    }
    assert(rotated_inst_list@ =~= inst_list@);

    // the ring before it is turned: slot i stands at place i
    let mut duck_mapping: Vec<usize> = Vec::new();
    let mut i: usize = 0;
    while i < ring_len
        invariant
            ring_len == duck_count + 1,
            i <= ring_len,
            duck_mapping@.len() == i,
            forall|p: int| 0 <= p < i ==> duck_mapping@[p] == p,
        decreases ring_len - i,
    {
        duck_mapping.push(i);
        i += 1;
    }

    let ghost mut turned: int = 0;
    proof {
        vstd::arithmetic::div_mod::lemma_small_mod(0, ring_len as nat);
    }
    let mut inst_pos: usize = 0;
    while inst_pos < len
        invariant
            len == inst_list@.len(),
            ring_len == duck_count + 1,
            inst_pos <= len,
            duck_mapping@.len() == ring_len,
            turned == turned_before(inst_list@, inst_pos as int),
            0 <= turned,
            is_turned_ring(duck_mapping@, turned % (ring_len as int)),
            rotated_inst_list@.len() == len,
            forall|j: int|
                0 <= j < len && moves_cursor(#[trigger] inst_list@[j]) ==> inst_list@[j].n
                    <= duck_count + 1,
            forall|i: int|
                0 <= i < len && moved_before(inst_list@, i) ==> slots_in_ring(
                    #[trigger] inst_list@[i],
                    duck_count + 1,
                ),
            forall|i: int|
                0 <= i < len ==> #[trigger] rotated_inst_list@[i] == if i < inst_pos {
                    updated_inst(inst_list@, i, ring_len as int)
                } else if moved_before(inst_list@, inst_pos as int) {
                    turned_inst(inst_list@[i], turned, ring_len as int)
                } else {
                    inst_list@[i]
                },
        decreases len - inst_pos,
    {
        let op_code = inst_list[inst_pos].op_code;
        if (2 <= op_code && op_code <= 8) || op_code == 11 {
            // the instruction moves the cursor to its slot: the ring turns
            let k = inst_list[inst_pos].n;
            let ghost before = duck_mapping@;
            let ghost was_turned = turned;
            rotate_right(&mut duck_mapping, k);
            proof {
                let was_at = was_turned % (ring_len as int);
                lemma_mod_below_twice(was_at + k, ring_len as int);
                vstd::arithmetic::div_mod::lemma_add_mod_noop_right(
                    k as int,
                    was_turned,
                    ring_len as int,
                );
                turned = was_turned + k;
                let at = turned % (ring_len as int);
                assert(at == (was_at + k) % (ring_len as int));
                assert(is_turned_ring(duck_mapping@, at)) by {
                    assert forall|p: int| 0 <= p < ring_len implies #[trigger] duck_mapping@[p]
                        == if p >= at {
                        p - at
                    } else {
                        p + ring_len - at
                    } by {
                        if p < k {
                            assert(duck_mapping@[p] == before[ring_len - k + p]);
                        } else {
                            assert(duck_mapping@[p] == before[p - k]);
                        }
                    }
                }
            }

            // the slots of the instructions behind it are looked up in the ring
            let mut i: usize = inst_pos + 1;
            while i < len
                invariant
                    len == inst_list@.len(),
                    ring_len == duck_count + 1,
                    inst_pos < i <= len,
                    moves_cursor(inst_list@[inst_pos as int]),
                    duck_mapping@.len() == ring_len,
                    0 <= turned,
                    is_turned_ring(duck_mapping@, turned % (ring_len as int)),
                    rotated_inst_list@.len() == len,
                    forall|i: int|
                        0 <= i < len && moved_before(inst_list@, i) ==> slots_in_ring(
                            #[trigger] inst_list@[i],
                            duck_count + 1,
                        ),
                    forall|j: int|
                        0 <= j < len ==> #[trigger] rotated_inst_list@[j] == if j < inst_pos {
                            updated_inst(inst_list@, j, ring_len as int)
                        } else if inst_pos < j < i {
                            turned_inst(inst_list@[j], turned, ring_len as int)
                        } else if moved_before(inst_list@, inst_pos as int) {
                            turned_inst(inst_list@[j], was_turned, ring_len as int)
                        } else {
                            inst_list@[j]
                        },
                decreases len - i,
            {
                let inst = inst_list[i];
                let op = inst.op_code;
                let arg_c = inst.arg_c;
                let mut changed = inst;
                proof {
                    lemma_moved_before(inst_list@, inst_pos as int, i as int);
                    assert(slots_in_ring(inst_list@[i as int], duck_count + 1));
                }
                if op == 9 {
                    changed.n = place_in_ring(&duck_mapping, inst.n, Ghost(turned));
                } else if op == 10 {
                } else if op == 11 {
                    changed.n = place_in_ring(&duck_mapping, inst.n, Ghost(turned));
                } else if arg_c == 1 {
                    changed.n = place_in_ring(&duck_mapping, inst.n, Ghost(turned));
                } else if arg_c == 2 {
                    changed.n = place_in_ring(&duck_mapping, inst.n, Ghost(turned));
                    changed.y = place_in_ring(&duck_mapping, inst.y, Ghost(turned));
                }
                rotated_inst_list[i] = changed;
                i += 1;
            }
        }
        inst_pos += 1;
    }
    proof {
        assert forall|i: int|
            0 <= i < len && slots_in_ring(inst_list@[i], duck_count + 1)
                implies #[trigger] rotated_inst_list@[i] == turned_inst(
            inst_list@[i],
            turned_before(inst_list@, i),
            duck_count + 1,
        ) by {
            if !moved_before(inst_list@, i) {
                lemma_ring_not_turned(inst_list@, i, duck_count + 1);
            }
        }
        assert forall|i: int| 0 <= i < len implies 0 <= ((#[trigger] inst_list@[i]).n
            + turned_before(inst_list@, i)) % (duck_count + 1) <= duck_count && 0 <= (
        inst_list@[i].y + turned_before(inst_list@, i)) % (duck_count + 1) <= duck_count by {
            vstd::arithmetic::div_mod::lemma_mod_division_less_than_divisor(
                inst_list@[i].n + turned_before(inst_list@, i),
                duck_count + 1,
            );
            vstd::arithmetic::div_mod::lemma_mod_division_less_than_divisor(
                inst_list@[i].y + turned_before(inst_list@, i),
                duck_count + 1,
            );
        }
    }
    rotated_inst_list
}

/// How far the ring has been turned before an instruction depends on the
/// instructions before it alone.
proof fn lemma_turned_before_prefix(
    insts: Seq<DuckInstruction>,
    shorter: Seq<DuckInstruction>,
    i: int,
)
    requires
        0 <= i <= shorter.len() <= insts.len(),
        forall|j: int| 0 <= j < shorter.len() ==> shorter[j] == insts[j],
    ensures
        turned_before(shorter, i) == turned_before(insts, i),
        0 <= turned_before(insts, i),
    decreases i,
{
    if i > 0 {
        lemma_turned_before_prefix(insts, shorter, i - 1);
    }
}

/// Where a run of instructions starts with the cursor at cell 0 and comes
/// to its end, the cursor is then at the place to which the instructions
/// have turned the ring: the place worked out ahead of time for a slot is
/// the cell at which the slot stands when the program runs.
pub proof fn lemma_turned_is_cursor(slots: Slots, program: Seq<DuckInstruction>)
    requires
        slots.wf(),
        slots.cells.len() <= usize::MAX,
        slots.cursor == 0,
        slots.steps(program) is Next,
    ensures
        slots.steps(program).slots().wf(),
        slots.steps(program).slots().cells.len() == slots.cells.len(),
        slots.steps(program).slots().cursor == turned_before(program, program.len() as int)
            % (slots.cells.len() as int),
        forall|slot: usize|
            place_of(
                slot,
                turned_before(program, program.len() as int),
                slots.cells.len() as int,
            ) == #[trigger] slots.steps(program).slots().cell_of(slot as nat),
    decreases program.len(),
{
    let ring_len = slots.cells.len() as int;
    if program.len() == 0 {
        vstd::arithmetic::div_mod::lemma_small_mod(0, ring_len as nat);
    } else {
        let before = program.drop_last();
        let last = program.last();
        lemma_turned_is_cursor(slots, before);
        lemma_turned_before_prefix(program, before, before.len() as int);
        let middle = slots.steps(before).slots();
        crate::slots::lemma_step_keeps_ring(middle, last);
        vstd::arithmetic::div_mod::lemma_add_mod_noop_right(
            last.n as int,
            turned_before(program, before.len() as int),
            ring_len,
        );
        if middle.input.len() > 0 {
            assert((Slots { input: middle.input.drop_first(), ..middle }).cell_of(last.n as nat)
                == middle.cell_of(last.n as nat));
        }
    }
    let after = slots.steps(program).slots();
    let turned = turned_before(program, program.len() as int);
    lemma_turned_before_prefix(program, program, program.len() as int);
    assert forall|slot: usize|
        place_of(slot, turned, ring_len) == #[trigger] after.cell_of(slot as nat) by {
        vstd::arithmetic::div_mod::lemma_add_mod_noop_right(slot as int, turned, ring_len);
        vstd::arithmetic::div_mod::lemma_mod_division_less_than_divisor(
            slot + after.cursor,
            ring_len,
        );
    }
}

} // verus!
