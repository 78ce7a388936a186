//! A task's saved registers, as the listing lays them out beneath the task:
//! four to a line.

use vstd::prelude::*;
use crate::text::{pad_left, hex_word, push_pad_left, push_hex_word, contains_text, lemma_contains_within};

verus! {

/// A register's name and the value saved in it.
#[derive(Debug)]
pub struct RegisterValue {
    pub name: String,
    pub value: u32,
}

/// What the listing prints for the register at position `r`: a gap where a
/// line starts after the first, the name right-aligned in three columns,
/// ` = ` and the value, and a line end after every fourth register.
pub open spec fn register_text(r: nat, reg: RegisterValue, additional: bool) -> Seq<char> {
    (if r != 0 && r % 4 == 0 {
        if additional { "   |    "@ } else { "        "@ }
    } else {
        Seq::empty()
    }) + "  "@ + pad_left(reg.name@, 3, ' ') + " = "@ + hex_word(reg.value as nat)
        + (if r % 4 == 3 { "\n"@ } else { Seq::empty() })
}

/// What the listing prints for the registers `regs`, in order.
pub open spec fn registers_seq_text(regs: Seq<RegisterValue>, additional: bool) -> Seq<char>
    decreases regs.len(),
{
    if regs.len() == 0 {
        Seq::empty()
    } else {
        registers_seq_text(regs.drop_last(), additional)
            + register_text((regs.len() - 1) as nat, regs.last(), additional)
    }
}

/// The register block that the listing prints beneath a task, linked to more
/// output below where `additional`.
pub open spec fn registers_text(regs: Seq<RegisterValue>, additional: bool) -> Seq<char> {
    "   |\n   +--->"@ + registers_seq_text(regs, additional)
}

/// Appends the register block that the listing prints beneath a task.
pub fn format_registers(out: &mut String, regs: &Vec<RegisterValue>, additional: bool)
    ensures
        final(out)@ == old(out)@ + registers_text(regs@, additional),
{
    out.append("   |\n   +--->");
    let ghost start = out@;
    let mut r: usize = 0;
    while r < regs.len()
        invariant
            r <= regs@.len(),
            out@ == start + registers_seq_text(regs@.take(r as int), additional),
        decreases regs@.len() - r,
    {
        let ghost before = out@;
        if r != 0 && r % 4 == 0 {
            if additional {
                out.append("   |    ");
            } else {
                out.append("        ");
            }
        }
        out.append("  ");
        push_pad_left(out, regs[r].name.as_str(), 3);
        out.append(" = ");
        push_hex_word(out, regs[r].value);
        if r % 4 == 3 {
            out.append("\n");
        }
        assert(out@ =~= before + register_text(r as nat, regs@[r as int], additional));
        proof {
            let t = regs@.take(r + 1);
            assert(t.drop_last() =~= regs@.take(r as int));
            assert(t.last() == regs@[r as int]);
        }
        r = r + 1;
        assert(out@ =~= start + registers_seq_text(regs@.take(r as int), additional));
    }
    assert(regs@.take(r as int) =~= regs@);
    assert(out@ =~= old(out)@ + registers_text(regs@, additional));
}

/// How a register reads in the block: its name, ` = ` and its value as `0x`
/// and eight hexadecimal digits.
pub open spec fn register_reference(reg: RegisterValue) -> Seq<char> {
    reg.name@ + seq![' ', '=', ' '] + hex_word(reg.value as nat)
}

proof fn lemma_register_text_shows(r: nat, reg: RegisterValue, additional: bool)
    ensures
        contains_text(register_text(r, reg, additional), register_reference(reg)),
{
    reveal_strlit(" = ");
    let name = reg.name@;
    let h = hex_word(reg.value as nat);
    let n = name + seq![' ', '=', ' '] + h;
    let padded = pad_left(name, 3, ' ');
    let gap: Seq<char> = if r != 0 && r % 4 == 0 {
        if additional { "   |    "@ } else { "        "@ }
    } else {
        Seq::empty()
    };
    let end: Seq<char> = if r % 4 == 3 { "\n"@ } else { Seq::empty() };
    let pad: Seq<char> = if name.len() < 3 { crate::text::repeat_char(' ', (3 - name.len()) as nat) } else { Seq::empty() };
    assert(padded =~= pad + name);
    assert(register_text(r, reg, additional) == gap + "  "@ + padded + " = "@ + h + end);
    assert(gap + "  "@ + padded + " = "@ + h + end =~= (gap + "  "@ + pad) + n + end);
    let z: int = 0;
    assert(n.subrange(z, z + n.len()) =~= n);
    lemma_contains_within(gap + "  "@ + pad, n, end, n);
}

proof fn lemma_registers_seq_show(regs: Seq<RegisterValue>, additional: bool, r: int)
    requires
        0 <= r < regs.len(),
    ensures
        contains_text(registers_seq_text(regs, additional), register_reference(regs[r])),
    decreases regs.len(),
{
    let n = register_reference(regs[r]);
    let front = registers_seq_text(regs.drop_last(), additional);
    let last = register_text((regs.len() - 1) as nat, regs.last(), additional);
    assert(registers_seq_text(regs, additional) == front + last);
    if r == regs.len() - 1 {
        lemma_register_text_shows((regs.len() - 1) as nat, regs.last(), additional);
        lemma_contains_within(front, last, Seq::empty(), n);
        assert(front + last + Seq::<char>::empty() =~= front + last);
    } else {
        assert(regs.drop_last()[r] == regs[r]);
        lemma_registers_seq_show(regs.drop_last(), additional, r);
        lemma_contains_within(Seq::empty(), front, last, n);
        assert(Seq::<char>::empty() + front + last =~= front + last);
    }
}

/// The register block shows every register's name with its value.
pub proof fn lemma_registers_show_values(regs: Seq<RegisterValue>, additional: bool, r: int)
    requires
        0 <= r < regs.len(),
    ensures
        contains_text(registers_text(regs, additional), register_reference(regs[r])),
{
    lemma_registers_seq_show(regs, additional, r);
    lemma_contains_within("   |\n   +--->"@, registers_seq_text(regs, additional), Seq::empty(), register_reference(regs[r]));
    assert("   |\n   +--->"@ + registers_seq_text(regs, additional) + Seq::<char>::empty() =~= registers_text(regs, additional));
}

} // verus!
